//! Run identifiers: 128-bit ULID values, issued in strictly increasing order
//! and written in the canonical 26-character Crockford base-32 form, whose
//! string order matches the numeric order.

use vstd::prelude::*;
use crate::text::concat3;

verus! {

/// The Crockford base-32 alphabet used by ULIDs, in digit order.
pub open spec fn crockford_alphabet() -> Seq<char> {
    seq![
        '0', '1', '2', '3', '4', '5', '6', '7', '8', '9', 'A', 'B', 'C', 'D', 'E', 'F',
        'G', 'H', 'J', 'K', 'M', 'N', 'P', 'Q', 'R', 'S', 'T', 'V', 'W', 'X', 'Y', 'Z',
    ]
}

/// The last `n` base-32 digits of `v`, most significant first.
pub open spec fn base32_digits(v: nat, n: nat) -> Seq<char>
    decreases n,
{
    if n == 0 {
        Seq::empty()
    } else {
        base32_digits(v / 32, (n - 1) as nat).push(crockford_alphabet()[(v % 32) as int])
    }
}

/// The canonical text of a ULID value: 26 base-32 digits.
pub open spec fn ulid_text(v: u128) -> Seq<char> {
    base32_digits(v as nat, 26)
}

/// The digit value of a character in a ULID text (either case, without the
/// excluded letters I, L, O and U), or -1.
pub open spec fn crockford_value(c: char) -> int {
    let u = if 'a' <= c <= 'z' { (c as int) - 32 } else { c as int };
    if '0' as int <= u <= '9' as int {
        u - '0' as int
    } else if 'A' as int <= u <= 'H' as int {
        u - 'A' as int + 10
    } else if u == 'J' as int || u == 'K' as int {
        u - 'J' as int + 18
    } else if u == 'M' as int || u == 'N' as int {
        u - 'M' as int + 20
    } else if 'P' as int <= u <= 'T' as int {
        u - 'P' as int + 22
    } else if 'V' as int <= u <= 'Z' as int {
        u - 'V' as int + 27
    } else {
        -1
    }
}

/// Every character of `s` is a base-32 digit.
pub open spec fn all_crockford(s: Seq<char>) -> bool {
    forall|i: int| 0 <= i < s.len() ==> crockford_value(#[trigger] s[i]) >= 0
}

/// The number that the base-32 digits of `s` spell, most significant first.
pub open spec fn base32_value(s: Seq<char>) -> int
    decreases s.len(),
{
    if s.len() == 0 {
        0
    } else {
        base32_value(s.drop_last()) * 32 + crockford_value(s.last())
    }
}

/// Why a text is not a ULID.
#[derive(Clone, Copy, Debug, PartialEq, Eq, Structural)]
pub enum UlidTextError {
    InvalidLength,
    InvalidChar,
}

/// Relies on `ulid::Ulid::to_string`: the 26 base-32 digits of the value,
/// most significant first.
#[verifier::external_body]
fn encode_ulid(value: u128) -> (r: String)
    ensures
        r@ == ulid_text(value),
{
    ulid::Ulid(value).to_string()
}

/// Relies on `ulid::Ulid::from_string`: a text of 26 base-32 digits (either
/// case) decodes to the value they spell, kept to its low 128 bits.
#[verifier::external_body]
fn decode_ulid(s: &str) -> (r: Result<u128, UlidTextError>)
    ensures
        r is Ok <==> (s@.len() == 26 && all_crockford(s@)),
        r is Ok ==> r->Ok_0 as int == base32_value(s@) % (u128::MAX as int + 1),
{
    match ulid::Ulid::from_string(s) {
        Ok(u) => Ok(u.0),
        Err(ulid::DecodeError::InvalidLength) => Err(UlidTextError::InvalidLength),
        Err(ulid::DecodeError::InvalidChar) => Err(UlidTextError::InvalidChar),
    }
}

/// Relies on `ulid::Ulid::new`: a fresh ULID from the clock and a random
/// source; nothing is promised of its value.
#[verifier::external_body]
fn fresh_ulid() -> (r: u128) {
    ulid::Ulid::new().0
}

/// `a` comes before `b` in the order of their characters' code points, which
/// is also the byte order of their UTF-8 encodings.
pub open spec fn text_less(a: Seq<char>, b: Seq<char>) -> bool {
    exists|i: int|
        0 <= i < a.len() && i < b.len() && a.subrange(0, i) == b.subrange(0, i) && (a[i] as u32)
            < (b[i] as u32)
}

/// 32 to the power `n`.
pub open spec fn pow32(n: nat) -> nat
    decreases n,
{
    if n == 0 {
        1
    } else {
        32 * pow32((n - 1) as nat)
    }
}

proof fn lemma_alphabet_increasing(d1: int, d2: int)
    requires
        0 <= d1 < d2 < 32,
    ensures
        (crockford_alphabet()[d1] as u32) < (crockford_alphabet()[d2] as u32),
    decreases d2 - d1,
{
    let a = crockford_alphabet();
    assert(forall|k: int| 0 <= k < 31 ==> (#[trigger] a[k] as u32) < (a[k + 1] as u32));
    if d2 > d1 + 1 {
        lemma_alphabet_increasing(d1, d2 - 1);
    }
}

proof fn lemma_digits_len(v: nat, n: nat)
    ensures
        base32_digits(v, n).len() == n,
    decreases n,
{
    if n > 0 {
        lemma_digits_len(v / 32, (n - 1) as nat);
    }
}

proof fn lemma_digits_order(v1: nat, v2: nat, n: nat)
    requires
        v1 < v2 < pow32(n),
    ensures
        text_less(base32_digits(v1, n), base32_digits(v2, n)),
    decreases n,
{
    let q1 = v1 / 32;
    let q2 = v2 / 32;
    let r1 = v1 % 32;
    let r2 = v2 % 32;
    assert(n > 0);
    let m = (n - 1) as nat;
    assert(v1 == 32 * q1 + r1 && v2 == 32 * q2 + r2 && r1 < 32 && r2 < 32) by (nonlinear_arith)
        requires
            q1 == v1 / 32,
            q2 == v2 / 32,
            r1 == v1 % 32,
            r2 == v2 % 32,
    ;
    assert(q2 < pow32(m)) by (nonlinear_arith)
        requires
            v2 == 32 * q2 + r2,
            r2 >= 0,
            v2 < 32 * pow32(m),
    ;
    assert(q1 <= q2) by (nonlinear_arith)
        requires
            v1 == 32 * q1 + r1,
            v2 == 32 * q2 + r2,
            0 <= r1 < 32,
            0 <= r2 < 32,
            v1 < v2,
    ;
    let a = base32_digits(v1, n);
    let b = base32_digits(v2, n);
    let pa = base32_digits(q1, m);
    let pb = base32_digits(q2, m);
    lemma_digits_len(q1, m);
    lemma_digits_len(q2, m);
    assert(a == pa.push(crockford_alphabet()[r1 as int]));
    assert(b == pb.push(crockford_alphabet()[r2 as int]));
    if q1 < q2 {
        lemma_digits_order(q1, q2, m);
        let i = choose|i: int|
            0 <= i < pa.len() && i < pb.len() && pa.subrange(0, i) == pb.subrange(0, i) && (
            pa[i] as u32) < (pb[i] as u32);
        assert(a.subrange(0, i) =~= pa.subrange(0, i));
        assert(b.subrange(0, i) =~= pb.subrange(0, i));
        assert(a[i] == pa[i] && b[i] == pb[i]);
    } else {
        assert(r1 < r2);
        lemma_alphabet_increasing(r1 as int, r2 as int);
        let i = m as int;
        assert(a.subrange(0, i) =~= pa);
        assert(b.subrange(0, i) =~= pb);
        assert(text_less(a, b));
    }
}

/// Run identifiers in numeric order have texts in the same order: for
/// identifiers issued one after another, the string encodings increase too.
pub proof fn lemma_text_order_matches(a: u128, b: u128)
    requires
        a < b,
    ensures
        text_less(ulid_text(a), ulid_text(b)),
{
    reveal_with_fuel(pow32, 27);
    assert(pow32(26) > u128::MAX);
    lemma_digits_order(a as nat, b as nat, 26);
}

proof fn lemma_alphabet_values()
    ensures
        forall|d: int| 0 <= d < 32 ==> crockford_value(#[trigger] crockford_alphabet()[d]) == d,
{
    let a = crockford_alphabet();
    assert(crockford_value(a[0]) == 0 && crockford_value(a[1]) == 1 && crockford_value(a[2]) == 2
        && crockford_value(a[3]) == 3 && crockford_value(a[4]) == 4 && crockford_value(a[5]) == 5
        && crockford_value(a[6]) == 6 && crockford_value(a[7]) == 7);
    assert(crockford_value(a[8]) == 8 && crockford_value(a[9]) == 9 && crockford_value(a[10]) == 10
        && crockford_value(a[11]) == 11 && crockford_value(a[12]) == 12 && crockford_value(a[13])
        == 13 && crockford_value(a[14]) == 14 && crockford_value(a[15]) == 15);
    assert(crockford_value(a[16]) == 16 && crockford_value(a[17]) == 17 && crockford_value(a[18])
        == 18 && crockford_value(a[19]) == 19 && crockford_value(a[20]) == 20 && crockford_value(
        a[21],
    ) == 21 && crockford_value(a[22]) == 22 && crockford_value(a[23]) == 23);
    assert(crockford_value(a[24]) == 24 && crockford_value(a[25]) == 25 && crockford_value(a[26])
        == 26 && crockford_value(a[27]) == 27 && crockford_value(a[28]) == 28 && crockford_value(
        a[29],
    ) == 29 && crockford_value(a[30]) == 30 && crockford_value(a[31]) == 31);
}

proof fn lemma_digits_value(v: nat, n: nat)
    ensures
        base32_value(base32_digits(v, n)) == v % pow32(n),
        all_crockford(base32_digits(v, n)),
    decreases n,
{
    lemma_alphabet_values();
    if n > 0 {
        let m = (n - 1) as nat;
        lemma_digits_value(v / 32, m);
        let s = base32_digits(v, n);
        let p = base32_digits(v / 32, m);
        assert(s.drop_last() =~= p);
        assert(crockford_value(s.last()) == v % 32);
        assert(pow32(m) > 0) by {
            lemma_pow32_positive(m);
        }
        assert((v / 32) % pow32(m) * 32 + v % 32 == v % (32 * pow32(m))) by {
            vstd::arithmetic::div_mod::lemma_breakdown(v as int, 32, pow32(m) as int);
        }
        assert forall|i: int| 0 <= i < s.len() implies crockford_value(#[trigger] s[i]) >= 0 by {
            if i < s.len() - 1 {
                assert(s[i] == p[i]);
            }
        }
    }
}

proof fn lemma_pow32_positive(n: nat)
    ensures
        pow32(n) > 0,
    decreases n,
{
    if n > 0 {
        lemma_pow32_positive((n - 1) as nat);
    }
}

/// Parsing the text of an identifier gives back the identifier.
pub proof fn lemma_text_round_trip(v: u128)
    ensures
        ulid_text(v).len() == 26,
        all_crockford(ulid_text(v)),
        base32_value(ulid_text(v)) % (u128::MAX as int + 1) == v,
{
    reveal_with_fuel(pow32, 27);
    assert(pow32(26) > u128::MAX);
    lemma_digits_len(v as nat, 26);
    lemma_digits_value(v as nat, 26);
    assert((v as nat) % pow32(26) == v) by {
        vstd::arithmetic::div_mod::lemma_small_mod(v as nat, pow32(26));
    }
    assert((v as int) % (u128::MAX as int + 1) == v) by {
        vstd::arithmetic::div_mod::lemma_small_mod(v as nat, (u128::MAX as int + 1) as nat);
    }
}

/// An identifier issued by a generator whose last issued value is at least
/// an earlier identifier's (as it is after any number of issues from the
/// same generator, whose last value only grows) is larger than it, and so is
/// its text.
pub proof fn lemma_successive_ids_increase(
    first: WorkflowRunId,
    between: RunIdGenerator,
    second: WorkflowRunId,
)
    requires
        between.last >= first.value(),
        second.value() > between.last,
    ensures
        first.value() < second.value(),
        text_less(ulid_text(first.value()), ulid_text(second.value())),
{
    lemma_text_order_matches(first.value(), second.value());
}

/// Issues run identifiers in strictly increasing order within a process: a
/// fresh ULID is used when it is above the last one issued, and the last one
/// plus one otherwise.
pub struct RunIdGenerator {
    pub last: u128,
}

impl RunIdGenerator {
    /// A generator that has issued nothing.
    pub fn new() -> (r: Self)
        ensures
            r.last == 0,
    {
        RunIdGenerator { last: 0 }
    }

    /// Whether another identifier can be issued (the last one is not the
    /// largest 128-bit value).
    pub fn can_issue(&self) -> (r: bool)
        ensures
            r == (self.last < u128::MAX),
    {
        self.last < u128::MAX
    }

    /// Issues the identifier that follows the last one, given a freshly drawn
    /// ULID value.
    pub fn issue(&mut self, fresh: u128) -> (r: WorkflowRunId)
        requires
            old(self).last < u128::MAX,
        ensures
            r.value() == (if fresh > old(self).last {
                fresh
            } else {
                (old(self).last + 1) as u128
            }),
            r.value() > old(self).last,
            final(self).last == r.value(),
    {
        let v = if fresh > self.last {
            fresh
        } else {
            self.last + 1
        };
        self.last = v;
        WorkflowRunId { value: v }
    }
}

/// Unique identifier of a workflow run.
#[derive(Clone, Copy, Debug, PartialEq, Eq, Structural, PartialOrd, Ord, Hash)]
pub struct WorkflowRunId {
    value: u128,
}

impl WorkflowRunId {
    /// The identifier's 128-bit value.
    pub closed spec fn value(self) -> u128 {
        self.value
    }

    /// Issues a new identifier from `ids`, above every one it issued before.
    pub fn new(ids: &mut RunIdGenerator) -> (r: Self)
        requires
            old(ids).last < u128::MAX,
        ensures
            r.value() > old(ids).last,
            final(ids).last == r.value(),
    {
        let fresh = fresh_ulid();
        ids.issue(fresh)
    }

    /// The identifier with the given 128-bit value.
    pub fn from_u128(value: u128) -> (r: Self)
        ensures
            r.value() == value,
    {
        WorkflowRunId { value }
    }

    /// The identifier's 128-bit value.
    pub fn as_u128(&self) -> (r: u128)
        ensures
            r == self.value(),
    {
        self.value
    }

    /// The canonical text of the identifier.
    pub fn to_string(&self) -> (r: String)
        ensures
            r@ == ulid_text(self.value()),
    {
        encode_ulid(self.value)
    }

    /// Parses an identifier from its text: 26 base-32 digits in either case.
    pub fn parse(s: &str) -> (r: Result<Self, String>)
        ensures
            r is Ok <==> (s@.len() == 26 && all_crockford(s@)),
            r is Ok ==> r->Ok_0.value() as int == base32_value(s@)
                % (u128::MAX as int + 1),
            r is Err ==> exists|detail: Seq<char>|
                r->Err_0@ == "Invalid workflow run ID '"@ + s@ + "': "@ + detail,
    {
        match decode_ulid(s) {
            Ok(v) => Ok(WorkflowRunId { value: v }),
            Err(e) => {
                let detail = match e {
                    UlidTextError::InvalidLength => "invalid length",
                    UlidTextError::InvalidChar => "invalid character",
                };
                let mut msg = concat3("Invalid workflow run ID '", s, "': ");
                msg.append(detail);
                Err(msg)
            },
        }
    }
}

} // verus!
