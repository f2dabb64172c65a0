//! What the issue tools compute around their calls into the issue store and
//! version control: branch and issue names, and the messages they report.

use vstd::prelude::*;
use crate::issues::IssueError;
use crate::merge::ISSUE_BRANCH_PREFIX;
use crate::text::{chars_of, concat2, push_char, strip_prefix_text};

verus! {

/// Width to which issue numbers are zero-padded in names.
pub const ISSUE_NUMBER_WIDTH: usize = 6;

/// The decimal digit characters.
pub open spec fn digit_chars() -> Seq<char> {
    seq!['0', '1', '2', '3', '4', '5', '6', '7', '8', '9']
}

/// The decimal numeral of `n`, without leading zeros.
pub open spec fn decimal(n: nat) -> Seq<char>
    decreases n,
{
    if n < 10 {
        seq![digit_chars()[n as int]]
    } else {
        decimal(n / 10).push(digit_chars()[(n % 10) as int])
    }
}

/// The decimal numeral of `n`, padded on the left with zeros to `width`.
pub open spec fn zero_padded(n: nat, width: nat) -> Seq<char> {
    let d = decimal(n);
    if d.len() >= width {
        d
    } else {
        Seq::new((width - d.len()) as nat, |i: int| '0') + d
    }
}

/// The character of a decimal digit.
fn digit_char(d: u32) -> (r: char)
    requires
        d < 10,
    ensures
        r == digit_chars()[d as int],
{
    if d == 0 {
        '0'
    } else if d == 1 {
        '1'
    } else if d == 2 {
        '2'
    } else if d == 3 {
        '3'
    } else if d == 4 {
        '4'
    } else if d == 5 {
        '5'
    } else if d == 6 {
        '6'
    } else if d == 7 {
        '7'
    } else if d == 8 {
        '8'
    } else {
        '9'
    }
}

/// Appends the decimal numeral of `n`.
fn push_decimal(out: &mut String, n: u32)
    ensures
        final(out)@ == old(out)@ + decimal(n as nat),
    decreases n,
{
    if n >= 10 {
        push_decimal(out, n / 10);
    }
    push_char(out, digit_char(n % 10));
    assert(final(out)@ =~= old(out)@ + decimal(n as nat));
}

/// The decimal numeral of `n`.
pub fn format_decimal(n: u32) -> (r: String)
    ensures
        r@ == decimal(n as nat),
{
    let mut out = String::new();
    push_decimal(&mut out, n);
    assert(out@ =~= decimal(n as nat));
    out
}

/// The decimal numeral of `n`, zero-padded to the issue number width.
pub fn format_issue_number(n: u32) -> (r: String)
    ensures
        r@ == zero_padded(n as nat, ISSUE_NUMBER_WIDTH as nat),
{
    let digits = format_decimal(n);
    let len = digits.as_str().unicode_len();
    let mut out = String::new();
    let mut k: usize = len;
    while k < ISSUE_NUMBER_WIDTH
        invariant
            len == decimal(n as nat).len(),
            len <= k <= ISSUE_NUMBER_WIDTH || (len > ISSUE_NUMBER_WIDTH && k == len),
            out@ == Seq::new((k - len) as nat, |i: int| '0'),
        decreases ISSUE_NUMBER_WIDTH - k,
    {
        push_char(&mut out, '0');
        k += 1;
        assert(out@ =~= Seq::new((k - len) as nat, |i: int| '0'));
    }
    out.append(digits.as_str());
    if len >= ISSUE_NUMBER_WIDTH {
        assert(out@ =~= digits@);
    } else {
        assert(out@ =~= zero_padded(n as nat, ISSUE_NUMBER_WIDTH as nat));
    }
    out
}

/// The name under which an issue's work branch is created: its zero-padded
/// number, an underscore, and its name.
pub fn work_issue_name(number: u32, name: &str) -> (r: String)
    ensures
        r@ == zero_padded(number as nat, ISSUE_NUMBER_WIDTH as nat) + "_"@ + name@,
{
    let mut out = format_issue_number(number);
    out.append("_");
    out.append(name);
    out
}

/// The report of which issue the current branch belongs to.
pub open spec fn current_issue_text(branch: Seq<char>) -> Seq<char> {
    if branch.len() >= ISSUE_BRANCH_PREFIX@.len() && branch.subrange(0, ISSUE_BRANCH_PREFIX@.len() as int)
        == ISSUE_BRANCH_PREFIX@ {
        "Currently working on issue: "@ + branch.subrange(
            ISSUE_BRANCH_PREFIX@.len() as int,
            branch.len() as int,
        )
    } else {
        "Not on an issue branch. Current branch: "@ + branch
    }
}

/// Reports which issue the current branch belongs to, if it is an issue
/// branch.
pub fn current_issue_message(branch: &str) -> (r: String)
    ensures
        r@ == current_issue_text(branch@),
{
    match strip_prefix_text(branch, ISSUE_BRANCH_PREFIX) {
        Some(issue) => concat2("Currently working on issue: ", issue.as_str()),
        None => concat2("Not on an issue branch. Current branch: ", branch),
    }
}

/// The message for an issue number that the store does not hold.
pub fn issue_not_found_message(number: u32) -> (r: String)
    ensures
        r@ == "Issue #"@ + zero_padded(number as nat, ISSUE_NUMBER_WIDTH as nat) + " not found"@,
{
    let mut out = String::from_str("Issue #");
    let n = format_issue_number(number);
    out.append(n.as_str());
    out.append(" not found");
    out
}

/// The message reported for a failed issue operation.
pub fn issue_error_message(e: &IssueError) -> (r: String)
    ensures
        e matches IssueError::NotFound(n) ==> r@ == "Issue #"@ + zero_padded(
            n as nat,
            ISSUE_NUMBER_WIDTH as nat,
        ) + " not found"@,
        e is NumbersExhausted ==> r@ == "No issue numbers are left"@,
{
    match e {
        IssueError::NotFound(n) => issue_not_found_message(*n),
        IssueError::NumbersExhausted => String::from_str("No issue numbers are left"),
    }
}

/// The message after an issue's content was replaced.
pub fn issue_updated_message(number: u32, name: &str) -> (r: String)
    ensures
        r@ == "Updated issue "@ + decimal(number as nat) + " ("@ + name@ + ")"@,
{
    let mut out = String::from_str("Updated issue ");
    let n = format_decimal(number);
    out.append(n.as_str());
    out.append(" (");
    out.append(name);
    out.append(")");
    out
}

/// The message after switching to an issue's work branch.
pub fn switched_branch_message(branch: &str) -> (r: String)
    ensures
        r@ == "Switched to work branch: "@ + branch@,
{
    concat2("Switched to work branch: ", branch)
}

/// Whether `c` is white space in the sense of Unicode's White_Space property.
pub open spec fn is_white_space(c: char) -> bool {
    ||| ('\u{9}' <= c <= '\u{d}')
    ||| c == ' '
    ||| c == '\u{85}'
    ||| c == '\u{a0}'
    ||| c == '\u{1680}'
    ||| ('\u{2000}' <= c <= '\u{200a}')
    ||| c == '\u{2028}'
    ||| c == '\u{2029}'
    ||| c == '\u{202f}'
    ||| c == '\u{205f}'
    ||| c == '\u{3000}'
}

/// Whether `c` is white space.
fn white_space(c: char) -> (r: bool)
    ensures
        r == is_white_space(c),
{
    ('\u{9}' <= c && c <= '\u{d}') || c == ' ' || c == '\u{85}' || c == '\u{a0}' || c == '\u{1680}'
        || ('\u{2000}' <= c && c <= '\u{200a}') || c == '\u{2028}' || c == '\u{2029}' || c
        == '\u{202f}' || c == '\u{205f}' || c == '\u{3000}'
}

/// Whether the output of `git status --porcelain` reports a clean working
/// directory: nothing but white space.
pub fn working_directory_clean(status: &str) -> (r: bool)
    ensures
        r == forall|i: int| 0 <= i < status@.len() ==> is_white_space(#[trigger] status@[i]),
{
    let cs = chars_of(status);
    let mut i: usize = 0;
    while i < cs.len()
        invariant
            cs@ == status@,
            i <= cs@.len(),
            forall|j: int| 0 <= j < i ==> is_white_space(#[trigger] status@[j]),
        decreases cs@.len() - i,
    {
        if !white_space(cs[i]) {
            return false;
        }
        i += 1;
    }
    true
}

/// Longest issue name accepted, in characters.
pub const MAX_ISSUE_NAME_LEN: usize = 100;

/// Characters an issue name may not hold: path and shell punctuation, and
/// control characters.
pub open spec fn forbidden_name_char(c: char) -> bool {
    ||| c == '/'
    ||| c == '\\'
    ||| c == ':'
    ||| c == '*'
    ||| c == '?'
    ||| c == '"'
    ||| c == '<'
    ||| c == '>'
    ||| c == '|'
    ||| (c as u32) < 32
    ||| c == '\u{7f}'
}

fn forbidden_char(c: char) -> (r: bool)
    ensures
        r == forbidden_name_char(c),
{
    c == '/' || c == '\\' || c == ':' || c == '*' || c == '?' || c == '"' || c == '<' || c == '>'
        || c == '|' || (c as u32) < 32 || c == '\u{7f}'
}

/// `t` is `s` without its leading and trailing white space.
pub open spec fn is_trimmed_of(s: Seq<char>, t: Seq<char>) -> bool {
    exists|a: int, b: int|
        0 <= a <= b <= s.len() && t == s.subrange(a, b) && (forall|i: int|
            0 <= i < a ==> is_white_space(#[trigger] s[i])) && (forall|i: int|
            b <= i < s.len() ==> is_white_space(#[trigger] s[i])) && (a < b ==> !is_white_space(s[a])
            && !is_white_space(s[b - 1]))
}

/// Why an issue name is rejected.
#[derive(Clone, Copy, Debug, PartialEq, Eq, Structural)]
pub enum IssueNameError {
    Empty,
    TooLong,
    InvalidCharacter,
}

impl IssueNameError {
    /// The message reported for the rejection.
    pub fn message(&self) -> (r: &'static str) {
        match self {
            IssueNameError::Empty => "Issue name cannot be empty",
            IssueNameError::TooLong => "Issue name too long (max 100 characters)",
            IssueNameError::InvalidCharacter => "Issue name contains invalid characters",
        }
    }
}

/// The outcome of checking an already trimmed issue name.
pub open spec fn checked_name(t: Seq<char>) -> Result<Seq<char>, IssueNameError> {
    if t.len() == 0 {
        Err(IssueNameError::Empty)
    } else if t.len() > MAX_ISSUE_NAME_LEN {
        Err(IssueNameError::TooLong)
    } else if exists|i: int| 0 <= i < t.len() && forbidden_name_char(#[trigger] t[i]) {
        Err(IssueNameError::InvalidCharacter)
    } else {
        Ok(t)
    }
}

/// A validation result with the name as text.
pub open spec fn name_result_view(r: Result<String, IssueNameError>) -> Result<Seq<char>, IssueNameError> {
    match r {
        Ok(s) => Ok(s@),
        Err(e) => Err(e),
    }
}

/// Checks an issue name before any resource is touched: surrounding white
/// space is removed; the rest must be non-empty, at most the maximum length,
/// and free of forbidden characters. Returns the trimmed name.
pub fn validate_issue_name(name: &str) -> (r: Result<String, IssueNameError>)
    ensures
        exists|t: Seq<char>| is_trimmed_of(name@, t) && name_result_view(r) == checked_name(t),
{
    let cs = chars_of(name);
    let n = cs.len();
    let mut a: usize = 0;
    while a < n && white_space(cs[a])
        invariant
            cs@ == name@,
            n == cs@.len(),
            a <= n,
            forall|i: int| 0 <= i < a ==> is_white_space(#[trigger] name@[i]),
        decreases n - a,
    {
        a += 1;
    }
    let mut b: usize = n;
    while b > a && white_space(cs[b - 1])
        invariant
            cs@ == name@,
            n == cs@.len(),
            a <= b <= n,
            a < n ==> !is_white_space(name@[a as int]),
            forall|i: int| b <= i < n ==> is_white_space(#[trigger] name@[i]),
        decreases b - a,
    {
        b -= 1;
    }
    let ghost t = name@.subrange(a as int, b as int);
    assert(is_trimmed_of(name@, t));
    let r = if a == b {
        Err(IssueNameError::Empty)
    } else if b - a > MAX_ISSUE_NAME_LEN {
        Err(IssueNameError::TooLong)
    } else {
        let mut bad = false;
        let mut k: usize = a;
        while k < b
            invariant
                cs@ == name@,
                a <= k <= b,
                b <= n,
                n == cs@.len(),
                t == name@.subrange(a as int, b as int),
                bad == exists|i: int| 0 <= i < k - a && forbidden_name_char(#[trigger] t[i]),
            decreases b - k,
        {
            if forbidden_char(cs[k]) {
                assert(forbidden_name_char(t[k - a]));
                bad = true;
            }
            k += 1;
        }
        if bad {
            Err(IssueNameError::InvalidCharacter)
        } else {
            Ok(String::from_str(name.substring_char(a, b)))
        }
    };
    assert(name_result_view(r) == checked_name(t));
    r
}

} // verus!
