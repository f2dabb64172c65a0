//! The issue-branch merge action: how a failure is classified, which branch
//! an issue branch merges back into, and the messages it reports.

use vstd::prelude::*;
use crate::action::ActionResult;
use crate::text::{
    chars_of, concat2, concat3, contains_seq, contains_text, has_prefix, starts_with_text,
};

verus! {

/// Branch names of issue work branches start with this.
pub const ISSUE_BRANCH_PREFIX: &'static str = "issue/";

/// Branch reported as the target when the ancestry walk found none.
pub const DEFAULT_TARGET_BRANCH: &'static str = "main";

/// How a failed merge is to be treated.
#[derive(Clone, Copy, Debug, PartialEq, Eq, Structural)]
pub enum MergeFailure {
    /// The repository is in a state that retrying cannot fix (a missing or
    /// deleted branch, an unresolved conflict, a failed automatic merge).
    Irrecoverable,
    /// Anything else: reported, and the workflow decides what follows.
    Transient,
}

/// The error text names a state of the repository that retrying cannot fix.
pub open spec fn is_irrecoverable(message: Seq<char>) -> bool {
    ||| contains_seq(message, "does not exist"@)
    ||| contains_seq(message, "deleted"@)
    ||| contains_seq(message, "CONFLICT"@)
    ||| contains_seq(message, "Automatic merge failed"@)
}

/// Classifies the text of a merge error by the markers of irrecoverable
/// repository state that it contains.
pub fn classify_merge_error(message: &str) -> (r: MergeFailure)
    ensures
        r == MergeFailure::Irrecoverable <==> is_irrecoverable(message@),
{
    if contains_text(message, "does not exist") || contains_text(message, "deleted")
        || contains_text(message, "CONFLICT") || contains_text(message, "Automatic merge failed") {
        MergeFailure::Irrecoverable
    } else {
        MergeFailure::Transient
    }
}

/// The action result for a merge that failed with `error`: fatal when the
/// error marks irrecoverable repository state, recoverable otherwise.
pub fn merge_failure_result(issue_name: &str, error: &str) -> (r: ActionResult)
    ensures
        is_irrecoverable(error@) ==> (r matches ActionResult::Fatal { message, reason } && message@
            == "Merge failed for issue '"@ + issue_name@ + "': "@ + error@ && reason@ == error@),
        !is_irrecoverable(error@) ==> (r matches ActionResult::Recoverable(m) && m@
            == "Failed to merge branch: "@ + error@),
{
    match classify_merge_error(error) {
        MergeFailure::Irrecoverable => {
            let head = concat3("Merge failed for issue '", issue_name, "': ");
            ActionResult::Fatal {
                message: concat2(head.as_str(), error),
                reason: String::from_str(error),
            }
        },
        MergeFailure::Transient => ActionResult::Recoverable(
            concat2("Failed to merge branch: ", error),
        ),
    }
}

/// A branch that an issue branch may have been created from, with the number
/// of commits between its merge base with the issue branch and the issue
/// branch's tip: the smaller, the more recently the issue branch forked off.
pub struct BranchCandidate {
    pub name: String,
    pub distance: u64,
}

/// A candidate can be a merge target of `source`: it is neither the source
/// itself nor another issue branch.
pub open spec fn eligible_target(c: BranchCandidate, source: Seq<char>) -> bool {
    c.name@ != source && !has_prefix(c.name@, ISSUE_BRANCH_PREFIX@)
}

/// Candidate `i` is the nearest eligible ancestor, the first of them on a tie.
pub open spec fn is_nearest_target(cs: Seq<BranchCandidate>, source: Seq<char>, i: int) -> bool {
    &&& 0 <= i < cs.len()
    &&& eligible_target(cs[i], source)
    &&& forall|j: int|
        0 <= j < cs.len() && eligible_target(cs[j], source) ==> cs[i].distance <= cs[j].distance
    &&& forall|j: int|
        0 <= j < i && eligible_target(cs[j], source) ==> cs[i].distance < cs[j].distance
}

/// Whether `c` can be a merge target of `source`.
fn is_eligible(c: &BranchCandidate, source: &String) -> (r: bool)
    ensures
        r == eligible_target(*c, source@),
{
    !(c.name == *source) && !starts_with_text(c.name.as_str(), ISSUE_BRANCH_PREFIX)
}

/// The branch that `source` merges back into: of the candidates that are
/// neither `source` nor an issue branch, the one whose merge base with
/// `source` lies nearest to its tip (the first of them on a tie), so that a
/// branch created from a non-trunk parent merges back into that parent.
pub fn resolve_merge_target(source: &str, candidates: &Vec<BranchCandidate>) -> (r: Option<String>)
    ensures
        r is None <==> forall|j: int|
            0 <= j < candidates@.len() ==> !eligible_target(candidates@[j], source@),
        r is Some ==> exists|i: int|
            is_nearest_target(candidates@, source@, i) && r->Some_0@ == candidates@[i].name@,
{
    let src = String::from_str(source);
    let mut best: Option<usize> = None;
    let mut i: usize = 0;
    while i < candidates.len()
        invariant
            i <= candidates@.len(),
            src@ == source@,
            best is None ==> forall|j: int| 0 <= j < i ==> !eligible_target(candidates@[j], source@),
            best is Some ==> {
                let b = best->Some_0 as int;
                &&& b < i
                &&& eligible_target(candidates@[b], source@)
                &&& forall|j: int|
                    0 <= j < i && eligible_target(candidates@[j], source@)
                        ==> candidates@[b].distance <= candidates@[j].distance
                &&& forall|j: int|
                    0 <= j < b && eligible_target(candidates@[j], source@)
                        ==> candidates@[b].distance < candidates@[j].distance
            },
        decreases candidates@.len() - i,
    {
        if is_eligible(&candidates[i], &src) {
            match best {
                None => {
                    best = Some(i);
                },
                Some(b) => {
                    if candidates[i].distance < candidates[b].distance {
                        best = Some(i);
                    }
                },
            }
        }
        i += 1;
    }
    match best {
        None => None,
        Some(b) => {
            assert(is_nearest_target(candidates@, source@, b as int));
            Some(candidates[b].name.clone())
        },
    }
}

/// The target branch named in the success message: the resolved one, or the
/// default trunk when none could be resolved.
pub fn merge_target_label(found: &Option<String>) -> (r: String)
    ensures
        found is Some ==> r@ == found->Some_0@,
        found is None ==> r@ == DEFAULT_TARGET_BRANCH@,
{
    match found {
        Some(name) => name.clone(),
        None => String::from_str(DEFAULT_TARGET_BRANCH),
    }
}

/// The pieces of `s` between occurrences of `sep`, in order; there is always
/// at least one piece.
pub open spec fn split_on(s: Seq<char>, sep: char) -> Seq<Seq<char>>
    decreases s.len(),
{
    if s.len() == 0 {
        seq![Seq::empty()]
    } else {
        let prev = split_on(s.drop_last(), sep);
        if s.last() == sep {
            prev.push(Seq::empty())
        } else {
            prev.update(prev.len() - 1, prev.last().push(s.last()))
        }
    }
}

/// Splits `s` at every occurrence of `sep`.
pub fn split_text(s: &str, sep: char) -> (r: Vec<String>)
    ensures
        r@.map_values(|p: String| p@) == split_on(s@, sep),
{
    let cs = chars_of(s);
    let n = cs.len();
    let mut parts: Vec<String> = Vec::new();
    let mut start: usize = 0;
    let mut i: usize = 0;
    assert(s@.subrange(0, 0) =~= Seq::<char>::empty());
    assert(parts@.map_values(|p: String| p@).push(s@.subrange(0, 0)) =~= split_on(
        s@.subrange(0, 0),
        sep,
    ));
    while i < n
        invariant
            n == cs@.len(),
            cs@ == s@,
            start <= i <= n,
            parts@.map_values(|p: String| p@).push(s@.subrange(start as int, i as int)) == split_on(
                s@.subrange(0, i as int),
                sep,
            ),
        decreases n - i,
    {
        let ghost views = parts@.map_values(|p: String| p@);
        let ghost seg = s@.subrange(start as int, i as int);
        let ghost pre = s@.subrange(0, i as int);
        let ghost nxt = s@.subrange(0, i + 1);
        assert(nxt.drop_last() =~= pre);
        assert(nxt.last() == cs@[i as int]);
        if cs[i] == sep {
            parts.push(String::from_str(s.substring_char(start, i)));
            start = i + 1;
            assert(parts@.map_values(|p: String| p@) =~= views.push(seg));
            assert(s@.subrange(start as int, i + 1) =~= Seq::<char>::empty());
        } else {
            assert(s@.subrange(start as int, i + 1) =~= seg.push(cs@[i as int]));
            assert(views.push(seg).update(views.len() as int, seg.push(cs@[i as int])) =~= views.push(
                s@.subrange(start as int, i + 1),
            ));
        }
        i += 1;
    }
    let ghost views = parts@.map_values(|p: String| p@);
    parts.push(String::from_str(s.substring_char(start, n)));
    assert(parts@.map_values(|p: String| p@) =~= views.push(s@.subrange(start as int, n as int)));
    assert(s@.subrange(0, n as int) =~= s@);
    parts
}

/// The first eight characters of a commit hash, or all of it when shorter.
pub open spec fn short_hash(h: Seq<char>) -> Seq<char> {
    if h.len() <= 8 {
        h
    } else {
        h.subrange(0, 8)
    }
}

/// The report appended to a merge message for the last commit, given as
/// `hash|message|author|date`; other text is shown as it is.
pub open spec fn commit_report(info: Seq<char>) -> Seq<char> {
    let parts = split_on(info, '|');
    if parts.len() >= 4 {
        "\n\nMerge commit: "@ + short_hash(parts[0]) + "\nMessage: "@ + parts[1] + "\nAuthor: "@
            + parts[2] + "\nDate: "@ + parts[3]
    } else {
        "\n\nMerge commit: "@ + info
    }
}

/// Formats the last commit's information for a merge message; nothing when
/// it could not be read.
pub fn format_commit_info(info: &Option<String>) -> (r: String)
    ensures
        info is None ==> r@ == Seq::<char>::empty(),
        info is Some ==> r@ == commit_report(info->Some_0@),
{
    match info {
        None => String::new(),
        Some(text) => {
            let parts = split_text(text.as_str(), '|');
            let ghost views = parts@.map_values(|p: String| p@);
            assert(views.len() == parts@.len());
            if parts.len() >= 4 {
                assert(views[0] == parts@[0]@ && views[1] == parts@[1]@);
                assert(views[2] == parts@[2]@ && views[3] == parts@[3]@);
                let hash = &parts[0];
                let hash_len = hash.as_str().unicode_len();
                let short = if hash_len <= 8 {
                    hash.as_str()
                } else {
                    hash.as_str().substring_char(0, 8)
                };
                let mut out = String::from_str("\n\nMerge commit: ");
                out.append(short);
                out.append("\nMessage: ");
                out.append(parts[1].as_str());
                out.append("\nAuthor: ");
                out.append(parts[2].as_str());
                out.append("\nDate: ");
                out.append(parts[3].as_str());
                out
            } else {
                concat2("\n\nMerge commit: ", text.as_str())
            }
        },
    }
}

/// What became of the request to delete the issue branch after a merge.
pub enum DeletionOutcome {
    NotRequested,
    Deleted,
    Failed(String),
}

/// The note a deletion outcome adds to the merge message.
pub open spec fn deletion_note(branch: Seq<char>, d: DeletionOutcome) -> Seq<char> {
    match d {
        DeletionOutcome::NotRequested => Seq::empty(),
        DeletionOutcome::Deleted => " and deleted branch "@ + branch,
        DeletionOutcome::Failed(e) => " but failed to delete branch: "@ + e@,
    }
}

/// The message reported after a successful merge.
pub open spec fn merge_success_text(
    issue: Seq<char>,
    target: Seq<char>,
    deletion: DeletionOutcome,
    commit: Seq<char>,
) -> Seq<char> {
    "Merged work branch for issue "@ + issue + " to "@ + target + " (determined by git merge-base)"@
        + deletion_note(ISSUE_BRANCH_PREFIX@ + issue, deletion) + commit
}

/// The message returned when the issue is not completed yet.
pub open spec fn incomplete_issue_text(issue: Seq<char>) -> Seq<char> {
    "Issue '"@ + issue + "' must be completed before merging"@
}

/// The message returned when no version-control handle is configured.
pub open spec fn git_unavailable_text() -> Seq<char> {
    "Git operations not available"@
}

/// The tool that merges an issue's work branch back into the branch it was
/// created from.
#[derive(Clone, Copy, Debug, Default)]
pub struct MergeIssueTool;

impl MergeIssueTool {
    /// Creates the tool.
    pub fn new() -> (r: Self) {
        MergeIssueTool
    }

    /// The work branch of an issue: the issue name under the issue prefix.
    pub fn format_issue_branch_name(issue_name: &str) -> (r: String)
        ensures
            r@ == ISSUE_BRANCH_PREFIX@ + issue_name@,
    {
        concat2(ISSUE_BRANCH_PREFIX, issue_name)
    }

    /// The name under which the tool is invoked.
    pub fn name(&self) -> (r: &'static str)
        ensures
            r@ == "issue_merge"@,
    {
        "issue_merge"
    }

    /// The human-readable description of the tool.
    pub fn description(&self) -> (r: &'static str) {
        "Merge the work branch for an issue back into the branch it was created from."
    }

    /// Decides, before any merge is attempted, whether it may go ahead:
    /// `None` to proceed, or the recoverable result to report.
    pub fn check_preconditions(issue_name: &str, completed: bool, git_available: bool) -> (r:
        Option<ActionResult>)
        ensures
            completed && git_available <==> r is None,
            !completed ==> (r matches Some(ActionResult::Recoverable(m)) && m@
                == incomplete_issue_text(issue_name@)),
            completed && !git_available ==> (r matches Some(ActionResult::Recoverable(m)) && m@
                == git_unavailable_text()),
    {
        if !completed {
            Some(ActionResult::Recoverable(concat3("Issue '", issue_name, "' must be completed before merging")))
        } else if !git_available {
            Some(ActionResult::Recoverable(String::from_str("Git operations not available")))
        } else {
            None
        }
    }

    /// The message reported after a successful merge into `target`, with the
    /// outcome of the optional branch deletion and the last commit's report.
    pub fn success_message(
        issue_name: &str,
        target: &str,
        deletion: &DeletionOutcome,
        commit_info: &str,
    ) -> (r: String)
        ensures
            r@ == merge_success_text(issue_name@, target@, *deletion, commit_info@),
    {
        let mut out = String::from_str("Merged work branch for issue ");
        out.append(issue_name);
        out.append(" to ");
        out.append(target);
        out.append(" (determined by git merge-base)");
        match deletion {
            DeletionOutcome::NotRequested => {},
            DeletionOutcome::Deleted => {
                let branch = Self::format_issue_branch_name(issue_name);
                out.append(" and deleted branch ");
                out.append(branch.as_str());
            },
            DeletionOutcome::Failed(e) => {
                out.append(" but failed to delete branch: ");
                out.append(e.as_str());
            },
        }
        out.append(commit_info);
        assert(out@ =~= merge_success_text(issue_name@, target@, *deletion, commit_info@));
        out
    }
}

} // verus!
