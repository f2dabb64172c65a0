//! An in-memory issue store: numbered issues with content and a completion
//! flag. Callers share it behind a reader/writer lock.

use vstd::prelude::*;

verus! {

/// One issue.
#[derive(Clone, Debug, PartialEq, Eq)]
pub struct Issue {
    pub number: u32,
    pub name: String,
    pub content: String,
    pub completed: bool,
}

/// Why an issue operation failed.
#[derive(Clone, Copy, Debug, PartialEq, Eq, Structural)]
pub enum IssueError {
    /// No issue has this number.
    NotFound(u32),
    /// Every issue number has been used.
    NumbersExhausted,
}

/// Issues, in increasing order of number, and the next number to assign.
#[derive(Clone, Debug)]
pub struct IssueStore {
    pub issues: Vec<Issue>,
    pub next_number: u32,
}

/// Position of the issue with this number.
pub open spec fn issue_pos(issues: Seq<Issue>, number: u32) -> Option<int> {
    if exists|i: int| 0 <= i < issues.len() && issues[i].number == number {
        Some(choose|i: int| 0 <= i < issues.len() && issues[i].number == number)
    } else {
        None
    }
}

/// Number of issues not completed.
pub open spec fn pending(issues: Seq<Issue>) -> nat
    decreases issues.len(),
{
    if issues.len() == 0 {
        0
    } else {
        pending(issues.drop_last()) + if issues.last().completed {
            0nat
        } else {
            1nat
        }
    }
}

impl IssueStore {
    /// Numbers strictly increase along the list and are below the next number.
    pub open spec fn wf(&self) -> bool {
        &&& forall|i: int, j: int|
            0 <= i < j < self.issues@.len() ==> (#[trigger] self.issues@[i]).number < (
            #[trigger] self.issues@[j]).number
        &&& forall|i: int|
            0 <= i < self.issues@.len() ==> (#[trigger] self.issues@[i]).number < self.next_number
        &&& self.next_number >= 1
    }

    /// An empty store; the first issue gets number 1.
    pub fn new() -> (r: Self)
        ensures
            r.wf(),
            r.issues@.len() == 0,
            r.next_number == 1,
    {
        IssueStore { issues: Vec::new(), next_number: 1 }
    }

    /// Position of the issue with this number.
    fn position(&self, number: u32) -> (r: Option<usize>)
        requires
            self.wf(),
        ensures
            r is None <==> issue_pos(self.issues@, number) is None,
            r matches Some(i) ==> i < self.issues@.len() && self.issues@[i as int].number == number
                && issue_pos(self.issues@, number) == Some(i as int),
    {
        let mut i: usize = 0;
        while i < self.issues.len()
            invariant
                self.wf(),
                i <= self.issues@.len(),
                forall|j: int| 0 <= j < i ==> self.issues@[j].number != number,
            decreases self.issues@.len() - i,
        {
            if self.issues[i].number == number {
                proof {
                    let k = choose|k: int| 0 <= k < self.issues@.len() && self.issues@[k].number == number;
                    if k != i {
                        if k < i {
                            assert(self.issues@[k].number != number);
                        } else {
                            assert(self.issues@[i as int].number < self.issues@[k].number);
                        }
                    }
                }
                return Some(i);
            }
            i += 1;
        }
        None
    }

    /// Creates an issue under the next number, which it returns.
    pub fn create(&mut self, name: &str, content: &str) -> (r: Result<u32, IssueError>)
        requires
            old(self).wf(),
        ensures
            final(self).wf(),
            r is Err <==> old(self).next_number == u32::MAX,
            r is Err ==> *final(self) == *old(self),
            r matches Ok(n) ==> n == old(self).next_number && final(self).next_number == n + 1
                && final(self).issues@.drop_last() == old(self).issues@
                && final(self).issues@.len() == old(self).issues@.len() + 1
                && final(self).issues@.last().number == n
                && final(self).issues@.last().name@ == name@
                && final(self).issues@.last().content@ == content@
                && !final(self).issues@.last().completed,
    {
        if self.next_number == u32::MAX {
            return Err(IssueError::NumbersExhausted);
        }
        let n = self.next_number;
        let ghost before = self.issues@;
        self.issues.push(
            Issue {
                number: n,
                name: String::from_str(name),
                content: String::from_str(content),
                completed: false,
            },
        );
        self.next_number = n + 1;
        assert(self.issues@.drop_last() =~= before);
        assert forall|i: int, j: int| 0 <= i < j < self.issues@.len() implies (
        #[trigger] self.issues@[i]).number < (#[trigger] self.issues@[j]).number by {
            if j < before.len() {
                assert(self.issues@[i] == before[i] && self.issues@[j] == before[j]);
            } else {
                assert(self.issues@[i] == before[i]);
            }
        }
        Ok(n)
    }

    /// The issue with this number.
    pub fn get(&self, number: u32) -> (r: Option<&Issue>)
        requires
            self.wf(),
        ensures
            r is None <==> issue_pos(self.issues@, number) is None,
            r is Some ==> *r->Some_0 == self.issues@[issue_pos(self.issues@, number)->Some_0],
    {
        match self.position(number) {
            Some(i) => Some(&self.issues[i]),
            None => None,
        }
    }

    /// Replaces the content of the issue with this number.
    pub fn update(&mut self, number: u32, content: String) -> (r: Result<(), IssueError>)
        requires
            old(self).wf(),
        ensures
            final(self).wf(),
            r is Err <==> issue_pos(old(self).issues@, number) is None,
            r is Err ==> r == Err::<(), IssueError>(IssueError::NotFound(number)) && *final(self)
                == *old(self),
            r is Ok ==> {
                let i = issue_pos(old(self).issues@, number)->Some_0;
                &&& final(self).next_number == old(self).next_number
                &&& final(self).issues@.len() == old(self).issues@.len()
                &&& forall|j: int|
                    0 <= j < old(self).issues@.len() && j != i ==> final(self).issues@[j] == old(
                        self,
                    ).issues@[j]
                &&& final(self).issues@[i].number == number
                &&& final(self).issues@[i].name == old(self).issues@[i].name
                &&& final(self).issues@[i].completed == old(self).issues@[i].completed
                &&& final(self).issues@[i].content == content
            },
    {
        match self.position(number) {
            None => Err(IssueError::NotFound(number)),
            Some(i) => {
                let old_issue = self.issues.remove(i);
                let ghost without = self.issues@;
                self.issues.insert(
                    i,
                    Issue {
                        number: old_issue.number,
                        name: old_issue.name,
                        content,
                        completed: old_issue.completed,
                    },
                );
                proof {
                    assert forall|a: int, b: int| 0 <= a < b < self.issues@.len() implies (
                    #[trigger] self.issues@[a]).number < (#[trigger] self.issues@[b]).number by {
                        assert(old(self).issues@[a].number == self.issues@[a].number);
                        assert(old(self).issues@[b].number == self.issues@[b].number);
                    }
                }
                Ok(())
            },
        }
    }

    /// Marks the issue with this number as completed.
    pub fn mark_complete(&mut self, number: u32) -> (r: Result<(), IssueError>)
        requires
            old(self).wf(),
        ensures
            final(self).wf(),
            r is Err <==> issue_pos(old(self).issues@, number) is None,
            r is Err ==> r == Err::<(), IssueError>(IssueError::NotFound(number)) && *final(self)
                == *old(self),
            r is Ok ==> {
                let i = issue_pos(old(self).issues@, number)->Some_0;
                &&& final(self).next_number == old(self).next_number
                &&& final(self).issues@.len() == old(self).issues@.len()
                &&& forall|j: int|
                    0 <= j < old(self).issues@.len() && j != i ==> final(self).issues@[j] == old(
                        self,
                    ).issues@[j]
                &&& final(self).issues@[i].number == number
                &&& final(self).issues@[i].name == old(self).issues@[i].name
                &&& final(self).issues@[i].content == old(self).issues@[i].content
                &&& final(self).issues@[i].completed
            },
    {
        match self.position(number) {
            None => Err(IssueError::NotFound(number)),
            Some(i) => {
                let old_issue = self.issues.remove(i);
                self.issues.insert(
                    i,
                    Issue {
                        number: old_issue.number,
                        name: old_issue.name,
                        content: old_issue.content,
                        completed: true,
                    },
                );
                proof {
                    assert forall|a: int, b: int| 0 <= a < b < self.issues@.len() implies (
                    #[trigger] self.issues@[a]).number < (#[trigger] self.issues@[b]).number by {
                        assert(old(self).issues@[a].number == self.issues@[a].number);
                        assert(old(self).issues@[b].number == self.issues@[b].number);
                    }
                }
                Ok(())
            },
        }
    }

    /// All issues, in increasing order of number.
    pub fn list(&self) -> (r: &Vec<Issue>)
        ensures
            r == &self.issues,
    {
        &self.issues
    }

    /// How many issues are not completed.
    pub fn pending_count(&self) -> (r: usize)
        ensures
            r == pending(self.issues@),
    {
        let mut count: usize = 0;
        let mut i: usize = 0;
        while i < self.issues.len()
            invariant
                i <= self.issues@.len(),
                count == pending(self.issues@.subrange(0, i as int)),
                count <= i,
            decreases self.issues@.len() - i,
        {
            assert(self.issues@.subrange(0, i + 1).drop_last() =~= self.issues@.subrange(0, i as int));
            if !self.issues[i].completed {
                count += 1;
            }
            i += 1;
        }
        assert(self.issues@.subrange(0, i as int) =~= self.issues@);
        count
    }
}

} // verus!
