//! The task row and its ancestry model.
//!
//! Tasks form a forest.  A task's position is its `ancestry`: the ids of its
//! ancestors, root first; a root task has an empty ancestry.  The relational
//! store keeps the same path as a slash-joined decimal string; the rendering
//! between the two forms is verified here, together with the level and
//! parent rules that the planner and executor rely on.

use vstd::prelude::*;

use crate::strutil::{chars_to_string, dec_digit, dec_str, push_dec_u64, u64_to_string};

verus! {

/// The lifecycle status of a task.
#[derive(Debug, Clone, Copy, PartialEq, Eq, Structural)]
pub enum Status {
    /// Not yet selected for execution.
    Draft,
    /// Selected for execution.
    ToDo,
    /// Currently being executed.
    InProgress,
    /// Waiting for user input.
    WaitingForUser,
    /// Completed.
    Done,
    /// Execution failed.
    Failed,
}

/// A task row.  Identifiers are plain integers, and the ancestry is held as
/// the decoded list of ancestor ids (root first; empty for a root task).
#[derive(Debug, Clone)]
pub struct Task {
    pub id: u64,
    pub company_id: u64,
    pub user_id: u64,
    pub agent_id: u64,
    /// The originating chat, if any.
    pub origin_chat_id: Option<u64>,
    /// The chat between user and orchestrator that steers the task, if any.
    pub control_chat_id: Option<u64>,
    /// The chat the executor drives the task through, if any.
    pub execution_chat_id: Option<u64>,
    pub title: String,
    pub summary: String,
    pub status: Status,
    /// Ids of the task's ancestors, root first; empty for root tasks.
    pub ancestry: Vec<u64>,
    pub created_at: u64,
    pub updated_at: u64,
}

/// The slash-joined decimal rendering of an id path; empty for no ids.
pub open spec fn render_path(ids: Seq<u64>) -> Seq<char>
    decreases ids.len(),
{
    if ids.len() == 0 {
        Seq::<char>::empty()
    } else if ids.len() == 1 {
        dec_str(ids[0] as nat)
    } else {
        render_path(ids.drop_last()) + seq!['/'] + dec_str(ids.last() as nat)
    }
}

/// How many `c` characters `s` holds.
pub open spec fn count_char(s: Seq<char>, c: char) -> nat
    decreases s.len(),
{
    if s.len() == 0 {
        0
    } else {
        count_char(s.drop_last(), c) + (if s.last() == c {
            1nat
        } else {
            0nat
        })
    }
}

/// How many slash-separated segments a non-empty path string holds.
pub open spec fn num_segments(s: Seq<char>) -> nat {
    count_char(s, '/') + 1
}

proof fn lemma_count_char_concat(a: Seq<char>, b: Seq<char>, c: char)
    ensures
        count_char(a + b, c) == count_char(a, c) + count_char(b, c),
    decreases b.len(),
{
    if b.len() == 0 {
        assert(a + b =~= a);
    } else {
        assert((a + b).drop_last() =~= a + b.drop_last());
        assert((a + b).last() == b.last());
        lemma_count_char_concat(a, b.drop_last(), c);
    }
}

proof fn lemma_dec_str_digits(n: nat)
    ensures
        forall|i: int| 0 <= i < dec_str(n).len() ==> 48 <= #[trigger] dec_str(n)[i] as u32 <= 57,
        dec_str(n).len() >= 1,
    decreases n,
{
    if n >= 10 {
        lemma_dec_str_digits(n / 10);
        assert forall|i: int| 0 <= i < dec_str(n).len() implies 48 <= #[trigger] dec_str(
            n,
        )[i] as u32 <= 57 by {
            if i < dec_str(n / 10).len() {
                assert(dec_str(n)[i] == dec_str(n / 10)[i]);
            } else {
                assert(dec_str(n)[i] == dec_digit(n % 10));
            }
        }
    }
}

proof fn lemma_dec_str_no_slash(n: nat)
    ensures
        count_char(dec_str(n), '/') == 0,
{
    lemma_dec_str_digits(n);
    lemma_count_char_of_slashless(dec_str(n));
}

proof fn lemma_count_char_of_slashless(s: Seq<char>)
    requires
        forall|i: int| 0 <= i < s.len() ==> #[trigger] s[i] != '/',
    ensures
        count_char(s, '/') == 0,
    decreases s.len(),
{
    if s.len() > 0 {
        lemma_count_char_of_slashless(s.drop_last());
    }
}

/// A non-empty id path renders to a string of exactly as many segments as it
/// has ids: the level a task stores always equals the segment count of its
/// stored ancestry string.
pub proof fn lemma_render_path_segments(ids: Seq<u64>)
    requires
        ids.len() > 0,
    ensures
        num_segments(render_path(ids)) == ids.len(),
    decreases ids.len(),
{
    if ids.len() == 1 {
        lemma_dec_str_no_slash(ids[0] as nat);
    } else {
        lemma_render_path_segments(ids.drop_last());
        lemma_count_char_concat(render_path(ids.drop_last()) + seq!['/'], dec_str(ids.last() as nat), '/');
        lemma_count_char_concat(render_path(ids.drop_last()), seq!['/'], '/');
        lemma_dec_str_no_slash(ids.last() as nat);
        assert(count_char(seq!['/'], '/') == 1) by {
            assert(seq!['/'].drop_last() =~= Seq::<char>::empty());
            assert(count_char(Seq::<char>::empty(), '/') == 0);
            assert(seq!['/'].last() == '/');
        }
    }
}

/// One more id on a path renders as the path, a slash, and the id's
/// decimal form; a first id renders alone.
pub proof fn lemma_render_path_snoc(ids: Seq<u64>, id: u64)
    ensures
        ids.len() == 0 ==> render_path(ids.push(id)) == dec_str(id as nat),
        ids.len() > 0 ==> render_path(ids.push(id)) == render_path(ids) + seq!['/'] + dec_str(
            id as nat,
        ),
{
    assert(ids.push(id).drop_last() =~= ids);
    assert(ids.push(id).last() == id);
}

impl Task {
    /// The task's depth in the forest: a root task is at level zero, and a
    /// task stands one level below its parent.
    pub fn ancestry_level(&self) -> (r: usize)
        ensures
            r == self.ancestry@.len(),
    {
        self.ancestry.len()
    }

    /// The parent's id; a root task reports none.
    pub fn parent_id(&self) -> (r: Option<u64>)
        ensures
            match r {
                Some(p) => self.ancestry@.len() > 0 && p == self.ancestry@.last(),
                None => self.ancestry@.len() == 0,
            },
    {
        if self.ancestry.len() == 0 {
            None
        } else {
            Some(self.ancestry[self.ancestry.len() - 1])
        }
    }

    /// The ids of all ancestors, root first; a root task reports none.
    pub fn parent_ids(&self) -> (r: Option<&Vec<u64>>)
        ensures
            match r {
                Some(v) => self.ancestry@.len() > 0 && v@ == self.ancestry@,
                None => self.ancestry@.len() == 0,
            },
    {
        if self.ancestry.len() == 0 {
            None
        } else {
            Some(&self.ancestry)
        }
    }

    /// The id path for children.
    pub open spec fn spec_children_ancestry(&self) -> Seq<u64> {
        self.ancestry@.push(self.id)
    }

    /// The children's ancestry, in stored string form: the task's ancestry
    /// string, then a slash, then the task's id; for a root task the bare
    /// id.
    pub fn children_ancestry(&self) -> (r: String)
        ensures
            r@ == render_path(self.spec_children_ancestry()),
    {
        let mut out: Vec<char> = Vec::new();
        let mut i: usize = 0;
        while i < self.ancestry.len()
            invariant
                0 <= i <= self.ancestry@.len(),
                out@ == render_path(self.ancestry@.subrange(0, i as int)) + if i > 0 {
                    seq!['/']
                } else {
                    Seq::<char>::empty()
                },
            decreases self.ancestry@.len() - i,
        {
            let ghost pre = self.ancestry@.subrange(0, i as int);
            push_dec_u64(self.ancestry[i], &mut out);
            out.push('/');
            i = i + 1;
            proof {
                let cur = self.ancestry@.subrange(0, i as int);
                assert(cur.drop_last() =~= pre);
                assert(cur.last() == self.ancestry@[i - 1]);
                assert(out@ =~= render_path(cur) + seq!['/']);
            }
        }
        push_dec_u64(self.id, &mut out);
        proof {
            assert(self.ancestry@.subrange(0, self.ancestry@.len() as int) =~= self.ancestry@);
            lemma_render_path_snoc(self.ancestry@, self.id);
            assert(out@ =~= render_path(self.spec_children_ancestry()));
        }
        chars_to_string(&out)
    }

    /// The ancestry in stored string form; a root task stores none.
    pub fn ancestry_string(&self) -> (r: Option<String>)
        ensures
            match r {
                Some(s) => self.ancestry@.len() > 0 && s@ == render_path(self.ancestry@),
                None => self.ancestry@.len() == 0,
            },
    {
        if self.ancestry.len() == 0 {
            return None;
        }
        let mut out: Vec<char> = Vec::new();
        let mut i: usize = 0;
        while i < self.ancestry.len()
            invariant
                0 <= i <= self.ancestry@.len(),
                out@ == render_path(self.ancestry@.subrange(0, i as int)) + if 0 < i
                    < self.ancestry@.len() {
                    seq!['/']
                } else {
                    Seq::<char>::empty()
                },
            decreases self.ancestry@.len() - i,
        {
            let ghost pre = self.ancestry@.subrange(0, i as int);
            push_dec_u64(self.ancestry[i], &mut out);
            if i + 1 < self.ancestry.len() {
                out.push('/');
            }
            i = i + 1;
            proof {
                let cur = self.ancestry@.subrange(0, i as int);
                assert(cur.drop_last() =~= pre);
                assert(cur.last() == self.ancestry@[i - 1]);
                if i < self.ancestry@.len() {
                    assert(out@ =~= render_path(cur) + seq!['/']);
                } else {
                    assert(out@ =~= render_path(cur) + Seq::<char>::empty());
                }
            }
        }
        proof {
            assert(self.ancestry@.subrange(0, self.ancestry@.len() as int) =~= self.ancestry@);
        }
        Some(chars_to_string(&out))
    }

    /// The id that names the task's working directory: the root ancestor's
    /// id, or the task's own id for a root task.
    pub fn workdir_id(&self) -> (r: u64)
        ensures
            self.ancestry@.len() > 0 ==> r == self.ancestry@[0],
            self.ancestry@.len() == 0 ==> r == self.id,
    {
        if self.ancestry.len() > 0 {
            self.ancestry[0]
        } else {
            self.id
        }
    }

    /// The task's working directory under `root`: `{root}/wd-task-{id}`,
    /// named after the root ancestor.
    pub fn workdir(&self, root: &str) -> (r: String)
        ensures
            r@ == root@ + "/wd-task-"@ + dec_str(
                if self.ancestry@.len() > 0 {
                    self.ancestry@[0] as nat
                } else {
                    self.id as nat
                },
            ),
    {
        let mut out = root.to_owned();
        out.append("/wd-task-");
        let digits = u64_to_string(self.workdir_id());
        out.append(digits.as_str());
        out
    }
}

/// What a task status becomes on startup recovery: a task still `InProgress`
/// when the process went down is put back to `ToDo`; every other status is
/// kept.
pub open spec fn spec_recover_status(s: Status) -> Status {
    if s == Status::InProgress {
        Status::ToDo
    } else {
        s
    }
}

/// Startup recovery of one task status: afterwards no task is `InProgress`,
/// and only `InProgress` rows change.
pub fn recover_status(s: Status) -> (r: Status)
    ensures
        r == spec_recover_status(s),
        r != Status::InProgress,
        s != Status::InProgress ==> r == s,
{
    if s == Status::InProgress {
        Status::ToDo
    } else {
        s
    }
}

/// After startup recovery no task is left `InProgress`: recovery puts
/// every `InProgress` row back to `ToDo` and keeps every other row.
pub proof fn lemma_recovery_no_in_progress(statuses: Seq<Status>)
    ensures
        ({
            let recovered = statuses.map_values(|s: Status| spec_recover_status(s));
            forall|i: int|
                0 <= i < recovered.len() ==> #[trigger] recovered[i] != Status::InProgress
        }),
{
    let recovered = statuses.map_values(|s: Status| spec_recover_status(s));
    assert forall|i: int| 0 <= i < recovered.len() implies recovered[i] != Status::InProgress by {
        assert(recovered[i] == spec_recover_status(statuses[i]));
    }
}

} // verus!
