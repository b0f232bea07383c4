//! The table of running tasks: each task id owns a cancellation flag; ids are
//! unique and at most three tasks run at once.

use vstd::prelude::*;
use std::sync::Arc;
use std::sync::atomic::AtomicBool;
use std::sync::atomic::Ordering;
use crate::text::{chars_eq, chars_of, string_of};

verus! {

/// At most this many tasks run at once.
pub const MAX_CONCURRENT_TASKS: usize = 3;

/// Why a task could not be registered.
pub enum RegisterError {
    /// The id is taken; holds the flag of the task that has it.
    Duplicate(Arc<AtomicBool>),
    /// The table is full; holds the number of running tasks.
    TooMany(usize),
}

/// `Arc::clone`: another handle to the same flag.
#[verifier::external_body]
fn share(token: &Arc<AtomicBool>) -> (r: Arc<AtomicBool>)
    ensures
        r == *token,
{
    token.clone()
}

/// The running tasks: ids with their cancellation flags and the tickets
/// they were registered under, and the ticket the next task gets.
pub struct AppState {
    tasks: Vec<(String, Arc<AtomicBool>, u64)>,
    next_ticket: u64,
}

/// What registering `id` does to a table holding `ids`.
#[derive(PartialEq, Eq, Structural)]
pub enum RegisterOutcome {
    Duplicate,
    TooMany,
    Added,
}

/// The outcome of registering `id`: an id that is present is a duplicate; a
/// full table refuses; otherwise the id is added.
pub open spec fn register_outcome(ids: Seq<Seq<char>>, id: Seq<char>) -> RegisterOutcome {
    if ids.contains(id) {
        RegisterOutcome::Duplicate
    } else if ids.len() >= MAX_CONCURRENT_TASKS {
        RegisterOutcome::TooMany
    } else {
        RegisterOutcome::Added
    }
}

/// The ids after registering `id`.
pub open spec fn register_ids(ids: Seq<Seq<char>>, id: Seq<char>) -> Seq<Seq<char>> {
    if register_outcome(ids, id) == RegisterOutcome::Added {
        ids.push(id)
    } else {
        ids
    }
}

/// A table with unique ids and at most the allowed number of tasks.
pub open spec fn ids_wf(ids: Seq<Seq<char>>) -> bool {
    &&& ids.len() <= MAX_CONCURRENT_TASKS
    &&& forall|i: int, j: int| 0 <= i < j < ids.len() ==> ids[i] != ids[j]
}

/// Registration keeps the table well formed: ids stay unique and the number
/// of tasks never exceeds the limit.
pub proof fn lemma_register_keeps_wf(ids: Seq<Seq<char>>, id: Seq<char>)
    requires
        ids_wf(ids),
    ensures
        ids_wf(register_ids(ids, id)),
{
    if register_outcome(ids, id) == RegisterOutcome::Added {
        let n = ids.push(id);
        assert forall|i: int, j: int| 0 <= i < j < n.len() implies n[i] != n[j] by {
            if j == ids.len() {
                assert(n[i] == ids[i]);
                assert(ids.contains(ids[i]));
            }
        }
    }
}

/// Once an id is registered, registering it again is refused as a duplicate
/// and leaves the table as it is.
pub proof fn lemma_register_twice(ids: Seq<Seq<char>>, id: Seq<char>)
    requires
        register_outcome(ids, id) == RegisterOutcome::Added,
    ensures
        register_outcome(register_ids(ids, id), id) == RegisterOutcome::Duplicate,
        register_ids(register_ids(ids, id), id) == register_ids(ids, id),
{
    assert(ids.push(id)[ids.len() as int] == id);
}

/// A full table refuses every new id.
pub proof fn lemma_full_refuses(ids: Seq<Seq<char>>, id: Seq<char>)
    requires
        ids.len() >= MAX_CONCURRENT_TASKS,
        !ids.contains(id),
    ensures
        register_outcome(ids, id) == RegisterOutcome::TooMany,
{
}

/// The ids of a list of tasks.
pub open spec fn ids_of(tasks: Seq<(String, Arc<AtomicBool>, u64)>) -> Seq<Seq<char>> {
    Seq::new(tasks.len(), |i: int| tasks[i].0@)
}

/// A list of tasks as id, flag and ticket.
pub open spec fn entries_of(tasks: Seq<(String, Arc<AtomicBool>, u64)>) -> Seq<(Seq<char>, Arc<AtomicBool>, u64)> {
    Seq::new(tasks.len(), |i: int| (tasks[i].0@, tasks[i].1, tasks[i].2))
}

/// The ticket after `t`, wrapping at the end of the range.
pub open spec fn ticket_after(t: u64) -> u64 {
    if t == u64::MAX {
        0
    } else {
        (t + 1) as u64
    }
}

impl AppState {
    /// The ids of the running tasks, in registration order.
    pub closed spec fn ids(&self) -> Seq<Seq<char>> {
        ids_of(self.tasks@)
    }

    /// The running tasks in registration order: id, flag and ticket.
    pub closed spec fn entries(&self) -> Seq<(Seq<char>, Arc<AtomicBool>, u64)> {
        entries_of(self.tasks@)
    }

    /// The ticket the next registered task gets.
    pub closed spec fn next_ticket(&self) -> u64 {
        self.next_ticket
    }

    /// The ids are the first parts of the entries.
    pub proof fn lemma_ids_of_entries(&self)
        ensures
            self.ids().len() == self.entries().len(),
            forall|i: int| 0 <= i < self.ids().len() ==> #[trigger] self.ids()[i] == self.entries()[i].0,
    {
    }

    /// The table is well formed: ids are unique and within the limit.
    #[verifier::type_invariant]
    pub closed spec fn wf(&self) -> bool {
        ids_wf(self.ids())
    }

    /// An empty table; the first task gets ticket 0.
    pub fn new() -> (r: Self)
        ensures
            r.ids().len() == 0,
            r.entries().len() == 0,
            r.next_ticket() == 0,
    {
        let r = AppState { tasks: Vec::new(), next_ticket: 0 };
        assert(r.ids() =~= Seq::<Seq<char>>::empty());
        r
    }

    /// The number of running tasks.
    pub fn len(&self) -> (r: usize)
        ensures
            r == self.ids().len(),
    {
        self.tasks.len()
    }

    /// Position of `task_id` in the table.
    fn position(&self, task_id: &[char]) -> (r: Option<usize>)
        ensures
            r matches Some(i) ==> i < self.ids().len() && self.ids()[i as int] == task_id@,
            r is None ==> !self.ids().contains(task_id@),
    {
        let mut i: usize = 0;
        while i < self.tasks.len()
            invariant
                i <= self.tasks@.len(),
                forall|j: int| 0 <= j < i ==> self.ids()[j] != task_id@,
            decreases self.tasks@.len() - i,
        {
            let c = chars_of(self.tasks[i].0.as_str());
            if chars_eq(c.as_slice(), task_id) {
                return Some(i);
            }
            i += 1;
        }
        None
    }

    /// Registers a task and its flag under the next ticket, which is returned
    /// with the flag; dropping the task later needs that ticket. A taken id is
    /// refused with the flag of the task that has it; a full table is refused
    /// with its size.
    pub fn register_task(&mut self, task_id: &str, token: Arc<AtomicBool>) -> (r: Result<
        (Arc<AtomicBool>, u64),
        RegisterError,
    >)
        ensures
            ids_wf(final(self).ids()),
            final(self).ids() == register_ids(old(self).ids(), task_id@),
            register_outcome(old(self).ids(), task_id@) == RegisterOutcome::Added ==> (r matches Ok(
                (t, k),
            ) && t == token && k == old(self).next_ticket() && final(self).entries() == old(self).entries().push((task_id@, token, k)) && final(self).next_ticket() == ticket_after(k)),
            register_outcome(old(self).ids(), task_id@) == RegisterOutcome::Duplicate ==> (r matches Err(
                RegisterError::Duplicate(t),
            ) && exists|i: int|
                0 <= i < old(self).ids().len() && old(self).ids()[i] == task_id@
                    && old(self).entries()[i].1 == t),
            register_outcome(old(self).ids(), task_id@) == RegisterOutcome::TooMany ==> (r matches Err(
                RegisterError::TooMany(n),
            ) && n == old(self).ids().len()),
            register_outcome(old(self).ids(), task_id@) != RegisterOutcome::Added ==> (final(self).entries() == old(self).entries() && final(self).next_ticket() == old(self).next_ticket()),
    {
        proof {
            use_type_invariant(&*self);
        }
        let id = chars_of(task_id);
        match self.position(id.as_slice()) {
            Some(i) => {
                assert(self.ids().contains(task_id@));
                let t = share(&self.tasks[i].1);
                assert(self.entries()[i as int].1 == t);
                assert(self.ids()[i as int] == task_id@);
                return Err(RegisterError::Duplicate(t));
            },
            None => {},
        }
        if self.tasks.len() >= MAX_CONCURRENT_TASKS {
            return Err(RegisterError::TooMany(self.tasks.len()));
        }
        let kept = share(&token);
        let ticket = self.next_ticket;
        let ghost before = self.ids();
        let ghost before_entries = self.entries();
        let mut tasks: Vec<(String, Arc<AtomicBool>, u64)> = Vec::new();
        assert(ids_of(tasks@) =~= Seq::<Seq<char>>::empty());
        std::mem::swap(&mut tasks, &mut self.tasks);
        tasks.push((string_of(id.as_slice()), kept, ticket));
        proof {
            assert(ids_of(tasks@) =~= before.push(task_id@));
            assert(entries_of(tasks@) =~= before_entries.push((task_id@, token, ticket)));
            lemma_register_keeps_wf(before, task_id@);
        }
        self.tasks = tasks;
        self.next_ticket = if ticket == u64::MAX {
            0
        } else {
            ticket + 1
        };
        Ok((token, ticket))
    }

    /// Removes the task `task_id`, but only when it was registered under
    /// `ticket`: a task that finished late must not remove a newer task
    /// with its id.
    pub fn drop_task(&mut self, task_id: &str, ticket: u64)
        ensures
            ids_wf(final(self).ids()),
            forall|i: int|
                0 <= i < old(self).entries().len() && #[trigger] old(self).entries()[i].0 == task_id@
                    ==> final(self).entries() == (if old(self).entries()[i].2 == ticket {
                    old(self).entries().remove(i)
                } else {
                    old(self).entries()
                }),
            !old(self).ids().contains(task_id@) ==> final(self).entries() == old(self).entries(),
            final(self).next_ticket() == old(self).next_ticket(),
    {
        proof {
            use_type_invariant(&*self);
        }
        let ghost before = self.ids();
        let ghost before_entries = self.entries();
        let id = chars_of(task_id);
        match self.position(id.as_slice()) {
            Some(i) => {
                if self.tasks[i].2 == ticket {
                    assert(before_entries[i as int].0 == task_id@ && before_entries[i as int].2 == ticket);
                    let mut tasks: Vec<(String, Arc<AtomicBool>, u64)> = Vec::new();
                    assert(ids_of(tasks@) =~= Seq::<Seq<char>>::empty());
                    std::mem::swap(&mut tasks, &mut self.tasks);
                    let _ = tasks.remove(i);
                    let ghost after = ids_of(tasks@);
                    proof {
                        assert(after =~= before.remove(i as int));
                        assert(entries_of(tasks@) =~= before_entries.remove(i as int));
                        assert forall|a: int, b: int|
                            0 <= a < b < after.len() implies after[a] != after[b] by {
                            let a2 = if a < i { a } else { a + 1 };
                            let b2 = if b < i { b } else { b + 1 };
                            assert(after[a] == before[a2]);
                            assert(after[b] == before[b2]);
                        }
                    }
                    self.tasks = tasks;
                    assert(self.entries() == before_entries.remove(i as int));
                    proof {
                        assert forall|j: int|
                            0 <= j < before_entries.len() && before_entries[j].0 == task_id@ implies j == i by {
                            assert(before[j] == before_entries[j].0);
                            assert(before[i as int] == before_entries[i as int].0);
                        }
                    }
                } else {
                    proof {
                        assert forall|j: int|
                            0 <= j < before_entries.len() && before_entries[j].0 == task_id@ implies before_entries[j].2 != ticket by {
                            assert(before[j] == before_entries[j].0);
                            assert(before[i as int] == before_entries[i as int].0);
                            assert(j == i);
                        }
                    }
                }
            },
            None => {
                proof {
                    assert forall|j: int|
                        0 <= j < before_entries.len() implies before_entries[j].0 != task_id@ by {
                        assert(before[j] == before_entries[j].0);
                    }
                }
            },
        }
    }

    /// Sets the cancellation flag of the task `task_id`, if it runs.
    pub fn cancel_task(&self, task_id: &str) -> (r: bool)
        ensures
            r == self.ids().contains(task_id@),
    {
        let id = chars_of(task_id);
        match self.position(id.as_slice()) {
            Some(i) => {
                self.tasks[i].1.store(true, Ordering::SeqCst);
                true
            },
            None => false,
        }
    }
}

impl Default for AppState {
    fn default() -> (r: Self)
        ensures
            r.ids().len() == 0,
            r.entries().len() == 0,
            r.next_ticket() == 0,
    {
        AppState::new()
    }
}

} // verus!
