use crate::error::ReceiveError;
use crate::identity::same_address;
use crate::model::{StoreView, UserView};
use crate::payment::{check_payment, payment_suffices};
use crate::task::User;
use concordium_std::Address;
use vstd::prelude::*;
use vstd::string::StringExecFns;

verus! {

/// The entries of a store as the model sees them.
pub open spec fn entries_view(entries: Seq<(Address, User)>) -> Seq<(Address, UserView)> {
    Seq::new(entries.len(), |n: int| (entries[n].0, entries[n].1@))
}

/// The task lists of all identities. An identity gets its entry with its
/// first task, entries stay in the order in which they were made, and no
/// identity ever has two: every function that hands out or changes a store
/// says so of its model.
#[derive(Debug)]
pub struct TaskStore {
    entries: Vec<(Address, User)>,
}

impl View for TaskStore {
    type V = StoreView;

    closed spec fn view(&self) -> StoreView {
        StoreView { entries: entries_view(self.entries@) }
    }
}

impl TaskStore {
    #[verifier::type_invariant]
    spec fn distinct_identities(self) -> bool {
        self@.well_formed()
    }

    /// The empty store.
    pub fn new() -> (store: TaskStore)
        ensures
            store@ == StoreView::empty(),
            store@.well_formed(),
    {
        let store = TaskStore { entries: Vec::new() };
        assert(store@.entries =~= Seq::empty());
        store
    }

    /// Where the entry of `who` stands, if there is one.
    fn find(&self, who: &Address) -> (found: Option<usize>)
        ensures
            match found {
                Some(n) => self@.contains(*who) && n == self@.position(*who),
                None => !self@.contains(*who),
            },
    {
        proof {
            use_type_invariant(self);
        }
        let mut n: usize = 0;
        while n < self.entries.len()
            invariant
                n <= self.entries.len(),
                self@.well_formed(),
                forall|m: int| 0 <= m < n ==> (#[trigger] self@.entries[m]).0 != *who,
            decreases self.entries.len() - n,
        {
            if same_address(&self.entries[n].0, who) {
                proof {
                    self@.lemma_position(*who, n as int);
                }
                return Some(n);
            }
            n += 1;
        }
        None
    }

    /// Buys a main task for `caller`, who pays `payment` micro CCD. The
    /// payment has to exceed one CCD. The task goes to the end of the
    /// caller's list; a caller's first task makes the caller's entry, at the
    /// end of the store.
    pub fn create_task(&mut self, caller: Address, payment: u64, description: String) -> (done:
        Result<(), ReceiveError>)
        ensures
            payment_suffices(payment) ==> done == Ok::<(), ReceiveError>(()) && final(self)@
                == old(self)@.with_task(caller, description@),
            !payment_suffices(payment) ==> done == Err::<(), ReceiveError>(
                ReceiveError::InsufficientPayment,
            ) && final(self)@ == old(self)@,
            final(self)@.well_formed(),
    {
        proof {
            use_type_invariant(&*self);
        }
        match check_payment(payment) {
            Err(refused) => {
                return Err(refused);
            },
            Ok(()) => {},
        }
        let found = self.find(&caller);
        let mut entries: Vec<(Address, User)> = Vec::new();
        core::mem::swap(&mut self.entries, &mut entries);
        match found {
            Some(n) => {
                entries[n].1.push_task(caller, description);
            },
            None => {
                let mut user = User::new();
                user.push_task(caller, description);
                entries.push((caller, user));
            },
        }
        assert(entries_view(entries@) =~= old(self)@.with_task(caller, description@).entries);
        proof {
            old(self)@.lemma_put_well_formed(caller, entries_view(entries@)[
                if found is Some { found.unwrap() as int } else { entries@.len() - 1 }
            ].1);
        }
        self.entries = entries;
        Ok(())
    }

    /// Adds a sub-task to the last main task of `caller`. A caller without an
    /// entry, or without a main task, is passed over in silence: the store
    /// stays as it is.
    pub fn create_sub_task(&mut self, caller: Address, description: String)
        ensures
            final(self)@ == old(self)@.with_sub_task(caller, description@),
            final(self)@.well_formed(),
    {
        proof {
            use_type_invariant(&*self);
        }
        match self.find(&caller) {
            Some(n) => {
                let mut entries: Vec<(Address, User)> = Vec::new();
                core::mem::swap(&mut self.entries, &mut entries);
                entries[n].1.push_sub_task(description);
                assert(entries_view(entries@) =~= old(self)@.with_sub_task(
                    caller,
                    description@,
                ).entries);
                proof {
                    old(self)@.lemma_put_well_formed(caller, entries_view(entries@)[n as int].1);
                }
                self.entries = entries;
            },
            None => {},
        }
    }

    /// Marks sub-task `sub_task_index` of main task `task_index` of `caller`
    /// as done; both are positions, counted from zero. A caller without an
    /// entry, or without a main task at that position, is passed over in
    /// silence. A main task without a sub-task at that position is an error,
    /// and the store stays as it is.
    pub fn mark_as_completed(&mut self, caller: Address, task_index: u64, sub_task_index: u64) -> (done:
        Result<(), ReceiveError>)
        ensures
            done == old(self)@.completion_outcome(caller, task_index, sub_task_index),
            final(self)@ == old(self)@.after_completion(caller, task_index, sub_task_index),
            final(self)@.well_formed(),
    {
        proof {
            use_type_invariant(&*self);
        }
        match self.find(&caller) {
            Some(n) => {
                let mut entries: Vec<(Address, User)> = Vec::new();
                core::mem::swap(&mut self.entries, &mut entries);
                let done = entries[n].1.complete(task_index, sub_task_index);
                assert(entries_view(entries@) =~= old(self)@.after_completion(
                    caller,
                    task_index,
                    sub_task_index,
                ).entries);
                proof {
                    old(self)@.lemma_put_well_formed(caller, entries_view(entries@)[n as int].1);
                }
                self.entries = entries;
                done
            },
            None => Ok(()),
        }
    }

    /// Every identity with what it owns, in the order in which the identities
    /// bought their first task. The store is only read, so the answer is the
    /// same until the store is changed.
    pub fn view_all(&self) -> (all: Vec<(Address, User)>)
        ensures
            entries_view(all@) == self@.entries,
            self@.well_formed(),
    {
        proof {
            use_type_invariant(self);
        }
        let mut all: Vec<(Address, User)> = Vec::new();
        let mut n: usize = 0;
        while n < self.entries.len()
            invariant
                n <= self.entries.len(),
                all.len() == n,
                forall|m: int|
                    0 <= m < n ==> all@[m].0 == self.entries@[m].0 && all@[m].1@
                        == self.entries@[m].1@,
            decreases self.entries.len() - n,
        {
            all.push((self.entries[n].0, self.entries[n].1.clone()));
            n += 1;
        }
        assert(entries_view(all@) =~= self@.entries);
        all
    }

    /// What `caller` owns, if anything, together with the caller's identity.
    pub fn get_user_todo(&self, caller: Address) -> (found: (Option<User>, Address))
        ensures
            found.1 == caller,
            match self@.lookup(caller) {
                Some(user) => found.0 is Some && found.0->Some_0@ == user,
                None => found.0 is None,
            },
            self@.well_formed(),
    {
        proof {
            use_type_invariant(self);
        }
        match self.find(&caller) {
            Some(n) => (Some(self.entries[n].1.clone()), caller),
            None => (None, caller),
        }
    }

    /// Makes `user` what `who` owns: in place of the entry of `who`, or in a
    /// new entry at the end of the store.
    pub fn put_user(&mut self, who: Address, user: User)
        ensures
            final(self)@ == old(self)@.put(who, user@),
            final(self)@.well_formed(),
    {
        proof {
            use_type_invariant(&*self);
            old(self)@.lemma_put_well_formed(who, user@);
        }
        let found = self.find(&who);
        let mut entries: Vec<(Address, User)> = Vec::new();
        core::mem::swap(&mut self.entries, &mut entries);
        match found {
            Some(n) => {
                entries[n] = (who, user);
            },
            None => {
                entries.push((who, user));
            },
        }
        assert(entries_view(entries@) =~= old(self)@.put(who, user@).entries);
        self.entries = entries;
    }

    /// As `create_sub_task`, but a caller with nothing to add to is told so:
    /// without an entry the answer is `User` with the text `User not found`,
    /// without a main task it is `User` with the text
    /// `No main tasks available to add a sub-task`. The store then stays as
    /// it is.
    pub fn create_sub_task_strict(&mut self, caller: Address, description: String) -> (done:
        Result<(), ReceiveError>)
        ensures
            match old(self)@.lookup(caller) {
                None => done matches Err(ReceiveError::User(text)) && text@
                    == "User not found"@,
                Some(user) => if user.all_task.len() == 0 {
                    done matches Err(ReceiveError::User(text)) && text@
                        == "No main tasks available to add a sub-task"@
                } else {
                    done == Ok::<(), ReceiveError>(())
                },
            },
            final(self)@ == old(self)@.with_sub_task(caller, description@),
            final(self)@.well_formed(),
    {
        proof {
            use_type_invariant(&*self);
        }
        match self.find(&caller) {
            None => Err(ReceiveError::User(String::from_str("User not found"))),
            Some(n) => {
                if self.entries[n].1.all_task.len() == 0 {
                    Err(
                        ReceiveError::User(
                            String::from_str("No main tasks available to add a sub-task"),
                        ),
                    )
                } else {
                    self.create_sub_task(caller, description);
                    Ok(())
                }
            },
        }
    }

    /// As `mark_as_completed`, but a caller with nothing to mark is told so:
    /// without an entry the answer is `User` with the text `User not found`,
    /// without a main task at `task_index` it is `User` with the text
    /// `Task not found`. The store then stays as it is.
    pub fn mark_as_completed_strict(
        &mut self,
        caller: Address,
        task_index: u64,
        sub_task_index: u64,
    ) -> (done: Result<(), ReceiveError>)
        ensures
            match old(self)@.lookup(caller) {
                None => done matches Err(ReceiveError::User(text)) && text@
                    == "User not found"@,
                Some(user) => if !user.has_task(task_index) {
                    done matches Err(ReceiveError::User(text)) && text@ == "Task not found"@
                } else {
                    done == user.completion_outcome(task_index, sub_task_index)
                },
            },
            final(self)@ == old(self)@.after_completion(caller, task_index, sub_task_index),
            final(self)@.well_formed(),
    {
        proof {
            use_type_invariant(&*self);
        }
        match self.find(&caller) {
            None => Err(ReceiveError::User(String::from_str("User not found"))),
            Some(n) => {
                if task_index >= self.entries[n].1.all_task.len() as u64 {
                    Err(ReceiveError::User(String::from_str("Task not found")))
                } else {
                    self.mark_as_completed(caller, task_index, sub_task_index)
                }
            },
        }
    }
}

} // verus!
