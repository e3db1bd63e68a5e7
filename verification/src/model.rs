use crate::error::ReceiveError;
use concordium_std::Address;
use vstd::prelude::*;

verus! {

/// What a sub-task is: its number, its text, and whether it is done.
pub struct SubTaskView {
    pub id: u32,
    pub description: Seq<char>,
    pub completed: bool,
}

/// What a main task is: its owner, its text, and its sub-tasks in the order
/// in which they were added.
pub struct MainTaskView {
    pub id: Address,
    pub description: Seq<char>,
    pub tasks: Seq<SubTaskView>,
}

/// What a user is: the main tasks in the order in which they were added.
pub struct UserView {
    pub all_task: Seq<MainTaskView>,
}

impl MainTaskView {
    /// A main task of `owner` without sub-tasks.
    pub open spec fn new(owner: Address, description: Seq<char>) -> MainTaskView {
        MainTaskView { id: owner, description, tasks: Seq::empty() }
    }

    /// The number the next sub-task gets: how many there are, reduced to 32
    /// bits.
    pub open spec fn next_id(self) -> u32 {
        (self.tasks.len() as int % 0x1_0000_0000) as u32
    }

    /// The main task with one more, open, sub-task at the end.
    pub open spec fn with_sub_task(self, description: Seq<char>) -> MainTaskView {
        MainTaskView {
            tasks: self.tasks.push(
                SubTaskView { id: self.next_id(), description, completed: false },
            ),
            ..self
        }
    }

    /// The main task with the sub-task at position `j` marked as done.
    pub open spec fn with_completed(self, j: int) -> MainTaskView
        recommends
            0 <= j < self.tasks.len(),
    {
        MainTaskView {
            tasks: self.tasks.update(j, SubTaskView { completed: true, ..self.tasks[j] }),
            ..self
        }
    }
}

impl UserView {
    /// A user without tasks.
    pub open spec fn empty() -> UserView {
        UserView { all_task: Seq::empty() }
    }

    /// This user with a new main task of `owner` at the end.
    pub open spec fn with_task(self, owner: Address, description: Seq<char>) -> UserView {
        UserView { all_task: self.all_task.push(MainTaskView::new(owner, description)) }
    }

    /// This user with a new sub-task at the end of the last main task; the
    /// user as it is where there is no main task.
    pub open spec fn with_sub_task(self, description: Seq<char>) -> UserView {
        if self.all_task.len() == 0 {
            self
        } else {
            let last = self.all_task.len() - 1;
            UserView {
                all_task: self.all_task.update(
                    last,
                    self.all_task[last].with_sub_task(description),
                ),
            }
        }
    }

    /// This user with sub-task `j` of main task `i` marked as done.
    pub open spec fn with_completed(self, i: int, j: int) -> UserView
        recommends
            0 <= i < self.all_task.len(),
            0 <= j < self.all_task[i].tasks.len(),
    {
        UserView { all_task: self.all_task.update(i, self.all_task[i].with_completed(j)) }
    }

    /// Whether the user has a main task at position `i`.
    pub open spec fn has_task(self, i: u64) -> bool {
        i < self.all_task.len()
    }

    /// Whether the user has a main task at position `i` with a sub-task at
    /// position `j`.
    pub open spec fn has_sub_task(self, i: u64, j: u64) -> bool {
        self.has_task(i) && j < self.all_task[i as int].tasks.len()
    }

    /// What marking sub-task `j` of main task `i` answers: a missing main
    /// task is passed over in silence, a missing sub-task is an error.
    pub open spec fn completion_outcome(self, i: u64, j: u64) -> Result<(), ReceiveError> {
        if self.has_task(i) && !self.has_sub_task(i, j) {
            Err(ReceiveError::IndexOutOfRange)
        } else {
            Ok(())
        }
    }

    /// The user after marking sub-task `j` of main task `i`: the flag is set
    /// where both positions exist, and nothing changes otherwise.
    pub open spec fn after_completion(self, i: u64, j: u64) -> UserView {
        if self.has_sub_task(i, j) {
            self.with_completed(i as int, j as int)
        } else {
            self
        }
    }
}

/// What the store is: one entry for each identity that ever bought a task,
/// in the order in which the identities first did so.
pub struct StoreView {
    pub entries: Seq<(Address, UserView)>,
}

impl StoreView {
    /// The store that holds nothing.
    pub open spec fn empty() -> StoreView {
        StoreView { entries: Seq::empty() }
    }

    /// No identity has two entries.
    pub open spec fn well_formed(self) -> bool {
        forall|m: int, n: int|
            0 <= m < n < self.entries.len() ==> (#[trigger] self.entries[m]).0 != (
            #[trigger] self.entries[n]).0
    }

    /// Whether `who` has an entry.
    pub open spec fn contains(self, who: Address) -> bool {
        exists|n: int| 0 <= n < self.entries.len() && (#[trigger] self.entries[n]).0 == who
    }

    /// Where the entry of `who` stands.
    pub open spec fn position(self, who: Address) -> int
        recommends
            self.contains(who),
    {
        choose|n: int| 0 <= n < self.entries.len() && (#[trigger] self.entries[n]).0 == who
    }

    /// An identity found at position `n` stands there and nowhere else.
    pub proof fn lemma_position(self, who: Address, n: int)
        requires
            self.well_formed(),
            0 <= n < self.entries.len(),
            self.entries[n].0 == who,
        ensures
            self.contains(who),
            self.position(who) == n,
    {
        let p = self.position(who);
        if p < n {
            assert(self.entries[p].0 != self.entries[n].0);
        } else if n < p {
            assert(self.entries[n].0 != self.entries[p].0);
        }
    }

    /// What `who` owns, if anything.
    pub open spec fn lookup(self, who: Address) -> Option<UserView> {
        if self.contains(who) {
            Some(self.entries[self.position(who)].1)
        } else {
            None
        }
    }

    /// The store in which `who` owns `user`: the entry of `who` is replaced
    /// where it stands, or added at the end.
    pub open spec fn put(self, who: Address, user: UserView) -> StoreView {
        if self.contains(who) {
            StoreView { entries: self.entries.update(self.position(who), (who, user)) }
        } else {
            StoreView { entries: self.entries.push((who, user)) }
        }
    }

    /// Putting an entry keeps every identity at one entry.
    pub proof fn lemma_put_well_formed(self, who: Address, user: UserView)
        requires
            self.well_formed(),
        ensures
            self.put(who, user).well_formed(),
            self.put(who, user).lookup(who) == Some(user),
            forall|other: Address|
                other != who ==> #[trigger] self.put(who, user).lookup(other) == self.lookup(
                    other,
                ),
    {
        let after = self.put(who, user);
        let at = if self.contains(who) {
            self.position(who)
        } else {
            self.entries.len() as int
        };
        assert(after.entries[at] == (who, user));
        assert forall|m: int, n: int| 0 <= m < n < after.entries.len() implies (
        #[trigger] after.entries[m]).0 != (#[trigger] after.entries[n]).0 by {
            if m < self.entries.len() && n < self.entries.len() {
                assert(self.entries[m].0 != self.entries[n].0);
            } else {
                assert(self.entries[m].0 != who);
            }
        }
        after.lemma_position(who, at);
        assert forall|other: Address| other != who implies #[trigger] after.lookup(other)
            == self.lookup(other) by {
            if self.contains(other) {
                let p = self.position(other);
                assert(after.entries[p] == self.entries[p]);
                after.lemma_position(other, p);
            } else if after.contains(other) {
                let p = after.position(other);
                assert(self.entries[p].0 == other);
            }
        }
    }

    /// The store after `who` bought a task: a new main task at the end of the
    /// tasks of `who`, whose entry is made if need be.
    pub open spec fn with_task(self, who: Address, description: Seq<char>) -> StoreView {
        let user = match self.lookup(who) {
            Some(user) => user,
            None => UserView::empty(),
        };
        self.put(who, user.with_task(who, description))
    }

    /// The store after `who` asked for a sub-task: it goes to the end of the
    /// last main task of `who`. Nothing changes for an identity without an
    /// entry or without a main task.
    pub open spec fn with_sub_task(self, who: Address, description: Seq<char>) -> StoreView {
        match self.lookup(who) {
            Some(user) => if user.all_task.len() == 0 {
                self
            } else {
                self.put(who, user.with_sub_task(description))
            },
            None => self,
        }
    }

    /// What `who` is answered on asking to mark sub-task `j` of main task `i`.
    pub open spec fn completion_outcome(self, who: Address, i: u64, j: u64) -> Result<
        (),
        ReceiveError,
    > {
        match self.lookup(who) {
            Some(user) => user.completion_outcome(i, j),
            None => Ok(()),
        }
    }

    /// The store after `who` asked to mark sub-task `j` of main task `i`: the
    /// flag is set where `who` has both positions, and nothing changes
    /// otherwise.
    pub open spec fn after_completion(self, who: Address, i: u64, j: u64) -> StoreView {
        match self.lookup(who) {
            Some(user) => if user.has_sub_task(i, j) {
                self.put(who, user.with_completed(i as int, j as int))
            } else {
                self
            },
            None => self,
        }
    }
}

} // verus!
