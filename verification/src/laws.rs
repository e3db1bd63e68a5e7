use crate::error::ReceiveError;
use crate::model::{MainTaskView, StoreView, SubTaskView, UserView};
use crate::payment::payment_suffices;
use concordium_std::Address;
use vstd::prelude::*;

verus! {

/// One request to the store, as the model sees it.
pub enum Op {
    CreateTask { caller: Address, payment: u64, description: Seq<char> },
    CreateSubTask { caller: Address, description: Seq<char> },
    MarkAsCompleted { caller: Address, task_index: u64, sub_task_index: u64 },
}

impl SubTaskView {
    /// `later` is this sub-task, possibly done by now.
    pub open spec fn kept_by(self, later: SubTaskView) -> bool {
        &&& later.id == self.id
        &&& later.description == self.description
        &&& self.completed ==> later.completed
    }
}

impl MainTaskView {
    /// `later` is the same main task with its sub-tasks where they were,
    /// possibly done by now, and possibly more sub-tasks behind them.
    pub open spec fn kept_by(self, later: MainTaskView) -> bool {
        &&& later.id == self.id
        &&& later.description == self.description
        &&& self.tasks.len() <= later.tasks.len()
        &&& forall|k: int|
            0 <= k < self.tasks.len() ==> (#[trigger] self.tasks[k]).kept_by(later.tasks[k])
    }
}

impl UserView {
    /// `later` holds the tasks of this user where they were, and possibly
    /// more behind them.
    pub open spec fn kept_by(self, later: UserView) -> bool {
        &&& self.all_task.len() <= later.all_task.len()
        &&& forall|k: int|
            0 <= k < self.all_task.len() ==> (#[trigger] self.all_task[k]).kept_by(
                later.all_task[k],
            )
    }
}

impl StoreView {
    /// `later` holds the entries of this store where they were, and possibly
    /// more behind them.
    pub open spec fn kept_by(self, later: StoreView) -> bool {
        &&& self.entries.len() <= later.entries.len()
        &&& forall|n: int|
            0 <= n < self.entries.len() ==> (#[trigger] later.entries[n]).0 == self.entries[n].0
                && self.entries[n].1.kept_by(later.entries[n].1)
    }

    /// The store after one request.
    pub open spec fn apply(self, op: Op) -> StoreView {
        match op {
            Op::CreateTask { caller, payment, description } => if payment_suffices(payment) {
                self.with_task(caller, description)
            } else {
                self
            },
            Op::CreateSubTask { caller, description } => self.with_sub_task(caller, description),
            Op::MarkAsCompleted { caller, task_index, sub_task_index } => self.after_completion(
                caller,
                task_index,
                sub_task_index,
            ),
        }
    }

    /// The store after a run of requests, the first of them first.
    pub open spec fn run(self, ops: Seq<Op>) -> StoreView
        decreases ops.len(),
    {
        if ops.len() == 0 {
            self
        } else {
            self.run(ops.drop_last()).apply(ops.last())
        }
    }
}

/// A store keeps itself, and keeping carries over from one store to the
/// next but one.
pub proof fn law_kept_by_is_a_preorder(a: StoreView, b: StoreView, c: StoreView)
    ensures
        a.kept_by(a),
        a.kept_by(b) && b.kept_by(c) ==> a.kept_by(c),
{
    if a.kept_by(b) && b.kept_by(c) {
        assert forall|n: int| 0 <= n < a.entries.len() implies (#[trigger] c.entries[n]).0
            == a.entries[n].0 && a.entries[n].1.kept_by(c.entries[n].1) by {
            let (ua, ub, uc) = (a.entries[n].1, b.entries[n].1, c.entries[n].1);
            assert(b.entries[n].0 == a.entries[n].0 && ua.kept_by(ub));
            assert(c.entries[n].0 == b.entries[n].0 && ub.kept_by(uc));
            assert forall|i: int| 0 <= i < ua.all_task.len() implies (
            #[trigger] ua.all_task[i]).kept_by(uc.all_task[i]) by {
                let (ta, tb, tc) = (ua.all_task[i], ub.all_task[i], uc.all_task[i]);
                assert(ta.kept_by(tb));
                assert(ub.all_task[i].kept_by(tc));
                assert forall|j: int| 0 <= j < ta.tasks.len() implies (
                #[trigger] ta.tasks[j]).kept_by(tc.tasks[j]) by {
                    assert(ta.tasks[j].kept_by(tb.tasks[j]));
                    assert(tb.tasks[j].kept_by(tc.tasks[j]));
                }
            }
        }
    }
}

/// One request only appends: every entry, task and sub-task that was there
/// is still there, at its position and with its number and text, and what
/// was done is still done. No identity gets a second entry.
pub proof fn law_request_appends(store: StoreView, op: Op)
    requires
        store.well_formed(),
    ensures
        store.kept_by(store.apply(op)),
        store.apply(op).well_formed(),
{
    let after = store.apply(op);
    law_kept_by_is_a_preorder(store, store, store);
    let who = match op {
        Op::CreateTask { caller, .. } => caller,
        Op::CreateSubTask { caller, .. } => caller,
        Op::MarkAsCompleted { caller, .. } => caller,
    };
    if after != store {
        let at = if store.contains(who) {
            store.position(who)
        } else {
            store.entries.len() as int
        };
        let user = after.entries[at].1;
        assert(after == store.put(who, user));
        store.lemma_put_well_formed(who, user);
        assert forall|n: int| 0 <= n < store.entries.len() implies (#[trigger] after.entries[n]).0
            == store.entries[n].0 && store.entries[n].1.kept_by(after.entries[n].1) by {
            if n != at {
                assert(after.entries[n] == store.entries[n]);
            }
        }
    }
}

/// A run of requests only appends: whatever the requests, in whatever order,
/// the store afterwards holds every entry, task and sub-task that it held
/// before, at its position and with its number and text; what was done is
/// still done; and no identity has two entries.
pub proof fn law_run_appends(store: StoreView, ops: Seq<Op>)
    requires
        store.well_formed(),
    ensures
        store.kept_by(store.run(ops)),
        store.run(ops).well_formed(),
    decreases ops.len(),
{
    if ops.len() == 0 {
        law_kept_by_is_a_preorder(store, store, store);
    } else {
        let before = store.run(ops.drop_last());
        law_run_appends(store, ops.drop_last());
        law_request_appends(before, ops.last());
        law_kept_by_is_a_preorder(store, before, before.apply(ops.last()));
    }
}

/// The first task of an identity makes one entry, at the end of the store,
/// that holds this one task, without sub-tasks and with the text given.
/// What the other identities own stays as it is.
pub proof fn law_first_task(store: StoreView, who: Address, description: Seq<char>)
    requires
        store.well_formed(),
        !store.contains(who),
    ensures
        store.with_task(who, description).entries == store.entries.push(
            (who, UserView { all_task: seq![MainTaskView::new(who, description)] }),
        ),
        store.with_task(who, description).lookup(who) == Some(
            UserView { all_task: seq![MainTaskView::new(who, description)] },
        ),
        forall|other: Address|
            other != who ==> #[trigger] store.with_task(who, description).lookup(other)
                == store.lookup(other),
{
    let user = UserView { all_task: seq![MainTaskView::new(who, description)] };
    assert(UserView::empty().with_task(who, description).all_task =~= user.all_task);
    store.lemma_put_well_formed(who, user);
}

/// A further task of an identity goes to the end of its list; the tasks
/// before it, the entry's position and what the other identities own stay as
/// they are.
pub proof fn law_further_task(store: StoreView, who: Address, description: Seq<char>)
    requires
        store.well_formed(),
        store.contains(who),
    ensures
        store.with_task(who, description).entries.len() == store.entries.len(),
        store.with_task(who, description).lookup(who) == Some(
            UserView {
                all_task: store.lookup(who)->Some_0.all_task.push(
                    MainTaskView::new(who, description),
                ),
            },
        ),
        forall|other: Address|
            other != who ==> #[trigger] store.with_task(who, description).lookup(other)
                == store.lookup(other),
{
    store.lemma_put_well_formed(who, store.lookup(who)->Some_0.with_task(who, description));
}

/// A sub-task asked for by an identity without a main task changes nothing,
/// whether the identity has an entry or not.
pub proof fn law_sub_task_needs_main_task(store: StoreView, who: Address, description: Seq<char>)
    requires
        match store.lookup(who) {
            Some(user) => user.all_task.len() == 0,
            None => true,
        },
    ensures
        store.with_sub_task(who, description) == store,
{
}

/// A sub-task goes to the end of the last main task of its identity, open,
/// with the text given, and numbered by the count of the sub-tasks that were
/// there, as long as that count fits into 32 bits. The tasks before the last
/// and what the other identities own stay as they are.
pub proof fn law_sub_task_is_numbered_by_count(
    store: StoreView,
    who: Address,
    description: Seq<char>,
)
    requires
        store.well_formed(),
        store.lookup(who) is Some,
        store.lookup(who)->Some_0.all_task.len() > 0,
        store.lookup(who)->Some_0.all_task.last().tasks.len() <= u32::MAX,
    ensures
        ({
            let before = store.lookup(who)->Some_0.all_task;
            let count = before.last().tasks.len();
            let added = SubTaskView { id: count as u32, description, completed: false };
            store.with_sub_task(who, description).lookup(who) == Some(
                UserView {
                    all_task: before.drop_last().push(
                        MainTaskView { tasks: before.last().tasks.push(added), ..before.last() },
                    ),
                },
            )
        }),
        store.with_sub_task(who, description).entries.len() == store.entries.len(),
        forall|other: Address|
            other != who ==> #[trigger] store.with_sub_task(who, description).lookup(other)
                == store.lookup(other),
{
    let user = store.lookup(who)->Some_0;
    let before = user.all_task;
    let count = before.last().tasks.len();
    let added = SubTaskView { id: count as u32, description, completed: false };
    let after = UserView {
        all_task: before.drop_last().push(
            MainTaskView { tasks: before.last().tasks.push(added), ..before.last() },
        ),
    };
    assert(user.with_sub_task(description).all_task =~= after.all_task);
    store.lemma_put_well_formed(who, user.with_sub_task(description));
}

/// Marking a sub-task that exists succeeds and sets its flag. Every other
/// sub-task, and the number and text of the one marked, every task's owner
/// and text, and what the other identities own stay as they are.
pub proof fn law_completion_sets_one_flag(
    store: StoreView,
    who: Address,
    task_index: u64,
    sub_task_index: u64,
)
    requires
        store.well_formed(),
        store.lookup(who) is Some,
        store.lookup(who)->Some_0.has_sub_task(task_index, sub_task_index),
    ensures
        store.completion_outcome(who, task_index, sub_task_index) == Ok::<(), ReceiveError>(()),
        ({
            let before = store.lookup(who)->Some_0;
            let after = store.after_completion(who, task_index, sub_task_index).lookup(who);
            &&& after is Some
            &&& after->Some_0.all_task.len() == before.all_task.len()
            &&& forall|i: int|
                0 <= i < before.all_task.len() ==> {
                    let (old_task, new_task) = (
                        #[trigger] before.all_task[i],
                        after->Some_0.all_task[i],
                    );
                    &&& new_task.id == old_task.id
                    &&& new_task.description == old_task.description
                    &&& new_task.tasks.len() == old_task.tasks.len()
                    &&& forall|j: int|
                        0 <= j < old_task.tasks.len() ==> {
                            let (old_sub, new_sub) = (#[trigger] old_task.tasks[j], new_task.tasks[j]);
                            &&& new_sub.id == old_sub.id
                            &&& new_sub.description == old_sub.description
                            &&& new_sub.completed == (old_sub.completed || (i == task_index && j
                                == sub_task_index))
                        }
                }
        }),
        store.after_completion(who, task_index, sub_task_index).entries.len()
            == store.entries.len(),
        forall|other: Address|
            other != who ==> #[trigger] store.after_completion(
                who,
                task_index,
                sub_task_index,
            ).lookup(other) == store.lookup(other),
{
    let before = store.lookup(who)->Some_0;
    store.lemma_put_well_formed(who, before.with_completed(task_index as int, sub_task_index as int));
}

/// Marking a sub-task that its main task does not have is refused, and the
/// store stays as it is.
pub proof fn law_missing_sub_task_is_refused(
    store: StoreView,
    who: Address,
    task_index: u64,
    sub_task_index: u64,
)
    requires
        store.lookup(who) is Some,
        store.lookup(who)->Some_0.has_task(task_index),
        !store.lookup(who)->Some_0.has_sub_task(task_index, sub_task_index),
    ensures
        store.completion_outcome(who, task_index, sub_task_index) == Err::<(), ReceiveError>(
            ReceiveError::IndexOutOfRange,
        ),
        store.after_completion(who, task_index, sub_task_index) == store,
{
}

/// Marking is passed over in silence, and the store stays as it is, where
/// the identity has no entry or no main task at the position given.
pub proof fn law_missing_main_task_is_passed_over(
    store: StoreView,
    who: Address,
    task_index: u64,
    sub_task_index: u64,
)
    requires
        match store.lookup(who) {
            Some(user) => !user.has_task(task_index),
            None => true,
        },
    ensures
        store.completion_outcome(who, task_index, sub_task_index) == Ok::<(), ReceiveError>(()),
        store.after_completion(who, task_index, sub_task_index) == store,
{
}

impl MainTaskView {
    /// Every sub-task bears its position as its number, reduced to 32 bits.
    pub open spec fn numbered(self) -> bool {
        forall|k: int|
            0 <= k < self.tasks.len() ==> (#[trigger] self.tasks[k]).id == k % 0x1_0000_0000
    }
}

impl UserView {
    /// There is a main task, every main task bears the identity `who`, and
    /// every sub-task bears its position as its number.
    pub open spec fn owned_by(self, who: Address) -> bool {
        &&& self.all_task.len() > 0
        &&& forall|i: int|
            0 <= i < self.all_task.len() ==> (#[trigger] self.all_task[i]).id == who
                && self.all_task[i].numbered()
    }
}

impl StoreView {
    /// Every entry is owned by its identity: an identity has an entry only
    /// with a main task in it, and every main task bears its owner's
    /// identity and numbers its sub-tasks by position.
    pub open spec fn consistent(self) -> bool {
        forall|n: int|
            0 <= n < self.entries.len() ==> (#[trigger] self.entries[n]).1.owned_by(
                self.entries[n].0,
            )
    }
}

/// One request keeps every entry owned by its identity.
pub proof fn law_request_keeps_consistency(store: StoreView, op: Op)
    requires
        store.well_formed(),
        store.consistent(),
    ensures
        store.apply(op).consistent(),
{
    let after = store.apply(op);
    let who = match op {
        Op::CreateTask { caller, .. } => caller,
        Op::CreateSubTask { caller, .. } => caller,
        Op::MarkAsCompleted { caller, .. } => caller,
    };
    if after != store {
        let at = if store.contains(who) {
            store.position(who)
        } else {
            store.entries.len() as int
        };
        let user = after.entries[at].1;
        assert(after == store.put(who, user));
        assert(user.owned_by(who)) by {
            if store.contains(who) {
                assert(store.entries[at].1.owned_by(who));
            }
        }
        assert forall|n: int| 0 <= n < after.entries.len() implies (
        #[trigger] after.entries[n]).1.owned_by(after.entries[n].0) by {
            if n != at {
                assert(after.entries[n] == store.entries[n]);
                assert(store.entries[n].1.owned_by(store.entries[n].0));
            }
        }
    }
}

/// A store that started empty, and was changed by requests alone, has every
/// entry owned by its identity, and no identity twice.
pub proof fn law_run_keeps_consistency(ops: Seq<Op>)
    ensures
        StoreView::empty().run(ops).consistent(),
        StoreView::empty().run(ops).well_formed(),
    decreases ops.len(),
{
    if ops.len() > 0 {
        law_run_keeps_consistency(ops.drop_last());
        let before = StoreView::empty().run(ops.drop_last());
        law_request_appends(before, ops.last());
        law_request_keeps_consistency(before, ops.last());
    }
}

} // verus!
