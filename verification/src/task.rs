use crate::error::ReceiveError;
use crate::model::{MainTaskView, SubTaskView, UserView};
use concordium_std::Address;
use vstd::prelude::*;

verus! {

/// A leaf work item under a main task.
#[derive(Debug, PartialEq, Eq)]
pub struct SubTask {
    /// How many sub-tasks its main task held when this one was added.
    pub id: u32,
    pub description: String,
    pub completed: bool,
}

impl View for SubTask {
    type V = SubTaskView;

    open spec fn view(&self) -> SubTaskView {
        SubTaskView { id: self.id, description: self.description@, completed: self.completed }
    }
}

impl Clone for SubTask {
    fn clone(&self) -> (copy: Self)
        ensures
            copy@ == self@,
    {
        SubTask { id: self.id, description: self.description.clone(), completed: self.completed }
    }
}

/// A top-level task with its sub-tasks.
#[derive(Debug, PartialEq, Eq)]
pub struct MainTask {
    /// The identity that created the task.
    pub id: Address,
    pub description: String,
    pub tasks: Vec<SubTask>,
}

impl View for MainTask {
    type V = MainTaskView;

    open spec fn view(&self) -> MainTaskView {
        MainTaskView {
            id: self.id,
            description: self.description@,
            tasks: Seq::new(self.tasks@.len(), |k: int| self.tasks@[k]@),
        }
    }
}

impl Clone for MainTask {
    fn clone(&self) -> (copy: Self)
        ensures
            copy@ == self@,
    {
        let mut tasks: Vec<SubTask> = Vec::new();
        let mut k: usize = 0;
        while k < self.tasks.len()
            invariant
                k <= self.tasks.len(),
                tasks.len() == k,
                forall|n: int| 0 <= n < k ==> tasks@[n]@ == self.tasks@[n]@,
            decreases self.tasks.len() - k,
        {
            tasks.push(self.tasks[k].clone());
            k += 1;
        }
        let copy = MainTask { id: self.id, description: self.description.clone(), tasks };
        assert(copy@.tasks =~= self@.tasks);
        copy
    }
}

impl MainTask {
    /// A task of `owner` with no sub-tasks yet.
    pub fn new(owner: Address, description: String) -> (task: MainTask)
        ensures
            task@ == MainTaskView::new(owner, description@),
    {
        let task = MainTask { id: owner, description, tasks: Vec::new() };
        assert(task@.tasks =~= Seq::empty());
        task
    }

    /// Appends an open sub-task, numbered by the count of those already there.
    pub fn push_sub_task(&mut self, description: String)
        ensures
            final(self)@ == old(self)@.with_sub_task(description@),
    {
        let count: u64 = self.tasks.len() as u64;
        let id: u32 = (count % 0x1_0000_0000) as u32;
        self.tasks.push(SubTask { id, description, completed: false });
        assert(self@.tasks =~= old(self)@.with_sub_task(description@).tasks);
    }

    /// Marks the sub-task at position `sub_task_index` as done.
    pub fn complete(&mut self, sub_task_index: u64) -> (done: Result<(), ReceiveError>)
        ensures
            sub_task_index < old(self).tasks@.len() ==> done == Ok::<(), ReceiveError>(())
                && final(self)@ == old(self)@.with_completed(sub_task_index as int),
            sub_task_index >= old(self).tasks@.len() ==> done == Err::<(), ReceiveError>(
                ReceiveError::IndexOutOfRange,
            ) && final(self)@ == old(self)@,
    {
        if sub_task_index >= self.tasks.len() as u64 {
            return Err(ReceiveError::IndexOutOfRange);
        }
        let k: usize = sub_task_index as usize;
        self.tasks[k].completed = true;
        assert(self@.tasks =~= old(self)@.with_completed(sub_task_index as int).tasks);
        Ok(())
    }
}

/// Everything one identity has put into the store.
#[derive(Debug, PartialEq, Eq)]
pub struct User {
    pub all_task: Vec<MainTask>,
}

impl View for User {
    type V = UserView;

    open spec fn view(&self) -> UserView {
        UserView { all_task: Seq::new(self.all_task@.len(), |k: int| self.all_task@[k]@) }
    }
}

impl Clone for User {
    fn clone(&self) -> (copy: Self)
        ensures
            copy@ == self@,
    {
        let mut all_task: Vec<MainTask> = Vec::new();
        let mut k: usize = 0;
        while k < self.all_task.len()
            invariant
                k <= self.all_task.len(),
                all_task.len() == k,
                forall|n: int| 0 <= n < k ==> all_task@[n]@ == self.all_task@[n]@,
            decreases self.all_task.len() - k,
        {
            all_task.push(self.all_task[k].clone());
            k += 1;
        }
        let copy = User { all_task };
        assert(copy@.all_task =~= self@.all_task);
        copy
    }
}

impl User {
    /// A user without tasks.
    pub fn new() -> (user: User)
        ensures
            user@ == UserView::empty(),
    {
        let user = User { all_task: Vec::new() };
        assert(user@.all_task =~= Seq::empty());
        user
    }

    /// Appends a main task of `owner` without sub-tasks.
    pub fn push_task(&mut self, owner: Address, description: String)
        ensures
            final(self)@ == old(self)@.with_task(owner, description@),
    {
        self.all_task.push(MainTask::new(owner, description));
        assert(self@.all_task =~= old(self)@.with_task(owner, description@).all_task);
    }

    /// Appends a sub-task to the last main task. Without a main task nothing
    /// changes.
    pub fn push_sub_task(&mut self, description: String)
        ensures
            final(self)@ == old(self)@.with_sub_task(description@),
    {
        let count = self.all_task.len();
        if count > 0 {
            self.all_task[count - 1].push_sub_task(description);
            assert(self@.all_task =~= old(self)@.with_sub_task(description@).all_task);
        }
    }

    /// Marks sub-task `sub_task_index` of main task `task_index` as done.
    /// Where there is no such main task nothing changes; where the main task
    /// has no such sub-task the call is refused.
    pub fn complete(&mut self, task_index: u64, sub_task_index: u64) -> (done: Result<
        (),
        ReceiveError,
    >)
        ensures
            done == old(self)@.completion_outcome(task_index, sub_task_index),
            final(self)@ == old(self)@.after_completion(task_index, sub_task_index),
    {
        if task_index >= self.all_task.len() as u64 {
            return Ok(());
        }
        let i: usize = task_index as usize;
        let done = self.all_task[i].complete(sub_task_index);
        assert(self@.all_task =~= old(self)@.after_completion(task_index, sub_task_index).all_task);
        done
    }
}

} // verus!
