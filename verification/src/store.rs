//! The task repository: what creating, listing, completing and deleting tasks
//! mean, and an in-memory store that does exactly that.

use vstd::prelude::*;
use crate::task::{views, Task, TaskView};

verus! {

/// The mathematical value of a store: its rows in listing order and the
/// identifier that the next new task will get.
pub struct StoreView {
    pub tasks: Seq<TaskView>,
    pub next_id: int,
}

impl StoreView {
    /// The store that holds no task and has issued no identifier.
    pub open spec fn empty() -> StoreView {
        StoreView { tasks: Seq::empty(), next_id: 1 }
    }

    /// The invariant of a store: identifiers are positive, were issued before
    /// `next_id`, and rows are listed by strictly ascending identifier.
    pub open spec fn wf(self) -> bool {
        &&& self.next_id >= 1
        &&& forall|i: int|
            0 <= i < self.tasks.len() ==> 1 <= (#[trigger] self.tasks[i]).id < self.next_id
        &&& forall|i: int, j: int|
            0 <= i < j < self.tasks.len() ==> (#[trigger] self.tasks[i]).id < (
            #[trigger] self.tasks[j]).id
    }

    /// Whether a row with identifier `id` is present.
    pub open spec fn contains(self, id: int) -> bool {
        exists|i: int| 0 <= i < self.tasks.len() && (#[trigger] self.tasks[i]).id == id
    }

    /// The place of the row with identifier `id`, if it is present.
    pub open spec fn position(self, id: int) -> int {
        choose|i: int| 0 <= i < self.tasks.len() && (#[trigger] self.tasks[i]).id == id
    }

    /// The row with identifier `id`, if it is present.
    pub open spec fn task(self, id: int) -> TaskView {
        self.tasks[self.position(id)]
    }

    /// The store after a task with `title` was created: one more row at the
    /// end, not done, under the identifier `self.next_id`.
    pub open spec fn create(self, title: Seq<char>) -> StoreView {
        StoreView {
            tasks: self.tasks.push(TaskView { id: self.next_id, title, done: false }),
            next_id: self.next_id + 1,
        }
    }

    /// The store after the task `id` was marked as done; unchanged if there
    /// is no such task.
    pub open spec fn mark_done(self, id: int) -> StoreView {
        if self.contains(id) {
            let k = self.position(id);
            StoreView {
                tasks: self.tasks.update(k, TaskView { done: true, ..self.tasks[k] }),
                next_id: self.next_id,
            }
        } else {
            self
        }
    }

    /// The store after the task `id` was deleted; unchanged if there is no
    /// such task.
    pub open spec fn delete(self, id: int) -> StoreView {
        if self.contains(id) {
            StoreView { tasks: self.tasks.remove(self.position(id)), next_id: self.next_id }
        } else {
            self
        }
    }

    /// In a well-formed store a row is found at one place only.
    pub proof fn lemma_position_is_unique(self, k: int)
        requires
            self.wf(),
            0 <= k < self.tasks.len(),
        ensures
            self.contains(self.tasks[k].id),
            self.position(self.tasks[k].id) == k,
    {
        let id = self.tasks[k].id;
        let p = self.position(id);
        assert(0 <= p < self.tasks.len() && self.tasks[p].id == id);
        if p < k {
            assert(self.tasks[p].id < self.tasks[k].id);
        } else if k < p {
            assert(self.tasks[k].id < self.tasks[p].id);
        }
    }
}

/// One operation that changes a store.
pub enum Op {
    /// Create a task with this title.
    Create { title: Seq<char> },
    /// Mark the task with this identifier as done.
    MarkDone { id: int },
    /// Delete the task with this identifier.
    Delete { id: int },
}

impl StoreView {
    /// The store after `op`.
    pub open spec fn apply(self, op: Op) -> StoreView {
        match op {
            Op::Create { title } => self.create(title),
            Op::MarkDone { id } => self.mark_done(id),
            Op::Delete { id } => self.delete(id),
        }
    }

    /// The store after the operations `ops`, carried out one after another.
    pub open spec fn run(self, ops: Seq<Op>) -> StoreView
        decreases ops.len(),
    {
        if ops.len() == 0 {
            self
        } else {
            self.run(ops.drop_last()).apply(ops.last())
        }
    }

    /// A new task is listed: creating a task keeps the store well formed,
    /// leaves the other rows as they were and adds one row at the end that
    /// has the given title, is not done and carries the issued identifier.
    pub proof fn lemma_created_task_is_listed(self, title: Seq<char>)
        requires
            self.wf(),
        ensures
            self.create(title).wf(),
            self.create(title).tasks.len() == self.tasks.len() + 1,
            self.create(title).tasks.drop_last() == self.tasks,
            self.create(title).tasks.last() == (TaskView { id: self.next_id, title, done: false }),
            self.create(title).contains(self.next_id),
            self.create(title).task(self.next_id) == (TaskView {
                id: self.next_id,
                title,
                done: false,
            }),
            !self.contains(self.next_id),
    {
        let after = self.create(title);
        assert(after.wf()) by {
            assert forall|i: int| 0 <= i < after.tasks.len() implies 1 <= (
            #[trigger] after.tasks[i]).id < after.next_id by {
                if i < self.tasks.len() {
                    assert(after.tasks[i] == self.tasks[i]);
                }
            }
            assert forall|i: int, j: int| 0 <= i < j < after.tasks.len() implies (
            #[trigger] after.tasks[i]).id < (#[trigger] after.tasks[j]).id by {
                assert(after.tasks[i] == self.tasks[i]);
                if j < self.tasks.len() {
                    assert(after.tasks[j] == self.tasks[j]);
                }
            }
        }
        assert(after.tasks.drop_last() == self.tasks);
        after.lemma_position_is_unique(self.tasks.len() as int);
        if self.contains(self.next_id) {
            let k = self.position(self.next_id);
            assert(self.tasks[k].id < self.next_id);
        }
    }

    /// A task that is not there is not found: completing or deleting it
    /// reports no match and changes nothing.
    pub proof fn lemma_absent_task_is_not_found(self, id: int)
        requires
            !self.contains(id),
        ensures
            self.mark_done(id) == self,
            self.delete(id) == self,
    {
    }

    /// Completing a task keeps the store well formed and changes nothing but
    /// the flag of that one row.
    pub proof fn lemma_mark_done_sets_the_flag(self, id: int)
        requires
            self.wf(),
            self.contains(id),
        ensures
            self.mark_done(id).wf(),
            self.mark_done(id).next_id == self.next_id,
            self.mark_done(id).tasks.len() == self.tasks.len(),
            self.mark_done(id).contains(id),
            self.mark_done(id).position(id) == self.position(id),
            self.mark_done(id).task(id) == (TaskView { done: true, ..self.task(id) }),
            forall|i: int|
                0 <= i < self.tasks.len() && i != self.position(id) ==> self.mark_done(
                    id,
                ).tasks[i] == self.tasks[i],
    {
        let k = self.position(id);
        let after = self.mark_done(id);
        assert(0 <= k < self.tasks.len() && self.tasks[k].id == id);
        assert forall|i: int| 0 <= i < after.tasks.len() implies (#[trigger] after.tasks[i]).id
            == self.tasks[i].id by {}
        assert(after.wf()) by {
            assert forall|i: int| 0 <= i < after.tasks.len() implies 1 <= (
            #[trigger] after.tasks[i]).id < after.next_id by {
                assert(after.tasks[i].id == self.tasks[i].id);
            }
            assert forall|i: int, j: int| 0 <= i < j < after.tasks.len() implies (
            #[trigger] after.tasks[i]).id < (#[trigger] after.tasks[j]).id by {
                assert(after.tasks[i].id == self.tasks[i].id);
                assert(after.tasks[j].id == self.tasks[j].id);
            }
        }
        assert(after.tasks[k].id == id);
        after.lemma_position_is_unique(k);
    }

    /// Completing is idempotent: after the task `id` of a store was marked as
    /// done, it is done, and marking it again matches it again and changes
    /// nothing.
    pub proof fn lemma_mark_done_is_idempotent(self, id: int)
        requires
            self.wf(),
            self.contains(id),
        ensures
            self.mark_done(id).contains(id),
            self.mark_done(id).task(id).done,
            self.mark_done(id).mark_done(id) == self.mark_done(id),
    {
        self.lemma_mark_done_sets_the_flag(id);
        let once = self.mark_done(id);
        let twice = once.mark_done(id);
        assert(twice.tasks == once.tasks);
    }

    /// Deleting a task keeps the store well formed, takes that one row out
    /// and keeps the others in their order.
    pub proof fn lemma_delete_removes_the_row(self, id: int)
        requires
            self.wf(),
            self.contains(id),
        ensures
            self.delete(id).wf(),
            self.delete(id).next_id == self.next_id,
            self.delete(id).tasks.len() == self.tasks.len() - 1,
            !self.delete(id).contains(id),
            forall|i: int|
                0 <= i < self.position(id) ==> self.delete(id).tasks[i] == self.tasks[i],
            forall|i: int|
                self.position(id) <= i < self.tasks.len() - 1 ==> self.delete(id).tasks[i]
                    == self.tasks[i + 1],
    {
        let k = self.position(id);
        let after = self.delete(id);
        assert(0 <= k < self.tasks.len() && self.tasks[k].id == id);
        assert forall|i: int| 0 <= i < after.tasks.len() implies #[trigger] after.tasks[i] == (if i
            < k {
            self.tasks[i]
        } else {
            self.tasks[i + 1]
        }) by {}
        assert(after.wf()) by {
            assert forall|i: int| 0 <= i < after.tasks.len() implies 1 <= (
            #[trigger] after.tasks[i]).id < after.next_id by {
                if i < k {
                    assert(after.tasks[i] == self.tasks[i]);
                } else {
                    assert(after.tasks[i] == self.tasks[i + 1]);
                }
            }
            assert forall|i: int, j: int| 0 <= i < j < after.tasks.len() implies (
            #[trigger] after.tasks[i]).id < (#[trigger] after.tasks[j]).id by {
                let a = if i < k { i } else { i + 1 };
                let b = if j < k { j } else { j + 1 };
                assert(after.tasks[i] == self.tasks[a]);
                assert(after.tasks[j] == self.tasks[b]);
                assert(self.tasks[a].id < self.tasks[b].id);
            }
        }
        if after.contains(id) {
            let p = after.position(id);
            let q = if p < k { p } else { p + 1 };
            assert(after.tasks[p] == self.tasks[q]);
            self.lemma_position_is_unique(q);
        }
    }

    /// A new task can be deleted exactly once: the identifier that creating
    /// returns is present, deleting it restores the rows that were there
    /// before, and a second deletion finds nothing and changes nothing.
    pub proof fn lemma_created_task_is_deleted_once(self, title: Seq<char>)
        requires
            self.wf(),
        ensures
            self.create(title).contains(self.next_id),
            self.create(title).delete(self.next_id).tasks == self.tasks,
            !self.create(title).delete(self.next_id).contains(self.next_id),
            self.create(title).delete(self.next_id).delete(self.next_id) == self.create(
                title,
            ).delete(self.next_id),
    {
        let id = self.next_id;
        let created = self.create(title);
        self.lemma_created_task_is_listed(title);
        created.lemma_position_is_unique(self.tasks.len() as int);
        created.lemma_delete_removes_the_row(id);
        assert(created.delete(id).tasks == self.tasks);
    }

    /// Every operation keeps the store well formed and never lowers the
    /// identifier that comes next.
    pub proof fn lemma_apply_keeps_wf(self, op: Op)
        requires
            self.wf(),
        ensures
            self.apply(op).wf(),
            self.apply(op).next_id >= self.next_id,
    {
        match op {
            Op::Create { title } => {
                self.lemma_created_task_is_listed(title);
            },
            Op::MarkDone { id } => {
                if self.contains(id) {
                    self.lemma_mark_done_sets_the_flag(id);
                }
            },
            Op::Delete { id } => {
                if self.contains(id) {
                    self.lemma_delete_removes_the_row(id);
                }
            },
        }
    }

    /// An operation brings no row under an identifier that was issued before
    /// and is not present.
    proof fn lemma_apply_revives_nothing(self, op: Op, id: int)
        requires
            self.wf(),
            id < self.next_id,
            !self.contains(id),
        ensures
            !self.apply(op).contains(id),
    {
        let after = self.apply(op);
        if after.contains(id) {
            let p = after.position(id);
            assert(0 <= p < after.tasks.len() && after.tasks[p].id == id);
            match op {
                Op::Create { title } => {
                    if p < self.tasks.len() {
                        assert(after.tasks[p] == self.tasks[p]);
                    }
                },
                Op::MarkDone { id: other } => {
                    if self.contains(other) {
                        self.lemma_mark_done_sets_the_flag(other);
                        assert(after.tasks[p].id == self.tasks[p].id);
                    }
                },
                Op::Delete { id: other } => {
                    if self.contains(other) {
                        self.lemma_delete_removes_the_row(other);
                        let k = self.position(other);
                        let q = if p < k { p } else { p + 1 };
                        assert(after.tasks[p] == self.tasks[q]);
                    }
                },
            }
        }
    }

    /// An operation leaves the title of a row that stays as it was, and
    /// leaves a row that is done done.
    proof fn lemma_apply_keeps_rows(self, op: Op, id: int)
        requires
            self.wf(),
            self.contains(id),
            self.apply(op).contains(id),
        ensures
            self.apply(op).task(id).title == self.task(id).title,
            self.task(id).done ==> self.apply(op).task(id).done,
    {
        let after = self.apply(op);
        self.lemma_apply_keeps_wf(op);
        let k = self.position(id);
        let p = after.position(id);
        assert(0 <= k < self.tasks.len() && self.tasks[k].id == id);
        assert(0 <= p < after.tasks.len() && after.tasks[p].id == id);
        match op {
            Op::Create { title } => {
                if p < self.tasks.len() {
                    assert(after.tasks[p] == self.tasks[p]);
                    self.lemma_position_is_unique(p);
                }
            },
            Op::MarkDone { id: other } => {
                if self.contains(other) {
                    self.lemma_mark_done_sets_the_flag(other);
                    assert(after.tasks[p].id == self.tasks[p].id);
                    self.lemma_position_is_unique(p);
                }
            },
            Op::Delete { id: other } => {
                if self.contains(other) {
                    self.lemma_delete_removes_the_row(other);
                    let d = self.position(other);
                    let q = if p < d { p } else { p + 1 };
                    assert(after.tasks[p] == self.tasks[q]);
                    self.lemma_position_is_unique(q);
                }
            },
        }
    }

    /// Whatever operations are carried out, the store stays well formed and
    /// the identifier that comes next never goes down.
    pub proof fn lemma_run_keeps_wf(self, ops: Seq<Op>)
        requires
            self.wf(),
        ensures
            self.run(ops).wf(),
            self.run(ops).next_id >= self.next_id,
        decreases ops.len(),
    {
        if ops.len() > 0 {
            self.lemma_run_keeps_wf(ops.drop_last());
            self.run(ops.drop_last()).lemma_apply_keeps_wf(ops.last());
        }
    }

    /// Identifiers are never reused: one that was issued and is no longer
    /// present, because its task was deleted, stays absent whatever
    /// operations follow.
    pub proof fn lemma_identifiers_are_not_reused(self, ops: Seq<Op>, id: int)
        requires
            self.wf(),
            id < self.next_id,
            !self.contains(id),
        ensures
            !self.run(ops).contains(id),
        decreases ops.len(),
    {
        if ops.len() > 0 {
            let before = self.run(ops.drop_last());
            self.lemma_run_keeps_wf(ops.drop_last());
            self.lemma_identifiers_are_not_reused(ops.drop_last(), id);
            before.lemma_apply_revives_nothing(ops.last(), id);
        }
    }

    /// A row is only ever taken out, never put back: a task that is present
    /// after some operations was present before them.
    pub proof fn lemma_present_rows_were_present(self, ops: Seq<Op>, id: int)
        requires
            self.wf(),
            id < self.next_id,
            self.run(ops).contains(id),
        ensures
            self.contains(id),
    {
        if !self.contains(id) {
            self.lemma_identifiers_are_not_reused(ops, id);
        }
    }

    /// Titles are fixed and completion is permanent: a task that is still
    /// present after some operations has the title it had before, and is done
    /// if it was done before.
    pub proof fn lemma_done_is_permanent(self, ops: Seq<Op>, id: int)
        requires
            self.wf(),
            self.contains(id),
            self.run(ops).contains(id),
        ensures
            self.run(ops).task(id).title == self.task(id).title,
            self.task(id).done ==> self.run(ops).task(id).done,
        decreases ops.len(),
    {
        if ops.len() > 0 {
            let before = self.run(ops.drop_last());
            self.lemma_run_keeps_wf(ops.drop_last());
            assert(id < self.next_id) by {
                let k = self.position(id);
                assert(self.tasks[k].id == id);
            }
            if !before.contains(id) {
                before.lemma_apply_revives_nothing(ops.last(), id);
            }
            self.lemma_done_is_permanent(ops.drop_last(), id);
            before.lemma_apply_keeps_rows(ops.last(), id);
        }
    }

    /// No creation is lost: after one creation for each of `titles`, in
    /// whatever order they were carried out, the store lists all rows it had
    /// and then one new row for each title, each under an identifier of its
    /// own.
    pub proof fn lemma_creations_are_all_kept(self, titles: Seq<Seq<char>>)
        ensures
            self.run(Seq::new(titles.len(), |k: int| Op::Create { title: titles[k] })).tasks
                == self.tasks + Seq::new(
                titles.len(),
                |k: int| TaskView { id: self.next_id + k, title: titles[k], done: false },
            ),
            self.run(Seq::new(titles.len(), |k: int| Op::Create { title: titles[k] })).next_id
                == self.next_id + titles.len(),
            self.run(Seq::new(titles.len(), |k: int| Op::Create { title: titles[k] })).tasks.len()
                == self.tasks.len() + titles.len(),
        decreases titles.len(),
    {
        let ops = Seq::new(titles.len(), |k: int| Op::Create { title: titles[k] });
        let rows = Seq::new(
            titles.len(),
            |k: int| TaskView { id: self.next_id + k, title: titles[k], done: false },
        );
        if titles.len() == 0 {
            assert(self.tasks + rows == self.tasks);
        } else {
            let fewer = titles.drop_last();
            self.lemma_creations_are_all_kept(fewer);
            let fewer_ops = Seq::new(fewer.len(), |k: int| Op::Create { title: fewer[k] });
            let fewer_rows = Seq::new(
                fewer.len(),
                |k: int| TaskView { id: self.next_id + k, title: fewer[k], done: false },
            );
            assert(ops.drop_last() == fewer_ops);
            assert(ops.last() == Op::Create { title: titles.last() });
            assert(self.run(ops).tasks == (self.tasks + fewer_rows).push(rows.last()));
            assert((self.tasks + fewer_rows).push(rows.last()) == self.tasks + rows);
        }
    }
}

/// Why the store could not carry out an operation.
#[derive(Clone, Copy, Debug, PartialEq, Eq, Structural)]
pub enum StoreError {
    /// Every identifier has been issued.
    Full,
}

/// An in-memory task store.
pub struct TaskStore {
    tasks: Vec<Task>,
    next_id: i64,
}

impl View for TaskStore {
    type V = StoreView;

    closed spec fn view(&self) -> StoreView {
        StoreView { tasks: views(self.tasks@), next_id: self.next_id as int }
    }
}

impl TaskStore {
    /// The invariant of the store, which every operation keeps.
    pub open spec fn wf(&self) -> bool {
        self@.wf() && self@.next_id <= i64::MAX
    }

    /// An empty store.
    pub fn new() -> (r: TaskStore)
        ensures
            r.wf(),
            r@ == StoreView::empty(),
    {
        let r = TaskStore { tasks: Vec::new(), next_id: 1 };
        assert(r@.tasks == Seq::<TaskView>::empty());
        r
    }

    /// An empty store that issues `first_id` as its first identifier, or
    /// nothing if `first_id` is not positive.
    pub fn starting_at(first_id: i64) -> (r: Option<TaskStore>)
        ensures
            r is Some <==> first_id >= 1,
            r matches Some(store) ==> store.wf() && store@ == (StoreView {
                tasks: Seq::empty(),
                next_id: first_id as int,
            }),
    {
        if first_id < 1 {
            return None;
        }
        let store = TaskStore { tasks: Vec::new(), next_id: first_id };
        assert(store@.tasks == Seq::<TaskView>::empty());
        Some(store)
    }

    /// The tasks of the store, by ascending identifier, which is the order
    /// of their creation.
    pub fn list(&self) -> (r: Vec<Task>)
        ensures
            views(r@) == self@.tasks,
            self.wf() ==> forall|i: int, j: int|
                0 <= i < j < r.len() ==> (#[trigger] r[i]).id < (#[trigger] r[j]).id,
    {
        let mut r: Vec<Task> = Vec::new();
        let mut i: usize = 0;
        while i < self.tasks.len()
            invariant
                i <= self.tasks.len(),
                views(r@) == views(self.tasks@).take(i as int),
            decreases self.tasks.len() - i,
        {
            let ghost before = r@;
            let row = self.tasks[i].clone();
            r.push(row);
            assert(views(r@) == views(before).push(row@));
            assert(views(r@) == views(self.tasks@).take(i + 1));
            i = i + 1;
        }
        assert(views(self.tasks@).take(i as int) == views(self.tasks@));
        proof {
            if self.wf() {
                assert forall|i: int, j: int| 0 <= i < j < r.len() implies (#[trigger] r[i]).id < (
                #[trigger] r[j]).id by {
                    assert(views(r@)[i] == r[i]@);
                    assert(views(r@)[j] == r[j]@);
                    assert(self@.tasks[i].id < self@.tasks[j].id);
                }
            }
        }
        r
    }

    /// The place of the task `id` among the rows, if it is present.
    fn find(&self, id: i64) -> (r: Option<usize>)
        requires
            self.wf(),
        ensures
            match r {
                Some(k) => k < self.tasks.len() && self.tasks[k as int].id == id
                    && self@.contains(id as int) && self@.position(id as int) == k,
                None => !self@.contains(id as int),
            },
    {
        let mut i: usize = 0;
        while i < self.tasks.len()
            invariant
                self.wf(),
                i <= self.tasks.len(),
                forall|j: int| 0 <= j < i ==> (#[trigger] self@.tasks[j]).id != id,
            decreases self.tasks.len() - i,
        {
            if self.tasks[i].id == id {
                proof {
                    assert(self@.tasks[i as int].id == id);
                    self@.lemma_position_is_unique(i as int);
                }
                return Some(i);
            }
            assert(self@.tasks[i as int].id != id);
            i = i + 1;
        }
        None
    }

    /// Creates a task with `title`, not done, and returns its identifier.
    ///
    /// Fails, and changes nothing, only when every identifier has been issued.
    pub fn create(&mut self, title: &str) -> (r: Result<i64, StoreError>)
        requires
            old(self).wf(),
        ensures
            final(self).wf(),
            match r {
                Ok(id) => old(self)@.next_id < i64::MAX && id == old(self)@.next_id && final(self)@
                    == old(self)@.create(title@),
                Err(e) => e == StoreError::Full && old(self)@.next_id == i64::MAX && final(self)@
                    == old(self)@,
            },
    {
        if self.next_id == i64::MAX {
            return Err(StoreError::Full);
        }
        let id = self.next_id;
        self.tasks.push(Task { id, title: title.to_owned(), done: false });
        self.next_id = id + 1;
        proof {
            assert(self@.tasks == old(self)@.create(title@).tasks);
        }
        Ok(id)
    }

    /// Marks the task `id` as done and says whether there was such a task.
    pub fn mark_done(&mut self, id: i64) -> (r: bool)
        requires
            old(self).wf(),
        ensures
            final(self).wf(),
            r == old(self)@.contains(id as int),
            final(self)@ == old(self)@.mark_done(id as int),
    {
        match self.find(id) {
            Some(k) => {
                let row = Task { id, title: self.tasks[k].title.clone(), done: true };
                self.tasks.set(k, row);
                proof {
                    assert(self@.tasks == old(self)@.mark_done(id as int).tasks);
                }
                true
            },
            None => false,
        }
    }

    /// Deletes the task `id` and says whether there was such a task.
    pub fn delete(&mut self, id: i64) -> (r: bool)
        requires
            old(self).wf(),
        ensures
            final(self).wf(),
            r == old(self)@.contains(id as int),
            final(self)@ == old(self)@.delete(id as int),
    {
        match self.find(id) {
            Some(k) => {
                self.tasks.remove(k);
                proof {
                    assert(self@.tasks == old(self)@.delete(id as int).tasks);
                }
                true
            },
            None => false,
        }
    }
}

} // verus!
