//! The storage model: a table of tasks keyed by a server-assigned id.
//!
//! `TaskStore` captures the semantics the service relies on: ids are
//! assigned monotonically starting at 1 and never reused, rows are kept
//! sorted ascending by id, an update overwrites both mutable columns
//! (an omitted field becomes empty/null rather than being left unchanged),
//! and update and delete succeed even when no row matches the id.

use vstd::prelude::*;
use crate::task::Task;

verus! {

/// The rows are strictly ascending by `task_id`.
pub open spec fn sorted_by_id(ts: Seq<Task>) -> bool {
    forall|i: int, j: int| 0 <= i < j < ts.len() ==> ts[i].task_id < ts[j].task_id
}

/// Every row's id lies in `1 ..= bound - 1`.
pub open spec fn ids_below(ts: Seq<Task>, bound: int) -> bool {
    forall|i: int| 0 <= i < ts.len() ==> 1 <= #[trigger] ts[i].task_id < bound
}

/// The name a row holds after an update that supplied `name`:
/// the given text, or empty when the field was omitted.
pub open spec fn updated_name(t: Task, name: Option<String>) -> bool {
    match name {
        Some(n) => t.name == n,
        None => t.name@ == Seq::<char>::empty(),
    }
}

/// An in-memory task table with the same observable behaviour as the
/// relational table the service fronts.
pub struct TaskStore {
    tasks: Vec<Task>,
    next_id: i32,
}

impl TaskStore {
    /// The rows, in storage order.
    pub closed spec fn rows(self) -> Seq<Task> {
        self.tasks@
    }

    /// The id the next insertion will receive.
    pub closed spec fn next(self) -> int {
        self.next_id as int
    }

    /// Storage invariant: ids start at 1, are assigned below `next_id`,
    /// and the rows are strictly sorted by id (hence ids are unique).
    pub open spec fn wf(self) -> bool {
        &&& 1 <= self.next()
        &&& sorted_by_id(self.rows())
        &&& ids_below(self.rows(), self.next())
    }

    /// An empty table; the first insertion will receive id 1.
    pub fn new() -> (s: TaskStore)
        ensures
            s.wf(),
            s.rows() == Seq::<Task>::empty(),
            s.next() == 1,
    {
        TaskStore { tasks: Vec::new(), next_id: 1 }
    }

    /// Inserts a new row and returns its freshly assigned id.
    ///
    /// The id is positive, strictly larger than every existing id, and the
    /// row is appended, so the table stays sorted.
    pub fn insert(&mut self, name: String, priority: Option<i32>) -> (id: i32)
        requires
            old(self).wf(),
            old(self).next() < i32::MAX,
        ensures
            final(self).wf(),
            id == old(self).next(),
            id >= 1,
            final(self).next() == old(self).next() + 1,
            final(self).rows() == old(self).rows().push(
                (Task { task_id: id, name: name, priority: priority }),
            ),
    {
        let id = self.next_id;
        let t = Task { task_id: id, name, priority };
        self.tasks.push(t);
        self.next_id = self.next_id + 1;
        proof {
            assert forall|i: int, j: int| 0 <= i < j < self.rows().len() implies
                self.rows()[i].task_id < self.rows()[j].task_id by {
                if j < self.rows().len() - 1 {
                    assert(old(self).rows()[i].task_id < old(self).rows()[j].task_id);
                }
            }
        }
        id
    }

    /// Overwrites both mutable columns of the row with the given id, if any.
    ///
    /// Both columns are always assigned: an omitted `name` becomes empty and
    /// an omitted `priority` becomes null. When no row matches, the table is
    /// unchanged — the operation still succeeds (it returns normally).
    pub fn update(&mut self, task_id: i32, name: Option<String>, priority: Option<i32>)
        requires
            old(self).wf(),
        ensures
            final(self).wf(),
            final(self).next() == old(self).next(),
            final(self).rows().len() == old(self).rows().len(),
            forall|i: int| 0 <= i < final(self).rows().len() && old(self).rows()[i].task_id != task_id
                ==> #[trigger] final(self).rows()[i] == old(self).rows()[i],
            forall|i: int| 0 <= i < final(self).rows().len() && old(self).rows()[i].task_id == task_id
                ==> {
                    &&& (#[trigger] final(self).rows()[i]).task_id == task_id
                    &&& updated_name(final(self).rows()[i], name)
                    &&& final(self).rows()[i].priority == priority
                },
            !(exists|i: int| 0 <= i < old(self).rows().len()
                && (#[trigger] old(self).rows()[i]).task_id == task_id)
                ==> final(self).rows() == old(self).rows(),
    {
        let n = self.tasks.len();
        let mut i: usize = 0;
        while i < n
            invariant
                n == self.tasks.len(),
                i <= n,
                self.next_id == old(self).next_id,
                self.rows().len() == old(self).rows().len(),
                forall|j: int| 0 <= j < self.rows().len() && !(j < i && old(self).rows()[j].task_id == task_id)
                    ==> #[trigger] self.rows()[j] == old(self).rows()[j],
                forall|j: int| 0 <= j < i && old(self).rows()[j].task_id == task_id
                    ==> {
                        &&& (#[trigger] self.rows()[j]).task_id == task_id
                        &&& updated_name(self.rows()[j], name)
                        &&& self.rows()[j].priority == priority
                    },
            decreases n - i,
        {
            if self.tasks[i].task_id == task_id {
                let new_name = match &name {
                    Some(s) => s.clone(),
                    None => String::new(),
                };
                let t = Task { task_id, name: new_name, priority };
                self.tasks.set(i, t);
            }
            i = i + 1;
        }
        proof {
            if !(exists|i: int| 0 <= i < old(self).rows().len()
                && (#[trigger] old(self).rows()[i]).task_id == task_id) {
                assert(self.rows() =~= old(self).rows());
            }
            assert forall|a: int, b: int| 0 <= a < b < self.rows().len() implies
                self.rows()[a].task_id < self.rows()[b].task_id by {
                assert(self.rows()[a].task_id == old(self).rows()[a].task_id);
                assert(self.rows()[b].task_id == old(self).rows()[b].task_id);
            }
            assert forall|a: int| 0 <= a < self.rows().len() implies
                1 <= #[trigger] self.rows()[a].task_id < self.next() by {
                assert(self.rows()[a].task_id == old(self).rows()[a].task_id);
            }
        }
    }

    /// Removes the row with the given id, if any; every other row is kept
    /// in order. Deleting an absent id leaves the table unchanged and still
    /// succeeds, so the operation is idempotent.
    pub fn delete(&mut self, task_id: i32)
        requires
            old(self).wf(),
        ensures
            final(self).wf(),
            final(self).next() == old(self).next(),
            final(self).rows() == old(self).rows().filter(|t: Task| t.task_id != task_id),
    {
        let ghost pred = |t: Task| t.task_id != task_id;
        let n = self.tasks.len();
        let mut out: Vec<Task> = Vec::new();
        let mut i: usize = 0;
        proof {
            reveal(Seq::filter);
            assert(self.rows().subrange(0, 0) =~= Seq::<Task>::empty());
        }
        while i < n
            invariant
                n == self.tasks.len(),
                i <= n,
                self.next_id == old(self).next_id,
                self.tasks@ == old(self).tasks@,
                pred == (|t: Task| t.task_id != task_id),
                out@ == self.rows().subrange(0, i as int).filter(pred),
            decreases n - i,
        {
            proof {
                reveal(Seq::filter);
                assert(self.rows().subrange(0, i + 1).drop_last() =~= self.rows().subrange(0, i as int));
                assert(self.rows().subrange(0, i + 1).last() == self.rows()[i as int]);
            }
            let t = &self.tasks[i];
            if t.task_id != task_id {
                out.push(t.duplicate());
            }
            i = i + 1;
        }
        proof {
            assert(self.rows().subrange(0, n as int) =~= self.rows());
        }
        self.tasks = out;
        proof {
            let rows = self.rows();
            let old_rows = old(self).rows();
            broadcast use vstd::seq_lib::group_filter_ensures;
            assert forall|a: int, b: int| 0 <= a < b < rows.len() implies
                rows[a].task_id < rows[b].task_id by {
                lemma_filter_keeps_order(old_rows, pred, a, b);
            }
            assert forall|a: int| 0 <= a < rows.len() implies
                1 <= #[trigger] rows[a].task_id < self.next() by {
                assert(old_rows.contains(rows[a])) by {
                    lemma_filter_members(old_rows, pred, a);
                }
                let k = choose|k: int| 0 <= k < old_rows.len() && old_rows[k] == rows[a];
                assert(1 <= old_rows[k].task_id < old(self).next());
            }
        }
    }

    /// A copy of every row, in storage order (ascending by id).
    pub fn list(&self) -> (r: Vec<Task>)
        requires
            self.wf(),
        ensures
            r@ == self.rows(),
            sorted_by_id(r@),
    {
        let n = self.tasks.len();
        let mut out: Vec<Task> = Vec::new();
        let mut i: usize = 0;
        while i < n
            invariant
                n == self.tasks.len(),
                i <= n,
                out@ =~= self.rows().subrange(0, i as int),
            decreases n - i,
        {
            out.push(self.tasks[i].duplicate());
            proof {
                assert(out@ =~= self.rows().subrange(0, i + 1));
            }
            i = i + 1;
        }
        proof {
            assert(out@ =~= self.rows());
        }
        out
    }

    /// Whether a row with the given id exists.
    pub fn contains_id(&self, task_id: i32) -> (r: bool)
        requires
            self.wf(),
        ensures
            r == exists|i: int| 0 <= i < self.rows().len()
                && (#[trigger] self.rows()[i]).task_id == task_id,
    {
        let n = self.tasks.len();
        let mut i: usize = 0;
        while i < n
            invariant
                n == self.tasks.len(),
                i <= n,
                forall|j: int| 0 <= j < i ==> (#[trigger] self.rows()[j]).task_id != task_id,
            decreases n - i,
        {
            if self.tasks[i].task_id == task_id {
                return true;
            }
            i = i + 1;
        }
        false
    }
}

/// In a filtered sequence, any two members appear in the order they had in
/// the original sequence; here: filtering keeps the rows sorted by id.
pub proof fn lemma_filter_keeps_order(ts: Seq<Task>, pred: spec_fn(Task) -> bool, a: int, b: int)
    requires
        sorted_by_id(ts),
        0 <= a < b < ts.filter(pred).len(),
    ensures
        ts.filter(pred)[a].task_id < ts.filter(pred)[b].task_id,
    decreases ts.len(),
{
    reveal(Seq::filter);
    if ts.len() > 0 {
        let sub = ts.drop_last().filter(pred);
        assert(sorted_by_id(ts.drop_last()));
        if pred(ts.last()) {
            if b < sub.len() {
                lemma_filter_keeps_order(ts.drop_last(), pred, a, b);
            } else {
                // b indexes the retained last element
                lemma_filter_members(ts.drop_last(), pred, a);
                let k = choose|k: int| 0 <= k < ts.drop_last().len()
                    && ts.drop_last()[k] == sub[a];
                assert(ts[k].task_id < ts.last().task_id);
            }
        } else {
            lemma_filter_keeps_order(ts.drop_last(), pred, a, b);
        }
    }
}

/// Every element of a filtered sequence is an element of the original.
pub proof fn lemma_filter_members(ts: Seq<Task>, pred: spec_fn(Task) -> bool, a: int)
    requires
        0 <= a < ts.filter(pred).len(),
    ensures
        exists|k: int| 0 <= k < ts.len() && ts[k] == ts.filter(pred)[a],
    decreases ts.len(),
{
    reveal(Seq::filter);
    if ts.len() > 0 {
        let sub = ts.drop_last().filter(pred);
        if pred(ts.last()) && a == sub.len() {
            assert(ts[ts.len() - 1] == ts.filter(pred)[a]);
        } else {
            lemma_filter_members(ts.drop_last(), pred, a);
            let k = choose|k: int| 0 <= k < ts.drop_last().len() && ts.drop_last()[k] == sub[a];
            assert(ts[k] == ts.filter(pred)[a]);
        }
    }
}

} // verus!
