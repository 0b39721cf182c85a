//! The service-level guarantees, stated over the storage model.
//!
//! Each lemma states one behaviour the service promises across operations;
//! the operations' own contracts (`TaskStore`, `TaskService`) connect the
//! executable code to these statements.

use vstd::prelude::*;
use crate::store::{ids_below, sorted_by_id};
use crate::task::Task;

verus! {

/// A created task can be read back: the table after an insertion holds a
/// row with the assigned id, the given name and the given priority, and the
/// assigned id is positive.
pub proof fn lemma_created_task_listed(rows: Seq<Task>, id: i32, name: String, priority: Option<i32>)
    requires
        id >= 1,
    ensures
        exists|i: int| #![trigger rows.push((Task { task_id: id, name: name, priority: priority }))[i]] {
            let after = rows.push((Task { task_id: id, name: name, priority: priority }));
            &&& 0 <= i < after.len()
            &&& after[i].task_id == id
            &&& after[i].task_id >= 1
            &&& after[i].name == name
            &&& after[i].priority == priority
        },
{
    let after = rows.push(Task { task_id: id, name, priority });
    assert(after[rows.len() as int].task_id == id);
}

/// The listing stays sorted whatever the creation order: appending a row
/// whose id is the table's next id — larger than every stored id — keeps
/// the rows strictly ascending, and keeps every id below the next bound.
pub proof fn lemma_insert_keeps_sorted(rows: Seq<Task>, bound: int, t: Task)
    requires
        sorted_by_id(rows),
        ids_below(rows, bound),
        t.task_id == bound,
        1 <= bound,
    ensures
        sorted_by_id(rows.push(t)),
        ids_below(rows.push(t), bound + 1),
{
    let after = rows.push(t);
    assert forall|i: int, j: int| 0 <= i < j < after.len() implies
        after[i].task_id < after[j].task_id by {
        if j < after.len() - 1 {
            assert(rows[i].task_id < rows[j].task_id);
        } else {
            assert(rows[i].task_id < bound);
        }
    }
}

/// Filtering a sequence of rows leaves nothing the predicate rejects, and
/// filtering it again changes nothing.
proof fn lemma_filter_stable(rows: Seq<Task>, pred: spec_fn(Task) -> bool)
    ensures
        forall|i: int| 0 <= i < rows.filter(pred).len() ==> pred(#[trigger] rows.filter(pred)[i]),
        rows.filter(pred).filter(pred) == rows.filter(pred),
    decreases rows.len(),
{
    reveal(Seq::filter);
    broadcast use vstd::seq_lib::group_filter_ensures;
    if rows.len() > 0 {
        let sub = rows.drop_last().filter(pred);
        lemma_filter_stable(rows.drop_last(), pred);
        if pred(rows.last()) {
            assert(rows.filter(pred) == sub.push(rows.last()));
            assert(sub.push(rows.last()).drop_last() =~= sub);
            assert(sub.push(rows.last()).filter(pred) == sub.filter(pred).push(rows.last()));
        }
    }
}

/// Deleting is idempotent: one delete leaves no row with the id, so a second
/// delete of the same id finds nothing and leaves the table as the first
/// left it (both deletes answer with the same success response).
pub proof fn lemma_delete_idempotent(rows: Seq<Task>, task_id: i32, remaining: Seq<Task>)
    requires
        remaining == rows.filter(|t: Task| t.task_id != task_id),
    ensures
        forall|i: int| 0 <= i < remaining.len() ==> (#[trigger] remaining[i]).task_id != task_id,
        remaining.filter(|t: Task| t.task_id != task_id) == remaining,
{
    lemma_filter_stable(rows, |t: Task| t.task_id != task_id);
}

/// Updating an absent id changes no row: when no stored id matches, the
/// table after the update equals the table before it. This is the
/// no-visible-change half of the update contract, restated on its own; the
/// update still answers with the success response.
pub proof fn lemma_update_missing_id_no_change(before: Seq<Task>, after: Seq<Task>, task_id: i32)
    requires
        before.len() == after.len(),
        forall|i: int| 0 <= i < after.len() && before[i].task_id != task_id
            ==> #[trigger] after[i] == before[i],
        forall|i: int| 0 <= i < before.len() ==> (#[trigger] before[i]).task_id != task_id,
    ensures
        after == before,
{
    assert(after =~= before);
}

} // verus!
