//! The four request handlers run against the in-memory table.
//!
//! `TaskService` composes the storage model with the response marshalling:
//! each method performs one storage operation and returns the status code
//! and JSON body the service sends when that operation succeeds. A deployment
//! whose storage round-trip can fail builds the failure response with the
//! functions in `response` instead.

use vstd::prelude::*;
use crate::jsonfmt::{create_body, list_body, ok_body};
use crate::response::{create_response, delete_response, list_response, update_response};
use crate::response::{STATUS_CREATED, STATUS_OK};
use crate::store::{sorted_by_id, updated_name, TaskStore};
use crate::task::Task;

verus! {

/// A complete in-memory instance of the service's request/response cycle.
pub struct TaskService {
    store: TaskStore,
}

impl TaskService {
    /// The rows of the backing table, ascending by id.
    pub closed spec fn rows(self) -> Seq<Task> {
        self.store.rows()
    }

    /// The id the next creation will assign.
    pub closed spec fn next(self) -> int {
        self.store.next()
    }

    /// The backing table is well-formed.
    pub closed spec fn wf(self) -> bool {
        self.store.wf()
    }

    /// A service over an empty table; the first created task gets id 1.
    pub fn new() -> (s: TaskService)
        ensures
            s.wf(),
            s.rows() == Seq::<Task>::empty(),
            s.next() == 1,
    {
        TaskService { store: TaskStore::new() }
    }

    /// Lists every task: 200 with all rows, sorted ascending by id, in the
    /// data array.
    pub fn get_tasks(&self) -> (resp: (u16, String))
        requires
            self.wf(),
        ensures
            resp.0 == STATUS_OK,
            resp.1@ == list_body(self.rows()),
            sorted_by_id(self.rows()),
    {
        let rows = self.store.list();
        list_response(Ok(rows))
    }

    /// Creates a task: appends the row and answers 201 with the new id,
    /// which is positive and larger than every earlier id.
    pub fn create_task(&mut self, name: String, priority: Option<i32>) -> (resp: (u16, String))
        requires
            old(self).wf(),
            old(self).next() < i32::MAX,
        ensures
            final(self).wf(),
            final(self).next() == old(self).next() + 1,
            final(self).rows() == old(self).rows().push(
                (Task { task_id: old(self).next() as i32, name: name, priority: priority }),
            ),
            resp.0 == STATUS_CREATED,
            resp.1@ == create_body(old(self).next()),
    {
        let id = self.store.insert(name, priority);
        create_response(Ok(id))
    }

    /// Updates a task: overwrites both columns of the matching row (an
    /// omitted field becomes empty/null) and answers 200 with the bare
    /// success envelope — also when no row matches, in which case the table
    /// is unchanged.
    pub fn update_task(&mut self, task_id: i32, name: Option<String>, priority: Option<i32>) -> (resp: (u16, String))
        requires
            old(self).wf(),
        ensures
            final(self).wf(),
            final(self).next() == old(self).next(),
            final(self).rows().len() == old(self).rows().len(),
            forall|i: int| 0 <= i < final(self).rows().len() && old(self).rows()[i].task_id != task_id
                ==> #[trigger] final(self).rows()[i] == old(self).rows()[i],
            forall|i: int| 0 <= i < final(self).rows().len() && old(self).rows()[i].task_id == task_id
                ==> {
                    &&& (#[trigger] final(self).rows()[i]).task_id == task_id
                    &&& updated_name(final(self).rows()[i], name)
                    &&& final(self).rows()[i].priority == priority
                },
            !(exists|i: int| 0 <= i < old(self).rows().len()
                && (#[trigger] old(self).rows()[i]).task_id == task_id)
                ==> final(self).rows() == old(self).rows(),
            resp.0 == STATUS_OK,
            resp.1@ == ok_body(),
    {
        self.store.update(task_id, name, priority);
        update_response(Ok(()))
    }

    /// Deletes a task: removes the matching row, if any, and answers 200
    /// with the bare success envelope — also when no row matches.
    pub fn delete_task(&mut self, task_id: i32) -> (resp: (u16, String))
        requires
            old(self).wf(),
        ensures
            final(self).wf(),
            final(self).next() == old(self).next(),
            final(self).rows() == old(self).rows().filter(|t: Task| t.task_id != task_id),
            resp.0 == STATUS_OK,
            resp.1@ == ok_body(),
    {
        self.store.delete(task_id);
        delete_response(Ok(()))
    }
}

} // verus!
