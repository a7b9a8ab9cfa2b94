//! The task definition entity.

use vstd::prelude::*;

verus! {

/// A named unit of work to be registered with the orchestration server's
/// metadata catalog.
///
/// The name is caller-assigned and the client performs no validation on it;
/// only an empty *collection* of task definitions is rejected, by
/// [`crate::MetadataClient::create_new_task_definitions_request`]. Names
/// should be unique across the set submitted in one call; that uniqueness is
/// advisory and is not checked by the client.
#[derive(Debug)]
pub struct TaskDef {
    name: String,
}

impl View for TaskDef {
    type V = Seq<char>;

    /// A task definition is modelled by its name.
    closed spec fn view(&self) -> Seq<char> {
        self.name@
    }
}

impl TaskDef {
    /// Creates a task definition with the given name.
    pub fn new(name: String) -> (r: Self)
        ensures
            r@ == name@,
    {
        TaskDef { name }
    }

    /// Returns the task's name.
    pub fn name(&self) -> (r: &str)
        ensures
            r@ == self@,
    {
        self.name.as_str()
    }

    /// Replaces the task's name.
    pub fn set_name(&mut self, name: String)
        ensures
            final(self)@ == name@,
    {
        self.name = name;
    }
}

impl Clone for TaskDef {
    /// The clone carries the same name.
    fn clone(&self) -> (r: Self)
        ensures
            r@ == self@,
    {
        TaskDef { name: self.name.clone() }
    }
}

} // verus!
