use vstd::prelude::*;

use crate::action::Action;

verus! {

/// A named node and the script that it runs, in order.
pub struct Node {
    pub name: String,
    pub actions: Vec<Action>,
}

impl Node {
    /// A node with an empty script.
    pub fn new(name: &str) -> (r: Node)
        ensures
            r.name@ == name@,
            r.actions@.len() == 0,
    {
        Node { name: name.to_owned(), actions: Vec::new() }
    }

    pub fn name(&self) -> (r: &str)
        ensures
            r@ == self.name@,
    {
        self.name.as_str()
    }

    /// Appends `action` to the script. Actions run in the order in which they
    /// were added.
    pub fn add_action(&mut self, action: Action)
        ensures
            final(self).actions@ == old(self).actions@.push(action),
            final(self).name == old(self).name,
    {
        self.actions.push(action);
    }

    /// Hands the script over to be run, leaving the node without one: a
    /// script runs once.
    pub fn take_actions(&mut self) -> (r: Vec<Action>)
        ensures
            r@ == old(self).actions@,
            final(self).actions@.len() == 0,
            final(self).name == old(self).name,
    {
        let mut taken: Vec<Action> = Vec::new();
        std::mem::swap(&mut taken, &mut self.actions);
        taken
    }
}

} // verus!
