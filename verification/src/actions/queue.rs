//! A first-in, first-out queue of actions.

use vstd::prelude::*;
use std::collections::VecDeque;

verus! {

/// Actions that wait to be taken, the oldest first.
pub struct Queue<T> {
    queue: VecDeque<T>,
}

impl<T> View for Queue<T> {
    type V = Seq<T>;

    closed spec fn view(&self) -> Seq<T> {
        self.queue@
    }
}

impl Queue<String> {
    /// A queue in which nothing waits.
    pub fn new() -> (queue: Self)
        ensures
            queue@ == Seq::<String>::empty(),
    {
        Self { queue: VecDeque::new() }
    }

    /// The number of actions that wait.
    pub fn len(&self) -> (count: usize)
        ensures
            count == self@.len(),
    {
        self.queue.len()
    }

    /// Puts the actions at the end of the queue, in their order.
    pub fn add_actions(&mut self, actions: Vec<String>)
        ensures
            final(self)@ == old(self)@ + actions@,
    {
        let mut i: usize = 0;
        while i < actions.len()
            invariant
                i <= actions.len(),
                self@ == old(self)@ + actions@.take(i as int),
            decreases actions.len() - i,
        {
            let ghost before = self@;
            let action = actions[i].clone();
            self.queue.push_back(action);
            proof {
                assert(self@ == before.push(action));
                assert(actions@.take(i + 1) =~= actions@.take(i as int).push(actions@[i as int]));
                assert(self@ =~= old(self)@ + actions@.take(i + 1));
            }
            i += 1;
        }
        assert(actions@.take(i as int) =~= actions@);
    }

    /// Takes the oldest action off the queue; `None` where nothing waits.
    pub fn get_next_action(&mut self) -> (action: Option<String>)
        ensures
            match action {
                Some(action) => old(self)@.len() > 0 && action == old(self)@.first() && final(self)@
                    == old(self)@.drop_first(),
                None => old(self)@.len() == 0 && final(self)@ == old(self)@,
            },
    {
        self.queue.pop_front()
    }
}

} // verus!
