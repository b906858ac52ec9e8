//! The stack of the calls under way.

use crate::frame::{Frame, FramePool};
use vstd::prelude::*;

verus! {

/// The frames of the calls under way, the innermost last, and the pool
/// that frames come from and go back to.
pub struct CallStack<'p> {
    pub stack: Vec<Frame<'p>>,
    pub pool: FramePool<'p>,
}

impl<'p> CallStack<'p> {
    /// An empty stack over `pool`.
    pub fn new(pool: FramePool<'p>) -> (s: CallStack<'p>)
        ensures
            s.stack@.len() == 0,
            s.pool == pool,
    {
        CallStack { stack: Vec::new(), pool }
    }

    /// Makes `frame` the innermost call.
    pub fn push_frame(&mut self, frame: Frame<'p>)
        ensures
            final(self).stack@ == old(self).stack@.push(frame),
            final(self).pool == old(self).pool,
    {
        self.stack.push(frame);
    }

    /// Takes the innermost call off the stack.
    pub fn pop_frame(&mut self) -> (f: Option<Frame<'p>>)
        ensures
            final(self).pool == old(self).pool,
            match f {
                Some(frame) => old(self).stack@.len() > 0 && frame == old(self).stack@.last()
                    && final(self).stack@ == old(self).stack@.drop_last(),
                None => old(self).stack@.len() == 0 && final(self).stack@.len() == 0,
            },
    {
        self.stack.pop()
    }

    /// The innermost call.
    pub fn current_frame(&self) -> (f: Option<&Frame<'p>>)
        ensures
            match f {
                Some(frame) => self.stack@.len() > 0 && *frame == self.stack@.last(),
                None => self.stack@.len() == 0,
            },
    {
        if self.stack.len() > 0 {
            Some(&self.stack[self.stack.len() - 1])
        } else {
            None
        }
    }

    /// The pool.
    pub fn get_pool(&self) -> (p: &FramePool<'p>)
        ensures
            *p == self.pool,
    {
        &self.pool
    }
}

} // verus!
