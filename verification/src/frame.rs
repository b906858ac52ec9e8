//! Call frames, and a pool that hands used frames out again.

use crate::objects::Object;
use vstd::prelude::*;

verus! {

/// The bookkeeping of one call.
#[derive(Debug)]
pub struct Frame<'p> {
    /// The constant that holds the function being run.
    pub const_index: usize,
    pub is_main: bool,
    /// The position of the instruction to run.
    pub ip: usize,
    /// The position after the last instruction of the function.
    pub end_ip: usize,
    /// Where the first local of the call stands on the stack.
    pub base_pointer: usize,
    /// Where the first captured value of the call stands on the stack.
    pub free_start: usize,
    /// How many values the call has captured.
    pub free_len: usize,
    /// The captured values.
    pub fress: Vec<Object<'p>>,
}

impl<'p> Frame<'p> {
    pub fn new(
        const_index: usize,
        is_main: bool,
        ip: usize,
        end_ip: usize,
        base_pointer: usize,
        free_start: usize,
        free_len: usize,
        frees: Vec<Object<'p>>,
    ) -> (f: Frame<'p>)
        ensures
            f.const_index == const_index,
            f.is_main == is_main,
            f.ip == ip,
            f.end_ip == end_ip,
            f.base_pointer == base_pointer,
            f.free_start == free_start,
            f.free_len == free_len,
            f.fress == frees,
    {
        Frame {
            const_index,
            is_main,
            ip,
            end_ip,
            base_pointer,
            free_start,
            free_len,
            fress: frees,
        }
    }

    /// Whether all but the position is as in `before`.
    pub open spec fn same_call(&self, before: &Self) -> bool {
        &&& self.const_index == before.const_index
        &&& self.is_main == before.is_main
        &&& self.end_ip == before.end_ip
        &&& self.base_pointer == before.base_pointer
        &&& self.free_start == before.free_start
        &&& self.free_len == before.free_len
        &&& self.fress == before.fress
    }

    pub fn ip(&self) -> (ip: usize)
        ensures
            ip == self.ip,
    {
        self.ip
    }

    /// Goes to the position `ip` of the function, counted from the base
    /// pointer.
    pub fn set_ip(&mut self, ip: usize)
        requires
            old(self).base_pointer + ip <= usize::MAX,
        ensures
            final(self).ip == old(self).base_pointer + ip,
            final(self).same_call(old(self)),
    {
        self.ip = self.base_pointer + ip;
    }

    /// Goes to the next instruction.
    pub fn incr_ip(&mut self)
        requires
            old(self).ip < usize::MAX,
        ensures
            final(self).ip == old(self).ip + 1,
            final(self).same_call(old(self)),
    {
        self.ip += 1;
    }

    pub fn base_pointer(&self) -> (bp: usize)
        ensures
            bp == self.base_pointer,
    {
        self.base_pointer
    }

    pub fn set_base_pointer(&mut self, bp: usize)
        ensures
            final(self).base_pointer == bp,
            final(self).ip == old(self).ip,
            final(self).const_index == old(self).const_index,
            final(self).is_main == old(self).is_main,
            final(self).end_ip == old(self).end_ip,
            final(self).free_start == old(self).free_start,
            final(self).free_len == old(self).free_len,
            final(self).fress == old(self).fress,
    {
        self.base_pointer = bp;
    }

    /// Goes to the next instruction.
    pub fn push(&mut self)
        requires
            old(self).ip < usize::MAX,
        ensures
            final(self).ip == old(self).ip + 1,
            final(self).same_call(old(self)),
    {
        self.ip += 1;
    }

    /// Goes back to the instruction before.
    pub fn pop(&mut self)
        requires
            old(self).ip > 0,
        ensures
            final(self).ip == old(self).ip - 1,
            final(self).same_call(old(self)),
    {
        self.ip -= 1;
    }

    pub fn get_index(&self) -> (i: usize)
        ensures
            i == self.const_index,
    {
        self.const_index
    }

    pub fn is_main(&self) -> (b: bool)
        ensures
            b == self.is_main,
    {
        self.is_main
    }

    pub fn get_end_ip(&self) -> (ip: usize)
        ensures
            ip == self.end_ip,
    {
        self.end_ip
    }

    /// Whether this is a frame as the pool makes it: all zero, nothing
    /// captured.
    pub open spec fn is_blank(&self) -> bool {
        &&& self.const_index == 0
        &&& !self.is_main
        &&& self.ip == 0
        &&& self.end_ip == 0
        &&& self.base_pointer == 0
        &&& self.free_start == 0
        &&& self.free_len == 0
        &&& self.fress@.len() == 0
    }
}

/// Used frames, kept to be handed out again.
pub struct FramePool<'p> {
    pub pool: Vec<Frame<'p>>,
}

impl<'p> FramePool<'p> {
    /// An empty pool.
    pub fn new() -> (p: FramePool<'p>)
        ensures
            p.pool@.len() == 0,
    {
        FramePool { pool: Vec::new() }
    }

    /// The frame returned last, as it was returned; a blank frame if the
    /// pool is empty.
    pub fn get_frame(&mut self) -> (f: Frame<'p>)
        ensures
            old(self).pool@.len() > 0 ==> f == old(self).pool@.last() && final(self).pool@ == old(
                self,
            ).pool@.drop_last(),
            old(self).pool@.len() == 0 ==> f.is_blank() && final(self).pool@.len() == 0,
    {
        match self.pool.pop() {
            Some(f) => f,
            None => Frame {
                const_index: 0,
                is_main: false,
                ip: 0,
                end_ip: 0,
                base_pointer: 0,
                free_start: 0,
                free_len: 0,
                fress: Vec::new(),
            },
        }
    }

    /// Returns `frame` to the pool.
    pub fn return_frame(&mut self, frame: Frame<'p>)
        ensures
            final(self).pool@ == old(self).pool@.push(frame),
    {
        self.pool.push(frame);
    }
}

} // verus!
