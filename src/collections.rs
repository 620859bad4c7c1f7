use std::collections::VecDeque;
use vstd::prelude::*;
use crate::semantics::{after_insert, after_remove, has_room, taken, Order};

verus! {

/// A first-in-first-out queue that never holds more than `max_size` elements.
pub struct LimitedQueue<T> {
    data: VecDeque<T>,
    max_size: usize,
}

impl<T> View for LimitedQueue<T> {
    type V = Seq<T>;

    /// The elements held, oldest first.
    closed spec fn view(&self) -> Seq<T> {
        self.data@
    }
}

impl<T> LimitedQueue<T> {
    /// The capacity fixed at construction.
    pub closed spec fn capacity(&self) -> nat {
        self.max_size as nat
    }

    #[verifier::type_invariant]
    spec fn within_capacity(&self) -> bool {
        self.data@.len() <= self.max_size
    }

    pub fn new(max_size: usize) -> (q: Self)
        ensures
            q@ == Seq::<T>::empty(),
            q.capacity() == max_size,
    {
        LimitedQueue { data: VecDeque::with_capacity(max_size), max_size }
    }

    pub fn max_size(&self) -> (r: usize)
        ensures
            r == self.capacity(),
    {
        self.max_size
    }

    /// Appends `item` at the tail, unless the queue is full, in which case the
    /// queue is left as it was and `item` is dropped.
    pub fn enqueue(&mut self, item: T) -> (r: Result<(), &'static str>)
        ensures
            final(self).capacity() == old(self).capacity(),
            final(self)@ == after_insert(old(self)@, old(self).capacity(), item),
            r is Ok <==> has_room(old(self)@, old(self).capacity()),
            r matches Err(e) ==> e@ == "Queue overflow"@,
            r is Err ==> final(self)@ == old(self)@,
    {
        proof {
            use_type_invariant(&*self);
        }
        if self.data.len() >= self.max_size {
            return Err("Queue overflow");
        }
        let mut data = VecDeque::new();
        std::mem::swap(&mut data, &mut self.data);
        data.push_back(item);
        self.data = data;
        Ok(())
    }

    pub fn len(&self) -> (r: usize)
        ensures
            r == self@.len(),
            r <= self.capacity(),
    {
        proof {
            use_type_invariant(self);
        }
        self.data.len()
    }

    /// Removes and returns the oldest element, or `None` on an empty queue.
    pub fn dequeue(&mut self) -> (r: Option<T>)
        ensures
            final(self).capacity() == old(self).capacity(),
            final(self)@ == after_remove(Order::Fifo, old(self)@),
            r == taken(Order::Fifo, old(self)@),
            old(self)@.len() == 0 ==> r is None && final(self)@ == old(self)@,
    {
        proof {
            use_type_invariant(&*self);
        }
        let mut data = VecDeque::new();
        std::mem::swap(&mut data, &mut self.data);
        let r = data.pop_front();
        self.data = data;
        r
    }

    /// The most recently inserted element, which is the end opposite to the one
    /// that `dequeue` takes from.
    pub fn peek(&self) -> (r: Option<&T>)
        ensures
            match r {
                None => self@.len() == 0,
                Some(x) => self@.len() > 0 && *x == self@.last(),
            },
    {
        let n = self.data.len();
        if n == 0 {
            None
        } else {
            Some(&self.data[n - 1])
        }
    }

    pub fn is_empty(&self) -> (r: bool)
        ensures
            r == (self@.len() == 0),
    {
        self.data.len() == 0
    }
}

/// A last-in-first-out stack that never holds more than `max_size` elements.
pub struct LimitedStack<T> {
    data: Vec<T>,
    max_size: usize,
}

impl<T> View for LimitedStack<T> {
    type V = Seq<T>;

    /// The elements held, bottom first.
    closed spec fn view(&self) -> Seq<T> {
        self.data@
    }
}

impl<T> LimitedStack<T> {
    /// The capacity fixed at construction.
    pub closed spec fn capacity(&self) -> nat {
        self.max_size as nat
    }

    #[verifier::type_invariant]
    spec fn within_capacity(&self) -> bool {
        self.data@.len() <= self.max_size
    }

    pub fn new(max_size: usize) -> (st: Self)
        ensures
            st@ == Seq::<T>::empty(),
            st.capacity() == max_size,
    {
        LimitedStack { data: Vec::with_capacity(max_size), max_size }
    }

    pub fn max_size(&self) -> (r: usize)
        ensures
            r == self.capacity(),
    {
        self.max_size
    }

    /// Puts `item` on top, unless the stack is full, in which case the stack is
    /// left as it was and `item` is dropped.
    pub fn push(&mut self, item: T) -> (r: Result<(), &'static str>)
        ensures
            final(self).capacity() == old(self).capacity(),
            final(self)@ == after_insert(old(self)@, old(self).capacity(), item),
            r is Ok <==> has_room(old(self)@, old(self).capacity()),
            r matches Err(e) ==> e@ == "Stack overflow"@,
            r is Err ==> final(self)@ == old(self)@,
    {
        proof {
            use_type_invariant(&*self);
        }
        if self.data.len() >= self.max_size {
            return Err("Stack overflow");
        }
        let mut data = Vec::new();
        std::mem::swap(&mut data, &mut self.data);
        data.push(item);
        self.data = data;
        Ok(())
    }

    /// Removes and returns the top element, or `None` on an empty stack.
    pub fn pop(&mut self) -> (r: Option<T>)
        ensures
            final(self).capacity() == old(self).capacity(),
            final(self)@ == after_remove(Order::Lifo, old(self)@),
            r == taken(Order::Lifo, old(self)@),
            old(self)@.len() == 0 ==> r is None && final(self)@ == old(self)@,
    {
        proof {
            use_type_invariant(&*self);
        }
        let mut data = Vec::new();
        std::mem::swap(&mut data, &mut self.data);
        let r = data.pop();
        self.data = data;
        r
    }

    /// The top element, the one that `pop` would take.
    pub fn peek(&self) -> (r: Option<&T>)
        ensures
            match r {
                None => self@.len() == 0,
                Some(x) => self@.len() > 0 && *x == self@.last(),
            },
    {
        let n = self.data.len();
        if n == 0 {
            None
        } else {
            Some(&self.data[n - 1])
        }
    }

    pub fn len(&self) -> (r: usize)
        ensures
            r == self@.len(),
            r <= self.capacity(),
    {
        proof {
            use_type_invariant(self);
        }
        self.data.len()
    }

    pub fn is_empty(&self) -> (r: bool)
        ensures
            r == (self@.len() == 0),
    {
        self.data.len() == 0
    }
}

} // verus!
