use vstd::prelude::*;
use vstd::string::*;
use crate::collections::{LimitedQueue, LimitedStack};
use crate::semantics::{after_insert, after_remove, has_room, taken, Order};

verus! {

/// A product, known by its name.
pub struct Product {
    pub name: String,
}

/// A factory that makes products named after it.
pub struct Factory {
    pub name: String,
}

impl Factory {
    pub fn create(&self) -> (p: Product)
        ensures
            p.name@ == "product from "@ + self.name@,
    {
        let prefix = String::from_str("product from ");
        Product { name: prefix.concat(self.name.as_str()) }
    }
}

/// A truck whose cargo is a stack: the last product loaded is the first unloaded.
pub struct Truck {
    pub name: String,
    pub capacity: usize,
    pub cargo: LimitedStack<Product>,
}

impl Truck {
    pub fn new(name: String, capacity: usize) -> (t: Self)
        ensures
            t.name == name,
            t.capacity == capacity,
            t.cargo@ == Seq::<Product>::empty(),
            t.cargo.capacity() == capacity,
    {
        Truck { name, capacity, cargo: LimitedStack::new(capacity) }
    }

    pub fn load(&mut self, product: Product) -> (r: Result<(), &'static str>)
        ensures
            final(self).name == old(self).name,
            final(self).capacity == old(self).capacity,
            final(self).cargo.capacity() == old(self).cargo.capacity(),
            final(self).cargo@ == after_insert(old(self).cargo@, old(self).cargo.capacity(), product),
            r is Ok <==> has_room(old(self).cargo@, old(self).cargo.capacity()),
            r matches Err(e) ==> e@ == "Stack overflow"@,
    {
        self.cargo.push(product)
    }

    pub fn unload(&mut self) -> (r: Option<Product>)
        ensures
            final(self).name == old(self).name,
            final(self).capacity == old(self).capacity,
            final(self).cargo.capacity() == old(self).cargo.capacity(),
            final(self).cargo@ == after_remove(Order::Lifo, old(self).cargo@),
            r == taken(Order::Lifo, old(self).cargo@),
    {
        self.cargo.pop()
    }

    pub fn loaded(&self) -> (r: usize)
        ensures
            r == self.cargo@.len(),
    {
        self.cargo.len()
    }
}

/// A warehouse whose cargo is a queue: products leave in the order they arrived.
pub struct Warehouse {
    pub capacity: usize,
    pub cargo: LimitedQueue<Product>,
}

impl Warehouse {
    pub fn new(capacity: usize) -> (w: Self)
        ensures
            w.capacity == capacity,
            w.cargo@ == Seq::<Product>::empty(),
            w.cargo.capacity() == capacity,
    {
        Warehouse { capacity, cargo: LimitedQueue::new(capacity) }
    }

    pub fn load(&mut self, product: Product) -> (r: Result<(), &'static str>)
        ensures
            final(self).capacity == old(self).capacity,
            final(self).cargo.capacity() == old(self).cargo.capacity(),
            final(self).cargo@ == after_insert(old(self).cargo@, old(self).cargo.capacity(), product),
            r is Ok <==> has_room(old(self).cargo@, old(self).cargo.capacity()),
            r matches Err(e) ==> e@ == "Queue overflow"@,
    {
        self.cargo.enqueue(product)
    }

    pub fn unload(&mut self) -> (r: Option<Product>)
        ensures
            final(self).capacity == old(self).capacity,
            final(self).cargo.capacity() == old(self).cargo.capacity(),
            final(self).cargo@ == after_remove(Order::Fifo, old(self).cargo@),
            r == taken(Order::Fifo, old(self).cargo@),
    {
        self.cargo.dequeue()
    }

    pub fn loaded(&self) -> (r: usize)
        ensures
            r == self.cargo@.len(),
    {
        self.cargo.len()
    }
}

} // verus!
