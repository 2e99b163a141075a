use vstd::prelude::*;

verus! {

/// A name together with a numeric identity; two symbols denote the same
/// binder when both parts agree.
pub struct Symbol(pub String, pub u64);

impl Symbol {
    /// Whether two symbols denote the same binder.
    pub open spec fn same(self, other: Symbol) -> bool {
        self.0@ == other.0@ && self.1 == other.1
    }

    pub fn new(name: &str) -> (r: Symbol)
        ensures
            r.0@ == name@,
            r.1 == 0,
    {
        Symbol(name.to_string(), 0)
    }

    pub fn duplicate(&self) -> (r: Symbol)
        ensures
            r == *self,
    {
        Symbol(self.0.clone(), self.1)
    }

    pub fn same_as(&self, other: &Symbol) -> (r: bool)
        ensures
            r == self.same(*other),
    {
        self.1 == other.1 && self.0 == other.0
    }
}

/// A literal value of the source language. A real literal is kept as the
/// bit pattern of its IEEE-754 double.
pub enum Literal {
    Int(i64),
    Real(u64),
}

impl Literal {
    pub fn duplicate(&self) -> (r: Literal)
        ensures
            r == *self,
    {
        match self {
            Literal::Int(v) => Literal::Int(*v),
            Literal::Real(b) => Literal::Real(*b),
        }
    }
}

/// Monotonic source of fresh identities, owned by the pass that uses it.
pub struct Id {
    pub next_id: u64,
}

impl Id {
    pub fn new() -> (r: Id)
        ensures
            r.next_id == 0,
    {
        Id { next_id: 0 }
    }

    pub fn starting_at(first: u64) -> (r: Id)
        ensures
            r.next_id == first,
    {
        Id { next_id: first }
    }

    pub fn next(&mut self) -> (r: u64)
        requires
            old(self).next_id < u64::MAX,
        ensures
            r == old(self).next_id,
            final(self).next_id == old(self).next_id + 1,
    {
        let r = self.next_id;
        self.next_id = self.next_id + 1;
        r
    }
}

} // verus!
