//! The idle set of a connection pool. A lease takes a connection out of it,
//! or has a new one made when it is empty, and gives it back on release.
use vstd::prelude::*;

verus! {

pub struct IdleConnections<C> {
    idle: Vec<C>,
}

impl<C> View for IdleConnections<C> {
    type V = Seq<C>;

    closed spec fn view(&self) -> Seq<C> {
        self.idle@
    }
}

impl<C> IdleConnections<C> {
    /// A pool holding the connections made up front.
    pub fn new(connections: Vec<C>) -> (r: IdleConnections<C>)
        ensures
            r@ == connections@,
    {
        IdleConnections { idle: connections }
    }

    /// Takes the most recently returned connection, or `None` when the pool
    /// is empty and the caller must make a new one rather than wait.
    pub fn take(&mut self) -> (r: Option<C>)
        ensures
            old(self)@.len() == 0 ==> r is None && final(self)@ == old(self)@,
            old(self)@.len() > 0 ==> r == Some(old(self)@.last()) && final(self)@ == old(self)@.drop_last(),
    {
        self.idle.pop()
    }

    /// Returns a connection to the pool; the pool may so grow past its
    /// initial size.
    pub fn give_back(&mut self, connection: C)
        ensures
            final(self)@ == old(self)@.push(connection),
    {
        self.idle.push(connection);
    }

    pub fn idle_count(&self) -> (r: usize)
        ensures
            r == self@.len(),
    {
        self.idle.len()
    }
}

} // verus!
