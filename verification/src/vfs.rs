//! A minimal in-memory log node: a named append-only text buffer.

use vstd::prelude::*;
use vstd::string::StringExecFns;

verus! {

/// What can go wrong writing to a node.
#[derive(Debug, Clone, Copy, PartialEq, Eq, Structural)]
pub enum PrismError {
    WriteError,
}

/// A named buffer that collects everything written to it.
#[derive(Debug)]
pub struct LogNode {
    name: String,
    buf: String,
}

impl LogNode {
    /// The node's name.
    pub closed spec fn spec_name(self) -> Seq<char> {
        self.name@
    }

    /// Everything written so far, in order.
    pub closed spec fn spec_contents(self) -> Seq<char> {
        self.buf@
    }

    /// An empty node called `name`.
    pub fn new(name: &str) -> (n: Self)
        ensures
            n.spec_name() == name@,
            n.spec_contents() == Seq::<char>::empty(),
    {
        LogNode { name: name.to_owned(), buf: String::new() }
    }

    /// The node's name.
    pub fn name(&self) -> (r: &str)
        ensures
            r@ == self.spec_name(),
    {
        self.name.as_str()
    }

    /// Everything written so far. Never fails.
    pub fn read(&self) -> (r: Option<String>)
        ensures
            r is Some && r->0@ == self.spec_contents(),
    {
        Some(self.buf.clone())
    }

    /// Appends `data` to the buffer. Never fails: afterwards the contents
    /// are the old contents followed by `data`.
    pub fn write(&mut self, data: &str) -> (r: Result<(), PrismError>)
        ensures
            r is Ok,
            final(self).spec_name() == old(self).spec_name(),
            final(self).spec_contents() == old(self).spec_contents() + data@,
    {
        self.buf.append(data);
        Ok(())
    }
}

} // verus!
