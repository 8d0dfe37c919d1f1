//! Small shared helpers: byte-string comparison and the outgoing message
//! queue.

use vstd::prelude::*;
use crate::error::Error;

verus! {

/// True iff the two byte strings hold the same bytes.
pub fn bytes_eq(a: &Vec<u8>, b: &Vec<u8>) -> (r: bool)
    ensures
        r == (a@ == b@),
{
    if a.len() != b.len() {
        assert(a@ != b@) by {
            assert(a@.len() != b@.len());
        }
        return false;
    }
    let mut i: usize = 0;
    while i < a.len()
        invariant
            i <= a.len(),
            a@.len() == b@.len(),
            forall|j: int| 0 <= j < i ==> a@[j] == b@[j],
        decreases a.len() - i,
    {
        if a[i] != b[i] {
            return false;
        }
        i = i + 1;
    }
    proof {
        assert(a@ =~= b@);
    }
    true
}

/// Copy a byte string.
pub fn bytes_clone(b: &Vec<u8>) -> (r: Vec<u8>)
    ensures
        r@ == b@,
{
    let mut r: Vec<u8> = Vec::new();
    let mut i: usize = 0;
    while i < b.len()
        invariant
            i <= b.len(),
            r@ == b@.take(i as int),
        decreases b.len() - i,
    {
        r.push(b[i]);
        i = i + 1;
        assert(r@ =~= b@.take(i as int));
    }
    assert(b@.take(b@.len() as int) =~= b@);
    r
}

/// A first-in first-out queue of pending items, closable with an error.
/// Producers push at the back; the one consumer pops at the front.
#[derive(Debug)]
pub struct Queue<T> {
    pub items: Vec<T>,
    pub closed: Option<Error>,
}

/// What popping the queue would yield.
#[derive(Debug, PartialEq)]
pub enum QueuePop<T> {
    /// The oldest pending item.
    Item(T),
    /// The queue was closed with this error and holds nothing more.
    Closed(Error),
    /// Nothing yet: a pop would block.
    Pending,
}

impl<T> Queue<T> {
    /// A fresh open empty queue.
    pub fn new() -> (q: Self)
        ensures
            q.items@ == Seq::<T>::empty(),
            q.closed is None,
    {
        Queue { items: Vec::new(), closed: None }
    }

    /// Append an item. Fails `Done` on a closed queue.
    pub fn push(&mut self, item: T) -> (r: Result<(), Error>)
        ensures
            match r {
                Ok(()) => old(self).closed is None
                    && final(self).items@ == old(self).items@.push(item)
                    && final(self).closed is None,
                Err(e) => e == Error::Done && old(self).closed is Some
                    && final(self).items@ == old(self).items@
                    && final(self).closed == old(self).closed,
            },
    {
        if self.closed.is_some() {
            return Err(Error::Done);
        }
        self.items.push(item);
        Ok(())
    }

    /// Pop the oldest item; pending items are drained before a close is
    /// surfaced.
    pub fn pop(&mut self) -> (r: QueuePop<T>)
        ensures
            final(self).closed == old(self).closed,
            old(self).items@.len() > 0 ==> (r matches QueuePop::Item(x)
                && x == old(self).items@[0]
                && final(self).items@ == old(self).items@.skip(1)),
            old(self).items@.len() == 0 ==> final(self).items@ == old(self).items@
                && match old(self).closed {
                    Some(e) => r matches QueuePop::Closed(c) && c == e,
                    None => r is Pending,
                },
    {
        if self.items.len() > 0 {
            let item = self.items.remove(0);
            return QueuePop::Item(item);
        }
        match self.closed {
            Some(e) => QueuePop::Closed(e),
            None => QueuePop::Pending,
        }
    }

    /// Close the queue; items already queued still drain. Closing an
    /// already closed queue fails with the prior error.
    pub fn close(&mut self, err: Error) -> (r: Result<(), Error>)
        ensures
            final(self).items@ == old(self).items@,
            match r {
                Ok(()) => old(self).closed is None && final(self).closed == Some(err),
                Err(e) => old(self).closed == Some(e)
                    && final(self).closed == old(self).closed,
            },
    {
        match self.closed {
            Some(e) => {
                return Err(e);
            },
            None => {},
        }
        self.closed = Some(err);
        Ok(())
    }
}

} // verus!
