//! The bounded queue between the readers and the forwarder.
//!
//! The queue never drops a record. When it is full a push hands the record
//! back, and the reader that pushed waits until something was popped before
//! it tries again: that is the collector's only backpressure. Records come
//! out in the order in which they were accepted.

use crate::common::log::Log;
use std::collections::VecDeque;
use vstd::prelude::*;

verus! {

/// A first-in-first-out queue of log records with a fixed capacity.
pub struct DeliveryQueue {
    records: VecDeque<Log>,
    capacity: usize,
}

/// One use of the queue.
pub enum QueueOp {
    Push(Log),
    Pop,
}

/// Whether a queue with these contents takes another record.
pub open spec fn has_room(contents: Seq<Log>, capacity: usize) -> bool {
    contents.len() < capacity
}

/// The contents after one use.
pub open spec fn contents_after(contents: Seq<Log>, capacity: usize, op: QueueOp) -> Seq<Log> {
    match op {
        QueueOp::Push(record) => if has_room(contents, capacity) {
            contents.push(record)
        } else {
            contents
        },
        QueueOp::Pop => if contents.len() > 0 {
            contents.drop_first()
        } else {
            contents
        },
    }
}

/// The contents after a series of uses.
pub open spec fn contents_after_all(contents: Seq<Log>, capacity: usize, ops: Seq<QueueOp>) -> Seq<
    Log,
>
    decreases ops.len(),
{
    if ops.len() == 0 {
        contents
    } else {
        contents_after_all(contents_after(contents, capacity, ops[0]), capacity, ops.drop_first())
    }
}

/// The records that a series of uses put into the queue, in order.
pub open spec fn accepted(contents: Seq<Log>, capacity: usize, ops: Seq<QueueOp>) -> Seq<Log>
    decreases ops.len(),
{
    if ops.len() == 0 {
        Seq::empty()
    } else {
        let rest = accepted(contents_after(contents, capacity, ops[0]), capacity, ops.drop_first());
        match ops[0] {
            QueueOp::Push(record) => if has_room(contents, capacity) {
                seq![record] + rest
            } else {
                rest
            },
            QueueOp::Pop => rest,
        }
    }
}

/// The records that a series of uses took out of the queue, in order.
pub open spec fn popped(contents: Seq<Log>, capacity: usize, ops: Seq<QueueOp>) -> Seq<Log>
    decreases ops.len(),
{
    if ops.len() == 0 {
        Seq::empty()
    } else {
        let rest = popped(contents_after(contents, capacity, ops[0]), capacity, ops.drop_first());
        match ops[0] {
            QueueOp::Push(_) => rest,
            QueueOp::Pop => if contents.len() > 0 {
                seq![contents[0]] + rest
            } else {
                rest
            },
        }
    }
}

impl DeliveryQueue {
    /// The queue has room for at least one record and holds no more than
    /// its capacity.
    pub closed spec fn wf(&self) -> bool {
        0 < self.capacity && self.records@.len() <= self.capacity
    }

    /// A well-formed queue has room for a record and holds no more than its
    /// capacity.
    pub proof fn lemma_wf_is_bounded(&self)
        requires
            self.wf(),
        ensures
            0 < self.limit(),
            self.contents().len() <= self.limit(),
    {
    }

    /// The records in the queue, the oldest first.
    pub closed spec fn contents(&self) -> Seq<Log> {
        self.records@
    }

    /// The number of records the queue holds at most.
    pub closed spec fn limit(&self) -> usize {
        self.capacity
    }

    /// An empty queue for up to `capacity` records.
    pub fn new(capacity: usize) -> (queue: DeliveryQueue)
        requires
            capacity > 0,
        ensures
            queue.wf(),
            queue.contents() == Seq::<Log>::empty(),
            queue.limit() == capacity,
    {
        DeliveryQueue { records: VecDeque::new(), capacity }
    }

    /// The number of records the queue holds at most.
    pub fn capacity(&self) -> (capacity: usize)
        requires
            self.wf(),
        ensures
            capacity == self.limit(),
            capacity > 0,
    {
        self.capacity
    }

    /// The number of records in the queue.
    pub fn len(&self) -> (len: usize)
        requires
            self.wf(),
        ensures
            len == self.contents().len(),
            len <= self.limit(),
    {
        self.records.len()
    }

    /// Whether the queue holds no record.
    pub fn is_empty(&self) -> (empty: bool)
        ensures
            empty == (self.contents().len() == 0),
    {
        self.records.len() == 0
    }

    /// Whether a push would be handed back.
    pub fn is_full(&self) -> (full: bool)
        requires
            self.wf(),
        ensures
            full == !has_room(self.contents(), self.limit()),
    {
        self.records.len() >= self.capacity
    }

    /// Puts a record at the end of the queue. A full queue takes nothing and
    /// hands the record back unchanged.
    pub fn push(&mut self, record: Log) -> (refused: Result<(), Log>)
        requires
            old(self).wf(),
        ensures
            final(self).wf(),
            final(self).limit() == old(self).limit(),
            final(self).contents() == contents_after(
                old(self).contents(),
                old(self).limit(),
                QueueOp::Push(record),
            ),
            has_room(old(self).contents(), old(self).limit()) ==> refused is Ok,
            !has_room(old(self).contents(), old(self).limit()) ==> refused == Err::<(), Log>(
                record,
            ),
    {
        if self.records.len() < self.capacity {
            self.records.push_back(record);
            Ok(())
        } else {
            Err(record)
        }
    }

    /// Takes the oldest record out of the queue, if there is one.
    pub fn pop(&mut self) -> (record: Option<Log>)
        requires
            old(self).wf(),
        ensures
            final(self).wf(),
            final(self).limit() == old(self).limit(),
            final(self).contents() == contents_after(
                old(self).contents(),
                old(self).limit(),
                QueueOp::Pop,
            ),
            record == if old(self).contents().len() > 0 {
                Some(old(self).contents()[0])
            } else {
                None
            },
    {
        let record = self.records.pop_front();
        assert(self.records@ =~= contents_after(old(self).records@, self.capacity, QueueOp::Pop));
        record
    }
}

/// A full queue refuses a push and keeps what it holds; once a record has
/// been popped, it takes the next push.
pub proof fn lemma_full_queue_waits_for_a_pop(contents: Seq<Log>, capacity: usize, record: Log)
    requires
        0 < capacity,
        contents.len() == capacity,
    ensures
        contents_after(contents, capacity, QueueOp::Push(record)) == contents,
        contents_after(
            contents_after(contents, capacity, QueueOp::Pop),
            capacity,
            QueueOp::Push(record),
        ) == contents.drop_first().push(record),
{
}

/// The queue never holds more than its capacity.
pub proof fn lemma_queue_stays_bounded(contents: Seq<Log>, capacity: usize, ops: Seq<QueueOp>)
    requires
        contents.len() <= capacity,
    ensures
        contents_after_all(contents, capacity, ops).len() <= capacity,
    decreases ops.len(),
{
    if ops.len() > 0 {
        lemma_queue_stays_bounded(
            contents_after(contents, capacity, ops[0]),
            capacity,
            ops.drop_first(),
        );
    }
}

/// The queue loses nothing and keeps the order: what it held, followed by
/// what it accepted, is what was popped, followed by what it still holds.
pub proof fn lemma_queue_drops_nothing(contents: Seq<Log>, capacity: usize, ops: Seq<QueueOp>)
    ensures
        contents + accepted(contents, capacity, ops) == popped(contents, capacity, ops)
            + contents_after_all(contents, capacity, ops),
    decreases ops.len(),
{
    if ops.len() > 0 {
        let next = contents_after(contents, capacity, ops[0]);
        let rest = ops.drop_first();
        lemma_queue_drops_nothing(next, capacity, rest);
        let taken = accepted(next, capacity, rest);
        let given = popped(next, capacity, rest);
        let left = contents_after_all(next, capacity, rest);
        assert(next + taken == given + left);
        match ops[0] {
            QueueOp::Push(record) => {
                if has_room(contents, capacity) {
                    assert(contents + (seq![record] + taken) =~= contents.push(record) + taken);
                }
            },
            QueueOp::Pop => {
                if contents.len() > 0 {
                    assert(contents + taken =~= seq![contents[0]] + (contents.drop_first()
                        + taken));
                    assert(seq![contents[0]] + (given + left) =~= (seq![contents[0]] + given)
                        + left);
                }
            },
        }
    } else {
        assert(contents + accepted(contents, capacity, ops) =~= popped(contents, capacity, ops)
            + contents_after_all(contents, capacity, ops));
    }
}

} // verus!
