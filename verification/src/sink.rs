//! Sinks: destinations that accept ordered batches of input events.
//!
//! A sink's observable behaviour is captured by its `post_emit` relation:
//! what one delivered batch does to the sink's state. The hub's own sinks
//! buffer what a device or transport must be handed next — re-emitted
//! events for the local virtual device, encoded frames for the serial
//! link — so the unverified edge of the program only drains bytes and
//! events; everything up to that point is checked.

use vstd::prelude::*;

use crate::codec::batch_bytes;
use crate::codec::encode_batch;
use crate::events::InputEvent;
use crate::events::syn_report;
use crate::events::syn_report_spec;

verus! {

/// A destination that accepts one ordered batch of events at a time.
///
/// Each implementation supplies its own invariant and its own statement
/// of what a delivered batch does to it.
pub trait Sink: Sized {
    /// The implementation's well-formedness condition.
    spec fn inv(&self) -> bool;

    /// What one delivered batch does: relates the sink before the
    /// delivery, the batch, and the sink after it.
    spec fn post_emit(pre: Self, batch: Seq<InputEvent>, post: Self) -> bool;

    /// Deliver one batch, in order, as one unit.
    fn emit_events(&mut self, events: &Vec<InputEvent>)
        requires
            old(self).inv(),
        ensures
            final(self).inv(),
            Self::post_emit(*old(self), events@, *final(self)),
    ;
}

/// A sink that discards every batch.
pub struct VoidSink;

impl Sink for VoidSink {
    open spec fn inv(&self) -> bool {
        true
    }

    /// Discarding changes nothing.
    open spec fn post_emit(pre: Self, batch: Seq<InputEvent>, post: Self) -> bool {
        post == pre
    }

    fn emit_events(&mut self, events: &Vec<InputEvent>) {
    }
}

/// The hub-side half of the local sink: it queues each delivered batch,
/// in order and followed by one synchronization marker, for re-emission
/// into the host's virtual input device.
pub struct LocalSink {
    /// Events owed to the virtual device, oldest first.
    pub pending: Vec<InputEvent>,
}

impl LocalSink {
    /// A local sink with nothing queued.
    pub fn new() -> (r: LocalSink)
        ensures
            r.pending@ == Seq::<InputEvent>::empty(),
    {
        LocalSink { pending: Vec::new() }
    }

    /// Hand over everything queued so far, leaving the queue empty.
    pub fn take_pending(&mut self) -> (r: Vec<InputEvent>)
        ensures
            r@ == old(self).pending@,
            final(self).pending@ == Seq::<InputEvent>::empty(),
    {
        let mut out: Vec<InputEvent> = Vec::new();
        core::mem::swap(&mut self.pending, &mut out);
        out
    }
}

impl Sink for LocalSink {
    open spec fn inv(&self) -> bool {
        true
    }

    /// A delivered batch is queued whole, in order, with one trailing
    /// synchronization marker.
    open spec fn post_emit(pre: Self, batch: Seq<InputEvent>, post: Self) -> bool {
        post.pending@ == pre.pending@ + batch + seq![syn_report_spec()]
    }

    fn emit_events(&mut self, events: &Vec<InputEvent>) {
        let mut i: usize = 0;
        while i < events.len()
            invariant
                i <= events@.len(),
                self.pending@ == old(self).pending@ + events@.subrange(0, i as int),
            decreases events@.len() - i,
        {
            self.pending.push(events[i]);
            proof {
                assert(old(self).pending@ + events@.subrange(0, i as int + 1) =~= (old(
                    self,
                ).pending@ + events@.subrange(0, i as int)).push(events@[i as int]));
            }
            i = i + 1;
        }
        proof {
            assert(events@.subrange(0, events@.len() as int) =~= events@);
        }
        self.pending.push(syn_report());
        proof {
            assert(self.pending@ =~= old(self).pending@ + events@ + seq![syn_report_spec()]);
        }
    }
}

/// The hub-side half of the serial sink: it encodes each delivered batch
/// with the wire codec and queues the frames for the serial transport.
pub struct SerialSink {
    /// Bytes owed to the serial transport, oldest first.
    pub pending: Vec<u8>,
}

impl SerialSink {
    /// A serial sink with nothing queued.
    pub fn new() -> (r: SerialSink)
        ensures
            r.pending@ == Seq::<u8>::empty(),
    {
        SerialSink { pending: Vec::new() }
    }

    /// Hand over everything queued so far, leaving the queue empty.
    pub fn take_pending(&mut self) -> (r: Vec<u8>)
        ensures
            r@ == old(self).pending@,
            final(self).pending@ == Seq::<u8>::empty(),
    {
        let mut out: Vec<u8> = Vec::new();
        core::mem::swap(&mut self.pending, &mut out);
        out
    }
}

impl Sink for SerialSink {
    open spec fn inv(&self) -> bool {
        true
    }

    /// A delivered batch is queued as its wire image: one frame per
    /// event, then one frame holding the synchronization marker record.
    open spec fn post_emit(pre: Self, batch: Seq<InputEvent>, post: Self) -> bool {
        post.pending@ == pre.pending@ + batch_bytes(batch)
    }

    fn emit_events(&mut self, events: &Vec<InputEvent>) {
        let mut bytes = encode_batch(events);
        self.pending.append(&mut bytes);
    }
}

/// The closed set of sink variants the hub can register. New transports
/// are new variants, not runtime plugins.
pub enum SinkBox {
    Void(VoidSink),
    Local(LocalSink),
    Serial(SerialSink),
}

impl Sink for SinkBox {
    open spec fn inv(&self) -> bool {
        true
    }

    /// A delivered batch acts on the wrapped sink, variant for variant.
    open spec fn post_emit(pre: Self, batch: Seq<InputEvent>, post: Self) -> bool {
        match pre {
            SinkBox::Void(v) => post matches SinkBox::Void(v2) && VoidSink::post_emit(
                v,
                batch,
                v2,
            ),
            SinkBox::Local(l) => post matches SinkBox::Local(l2) && LocalSink::post_emit(
                l,
                batch,
                l2,
            ),
            SinkBox::Serial(s) => post matches SinkBox::Serial(s2) && SerialSink::post_emit(
                s,
                batch,
                s2,
            ),
        }
    }

    fn emit_events(&mut self, events: &Vec<InputEvent>) {
        match self {
            SinkBox::Void(v) => v.emit_events(events),
            SinkBox::Local(l) => l.emit_events(events),
            SinkBox::Serial(s) => s.emit_events(events),
        }
    }
}

} // verus!
