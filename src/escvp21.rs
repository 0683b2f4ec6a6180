//! The serial session: what to send back, or whether to stop, after each read
//! from the transport. The loop that reads and writes lives with the caller.

use vstd::prelude::*;
use vstd::string::StringSliceAdditionalSpecFns;
use vstd::utf8::encode_utf8;

pub use crate::codec::Codec;
use crate::codec::{decode_step, REQUEST_TERMINATOR};
use crate::commands::{reply_view, CommandError, CommandProcessor, ProcessorView};
use crate::power::clock_nanos;

verus! {

/// Bytes of the error token `ERR`.
pub open spec fn error_token() -> Seq<u8> {
    seq![0x45u8, 0x52u8, 0x52u8]
}

/// Bytes of the record terminator `\r:` that follows every reply.
pub open spec fn record_terminator() -> Seq<u8> {
    seq![REQUEST_TERMINATOR, 0x3au8]
}

/// The payload that answers a processed request: the reply's bytes, nothing
/// for a successful set, or `ERR`.
pub open spec fn wire_payload(r: Result<Option<Seq<char>>, CommandError>) -> Seq<u8> {
    match r {
        Ok(Some(reply)) => encode_utf8(reply),
        Ok(None) => Seq::empty(),
        Err(_) => error_token(),
    }
}

/// The record terminator, to be written after each payload.
pub fn reply_terminator() -> (r: Vec<u8>)
    ensures
        r@ == record_terminator(),
{
    let mut v: Vec<u8> = Vec::new();
    v.push(REQUEST_TERMINATOR);
    v.push(0x3a);
    v
}

/// What the transport reported on one read.
pub enum TransportEvent<'a> {
    /// Bytes arrived.
    Data(&'a [u8]),
    /// The read timed out; nothing is wrong.
    TimedOut,
    /// The read failed.
    Failed,
}

/// What the loop does next.
pub enum LoopAction {
    /// Read again.
    Wait,
    /// Write the payload, when it is not empty, then the record terminator,
    /// then read again.
    Send(Vec<u8>),
    /// Leave the loop.
    Stop,
}

/// The framing codec and the processor that one serial link drives.
pub struct Session {
    codec: Codec,
    processor: CommandProcessor,
}

/// A session as the contracts see it: the bytes buffered and the processor.
pub struct SessionView {
    pub pending: Seq<u8>,
    pub processor: ProcessorView,
}

impl View for Session {
    type V = SessionView;

    closed spec fn view(&self) -> SessionView {
        SessionView { pending: self.codec.pending(), processor: self.processor@ }
    }
}

impl SessionView {
    /// The session after `chunk` arrives at `now`, and the payload to send
    /// when a frame completed and was processed.
    pub open spec fn received(self, chunk: Seq<u8>, now: u64) -> (SessionView, Option<Seq<u8>>) {
        let (decoded, pending) = decode_step(self.pending, chunk);
        match decoded {
            Ok(Some(frame)) => {
                let (processor, r) = self.processor.process(frame, now);
                (SessionView { pending, processor }, Some(wire_payload(r)))
            },
            _ => (SessionView { pending, ..self }, None),
        }
    }
}

impl SessionView {
    /// From this session, `event` at `now` leads to `after` and the action `a`:
    /// an empty read or a timeout changes nothing and waits, a failed read
    /// stops, and bytes go through `received`, with a send when a frame
    /// completed and a wait otherwise.
    pub open spec fn steps_to(self, event: TransportEvent, now: u64, after: SessionView, a: LoopAction) -> bool {
        match event {
            TransportEvent::Data(chunk) => if chunk@.len() == 0 {
                a is Wait && after == self
            } else {
                after == self.received(chunk@, now).0 && action_for(self.received(chunk@, now).1, a)
            },
            TransportEvent::TimedOut => a is Wait && after == self,
            TransportEvent::Failed => a is Stop && after == self,
        }
    }
}

/// The action that stands for an optional payload.
pub open spec fn action_for(payload: Option<Seq<u8>>, action: LoopAction) -> bool {
    match payload {
        Some(bytes) => action matches LoopAction::Send(v) && v@ == bytes,
        None => action is Wait,
    }
}

impl Session {
    /// The processor's table is well formed.
    pub closed spec fn wf(&self) -> bool {
        self.processor.wf()
    }

    /// A session with nothing buffered and a new processor with the given
    /// warm-up and cool-down durations in seconds.
    pub fn new(warming: u64, cooling: u64) -> (s: Session)
        ensures
            s.wf(),
            s@.pending == Seq::<u8>::empty(),
            s@.processor == ProcessorView::initial(warming, cooling),
    {
        Session { codec: Codec::new(), processor: CommandProcessor::new(warming, cooling) }
    }

    /// How many bytes wait for a terminator.
    pub fn buffered_len(&self) -> (n: usize)
        ensures
            n == self@.pending.len(),
    {
        self.codec.buffered_len()
    }

    /// Feeds `chunk` to the codec; when a frame completes, processes it at
    /// `now` and returns the payload to send. A frame that is not UTF-8 is
    /// dropped without a reply.
    pub fn receive_at(&mut self, chunk: &[u8], now: u64) -> (r: Option<Vec<u8>>)
        requires
            old(self).wf(),
            old(self)@.pending.len() + chunk@.len() <= isize::MAX,
        ensures
            final(self).wf(),
            (final(self)@, match r {
                Some(v) => Some(v@),
                None => None,
            }) == old(self)@.received(chunk@, now),
    {
        match self.codec.decode(chunk) {
            Ok(Some(frame)) => {
                let r = self.processor.process_message_at(frame.as_str(), now);
                Some(payload_of(&r))
            },
            Ok(None) => None,
            Err(_) => None,
        }
    }

    /// Decides what follows a read at `now`: replies to a completed frame,
    /// waits on a timeout or when no frame is complete, and stops when the
    /// read failed.
    pub fn step_at(&mut self, event: TransportEvent, now: u64) -> (a: LoopAction)
        requires
            old(self).wf(),
            event matches TransportEvent::Data(chunk) ==> old(self)@.pending.len() + chunk@.len()
                <= isize::MAX,
        ensures
            final(self).wf(),
            old(self)@.steps_to(event, now, final(self)@, a),
    {
        match event {
            TransportEvent::Data(chunk) => {
                if chunk.len() == 0 {
                    return LoopAction::Wait;
                }
                match self.receive_at(chunk, now) {
                    Some(payload) => LoopAction::Send(payload),
                    None => LoopAction::Wait,
                }
            },
            TransportEvent::TimedOut => LoopAction::Wait,
            TransportEvent::Failed => LoopAction::Stop,
        }
    }

    /// `step_at` at the current time.
    pub fn step(&mut self, event: TransportEvent) -> (a: LoopAction)
        requires
            old(self).wf(),
            event matches TransportEvent::Data(chunk) ==> old(self)@.pending.len() + chunk@.len()
                <= isize::MAX,
        ensures
            final(self).wf(),
            exists|now: u64| #[trigger] old(self)@.steps_to(event, now, final(self)@, a),
    {
        let now = clock_nanos();
        self.step_at(event, now)
    }
}

/// The bytes that answer a processed request.
pub fn payload_of(r: &Result<Option<String>, CommandError>) -> (v: Vec<u8>)
    ensures
        v@ == wire_payload(reply_view(*r)),
{
    match r {
        Ok(Some(reply)) => slice_bytes(reply.as_str().as_bytes()),
        Ok(None) => Vec::new(),
        Err(_) => {
            let mut v: Vec<u8> = Vec::new();
            v.push(0x45);
            v.push(0x52);
            v.push(0x52);
            v
        },
    }
}

fn slice_bytes(b: &[u8]) -> (v: Vec<u8>)
    ensures
        v@ == b@,
{
    let mut v: Vec<u8> = Vec::new();
    let mut i: usize = 0;
    while i < b.len()
        invariant
            i <= b@.len(),
            v@ == b@.take(i as int),
        decreases b@.len() - i,
    {
        v.push(b[i]);
        i = i + 1;
        assert(v@ =~= b@.take(i as int));
    }
    assert(b@.take(b@.len() as int) =~= b@);
    v
}

} // verus!
