//! One direction of a connection as a state machine.
//!
//! The machine says what to read next; the driver reads, hands the bytes to
//! [`Forwarder::step`] and writes what comes back. A direction that owes the
//! fragmentation pass first reads one record header; after that pass, or
//! when none is owed, bytes are relayed as they come.

use vstd::prelude::*;
use crate::fragment::{announced_length, fragment_record, fragmented, is_handshake,
    is_handshake_header, length_bytes, MAX_BODY};

verus! {

/// The size of the buffer that relayed bytes are read into.
pub const RELAY_BUFFER: usize = 4096;

/// Where one direction stands.
#[derive(Clone, Copy, Debug, PartialEq, Eq)]
pub enum Phase {
    /// The fragmentation pass is still owed; the three header bytes of the
    /// first record are awaited.
    Intercept,
    /// A handshake header was read; its two length bytes are awaited.
    Length { header: [u8; 3] },
    /// The length is known; the body of the record is awaited.
    Body { header: [u8; 3], length: u16 },
    /// Bytes are forwarded unchanged.
    Relay,
    /// The peer closed its side and the write side was shut down.
    Closed,
    /// A read came back short, or a record could not be split.
    Failed,
}

/// What the driver is to do for the machine next.
#[derive(Clone, Copy, Debug, PartialEq, Eq)]
pub enum Demand {
    /// Read exactly this many bytes; fewer is a failure of the read.
    ReadExact(usize),
    /// Read up to this many bytes; none means the peer closed.
    Read(usize),
    /// Shut down the write side and end with success.
    Shutdown,
    /// End with failure.
    Fail,
}

/// The state of one direction.
#[derive(Clone, Copy, Debug)]
pub struct Forwarder {
    pub phase: Phase,
    pub chunk_size: usize,
}

impl Forwarder {
    /// Whether the first read of this direction is still to be intercepted.
    pub open spec fn needs_chunking(self) -> bool {
        self.phase is Intercept
    }

    /// What the machine asks for in its current phase.
    pub open spec fn demand(self) -> Demand {
        match self.phase {
            Phase::Intercept => Demand::ReadExact(3),
            Phase::Length { .. } => Demand::ReadExact(2),
            Phase::Body { length, .. } => Demand::ReadExact(length as usize),
            Phase::Relay => Demand::Read(RELAY_BUFFER),
            Phase::Closed => Demand::Shutdown,
            Phase::Failed => Demand::Fail,
        }
    }

    /// The phase that follows when `bytes` were read.
    pub open spec fn next_phase(self, bytes: Seq<u8>) -> Phase {
        match self.phase {
            Phase::Intercept => if bytes.len() != 3 {
                Phase::Failed
            } else if is_handshake(bytes) {
                Phase::Length { header: [bytes[0], bytes[1], bytes[2]] }
            } else {
                Phase::Relay
            },
            Phase::Length { header } => if bytes.len() != 2 {
                Phase::Failed
            } else {
                Phase::Body { header, length: announced_length(bytes[0], bytes[1]) as u16 }
            },
            Phase::Body { header, length } => if bytes.len() != length || self.chunk_size == 0 {
                Phase::Failed
            } else {
                Phase::Relay
            },
            Phase::Relay => if bytes.len() == 0 {
                Phase::Closed
            } else {
                Phase::Relay
            },
            Phase::Closed => Phase::Closed,
            Phase::Failed => Phase::Failed,
        }
    }

    /// The bytes to be written when `bytes` were read.
    pub open spec fn output(self, bytes: Seq<u8>) -> Seq<u8> {
        match self.phase {
            Phase::Intercept => if bytes.len() == 3 && !is_handshake(bytes) {
                bytes
            } else {
                Seq::empty()
            },
            Phase::Body { header, length } => if bytes.len() == length && self.chunk_size > 0 {
                fragmented(header@, bytes, self.chunk_size as nat)
            } else {
                Seq::empty()
            },
            Phase::Relay => bytes,
            _ => Seq::empty(),
        }
    }

    /// The machine after `bytes` were read.
    pub open spec fn after(self, bytes: Seq<u8>) -> Forwarder {
        Forwarder { phase: self.next_phase(bytes), chunk_size: self.chunk_size }
    }

    /// The machine after a run of reads, each handed over in turn.
    pub open spec fn run(self, reads: Seq<Seq<u8>>) -> Forwarder
        decreases reads.len(),
    {
        if reads.len() == 0 {
            self
        } else {
            self.after(reads.first()).run(reads.drop_first())
        }
    }

    /// All that is written over a run of reads, in order.
    pub open spec fn run_output(self, reads: Seq<Seq<u8>>) -> Seq<u8>
        decreases reads.len(),
    {
        if reads.len() == 0 {
            Seq::empty()
        } else {
            self.output(reads.first()) + self.after(reads.first()).run_output(
                reads.drop_first(),
            )
        }
    }

    /// A direction at its start. With `needs_chunking` its first record is
    /// intercepted; without, it relays from the first byte.
    pub fn new(needs_chunking: bool, chunk_size: usize) -> (f: Forwarder)
        ensures
            f.chunk_size == chunk_size,
            f.needs_chunking() == needs_chunking,
            !needs_chunking ==> f.phase is Relay,
    {
        if needs_chunking {
            Forwarder { phase: Phase::Intercept, chunk_size }
        } else {
            Forwarder { phase: Phase::Relay, chunk_size }
        }
    }

    /// What the driver is to do next.
    pub fn wants(&self) -> (d: Demand)
        ensures
            d == self.demand(),
    {
        match self.phase {
            Phase::Intercept => Demand::ReadExact(3),
            Phase::Length { .. } => Demand::ReadExact(2),
            Phase::Body { length, .. } => Demand::ReadExact(length as usize),
            Phase::Relay => Demand::Read(RELAY_BUFFER),
            Phase::Closed => Demand::Shutdown,
            Phase::Failed => Demand::Fail,
        }
    }

    /// Takes the bytes that the last read brought and returns the machine's
    /// next state with the bytes to write, which may be none.
    pub fn step(self, bytes: Vec<u8>) -> (r: (Forwarder, Vec<u8>))
        ensures
            r.0 == self.after(bytes@),
            r.1@ == self.output(bytes@),
    {
        let chunk_size = self.chunk_size;
        match self.phase {
            Phase::Intercept => {
                if bytes.len() != 3 {
                    return (Forwarder { phase: Phase::Failed, chunk_size }, Vec::new());
                }
                let header: [u8; 3] = [bytes[0], bytes[1], bytes[2]];
                assert(header@ =~= bytes@);
                if is_handshake_header(&header) {
                    (Forwarder { phase: Phase::Length { header }, chunk_size }, Vec::new())
                } else {
                    (Forwarder { phase: Phase::Relay, chunk_size }, bytes)
                }
            },
            Phase::Length { header } => {
                if bytes.len() != 2 {
                    return (Forwarder { phase: Phase::Failed, chunk_size }, Vec::new());
                }
                let length: u16 = (bytes[0] as u16) * 256 + (bytes[1] as u16);
                (Forwarder { phase: Phase::Body { header, length }, chunk_size }, Vec::new())
            },
            Phase::Body { header, length } => {
                if bytes.len() != length as usize || chunk_size == 0 {
                    return (Forwarder { phase: Phase::Failed, chunk_size }, Vec::new());
                }
                let out = fragment_record(&header, bytes.as_slice(), chunk_size);
                (Forwarder { phase: Phase::Relay, chunk_size }, out)
            },
            Phase::Relay => {
                if bytes.len() == 0 {
                    (Forwarder { phase: Phase::Closed, chunk_size }, bytes)
                } else {
                    (Forwarder { phase: Phase::Relay, chunk_size }, bytes)
                }
            },
            Phase::Closed => (Forwarder { phase: Phase::Closed, chunk_size }, Vec::new()),
            Phase::Failed => (Forwarder { phase: Phase::Failed, chunk_size }, Vec::new()),
        }
    }
}

/// Three first bytes that do not open a handshake record (another record
/// type, or a minor version byte of 4 or more) are written out as they were
/// read, and the direction relays from then on.
pub proof fn non_handshake_passes_through(f: Forwarder, header: Seq<u8>)
    requires
        f.needs_chunking(),
        header.len() == 3,
        !is_handshake(header),
    ensures
        f.output(header) == header,
        f.after(header).phase is Relay,
{
}

/// The interception is owed once: after the first read, whatever it brought,
/// no later state of the direction intercepts again.
pub proof fn interception_is_consumed(f: Forwarder, reads: Seq<Seq<u8>>)
    requires
        reads.len() > 0 || !f.needs_chunking(),
    ensures
        !f.run(reads).needs_chunking(),
    decreases reads.len(),
{
    if reads.len() > 0 {
        interception_is_consumed(f.after(reads.first()), reads.drop_first());
    }
}

/// A relaying direction writes exactly what it reads, in the order read, for
/// as long as the peer sends.
pub proof fn relay_forwards_unchanged(f: Forwarder, reads: Seq<Seq<u8>>)
    requires
        f.phase is Relay,
        forall|i: int| 0 <= i < reads.len() ==> (#[trigger] reads[i]).len() > 0,
    ensures
        f.run_output(reads) == reads.flatten(),
        f.run(reads).phase is Relay,
    decreases reads.len(),
{
    if reads.len() > 0 {
        let tail = reads.drop_first();
        assert forall|i: int| 0 <= i < tail.len() implies (#[trigger] tail[i]).len() > 0 by {
            assert(tail[i] == reads[i + 1]);
        }
        relay_forwards_unchanged(f.after(reads.first()), tail);
    }
}

/// When the peer closes, a relaying direction writes nothing more and asks
/// for the write side to be shut down.
pub proof fn relay_ends_on_close(f: Forwarder)
    requires
        f.phase is Relay,
    ensures
        f.output(Seq::empty()) == Seq::<u8>::empty(),
        f.after(Seq::empty()).demand() == Demand::Shutdown,
{
}

/// A direction that owes the interception and reads a handshake record
/// (header, length, body) writes the fragmented record and nothing else, and
/// relays from then on.
pub proof fn handshake_record_is_fragmented(f: Forwarder, header: Seq<u8>, body: Seq<u8>)
    requires
        f.needs_chunking(),
        f.chunk_size > 0,
        is_handshake(header),
        body.len() <= MAX_BODY,
    ensures
        f.run_output(seq![header, length_bytes(body.len()), body]) == fragmented(
            header,
            body,
            f.chunk_size as nat,
        ),
        f.run(seq![header, length_bytes(body.len()), body]).phase is Relay,
{
    let reads = seq![header, length_bytes(body.len()), body];
    let f1 = f.after(header);
    let f2 = f1.after(length_bytes(body.len()));
    let f3 = f2.after(body);
    let r1 = reads.drop_first();
    let r2 = r1.drop_first();
    let r3 = r2.drop_first();
    assert(reads.first() == header);
    assert(r1.first() == length_bytes(body.len()));
    assert(r2.first() == body);
    assert(r3.len() == 0);
    assert(f1.phase matches Phase::Length { header: h } && h@ =~= header);
    assert(f2.phase matches Phase::Body { header: h, length } && h@ =~= header && length
        == body.len());
    assert(f3.phase is Relay);
    assert(f3.run(r3) == f3);
    assert(f2.run(r2) == f3);
    assert(f1.run(r1) == f3);
    assert(f3.run_output(r3) == Seq::<u8>::empty());
    assert(f2.run_output(r2) =~= fragmented(header, body, f.chunk_size as nat));
    assert(f1.run_output(r1) =~= fragmented(header, body, f.chunk_size as nat));
    assert(f.run_output(reads) =~= fragmented(header, body, f.chunk_size as nat));
}

} // verus!
