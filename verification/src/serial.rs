//! The queue half of the serial transport.
//!
//! The transport bridges a USB CDC-ACM serial peripheral and two bounded
//! byte queues: one carrying bytes from the host to the device, one back.
//! Everything that touches the peripheral itself — the USB poll, the
//! interrupt handler, the critical sections around register access — lives
//! with the surrounding program; it moves single bytes through
//! [`Serial::push_from_host`] and [`Serial::pop_to_host`]. What is verified
//! here is the queue discipline those entry points and the consumer-side
//! readers maintain.
//!
//! Failure policy, per direction: a byte heading device→host that the
//! hardware cannot take right now is consumed and dropped (that direction is
//! best-effort telemetry), while host→device intake signals the overrun to
//! the caller so it can stall the hardware instead — protocol bytes must
//! never be lost silently, or message framing is corrupted.

use vstd::prelude::*;

use crate::spsc::{SpScRingbuffer, WriteOverrun};

verus! {

/// Slots in the host-to-device queue; it holds one byte less.
pub const RX_BUFFER_SIZE: usize = 64;

/// Slots in the device-to-host queue; it holds one byte less.
pub const TX_BUFFER_SIZE: usize = 64;

/// The two byte queues between the serial interrupt handler and the main
/// loop.
pub struct Serial {
    to_host: SpScRingbuffer<u8, TX_BUFFER_SIZE>,
    from_host: SpScRingbuffer<u8, RX_BUFFER_SIZE>,
}

impl Serial {
    /// Both queues are intact.
    pub closed spec fn wf(&self) -> bool {
        self.to_host.wf() && self.from_host.wf()
    }

    /// Bytes waiting to go out to the host, oldest first.
    pub closed spec fn spec_to_host(&self) -> Seq<u8> {
        self.to_host.contents()
    }

    /// Bytes received from the host and not yet consumed, oldest first.
    pub closed spec fn spec_from_host(&self) -> Seq<u8> {
        self.from_host.contents()
    }

    /// A transport with both queues empty.
    pub fn new() -> (r: Serial)
        ensures
            r.wf(),
            r.spec_to_host() == Seq::<u8>::empty(),
            r.spec_from_host() == Seq::<u8>::empty(),
    {
        Serial { to_host: SpScRingbuffer::new(), from_host: SpScRingbuffer::new() }
    }

    /// Queue as much of `data` as fits for transmission to the host and
    /// report how many bytes were accepted; the caller retries or drops the
    /// rest. Never blocks.
    pub fn write(&mut self, data: &[u8]) -> (r: usize)
        requires
            old(self).wf(),
        ensures
            final(self).wf(),
            r == (if data@.len() <= TX_BUFFER_SIZE - 1 - old(self).spec_to_host().len() {
                data@.len() as int
            } else {
                TX_BUFFER_SIZE - 1 - old(self).spec_to_host().len()
            }),
            final(self).spec_to_host() == old(self).spec_to_host() + data@.subrange(0, r as int),
            final(self).spec_from_host() == old(self).spec_from_host(),
    {
        let mut i: usize = 0;
        while i < data.len()
            invariant_except_break
                old(self).wf(),
                self.wf(),
                i <= data@.len(),
                self.to_host.contents().len() == old(self).spec_to_host().len() + i,
                self.to_host.contents() == old(self).spec_to_host() + data@.subrange(0, i as int),
                self.from_host == old(self).from_host,
            ensures
                self.wf(),
                self.to_host.contents() == old(self).spec_to_host() + data@.subrange(0, i as int),
                self.from_host == old(self).from_host,
                i == data@.len() || self.to_host.contents().len() == TX_BUFFER_SIZE - 1,
                i <= data@.len(),
                self.to_host.contents().len() == old(self).spec_to_host().len() + i,
            decreases data@.len() - i,
        {
            if self.to_host.write_value(data[i]).is_err() {
                break ;
            }
            proof {
                assert(old(self).spec_to_host() + data@.subrange(0, i + 1) =~= (old(
                    self,
                ).spec_to_host() + data@.subrange(0, i as int)).push(data@[i as int]));
            }
            i += 1;
        }
        proof {
            self.to_host.lemma_contents_bound();
        }
        i
    }

    /// Whether a received byte is waiting.
    pub fn available(&self) -> (r: bool)
        requires
            self.wf(),
        ensures
            r == (self.spec_from_host().len() > 0),
    {
        !self.from_host.is_empty()
    }

    /// Take the oldest received byte, or `None` when none is waiting.
    pub fn read(&mut self) -> (r: Option<u8>)
        requires
            old(self).wf(),
        ensures
            final(self).wf(),
            final(self).spec_to_host() == old(self).spec_to_host(),
            old(self).spec_from_host().len() == 0 ==> r is None && final(self).spec_from_host()
                == old(self).spec_from_host(),
            old(self).spec_from_host().len() > 0 ==> {
                &&& r == Some(old(self).spec_from_host()[0])
                &&& final(self).spec_from_host() == old(self).spec_from_host().subrange(
                    1,
                    old(self).spec_from_host().len() as int,
                )
            },
    {
        self.from_host.read_value()
    }

    /// Fill the front of `buffer` with received bytes until the buffer is
    /// full or the queue is drained; used to assemble one fixed-size wire
    /// message. Returns how many bytes were written; the rest of `buffer`
    /// keeps its old values.
    pub fn read_into(&mut self, buffer: &mut Vec<u8>) -> (r: usize)
        requires
            old(self).wf(),
        ensures
            final(self).wf(),
            final(self).spec_to_host() == old(self).spec_to_host(),
            r == (if old(buffer)@.len() <= old(self).spec_from_host().len() {
                old(buffer)@.len() as int
            } else {
                old(self).spec_from_host().len() as int
            }),
            final(buffer)@.len() == old(buffer)@.len(),
            forall|j: int|
                0 <= j < r ==> final(buffer)@[j] == old(self).spec_from_host()[j],
            forall|j: int| r <= j < old(buffer)@.len() ==> final(buffer)@[j] == old(buffer)@[j],
            final(self).spec_from_host() == old(self).spec_from_host().subrange(
                r as int,
                old(self).spec_from_host().len() as int,
            ),
    {
        let mut i: usize = 0;
        while i < buffer.len()
            invariant_except_break
                old(self).wf(),
                self.wf(),
                i <= buffer@.len(),
                buffer@.len() == old(buffer)@.len(),
                i <= old(self).spec_from_host().len(),
                self.to_host == old(self).to_host,
                self.from_host.contents() == old(self).spec_from_host().subrange(
                    i as int,
                    old(self).spec_from_host().len() as int,
                ),
                forall|j: int| 0 <= j < i ==> buffer@[j] == old(self).spec_from_host()[j],
                forall|j: int| i <= j < buffer@.len() ==> buffer@[j] == old(buffer)@[j],
            ensures
                self.wf(),
                i <= buffer@.len(),
                buffer@.len() == old(buffer)@.len(),
                i <= old(self).spec_from_host().len(),
                self.to_host == old(self).to_host,
                i == buffer@.len() || i == old(self).spec_from_host().len(),
                self.from_host.contents() == old(self).spec_from_host().subrange(
                    i as int,
                    old(self).spec_from_host().len() as int,
                ),
                forall|j: int| 0 <= j < i ==> buffer@[j] == old(self).spec_from_host()[j],
                forall|j: int| i <= j < buffer@.len() ==> buffer@[j] == old(buffer)@[j],
            decreases buffer@.len() - i,
        {
            match self.from_host.read_value() {
                Some(v) => {
                    buffer[i] = v;
                    proof {
                        let fh = old(self).spec_from_host();
                        assert(fh.subrange(i as int, fh.len() as int).subrange(
                            1,
                            fh.len() - i,
                        ) =~= fh.subrange(i + 1, fh.len() as int));
                    }
                    i += 1;
                },
                None => {
                    break ;
                },
            }
        }
        i
    }

    /// Intake one byte that arrived from the host. On overrun the byte is
    /// not stored and the caller must leave it with the hardware, stalling
    /// intake at the USB level rather than dropping protocol bytes.
    pub fn push_from_host(&mut self, byte: u8) -> (r: Result<(), WriteOverrun>)
        requires
            old(self).wf(),
        ensures
            final(self).wf(),
            final(self).spec_to_host() == old(self).spec_to_host(),
            r is Err <==> old(self).spec_from_host().len() == RX_BUFFER_SIZE - 1,
            r is Err ==> final(self).spec_from_host() == old(self).spec_from_host(),
            r is Ok ==> final(self).spec_from_host() == old(self).spec_from_host().push(byte),
    {
        self.from_host.write_value(byte)
    }

    /// Take the next byte owed to the host, to be handed to the hardware.
    /// The byte is consumed either way: if the hardware then refuses it,
    /// it is dropped, since the device-to-host direction is best-effort.
    pub fn pop_to_host(&mut self) -> (r: Option<u8>)
        requires
            old(self).wf(),
        ensures
            final(self).wf(),
            final(self).spec_from_host() == old(self).spec_from_host(),
            old(self).spec_to_host().len() == 0 ==> r is None && final(self).spec_to_host() == old(
                self,
            ).spec_to_host(),
            old(self).spec_to_host().len() > 0 ==> {
                &&& r == Some(old(self).spec_to_host()[0])
                &&& final(self).spec_to_host() == old(self).spec_to_host().subrange(
                    1,
                    old(self).spec_to_host().len() as int,
                )
            },
    {
        self.to_host.read_value()
    }
}

} // verus!
