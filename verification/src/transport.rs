//! Abstract device transport: register reads and writes, aligned packet
//! streaming with an offset cursor, and pluggable backpressure policies.
//!
//! The protocol driver only depends on this interface. The transport's
//! observable write log records every register write, every packet, and
//! every flush, in order; register reads go on a record of their own, index
//! and answered value both, and what a read returns is the device's to
//! choose.

use vstd::prelude::*;

verus! {

/// A 64-byte payload viewed as eight 64-bit words: the device's write
/// quantum, for both coordinate uploads and digit command bursts. The
/// hardware-facing side keeps its copy 64-byte-aligned for the streaming
/// stores; the driver's logic only depends on the words.
#[derive(Clone, Copy, Debug, PartialEq, Eq)]
pub struct Packet {
    pub words: [u64; 8],
}

impl Packet {
    /// An all-zero packet.
    pub fn new() -> (r: Packet)
        ensures
            r.words@ =~= seq![0u64, 0u64, 0u64, 0u64, 0u64, 0u64, 0u64, 0u64],
    {
        Packet { words: [0, 0, 0, 0, 0, 0, 0, 0] }
    }
}

impl Default for Packet {
    /// An all-zero packet.
    fn default() -> (r: Packet)
        ensures
            r.words@ =~= seq![0u64, 0u64, 0u64, 0u64, 0u64, 0u64, 0u64, 0u64],
    {
        Packet::new()
    }
}

/// One step of a transport's observable history.
#[derive(Clone, Copy, Debug, PartialEq, Eq)]
#[allow(inconsistent_fields)]
pub enum Event {
    /// A 32-bit value written to a control register.
    Register { index: u32, value: u32 },
    /// One 64-byte packet written at a stream index.
    Packet { index: usize, words: [u64; 8] },
    /// A drain of the write-combining buffers (a store barrier).
    Flush,
}

/// A device transport. Writes and flushes append to the observable write log
/// in submission order; register reads leave it unchanged and instead append
/// the index queried and the value the device answered - the device's to
/// choose - to a read history of their own.
pub trait Transport: Sized {
    /// The writes and flushes this transport has carried, in order.
    spec fn log(&self) -> Seq<Event>;

    /// The register reads this transport has carried, in order: the index
    /// queried and the value the device answered.
    spec fn reads(&self) -> Seq<(u32, u32)>;

    /// Write a 32-bit value to the control register `index`.
    fn write_register(&mut self, index: u32, value: u32)
        ensures
            final(self).log() == old(self).log().push(Event::Register { index, value }),
            final(self).reads() == old(self).reads(),
    ;

    /// Read the control register `index`. The result is whatever the device
    /// answers, and it goes on record.
    fn read_register(&mut self, index: u32) -> (r: u32)
        ensures
            final(self).log() == old(self).log(),
            final(self).reads() == old(self).reads().push((index, r)),
    ;

    /// Write one packet at stream index `index`.
    fn write_packet(&mut self, index: usize, packet: &Packet)
        ensures
            final(self).log() == old(self).log().push(
                Event::Packet { index, words: packet.words },
            ),
            final(self).reads() == old(self).reads(),
    ;

    /// Drain any buffered writes toward the device.
    fn flush(&mut self)
        ensures
            final(self).log() == old(self).log().push(Event::Flush),
            final(self).reads() == old(self).reads(),
    ;
}

/// A backpressure policy consulted after every streamed packet. It may flush
/// (leaving its mark in the history at a cadence fixed by the policy) and
/// poll the device, but writes nothing.
pub trait Backoff<T: Transport> {
    /// The history suffix one application appends: flush marks only.
    spec fn backoff_events(offset: usize) -> Seq<Event>;

    /// Applied after a packet write; `offset` is the cursor after the write.
    /// Polling may extend the read record, never rewrite it.
    fn backoff(fpga: &mut T, offset: usize)
        ensures
            final(fpga).log() == old(fpga).log() + Self::backoff_events(offset),
            old(fpga).reads().is_prefix_of(final(fpga).reads()),
    ;
}

/// The policy that does nothing after a write.
pub struct NullBackoff;

impl<T: Transport> Backoff<T> for NullBackoff {
    /// Nothing is appended.
    open spec fn backoff_events(offset: usize) -> Seq<Event> {
        Seq::empty()
    }

    fn backoff(fpga: &mut T, _offset: usize) {
        proof {
            assert(fpga.log() =~= old(fpga).log() + Seq::<Event>::empty());
            assert(old(fpga).reads() =~= fpga.reads().subrange(
                0,
                old(fpga).reads().len() as int,
            ));
        }
    }
}

/// A streaming cursor: each write goes to the next stream index, then the
/// backpressure policy runs.
pub struct Stream<T: Transport, B: Backoff<T>> {
    /// The stream index the next packet is written to.
    pub offset: usize,
    pub _marker: core::marker::PhantomData<(T, B)>,
}

impl<T: Transport, B: Backoff<T>> Stream<T, B> {
    /// Open a stream whose first packet goes to `offset`.
    pub fn new(offset: usize) -> (r: Self)
        ensures
            r.offset == offset,
    {
        Stream { offset, _marker: core::marker::PhantomData }
    }

    /// The stream index the next packet is written to.
    pub fn offset(&self) -> (r: usize)
        ensures
            r == self.offset,
    {
        self.offset
    }

    /// Write one packet at the cursor, advance it, and run the backpressure
    /// policy.
    pub fn write(&mut self, fpga: &mut T, packet: &Packet)
        requires
            old(self).offset < usize::MAX,
        ensures
            final(self).offset == old(self).offset + 1,
            final(fpga).log() == old(fpga).log().push(
                Event::Packet { index: old(self).offset, words: packet.words },
            ) + B::backoff_events((old(self).offset + 1) as usize),
            old(fpga).reads().is_prefix_of(final(fpga).reads()),
    {
        fpga.write_packet(self.offset, packet);
        proof {
            assert(old(fpga).reads() =~= fpga.reads().subrange(
                0,
                old(fpga).reads().len() as int,
            ));
        }
        self.offset = self.offset + 1;
        B::backoff(fpga, self.offset);
    }
}

} // verus!
