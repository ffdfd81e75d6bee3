//! Mock transport: no device is touched; every write and flush is recorded,
//! so a host test can check the exact sequence the driver dispatches,
//! store-barrier boundaries included, and every read is recorded with the
//! value answered.
//!
//! Reads answer as an always-ready device: the aggregated-result flag reads
//! one, everything else (queue depths, statistics, coordinates) reads zero,
//! so every poll of the protocol driver returns at once.

use crate::app::READ_AGGREGATED;
use crate::transport::{Event, Packet, Transport};
use vstd::prelude::*;

verus! {

/// Mock transport recording every write and read, and answering reads as an
/// always-ready device.
pub struct Null {
    /// Every write and flush carried so far, in order.
    pub events: Vec<Event>,
    /// Every read carried so far, in order: index queried and value
    /// answered.
    pub answered: Vec<(u32, u32)>,
}

impl Null {
    /// A fresh mock transport with empty histories.
    pub fn new() -> (r: Self)
        ensures
            r.log() == Seq::<Event>::empty(),
            r.reads() == Seq::<(u32, u32)>::empty(),
    {
        let r = Null { events: Vec::new(), answered: Vec::new() };
        proof {
            assert(r.log() =~= Seq::<Event>::empty());
            assert(r.reads() =~= Seq::<(u32, u32)>::empty());
        }
        r
    }
}

impl Default for Null {
    /// Same as `Null::new`.
    fn default() -> (r: Self)
        ensures
            r.log() == Seq::<Event>::empty(),
            r.reads() == Seq::<(u32, u32)>::empty(),
    {
        Null::new()
    }
}

impl Transport for Null {
    open spec fn log(&self) -> Seq<Event> {
        self.events@
    }

    open spec fn reads(&self) -> Seq<(u32, u32)> {
        self.answered@
    }

    fn write_register(&mut self, index: u32, value: u32)
    {
        self.events.push(Event::Register { index, value });
    }

    fn read_register(&mut self, index: u32) -> (r: u32)
        ensures
            r == (if index == READ_AGGREGATED {
                1u32
            } else {
                0u32
            }),
    {
        let r: u32 = if index == READ_AGGREGATED {
            1
        } else {
            0
        };
        self.answered.push((index, r));
        r
    }

    fn write_packet(&mut self, index: usize, packet: &Packet)
    {
        self.events.push(Event::Packet { index, words: packet.words });
    }

    fn flush(&mut self)
    {
        self.events.push(Event::Flush);
    }
}

} // verus!
