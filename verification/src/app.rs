//! Session and protocol driver: configures the accelerator, uploads
//! preprocessed points, streams digit columns, reads back aggregated
//! coordinates and folds them into the final Weierstrass point.
//!
//! Every write the driver dispatches is pinned down, in order, against the
//! transport's observable log. What the device answers to reads is its own,
//! but every answer goes on the transport's read record: the point and
//! counters read back are exactly the recorded answers assembled, and the
//! MSM result is the exact fold of the fetched column sums.

use crate::digits::{extracted_digit, limb_carries, recoded_scalar, single_digit_carry, Digit, Scalar};
use crate::preprocess::{
    into_weierstrass, into_weierstrass_s, preprocess, preprocess_s, shl_assign, te_add, te_add_s,
    te_shifted_s, FqV, G1Affine, G1PTEAffine, G1Projective, G1TEProjective,
};

use crate::fq::{fq_one_s, fq_zero_s, Fq};
use crate::transport::{Backoff, Event, Packet, Stream, Transport};
use vstd::prelude::*;

verus! {

/// Control-register index taking the parameter of the next parameterised
/// read.
pub const REG_QUERY: u32 = 0x10;

/// Control-register index of the bucket-read burst length.
pub const REG_DDR_READ_LEN: u32 = 0x11;

/// Control-register index of the instance length.
pub const REG_MSM_LENGTH: u32 = 0x20;

/// Control-register index of the last bucket.
pub const REG_LAST_BUCKET: u32 = 0x21;

/// Control-register index of the first bucket.
pub const REG_FIRST_BUCKET: u32 = 0x22;

/// Read-register index of the parameterised statistic.
pub const READ_STATISTIC: u32 = 0x20;

/// Read-register index of the digits-queue depth.
pub const READ_DIGITS_QUEUE: u32 = 0x21;

/// Read-register index of the aggregated-result flag.
pub const READ_AGGREGATED: u32 = 0x30;

/// Read-register index of the result X coordinate halves.
pub const READ_X: u32 = 0x31;

/// Read-register index of the result Y coordinate halves.
pub const READ_Y: u32 = 0x32;

/// Read-register index of the result Z coordinate halves.
pub const READ_Z: u32 = 0x33;

/// Read-register index of the result T coordinate halves.
pub const READ_T: u32 = 0x34;

/// Stream index base of the X-coordinate upload channel.
pub const SET_X_BASE: usize = 0x400_0000;

/// Stream index base of the Y-coordinate upload channel.
pub const SET_Y_BASE: usize = 0x800_0000;

/// Stream index base of the KT-coordinate upload channel.
pub const SET_KT_BASE: usize = 0xc00_0000;

/// Stream index base of the digit-column channel.
pub const MSM_BASE: usize = 0x1000_0000;

/// Stream index base of the identity-reset channel.
pub const SET_ZERO_BASE: usize = 0x1400_0000;

/// Bucket-read burst length written at session setup.
pub const DDR_READ_LEN: u32 = 64;

/// Number of buckets of the device's reduction.
pub const NUM_BUCKETS: u32 = 0x8000;

/// First bucket index written at session setup.
pub const FIRST_BUCKET: u32 = 0;

/// Last bucket index written at session setup.
pub const LAST_BUCKET: u32 = 0x7fff;

/// Queue depth under which digit streaming resumes.
pub const BACKOFF_THRESHOLD: u32 = 64;

/// Packets between flushes while uploading points.
pub const SET_POINTS_FLUSH_EVERY: usize = 1024;

/// Packets between flush-and-poll rounds while streaming digits.
pub const SET_DIGITS_FLUSH_BACKOFF_EVERY: usize = 512;

/// Top-level channels of the accelerator's streaming interface. Of more
/// interest are the subcommands of `StreamChannel::Msm` in [`Command`].
#[derive(Copy, Clone, Debug, Eq, PartialEq)]
pub enum StreamChannel {
    SetX,
    SetY,
    SetKT,
    /// Must start with `Command::StartColumn`, then packets of
    /// `Command::SetDigit`.
    Msm,
    SetZero,
}

/// The stream index base encoding a channel in its top bits.
pub open spec fn channel_base_s(c: StreamChannel) -> usize {
    match c {
        StreamChannel::SetX => SET_X_BASE,
        StreamChannel::SetY => SET_Y_BASE,
        StreamChannel::SetKT => SET_KT_BASE,
        StreamChannel::Msm => MSM_BASE,
        StreamChannel::SetZero => SET_ZERO_BASE,
    }
}

impl StreamChannel {
    /// The stream index base encoding this channel in its top bits.
    pub fn base(&self) -> (r: usize)
        ensures
            r == channel_base_s(*self),
    {
        match self {
            StreamChannel::SetX => SET_X_BASE,
            StreamChannel::SetY => SET_Y_BASE,
            StreamChannel::SetKT => SET_KT_BASE,
            StreamChannel::Msm => MSM_BASE,
            StreamChannel::SetZero => SET_ZERO_BASE,
        }
    }
}

/// Commands for digit-column processing, encoded in the low bits of each
/// 64-bit word of a column packet.
#[derive(Copy, Clone, Debug, Eq, PartialEq)]
pub enum Command {
    StartColumn,
    SetDigit,
}

/// The opcode word of `StartColumn`.
pub const START_COLUMN_OPCODE: u64 = 1;

/// The opcode of `SetDigit`; the digit sits above it, shifted left by 14.
pub const SET_DIGIT_OPCODE: u64 = 3;

/// The command word carrying one signed digit: the `SetDigit` opcode with the
/// digit's 16-bit pattern shifted left by 14.
pub open spec fn set_digit_s(digit: i16) -> u64 {
    SET_DIGIT_OPCODE | ((digit as u16 as u64) << 14)
}

impl Command {
    /// The opcode word of this command.
    pub fn opcode(&self) -> (r: u64)
        ensures
            r == (match self {
                Command::StartColumn => START_COLUMN_OPCODE,
                Command::SetDigit => SET_DIGIT_OPCODE,
            }),
    {
        match self {
            Command::StartColumn => START_COLUMN_OPCODE,
            Command::SetDigit => SET_DIGIT_OPCODE,
        }
    }

    /// The command word carrying one signed digit.
    pub fn set_digit(digit: i16) -> (r: u64)
        ensures
            r == set_digit_s(digit),
    {
        SET_DIGIT_OPCODE | ((digit as u16 as u64) << 14)
    }
}

/// The write registers of the device's control interface. The parameterised
/// read registers need a preceding write of the parameter to `Query`.
#[derive(Copy, Clone, Debug, Eq, PartialEq)]
pub enum WriteRegister {
    Query,
    DdrReadLen,
    MsmLength,
    LastBucket,
    FirstBucket,
}

/// The control index of a write register.
pub open spec fn write_register_index_s(r: WriteRegister) -> u32 {
    match r {
        WriteRegister::Query => REG_QUERY,
        WriteRegister::DdrReadLen => REG_DDR_READ_LEN,
        WriteRegister::MsmLength => REG_MSM_LENGTH,
        WriteRegister::LastBucket => REG_LAST_BUCKET,
        WriteRegister::FirstBucket => REG_FIRST_BUCKET,
    }
}

impl WriteRegister {
    /// The control index of this register.
    pub fn index(&self) -> (r: u32)
        ensures
            r == write_register_index_s(*self),
    {
        match self {
            WriteRegister::Query => REG_QUERY,
            WriteRegister::DdrReadLen => REG_DDR_READ_LEN,
            WriteRegister::MsmLength => REG_MSM_LENGTH,
            WriteRegister::LastBucket => REG_LAST_BUCKET,
            WriteRegister::FirstBucket => REG_FIRST_BUCKET,
        }
    }
}

/// The read registers of the device's control interface.
#[derive(Copy, Clone, Debug, Eq, PartialEq)]
pub enum ReadRegister {
    Statistic,
    DigitsQueue,
    Aggregated,
    X,
    Y,
    Z,
    T,
}

/// The control index of a read register.
pub open spec fn read_register_index_s(r: ReadRegister) -> u32 {
    match r {
        ReadRegister::Statistic => READ_STATISTIC,
        ReadRegister::DigitsQueue => READ_DIGITS_QUEUE,
        ReadRegister::Aggregated => READ_AGGREGATED,
        ReadRegister::X => READ_X,
        ReadRegister::Y => READ_Y,
        ReadRegister::Z => READ_Z,
        ReadRegister::T => READ_T,
    }
}

impl ReadRegister {
    /// The control index of this register.
    pub fn index(&self) -> (r: u32)
        ensures
            r == read_register_index_s(*self),
    {
        match self {
            ReadRegister::Statistic => READ_STATISTIC,
            ReadRegister::DigitsQueue => READ_DIGITS_QUEUE,
            ReadRegister::Aggregated => READ_AGGREGATED,
            ReadRegister::X => READ_X,
            ReadRegister::Y => READ_Y,
            ReadRegister::Z => READ_Z,
            ReadRegister::T => READ_T,
        }
    }
}

/// Selectors of the device's statistic counters.
#[derive(Copy, Clone, Debug, Eq, PartialEq)]
pub enum Statistic {
    DroppedCommands,
    DdrReadMiss,
    DdrWriteMiss,
    DdrPushCount,
    DdrReadCountChannel1,
    DdrReadCountChannel2,
    DdrReadCountChannel3,
}

/// The query selector of a statistic counter.
pub open spec fn statistic_selector_s(s: Statistic) -> u32 {
    match s {
        Statistic::DroppedCommands => 0,
        Statistic::DdrReadMiss => 1,
        Statistic::DdrWriteMiss => 2,
        Statistic::DdrPushCount => 3,
        Statistic::DdrReadCountChannel1 => 4,
        Statistic::DdrReadCountChannel2 => 5,
        Statistic::DdrReadCountChannel3 => 6,
    }
}

impl Statistic {
    /// The query selector of this statistic counter.
    pub fn selector(&self) -> (r: u32)
        ensures
            r == statistic_selector_s(*self),
    {
        match self {
            Statistic::DroppedCommands => 0,
            Statistic::DdrReadMiss => 1,
            Statistic::DdrWriteMiss => 2,
            Statistic::DdrPushCount => 3,
            Statistic::DdrReadCountChannel1 => 4,
            Statistic::DdrReadCountChannel2 => 5,
            Statistic::DdrReadCountChannel3 => 6,
        }
    }
}

/// One snapshot of the device's statistic counters.
#[derive(Copy, Clone, Debug)]
pub struct Statistics {
    pub dropped_commands: u32,
    pub ddr_read_miss: u32,
    pub ddr_write_miss: u32,
    pub ddr_push_count: u32,
    pub ddr_read_count_channel_1: u32,
    pub ddr_read_count_channel_2: u32,
    pub ddr_read_count_channel_3: u32,
}

/// Backpressure policy of point uploads: flush every
/// `SET_POINTS_FLUSH_EVERY` packets; the upload queues are deep enough that
/// no poll is needed.
pub struct SetPointsBackoff;

impl<T: Transport> Backoff<T> for SetPointsBackoff {
    /// One flush mark exactly at every multiple of the upload cadence.
    open spec fn backoff_events(offset: usize) -> Seq<Event> {
        upload_flush_mark(offset)
    }

    fn backoff(fpga: &mut T, offset: usize) {
        if (offset % SET_POINTS_FLUSH_EVERY) == 0 {
            fpga.flush();
        }
        proof {
            assert(fpga.log() =~= old(fpga).log() + <Self as Backoff<T>>::backoff_events(offset));
            assert(old(fpga).reads() =~= fpga.reads().subrange(
                0,
                old(fpga).reads().len() as int,
            ));
        }
    }
}

/// Backpressure policy of digit streaming: every
/// `SET_DIGITS_FLUSH_BACKOFF_EVERY` packets, flush, then wait for the
/// digits-queue depth to fall to `BACKOFF_THRESHOLD` before going on. This is
/// the sole mechanism keeping the host from overrunning the device's digit
/// pipeline.
pub struct DigitsBackoff;

impl<T: Transport> Backoff<T> for DigitsBackoff {
    /// One flush mark exactly at every multiple of the digit cadence; the
    /// queue polls that follow extend only the read record.
    open spec fn backoff_events(offset: usize) -> Seq<Event> {
        digit_flush_mark(offset)
    }

    fn backoff(fpga: &mut T, offset: usize) {
        if (offset % SET_DIGITS_FLUSH_BACKOFF_EVERY) == 0 {
            fpga.flush();
            // A live device answers promptly; the counter only keeps the spin finite.
            let mut spins: u64 = 0;
            loop
                invariant
                    fpga.log() == old(fpga).log().push(Event::Flush),
                    old(fpga).reads().is_prefix_of(fpga.reads()),
                decreases u64::MAX - spins,
            {
                let ghost before = fpga.reads();
                let depth = fpga.read_register(READ_DIGITS_QUEUE);
                proof {
                    assert(before =~= fpga.reads().subrange(0, before.len() as int));
                }
                if depth <= BACKOFF_THRESHOLD {
                    break ;
                }
                if spins == u64::MAX {
                    break ;
                }
                spins += 1;
            }
            proof {
                assert(fpga.log() =~= old(fpga).log() + <Self as Backoff<T>>::backoff_events(offset));
            }
        } else {
            proof {
                assert(fpga.log() =~= old(fpga).log() + <Self as Backoff<T>>::backoff_events(offset));
                assert(old(fpga).reads() =~= fpga.reads().subrange(
                    0,
                    old(fpga).reads().len() as int,
                ));
            }
        }
    }
}

/// View of an extended twisted-Edwards projective point: the limbs of its
/// four coordinates.
pub type TeV = (FqV, FqV, FqV, FqV);

/// View of a preprocessed affine point: the limbs of its three coordinates.
pub type PpV = (FqV, FqV, FqV);

/// The identity accumulator view.
pub open spec fn te_zero_s() -> TeV {
    (fq_zero_s(), fq_one_s(), fq_one_s(), fq_zero_s())
}

/// The eight words of a coordinate upload packet: the six limbs in the low 48
/// bytes, the rest zero.
pub open spec fn coord_words(c: FqV) -> [u64; 8] {
    [c[0], c[1], c[2], c[3], c[4], c[5], 0u64, 0u64]
}

/// The coordinate a channel uploads from a preprocessed point.
pub open spec fn pp_coord(p: PpV, c: StreamChannel) -> FqV {
    match c {
        StreamChannel::SetY => p.1,
        StreamChannel::SetKT => p.2,
        _ => p.0,
    }
}

/// The flush mark the upload policy leaves after the write that brought the
/// cursor to `offset`.
pub open spec fn upload_flush_mark(offset: usize) -> Seq<Event> {
    if offset % SET_POINTS_FLUSH_EVERY == 0 {
        seq![Event::Flush]
    } else {
        Seq::empty()
    }
}

/// The flush mark the digit policy leaves after the write that brought the
/// cursor to `offset`.
pub open spec fn digit_flush_mark(offset: usize) -> Seq<Event> {
    if offset % SET_DIGITS_FLUSH_BACKOFF_EVERY == 0 {
        seq![Event::Flush]
    } else {
        Seq::empty()
    }
}

/// The history of the first `i` packets of one coordinate upload pass: each
/// packet at the next stream index from the channel's base, followed by the
/// upload policy's flush mark where its cadence falls.
pub open spec fn upload_events_upto(c: StreamChannel, ps: Seq<PpV>, i: int) -> Seq<Event>
    decreases i,
{
    if i <= 0 {
        Seq::empty()
    } else {
        upload_events_upto(c, ps, i - 1).push(
            Event::Packet {
                index: (channel_base_s(c) + (i - 1)) as usize,
                words: coord_words(pp_coord(ps[i - 1], c)),
            },
        ) + upload_flush_mark((channel_base_s(c) + i) as usize)
    }
}

/// One whole coordinate upload pass: every point's packet with the policy's
/// flush marks, and the drain when the stream ends.
pub open spec fn upload_pass_events(c: StreamChannel, ps: Seq<PpV>) -> Seq<Event> {
    upload_events_upto(c, ps, ps.len() as int) + seq![Event::Flush]
}

/// The full upload of a point array: an X pass, a Y pass, then a KT pass.
pub open spec fn set_points_events(ps: Seq<PpV>) -> Seq<Event> {
    upload_pass_events(StreamChannel::SetX, ps) + upload_pass_events(StreamChannel::SetY, ps)
        + upload_pass_events(StreamChannel::SetKT, ps)
}

/// The four identity packets of the reset channel, carrying the identity's
/// x, y, z and t coordinates in that order, then the closing drain.
pub open spec fn set_zero_events() -> Seq<Event> {
    Seq::new(
        4,
        |k: int|
            Event::Packet {
                index: (SET_ZERO_BASE + k) as usize,
                words: coord_words(
                    if k == 0 {
                        fq_zero_s()
                    } else if k == 3 {
                        fq_zero_s()
                    } else {
                        fq_one_s()
                    },
                ),
            },
    ) + seq![Event::Flush]
}

/// The writes of session setup: the four configuration registers, then the
/// identity reset.
pub open spec fn new_events(len: u32) -> Seq<Event> {
    seq![
        Event::Register { index: REG_MSM_LENGTH, value: len },
        Event::Register { index: REG_FIRST_BUCKET, value: FIRST_BUCKET },
        Event::Register { index: REG_LAST_BUCKET, value: LAST_BUCKET },
        Event::Register { index: REG_DDR_READ_LEN, value: DDR_READ_LEN },
    ] + set_zero_events()
}

/// The digit streamed for source entry `idx` of limb `i`, column `j`; beyond
/// the end of the source, a zero digit pads the final packet.
pub open spec fn digit_of(scalars: Seq<Scalar>, i: int, j: int, idx: int) -> i16 {
    if idx < scalars.len() {
        extracted_digit(scalars[idx], i, j) as i16
    } else {
        0i16
    }
}

/// The eight command words of digit packet `k`.
pub open spec fn digit_packet_words(scalars: Seq<Scalar>, i: int, j: int, k: int) -> [u64; 8] {
    [
        set_digit_s(digit_of(scalars, i, j, 8 * k)),
        set_digit_s(digit_of(scalars, i, j, 8 * k + 1)),
        set_digit_s(digit_of(scalars, i, j, 8 * k + 2)),
        set_digit_s(digit_of(scalars, i, j, 8 * k + 3)),
        set_digit_s(digit_of(scalars, i, j, 8 * k + 4)),
        set_digit_s(digit_of(scalars, i, j, 8 * k + 5)),
        set_digit_s(digit_of(scalars, i, j, 8 * k + 6)),
        set_digit_s(digit_of(scalars, i, j, 8 * k + 7)),
    ]
}

/// The history of the first `k` digit packets of one column: eight digits
/// per packet at consecutive stream indices after the start packet, with the
/// digit policy's flush marks where its cadence falls.
pub open spec fn digit_events_upto(scalars: Seq<Scalar>, i: int, j: int, k: int) -> Seq<Event>
    decreases k,
{
    if k <= 0 {
        Seq::empty()
    } else {
        digit_events_upto(scalars, i, j, k - 1).push(
            Event::Packet {
                index: (MSM_BASE + 1 + (k - 1)) as usize,
                words: digit_packet_words(scalars, i, j, k - 1),
            },
        ) + digit_flush_mark((MSM_BASE + 1 + k) as usize)
    }
}

/// All digit packets of one column, with the policy's flush marks.
pub open spec fn digit_events(scalars: Seq<Scalar>, i: int, j: int) -> Seq<Event> {
    digit_events_upto(scalars, i, j, ((scalars.len() + 7) / 8) as int)
}

/// The words of the start-column packet.
pub open spec fn start_column_words() -> [u64; 8] {
    [START_COLUMN_OPCODE, 0u64, 0u64, 0u64, 0u64, 0u64, 0u64, 0u64]
}

/// The packet opening a column, flushed at once.
pub open spec fn start_column_events() -> Seq<Event> {
    seq![
        Event::Packet { index: MSM_BASE, words: start_column_words() },
        Event::Flush,
    ]
}

/// The query writes of reading back one coordinate: its twelve 32-bit halves
/// are selected in order.
pub open spec fn coordinate_query_events() -> Seq<Event> {
    Seq::new(12, |q: int| Event::Register { index: REG_QUERY, value: q as u32 })
}

/// The history of fetching one aggregated point: a drain, the wait for the
/// readiness flag (whose polls go on the read record, not here), then four
/// coordinates read back,
/// twelve query selections each.
pub open spec fn get_point_events() -> Seq<Event> {
    seq![Event::Flush] + coordinate_query_events() + coordinate_query_events()
        + coordinate_query_events() + coordinate_query_events()
}

/// Everything one column dispatch writes: the start packet, the digit
/// packets, and the readback queries.
pub open spec fn subcolumn_events(scalars: Seq<Scalar>, i: int, j: int) -> Seq<Event> {
    start_column_events() + digit_events(scalars, i, j) + get_point_events()
}

/// The four column dispatches of limb `i`, highest column first.
pub open spec fn column_events(scalars: Seq<Scalar>, i: int) -> Seq<Event> {
    subcolumn_events(scalars, i, 3) + subcolumn_events(scalars, i, 2) + subcolumn_events(
        scalars,
        i,
        1,
    ) + subcolumn_events(scalars, i, 0)
}

/// Everything a full MSM writes: limb 0 streamed from the raw scalars, then
/// limbs 3, 2, 1 from the recoded scalars.
pub open spec fn msm_events(scalars: Seq<Scalar>) -> Seq<Event> {
    let carried = scalars.map_values(|s: Scalar| recoded_scalar(s));
    column_events(scalars, 0) + column_events(carried, 3) + column_events(carried, 2)
        + column_events(carried, 1)
}

/// One subcolumn's effect on the accumulator: add the fetched point, then
/// shift by 16 binary digit positions unless this is the final subcolumn of
/// the lowest limb.
pub open spec fn subcolumn_fold(acc: TeV, p: TeV, shift: bool) -> TeV {
    if shift {
        te_shifted_s(te_add_s(acc, p), 16)
    } else {
        te_add_s(acc, p)
    }
}

/// One limb's effect on the accumulator: its four fetched column sums folded
/// in Horner order, the final shift skipped only for limb 0.
pub open spec fn column_fold(acc: TeV, f: Seq<TeV>, i: int) -> TeV
    recommends
        f.len() == 4,
{
    subcolumn_fold(
        subcolumn_fold(subcolumn_fold(subcolumn_fold(acc, f[0], true), f[1], true), f[2], true),
        f[3],
        i != 0,
    )
}

/// The complete fold: limbs 3, 2, 1 accumulated and shifted up by 48 binary
/// digit positions, then limb 0's accumulator added.
pub open spec fn msm_fold(f0: Seq<TeV>, f3: Seq<TeV>, f2: Seq<TeV>, f1: Seq<TeV>) -> TeV {
    te_add_s(
        te_shifted_s(
            column_fold(column_fold(column_fold(te_zero_s(), f3, 3), f2, 2), f1, 1),
            48,
        ),
        column_fold(te_zero_s(), f0, 0),
    )
}

/// What a full MSM streams for one scalar: the digit carried for limb `i`,
/// column `j` of source entry `idx` - read from the raw scalar for limb 0
/// and from the recoded image for limbs 1 to 3, exactly as `msm_events`
/// records it - is the recoding chain digit of position `4*i + j`; and for
/// every scalar whose chain ends carry-free, those sixteen digits weighted
/// by `2^(64*i + 16*j)` recompose the scalar.
pub proof fn lemma_streamed_digits_recompose(scalars: Seq<Scalar>, carried: Seq<Scalar>, idx: int)
    requires
        0 <= idx < scalars.len(),
        carried == scalars.map_values(|s: Scalar| recoded_scalar(s)),
        crate::digits::carry_at(scalars[idx], 16) == 0,
    ensures
        forall|j: int|
            0 <= j < 4 ==> #[trigger] digit_of(scalars, 0, j, idx) as int
                == crate::digits::digit_at(scalars[idx], j),
        forall|i: int, j: int|
            1 <= i < 4 && 0 <= j < 4 ==> #[trigger] digit_of(carried, i, j, idx) as int
                == crate::digits::digit_at(scalars[idx], 4 * i + j),
        crate::digits::digits_value(scalars[idx], 16) == crate::digits::scalar_value(
            scalars[idx],
        ),
{
    crate::digits::lemma_recoder_bit_exact(scalars[idx]);
    assert forall|j: int| 0 <= j < 4 implies #[trigger] digit_of(scalars, 0, j, idx) as int
        == crate::digits::digit_at(scalars[idx], j) by {
        crate::digits::lemma_extracted_digit_in_range(scalars[idx], 0, j);
    }
    assert forall|i: int, j: int| 1 <= i < 4 && 0 <= j < 4 implies #[trigger] digit_of(
        carried,
        i,
        j,
        idx,
    ) as int == crate::digits::digit_at(scalars[idx], 4 * i + j) by {
        assert(carried[idx] == recoded_scalar(scalars[idx]));
        crate::digits::lemma_extracted_digit_in_range(carried[idx], i, j);
    }
}

/// Whether a history step is a packet write.
pub open spec fn is_packet(e: Event) -> bool {
    e is Packet
}

/// The packet writes of a history, flush marks and register writes dropped.
pub open spec fn packets_of(events: Seq<Event>) -> Seq<Event> {
    events.filter(|e: Event| is_packet(e))
}

/// A history without packet writes filters to nothing.
proof fn lemma_no_packets(s: Seq<Event>)
    requires
        forall|k: int| 0 <= k < s.len() ==> !is_packet(#[trigger] s[k]),
    ensures
        packets_of(s) == Seq::<Event>::empty(),
    decreases s.len(),
{
    reveal(Seq::filter);
    if s.len() != 0 {
        lemma_no_packets(s.drop_last());
    }
    assert(packets_of(s) =~= Seq::<Event>::empty());
}

/// Filtering the packets out of a one-packet history.
proof fn lemma_one_packet(e: Event)
    requires
        is_packet(e),
    ensures
        packets_of(seq![e]) == seq![e],
{
    reveal(Seq::filter);
    assert(packets_of(seq![e]) =~= seq![e]);
}

/// The packet writes of the first `i` upload packets, marks dropped.
proof fn lemma_upload_upto_packets(c: StreamChannel, ps: Seq<PpV>, i: int)
    requires
        0 <= i <= ps.len(),
    ensures
        packets_of(upload_events_upto(c, ps, i)) == Seq::new(
            i as nat,
            |k: int|
                Event::Packet {
                    index: (channel_base_s(c) + k) as usize,
                    words: coord_words(pp_coord(ps[k], c)),
                },
        ),
    decreases i,
{
    broadcast use vstd::seq_lib::group_filter_ensures;

    reveal(Seq::filter);
    if i == 0 {
        assert(packets_of(upload_events_upto(c, ps, 0)) =~= Seq::<Event>::empty());
        assert(packets_of(upload_events_upto(c, ps, 0)) =~= Seq::new(
            0,
            |k: int|
                Event::Packet {
                    index: (channel_base_s(c) + k) as usize,
                    words: coord_words(pp_coord(ps[k], c)),
                },
        ));
    } else {
        lemma_upload_upto_packets(c, ps, i - 1);
        let p = Event::Packet {
            index: (channel_base_s(c) + (i - 1)) as usize,
            words: coord_words(pp_coord(ps[i - 1], c)),
        };
        let prev = upload_events_upto(c, ps, i - 1);
        let mark = upload_flush_mark((channel_base_s(c) + i) as usize);
        Seq::filter_distributes_over_add(prev.push(p), mark, |e: Event| is_packet(e));
        Seq::filter_distributes_over_add(prev, seq![p], |e: Event| is_packet(e));
        assert(prev.push(p) =~= prev + seq![p]);
        lemma_one_packet(p);
        lemma_no_packets(mark);
        assert(packets_of(upload_events_upto(c, ps, i)) =~= packets_of(prev).push(p));
        assert(packets_of(prev).push(p) =~= Seq::new(
            i as nat,
            |k: int|
                Event::Packet {
                    index: (channel_base_s(c) + k) as usize,
                    words: coord_words(pp_coord(ps[k], c)),
                },
        ));
    }
}

/// Ordering of an upload pass: its packet writes are exactly one packet per
/// point, in point order, at the consecutive stream indices
/// `base, base + 1, ...` from the channel's base; everything else in its
/// history is flush marks.
pub proof fn lemma_upload_pass_ordering(c: StreamChannel, ps: Seq<PpV>)
    ensures
        packets_of(upload_pass_events(c, ps)) == Seq::new(
            ps.len(),
            |k: int|
                Event::Packet {
                    index: (channel_base_s(c) + k) as usize,
                    words: coord_words(pp_coord(ps[k], c)),
                },
        ),
{
    lemma_upload_upto_packets(c, ps, ps.len() as int);
    Seq::filter_distributes_over_add(
        upload_events_upto(c, ps, ps.len() as int),
        seq![Event::Flush],
        |e: Event| is_packet(e),
    );
    lemma_no_packets(seq![Event::Flush]);
    assert(packets_of(upload_pass_events(c, ps)) =~= packets_of(
        upload_events_upto(c, ps, ps.len() as int),
    ));
}

/// The packet writes of the first `k` digit packets, marks dropped.
proof fn lemma_digit_upto_packets(scalars: Seq<Scalar>, i: int, j: int, m: int)
    requires
        0 <= m,
    ensures
        packets_of(digit_events_upto(scalars, i, j, m)) == Seq::new(
            m as nat,
            |k: int|
                Event::Packet {
                    index: (MSM_BASE + 1 + k) as usize,
                    words: digit_packet_words(scalars, i, j, k),
                },
        ),
    decreases m,
{
    reveal(Seq::filter);
    if m == 0 {
        assert(packets_of(digit_events_upto(scalars, i, j, 0)) =~= Seq::<Event>::empty());
        assert(packets_of(digit_events_upto(scalars, i, j, 0)) =~= Seq::new(
            0,
            |k: int|
                Event::Packet {
                    index: (MSM_BASE + 1 + k) as usize,
                    words: digit_packet_words(scalars, i, j, k),
                },
        ));
    } else {
        lemma_digit_upto_packets(scalars, i, j, m - 1);
        let p = Event::Packet {
            index: (MSM_BASE + 1 + (m - 1)) as usize,
            words: digit_packet_words(scalars, i, j, m - 1),
        };
        let prev = digit_events_upto(scalars, i, j, m - 1);
        let mark = digit_flush_mark((MSM_BASE + 1 + m) as usize);
        Seq::filter_distributes_over_add(prev.push(p), mark, |e: Event| is_packet(e));
        Seq::filter_distributes_over_add(prev, seq![p], |e: Event| is_packet(e));
        assert(prev.push(p) =~= prev + seq![p]);
        lemma_one_packet(p);
        lemma_no_packets(mark);
        assert(packets_of(digit_events_upto(scalars, i, j, m)) =~= packets_of(prev).push(p));
        assert(packets_of(prev).push(p) =~= Seq::new(
            m as nat,
            |k: int|
                Event::Packet {
                    index: (MSM_BASE + 1 + k) as usize,
                    words: digit_packet_words(scalars, i, j, k),
                },
        ));
    }
}

/// Ordering of one column dispatch: its packet writes are exactly the one
/// start packet at the column channel's base, then `ceil(n / 8)` digit
/// packets at the consecutive indices after it; the rest of its history is
/// flush marks and the readback queries.
pub proof fn lemma_column_ordering(scalars: Seq<Scalar>, i: int, j: int)
    ensures
        packets_of(subcolumn_events(scalars, i, j)) == seq![
            Event::Packet { index: MSM_BASE, words: start_column_words() },
        ] + Seq::new(
            ((scalars.len() + 7) / 8) as nat,
            |k: int|
                Event::Packet {
                    index: (MSM_BASE + 1 + k) as usize,
                    words: digit_packet_words(scalars, i, j, k),
                },
        ),
{
    let m = ((scalars.len() + 7) / 8) as int;
    let start = Event::Packet { index: MSM_BASE, words: start_column_words() };
    lemma_digit_upto_packets(scalars, i, j, m);
    Seq::filter_distributes_over_add(
        start_column_events() + digit_events(scalars, i, j),
        get_point_events(),
        |e: Event| is_packet(e),
    );
    Seq::filter_distributes_over_add(
        start_column_events(),
        digit_events(scalars, i, j),
        |e: Event| is_packet(e),
    );
    assert(start_column_events() =~= seq![start] + seq![Event::Flush]);
    Seq::filter_distributes_over_add(seq![start], seq![Event::Flush], |e: Event| is_packet(e));
    lemma_one_packet(start);
    lemma_no_packets(seq![Event::Flush]);
    assert forall|k: int| 0 <= k < get_point_events().len() implies !is_packet(
        #[trigger] get_point_events()[k],
    ) by {}
    lemma_no_packets(get_point_events());
    assert(packets_of(subcolumn_events(scalars, i, j)) =~= seq![start] + packets_of(
        digit_events(scalars, i, j),
    ));
}

/// One 64-bit limb from its two 32-bit halves, low half first.
pub open spec fn combined_halves_s(lo: u32, hi: u32) -> u64 {
    (lo + hi * 0x1_0000_0000) as u64
}

/// Assemble one 64-bit limb from the two 32-bit halves the device answered.
pub fn combine_halves(lo: u32, hi: u32) -> (r: u64)
    ensures
        r == combined_halves_s(lo, hi),
{
    let r = ((hi as u64) << 32) | (lo as u64);
    proof {
        assert((((hi as u64) << 32) | (lo as u64)) == ((lo as u64) + (hi as u64)
            * 0x1_0000_0000)) by (bit_vector);
    }
    r
}

/// The read register the `q`-th of the 48 readback reads queries: twelve
/// halves each of X, Y, Z and T, in that order.
pub open spec fn readback_index_s(q: int) -> u32 {
    if q < 12 {
        READ_X
    } else if q < 24 {
        READ_Y
    } else if q < 36 {
        READ_Z
    } else {
        READ_T
    }
}

/// The value the `q`-th-from-the-end of the last 48 recorded reads answered.
pub open spec fn readback_value_s(rs: Seq<(u32, u32)>, q: int) -> u32 {
    rs[rs.len() - 48 + q].1
}

/// The limbs assembled from twelve recorded read values starting at
/// position `base` of the last 48: limb `m` combines halves `2m` and
/// `2m + 1`.
pub open spec fn assembled_limbs_s(rs: Seq<(u32, u32)>, base: int, c: FqV) -> bool {
    forall|m: int|
        0 <= m < 6 ==> #[trigger] c[m] == combined_halves_s(
            readback_value_s(rs, base + 2 * m),
            readback_value_s(rs, base + 2 * m + 1),
        )
}

/// Build the upload packet of one coordinate: its six limbs in the low 48
/// bytes, the rest zero.
fn coordinate_packet(c: &Fq) -> (r: Packet)
    ensures
        r.words == coord_words(c@),
{
    let r = Packet {
        words: [c.limbs[0], c.limbs[1], c.limbs[2], c.limbs[3], c.limbs[4], c.limbs[5], 0, 0],
    };
    proof {
        assert(r.words =~= coord_words(c@));
    }
    r
}

/// Host-side session: owns the transport, the fixed instance length
/// `n = 2^k`, and a pre-allocated carry scratch of `n` scalars. Created once;
/// lives across many MSM calls.
pub struct App<T: Transport> {
    /// The device transport, exclusively owned by the session.
    pub fpga: T,
    len: usize,
    carried: Vec<Scalar>,
    fetched: Ghost<Seq<TeV>>,
}

impl<T: Transport> App<T> {
    /// The session's fixed instance length and its scratch are consistent.
    pub closed spec fn wf(&self) -> bool {
        self.carried@.len() == self.len && 1 <= self.len <= 0x800_0000
    }

    /// The fixed instance length `n`.
    pub closed spec fn spec_len(&self) -> usize {
        self.len
    }

    /// The writes the session's transport has carried, in order.
    pub closed spec fn log(&self) -> Seq<Event> {
        self.fpga.log()
    }

    /// The register reads the session's transport has carried, in order:
    /// index queried and value answered.
    pub closed spec fn reads_view(&self) -> Seq<(u32, u32)> {
        self.fpga.reads()
    }

    /// The fixed instance length `n`.
    pub fn len(&self) -> (r: usize)
        ensures
            r == self.spec_len(),
    {
        self.len
    }

    /// Whether the instance length is zero (it never is: `n = 2^k >= 1`).
    pub fn is_empty(&self) -> (r: bool)
        ensures
            r == (self.spec_len() == 0),
    {
        self.len == 0
    }

    /// Create a session over a transport for instances of length `2^size`:
    /// configure the device's length and bucket range, then reset its
    /// accumulator to the identity.
    pub fn new(fpga: T, size: u8) -> (r: Self)
        requires
            size <= 27,
        ensures
            r.wf(),
            r.spec_len() == (1usize << size),
            r.log() == fpga.log() + new_events(1u32 << size),
    {
        let len: usize = 1usize << size;
        assert(1 <= len <= 0x800_0000) by (bit_vector)
            requires
                len == 1usize << size,
                size <= 27,
        ;
        let mut carried: Vec<Scalar> = Vec::new();
        let mut k: usize = 0;
        while k < len
            invariant
                carried@.len() == k,
                k <= len,
            decreases len - k,
        {
            carried.push([0u64, 0u64, 0u64, 0u64]);
            k += 1;
        }
        let mut app = App { fpga, len, carried, fetched: Ghost(Seq::empty()) };
        assert((1usize << size) as u32 == 1u32 << size) by (bit_vector)
            requires
                size <= 27,
        ;
        app.fpga.write_register(WriteRegister::MsmLength.index(), len as u32);
        app.fpga.write_register(WriteRegister::FirstBucket.index(), FIRST_BUCKET);
        app.fpga.write_register(WriteRegister::LastBucket.index(), LAST_BUCKET);
        app.fpga.write_register(WriteRegister::DdrReadLen.index(), DDR_READ_LEN);
        app.set_zero();
        proof {
            assert(app.fpga.log() =~= fpga.log() + new_events(1u32 << size));
            assert(app.log() == app.fpga.log());
        }
        app
    }

    /// Push the identity's four coordinates to the reset channel; the device
    /// treats the four-packet sequence as an opaque accumulator reset.
    fn set_zero(&mut self)
        ensures
            final(self).fpga.log() == old(self).fpga.log() + set_zero_events(),
            final(self).len == old(self).len,
            final(self).carried@ == old(self).carried@,
    {
        let zero = G1TEProjective::zero();
        let mut stream: Stream<T, crate::transport::NullBackoff> = Stream::new(SET_ZERO_BASE);
        let px = coordinate_packet(&zero.x);
        stream.write(&mut self.fpga, &px);
        let py = coordinate_packet(&zero.y);
        stream.write(&mut self.fpga, &py);
        let pz = coordinate_packet(&zero.z);
        stream.write(&mut self.fpga, &pz);
        let pt = coordinate_packet(&zero.t);
        stream.write(&mut self.fpga, &pt);
        self.fpga.flush();
        proof {
            assert(final(self).fpga.log() =~= old(self).fpga.log() + set_zero_events());
        }
    }


    /// Read back one 377-bit coordinate as twelve 32-bit halves, each
    /// selected through the query register. The halves are the device's
    /// answers; they go on the read record and the result is their assembly,
    /// low half first.
    fn get_coordinate(&mut self, coordinate: u32) -> (r: Fq)
        ensures
            final(self).fpga.log() == old(self).fpga.log() + coordinate_query_events(),
            final(self).fpga.reads().len() == old(self).fpga.reads().len() + 12,
            old(self).fpga.reads().is_prefix_of(final(self).fpga.reads()),
            forall|q: int|
                0 <= q < 12 ==> (#[trigger] final(self).fpga.reads()[old(
                    self,
                ).fpga.reads().len() + q]).0 == coordinate,
            forall|m: int|
                0 <= m < 6 ==> #[trigger] r@[m] == combined_halves_s(
                    final(self).fpga.reads()[old(self).fpga.reads().len() + 2 * m].1,
                    final(self).fpga.reads()[old(self).fpga.reads().len() + 2 * m + 1].1,
                ),
            final(self).len == old(self).len,
            final(self).carried@ == old(self).carried@,
    {
        let ghost base = old(self).fpga.reads().len() as int;
        let mut limbs = [0u64; 6];
        let mut j: usize = 0;
        while j < 6
            invariant
                j <= 6,
                base == old(self).fpga.reads().len(),
                self.fpga.log() == old(self).fpga.log() + coordinate_query_events().subrange(
                    0,
                    2 * j as int,
                ),
                self.fpga.reads().len() == base + 2 * j,
                old(self).fpga.reads().is_prefix_of(self.fpga.reads()),
                forall|q: int|
                    0 <= q < 2 * j ==> (#[trigger] self.fpga.reads()[base + q]).0 == coordinate,
                forall|m: int|
                    0 <= m < j ==> #[trigger] limbs@[m] == combined_halves_s(
                        self.fpga.reads()[base + 2 * m].1,
                        self.fpga.reads()[base + 2 * m + 1].1,
                    ),
                self.len == old(self).len,
                self.carried@ == old(self).carried@,
            decreases 6 - j,
        {
            self.fpga.write_register(REG_QUERY, (2 * j) as u32);
            let lo = self.fpga.read_register(coordinate);
            self.fpga.write_register(REG_QUERY, (2 * j + 1) as u32);
            let hi = self.fpga.read_register(coordinate);
            limbs[j] = combine_halves(lo, hi);
            proof {
                assert(self.fpga.log() =~= old(self).fpga.log()
                    + coordinate_query_events().subrange(0, 2 * (j + 1) as int));
                assert(old(self).fpga.reads() =~= self.fpga.reads().subrange(0, base));
            }
            j += 1;
        }
        proof {
            assert(coordinate_query_events().subrange(0, 12) =~= coordinate_query_events());
        }
        Fq { limbs }
    }

    /// Fetch the aggregated column sum: flush, wait for the device's
    /// readiness flag, then read the four coordinates back. The readiness
    /// polls and the 48 coordinate reads go on the read record, and the
    /// returned point is exactly the last 48 answered values assembled:
    /// twelve halves each of X, Y, Z and T, low half first.
    pub fn get_point(&mut self) -> (r: G1TEProjective)
        ensures
            final(self).log() == old(self).log() + get_point_events(),
            final(self).reads_view().len() >= old(self).reads_view().len() + 49,
            forall|q: int|
                old(self).reads_view().len() <= q < final(self).reads_view().len() - 48 ==> (
                #[trigger] final(self).reads_view()[q]).0 == READ_AGGREGATED,
            forall|q: int|
                0 <= q < 48 ==> (#[trigger] final(self).reads_view()[final(self).reads_view().len()
                    - 48 + q]).0 == readback_index_s(q),
            assembled_limbs_s(final(self).reads_view(), 0, r@.0),
            assembled_limbs_s(final(self).reads_view(), 12, r@.1),
            assembled_limbs_s(final(self).reads_view(), 24, r@.2),
            assembled_limbs_s(final(self).reads_view(), 36, r@.3),
            final(self).wf() == old(self).wf(),
            final(self).spec_len() == old(self).spec_len(),
            final(self).carried_view() == old(self).carried_view(),
    {
        self.fpga.flush();
        // A live device answers promptly; the counter only keeps the spin finite.
        let mut spins: u64 = 0;
        loop
            invariant_except_break
                self.fpga.log() == old(self).fpga.log().push(Event::Flush),
                self.fpga.reads().len() >= old(self).fpga.reads().len(),
                old(self).fpga.reads().is_prefix_of(self.fpga.reads()),
                forall|q: int|
                    old(self).fpga.reads().len() <= q < self.fpga.reads().len() ==> (
                    #[trigger] self.fpga.reads()[q]).0 == READ_AGGREGATED,
                self.len == old(self).len,
                self.carried@ == old(self).carried@,
            ensures
                self.fpga.log() == old(self).fpga.log().push(Event::Flush),
                self.fpga.reads().len() >= old(self).fpga.reads().len() + 1,
                old(self).fpga.reads().is_prefix_of(self.fpga.reads()),
                forall|q: int|
                    old(self).fpga.reads().len() <= q < self.fpga.reads().len() ==> (
                    #[trigger] self.fpga.reads()[q]).0 == READ_AGGREGATED,
                self.len == old(self).len,
                self.carried@ == old(self).carried@,
            decreases u64::MAX - spins,
        {
            let ghost before = self.fpga.reads();
            let v = self.fpga.read_register(READ_AGGREGATED);
            proof {
                assert(before =~= self.fpga.reads().subrange(0, before.len() as int));
            }
            if v != 0 {
                break ;
            }
            if spins == u64::MAX {
                break ;
            }
            spins += 1;
        }
        let ghost rp = self.fpga.reads();
        let x = self.get_coordinate(ReadRegister::X.index());
        let ghost rx = self.fpga.reads();
        let y = self.get_coordinate(ReadRegister::Y.index());
        let ghost ry = self.fpga.reads();
        let z = self.get_coordinate(ReadRegister::Z.index());
        let ghost rz = self.fpga.reads();
        let t = self.get_coordinate(ReadRegister::T.index());
        proof {
            assert(self.fpga.log() =~= old(self).fpga.log() + get_point_events());
            let rf = self.fpga.reads();
            let pe = rp.len() as int;
            assert(rx.len() == pe + 12 && ry.len() == pe + 24 && rz.len() == pe + 36 && rf.len()
                == pe + 48);
            assert forall|q: int| 0 <= q < pe + 12 implies rf[q] == rx[q] by {
                assert(rx[q] == ry.subrange(0, rx.len() as int)[q]);
                assert(ry[q] == rz.subrange(0, ry.len() as int)[q]);
                assert(rz[q] == rf.subrange(0, rz.len() as int)[q]);
            }
            assert forall|q: int| 0 <= q < pe + 24 implies rf[q] == ry[q] by {
                assert(ry[q] == rz.subrange(0, ry.len() as int)[q]);
                assert(rz[q] == rf.subrange(0, rz.len() as int)[q]);
            }
            assert forall|q: int| 0 <= q < pe + 36 implies rf[q] == rz[q] by {
                assert(rz[q] == rf.subrange(0, rz.len() as int)[q]);
            }
            assert forall|q: int| 0 <= q < pe implies rf[q] == rp[q] by {
                assert(rp[q] == rx.subrange(0, rp.len() as int)[q]);
            }
            assert forall|q: int|
                old(self).fpga.reads().len() <= q < rf.len() - 48 implies (#[trigger] rf[q]).0
                == READ_AGGREGATED by {}
            assert forall|q: int| 0 <= q < 48 implies (#[trigger] rf[rf.len() - 48 + q]).0
                == readback_index_s(q) by {
                if q < 12 {
                    assert(rx[rp.len() + q].0 == READ_X);
                    assert(rf[pe + q] == rx[pe + q]);
                } else if q < 24 {
                    assert(ry[rx.len() + (q - 12)].0 == READ_Y);
                    assert(rf[pe + q] == ry[pe + q]);
                } else if q < 36 {
                    assert(rz[ry.len() + (q - 24)].0 == READ_Z);
                    assert(rf[pe + q] == rz[pe + q]);
                } else {
                    assert(rf[rz.len() + (q - 36)].0 == READ_T);
                }
            }
            assert forall|m: int| 0 <= m < 6 implies #[trigger] x@[m] == combined_halves_s(
                readback_value_s(rf, 2 * m),
                readback_value_s(rf, 2 * m + 1),
            ) by {
                assert(rf[pe + 2 * m] == rx[pe + 2 * m]);
                assert(rf[pe + 2 * m + 1] == rx[pe + 2 * m + 1]);
            }
            assert forall|m: int| 0 <= m < 6 implies #[trigger] y@[m] == combined_halves_s(
                readback_value_s(rf, 12 + 2 * m),
                readback_value_s(rf, 12 + 2 * m + 1),
            ) by {
                assert(rf[pe + 12 + 2 * m] == ry[rx.len() + 2 * m]);
                assert(rf[pe + 12 + 2 * m + 1] == ry[rx.len() + 2 * m + 1]);
            }
            assert forall|m: int| 0 <= m < 6 implies #[trigger] z@[m] == combined_halves_s(
                readback_value_s(rf, 24 + 2 * m),
                readback_value_s(rf, 24 + 2 * m + 1),
            ) by {
                assert(rf[pe + 24 + 2 * m] == rz[ry.len() + 2 * m]);
                assert(rf[pe + 24 + 2 * m + 1] == rz[ry.len() + 2 * m + 1]);
            }
            assert forall|m: int| 0 <= m < 6 implies #[trigger] t@[m] == combined_halves_s(
                readback_value_s(rf, 36 + 2 * m),
                readback_value_s(rf, 36 + 2 * m + 1),
            ) by {}
        }
        G1TEProjective { x, y, z, t }
    }

    /// The recoded scalars left by the last MSM call.
    pub closed spec fn carried_view(&self) -> Seq<Scalar> {
        self.carried@
    }

    /// The sixteen column sums the device answered during the last MSM call,
    /// in dispatch order: limb 0's four columns (highest first), then limbs
    /// 3, 2 and 1. Each is the point `get_point` returned for that column -
    /// that is, the device's recorded read answers, assembled.
    pub closed spec fn fetched_view(&self) -> Seq<TeV> {
        self.fetched@
    }

    /// Read one statistic counter: select it through the query register, then
    /// read the statistic register. The count returned is exactly the value
    /// the device answered, as recorded.
    pub fn statistic(&mut self, statistic: Statistic) -> (r: u32)
        ensures
            final(self).log() == old(self).log().push(
                Event::Register { index: REG_QUERY, value: statistic_selector_s(statistic) },
            ),
            final(self).reads_view() == old(self).reads_view().push((READ_STATISTIC, r)),
            final(self).wf() == old(self).wf(),
            final(self).spec_len() == old(self).spec_len(),
            final(self).carried_view() == old(self).carried_view(),
    {
        self.fpga.write_register(REG_QUERY, statistic.selector());
        self.fpga.read_register(READ_STATISTIC)
    }

    /// Read a snapshot of all statistic counters, in selector order.
    pub fn statistics(&mut self) -> (r: Statistics)
        ensures
            final(self).log() == old(self).log() + Seq::new(
                7,
                |k: int| Event::Register { index: REG_QUERY, value: k as u32 },
            ),
            final(self).reads_view() == old(self).reads_view() + seq![
                (READ_STATISTIC, r.dropped_commands),
                (READ_STATISTIC, r.ddr_read_miss),
                (READ_STATISTIC, r.ddr_write_miss),
                (READ_STATISTIC, r.ddr_push_count),
                (READ_STATISTIC, r.ddr_read_count_channel_1),
                (READ_STATISTIC, r.ddr_read_count_channel_2),
                (READ_STATISTIC, r.ddr_read_count_channel_3),
            ],
            final(self).wf() == old(self).wf(),
            final(self).spec_len() == old(self).spec_len(),
            final(self).carried_view() == old(self).carried_view(),
    {
        let r = Statistics {
            dropped_commands: self.statistic(Statistic::DroppedCommands),
            ddr_read_miss: self.statistic(Statistic::DdrReadMiss),
            ddr_write_miss: self.statistic(Statistic::DdrWriteMiss),
            ddr_push_count: self.statistic(Statistic::DdrPushCount),
            ddr_read_count_channel_1: self.statistic(Statistic::DdrReadCountChannel1),
            ddr_read_count_channel_2: self.statistic(Statistic::DdrReadCountChannel2),
            ddr_read_count_channel_3: self.statistic(Statistic::DdrReadCountChannel3),
        };
        proof {
            assert(final(self).log() =~= old(self).log() + Seq::new(
                7,
                |k: int| Event::Register { index: REG_QUERY, value: k as u32 },
            ));
            assert(final(self).reads_view() =~= old(self).reads_view() + seq![
                (READ_STATISTIC, r.dropped_commands),
                (READ_STATISTIC, r.ddr_read_miss),
                (READ_STATISTIC, r.ddr_write_miss),
                (READ_STATISTIC, r.ddr_push_count),
                (READ_STATISTIC, r.ddr_read_count_channel_1),
                (READ_STATISTIC, r.ddr_read_count_channel_2),
                (READ_STATISTIC, r.ddr_read_count_channel_3),
            ]);
        }
        r
    }

    /// Stream one coordinate of every point over its upload channel, in point
    /// order at consecutive stream indices from the channel's base.
    fn set_coordinates(&mut self, coordinate: StreamChannel, points: &[G1PTEAffine])
        requires
            coordinate == StreamChannel::SetX || coordinate == StreamChannel::SetY || coordinate
                == StreamChannel::SetKT,
            points@.len() <= 0x800_0000,
        ensures
            final(self).fpga.log() == old(self).fpga.log() + upload_pass_events(
                coordinate,
                points@.map_values(|p: G1PTEAffine| p@),
            ),
            final(self).len == old(self).len,
            final(self).carried@ == old(self).carried@,
    {
        let ghost ps = points@.map_values(|p: G1PTEAffine| p@);
        let base = coordinate.base();
        let mut stream: Stream<T, SetPointsBackoff> = Stream::new(base);
        let n = points.len();
        let mut i: usize = 0;
        while i < n
            invariant
                n == points@.len(),
                n <= 0x800_0000,
                i <= n,
                base == channel_base_s(coordinate),
                base <= SET_KT_BASE,
                stream.offset == base + i,
                ps == points@.map_values(|p: G1PTEAffine| p@),
                self.fpga.log() == old(self).fpga.log() + upload_events_upto(
                    coordinate,
                    ps,
                    i as int,
                ),
                self.len == old(self).len,
                self.carried@ == old(self).carried@,
            decreases n - i,
        {
            let p = &points[i];
            let c = match coordinate {
                StreamChannel::SetY => p.y,
                StreamChannel::SetKT => p.kt,
                _ => p.x,
            };
            let packet = coordinate_packet(&c);
            stream.write(&mut self.fpga, &packet);
            proof {
                assert(points@.map_values(|q: G1PTEAffine| q@)[i as int] == points@[i as int]@);
                assert(self.fpga.log() =~= old(self).fpga.log() + upload_events_upto(
                    coordinate,
                    ps,
                    i + 1,
                ));
            }
            i += 1;
        }
        // a stream drains what it buffered when it ends
        self.fpga.flush();
        proof {
            assert(final(self).fpga.log() =~= old(self).fpga.log() + upload_pass_events(
                coordinate,
                ps,
            ));
        }
    }

    /// Upload a preprocessed point array: an X pass, a Y pass, then a KT
    /// pass, each one packet per point at consecutive stream indices.
    pub fn set_preprocessed_points(&mut self, points: &[G1PTEAffine])
        requires
            old(self).wf(),
            points@.len() == old(self).spec_len(),
        ensures
            final(self).log() == old(self).log() + set_points_events(
                points@.map_values(|p: G1PTEAffine| p@),
            ),
            final(self).wf(),
            final(self).spec_len() == old(self).spec_len(),
            final(self).carried_view() == old(self).carried_view(),
    {
        self.set_coordinates(StreamChannel::SetX, points);
        self.set_coordinates(StreamChannel::SetY, points);
        self.set_coordinates(StreamChannel::SetKT, points);
        proof {
            assert(final(self).log() =~= old(self).log() + set_points_events(
                points@.map_values(|p: G1PTEAffine| p@),
            ));
        }
    }

    /// Preprocess a Weierstrass-affine point array and upload it.
    pub fn set_points(&mut self, points: &[G1Affine])
        requires
            old(self).wf(),
            points@.len() == old(self).spec_len(),
        ensures
            final(self).log() == old(self).log() + set_points_events(
                points@.map_values(|p: G1Affine| preprocess_s(p@)),
            ),
            final(self).wf(),
            final(self).spec_len() == old(self).spec_len(),
            final(self).carried_view() == old(self).carried_view(),
    {
        let n = points.len();
        let mut pps: Vec<G1PTEAffine> = Vec::new();
        let mut i: usize = 0;
        while i < n
            invariant
                n == points@.len(),
                i <= n,
                pps@.len() == i,
                forall|k: int| 0 <= k < i ==> (#[trigger] pps@[k])@ == preprocess_s(points@[k]@),
            decreases n - i,
        {
            pps.push(preprocess(&points[i]));
            i += 1;
        }
        self.set_preprocessed_points(pps.as_slice());
        proof {
            assert(pps@.map_values(|p: G1PTEAffine| p@) =~= points@.map_values(
                |p: G1Affine| preprocess_s(p@),
            ));
        }
    }

    /// Upload one preprocessed point repeated over the whole instance.
    pub fn set_preprocessed_point_repeatedly(&mut self, point: &G1PTEAffine)
        requires
            old(self).wf(),
        ensures
            final(self).log() == old(self).log() + set_points_events(
                Seq::new(old(self).spec_len() as nat, |k: int| point@),
            ),
            final(self).wf(),
            final(self).spec_len() == old(self).spec_len(),
            final(self).carried_view() == old(self).carried_view(),
    {
        let n = self.len;
        let mut pps: Vec<G1PTEAffine> = Vec::new();
        let mut i: usize = 0;
        while i < n
            invariant
                i <= n,
                pps@.len() == i,
                forall|k: int| 0 <= k < i ==> (#[trigger] pps@[k]) == *point,
            decreases n - i,
        {
            pps.push(*point);
            i += 1;
        }
        self.set_preprocessed_points(pps.as_slice());
        proof {
            assert(pps@.map_values(|p: G1PTEAffine| p@) =~= Seq::new(
                old(self).spec_len() as nat,
                |k: int| point@,
            ));
        }
    }

    /// Open a digit-column stream: one start packet, flushed, with the cursor
    /// on the first digit packet's index.
    pub fn start_column(&mut self) -> (r: Stream<T, DigitsBackoff>)
        ensures
            final(self).log() == old(self).log() + start_column_events(),
            r.offset == MSM_BASE + 1,
            final(self).wf() == old(self).wf(),
            final(self).spec_len() == old(self).spec_len(),
            final(self).carried_view() == old(self).carried_view(),
    {
        let mut stream: Stream<T, DigitsBackoff> = Stream::new(MSM_BASE);
        let mut packet = Packet::new();
        packet.words[0] = START_COLUMN_OPCODE;
        proof {
            assert(packet.words =~= start_column_words());
        }
        stream.write(&mut self.fpga, &packet);
        proof {
            assert(digit_flush_mark((MSM_BASE + 1) as usize) =~= Seq::<Event>::empty());
        }
        self.fpga.flush();
        proof {
            assert(final(self).log() =~= old(self).log() + start_column_events());
        }
        stream
    }

    /// Dispatch one digit column: open the column, stream every source
    /// entry's digit for (`i`, `j`) eight to a packet (a zero digit padding
    /// the last), fetch the aggregated sum and fold it into the accumulator.
    fn subcolumn(
        &mut self,
        i: usize,
        j: usize,
        scalars: &[Scalar],
        total: &mut G1TEProjective,
        shift: bool,
    ) -> (fetched: Ghost<TeV>)
        requires
            i < 4,
            j < 4,
            scalars@.len() <= 0x800_0000,
        ensures
            final(self).fpga.log() == old(self).fpga.log() + subcolumn_events(
                scalars@,
                i as int,
                j as int,
            ),
            final(total)@ == subcolumn_fold(old(total)@, fetched@, shift),
            final(self).len == old(self).len,
            final(self).carried@ == old(self).carried@,
    {
        let mut stream = self.start_column();
        let n = scalars.len();
        let m = (n + 7) / 8;
        let mut k: usize = 0;
        while k < m
            invariant
                n == scalars@.len(),
                n <= 0x800_0000,
                m == (n + 7) / 8,
                i < 4,
                j < 4,
                k <= m,
                stream.offset == MSM_BASE + 1 + k,
                self.fpga.log() == old(self).fpga.log() + start_column_events()
                    + digit_events_upto(scalars@, i as int, j as int, k as int),
                self.len == old(self).len,
                self.carried@ == old(self).carried@,
            decreases m - k,
        {
            let mut words = [0u64; 8];
            let mut s: usize = 0;
            while s < 8
                invariant
                    s <= 8,
                    i < 4,
                    j < 4,
                    n == scalars@.len(),
                    k < m,
                    m == (n + 7) / 8,
                    n <= 0x800_0000,
                    forall|q: int|
                        0 <= q < s ==> words@[q] == set_digit_s(
                            digit_of(scalars@, i as int, j as int, 8 * (k as int) + q),
                        ),
                decreases 8 - s,
            {
                let idx = 8 * k + s;
                let d: Digit = if idx < n {
                    single_digit_carry(&scalars[idx], i, j)
                } else {
                    0
                };
                proof {
                    if idx < n {
                        crate::digits::lemma_extracted_digit_in_range(
                            scalars@[idx as int],
                            i as int,
                            j as int,
                        );
                    }
                }
                words[s] = Command::set_digit(d);
                s += 1;
            }
            let packet = Packet { words };
            proof {
                assert(packet.words =~= digit_packet_words(scalars@, i as int, j as int, k as int));
            }
            stream.write(&mut self.fpga, &packet);
            proof {
                assert(self.fpga.log() =~= old(self).fpga.log() + start_column_events()
                    + digit_events_upto(scalars@, i as int, j as int, k + 1));
            }
            k += 1;
        }
        let point = self.get_point();
        let ghost fetched = point@;
        *total = te_add(&*total, &point);
        if shift {
            shl_assign(total, 16);
        }
        proof {
            assert(self.fpga.log() =~= old(self).fpga.log() + subcolumn_events(
                scalars@,
                i as int,
                j as int,
            ));
        }
        Ghost(fetched)
    }

    /// Dispatch the four digit columns of limb `i`, highest first, folding
    /// each fetched sum into the accumulator in Horner order; the final
    /// 16-position shift is skipped only on limb 0's last column.
    fn column(&mut self, i: usize, scalars: &[Scalar], total: &mut G1TEProjective) -> (fetched:
        Ghost<Seq<TeV>>)
        requires
            i < 4,
            scalars@.len() <= 0x800_0000,
        ensures
            final(self).fpga.log() == old(self).fpga.log() + column_events(scalars@, i as int),
            fetched@.len() == 4,
            final(total)@ == column_fold(old(total)@, fetched@, i as int),
            final(self).len == old(self).len,
            final(self).carried@ == old(self).carried@,
    {
        let g3 = self.subcolumn(i, 3, scalars, total, true);
        let g2 = self.subcolumn(i, 2, scalars, total, true);
        let g1 = self.subcolumn(i, 1, scalars, total, true);
        let g0 = self.subcolumn(i, 0, scalars, total, i != 0);
        let ghost f = seq![g3@, g2@, g1@, g0@];
        proof {
            assert(final(self).fpga.log() =~= old(self).fpga.log() + column_events(
                scalars@,
                i as int,
            ));
        }
        Ghost(f)
    }

    /// Perform a full MSM over the uploaded points: recode the scalars into
    /// the carry scratch, dispatch limb 0 from the raw scalars and limbs 3,
    /// 2, 1 from the recoded ones, then fold the accumulators and convert to
    /// Weierstrass form. The digits streamed, in order, are pinned against
    /// the transport log; the result is the exact fold of whatever column
    /// sums the device answered.
    #[verifier::rlimit(100)]
    pub fn msm(&mut self, scalars: &[Scalar]) -> (r: G1Projective)
        requires
            old(self).wf(),
            scalars@.len() == old(self).spec_len(),
        ensures
            final(self).wf(),
            final(self).spec_len() == old(self).spec_len(),
            final(self).log() == old(self).log() + msm_events(scalars@),
            final(self).carried_view() == scalars@.map_values(|s: Scalar| recoded_scalar(s)),
            final(self).fetched_view().len() == 16,
            r@ == into_weierstrass_s(
                msm_fold(
                    final(self).fetched_view().subrange(0, 4),
                    final(self).fetched_view().subrange(4, 8),
                    final(self).fetched_view().subrange(8, 12),
                    final(self).fetched_view().subrange(12, 16),
                ),
            ),
    {
        let mut carried: Vec<Scalar> = Vec::new();
        core::mem::swap(&mut carried, &mut self.carried);
        limb_carries(scalars, &mut carried);
        let mut total = G1TEProjective::zero();
        let mut total0 = G1TEProjective::zero();
        let g0 = self.column(0, scalars, &mut total0);
        let g3 = self.column(3, carried.as_slice(), &mut total);
        let g2 = self.column(2, carried.as_slice(), &mut total);
        let g1 = self.column(1, carried.as_slice(), &mut total);
        shl_assign(&mut total, 48);
        total = te_add(&total, &total0);
        let r = into_weierstrass(&total);
        core::mem::swap(&mut carried, &mut self.carried);
        self.fetched = Ghost(g0@ + g3@ + g2@ + g1@);
        proof {
            assert(self.carried@ =~= scalars@.map_values(|s: Scalar| recoded_scalar(s)));
            assert(final(self).fpga.log() =~= old(self).fpga.log() + msm_events(scalars@));
            assert(self.fetched@.subrange(0, 4) =~= g0@);
            assert(self.fetched@.subrange(4, 8) =~= g3@);
            assert(self.fetched@.subrange(8, 12) =~= g2@);
            assert(self.fetched@.subrange(12, 16) =~= g1@);
            assert(r@ == into_weierstrass_s(msm_fold(g0@, g3@, g2@, g1@)));
        }
        r
    }
}

} // verus!
