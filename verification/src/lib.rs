//! Host-side driver for an FPGA accelerator computing multi-scalar
//! multiplications (MSMs) on the G1 subgroup of the BLS12-377 curve.
//!
//! Steps:
//! - preprocess points into the accelerator's twisted-Edwards form, stream them over
//! - recode scalars into signed 16-bit digit columns, stream them column-wise
//! - gather and aggregate the per-column sums into the final point
//!
//! Points are fixed across many MSM calls, so the lengthy point preprocessing is
//! amortized, whereas the scalar recoding runs once per instance.

pub mod app;
pub mod digits;
pub mod fq;
pub mod null;
pub mod preprocess;
pub mod testing;
pub mod transport;

use vstd::prelude::*;

verus! {

/// Failure to attach a device transport.
#[derive(Clone, Copy, Debug, PartialEq, Eq)]
pub enum Error {
    /// The hardware drivers require running with elevated privileges.
    SudoRequired,
}

/// Transport constructor independent of any hardware: attaching the mock
/// transport cannot fail.
pub fn fpga() -> (r: Result<null::Null, Error>)
    ensures
        r is Ok,
        r->Ok_0.log() == Seq::<transport::Event>::empty(),
{
    Ok(null::Null::new())
}

} // verus!

pub use digits::{limb_carries, single_digit_carry, Digit, Limb, Scalar};
pub use fq::Fq;
pub use app::{App, Command, DigitsBackoff, ReadRegister, SetPointsBackoff, Statistic, Statistics, StreamChannel, WriteRegister};
pub use testing::{noconflict_column16, noconflict_digits, noconflict_scalars, zero_scalars};
pub use null::Null;
pub use transport::{Backoff, Event, NullBackoff, Packet, Stream, Transport};
pub use preprocess::{batch_preprocess, into_weierstrass, preprocess, preprocess_points, G1Affine, G1PTEAffine, G1Projective, G1TEProjective, PreprocessedAffine};
