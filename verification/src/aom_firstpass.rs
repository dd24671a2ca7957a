//! The first-pass statistics record: 27 little-endian 64-bit fields per
//! frame, read from the scene detector's statistics stream.

use crate::binary64::{to_u64, truncated};
use crate::frame::ByteSource;
use vstd::prelude::*;

verus! {

/// Bytes in one record.
pub const RECORD_LEN: usize = 216;

/// Why no record was read.
#[derive(PartialEq, Eq, Debug, Copy, Clone, Structural)]
pub enum StatsError {
    /// The stream ends where a record would begin.
    EndOfStream,
    /// The stream ends inside a record.
    Truncated,
}

/// One frame's statistics. Every field but `is_flash` holds the bit
/// pattern of a binary64 number.
#[allow(non_snake_case)]
#[derive(PartialEq, Eq, Debug, Copy, Clone, Structural)]
pub struct AomFirstpass {
    /// Frame number in display order.
    pub frame: u64,
    /// Weight of the frame by intra and brightness factors.
    pub weight: u64,
    /// Intra prediction error.
    pub intra_error: u64,
    /// Average wavelet energy of the frame.
    pub frame_avg_wavelet_energy: u64,
    /// Best of intra and inter prediction error, last frame as reference.
    pub coded_error: u64,
    /// Best of intra and inter prediction error, golden frame as reference.
    pub sr_coded_error: u64,
    /// Share of blocks whose inter prediction error is below the intra one.
    pub pcnt_inter: u64,
    /// Share of blocks with a motion vector other than zero.
    pub pcnt_motion: u64,
    /// Share of blocks that the golden frame predicts best.
    pub pcnt_second_ref: u64,
    /// Weighted share of blocks whose intra and inter errors are close.
    pub pcnt_neutral: u64,
    /// Share of blocks with almost no intra residual.
    pub intra_skip_pct: u64,
    /// Masked rows at the top and bottom.
    pub inactive_zone_rows: u64,
    /// Masked columns at the left and right.
    pub inactive_zone_cols: u64,
    /// Mean of the row motion vectors.
    pub MVr: u64,
    /// Mean of the absolute row motion vectors.
    pub mvr_abs: u64,
    /// Mean of the column motion vectors.
    pub MVc: u64,
    /// Mean of the absolute column motion vectors.
    pub mvc_abs: u64,
    /// Variance of the row motion vectors.
    pub MVrv: u64,
    /// Variance of the column motion vectors.
    pub MVcv: u64,
    /// Balance of motion vectors that point inwards and outwards.
    pub mv_in_out_count: u64,
    /// Count of distinct motion vectors other than zero.
    pub new_mv_count: u64,
    /// Duration of the frame.
    pub duration: u64,
    /// Number of frames that the record stands for.
    pub count: u64,
    /// Standard deviation of the zero-motion prediction error.
    pub raw_error_stdev: u64,
    /// Whether the frame holds a flash, as a signed integer.
    pub is_flash: i64,
    /// Estimated noise variance.
    pub noise_var: u64,
    /// Correlation with the frame before.
    pub cor_coeff: u64,
}

/// The 64-bit number that the eight bytes from `at` on write, least
/// significant byte first.
pub open spec fn le_u64(bytes: Seq<u8>, at: int) -> u64 {
    (bytes[at] + bytes[at + 1] * 0x100 + bytes[at + 2] * 0x1_0000 + bytes[at + 3] * 0x100_0000
        + bytes[at + 4] * 0x1_0000_0000 + bytes[at + 5] * 0x100_0000_0000 + bytes[at + 6]
        * 0x1_0000_0000_0000 + bytes[at + 7] * 0x100_0000_0000_0000) as u64
}

/// The signed number with the two's complement pattern `bits`.
pub open spec fn signed(bits: u64) -> i64 {
    if bits < 0x8000_0000_0000_0000 {
        bits as i64
    } else {
        (bits - 0x1_0000_0000_0000_0000) as i64
    }
}

/// The record that the first 216 bytes of `bytes` hold.
pub open spec fn record_of(bytes: Seq<u8>) -> AomFirstpass {
    AomFirstpass {
        frame: le_u64(bytes, 0),
        weight: le_u64(bytes, 8),
        intra_error: le_u64(bytes, 16),
        frame_avg_wavelet_energy: le_u64(bytes, 24),
        coded_error: le_u64(bytes, 32),
        sr_coded_error: le_u64(bytes, 40),
        pcnt_inter: le_u64(bytes, 48),
        pcnt_motion: le_u64(bytes, 56),
        pcnt_second_ref: le_u64(bytes, 64),
        pcnt_neutral: le_u64(bytes, 72),
        intra_skip_pct: le_u64(bytes, 80),
        inactive_zone_rows: le_u64(bytes, 88),
        inactive_zone_cols: le_u64(bytes, 96),
        MVr: le_u64(bytes, 104),
        mvr_abs: le_u64(bytes, 112),
        MVc: le_u64(bytes, 120),
        mvc_abs: le_u64(bytes, 128),
        MVrv: le_u64(bytes, 136),
        MVcv: le_u64(bytes, 144),
        mv_in_out_count: le_u64(bytes, 152),
        new_mv_count: le_u64(bytes, 160),
        duration: le_u64(bytes, 168),
        count: le_u64(bytes, 176),
        raw_error_stdev: le_u64(bytes, 184),
        is_flash: signed(le_u64(bytes, 192)),
        noise_var: le_u64(bytes, 200),
        cor_coeff: le_u64(bytes, 208),
    }
}

/// What reading one record from `stream` gives.
pub open spec fn read_record(stream: Seq<u8>) -> Result<AomFirstpass, StatsError> {
    if stream.len() == 0 {
        Err(StatsError::EndOfStream)
    } else if stream.len() < RECORD_LEN {
        Err(StatsError::Truncated)
    } else {
        Ok(record_of(stream))
    }
}

fn field(bytes: &[u8], at: usize) -> (value: u64)
    requires
        at + 8 <= bytes@.len(),
    ensures
        value == le_u64(bytes@, at as int),
{
    (bytes[at] as u64) + (bytes[at + 1] as u64) * 0x100 + (bytes[at + 2] as u64) * 0x1_0000 + (
    bytes[at + 3] as u64) * 0x100_0000 + (bytes[at + 4] as u64) * 0x1_0000_0000 + (bytes[at
        + 5] as u64) * 0x100_0000_0000 + (bytes[at + 6] as u64) * 0x1_0000_0000_0000 + (bytes[at
        + 7] as u64) * 0x100_0000_0000_0000
}

fn signed_field(bytes: &[u8], at: usize) -> (value: i64)
    requires
        at + 8 <= bytes@.len(),
    ensures
        value == signed(le_u64(bytes@, at as int)),
{
    let bits = field(bytes, at);
    if bits < 0x8000_0000_0000_0000 {
        bits as i64
    } else {
        ((bits - 0x8000_0000_0000_0000) as i64) + i64::MIN
    }
}

impl AomFirstpass {
    /// The record whose fields are all zero.
    pub fn empty() -> (record: AomFirstpass)
        ensures
            record == record_of(Seq::new(RECORD_LEN as nat, |i: int| 0u8)),
    {
        AomFirstpass {
            frame: 0,
            weight: 0,
            intra_error: 0,
            frame_avg_wavelet_energy: 0,
            coded_error: 0,
            sr_coded_error: 0,
            pcnt_inter: 0,
            pcnt_motion: 0,
            pcnt_second_ref: 0,
            pcnt_neutral: 0,
            intra_skip_pct: 0,
            inactive_zone_rows: 0,
            inactive_zone_cols: 0,
            MVr: 0,
            mvr_abs: 0,
            MVc: 0,
            mvc_abs: 0,
            MVrv: 0,
            MVcv: 0,
            mv_in_out_count: 0,
            new_mv_count: 0,
            duration: 0,
            count: 0,
            raw_error_stdev: 0,
            is_flash: 0,
            noise_var: 0,
            cor_coeff: 0,
        }
    }

    /// The frame's number as an integer: the `frame` field cut to its whole
    /// part.
    pub open spec fn frame_index(&self) -> int {
        truncated(self.frame)
    }

    /// The frame's number as an integer.
    pub fn frame_number(&self) -> (n: u64)
        ensures
            n == self.frame_index(),
    {
        to_u64(self.frame)
    }

    /// Reads the next record from `reader`. A stream that ends before the
    /// record is complete is taken to its end.
    pub fn read_aom_firstpass(reader: &mut ByteSource) -> (record: Result<AomFirstpass, StatsError>)
        ensures
            record == read_record(old(reader)@),
            final(reader)@ == if old(reader)@.len() >= RECORD_LEN {
                old(reader)@.skip(RECORD_LEN as int)
            } else {
                Seq::<u8>::empty()
            },
    {
        let ghost stream = reader@;
        if reader.len() == 0 {
            assert(stream =~= Seq::<u8>::empty());
            return Err(StatsError::EndOfStream);
        }
        let bytes = match reader.read_exact(RECORD_LEN) {
            Some(b) => b,
            None => {
                return Err(StatsError::Truncated);
            },
        };
        let b = bytes.as_slice();
        assert(forall|i: int| 0 <= i < RECORD_LEN ==> b@[i] == stream[i]);
        Ok(
            AomFirstpass {
                frame: field(b, 0),
                weight: field(b, 8),
                intra_error: field(b, 16),
                frame_avg_wavelet_energy: field(b, 24),
                coded_error: field(b, 32),
                sr_coded_error: field(b, 40),
                pcnt_inter: field(b, 48),
                pcnt_motion: field(b, 56),
                pcnt_second_ref: field(b, 64),
                pcnt_neutral: field(b, 72),
                intra_skip_pct: field(b, 80),
                inactive_zone_rows: field(b, 88),
                inactive_zone_cols: field(b, 96),
                MVr: field(b, 104),
                mvr_abs: field(b, 112),
                MVc: field(b, 120),
                mvc_abs: field(b, 128),
                MVrv: field(b, 136),
                MVcv: field(b, 144),
                mv_in_out_count: field(b, 152),
                new_mv_count: field(b, 160),
                duration: field(b, 168),
                count: field(b, 176),
                raw_error_stdev: field(b, 184),
                is_flash: signed_field(b, 192),
                noise_var: field(b, 200),
                cor_coeff: field(b, 208),
            },
        )
    }
}

} // verus!
