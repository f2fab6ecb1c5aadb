//! The stored calibration of a channel pair.
use vstd::prelude::*;

use crate::double::{Double, Single};
use crate::gate::{cal_key, key_text};
use crate::json::opt_text;
use crate::config::copy_opt;
use crate::tau::TauEntry;

verus! {

/// A microphone's deviation from flat, point by point.
#[derive(Debug)]
pub struct MicResponse {
    pub freqs_hz: Vec<Single>,
    pub gain_db: Vec<Single>,
    pub source_path: Option<String>,
    pub imported_at: String,
}

/// What is stored for one pair of channels.
#[derive(Debug)]
pub struct Calibration {
    pub output_channel: u32,
    pub input_channel: u32,
    pub vrms_at_0dbfs_out: Option<Double>,
    pub vrms_at_0dbfs_in: Option<Double>,
    pub ref_freq: Double,
    pub ref_dbfs: Double,
    pub mic_sensitivity_dbfs_at_94db_spl: Option<Double>,
    pub mic_response: Option<MicResponse>,
    pub tau_history: Vec<TauEntry>,
}

impl Calibration {
    /// The key that the entry is stored under.
    pub fn key(&self) -> (r: String)
        ensures
            r@ == key_text(self.output_channel, self.input_channel),
    {
        cal_key(self.output_channel, self.input_channel)
    }
}

/// Where a microphone curve came from.
#[derive(Debug)]
pub struct MicResponseRef {
    pub n_points: usize,
    pub source_path: Option<String>,
    pub imported_at: String,
}

/// The part of a calibration that a report archives. Of the microphone curve
/// it holds the provenance, not the points.
#[derive(Debug)]
pub struct CalibrationSnapshot {
    pub output_channel: u32,
    pub input_channel: u32,
    pub vrms_at_0dbfs_out: Option<Double>,
    pub vrms_at_0dbfs_in: Option<Double>,
    pub ref_freq_hz: Double,
    pub ref_level_dbfs: Double,
    pub mic_sensitivity_dbfs_at_94db_spl: Option<Double>,
    pub mic_response: Option<MicResponseRef>,
}

impl MicResponseRef {
    /// The provenance is that of the curve.
    pub open spec fn refers_to(&self, r: &MicResponse) -> bool {
        &&& self.n_points == r.freqs_hz@.len()
        &&& opt_text(self.source_path) == opt_text(r.source_path)
        &&& self.imported_at@ == r.imported_at@
    }
}

impl CalibrationSnapshot {
    /// The snapshot is that of the calibration.
    pub open spec fn records(&self, c: &Calibration) -> bool {
        &&& self.output_channel == c.output_channel
        &&& self.input_channel == c.input_channel
        &&& self.vrms_at_0dbfs_out == c.vrms_at_0dbfs_out
        &&& self.vrms_at_0dbfs_in == c.vrms_at_0dbfs_in
        &&& self.ref_freq_hz == c.ref_freq
        &&& self.ref_level_dbfs == c.ref_dbfs
        &&& self.mic_sensitivity_dbfs_at_94db_spl == c.mic_sensitivity_dbfs_at_94db_spl
        &&& match (self.mic_response, c.mic_response) {
            (Some(s), Some(r)) => s.refers_to(&r),
            (None, None) => true,
            _ => false,
        }
    }
}

/// The snapshot of a loaded calibration; none where none was loaded.
pub fn snapshot_from_cal(cal: &Option<Calibration>) -> (r: Option<CalibrationSnapshot>)
    ensures
        match (r, *cal) {
            (Some(s), Some(c)) => s.records(&c),
            (None, None) => true,
            _ => false,
        },
{
    match cal {
        None => None,
        Some(c) => Some(
            CalibrationSnapshot {
                output_channel: c.output_channel,
                input_channel: c.input_channel,
                vrms_at_0dbfs_out: c.vrms_at_0dbfs_out,
                vrms_at_0dbfs_in: c.vrms_at_0dbfs_in,
                ref_freq_hz: c.ref_freq,
                ref_level_dbfs: c.ref_dbfs,
                mic_sensitivity_dbfs_at_94db_spl: c.mic_sensitivity_dbfs_at_94db_spl,
                mic_response: match &c.mic_response {
                    None => None,
                    Some(r) => Some(
                        MicResponseRef {
                            n_points: r.freqs_hz.len(),
                            source_path: copy_opt(&r.source_path),
                            imported_at: r.imported_at.clone(),
                        },
                    ),
                },
            },
        ),
    }
}

/// A report's snapshot of a calibration keeps each value under its own name,
/// and of the curve where it came from and how many points it has.
pub proof fn a_snapshot_keeps_each_value(s: CalibrationSnapshot, c: Calibration)
    requires
        s.records(&c),
    ensures
        s.output_channel == c.output_channel,
        s.input_channel == c.input_channel,
        s.vrms_at_0dbfs_out == c.vrms_at_0dbfs_out,
        s.vrms_at_0dbfs_in == c.vrms_at_0dbfs_in,
        s.ref_freq_hz == c.ref_freq,
        s.ref_level_dbfs == c.ref_dbfs,
        s.mic_sensitivity_dbfs_at_94db_spl == c.mic_sensitivity_dbfs_at_94db_spl,
        s.mic_response is Some <==> c.mic_response is Some,
        c.mic_response matches Some(curve) ==> s.mic_response->0.n_points == curve.freqs_hz@.len()
            && s.mic_response->0.imported_at@ == curve.imported_at@ && opt_text(
            s.mic_response->0.source_path,
        ) == opt_text(curve.source_path),
{
}

} // verus!
