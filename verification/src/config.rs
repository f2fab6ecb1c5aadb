//! The daemon's configuration.
use vstd::prelude::*;

use crate::double::Double;
use crate::json::opt_text;

verus! {

/// The configuration that commands read and `setup` changes.
///
/// Each leg has a channel index and an optional sticky port name. Playback and
/// capture indices are unrelated spaces: `output_channel` and
/// `reference_output_channel` count playback ports, `input_channel` and
/// `reference_channel` count capture ports.
#[derive(Debug)]
pub struct Config {
    pub output_channel: u32,
    pub input_channel: u32,
    pub output_port: Option<String>,
    pub input_port: Option<String>,
    pub reference_channel: Option<u32>,
    pub reference_port: Option<String>,
    pub reference_output_channel: Option<u32>,
    pub reference_output_port: Option<String>,
    pub report_dir: Option<String>,
    pub snapshot_spool_dir: Option<String>,
    pub dbu_ref_vrms: Double,
    pub server_enabled: bool,
    pub backend: Option<String>,
    pub dmm_host: Option<String>,
    pub server_idle_timeout_secs: Option<u64>,
    pub snapshot_ring_s: Double,
    pub temperature_c: Option<Double>,
    /// The highest level that a plot drives.
    pub drive_max_dbfs: Double,
    pub device: u32,
}

/// What a configuration holds.
#[verifier::ext_equal]
pub struct ConfigV {
    pub output_channel: u32,
    pub input_channel: u32,
    pub output_port: Option<Seq<char>>,
    pub input_port: Option<Seq<char>>,
    pub reference_channel: Option<u32>,
    pub reference_port: Option<Seq<char>>,
    pub reference_output_channel: Option<u32>,
    pub reference_output_port: Option<Seq<char>>,
    pub report_dir: Option<Seq<char>>,
    pub snapshot_spool_dir: Option<Seq<char>>,
    pub dbu_ref_vrms: Double,
    pub server_enabled: bool,
    pub backend: Option<Seq<char>>,
    pub dmm_host: Option<Seq<char>>,
    pub server_idle_timeout_secs: Option<u64>,
    pub snapshot_ring_s: Double,
    pub temperature_c: Option<Double>,
    pub drive_max_dbfs: Double,
    pub device: u32,
}

/// A copy of an optional string.
pub fn copy_opt(s: &Option<String>) -> (r: Option<String>)
    ensures
        opt_text(r) == opt_text(*s),
{
    match s {
        Some(s) => Some(s.clone()),
        None => None,
    }
}

impl Config {
    pub open spec fn view(&self) -> ConfigV {
        ConfigV {
            output_channel: self.output_channel,
            input_channel: self.input_channel,
            output_port: opt_text(self.output_port),
            input_port: opt_text(self.input_port),
            reference_channel: self.reference_channel,
            reference_port: opt_text(self.reference_port),
            reference_output_channel: self.reference_output_channel,
            reference_output_port: opt_text(self.reference_output_port),
            report_dir: opt_text(self.report_dir),
            snapshot_spool_dir: opt_text(self.snapshot_spool_dir),
            dbu_ref_vrms: self.dbu_ref_vrms,
            server_enabled: self.server_enabled,
            backend: opt_text(self.backend),
            dmm_host: opt_text(self.dmm_host),
            server_idle_timeout_secs: self.server_idle_timeout_secs,
            snapshot_ring_s: self.snapshot_ring_s,
            temperature_c: self.temperature_c,
            drive_max_dbfs: self.drive_max_dbfs,
            device: self.device,
        }
    }

    /// A copy that holds the same.
    pub fn copy(&self) -> (r: Config)
        ensures
            r@ == self@,
    {
        Config {
            output_channel: self.output_channel,
            input_channel: self.input_channel,
            output_port: copy_opt(&self.output_port),
            input_port: copy_opt(&self.input_port),
            reference_channel: self.reference_channel,
            reference_port: copy_opt(&self.reference_port),
            reference_output_channel: self.reference_output_channel,
            reference_output_port: copy_opt(&self.reference_output_port),
            report_dir: copy_opt(&self.report_dir),
            snapshot_spool_dir: copy_opt(&self.snapshot_spool_dir),
            dbu_ref_vrms: self.dbu_ref_vrms,
            server_enabled: self.server_enabled,
            backend: copy_opt(&self.backend),
            dmm_host: copy_opt(&self.dmm_host),
            server_idle_timeout_secs: self.server_idle_timeout_secs,
            snapshot_ring_s: self.snapshot_ring_s,
            temperature_c: self.temperature_c,
            drive_max_dbfs: self.drive_max_dbfs,
            device: self.device,
        }
    }
}

/// What a configuration holds is each of its settings under its own name: no
/// leg's channel or port stands for another's.
pub proof fn each_setting_is_its_own(c: Config)
    ensures
        c@.output_channel == c.output_channel,
        c@.input_channel == c.input_channel,
        c@.output_port == opt_text(c.output_port),
        c@.input_port == opt_text(c.input_port),
        c@.reference_channel == c.reference_channel,
        c@.reference_port == opt_text(c.reference_port),
        c@.reference_output_channel == c.reference_output_channel,
        c@.reference_output_port == opt_text(c.reference_output_port),
        c@.report_dir == opt_text(c.report_dir),
        c@.snapshot_spool_dir == opt_text(c.snapshot_spool_dir),
        c@.dbu_ref_vrms == c.dbu_ref_vrms,
        c@.server_enabled == c.server_enabled,
        c@.backend == opt_text(c.backend),
        c@.dmm_host == opt_text(c.dmm_host),
        c@.server_idle_timeout_secs == c.server_idle_timeout_secs,
        c@.snapshot_ring_s == c.snapshot_ring_s,
        c@.temperature_c == c.temperature_c,
        c@.drive_max_dbfs == c.drive_max_dbfs,
        c@.device == c.device,
{
}

} // verus!
