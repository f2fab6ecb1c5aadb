//! The `setup` command: reads the configuration, or changes and saves it.
//!
//! Everything in an update is checked before any of it is applied, and the
//! change is made on a copy that takes effect once it is on disk: a refusal
//! or a failed save leaves the configuration as it was.
use vstd::prelude::*;

use crate::config::{Config, ConfigV};
use crate::double::Double;
use crate::json::{fields_read_back, finite_or_null, Json, JsonV};
use crate::settings::{ok, ok_reply};
use crate::wire::{
    bool_field, double_field, get_bool, get_double, opt_nullable_u32, opt_nullable_u32_of, opt_u32,
    opt_u32_of, refusal_reply, refuse, trailer_views, uint_field, WireError, WireErrorV,
};

verus! {

/// Why a report directory that is no absolute path is refused: a relative
/// path means nothing to a daemon with a working directory of its own.
pub const REPORT_DIR_NOT_ABSOLUTE: &'static str = "must be an absolute path on the daemon host";

/// An absolute path starts at the root.
pub open spec fn absolute(path: Seq<char>) -> bool {
    path.len() > 0 && path[0] == '/'
}

/// Why `raw` cannot be the report directory, if it cannot: it is not
/// absolute, or the write probe of it failed.
pub open spec fn report_dir_fault(raw: Seq<char>, probe: Result<(), String>) -> Option<Seq<char>> {
    if !absolute(raw) {
        Some(REPORT_DIR_NOT_ABSOLUTE@)
    } else {
        match probe {
            Ok(_) => None,
            Err(e) => Some(e@),
        }
    }
}

/// Whether `raw` can be the report directory. `probe` is the outcome of a
/// write in it; the directory is never created.
pub fn validate_report_dir(raw: &str, probe: &Result<(), String>) -> (r: Result<(), String>)
    ensures
        match r {
            Ok(_) => report_dir_fault(raw@, *probe) is None,
            Err(e) => report_dir_fault(raw@, *probe) == Some(e@),
        },
{
    if raw.unicode_len() == 0 || raw.get_char(0) != '/' {
        return Err(REPORT_DIR_NOT_ABSOLUTE.to_owned());
    }
    match probe {
        Ok(_) => Ok(()),
        Err(e) => Err(e.clone()),
    }
}

/// The refusal of a report directory.
pub open spec fn report_dir_refused(path: Seq<char>, reason: Seq<char>) -> JsonV {
    refusal_reply(
        "report-dir "@ + path + ": "@ + reason + " \u{2014} setting not changed"@,
    ).with(
        "refused"@,
        JsonV::obj().with("key"@, JsonV::Str("report_dir"@)).with("path"@, JsonV::Str(path)).with(
            "reason"@,
            JsonV::Str(reason),
        ),
    )
}

/// The refusal of a report directory.
pub fn report_dir_refusal(path: &str, reason: &str) -> (r: Json)
    ensures
        r@ == report_dir_refused(path@, reason@),
{
    let text = "report-dir ".to_owned().concat(path).concat(": ").concat(reason).concat(
        " \u{2014} setting not changed",
    );
    refuse(text.as_str()).with(
        "refused",
        Json::obj().with("key", Json::string("report_dir")).with(
            "path",
            Json::string(path),
        ).with("reason", Json::string(reason)),
    )
}

/// Why a spool directory is refused.
#[derive(Debug)]
pub struct SpoolRejection {
    pub message: String,
    pub requested: String,
    pub reason: String,
    pub allowed: String,
}

/// The refusal of a spool directory.
pub open spec fn spool_dir_refused(r: SpoolRejection) -> JsonV {
    refusal_reply(r.message@).with(
        "refused"@,
        JsonV::obj().with("key"@, JsonV::Str("snapshot_spool_dir"@)).with(
            "path"@,
            JsonV::Str(r.requested@),
        ).with("reason"@, JsonV::Str(r.reason@)).with(
            "allowed_root"@,
            JsonV::Str(r.allowed@),
        ),
    )
}

/// The refusal of a spool directory.
pub fn spool_dir_refusal(r: &SpoolRejection) -> (reply: Json)
    ensures
        reply@ == spool_dir_refused(*r),
{
    refuse(r.message.as_str()).with(
        "refused",
        Json::obj().with("key", Json::string("snapshot_spool_dir")).with(
            "path",
            Json::string(r.requested.as_str()),
        ).with("reason", Json::string(r.reason.as_str())).with(
            "allowed_root",
            Json::string(r.allowed.as_str()),
        ),
    )
}

/// What the disk and the backends say of an update's values. Each is looked
/// at only where the update has the value.
pub struct SetupFindings {
    /// A write in the report directory.
    pub report_probe: Result<(), String>,
    /// The spool directory, resolved and found to be the daemon's own.
    pub spool: Result<String, SpoolRejection>,
    /// The backend's canonical name.
    pub backend: Result<String, String>,
}

/// A path field: absent, cleared, or a text (empty where it is no string).
pub open spec fn path_field(update: JsonV, key: Seq<char>) -> Option<Option<Seq<char>>> {
    match update.field(key) {
        None => None,
        Some(v) => if v is Null {
            Some(None)
        } else {
            match v.str_of() {
                Some(s) => Some(Some(s)),
                None => Some(Some(""@)),
            }
        },
    }
}

/// A path field: absent, cleared, or a text.
pub fn get_path(update: &Json, key: &str) -> (r: Option<Option<String>>)
    ensures
        match r {
            None => path_field(update@, key@) is None,
            Some(None) => path_field(update@, key@) == Some(None::<Seq<char>>),
            Some(Some(s)) => path_field(update@, key@) == Some(Some(s@)),
        },
{
    match update.get(key) {
        None => None,
        Some(v) => if v.is_null() {
            Some(None)
        } else {
            match v.as_str() {
                Some(s) => Some(Some(s.to_owned())),
                None => Some(Some("".to_owned())),
            }
        },
    }
}

/// The report directory to probe before an update, if it names one.
pub fn report_dir_to_probe(cmd: &Json) -> (r: Option<String>)
    ensures
        match r {
            Some(s) => cmd@.field("update"@) is Some && path_field(
                cmd@.field("update"@)->0,
                "report_dir"@,
            ) == Some(Some(s@)),
            None => cmd@.field("update"@) is Some ==> match path_field(
                cmd@.field("update"@)->0,
                "report_dir"@,
            ) {
                Some(Some(_)) => false,
                _ => true,
            },
        },
{
    match cmd.get("update") {
        Some(update) => match get_path(update, "report_dir") {
            Some(Some(s)) => Some(s),
            _ => None,
        },
        None => None,
    }
}

/// The channel fields of an update. An absent field is none; a cleared
/// reference is `Some(None)`.
#[derive(Debug, Clone, Copy, PartialEq, Eq)]
pub struct SetupChannels {
    pub output: Option<u32>,
    pub input: Option<u32>,
    pub reference: Option<Option<u32>>,
    pub reference_output: Option<Option<u32>>,
}

/// The channel fields of an update, in order; the first that is malformed
/// refuses all.
pub open spec fn channels_in(update: JsonV) -> Result<SetupChannels, WireErrorV> {
    match opt_u32_of(update, "output_channel"@) {
        Err(e) => Err(e),
        Ok(output) => match opt_u32_of(update, "input_channel"@) {
            Err(e) => Err(e),
            Ok(input) => match opt_nullable_u32_of(update, "reference_channel"@) {
                Err(e) => Err(e),
                Ok(reference) => match opt_nullable_u32_of(
                    update,
                    "reference_output_channel"@,
                ) {
                    Err(e) => Err(e),
                    Ok(reference_output) => Ok(
                        SetupChannels { output, input, reference, reference_output },
                    ),
                },
            },
        },
    }
}

/// Reads the channel fields of an update.
pub fn parse_setup_channels(update: &Json) -> (r: Result<SetupChannels, WireError>)
    ensures
        match r {
            Ok(c) => channels_in(update@) == Ok::<SetupChannels, WireErrorV>(c),
            Err(e) => channels_in(update@) == Err::<SetupChannels, WireErrorV>(e@),
        },
{
    let output = match opt_u32(update, "output_channel") {
        Ok(v) => v,
        Err(e) => return Err(e),
    };
    let input = match opt_u32(update, "input_channel") {
        Ok(v) => v,
        Err(e) => return Err(e),
    };
    let reference = match opt_nullable_u32(update, "reference_channel") {
        Ok(v) => v,
        Err(e) => return Err(e),
    };
    let reference_output = match opt_nullable_u32(update, "reference_output_channel") {
        Ok(v) => v,
        Err(e) => return Err(e),
    };
    Ok(SetupChannels { output, input, reference, reference_output })
}

/// The reasons to refuse an update, in order: the report directory, the spool
/// directory, the channels, the backend.
pub open spec fn update_refusal(update: JsonV, found: SetupFindings) -> Option<JsonV> {
    match path_field(update, "report_dir"@) {
        Some(Some(raw)) if report_dir_fault(raw, found.report_probe) is Some => Some(
            report_dir_refused(raw, report_dir_fault(raw, found.report_probe)->0),
        ),
        _ => match (path_field(update, "snapshot_spool_dir"@), found.spool) {
            (Some(Some(_)), Err(rejection)) => Some(spool_dir_refused(rejection)),
            _ => match channels_in(update) {
                Err(e) => Some(
                    refusal_reply(e.text("setup rejected"@, seq![("config"@, "unchanged"@)])),
                ),
                Ok(_) => backend_refusal(update, found.backend),
            },
        },
    }
}

/// The refusal of the backend field: an unknown name, or no name at all.
pub open spec fn backend_refusal(update: JsonV, canonical: Result<String, String>) -> Option<
    JsonV,
> {
    match update.field("backend"@) {
        None => None,
        Some(v) => if v is Null {
            None
        } else if v.str_of() is Some {
            match canonical {
                Ok(_) => None,
                Err(e) => Some(refusal_reply(e@)),
            }
        } else {
            Some(refusal_reply("backend must be jack, cpal, fake, or null"@))
        },
    }
}

/// The configuration with the channels of an update. A channel that is set
/// drops the sticky port of its own leg and of no other.
pub open spec fn with_channels(c: ConfigV, ch: SetupChannels) -> ConfigV {
    ConfigV {
        output_channel: match ch.output {
            Some(v) => v,
            None => c.output_channel,
        },
        output_port: if ch.output is Some {
            None
        } else {
            c.output_port
        },
        input_channel: match ch.input {
            Some(v) => v,
            None => c.input_channel,
        },
        input_port: if ch.input is Some {
            None
        } else {
            c.input_port
        },
        reference_channel: match ch.reference {
            Some(v) => v,
            None => c.reference_channel,
        },
        reference_port: if ch.reference is Some {
            None
        } else {
            c.reference_port
        },
        reference_output_channel: match ch.reference_output {
            Some(v) => v,
            None => c.reference_output_channel,
        },
        reference_output_port: if ch.reference_output is Some {
            None
        } else {
            c.reference_output_port
        },
        ..c
    }
}

/// The backend after an update.
pub open spec fn backend_after(
    stored: Option<Seq<char>>,
    update: JsonV,
    canonical: Result<String, String>,
) -> Option<Seq<char>> {
    match update.field("backend"@) {
        None => stored,
        Some(v) => if v is Null {
            None
        } else {
            match canonical {
                Ok(name) => Some(name@),
                Err(_) => stored,
            }
        },
    }
}

/// The meter's host after an update: what is no string clears it.
pub open spec fn host_after(stored: Option<Seq<char>>, update: JsonV) -> Option<Seq<char>> {
    match update.field("dmm_host"@) {
        None => stored,
        Some(v) => v.str_of(),
    }
}

/// The idle timeout after an update: null or zero is none, what is no number
/// is passed over.
pub open spec fn timeout_after(stored: Option<u64>, update: JsonV) -> Option<u64> {
    match update.field("server_idle_timeout_secs"@) {
        None => stored,
        Some(v) => if v is Null {
            None
        } else {
            match v.uint_of() {
                Some(n) => if n == 0 {
                    None
                } else {
                    Some(n)
                },
                None => stored,
            }
        },
    }
}

/// The ring's length after an update: only a positive one is taken.
pub open spec fn ring_after(stored: Double, update: JsonV) -> Double {
    match double_field(update, "snapshot_ring_s"@) {
        Some(x) => if (Double { bits: 0 }).below(x) {
            x
        } else {
            stored
        },
        None => stored,
    }
}

/// The temperature after an update: null clears it, what is no number is
/// passed over.
pub open spec fn temperature_after(stored: Option<Double>, update: JsonV) -> Option<Double> {
    match update.field("temperature_c"@) {
        None => stored,
        Some(v) => if v is Null {
            None
        } else {
            match v.double_of() {
                Some(x) => Some(x),
                None => stored,
            }
        },
    }
}

/// The configuration after an accepted update.
pub open spec fn updated(c: ConfigV, update: JsonV, found: SetupFindings) -> ConfigV {
    let d = with_channels(c, channels_in(update)->Ok_0);
    ConfigV {
        report_dir: match path_field(update, "report_dir"@) {
            Some(dir) => dir,
            None => c.report_dir,
        },
        dbu_ref_vrms: match double_field(update, "dbu_ref_vrms"@) {
            Some(x) => x,
            None => c.dbu_ref_vrms,
        },
        server_enabled: match bool_field(update, "server_enabled"@) {
            Some(b) => b,
            None => c.server_enabled,
        },
        backend: backend_after(c.backend, update, found.backend),
        dmm_host: host_after(c.dmm_host, update),
        server_idle_timeout_secs: timeout_after(c.server_idle_timeout_secs, update),
        snapshot_ring_s: ring_after(c.snapshot_ring_s, update),
        snapshot_spool_dir: match path_field(update, "snapshot_spool_dir"@) {
            Some(Some(_)) => Some(found.spool->Ok_0@),
            Some(None) => None,
            None => c.snapshot_spool_dir,
        },
        temperature_c: temperature_after(c.temperature_c, update),
        ..d
    }
}

/// Whether an update holds anything. An empty one is a read.
pub open spec fn has_updates(update: JsonV) -> bool {
    match update {
        JsonV::Obj(fields) => fields.len() > 0,
        _ => false,
    }
}

/// An accepted update: the configuration it makes, and whether it is to be
/// saved.
pub struct SetupPlan {
    pub cfg: Config,
    pub save: bool,
}

fn apply_channels(cfg: &mut Config, ch: SetupChannels)
    ensures
        final(cfg)@ == with_channels(old(cfg)@, ch),
{
    match ch.output {
        Some(v) => {
            cfg.output_channel = v;
            cfg.output_port = None;
        },
        None => {},
    }
    match ch.input {
        Some(v) => {
            cfg.input_channel = v;
            cfg.input_port = None;
        },
        None => {},
    }
    match ch.reference {
        Some(v) => {
            cfg.reference_channel = v;
            cfg.reference_port = None;
        },
        None => {},
    }
    match ch.reference_output {
        Some(v) => {
            cfg.reference_output_channel = v;
            cfg.reference_output_port = None;
        },
        None => {},
    }
    assert(cfg@ =~= with_channels(old(cfg)@, ch));
}

fn apply_backend(cfg: &mut Config, update: &Json, canonical: &Result<String, String>) -> (r: Result<
    (),
    Json,
>)
    ensures
        match r {
            Err(e) => backend_refusal(update@, *canonical) == Some(e@),
            Ok(_) => {
                &&& backend_refusal(update@, *canonical) is None
                &&& final(cfg)@ == (ConfigV {
                    backend: backend_after(old(cfg)@.backend, update@, *canonical),
                    ..old(cfg)@
                })
            },
        },
{
    match update.get("backend") {
        None => {},
        Some(v) => {
            if v.is_null() {
                cfg.backend = None;
            } else if v.as_str().is_some() {
                match canonical {
                    Ok(name) => cfg.backend = Some(name.clone()),
                    Err(e) => return Err(refuse(e.as_str())),
                }
            } else {
                return Err(refuse("backend must be jack, cpal, fake, or null"));
            }
        },
    }
    assert(cfg@ =~= ConfigV {
        backend: backend_after(old(cfg)@.backend, update@, *canonical),
        ..old(cfg)@
    });
    Ok(())
}

fn timeout_value(stored: Option<u64>, update: &Json) -> (r: Option<u64>)
    ensures
        r == timeout_after(stored, update@),
{
    match update.get("server_idle_timeout_secs") {
        None => stored,
        Some(v) => if v.is_null() {
            None
        } else {
            match v.as_uint() {
                Some(n) => if n == 0 {
                    None
                } else {
                    Some(n)
                },
                None => stored,
            }
        },
    }
}

fn temperature_value(stored: Option<Double>, update: &Json) -> (r: Option<Double>)
    ensures
        r == temperature_after(stored, update@),
{
    match update.get("temperature_c") {
        None => stored,
        Some(v) => if v.is_null() {
            None
        } else {
            match v.as_double() {
                Some(x) => Some(x),
                None => stored,
            }
        },
    }
}

fn apply_settings(cfg: &mut Config, update: &Json)
    ensures
        final(cfg)@ == (ConfigV {
            dbu_ref_vrms: match double_field(update@, "dbu_ref_vrms"@) {
                Some(x) => x,
                None => old(cfg)@.dbu_ref_vrms,
            },
            server_enabled: match bool_field(update@, "server_enabled"@) {
                Some(b) => b,
                None => old(cfg)@.server_enabled,
            },
            dmm_host: host_after(old(cfg)@.dmm_host, update@),
            server_idle_timeout_secs: timeout_after(
                old(cfg)@.server_idle_timeout_secs,
                update@,
            ),
            snapshot_ring_s: ring_after(old(cfg)@.snapshot_ring_s, update@),
            temperature_c: temperature_after(old(cfg)@.temperature_c, update@),
            ..old(cfg)@
        }),
{
    match get_double(update, "dbu_ref_vrms") {
        Some(x) => cfg.dbu_ref_vrms = x,
        None => {},
    }
    match get_bool(update, "server_enabled") {
        Some(b) => cfg.server_enabled = b,
        None => {},
    }
    match update.get("dmm_host") {
        Some(v) => match v.as_str() {
            Some(s) => cfg.dmm_host = Some(s.to_owned()),
            None => cfg.dmm_host = None,
        },
        None => {},
    }
    cfg.server_idle_timeout_secs = timeout_value(cfg.server_idle_timeout_secs, update);
    match get_double(update, "snapshot_ring_s") {
        Some(x) => if Double::new(0).lt(x) {
            cfg.snapshot_ring_s = x;
        },
        None => {},
    }
    cfg.temperature_c = temperature_value(cfg.temperature_c, update);
    assert(cfg@ =~= ConfigV {
        dbu_ref_vrms: match double_field(update@, "dbu_ref_vrms"@) {
            Some(x) => x,
            None => old(cfg)@.dbu_ref_vrms,
        },
        server_enabled: match bool_field(update@, "server_enabled"@) {
            Some(b) => b,
            None => old(cfg)@.server_enabled,
        },
        dmm_host: host_after(old(cfg)@.dmm_host, update@),
        server_idle_timeout_secs: timeout_after(old(cfg)@.server_idle_timeout_secs, update@),
        snapshot_ring_s: ring_after(old(cfg)@.snapshot_ring_s, update@),
        temperature_c: temperature_after(old(cfg)@.temperature_c, update@),
        ..old(cfg)@
    });
}

/// `setup`, up to the save: the refusal, or the configuration that the update
/// makes of `cfg`.
pub fn setup(cmd: &Json, cfg: &Config, found: &SetupFindings) -> (r: Result<SetupPlan, Json>)
    ensures
        match cmd@.field("update"@) {
            None => r is Err && r->Err_0@ == refusal_reply("missing 'update' field"@),
            Some(update) => match r {
                Err(e) => update_refusal(update, *found) == Some(e@),
                Ok(p) => {
                    &&& update_refusal(update, *found) is None
                    &&& p.cfg@ == updated(cfg@, update, *found)
                    &&& p.save == has_updates(update)
                },
            },
        },
{
    let update = match cmd.get("update") {
        Some(u) => u,
        None => return Err(refuse("missing 'update' field")),
    };
    let report_dir = get_path(update, "report_dir");
    match &report_dir {
        Some(Some(raw)) => match validate_report_dir(raw.as_str(), &found.report_probe) {
            Ok(_) => {},
            Err(reason) => return Err(report_dir_refusal(raw.as_str(), reason.as_str())),
        },
        _ => {},
    }
    let spool_dir = get_path(update, "snapshot_spool_dir");
    match (&spool_dir, &found.spool) {
        (Some(Some(_)), Err(rejection)) => return Err(spool_dir_refusal(rejection)),
        _ => {},
    }
    let channels: SetupChannels = match parse_setup_channels(update) {
        Ok(c) => c,
        Err(e) => {
            let mut trailers: Vec<(String, String)> = Vec::new();
            trailers.push(("config".to_owned(), "unchanged".to_owned()));
            assert(trailer_views(trailers@) =~= seq![("config"@, "unchanged"@)]);
            return Err(refuse(e.refusal("setup rejected", trailers).as_str()));
        },
    };
    let mut new = cfg.copy();
    match report_dir {
        Some(dir) => new.report_dir = dir,
        None => {},
    }
    apply_channels(&mut new, channels);
    match apply_backend(&mut new, update, &found.backend) {
        Ok(_) => {},
        Err(e) => return Err(e),
    }
    apply_settings(&mut new, update);
    match (spool_dir, &found.spool) {
        (Some(Some(_)), Ok(leaf)) => new.snapshot_spool_dir = Some(leaf.clone()),
        (Some(None), _) => new.snapshot_spool_dir = None,
        _ => {},
    }
    let save: bool = match update {
        Json::Obj(fields) => fields.len() > 0,
        _ => false,
    };
    assert(new@ =~= updated(cfg@, update@, *found));
    Ok(SetupPlan { cfg: new, save })
}

/// Why the configuration could not be saved.
#[derive(Debug)]
pub enum SaveError {
    /// The file could not be written.
    Write { path: String, cause: String },
    /// The file that is there cannot be read, and is not overwritten.
    Unreadable { path: String, cause: String },
}

/// The refusal of a change that was not saved.
pub open spec fn not_saved_text(e: SaveError) -> Seq<char> {
    match e {
        SaveError::Write { path, cause } =>
        "setup not saved \u{2014} configuration unchanged\n         file   "@ + path@
            + "\n         cause  "@ + cause@,
        SaveError::Unreadable { path, cause } =>
        "setup not saved \u{2014} existing configuration is unreadable\n         file   "@ + path@
            + "\n         cause  "@ + cause@ + "\n         data   existing file preserved"@,
    }
}

/// The refusal of a change that was not saved.
pub fn setup_not_saved(e: &SaveError) -> (r: String)
    ensures
        r@ == not_saved_text(*e),
{
    match e {
        SaveError::Write { path, cause } =>
        "setup not saved \u{2014} configuration unchanged\n         file   ".to_owned().concat(
            path.as_str(),
        ).concat("\n         cause  ").concat(cause.as_str()),
        SaveError::Unreadable { path, cause } =>
        "setup not saved \u{2014} existing configuration is unreadable\n         file   ".to_owned().concat(
        path.as_str()).concat("\n         cause  ").concat(cause.as_str()).concat(
            "\n         data   existing file preserved",
        ),
    }
}

/// Takes over what was saved; a save that failed changes nothing.
pub fn commit(cfg: &mut Config, saved: Result<Config, SaveError>) -> (r: Result<(), Json>)
    ensures
        match saved {
            Ok(new) => r is Ok && *final(cfg) == new,
            Err(e) => r is Err && r->Err_0@ == refusal_reply(not_saved_text(e)) && *final(cfg)
                == *old(cfg),
        },
{
    match saved {
        Ok(new) => {
            *cfg = new;
            Ok(())
        },
        Err(e) => Err(refuse(setup_not_saved(&e).as_str())),
    }
}

/// A `setup` that was carried out.
pub struct SetupDone {
    /// The configuration as it now stands.
    pub cfg: Config,
    /// Whether it was saved; a read is not.
    pub saved: bool,
}

/// How a `setup` ends: the configuration that is live then, and the outcome.
pub open spec fn concluded(
    before: Config,
    plan: SetupPlan,
    saved: Option<Result<Config, SaveError>>,
    live: Config,
    r: Result<SetupDone, Json>,
) -> bool {
    match saved {
        None => {
            &&& r matches Ok(d) && d.cfg == plan.cfg && !d.saved
            &&& live == before
        },
        Some(Ok(new)) => {
            &&& r matches Ok(d) && d.cfg@ == new@ && d.saved
            &&& live == new
        },
        Some(Err(e)) => {
            &&& r matches Err(reply) && reply@ == refusal_reply(not_saved_text(e))
            &&& live == before
        },
    }
}

/// Ends a `setup`: what was saved becomes the live configuration, a save that
/// failed refuses the update and changes nothing, and a read changes nothing.
/// `saved` is how the save ended, where the plan called for one.
pub fn conclude(live: &mut Config, plan: SetupPlan, saved: Option<Result<Config, SaveError>>) -> (r:
    Result<SetupDone, Json>)
    requires
        saved is Some == plan.save,
    ensures
        concluded(*old(live), plan, saved, *final(live), r),
{
    match saved {
        None => Ok(SetupDone { cfg: plan.cfg, saved: false }),
        Some(outcome) => match commit(live, outcome) {
            Ok(_) => Ok(SetupDone { cfg: live.copy(), saved: true }),
            Err(e) => Err(e),
        },
    }
}

/// The state of the configured report directory.
pub open spec fn dir_status(probe: Result<(), String>) -> JsonV {
    match probe {
        Ok(_) => JsonV::obj().with("writable"@, JsonV::Bool(true)),
        Err(e) => JsonV::obj().with("writable"@, JsonV::Bool(false)).with(
            "error"@,
            JsonV::Str(e@),
        ),
    }
}

/// The reply to `setup`.
pub open spec fn setup_reply_of(
    done: &SetupDone,
    config: JsonV,
    max_dbfs: Double,
    config_path: Seq<char>,
    report_probe: Result<(), String>,
) -> JsonV {
    let base = ok_reply().with("config"@, config).with("max_dbfs"@, finite_or_null(max_dbfs));
    let saved = if done.saved {
        base.with("saved"@, JsonV::Str(config_path))
    } else {
        base
    };
    if done.cfg@.report_dir is Some {
        saved.with("report_dir_status"@, dir_status(report_probe))
    } else {
        saved
    }
}

/// The reply to `setup`: the configuration and, beside it, the fixed emission
/// maximum; the file, where it was saved; whether the report directory can be
/// written, where one is configured. `config` is the configuration as JSON and
/// `report_probe` how a trial write in the report directory ended.
pub fn setup_reply(
    done: &SetupDone,
    config: Json,
    max_dbfs: Double,
    config_path: &str,
    report_probe: &Result<(), String>,
) -> (r: Json)
    ensures
        r@ == setup_reply_of(done, config@, max_dbfs, config_path@, *report_probe),
{
    let base = ok().with("config", config).with("max_dbfs", Json::float(max_dbfs));
    let saved = if done.saved {
        base.with("saved", Json::string(config_path))
    } else {
        base
    };
    if done.cfg.report_dir.is_none() {
        return saved;
    }
    let status = match report_probe {
        Ok(_) => Json::obj().with("writable", Json::Bool(true)),
        Err(e) => Json::obj().with("writable", Json::Bool(false)).with(
            "error",
            Json::string(e.as_str()),
        ),
    };
    saved.with("report_dir_status", status)
}

/// An update of one leg's channel moves that leg and drops its sticky port,
/// and leaves the other legs alone. The two reference legs are apart.
pub proof fn a_channel_moves_only_its_own_leg(c: ConfigV, update: JsonV, found: SetupFindings)
    requires
        update_refusal(update, found) is None,
    ensures
        ({
            let d = updated(c, update, found);
            let ch = channels_in(update)->Ok_0;
            &&& ch.output is None ==> d.output_channel == c.output_channel && d.output_port
                == c.output_port
            &&& ch.output is Some ==> d.output_channel == ch.output->0 && d.output_port is None
            &&& ch.input is None ==> d.input_channel == c.input_channel && d.input_port
                == c.input_port
            &&& ch.input is Some ==> d.input_channel == ch.input->0 && d.input_port is None
            &&& ch.reference is None ==> d.reference_channel == c.reference_channel
                && d.reference_port == c.reference_port
            &&& ch.reference is Some ==> d.reference_channel == ch.reference->0
                && d.reference_port is None
            &&& ch.reference_output is None ==> d.reference_output_channel
                == c.reference_output_channel && d.reference_output_port
                == c.reference_output_port
            &&& ch.reference_output is Some ==> d.reference_output_channel
                == ch.reference_output->0 && d.reference_output_port is None
        }),
{
}

/// An empty update is a read: it is never refused, changes nothing and is not
/// saved.
pub proof fn an_empty_update_is_a_read(c: ConfigV, found: SetupFindings)
    ensures
        update_refusal(JsonV::obj(), found) is None,
        updated(c, JsonV::obj(), found) == c,
        !has_updates(JsonV::obj()),
{
    assert(updated(c, JsonV::obj(), found) =~= c);
}

/// An update moves what it names and nothing else: each setting goes by its
/// own name, takes the value that the update gives it, and keeps the stored
/// one where the update gives none. The session's ceiling and the device are
/// not for `setup` to change.
pub proof fn an_update_moves_what_it_names(c: ConfigV, update: JsonV, found: SetupFindings)
    requires
        update_refusal(update, found) is None,
    ensures
        ({
            let d = updated(c, update, found);
            &&& d.drive_max_dbfs == c.drive_max_dbfs && d.device == c.device
            &&& double_field(update, "dbu_ref_vrms"@) matches Some(x) ==> d.dbu_ref_vrms == x
            &&& double_field(update, "dbu_ref_vrms"@) is None ==> d.dbu_ref_vrms == c.dbu_ref_vrms
            &&& bool_field(update, "server_enabled"@) matches Some(b) ==> d.server_enabled == b
            &&& bool_field(update, "server_enabled"@) is None ==> d.server_enabled
                == c.server_enabled
            &&& update.field("dmm_host"@) is None ==> d.dmm_host == c.dmm_host
            &&& update.field("dmm_host"@) matches Some(v) ==> d.dmm_host == v.str_of()
            &&& update.field("server_idle_timeout_secs"@) is None ==> d.server_idle_timeout_secs
                == c.server_idle_timeout_secs
            &&& uint_field(update, "server_idle_timeout_secs"@) matches Some(n) ==> (n > 0
                ==> d.server_idle_timeout_secs == Some(n)) && (n == 0
                ==> d.server_idle_timeout_secs is None)
            &&& update.field("server_idle_timeout_secs"@) == Some(JsonV::Null)
                ==> d.server_idle_timeout_secs is None
            &&& double_field(update, "snapshot_ring_s"@) matches Some(x) ==> ((Double {
                bits: 0,
            }).below(x) ==> d.snapshot_ring_s == x) && (!(Double { bits: 0 }).below(x)
                ==> d.snapshot_ring_s == c.snapshot_ring_s)
            &&& double_field(update, "snapshot_ring_s"@) is None ==> d.snapshot_ring_s
                == c.snapshot_ring_s
            &&& update.field("temperature_c"@) is None ==> d.temperature_c == c.temperature_c
            &&& update.field("temperature_c"@) == Some(JsonV::Null) ==> d.temperature_c is None
            &&& double_field(update, "temperature_c"@) matches Some(x) ==> d.temperature_c
                == Some(x)
            &&& update.field("report_dir"@) is None ==> d.report_dir == c.report_dir
            &&& update.field("report_dir"@) == Some(JsonV::Null) ==> d.report_dir is None
            &&& update.field("report_dir"@) matches Some(JsonV::Str(path)) ==> d.report_dir
                == Some(path)
            &&& update.field("snapshot_spool_dir"@) is None ==> d.snapshot_spool_dir
                == c.snapshot_spool_dir
            &&& update.field("snapshot_spool_dir"@) == Some(JsonV::Null)
                ==> d.snapshot_spool_dir is None
            &&& update.field("snapshot_spool_dir"@) matches Some(JsonV::Str(_)) ==> found.spool
                is Ok && d.snapshot_spool_dir == Some(found.spool->Ok_0@)
            &&& update.field("backend"@) is None ==> d.backend == c.backend
            &&& update.field("backend"@) == Some(JsonV::Null) ==> d.backend is None
            &&& update.field("backend"@) matches Some(JsonV::Str(_)) ==> found.backend is Ok
                && d.backend == Some(found.backend->Ok_0@)
        }),
{
}

/// The channels of an update are read each from its own field; an absent field
/// moves nothing, and a null one clears a reference leg.
pub proof fn channels_are_read_by_name(update: JsonV)
    requires
        channels_in(update) is Ok,
    ensures
        ({
            let ch = channels_in(update)->Ok_0;
            &&& opt_u32_of(update, "output_channel"@) == Ok::<Option<u32>, WireErrorV>(ch.output)
            &&& opt_u32_of(update, "input_channel"@) == Ok::<Option<u32>, WireErrorV>(ch.input)
            &&& opt_nullable_u32_of(update, "reference_channel"@) == Ok::<
                Option<Option<u32>>,
                WireErrorV,
            >(ch.reference)
            &&& opt_nullable_u32_of(update, "reference_output_channel"@) == Ok::<
                Option<Option<u32>>,
                WireErrorV,
            >(ch.reference_output)
        }),
{
}

/// An update is refused for the first thing that is wrong with it: a report
/// directory that cannot be written, a spool directory that is not the
/// daemon's own, a malformed channel, an unknown backend.
pub proof fn an_update_is_refused_for_its_first_fault(update: JsonV, found: SetupFindings)
    ensures
        ({
            let refusal = update_refusal(update, found);
            let dir = path_field(update, "report_dir"@);
            let spool = path_field(update, "snapshot_spool_dir"@);
            let bad_dir = dir is Some && dir->0 is Some && !(absolute((dir->0)->0)
                && found.report_probe is Ok);
            let bad_spool = spool is Some && spool->0 is Some && found.spool is Err;
            let bad_backend = update.field("backend"@) matches Some(v) && !(v is Null) && (
            v.str_of() is None || found.backend is Err);
            &&& refusal is None <==> !bad_dir && !bad_spool && channels_in(update) is Ok
                && !bad_backend
            &&& bad_dir ==> refusal == Some(
                report_dir_refused(
                    (dir->0)->0,
                    if absolute((dir->0)->0) {
                        found.report_probe->Err_0@
                    } else {
                        REPORT_DIR_NOT_ABSOLUTE@
                    },
                ),
            )
            &&& !bad_dir && bad_spool ==> refusal == Some(spool_dir_refused(found.spool->Err_0))
            &&& !bad_dir && !bad_spool ==> (channels_in(update) matches Err(e) ==> refusal == Some(
                refusal_reply(e.text("setup rejected"@, seq![("config"@, "unchanged"@)])),
            ))
        }),
{
}

/// A refused directory is told by name: which setting, which path, and why.
pub proof fn a_refused_directory_is_told_by_name(
    path: Seq<char>,
    reason: Seq<char>,
    spool: SpoolRejection,
)
    ensures
        ({
            let r = report_dir_refused(path, reason);
            &&& r.field("ok"@) == Some(JsonV::Bool(false))
            &&& r.field("refused"@) matches Some(told) && told.field("key"@) == Some(
                JsonV::Str("report_dir"@),
            ) && told.field("path"@) == Some(JsonV::Str(path)) && told.field("reason"@) == Some(
                JsonV::Str(reason),
            )
        }),
        ({
            let r = spool_dir_refused(spool);
            &&& r.field("ok"@) == Some(JsonV::Bool(false))
            &&& r.field("error"@) == Some(JsonV::Str(spool.message@))
            &&& r.field("refused"@) matches Some(told) && told.field("key"@) == Some(
                JsonV::Str("snapshot_spool_dir"@),
            ) && told.field("path"@) == Some(JsonV::Str(spool.requested@)) && told.field("reason"@)
                == Some(JsonV::Str(spool.reason@)) && told.field("allowed_root"@) == Some(
                JsonV::Str(spool.allowed@),
            )
        }),
{
    fields_read_back();
    reveal_strlit("ok");
    reveal_strlit("error");
    reveal_strlit("refused");
    reveal_strlit("key");
    reveal_strlit("path");
    reveal_strlit("reason");
    reveal_strlit("allowed_root");
    assert("ok"@.len() == 2);
    assert("error"@.len() == 5);
    assert("refused"@.len() == 7);
    assert("key"@.len() == 3);
    assert("path"@.len() == 4);
    assert("reason"@.len() == 6);
    assert("allowed_root"@.len() == 12);
}

/// The reply to `setup` carries the configuration and the emission maximum
/// each under its own name, the file exactly where it was saved, and the state
/// of the report directory exactly where one is configured.
pub proof fn a_setup_is_told_by_name(
    done: SetupDone,
    config: JsonV,
    max: Double,
    file: Seq<char>,
    probe: Result<(), String>,
)
    ensures
        ({
            let reply = setup_reply_of(&done, config, max, file, probe);
            &&& reply.field("ok"@) == Some(JsonV::Bool(true))
            &&& reply.field("config"@) == Some(config)
            &&& reply.field("max_dbfs"@) == Some(finite_or_null(max))
            &&& done.saved ==> reply.field("saved"@) == Some(JsonV::Str(file))
            &&& !done.saved ==> reply.field("saved"@) is None
            &&& done.cfg.report_dir is None ==> reply.field("report_dir_status"@) is None
            &&& done.cfg.report_dir is Some ==> (reply.field("report_dir_status"@) matches Some(told)
                && told.field("writable"@) == Some(JsonV::Bool(probe is Ok)) && (probe matches
                Err(e) ==> told.field("error"@) == Some(JsonV::Str(e@))) && (probe is Ok
                ==> told.field("error"@) is None))
        }),
{
    fields_read_back();
    reveal_strlit("ok");
    reveal_strlit("config");
    reveal_strlit("max_dbfs");
    reveal_strlit("saved");
    reveal_strlit("report_dir_status");
    reveal_strlit("writable");
    reveal_strlit("error");
    assert("ok"@.len() == 2);
    assert("config"@.len() == 6);
    assert("max_dbfs"@.len() == 8);
    assert("saved"@.len() == 5);
    assert("report_dir_status"@.len() == 17);
    assert("writable"@.len() == 8);
    assert("error"@.len() == 5);
    assert("max_dbfs"@[0] != "writable"@[0]);
    assert("saved"@[0] != "error"@[0]);
}

/// What is live changes only by a save that succeeded, and then to what was
/// saved; a reply says that it was saved exactly then.
pub proof fn only_a_save_changes_what_is_live(
    before: Config,
    plan: SetupPlan,
    saved: Option<Result<Config, SaveError>>,
    live: Config,
    r: Result<SetupDone, Json>,
)
    requires
        concluded(before, plan, saved, live, r),
    ensures
        saved is None || saved->0 is Err ==> live == before,
        saved matches Some(Ok(new)) ==> live == new && r is Ok && r->Ok_0.cfg@ == live@,
        r is Err <==> saved is Some && saved->0 is Err,
        r matches Ok(done) ==> (done.saved <==> saved is Some && saved->0 is Ok),
        saved is None ==> r is Ok && r->Ok_0.cfg == plan.cfg,
{
}

/// Only a path from the root can be the report directory, and only where a
/// write in it succeeds.
pub proof fn a_report_directory_is_absolute_and_writable(path: Seq<char>, probe: Result<(), String>)
    ensures
        report_dir_fault(path, probe) is None <==> path.len() > 0 && path[0] == '/' && probe is Ok,
        path.len() == 0 || path[0] != '/' ==> report_dir_fault(path, probe) == Some(
            REPORT_DIR_NOT_ABSOLUTE@,
        ),
        path.len() > 0 && path[0] == '/' ==> (probe matches Err(why) ==> report_dir_fault(
            path,
            probe,
        ) == Some(why@)),
{
}

/// A change that was not saved is told with the file and the cause, the file
/// first; where the file that is there was unreadable, it says that it was
/// preserved.
pub proof fn an_unsaved_change_names_file_and_cause(path: String, cause: String)
    ensures
        (path@ + "\n         cause  "@ + cause@).is_suffix_of(
            not_saved_text(SaveError::Write { path, cause }),
        ),
        (path@ + "\n         cause  "@ + cause@
            + "\n         data   existing file preserved"@).is_suffix_of(
            not_saved_text(SaveError::Unreadable { path, cause }),
        ),
{
    let a = not_saved_text(SaveError::Write { path, cause });
    let b = not_saved_text(SaveError::Unreadable { path, cause });
    let s = path@ + "\n         cause  "@ + cause@;
    let t = s + "\n         data   existing file preserved"@;
    assert(a.subrange(a.len() - s.len(), a.len() as int) =~= s);
    assert(b.subrange(b.len() - t.len(), b.len() as int) =~= t);
}

} // verus!
