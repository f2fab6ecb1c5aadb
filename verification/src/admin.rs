//! The commands that run no audio: `status`, `quit`, `stop`, `devices`, the
//! stored calibrations, the meter, and the bind mode.
use vstd::prelude::*;

use crate::config::{Config, ConfigV};
use crate::double::Double;
use crate::gate::{cal_key, key_text};
use crate::json::{
    double_or_null, fields_read_back, finite_or_null, Json, JsonV, opt_text, str_or_null,
    str_views, views,
};
use crate::mic_curve::target_of;
use crate::ports::copy_names;
use crate::settings::{ok, ok_reply};
use crate::text::{dec, decimal, str_eq, texts};
use crate::wire::{get_str, opt_u32, refusal_reply, refuse, str_field, trailer_views, WireErrorV};

verus! {

/// What tells this daemon apart from another on the same port. The values are
/// those that the daemon was started with.
pub struct Identity {
    pub home: Json,
    pub config_path: String,
    pub pid: u32,
    pub started_at: Json,
    pub spawn_mode: Json,
}

/// The fields of the identity.
pub open spec fn identified(reply: JsonV, id: &Identity) -> JsonV {
    reply.with("home"@, id.home@).with("config_path"@, JsonV::Str(id.config_path@)).with(
        "pid"@,
        JsonV::Uint(id.pid as u64),
    ).with("started_at"@, id.started_at@).with("spawn_mode"@, id.spawn_mode@)
}

fn identify(reply: Json, id: &Identity) -> (r: Json)
    ensures
        r@ == identified(reply@, id),
{
    reply.with("home", id.home.copy()).with(
        "config_path",
        Json::string(id.config_path.as_str()),
    ).with("pid", Json::Uint(id.pid as u64)).with("started_at", id.started_at.copy()).with(
        "spawn_mode",
        id.spawn_mode.copy(),
    )
}

/// The first of a list, if any.
pub open spec fn first_of(names: Seq<Seq<char>>) -> Option<Seq<char>> {
    if names.len() > 0 {
        Some(names[0])
    } else {
        None
    }
}

/// Which backend the configuration asks for, whether it can be had, and which
/// one is in use.
pub struct BackendStatus {
    pub required: Json,
    pub available: Json,
    pub backend: Json,
}

/// The reply to `status`.
pub open spec fn status_of(
    workers: Seq<Seq<char>>,
    src_mtime: JsonV,
    listen_mode: Seq<char>,
    id: &Identity,
    backend: &BackendStatus,
) -> JsonV {
    identified(
        ok_reply().with("busy"@, JsonV::Bool(workers.len() > 0)).with(
            "running_cmd"@,
            str_or_null(first_of(workers)),
        ).with("src_mtime"@, src_mtime).with("listen_mode"@, JsonV::Str(listen_mode)).with(
            "server_enabled"@,
            JsonV::Bool(true),
        ),
        id,
    ).with("backend_required"@, backend.required@).with(
        "backend_available"@,
        backend.available@,
    ).with("backend"@, backend.backend@)
}

/// `status`: the running workers, of which one is named, and the daemon.
pub fn status(
    workers: &Vec<String>,
    src_mtime: &Json,
    listen_mode: &str,
    id: &Identity,
    backend: &BackendStatus,
) -> (r: Json)
    ensures
        r@ == status_of(texts(workers@), src_mtime@, listen_mode@, id, backend),
{
    let running: Option<String> = if workers.len() > 0 {
        Some(workers[0].clone())
    } else {
        None
    };
    let reply = ok().with("busy", Json::Bool(workers.len() > 0)).with(
        "running_cmd",
        Json::opt_string(&running),
    ).with("src_mtime", src_mtime.copy()).with("listen_mode", Json::string(listen_mode)).with(
        "server_enabled",
        Json::Bool(true),
    );
    identify(reply, id).with("backend_required", backend.required.copy()).with(
        "backend_available",
        backend.available.copy(),
    ).with("backend", backend.backend.copy())
}

/// The reply to `quit`.
pub fn quit() -> (r: Json)
    ensures
        r@ == ok_reply().with("_quit"@, JsonV::Bool(true)),
{
    ok().with("_quit", Json::Bool(true))
}

/// The workers that a stop ends: the named one if it runs, or all.
pub open spec fn stopped_by(workers: Seq<Seq<char>>, target: Option<Seq<char>>) -> Seq<Seq<char>> {
    match target {
        Some(name) => if workers.contains(name) {
            seq![name]
        } else {
            Seq::empty()
        },
        None => workers,
    }
}

/// The workers without the named one.
pub open spec fn without(workers: Seq<Seq<char>>, name: Seq<char>) -> Seq<Seq<char>>
    decreases workers.len(),
{
    if workers.len() == 0 {
        Seq::empty()
    } else if workers.last() == name {
        without(workers.drop_last(), name)
    } else {
        without(workers.drop_last(), name).push(workers.last())
    }
}

/// The workers that a stop leaves running.
pub open spec fn left_by(workers: Seq<Seq<char>>, target: Option<Seq<char>>) -> Seq<Seq<char>> {
    match target {
        Some(name) => without(workers, name),
        None => Seq::empty(),
    }
}

/// The reply to `stop`.
pub open spec fn stop_reply(stopped: Seq<Seq<char>>, left: nat) -> JsonV {
    let reply = ok_reply().with("stopped"@, JsonV::Arr(str_views(stopped)));
    if left == 0 {
        reply.with("stimulus"@, JsonV::Str("silent"@))
    } else {
        reply
    }
}

/// What `stop` does: the workers to end and to join before the reply goes
/// out, and the reply.
pub struct StopPlan {
    pub stopped: Vec<String>,
    pub left: Vec<String>,
    pub reply: Json,
}

/// `stop`: ends the named worker or all. The reply says that the output is
/// silent where no worker remains.
pub fn stop(workers: &Vec<String>, cmd: &Json) -> (r: StopPlan)
    ensures
        texts(r.stopped@) == stopped_by(texts(workers@), str_field(cmd@, "name"@)),
        texts(r.left@) == left_by(texts(workers@), str_field(cmd@, "name"@)),
        r.reply@ == stop_reply(texts(r.stopped@), r.left@.len() as nat),
{
    let mut stopped: Vec<String> = Vec::new();
    let mut left: Vec<String> = Vec::new();
    let ghost all = texts(workers@);
    match get_str(cmd, "name") {
        Some(name) => {
            let mut found: bool = false;
            let mut i: usize = 0;
            assert(all.take(0) =~= Seq::empty());
            assert(texts(left@) =~= Seq::empty());
            while i < workers.len()
                invariant
                    i <= workers@.len(),
                    all == texts(workers@),
                    found == all.take(i as int).contains(name@),
                    texts(left@) == without(all.take(i as int), name@),
                decreases workers@.len() - i,
            {
                let ghost seen = all.take(i as int);
                proof {
                    assert(all.take(i + 1) =~= seen.push(all[i as int]));
                    assert(all.take(i + 1).drop_last() =~= seen);
                    assert(all.take(i + 1).last() == workers@[i as int]@);
                    assert(all.take(i + 1).contains(name@) == (seen.contains(name@)
                        || all[i as int] == name@)) by {
                        let t = all.take(i + 1);
                        if seen.contains(name@) {
                            let k = choose|k: int| 0 <= k < seen.len() && seen[k] == name@;
                            assert(t[k] == name@);
                        }
                        if all[i as int] == name@ {
                            assert(t[i as int] == name@);
                        }
                        if t.contains(name@) {
                            let k = choose|k: int| 0 <= k < t.len() && t[k] == name@;
                            if k < i {
                                assert(seen[k] == name@);
                            }
                        }
                    }
                }
                if str_eq(workers[i].as_str(), name) {
                    found = true;
                } else {
                    let ghost before = left@;
                    left.push(workers[i].clone());
                    assert(texts(left@) =~= texts(before).push(workers@[i as int]@));
                }
                i = i + 1;
            }
            assert(all.take(i as int) =~= all);
            if found {
                stopped.push(name.to_owned());
                assert(texts(stopped@) =~= seq![name@]);
            } else {
                assert(texts(stopped@) =~= Seq::empty());
            }
        },
        None => {
            stopped = copy_names(workers);
            assert(texts(left@) =~= Seq::empty());
        },
    }
    let reply = ok().with("stopped", Json::strings(&stopped));
    let reply = if left.len() == 0 {
        reply.with("stimulus", Json::string("silent"))
    } else {
        reply
    };
    StopPlan { stopped, left, reply }
}

/// An optional channel as JSON.
pub open spec fn channel_or_null(c: Option<u32>) -> JsonV {
    match c {
        Some(n) => JsonV::Uint(n as u64),
        None => JsonV::Null,
    }
}

fn channel_json(c: Option<u32>) -> (r: Json)
    ensures
        r@ == channel_or_null(c),
{
    match c {
        Some(n) => Json::Uint(n as u64),
        None => Json::Null,
    }
}

/// The reply to `devices`.
pub open spec fn devices_of(
    cfg: ConfigV,
    playback: Seq<Seq<char>>,
    capture: Seq<Seq<char>>,
) -> JsonV {
    ok_reply().with("playback"@, JsonV::Arr(str_views(playback))).with(
        "capture"@,
        JsonV::Arr(str_views(capture)),
    ).with("output_channel"@, JsonV::Uint(cfg.output_channel as u64)).with(
        "input_channel"@,
        JsonV::Uint(cfg.input_channel as u64),
    ).with("output_port"@, str_or_null(cfg.output_port)).with(
        "input_port"@,
        str_or_null(cfg.input_port),
    ).with("reference_channel"@, channel_or_null(cfg.reference_channel)).with(
        "reference_port"@,
        str_or_null(cfg.reference_port),
    ).with(
        "reference_output_channel"@,
        channel_or_null(cfg.reference_output_channel),
    ).with("reference_output_port"@, str_or_null(cfg.reference_output_port))
}

/// `devices`: the ports, freshly listed, and the configured legs.
pub fn devices(cfg: &Config, playback: &Vec<String>, capture: &Vec<String>) -> (r: Json)
    ensures
        r@ == devices_of(cfg@, texts(playback@), texts(capture@)),
{
    ok().with("playback", Json::strings(playback)).with("capture", Json::strings(capture)).with(
        "output_channel",
        Json::Uint(cfg.output_channel as u64),
    ).with("input_channel", Json::Uint(cfg.input_channel as u64)).with(
        "output_port",
        Json::opt_string(&cfg.output_port),
    ).with("input_port", Json::opt_string(&cfg.input_port)).with(
        "reference_channel",
        channel_json(cfg.reference_channel),
    ).with("reference_port", Json::opt_string(&cfg.reference_port)).with(
        "reference_output_channel",
        channel_json(cfg.reference_output_channel),
    ).with("reference_output_port", Json::opt_string(&cfg.reference_output_port))
}

/// The pair of channels of a lookup, each checked, the output first.
pub open spec fn looked_up(cmd: JsonV, out_ch: u32, in_ch: u32) -> Result<(u32, u32), WireErrorV> {
    target_of(cmd, out_ch, in_ch)
}

/// The entry that `get_calibration` asks for.
pub fn calibration_target(cmd: &Json, cfg: &Config) -> (r: Result<(u32, u32), Json>)
    ensures
        match looked_up(cmd@, cfg.output_channel, cfg.input_channel) {
            Ok(pair) => r == Ok::<(u32, u32), Json>(pair),
            Err(e) => r is Err && r->Err_0@ == refusal_reply(
                e.text("calibration lookup rejected"@, Seq::empty()),
            ),
        },
{
    let e = match opt_u32(cmd, "output_channel") {
        Err(e) => e,
        Ok(o) => match opt_u32(cmd, "input_channel") {
            Err(e) => e,
            Ok(i) => {
                let out_ch: u32 = match o {
                    Some(n) => n,
                    None => cfg.output_channel,
                };
                let in_ch: u32 = match i {
                    Some(n) => n,
                    None => cfg.input_channel,
                };
                return Ok((out_ch, in_ch));
            },
        },
    };
    let none: Vec<(String, String)> = Vec::new();
    assert(trailer_views(none@) =~= Seq::empty());
    Err(refuse(e.refusal("calibration lookup rejected", none).as_str()))
}

/// A stored entry as the wire shows it: the curve and each latency as stored.
pub struct StoredCalibration {
    pub output_channel: u32,
    pub input_channel: u32,
    pub vrms_at_0dbfs_out: Option<Double>,
    pub vrms_at_0dbfs_in: Option<Double>,
    pub ref_dbfs: Double,
    pub mic_sensitivity_dbfs_at_94db_spl: Option<Double>,
    pub mic_response: Json,
    pub tau_history: Vec<Json>,
    /// How each latency's epoch relates to the one its backend is in now.
    pub tau_checks: Vec<Json>,
}

/// Whether `name` is among `names`.
fn among(names: &Vec<String>, name: &str) -> (r: bool)
    ensures
        r == texts(names@).contains(name@),
{
    let mut i: usize = 0;
    while i < names.len()
        invariant
            i <= names@.len(),
            forall|k: int| 0 <= k < i ==> (#[trigger] names@[k])@ != name@,
        decreases names@.len() - i,
    {
        if str_eq(names[i].as_str(), name) {
            assert(texts(names@)[i as int] == name@);
            return true;
        }
        i = i + 1;
    }
    proof {
        if texts(names@).contains(name@) {
            let k = choose|k: int| 0 <= k < texts(names@).len() && texts(names@)[k] == name@;
            assert(names@[k]@ == name@);
        }
    }
    false
}

/// Each name once, in the order of first mention.
pub open spec fn once_each(names: Seq<Seq<char>>) -> Seq<Seq<char>>
    decreases names.len(),
{
    if names.len() == 0 {
        Seq::empty()
    } else {
        let rest = once_each(names.drop_last());
        if rest.contains(names.last()) {
            rest
        } else {
            rest.push(names.last())
        }
    }
}

/// The backends whose epoch a reply needs: each is sampled once.
pub fn backends_to_sample(backends: &Vec<String>) -> (r: Vec<String>)
    ensures
        texts(r@) == once_each(texts(backends@)),
{
    let mut out: Vec<String> = Vec::new();
    let mut i: usize = 0;
    let ghost all = texts(backends@);
    assert(all.take(0) =~= Seq::empty());
    assert(texts(out@) =~= Seq::empty());
    while i < backends.len()
        invariant
            i <= backends@.len(),
            all == texts(backends@),
            texts(out@) == once_each(all.take(i as int)),
        decreases backends@.len() - i,
    {
        proof {
            assert(all.take(i + 1).drop_last() =~= all.take(i as int));
            assert(all.take(i + 1).last() == backends@[i as int]@);
        }
        if !among(&out, backends[i].as_str()) {
            let ghost before = out@;
            out.push(backends[i].clone());
            assert(texts(out@) =~= texts(before).push(backends@[i as int]@));
        }
        i = i + 1;
    }
    assert(all.take(i as int) =~= all);
    out
}

/// Every backend of a history is sampled, and none twice.
pub proof fn each_backend_is_sampled_once(names: Seq<Seq<char>>)
    ensures
        once_each(names).no_duplicates(),
        forall|x: Seq<char>| #[trigger] once_each(names).contains(x) <==> names.contains(x),
    decreases names.len(),
{
    if names.len() > 0 {
        let init = names.drop_last();
        let last = names.last();
        each_backend_is_sampled_once(init);
        let rest = once_each(init);
        assert forall|x: Seq<char>| #[trigger]
            once_each(names).contains(x) <==> names.contains(x) by {
            assert(rest.contains(x) <==> init.contains(x));
            if names.contains(x) {
                let k = choose|k: int| 0 <= k < names.len() && names[k] == x;
                if k < init.len() {
                    assert(init[k] == x);
                }
            }
            if init.contains(x) {
                let k = choose|k: int| 0 <= k < init.len() && init[k] == x;
                assert(names[k] == x);
            }
            assert(names[names.len() - 1] == last);
            let r = once_each(names);
            if rest.contains(x) {
                let k = choose|k: int| 0 <= k < rest.len() && rest[k] == x;
                assert(r[k] == x);
            }
            if !rest.contains(last) {
                assert(r[rest.len() as int] == last);
                if r.contains(x) {
                    let k = choose|k: int| 0 <= k < r.len() && r[k] == x;
                    if k < rest.len() {
                        assert(rest[k] == x);
                    }
                }
            }
        }
    }
}

/// The history with each entry's live check.
pub open spec fn checked_history(entries: Seq<JsonV>, checks: Seq<JsonV>) -> Seq<JsonV> {
    Seq::new(
        entries.len(),
        |i: int| entries[i].with("current_enumeration_check"@, checks[i]),
    )
}

/// The history as the wire shows it: each entry as stored, and its check.
pub fn tau_history_with_live_check(entries: &Vec<Json>, checks: &Vec<Json>) -> (r: Json)
    requires
        entries@.len() == checks@.len(),
    ensures
        r@ == JsonV::Arr(checked_history(views(entries@), views(checks@))),
{
    let mut out: Vec<Json> = Vec::new();
    let mut i: usize = 0;
    while i < entries.len()
        invariant
            i <= entries@.len(),
            entries@.len() == checks@.len(),
            out@.len() == i,
            forall|k: int|
                0 <= k < i ==> (#[trigger] out@[k])@ == entries@[k]@.with(
                    "current_enumeration_check"@,
                    checks@[k]@,
                ),
        decreases entries@.len() - i,
    {
        out.push(entries[i].copy().with("current_enumeration_check", checks[i].copy()));
        i = i + 1;
    }
    assert(views(out@) =~= checked_history(views(entries@), views(checks@)));
    Json::array(out)
}

impl StoredCalibration {
    /// Each latency has its check.
    pub open spec fn wf(&self) -> bool {
        self.tau_history@.len() == self.tau_checks@.len()
    }

    /// The history as the wire shows it.
    pub open spec fn history(&self) -> JsonV {
        JsonV::Arr(checked_history(views(self.tau_history@), views(self.tau_checks@)))
    }

    /// The entry in a list.
    pub open spec fn listed(&self) -> JsonV {
        JsonV::obj().with(
            "key"@,
            JsonV::Str(key_text(self.output_channel, self.input_channel)),
        ).with("vrms_at_0dbfs_out"@, double_or_null(self.vrms_at_0dbfs_out)).with(
            "vrms_at_0dbfs_in"@,
            double_or_null(self.vrms_at_0dbfs_in),
        ).with(
            "mic_sensitivity_dbfs_at_94db_spl"@,
            double_or_null(self.mic_sensitivity_dbfs_at_94db_spl),
        ).with("mic_response"@, self.mic_response@).with("tau_history"@, self.history())
    }

    fn list_entry(&self) -> (r: Json)
        requires
            self.wf(),
        ensures
            r@ == self.listed(),
    {
        Json::obj().with(
            "key",
            Json::string(cal_key(self.output_channel, self.input_channel).as_str()),
        ).with("vrms_at_0dbfs_out", Json::opt_float(self.vrms_at_0dbfs_out)).with(
            "vrms_at_0dbfs_in",
            Json::opt_float(self.vrms_at_0dbfs_in),
        ).with(
            "mic_sensitivity_dbfs_at_94db_spl",
            Json::opt_float(self.mic_sensitivity_dbfs_at_94db_spl),
        ).with("mic_response", self.mic_response.copy()).with(
            "tau_history",
            tau_history_with_live_check(&self.tau_history, &self.tau_checks),
        )
    }
}

/// The reply to `get_calibration`.
pub open spec fn found_reply(loaded: Result<Option<StoredCalibration>, String>) -> JsonV {
    match loaded {
        Err(e) => refusal_reply(e@),
        Ok(None) => ok_reply().with("found"@, JsonV::Bool(false)),
        Ok(Some(c)) => ok_reply().with("found"@, JsonV::Bool(true)).with(
            "key"@,
            JsonV::Str(key_text(c.output_channel, c.input_channel)),
        ).with("vrms_at_0dbfs_out"@, double_or_null(c.vrms_at_0dbfs_out)).with(
            "vrms_at_0dbfs_in"@,
            double_or_null(c.vrms_at_0dbfs_in),
        ).with("ref_dbfs"@, finite_or_null(c.ref_dbfs)).with(
            "mic_sensitivity_dbfs_at_94db_spl"@,
            double_or_null(c.mic_sensitivity_dbfs_at_94db_spl),
        ).with("mic_response"@, c.mic_response@).with("tau_history"@, c.history()),
    }
}

/// `get_calibration`, once the entry was looked up.
pub fn get_calibration(loaded: &Result<Option<StoredCalibration>, String>) -> (r: Json)
    requires
        match *loaded {
            Ok(Some(c)) => c.wf(),
            _ => true,
        },
    ensures
        r@ == found_reply(*loaded),
{
    match loaded {
        Err(e) => refuse(e.as_str()),
        Ok(None) => ok().with("found", Json::Bool(false)),
        Ok(Some(c)) => ok().with("found", Json::Bool(true)).with(
            "key",
            Json::string(cal_key(c.output_channel, c.input_channel).as_str()),
        ).with("vrms_at_0dbfs_out", Json::opt_float(c.vrms_at_0dbfs_out)).with(
            "vrms_at_0dbfs_in",
            Json::opt_float(c.vrms_at_0dbfs_in),
        ).with("ref_dbfs", Json::float(c.ref_dbfs)).with(
            "mic_sensitivity_dbfs_at_94db_spl",
            Json::opt_float(c.mic_sensitivity_dbfs_at_94db_spl),
        ).with("mic_response", c.mic_response.copy()).with(
            "tau_history",
            tau_history_with_live_check(&c.tau_history, &c.tau_checks),
        ),
    }
}

/// The entries of a list.
pub open spec fn listed_all(cals: Seq<StoredCalibration>) -> Seq<JsonV> {
    Seq::new(cals.len(), |i: int| cals[i].listed())
}

/// The reply to `list_calibrations`.
pub open spec fn list_reply(loaded: Result<Vec<StoredCalibration>, String>) -> JsonV {
    match loaded {
        Err(e) => refusal_reply(e@),
        Ok(cals) => ok_reply().with("calibrations"@, JsonV::Arr(listed_all(cals@))),
    }
}

/// `list_calibrations`, once the entries were loaded.
pub fn list_calibrations(loaded: &Result<Vec<StoredCalibration>, String>) -> (r: Json)
    requires
        match *loaded {
            Ok(cals) => forall|i: int| 0 <= i < cals@.len() ==> (#[trigger] cals@[i]).wf(),
            Err(_) => true,
        },
    ensures
        r@ == list_reply(*loaded),
{
    match loaded {
        Err(e) => refuse(e.as_str()),
        Ok(cals) => {
            let mut out: Vec<Json> = Vec::new();
            let mut i: usize = 0;
            while i < cals.len()
                invariant
                    i <= cals@.len(),
                    forall|k: int| 0 <= k < cals@.len() ==> (#[trigger] cals@[k]).wf(),
                    out@.len() == i,
                    forall|k: int| 0 <= k < i ==> (#[trigger] out@[k])@ == cals@[k].listed(),
                decreases cals@.len() - i,
            {
                out.push(cals[i].list_entry());
                i = i + 1;
            }
            assert(views(out@) =~= listed_all(cals@));
            ok().with("calibrations", Json::array(out))
        },
    }
}

/// The meter to read, or the refusal where none is configured.
pub fn dmm_target(cfg: &Config) -> (r: Result<String, Json>)
    ensures
        match (cfg.dmm_host, r) {
            (Some(h), Ok(s)) => s@ == h@,
            (None, Err(e)) => e@ == refusal_reply(
                "no DMM configured on server \u{2014} run: ac setup dmm <host>"@,
            ),
            _ => false,
        },
{
    match &cfg.dmm_host {
        Some(h) => Ok(h.clone()),
        None => Err(refuse("no DMM configured on server \u{2014} run: ac setup dmm <host>")),
    }
}

/// The reply to `dmm_read`.
pub open spec fn dmm_reply(host: Seq<char>, reading: Option<Double>) -> JsonV {
    match reading {
        Some(v) => ok_reply().with("vrms"@, finite_or_null(v)).with("idn"@, JsonV::Null),
        None => refusal_reply("DMM at "@ + host + " did not respond"@),
    }
}

/// `dmm_read`, once the meter was read.
pub fn dmm_read(host: &str, reading: Option<Double>) -> (r: Json)
    ensures
        r@ == dmm_reply(host@, reading),
{
    match reading {
        Some(v) => ok().with("vrms", Json::float(v)).with("idn", Json::Null),
        None => refuse("DMM at ".to_owned().concat(host).concat(" did not respond").as_str()),
    }
}

/// Who the daemon listens to.
#[derive(Debug, Clone, Copy, PartialEq, Eq, Structural)]
pub enum ListenMode {
    Public,
    Local,
}

impl ListenMode {
    pub open spec fn name_text(self) -> Seq<char> {
        match self {
            ListenMode::Public => "public"@,
            ListenMode::Local => "local"@,
        }
    }

    pub fn name(self) -> (r: &'static str)
        ensures
            r@ == self.name_text(),
    {
        match self {
            ListenMode::Public => "public",
            ListenMode::Local => "local",
        }
    }

    /// The address to bind.
    pub open spec fn address_text(self) -> Seq<char> {
        match self {
            ListenMode::Public => "*"@,
            ListenMode::Local => "127.0.0.1"@,
        }
    }

    /// The address to bind.
    pub fn address(self) -> (r: &'static str)
        ensures
            r@ == self.address_text(),
    {
        match self {
            ListenMode::Public => "*",
            ListenMode::Local => "127.0.0.1",
        }
    }
}

/// The reply to a change of who is listened to.
pub open spec fn bound_reply(mode: ListenMode) -> JsonV {
    ok_reply().with("bind_addr"@, JsonV::Str(mode.address_text())).with(
        "listen_mode"@,
        JsonV::Str(mode.name_text()),
    )
}

fn bound(mode: ListenMode) -> (r: Json)
    ensures
        r@ == bound_reply(mode),
{
    ok().with("bind_addr", Json::string(mode.address())).with(
        "listen_mode",
        Json::string(mode.name()),
    )
}

/// `server_enable`: listens to all. The sockets are rebound to the mode's
/// address.
pub fn server_enable(mode: &mut ListenMode) -> (r: Json)
    ensures
        *final(mode) == ListenMode::Public,
        r@ == bound_reply(ListenMode::Public),
{
    *mode = ListenMode::Public;
    bound(ListenMode::Public)
}

/// `server_disable`: listens to this host only.
pub fn server_disable(mode: &mut ListenMode) -> (r: Json)
    ensures
        *final(mode) == ListenMode::Local,
        r@ == bound_reply(ListenMode::Local),
{
    *mode = ListenMode::Local;
    bound(ListenMode::Local)
}

/// An endpoint of the daemon.
pub open spec fn endpoint_text(mode: ListenMode, port: u16) -> Seq<char> {
    "tcp://"@ + mode.address_text() + ":"@ + dec(port as nat)
}

fn endpoint(mode: ListenMode, port: u16) -> (r: String)
    ensures
        r@ == endpoint_text(mode, port),
{
    "tcp://".to_owned().concat(mode.address()).concat(":").concat(decimal(port as u64).as_str())
}

/// The reply to `server_connections`.
pub open spec fn connections_of(
    mode: ListenMode,
    ctrl_port: u16,
    data_port: u16,
    workers: Seq<Seq<char>>,
    id: &Identity,
) -> JsonV {
    identified(
        ok_reply().with("listen_mode"@, JsonV::Str(mode.name_text())).with(
            "ctrl_endpoint"@,
            JsonV::Str(endpoint_text(mode, ctrl_port)),
        ).with("data_endpoint"@, JsonV::Str(endpoint_text(mode, data_port))).with(
            "clients"@,
            JsonV::Arr(Seq::empty()),
        ).with("workers"@, JsonV::Arr(str_views(workers))),
        id,
    )
}

/// `server_connections`: the endpoints, the workers, and the daemon.
pub fn server_connections(
    mode: ListenMode,
    ctrl_port: u16,
    data_port: u16,
    workers: &Vec<String>,
    id: &Identity,
) -> (r: Json)
    ensures
        r@ == connections_of(mode, ctrl_port, data_port, texts(workers@), id),
{
    let clients: Vec<Json> = Vec::new();
    assert(views(clients@) =~= Seq::empty());
    let reply = ok().with("listen_mode", Json::string(mode.name())).with(
        "ctrl_endpoint",
        Json::string(endpoint(mode, ctrl_port).as_str()),
    ).with("data_endpoint", Json::string(endpoint(mode, data_port).as_str())).with(
        "clients",
        Json::array(clients),
    ).with("workers", Json::strings(workers));
    identify(reply, id)
}

/// A stop ends what it names and nothing else: each worker is either ended or
/// left, and a stop of all leaves none.
pub proof fn a_stop_ends_what_it_names(workers: Seq<Seq<char>>, target: Option<Seq<char>>)
    ensures
        forall|w: Seq<char>|
            #![trigger stopped_by(workers, target).contains(w)]
            #![trigger left_by(workers, target).contains(w)]
            workers.contains(w) <==> stopped_by(workers, target).contains(w) || left_by(
                workers,
                target,
            ).contains(w),
        forall|w: Seq<char>| #[trigger]
            stopped_by(workers, target).contains(w) ==> !left_by(workers, target).contains(w),
        target is None ==> left_by(workers, target).len() == 0,
{
    match target {
        Some(name) => {
            removal(workers, name);
            assert forall|w: Seq<char>| #[trigger] stopped_by(workers, target).contains(w) implies w
                == name && workers.contains(name) by {
                let s = stopped_by(workers, target);
                let k = choose|k: int| 0 <= k < s.len() && s[k] == w;
            }
            if workers.contains(name) {
                assert(stopped_by(workers, target)[0] == name);
            }
        },
        None => {},
    }
}

proof fn removal(workers: Seq<Seq<char>>, name: Seq<char>)
    ensures
        forall|w: Seq<char>| #[trigger]
            without(workers, name).contains(w) <==> workers.contains(w) && w != name,
    decreases workers.len(),
{
    if workers.len() > 0 {
        let init = workers.drop_last();
        let last = workers.last();
        removal(init, name);
        let r = without(workers, name);
        let s = without(init, name);
        assert forall|w: Seq<char>| #[trigger] r.contains(w) <==> workers.contains(w) && w
            != name by {
            assert(s.contains(w) <==> init.contains(w) && w != name);
            if workers.contains(w) {
                let k = choose|k: int| 0 <= k < workers.len() && workers[k] == w;
                if k < init.len() {
                    assert(init[k] == w);
                }
            }
            if init.contains(w) {
                let k = choose|k: int| 0 <= k < init.len() && init[k] == w;
                assert(workers[k] == w);
            }
            assert(workers[workers.len() - 1] == last);
            if last != name {
                assert(r[s.len() as int] == last);
                if s.contains(w) {
                    let k = choose|k: int| 0 <= k < s.len() && s[k] == w;
                    assert(r[k] == w);
                }
                if r.contains(w) {
                    let k = choose|k: int| 0 <= k < r.len() && r[k] == w;
                    if k < s.len() {
                        assert(s[k] == w);
                    }
                }
            }
        }
    }
}

/// `status` tells each thing under its own name: whether anything runs and
/// what, the daemon's identity, and of the backend what is required, what is
/// available and what is in use.
pub proof fn the_status_is_told_by_name(
    workers: Seq<Seq<char>>,
    mtime: JsonV,
    listen: Seq<char>,
    id: Identity,
    backend: BackendStatus,
)
    ensures
        ({
            let reply = status_of(workers, mtime, listen, &id, &backend);
            &&& reply.field("ok"@) == Some(JsonV::Bool(true))
            &&& reply.field("busy"@) == Some(JsonV::Bool(workers.len() > 0))
            &&& workers.len() == 0 ==> reply.field("running_cmd"@) == Some(JsonV::Null)
            &&& workers.len() > 0 ==> reply.field("running_cmd"@) == Some(JsonV::Str(workers[0]))
            &&& reply.field("src_mtime"@) == Some(mtime)
            &&& reply.field("listen_mode"@) == Some(JsonV::Str(listen))
            &&& reply.field("server_enabled"@) == Some(JsonV::Bool(true))
            &&& reply.field("home"@) == Some(id.home@)
            &&& reply.field("config_path"@) == Some(JsonV::Str(id.config_path@))
            &&& reply.field("pid"@) == Some(JsonV::Uint(id.pid as u64))
            &&& reply.field("started_at"@) == Some(id.started_at@)
            &&& reply.field("spawn_mode"@) == Some(id.spawn_mode@)
            &&& reply.field("backend_required"@) == Some(backend.required@)
            &&& reply.field("backend_available"@) == Some(backend.available@)
            &&& reply.field("backend"@) == Some(backend.backend@)
        }),
{
    fields_read_back();
    reveal_strlit("ok");
    reveal_strlit("busy");
    reveal_strlit("running_cmd");
    reveal_strlit("src_mtime");
    reveal_strlit("listen_mode");
    reveal_strlit("server_enabled");
    reveal_strlit("home");
    reveal_strlit("config_path");
    reveal_strlit("pid");
    reveal_strlit("started_at");
    reveal_strlit("spawn_mode");
    reveal_strlit("backend_required");
    reveal_strlit("backend_available");
    reveal_strlit("backend");
    assert("ok"@.len() == 2);
    assert("busy"@.len() == 4);
    assert("running_cmd"@.len() == 11);
    assert("src_mtime"@.len() == 9);
    assert("listen_mode"@.len() == 11);
    assert("server_enabled"@.len() == 14);
    assert("home"@.len() == 4);
    assert("config_path"@.len() == 11);
    assert("pid"@.len() == 3);
    assert("started_at"@.len() == 10);
    assert("spawn_mode"@.len() == 10);
    assert("backend_required"@.len() == 16);
    assert("backend_available"@.len() == 17);
    assert("backend"@.len() == 7);
    assert("busy"@[0] != "home"@[0]);
    assert("running_cmd"@[0] != "listen_mode"@[0]);
    assert("running_cmd"@[0] != "config_path"@[0]);
    assert("listen_mode"@[0] != "config_path"@[0]);
    assert("started_at"@[1] != "spawn_mode"@[1]);
}

/// `devices` lists the ports of each side under that side's name, and each
/// leg's channel and port as that leg's.
pub proof fn devices_are_told_by_name(
    cfg: ConfigV,
    playback: Seq<Seq<char>>,
    capture: Seq<Seq<char>>,
)
    ensures
        ({
            let reply = devices_of(cfg, playback, capture);
            &&& reply.field("ok"@) == Some(JsonV::Bool(true))
            &&& reply.field("playback"@) == Some(JsonV::Arr(str_views(playback)))
            &&& reply.field("capture"@) == Some(JsonV::Arr(str_views(capture)))
            &&& reply.field("output_channel"@) == Some(JsonV::Uint(cfg.output_channel as u64))
            &&& reply.field("input_channel"@) == Some(JsonV::Uint(cfg.input_channel as u64))
            &&& reply.field("output_port"@) == Some(str_or_null(cfg.output_port))
            &&& reply.field("input_port"@) == Some(str_or_null(cfg.input_port))
            &&& reply.field("reference_port"@) == Some(str_or_null(cfg.reference_port))
            &&& reply.field("reference_output_port"@) == Some(
                str_or_null(cfg.reference_output_port),
            )
            &&& cfg.reference_channel is None ==> reply.field("reference_channel"@) == Some(
                JsonV::Null,
            )
            &&& cfg.reference_channel matches Some(n) ==> reply.field("reference_channel"@) == Some(
                JsonV::Uint(n as u64),
            )
            &&& cfg.reference_output_channel is None ==> reply.field("reference_output_channel"@)
                == Some(JsonV::Null)
            &&& cfg.reference_output_channel matches Some(n) ==> reply.field(
                "reference_output_channel"@,
            ) == Some(JsonV::Uint(n as u64))
        }),
{
    fields_read_back();
    reveal_strlit("ok");
    reveal_strlit("playback");
    reveal_strlit("capture");
    reveal_strlit("output_channel");
    reveal_strlit("input_channel");
    reveal_strlit("output_port");
    reveal_strlit("input_port");
    reveal_strlit("reference_channel");
    reveal_strlit("reference_port");
    reveal_strlit("reference_output_channel");
    reveal_strlit("reference_output_port");
    assert("ok"@.len() == 2);
    assert("playback"@.len() == 8);
    assert("capture"@.len() == 7);
    assert("output_channel"@.len() == 14);
    assert("input_channel"@.len() == 13);
    assert("output_port"@.len() == 11);
    assert("input_port"@.len() == 10);
    assert("reference_channel"@.len() == 17);
    assert("reference_port"@.len() == 14);
    assert("reference_output_channel"@.len() == 24);
    assert("reference_output_port"@.len() == 21);
    assert("output_channel"@[0] != "reference_port"@[0]);
}

/// A stored calibration is told by name, alone and in a list alike: its key,
/// each voltage as what it is, the microphone's sensitivity and curve, and the
/// latencies.
pub proof fn a_stored_calibration_is_told_by_name(c: StoredCalibration)
    ensures
        ({
            let reply = found_reply(Ok(Some(c)));
            &&& reply.field("ok"@) == Some(JsonV::Bool(true))
            &&& reply.field("found"@) == Some(JsonV::Bool(true))
            &&& reply.field("key"@) == Some(
                JsonV::Str(key_text(c.output_channel, c.input_channel)),
            )
            &&& reply.field("vrms_at_0dbfs_out"@) == Some(double_or_null(c.vrms_at_0dbfs_out))
            &&& reply.field("vrms_at_0dbfs_in"@) == Some(double_or_null(c.vrms_at_0dbfs_in))
            &&& reply.field("ref_dbfs"@) == Some(finite_or_null(c.ref_dbfs))
            &&& reply.field("mic_sensitivity_dbfs_at_94db_spl"@) == Some(
                double_or_null(c.mic_sensitivity_dbfs_at_94db_spl),
            )
            &&& reply.field("mic_response"@) == Some(c.mic_response@)
            &&& reply.field("tau_history"@) == Some(c.history())
        }),
        ({
            let entry = c.listed();
            &&& entry.field("key"@) == Some(
                JsonV::Str(key_text(c.output_channel, c.input_channel)),
            )
            &&& entry.field("vrms_at_0dbfs_out"@) == Some(double_or_null(c.vrms_at_0dbfs_out))
            &&& entry.field("vrms_at_0dbfs_in"@) == Some(double_or_null(c.vrms_at_0dbfs_in))
            &&& entry.field("mic_sensitivity_dbfs_at_94db_spl"@) == Some(
                double_or_null(c.mic_sensitivity_dbfs_at_94db_spl),
            )
            &&& entry.field("mic_response"@) == Some(c.mic_response@)
            &&& entry.field("tau_history"@) == Some(c.history())
        }),
{
    fields_read_back();
    reveal_strlit("ok");
    reveal_strlit("found");
    reveal_strlit("key");
    reveal_strlit("vrms_at_0dbfs_out");
    reveal_strlit("vrms_at_0dbfs_in");
    reveal_strlit("ref_dbfs");
    reveal_strlit("mic_sensitivity_dbfs_at_94db_spl");
    reveal_strlit("mic_response");
    reveal_strlit("tau_history");
    assert("ok"@.len() == 2);
    assert("found"@.len() == 5);
    assert("key"@.len() == 3);
    assert("vrms_at_0dbfs_out"@.len() == 17);
    assert("vrms_at_0dbfs_in"@.len() == 16);
    assert("ref_dbfs"@.len() == 8);
    assert("mic_sensitivity_dbfs_at_94db_spl"@.len() == 32);
    assert("mic_response"@.len() == 12);
    assert("tau_history"@.len() == 11);
}

/// A lookup that finds nothing says so and is no error; one that fails, and a
/// list that cannot be read, are refused with the reason. A list has one entry
/// for each calibration, in order.
pub proof fn a_lookup_tells_what_it_found(
    fault: String,
    loaded: Result<Vec<StoredCalibration>, String>,
)
    ensures
        found_reply(Ok(None)).field("ok"@) == Some(JsonV::Bool(true)),
        found_reply(Ok(None)).field("found"@) == Some(JsonV::Bool(false)),
        found_reply(Err(fault)).field("ok"@) == Some(JsonV::Bool(false)),
        found_reply(Err(fault)).field("error"@) == Some(JsonV::Str(fault@)),
        loaded matches Err(e) ==> list_reply(loaded).field("ok"@) == Some(JsonV::Bool(false))
            && list_reply(loaded).field("error"@) == Some(JsonV::Str(e@)),
        loaded matches Ok(cals) ==> list_reply(loaded).field("ok"@) == Some(JsonV::Bool(true)) && (
        list_reply(loaded).field("calibrations"@) matches Some(JsonV::Arr(told)) && told.len()
            == cals@.len() && forall|i: int|
            0 <= i < told.len() ==> (#[trigger] told[i]) == cals@[i].listed()),
{
    fields_read_back();
    reveal_strlit("ok");
    reveal_strlit("error");
    reveal_strlit("found");
    reveal_strlit("calibrations");
    assert("ok"@.len() == 2);
    assert("error"@.len() == 5);
    assert("found"@.len() == 5);
    assert("calibrations"@.len() == 12);
    assert("error"@[0] != "found"@[0]);
}

/// Each latency of a history is told as it was stored, with its own check
/// beside it.
pub proof fn each_latency_has_its_own_check(entries: Seq<JsonV>, checks: Seq<JsonV>, i: int)
    requires
        entries.len() == checks.len(),
        0 <= i < entries.len(),
        entries[i] is Obj,
    ensures
        checked_history(entries, checks).len() == entries.len(),
        checked_history(entries, checks)[i].field("current_enumeration_check"@) == Some(checks[i]),
        forall|name: Seq<char>|
            name != "current_enumeration_check"@ ==> #[trigger] checked_history(
                entries,
                checks,
            )[i].field(name) == entries[i].field(name),
{
    fields_read_back();
}

/// The reply to a stop tells which workers it ended, and that the output is
/// silent exactly where none is left.
pub proof fn a_stop_is_told_by_name(stopped: Seq<Seq<char>>, left: nat)
    ensures
        stop_reply(stopped, left).field("ok"@) == Some(JsonV::Bool(true)),
        stop_reply(stopped, left).field("stopped"@) == Some(JsonV::Arr(str_views(stopped))),
        left == 0 ==> stop_reply(stopped, left).field("stimulus"@) == Some(JsonV::Str("silent"@)),
        left > 0 ==> stop_reply(stopped, left).field("stimulus"@) is None,
{
    fields_read_back();
    reveal_strlit("ok");
    reveal_strlit("stopped");
    reveal_strlit("stimulus");
    assert("ok"@.len() == 2);
    assert("stopped"@.len() == 7);
    assert("stimulus"@.len() == 8);
}

/// What a stop leaves keeps its order: a worker that comes after others stays
/// after them, unless it is the one that is stopped.
pub proof fn a_stop_keeps_the_order(workers: Seq<Seq<char>>, name: Seq<char>, last: Seq<char>)
    ensures
        last != name ==> left_by(workers.push(last), Some(name)) == left_by(
            workers,
            Some(name),
        ).push(last),
        left_by(workers.push(name), Some(name)) == left_by(workers, Some(name)),
{
    assert(workers.push(last).drop_last() =~= workers);
    assert(workers.push(name).drop_last() =~= workers);
}

/// A reading of the meter is told as the voltage; a meter that did not answer
/// is refused.
pub proof fn a_meter_is_told_by_name(host: Seq<char>, reading: Option<Double>)
    ensures
        reading matches Some(v) ==> dmm_reply(host, reading).field("ok"@) == Some(JsonV::Bool(true))
            && dmm_reply(host, reading).field("vrms"@) == Some(finite_or_null(v)) && dmm_reply(
            host,
            reading,
        ).field("idn"@) == Some(JsonV::Null),
        reading is None ==> dmm_reply(host, reading).field("ok"@) == Some(JsonV::Bool(false)),
{
    fields_read_back();
    reveal_strlit("ok");
    reveal_strlit("error");
    reveal_strlit("vrms");
    reveal_strlit("idn");
    assert("ok"@.len() == 2);
    assert("error"@.len() == 5);
    assert("vrms"@.len() == 4);
    assert("idn"@.len() == 3);
}

/// The public mode listens on every address and the local one on this host
/// only; replies tell the mode and the address each under its own name, and
/// the two endpoints apart.
pub proof fn listening_is_told_by_name(
    mode: ListenMode,
    ctrl: u16,
    data: u16,
    workers: Seq<Seq<char>>,
    id: Identity,
)
    ensures
        mode.address_text() == "*"@ <==> mode == ListenMode::Public,
        mode.name_text() == "public"@ <==> mode == ListenMode::Public,
        mode.address_text() == "127.0.0.1"@ <==> mode == ListenMode::Local,
        mode.name_text() == "local"@ <==> mode == ListenMode::Local,
        bound_reply(mode).field("ok"@) == Some(JsonV::Bool(true)),
        bound_reply(mode).field("bind_addr"@) == Some(JsonV::Str(mode.address_text())),
        bound_reply(mode).field("listen_mode"@) == Some(JsonV::Str(mode.name_text())),
        ({
            let reply = connections_of(mode, ctrl, data, workers, &id);
            &&& reply.field("ok"@) == Some(JsonV::Bool(true))
            &&& reply.field("listen_mode"@) == Some(JsonV::Str(mode.name_text()))
            &&& reply.field("ctrl_endpoint"@) == Some(JsonV::Str(endpoint_text(mode, ctrl)))
            &&& reply.field("data_endpoint"@) == Some(JsonV::Str(endpoint_text(mode, data)))
            &&& reply.field("clients"@) == Some(JsonV::Arr(Seq::empty()))
            &&& reply.field("workers"@) == Some(JsonV::Arr(str_views(workers)))
            &&& reply.field("home"@) == Some(id.home@)
            &&& reply.field("config_path"@) == Some(JsonV::Str(id.config_path@))
            &&& reply.field("pid"@) == Some(JsonV::Uint(id.pid as u64))
            &&& reply.field("started_at"@) == Some(id.started_at@)
            &&& reply.field("spawn_mode"@) == Some(id.spawn_mode@)
        }),
{
    fields_read_back();
    reveal_strlit("ok");
    reveal_strlit("bind_addr");
    reveal_strlit("listen_mode");
    reveal_strlit("ctrl_endpoint");
    reveal_strlit("data_endpoint");
    reveal_strlit("clients");
    reveal_strlit("workers");
    reveal_strlit("home");
    reveal_strlit("config_path");
    reveal_strlit("pid");
    reveal_strlit("started_at");
    reveal_strlit("spawn_mode");
    assert("ok"@.len() == 2);
    assert("bind_addr"@.len() == 9);
    assert("listen_mode"@.len() == 11);
    assert("ctrl_endpoint"@.len() == 13);
    assert("data_endpoint"@.len() == 13);
    assert("clients"@.len() == 7);
    assert("workers"@.len() == 7);
    assert("home"@.len() == 4);
    assert("config_path"@.len() == 11);
    assert("pid"@.len() == 3);
    assert("started_at"@.len() == 10);
    assert("spawn_mode"@.len() == 10);
    assert("listen_mode"@[0] != "config_path"@[0]);
    assert("ctrl_endpoint"@[0] != "data_endpoint"@[0]);
    assert("clients"@[0] != "workers"@[0]);
    assert("started_at"@[1] != "spawn_mode"@[1]);
    reveal_strlit("*");
    reveal_strlit("127.0.0.1");
    reveal_strlit("public");
    reveal_strlit("local");
    assert("*"@.len() == 1);
    assert("127.0.0.1"@.len() == 9);
    assert("public"@.len() == 6);
    assert("local"@.len() == 5);
}

} // verus!
