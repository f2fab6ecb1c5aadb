//! Port lists and the resolution of configured legs to port names.
//!
//! Resolution fails rather than fabricating: an index without a port is an
//! error that names what is available, never a made-up port name or another
//! leg's port.
use vstd::prelude::*;

use crate::config::{Config, ConfigV};
use crate::json::{opt_text, Json, JsonV};
use crate::text::{dec, decimal, join, joined, str_eq, texts};
use crate::wire::{opt_u32_array, opt_u32_array_of, trailer_views, u32_items, u32_of, WireErrorV};

verus! {

/// The port lists of the last hardware scan, each filled on first use.
#[derive(Debug)]
pub struct PortCache {
    pub playback: Option<Vec<String>>,
    pub capture: Option<Vec<String>>,
}

/// The names in an optional list.
pub open spec fn names(list: Option<Vec<String>>) -> Option<Seq<Seq<char>>> {
    match list {
        Some(v) => Some(texts(v@)),
        None => None,
    }
}

/// A copy of a list of names.
pub fn copy_names(list: &Vec<String>) -> (r: Vec<String>)
    ensures
        texts(r@) == texts(list@),
        r.len() == list.len(),
{
    let mut out: Vec<String> = Vec::new();
    let mut i: usize = 0;
    while i < list.len()
        invariant
            i <= list.len(),
            out.len() == i,
            forall|k: int| 0 <= k < i ==> (#[trigger] out@[k])@ == list@[k]@,
        decreases list.len() - i,
    {
        out.push(list[i].clone());
        i = i + 1;
    }
    assert(texts(out@) =~= texts(list@));
    out
}

/// The playback ports: those cached, or `probed` when none are, which then
/// become the cached ones.
pub fn cached_playback_ports(cache: &mut PortCache, probed: &Vec<String>) -> (r: Vec<String>)
    ensures
        names(final(cache).playback) == Some(texts(r@)),
        texts(r@) == (match names(old(cache).playback) {
            Some(cached) => cached,
            None => texts(probed@),
        }),
        final(cache).capture == old(cache).capture,
{
    match &cache.playback {
        Some(list) => copy_names(list),
        None => {
            let list = copy_names(probed);
            cache.playback = Some(copy_names(probed));
            list
        },
    }
}

/// The capture ports: those cached, or `probed` when none are, which then
/// become the cached ones.
pub fn cached_capture_ports(cache: &mut PortCache, probed: &Vec<String>) -> (r: Vec<String>)
    ensures
        names(final(cache).capture) == Some(texts(r@)),
        texts(r@) == (match names(old(cache).capture) {
            Some(cached) => cached,
            None => texts(probed@),
        }),
        final(cache).playback == old(cache).playback,
{
    match &cache.capture {
        Some(list) => copy_names(list),
        None => {
            let list = copy_names(probed);
            cache.capture = Some(copy_names(probed));
            list
        },
    }
}

/// A hardware rescan: both lists are replaced.
pub fn refresh_port_cache(cache: &mut PortCache, playback: Vec<String>, capture: Vec<String>)
    ensures
        names(final(cache).playback) == Some(texts(playback@)),
        names(final(cache).capture) == Some(texts(capture@)),
{
    cache.playback = Some(playback);
    cache.capture = Some(capture);
}

/// The error for a channel index without a port: the kind, the index, and
/// every port that is available.
pub open spec fn out_of_range_text(
    kind: Seq<char>,
    channel: u32,
    ports: Seq<Seq<char>>,
) -> Seq<char> {
    if ports.len() == 0 {
        "no physical "@ + kind + " ports are available, so channel "@ + dec(
            channel as nat,
        ) + " cannot be resolved \u{2014} is the audio server running?"@
    } else {
        kind + " channel "@ + dec(channel as nat)
            + " is out of range \u{2014} only "@ + dec(ports.len()) + " physical "@
            + kind + " port(s) available: "@ + joined(ports, ", "@)
    }
}

/// The error for a channel index without a port.
pub fn out_of_range(kind: &str, channel: u32, ports: &Vec<String>) -> (r: String)
    ensures
        r@ == out_of_range_text(kind@, channel, texts(ports@)),
{
    if ports.len() == 0 {
        return "no physical ".to_owned().concat(kind).concat(
            " ports are available, so channel ",
        ).concat(decimal(channel as u64).as_str()).concat(
            " cannot be resolved \u{2014} is the audio server running?",
        );
    }
    kind.to_owned().concat(" channel ").concat(decimal(channel as u64).as_str()).concat(
        " is out of range \u{2014} only ",
    ).concat(decimal(ports.len() as u64).as_str()).concat(" physical ").concat(kind).concat(
        " port(s) available: ",
    ).concat(join(ports, ", ").as_str())
}

/// The error for a sticky port name without the channel that gates it.
pub open spec fn orphaned_text(port_key: Seq<char>, channel_key: Seq<char>) -> Seq<char> {
    port_key + " is set but "@ + channel_key
        + " is not, so the port would be ignored \u{2014} set "@ + channel_key + ", or clear "@
        + port_key
}

/// The error for a sticky port name without the channel that gates it, so
/// that the name would be read and ignored.
pub fn orphaned_sticky(port_key: &str, channel_key: &str) -> (r: String)
    ensures
        r@ == orphaned_text(port_key@, channel_key@),
{
    port_key.to_owned().concat(" is set but ").concat(channel_key).concat(
        " is not, so the port would be ignored \u{2014} set ",
    ).concat(channel_key).concat(", or clear ").concat(port_key)
}

/// A resolved port name, or the error text.
pub type PortV = Result<Seq<char>, Seq<char>>;

/// The port at `channel` in a list.
pub open spec fn port_at(kind: Seq<char>, channel: u32, ports: Seq<Seq<char>>) -> PortV {
    if channel < ports.len() {
        Ok(ports[channel as int])
    } else {
        Err(out_of_range_text(kind, channel, ports))
    }
}

/// What a resolution returns.
pub open spec fn port_view(r: Result<String, String>) -> PortV {
    match r {
        Ok(p) => Ok(p@),
        Err(e) => Err(e@),
    }
}

fn lookup_port(kind: &str, channel: u32, ports: &Vec<String>) -> (r: Result<String, String>)
    ensures
        port_view(r) == port_at(kind@, channel, texts(ports@)),
{
    if (channel as u64) < ports.len() as u64 {
        Ok(ports[channel as usize].clone())
    } else {
        Err(out_of_range(kind, channel, ports))
    }
}

/// The main output: its sticky name, or the playback port at its index.
pub open spec fn output_of(cfg: ConfigV, playback: Seq<Seq<char>>) -> PortV {
    match cfg.output_port {
        Some(p) => Ok(p),
        None => port_at("playback"@, cfg.output_channel, playback),
    }
}

/// The main output port.
pub fn resolve_output(cfg: &Config, playback: &Vec<String>) -> (r: Result<String, String>)
    ensures
        port_view(r) == output_of(cfg@, texts(playback@)),
{
    match &cfg.output_port {
        Some(p) => Ok(p.clone()),
        None => lookup_port("playback", cfg.output_channel, playback),
    }
}

/// An explicitly named output channel: the sticky name stands only for the
/// configured channel.
pub open spec fn output_by_channel(
    cfg: ConfigV,
    playback: Seq<Seq<char>>,
    channel: u32,
) -> PortV {
    if channel == cfg.output_channel {
        output_of(cfg, playback)
    } else {
        port_at("playback"@, channel, playback)
    }
}

/// The playback port of an explicitly named channel.
pub fn resolve_output_by_channel(
    cfg: &Config,
    playback: &Vec<String>,
    channel: u32,
) -> (r: Result<String, String>)
    ensures
        port_view(r) == output_by_channel(cfg@, texts(playback@), channel),
{
    if channel == cfg.output_channel {
        return resolve_output(cfg, playback);
    }
    lookup_port("playback", channel, playback)
}

/// The measurement input: its sticky name, or the capture port at its index.
pub open spec fn input_of(cfg: ConfigV, capture: Seq<Seq<char>>) -> PortV {
    match cfg.input_port {
        Some(p) => Ok(p),
        None => port_at("capture"@, cfg.input_channel, capture),
    }
}

/// The measurement input port.
pub fn resolve_input(cfg: &Config, capture: &Vec<String>) -> (r: Result<String, String>)
    ensures
        port_view(r) == input_of(cfg@, texts(capture@)),
{
    match &cfg.input_port {
        Some(p) => Ok(p.clone()),
        None => lookup_port("capture", cfg.input_channel, capture),
    }
}

/// The reference input: none when no channel is configured, an error when a
/// sticky name has no channel or the channel has no port.
pub open spec fn ref_input_of(
    cfg: ConfigV,
    capture: Seq<Seq<char>>,
) -> Result<Option<Seq<char>>, Seq<char>> {
    match cfg.reference_channel {
        None => if cfg.reference_port is Some {
            Err(orphaned_text("reference_port"@, "reference_channel"@))
        } else {
            Ok(None)
        },
        Some(ch) => match cfg.reference_port {
            Some(p) => Ok(Some(p)),
            None => match port_at("capture"@, ch, capture) {
                Ok(p) => Ok(Some(p)),
                Err(e) => Err(e),
            },
        },
    }
}

/// The reference input port, if one is configured.
pub fn resolve_ref_input(cfg: &Config, capture: &Vec<String>) -> (r: Result<
    Option<String>,
    String,
>)
    ensures
        match r {
            Ok(p) => ref_input_of(cfg@, texts(capture@)) == Ok::<
                Option<Seq<char>>,
                Seq<char>,
            >(opt_text(p)),
            Err(e) => ref_input_of(cfg@, texts(capture@)) == Err::<
                Option<Seq<char>>,
                Seq<char>,
            >(e@),
        },
{
    let ch: u32 = match cfg.reference_channel {
        None => {
            if cfg.reference_port.is_some() {
                return Err(orphaned_sticky("reference_port", "reference_channel"));
            }
            return Ok(None);
        },
        Some(ch) => ch,
    };
    match &cfg.reference_port {
        Some(p) => Ok(Some(p.clone())),
        None => match lookup_port("capture", ch, capture) {
            Ok(p) => Ok(Some(p)),
            Err(e) => Err(e),
        },
    }
}

/// The reference output: the main output when nothing is configured, else the
/// sticky name or the playback port at its own index.
pub open spec fn ref_output_of(cfg: ConfigV, playback: Seq<Seq<char>>) -> PortV {
    match cfg.reference_output_channel {
        None => if cfg.reference_output_port is Some {
            Err(orphaned_text("reference_output_port"@, "reference_output_channel"@))
        } else {
            output_of(cfg, playback)
        },
        Some(ch) => match cfg.reference_output_port {
            Some(p) => Ok(p),
            None => port_at("playback"@, ch, playback),
        },
    }
}

/// The reference output port.
pub fn resolve_ref_output(cfg: &Config, playback: &Vec<String>) -> (r: Result<String, String>)
    ensures
        port_view(r) == ref_output_of(cfg@, texts(playback@)),
{
    let ch: u32 = match cfg.reference_output_channel {
        None => {
            if cfg.reference_output_port.is_some() {
                return Err(orphaned_sticky("reference_output_port", "reference_output_channel"));
            }
            return resolve_output(cfg, playback);
        },
        Some(ch) => ch,
    };
    match &cfg.reference_output_port {
        Some(p) => Ok(p.clone()),
        None => lookup_port("playback", ch, playback),
    }
}

/// The warning for a reference channel without a reference output channel.
pub open spec fn migration_text(ref_ch: u32) -> Seq<char> {
    "reference_output_channel is not set, so the reference stimulus leaves on the main output. Before #225 this config drove it out playback["@
        + dec(ref_ch as nat)
        + "] \u{2014} if that is where the loopback source is wired, run: ac setup refout "@
        + dec(ref_ch as nat)
}

/// The warning for a configuration that sets the reference channel and not
/// the reference output channel.
pub fn ref_output_migration_warning(cfg: &Config) -> (r: Option<String>)
    ensures
        match r {
            Some(t) => cfg.reference_channel is Some && cfg.reference_output_channel is None && t@
                == migration_text(cfg.reference_channel->0),
            None => cfg.reference_channel is None || cfg.reference_output_channel is Some,
        },
{
    let ref_ch: u32 = match cfg.reference_channel {
        None => return None,
        Some(ch) => ch,
    };
    if cfg.reference_output_channel.is_some() {
        return None;
    }
    let n = decimal(ref_ch as u64);
    Some(
        "reference_output_channel is not set, so the reference stimulus leaves on the main output. Before #225 this config drove it out playback[".to_owned().concat(
            n.as_str(),
        ).concat(
            "] \u{2014} if that is where the loopback source is wired, run: ac setup refout ",
        ).concat(n.as_str()),
    )
}

/// A list with each run of equal neighbours cut to one.
pub open spec fn dedup_runs(s: Seq<Seq<char>>) -> Seq<Seq<char>>
    decreases s.len(),
{
    if s.len() <= 1 {
        s
    } else if s.last() == s[s.len() - 2] {
        dedup_runs(s.drop_last())
    } else {
        dedup_runs(s.drop_last()).push(s.last())
    }
}

/// The ports of a list of channels, up to the first that has none.
pub open spec fn ports_of(
    cfg: ConfigV,
    playback: Seq<Seq<char>>,
    channels: Seq<u32>,
) -> Result<Seq<Seq<char>>, Seq<char>>
    decreases channels.len(),
{
    if channels.len() == 0 {
        Ok(Seq::empty())
    } else {
        match ports_of(cfg, playback, channels.drop_last()) {
            Err(e) => Err(e),
            Ok(before) => match output_by_channel(cfg, playback, channels.last()) {
                Err(e) => Err(e),
                Ok(p) => Ok(before.push(p)),
            },
        }
    }
}

/// The output ports that a generator command asks for.
pub open spec fn channels_of(
    cmd_name: Seq<char>,
    cmd: JsonV,
    cfg: ConfigV,
    playback: Seq<Seq<char>>,
) -> Result<Seq<Seq<char>>, Seq<char>> {
    match opt_u32_array_of(cmd, "channels"@) {
        Err(e) => Err(e.text(cmd_name + " not started"@, seq![("stimulus"@, "silent"@)])),
        Ok(list) => {
            if list is None || list->0.len() == 0 {
                match output_of(cfg, playback) {
                    Ok(p) => Ok(seq![p]),
                    Err(e) => Err(e),
                }
            } else {
                match ports_of(cfg, playback, list->0) {
                    Ok(ps) => Ok(dedup_runs(ps)),
                    Err(e) => Err(e),
                }
            }
        },
    }
}

/// The output ports of a generator command: the `channels` it lists, runs of
/// one port cut to one, or the configured output when it lists none. A list
/// with any bad element is refused; it never falls back to the configured
/// output.
pub fn resolve_channels(
    cmd_name: &str,
    cmd: &Json,
    cfg: &Config,
    playback: &Vec<String>,
) -> (r: Result<Vec<String>, String>)
    ensures
        match r {
            Ok(v) => channels_of(cmd_name@, cmd@, cfg@, texts(playback@)) == Ok::<
                Seq<Seq<char>>,
                Seq<char>,
            >(texts(v@)),
            Err(e) => channels_of(cmd_name@, cmd@, cfg@, texts(playback@)) == Err::<
                Seq<Seq<char>>,
                Seq<char>,
            >(e@),
        },
{
    let channels: Vec<u32> = match opt_u32_array(cmd, "channels") {
        Err(e) => {
            let mut trailers: Vec<(String, String)> = Vec::new();
            trailers.push(("stimulus".to_owned(), "silent".to_owned()));
            assert(trailer_views(trailers@) =~= seq![("stimulus"@, "silent"@)]);
            return Err(e.refusal(cmd_name.to_owned().concat(" not started").as_str(), trailers));
        },
        Ok(Some(list)) => list,
        Ok(None) => Vec::new(),
    };
    if channels.len() == 0 {
        return match resolve_output(cfg, playback) {
            Ok(p) => {
                let mut one: Vec<String> = Vec::new();
                one.push(p);
                assert(texts(one@) =~= seq![one@[0]@]);
                Ok(one)
            },
            Err(e) => Err(e),
        };
    }
    let mut out: Vec<String> = Vec::new();
    let ghost all = channels@;
    let ghost list = texts(playback@);
    let ghost mut found: Seq<Seq<char>> = Seq::empty();
    let mut i: usize = 0;
    proof {
        assert(all.take(0) =~= Seq::empty());
        assert(texts(out@) =~= Seq::empty());
    }
    while i < channels.len()
        invariant
            i <= channels.len(),
            all == channels@,
            list == texts(playback@),
            found.len() == i,
            ports_of(cfg@, list, all.take(i as int)) == Ok::<Seq<Seq<char>>, Seq<char>>(found),
            texts(out@) == dedup_runs(found),
            i > 0 ==> out.len() > 0 && out@.last()@ == found.last(),
            i == 0 ==> out.len() == 0,
            opt_u32_array_of(cmd@, "channels"@) == Ok::<
                Option<Seq<u32>>,
                WireErrorV,
            >(Some(all)),
            all.len() > 0,
        decreases channels.len() - i,
    {
        proof {
            assert(all.take(i + 1).drop_last() =~= all.take(i as int));
            assert(all.take(i + 1).last() == all[i as int]);
        }
        match resolve_output_by_channel(cfg, playback, channels[i]) {
            Err(e) => {
                proof {
                    ports_stop_at_first_error(cfg@, list, all, i + 1);
                    assert(all.take(all.len() as int) =~= all);
                }
                return Err(e);
            },
            Ok(p) => {
                let ghost next = found.push(p@);
                proof {
                    assert(next.drop_last() =~= found);
                }
                let n: usize = out.len();
                if n > 0 && str_eq(out[n - 1].as_str(), p.as_str()) {
                    assert(texts(out@) == dedup_runs(next));
                    proof {
                        found = next;
                    }
                } else {
                    let ghost before = out@;
                    out.push(p);
                    assert(texts(out@) =~= texts(before).push(p@));
                    proof {
                        if i == 0 {
                            assert(found =~= Seq::empty());
                            assert(dedup_runs(next) =~= texts(out@));
                        }
                        found = next;
                    }
                }
            },
        }
        i = i + 1;
    }
    assert(all.take(i as int) =~= all);
    Ok(out)
}

proof fn ports_stop_at_first_error(
    cfg: ConfigV,
    playback: Seq<Seq<char>>,
    channels: Seq<u32>,
    n: int,
)
    requires
        0 <= n <= channels.len(),
        ports_of(cfg, playback, channels.take(n)) is Err,
    ensures
        ports_of(cfg, playback, channels.take(channels.len() as int)) == ports_of(
            cfg,
            playback,
            channels.take(n),
        ),
    decreases channels.len() - n,
{
    if n < channels.len() {
        assert(channels.take(n + 1).drop_last() =~= channels.take(n));
        ports_stop_at_first_error(cfg, playback, channels, n + 1);
    }
}

/// Every resolved port is a configured sticky name or a port of the scanned
/// list: none is made up.
pub proof fn resolution_never_fabricates(
    cfg: ConfigV,
    playback: Seq<Seq<char>>,
    capture: Seq<Seq<char>>,
    channel: u32,
)
    ensures
        output_by_channel(cfg, playback, channel) matches Ok(p) ==> cfg.output_port == Some(p)
            || playback.contains(p),
        input_of(cfg, capture) matches Ok(p) ==> cfg.input_port == Some(p) || capture.contains(p),
        ref_output_of(cfg, playback) matches Ok(p) ==> cfg.reference_output_port == Some(p)
            || cfg.output_port == Some(p) || playback.contains(p),
        ref_input_of(cfg, capture) matches Ok(Some(p)) ==> cfg.reference_port == Some(p)
            || capture.contains(p),
{
}

/// The two reference legs are independent: what the reference input resolves
/// to depends on no playback index, and the reference output on no capture
/// index.
pub proof fn reference_legs_are_independent(
    a: ConfigV,
    b: ConfigV,
    playback: Seq<Seq<char>>,
    capture: Seq<Seq<char>>,
)
    ensures
        a.reference_channel == b.reference_channel && a.reference_port == b.reference_port
            ==> ref_input_of(a, capture) == ref_input_of(b, capture),
        a.reference_output_channel == b.reference_output_channel && a.reference_output_port
            == b.reference_output_port && a.output_channel == b.output_channel && a.output_port
            == b.output_port ==> ref_output_of(a, playback) == ref_output_of(b, playback),
{
}

/// A configured reference output that has no port is an error; the stimulus
/// never moves to the main output instead.
pub proof fn reference_output_never_falls_back(cfg: ConfigV, playback: Seq<Seq<char>>)
    requires
        cfg.reference_output_channel is Some || cfg.reference_output_port is Some,
        ref_output_of(cfg, playback) is Ok,
    ensures
        cfg.reference_output_channel is Some,
        ref_output_of(cfg, playback)->Ok_0 == (match cfg.reference_output_port {
            Some(p) => p,
            None => playback[cfg.reference_output_channel->0 as int],
        }),
{
}

/// Whether an element of a channel list drives a port.
pub open spec fn drives(
    cfg: ConfigV,
    playback: Seq<Seq<char>>,
    item: JsonV,
    port: Seq<char>,
) -> bool {
    u32_of(item) matches Some(channel) && output_by_channel(cfg, playback, channel)
        == Ok::<Seq<char>, Seq<char>>(port)
}

proof fn accepted_items(items: Seq<JsonV>, key: Seq<char>, from: nat)
    requires
        from <= items.len(),
    ensures
        u32_items(items, key, from) matches Ok(ns) ==> {
            &&& ns.len() == items.len() - from
            &&& forall|i: int|
                from <= i < items.len() ==> u32_of(#[trigger] items[i]) == Some(
                    ns[i - from],
                )
        },
    decreases items.len() - from,
{
    if from < items.len() {
        accepted_items(items, key, from + 1);
    }
}

proof fn one_port_each(cfg: ConfigV, playback: Seq<Seq<char>>, channels: Seq<u32>)
    ensures
        ports_of(cfg, playback, channels) matches Ok(ps) ==> {
            &&& ps.len() == channels.len()
            &&& forall|i: int|
                0 <= i < channels.len() ==> output_by_channel(
                    cfg,
                    playback,
                    #[trigger] channels[i],
                ) == Ok::<Seq<char>, Seq<char>>(ps[i])
        },
    decreases channels.len(),
{
    if channels.len() > 0 {
        let before = channels.drop_last();
        one_port_each(cfg, playback, before);
        if ports_of(cfg, playback, channels) is Ok {
            let ps = ports_of(cfg, playback, channels)->Ok_0;
            assert forall|i: int| 0 <= i < channels.len() implies output_by_channel(
                cfg,
                playback,
                #[trigger] channels[i],
            ) == Ok::<Seq<char>, Seq<char>>(ps[i]) by {
                if i < before.len() {
                    assert(channels[i] == before[i]);
                }
            }
        }
    }
}

proof fn runs_keep_their_members(s: Seq<Seq<char>>)
    ensures
        dedup_runs(s).len() <= s.len(),
        s.len() > 0 ==> dedup_runs(s).len() > 0 && dedup_runs(s).last() == s.last(),
        forall|i: int| 0 <= i < s.len() ==> dedup_runs(s).contains(#[trigger] s[i]),
        forall|j: int| 0 <= j < dedup_runs(s).len() ==> s.contains(#[trigger] dedup_runs(s)[j]),
    decreases s.len(),
{
    if s.len() == 1 {
        assert(dedup_runs(s)[0] == s[0]);
    }
    if s.len() > 1 {
        let before = s.drop_last();
        let kept = dedup_runs(before);
        runs_keep_their_members(before);
        assert(before.last() == s[s.len() - 2]);
        assert forall|i: int| 0 <= i < s.len() implies dedup_runs(s).contains(#[trigger] s[i]) by {
            if i < before.len() {
                assert(before[i] == s[i]);
                let j = choose|j: int| 0 <= j < kept.len() && kept[j] == s[i];
                assert(dedup_runs(s)[j] == s[i]);
            } else {
                assert(dedup_runs(s)[dedup_runs(s).len() - 1] == s.last());
            }
        }
        assert forall|j: int| 0 <= j < dedup_runs(s).len() implies s.contains(
            #[trigger] dedup_runs(s)[j],
        ) by {
            if j < kept.len() {
                assert(kept[j] == dedup_runs(s)[j]);
                let i = choose|i: int| 0 <= i < before.len() && before[i] == kept[j];
                assert(s[i] == kept[j]);
            } else {
                assert(s[s.len() - 1] == dedup_runs(s)[j]);
            }
        }
    }
}

/// Whether an element of a channel list drives one of the ports.
pub open spec fn drives_one(
    cfg: ConfigV,
    playback: Seq<Seq<char>>,
    item: JsonV,
    ports: Seq<Seq<char>>,
) -> bool {
    exists|j: int| 0 <= j < ports.len() && #[trigger] drives(cfg, playback, item, ports[j])
}

/// Whether a port is driven by one of the elements of a channel list.
pub open spec fn driven_by_one(
    cfg: ConfigV,
    playback: Seq<Seq<char>>,
    items: Seq<JsonV>,
    port: Seq<char>,
) -> bool {
    exists|i: int| 0 <= i < items.len() && #[trigger] drives(cfg, playback, items[i], port)
}

/// A list of channels is obeyed or refused as a whole: where it is accepted,
/// every element drives a port and no other port is driven. It never falls
/// back to the configured output.
pub proof fn a_given_list_is_obeyed_or_refused(
    cmd_name: Seq<char>,
    cmd: JsonV,
    cfg: ConfigV,
    playback: Seq<Seq<char>>,
    items: Seq<JsonV>,
)
    requires
        cmd.field("channels"@) == Some(JsonV::Arr(items)),
        items.len() > 0,
    ensures
        channels_of(cmd_name, cmd, cfg, playback) matches Ok(ports) ==> {
            &&& forall|i: int|
                0 <= i < items.len() ==> drives_one(cfg, playback, #[trigger] items[i], ports)
            &&& forall|j: int|
                0 <= j < ports.len() ==> driven_by_one(cfg, playback, items, #[trigger] ports[j])
        },
{
    accepted_items(items, "channels"@, 0);
    if channels_of(cmd_name, cmd, cfg, playback) is Ok {
        let ports = channels_of(cmd_name, cmd, cfg, playback)->Ok_0;
        let channels = u32_items(items, "channels"@, 0)->Ok_0;
        let all = ports_of(cfg, playback, channels)->Ok_0;
        one_port_each(cfg, playback, channels);
        runs_keep_their_members(all);
        assert(ports == dedup_runs(all));
        assert forall|i: int| 0 <= i < items.len() implies drives(
            cfg,
            playback,
            #[trigger] items[i],
            all[i],
        ) by {
            assert(u32_of(items[i]) == Some(channels[i]));
        }
        assert forall|i: int| 0 <= i < items.len() implies drives_one(
            cfg,
            playback,
            #[trigger] items[i],
            ports,
        ) by {
            assert(ports.contains(all[i]));
            let j = choose|j: int| 0 <= j < ports.len() && ports[j] == all[i];
            assert(drives(cfg, playback, items[i], ports[j]));
        }
        assert forall|j: int| 0 <= j < ports.len() implies driven_by_one(
            cfg,
            playback,
            items,
            #[trigger] ports[j],
        ) by {
            assert(all.contains(ports[j]));
            let i = choose|i: int| 0 <= i < all.len() && all[i] == ports[j];
            assert(drives(cfg, playback, items[i], ports[j]));
        }
    }
}

/// Each leg resolves to its own port: the sticky name where there is one, else
/// the port at the leg's own index on the leg's own side; an index past the
/// end of the list is an error.
pub proof fn each_leg_has_its_own_port(
    cfg: ConfigV,
    playback: Seq<Seq<char>>,
    capture: Seq<Seq<char>>,
    channel: u32,
)
    ensures
        cfg.output_port matches Some(p) ==> output_of(cfg, playback) == Ok::<Seq<char>, Seq<char>>(
            p,
        ),
        cfg.output_port is None ==> (output_of(cfg, playback) is Ok <==> cfg.output_channel
            < playback.len()),
        cfg.output_port is None && cfg.output_channel < playback.len() ==> output_of(cfg, playback)
            == Ok::<Seq<char>, Seq<char>>(playback[cfg.output_channel as int]),
        cfg.input_port matches Some(p) ==> input_of(cfg, capture) == Ok::<Seq<char>, Seq<char>>(p),
        cfg.input_port is None ==> (input_of(cfg, capture) is Ok <==> cfg.input_channel
            < capture.len()),
        cfg.input_port is None && cfg.input_channel < capture.len() ==> input_of(cfg, capture)
            == Ok::<Seq<char>, Seq<char>>(capture[cfg.input_channel as int]),
        channel == cfg.output_channel ==> output_by_channel(cfg, playback, channel) == output_of(
            cfg,
            playback,
        ),
        channel != cfg.output_channel ==> (output_by_channel(cfg, playback, channel) is Ok
            <==> channel < playback.len()),
        channel != cfg.output_channel && channel < playback.len() ==> output_by_channel(
            cfg,
            playback,
            channel,
        ) == Ok::<Seq<char>, Seq<char>>(playback[channel as int]),
        cfg.reference_channel is None && cfg.reference_port is None ==> ref_input_of(cfg, capture)
            == Ok::<Option<Seq<char>>, Seq<char>>(None),
        cfg.reference_channel is None && cfg.reference_port is Some ==> ref_input_of(cfg, capture)
            is Err,
        cfg.reference_channel is Some ==> (cfg.reference_port matches Some(p) ==> ref_input_of(
            cfg,
            capture,
        ) == Ok::<Option<Seq<char>>, Seq<char>>(Some(p))),
        cfg.reference_port is None ==> (cfg.reference_channel matches Some(ch) ==> (ref_input_of(
            cfg,
            capture,
        ) is Ok <==> ch < capture.len()) && (ch < capture.len() ==> ref_input_of(cfg, capture)
            == Ok::<Option<Seq<char>>, Seq<char>>(Some(capture[ch as int])))),
        cfg.reference_output_channel is None && cfg.reference_output_port is None ==> ref_output_of(
            cfg,
            playback,
        ) == output_of(cfg, playback),
        cfg.reference_output_channel is None && cfg.reference_output_port is Some ==> ref_output_of(
            cfg,
            playback,
        ) is Err,
        cfg.reference_output_port is None ==> (cfg.reference_output_channel matches Some(ch) ==> (
        ref_output_of(cfg, playback) is Ok <==> ch < playback.len())),
{
}

/// No port follows itself in what a list of channels drives, and a list that
/// names each port once is driven as it stands.
pub proof fn no_port_follows_itself(s: Seq<Seq<char>>)
    ensures
        forall|i: int|
            0 <= i < dedup_runs(s).len() - 1 ==> (#[trigger] dedup_runs(s)[i]) != dedup_runs(s)[i
                + 1],
        (forall|i: int| 0 <= i < s.len() - 1 ==> (#[trigger] s[i]) != s[i + 1]) ==> dedup_runs(s)
            == s,
    decreases s.len(),
{
    if s.len() > 1 {
        let before = s.drop_last();
        let kept = dedup_runs(before);
        no_port_follows_itself(before);
        runs_keep_their_members(before);
        let all = dedup_runs(s);
        assert(before.last() == s[s.len() - 2]);
        assert forall|i: int| 0 <= i < all.len() - 1 implies (#[trigger] all[i]) != all[i + 1] by {
            if s.last() != s[s.len() - 2] && i == kept.len() - 1 {
                assert(all[i] == kept.last());
            } else {
                assert(all[i] == kept[i] && all[i + 1] == kept[i + 1]);
            }
        }
        if forall|i: int| 0 <= i < s.len() - 1 ==> (#[trigger] s[i]) != s[i + 1] {
            assert(s[s.len() - 2] != s[s.len() - 2 + 1]);
            assert forall|i: int| 0 <= i < before.len() - 1 implies (#[trigger] before[i])
                != before[i + 1] by {
                assert(s[i] != s[i + 1]);
            }
            assert(kept == before);
            assert(before.push(s.last()) =~= s);
        }
    }
}

/// Without a list of channels a generator drives the configured output, and
/// that alone.
pub proof fn without_a_list_the_output_is_driven(
    cmd_name: Seq<char>,
    cmd: JsonV,
    cfg: ConfigV,
    playback: Seq<Seq<char>>,
)
    requires
        opt_u32_array_of(cmd, "channels"@) matches Ok(list) && (list is None || list->0.len() == 0),
    ensures
        output_of(cfg, playback) matches Ok(p) ==> channels_of(cmd_name, cmd, cfg, playback)
            == Ok::<Seq<Seq<char>>, Seq<char>>(seq![p]),
        output_of(cfg, playback) matches Err(e) ==> channels_of(cmd_name, cmd, cfg, playback)
            == Err::<Seq<Seq<char>>, Seq<char>>(e),
{
}

} // verus!
