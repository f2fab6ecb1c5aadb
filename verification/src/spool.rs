//! The spool of stored snapshots and the commands on it.
//!
//! The spool lists files; the files themselves are written, read and removed
//! by the caller.
use vstd::prelude::*;

use crate::base64::{base64_encode, decoded, decoding_undoes_encoding, encoded};
use crate::double::{Double, Single};
use crate::json::{fields_read_back, finite_or_null, Json, JsonV, opt_text, str_views, views};
use crate::snapshot::{
    SnapshotMeta, SnapshotRingState, MAX_FETCH_CHUNK_BYTES, SESSION_STARTING_ERROR,
};
use crate::text::{str_eq, texts};
use crate::wire::{get_str, get_uint, refusal_reply, refuse, str_field, uint_field};

verus! {

/// A stored snapshot. Its id is its digest.
#[derive(Debug)]
pub struct SpoolEntry {
    pub path: String,
    pub bytes: u64,
    pub sha256: String,
    pub duration_s: Double,
    pub channels: Vec<String>,
}

/// What a stored snapshot holds.
#[verifier::ext_equal]
pub struct SpoolEntryV {
    pub path: Seq<char>,
    pub bytes: u64,
    pub sha256: Seq<char>,
    pub duration_s: Double,
    pub channels: Seq<Seq<char>>,
}

impl SpoolEntry {
    pub open spec fn view(&self) -> SpoolEntryV {
        SpoolEntryV {
            path: self.path@,
            bytes: self.bytes,
            sha256: self.sha256@,
            duration_s: self.duration_s,
            channels: texts(self.channels@),
        }
    }
}

impl SpoolEntryV {
    /// The entry as `snapshot_list` and `snapshot` describe it.
    pub open spec fn described(self, base: JsonV) -> JsonV {
        base.with("id"@, JsonV::Str(self.sha256)).with("bytes"@, JsonV::Uint(self.bytes)).with(
            "duration_s"@,
            finite_or_null(self.duration_s),
        ).with("channels"@, JsonV::Arr(str_views(self.channels))).with(
            "sha256"@,
            JsonV::Str(self.sha256),
        )
    }
}

/// The stored snapshots of a session.
pub struct Spool {
    pub entries: Vec<SpoolEntry>,
}

/// The entry with the given id.
pub open spec fn entry_of(es: Seq<SpoolEntryV>, id: Seq<char>) -> Option<SpoolEntryV>
    decreases es.len(),
{
    if es.len() == 0 {
        None
    } else if es[0].sha256 == id {
        Some(es[0])
    } else {
        entry_of(es.drop_first(), id)
    }
}

/// The entries with `e` in the place of the one of its id, or at the end.
pub open spec fn stored(es: Seq<SpoolEntryV>, e: SpoolEntryV) -> Seq<SpoolEntryV>
    decreases es.len(),
{
    if es.len() == 0 {
        seq![e]
    } else if es[0].sha256 == e.sha256 {
        seq![e] + es.drop_first()
    } else {
        seq![es[0]] + stored(es.drop_first(), e)
    }
}

/// The entries without the one of the given id.
pub open spec fn without(es: Seq<SpoolEntryV>, id: Seq<char>) -> Seq<SpoolEntryV>
    decreases es.len(),
{
    if es.len() == 0 {
        es
    } else if es[0].sha256 == id {
        es.drop_first()
    } else {
        seq![es[0]] + without(es.drop_first(), id)
    }
}

/// No two entries have one id.
pub open spec fn ids_unique(es: Seq<SpoolEntryV>) -> bool {
    forall|i: int, j: int|
        0 <= i < j < es.len() ==> (#[trigger] es[i]).sha256 != (#[trigger] es[j]).sha256
}

/// `n` is the place of the first entry with the given id, or the end.
spec fn first_place(es: Seq<SpoolEntryV>, id: Seq<char>, n: int) -> bool {
    &&& 0 <= n <= es.len()
    &&& forall|k: int| 0 <= k < n ==> (#[trigger] es[k]).sha256 != id
    &&& n < es.len() ==> es[n].sha256 == id
}

proof fn at_first_place(es: Seq<SpoolEntryV>, e: SpoolEntryV, id: Seq<char>, n: int)
    requires
        first_place(es, id, n),
        e.sha256 == id,
    ensures
        entry_of(es, id) == (if n < es.len() {
            Some(es[n])
        } else {
            None
        }),
        stored(es, e) == (if n < es.len() {
            es.update(n, e)
        } else {
            es.push(e)
        }),
        without(es, id) == (if n < es.len() {
            es.remove(n)
        } else {
            es
        }),
    decreases n,
{
    if n == 0 {
        if es.len() == 0 {
            assert(stored(es, e) =~= es.push(e));
        } else {
            assert(stored(es, e) =~= es.update(0, e));
            assert(without(es, id) =~= es.remove(0));
        }
    } else {
        let rest = es.drop_first();
        assert forall|k: int| 0 <= k < n - 1 implies (#[trigger] rest[k]).sha256 != id by {
            assert(rest[k] == es[k + 1]);
        }
        at_first_place(rest, e, id, n - 1);
        if n < es.len() {
            assert(stored(es, e) =~= es.update(n, e));
            assert(without(es, id) =~= es.remove(n));
        } else {
            assert(stored(es, e) =~= es.push(e));
            assert(without(es, id) =~= es);
        }
    }
}

impl Spool {
    pub open spec fn view(&self) -> Seq<SpoolEntryV> {
        self.entries@.map_values(|e: SpoolEntry| e@)
    }

    pub open spec fn wf(&self) -> bool {
        ids_unique(self@)
    }

    pub fn new() -> (r: Spool)
        ensures
            r@ == Seq::<SpoolEntryV>::empty(),
            r.wf(),
    {
        let r = Spool { entries: Vec::new() };
        assert(r@ =~= Seq::empty());
        r
    }

    fn place_of(&self, id: &str) -> (n: usize)
        ensures
            first_place(self@, id@, n as int),
    {
        let mut n: usize = 0;
        while n < self.entries.len()
            invariant
                n <= self.entries.len(),
                forall|k: int| 0 <= k < n ==> (#[trigger] self@[k]).sha256 != id@,
            decreases self.entries.len() - n,
        {
            assert(self@[n as int] == self.entries@[n as int]@);
            if str_eq(self.entries[n].sha256.as_str(), id) {
                return n;
            }
            n = n + 1;
        }
        n
    }

    /// Store an entry; one of the same id is replaced.
    pub fn insert(&mut self, entry: SpoolEntry)
        requires
            old(self).wf(),
        ensures
            final(self)@ == stored(old(self)@, entry@),
            final(self).wf(),
    {
        let n: usize = self.place_of(entry.sha256.as_str());
        let ghost before = self@;
        let ghost e = entry@;
        proof {
            at_first_place(before, e, e.sha256, n as int);
        }
        if n < self.entries.len() {
            self.entries.set(n, entry);
            assert(self@ =~= before.update(n as int, e));
        } else {
            self.entries.push(entry);
            assert(self@ =~= before.push(e));
        }
    }

    /// Drop the entry of the given id and give its path.
    pub fn remove(&mut self, id: &str) -> (r: Option<String>)
        requires
            old(self).wf(),
        ensures
            final(self)@ == without(old(self)@, id@),
            final(self).wf(),
            match entry_of(old(self)@, id@) {
                Some(e) => r matches Some(p) && p@ == e.path,
                None => r is None,
            },
    {
        let n: usize = self.place_of(id);
        let ghost before = self@;
        proof {
            let e = SpoolEntryV {
                path: Seq::empty(),
                bytes: 0,
                sha256: id@,
                duration_s: Double { bits: 0 },
                channels: Seq::empty(),
            };
            at_first_place(before, e, id@, n as int);
        }
        if n < self.entries.len() {
            let gone = self.entries.remove(n);
            assert(self@ =~= before.remove(n as int));
            assert(gone@ == before[n as int]);
            Some(gone.path)
        } else {
            None
        }
    }

    /// Forget every entry and give the paths of their files.
    fn clear(&mut self) -> (paths: Vec<String>)
        ensures
            final(self)@ == Seq::<SpoolEntryV>::empty(),
            final(self).wf(),
            texts(paths@) == old(self)@.map_values(|e: SpoolEntryV| e.path),
    {
        let mut paths: Vec<String> = Vec::new();
        let mut i: usize = 0;
        while i < self.entries.len()
            invariant
                i <= self.entries.len(),
                self.entries@ == old(self).entries@,
                paths.len() == i,
                forall|k: int| 0 <= k < i ==> (#[trigger] paths@[k])@ == self.entries@[k].path@,
            decreases self.entries.len() - i,
        {
            paths.push(self.entries[i].path.clone());
            i = i + 1;
        }
        assert(texts(paths@) =~= old(self)@.map_values(|e: SpoolEntryV| e.path));
        self.entries.clear();
        assert(self@ =~= Seq::empty());
        paths
    }
}

/// Ends a session's spool: every entry is forgotten, and the files to delete
/// are named.
pub fn clear_spool(spool: &mut Spool) -> (paths: Vec<String>)
    ensures
        final(spool)@ == Seq::<SpoolEntryV>::empty(),
        final(spool).wf(),
        texts(paths@) == old(spool)@.map_values(|e: SpoolEntryV| e.path),
{
    spool.clear()
}

/// Begins a session's spool: every entry is forgotten, whether or not the
/// directory, which is emptied next, turns out to be the daemon's own.
pub fn reset_spool_dir(spool: &mut Spool)
    ensures
        final(spool)@ == Seq::<SpoolEntryV>::empty(),
        final(spool).wf(),
{
    let _ = spool.clear();
}

/// A stored snapshot is found by its id, and storing it disturbs no other;
/// after a removal the id is unknown and every other entry is as it was.
pub proof fn spool_keeps_what_it_stores(
    es: Seq<SpoolEntryV>,
    e: SpoolEntryV,
    id: Seq<char>,
    other: Seq<char>,
)
    requires
        ids_unique(es),
    ensures
        entry_of(stored(es, e), e.sha256) == Some(e),
        other != e.sha256 ==> entry_of(stored(es, e), other) == entry_of(es, other),
        entry_of(without(es, id), id) is None,
        other != id ==> entry_of(without(es, id), other) == entry_of(es, other),
    decreases es.len(),
{
    if es.len() == 0 {
        assert(stored(es, e).drop_first() =~= es);
    } else {
        let rest = es.drop_first();
        assert(ids_unique(rest)) by {
            assert forall|i: int, j: int| 0 <= i < j < rest.len() implies (
            #[trigger] rest[i]).sha256 != (#[trigger] rest[j]).sha256 by {
                assert(rest[i] == es[i + 1] && rest[j] == es[j + 1]);
            }
        }
        spool_keeps_what_it_stores(rest, e, id, other);
        if es[0].sha256 == e.sha256 {
            assert(stored(es, e).drop_first() =~= rest);
        } else {
            assert(stored(es, e).drop_first() =~= stored(rest, e));
        }
        if es[0].sha256 == id {
            absent_id(rest, id, es);
        } else {
            assert(without(es, id).drop_first() =~= without(rest, id));
        }
    }
}

proof fn absent_id(rest: Seq<SpoolEntryV>, id: Seq<char>, es: Seq<SpoolEntryV>)
    requires
        es.len() > 0,
        ids_unique(es),
        es[0].sha256 == id,
        rest == es.drop_first(),
    ensures
        entry_of(rest, id) is None,
{
    assert forall|k: int| 0 <= k < rest.len() implies (#[trigger] rest[k]).sha256 != id by {
        assert(rest[k] == es[k + 1]);
    }
    let e = SpoolEntryV {
        path: Seq::empty(),
        bytes: 0,
        sha256: id,
        duration_s: Double { bits: 0 },
        channels: Seq::empty(),
    };
    at_first_place(rest, e, id, rest.len() as int);
}

/// `snapshot`, up to the encoding: the ring's contents and their description, or the
/// refusal without a session or while its ring is pending.
pub fn snapshot(
    ring: Option<&SnapshotRingState>,
    daemon_version: &str,
    format_version: u32,
) -> (r: Result<(SnapshotMeta, Vec<Vec<Single>>), Json>)
    requires
        ring matches Some(s) ==> s.wf(),
    ensures
        match (ring, r) {
            (None, Err(e)) => e@ == refusal_reply(
                "no transfer_stream session running"@,
            ),
            (Some(s), Err(e)) => s.pending_ring_s is Some && e@ == refusal_reply(
                SESSION_STARTING_ERROR@,
            ),
            (Some(s), Ok((m, ch))) => {
                &&& s.pending_ring_s is None
                &&& s.described_by(&m, daemon_version@, format_version, m.captured_at_utc@)
                &&& ch.len() == s.channels.len()
                &&& forall|i: int| 0 <= i < ch.len() ==> (#[trigger] ch@[i])@ == s.channels@[i]@
            },
            (None, Ok(_)) => false,
        },
{
    match ring {
        None => Err(refuse("no transfer_stream session running")),
        Some(s) => match s.snapshot_meta_and_channels(daemon_version, format_version) {
            Some(v) => Ok(v),
            None => Err(refuse(SESSION_STARTING_ERROR)),
        },
    }
}

/// The file name of a snapshot.
pub fn snapshot_file_name(id: &str) -> (r: String)
    ensures
        r@ == id@ + ".acsnap"@,
{
    id.to_owned().concat(".acsnap")
}

/// What kept a snapshot from being stored.
pub enum SnapshotFault {
    /// The encoder failed.
    Encode(String),
    /// The spool directory is refused.
    Directory(String),
    /// The file could not be written.
    Write(String),
}

impl SnapshotFault {
    /// What the refusal says of the fault.
    pub open spec fn text(&self) -> Seq<char> {
        match self {
            SnapshotFault::Encode(e) => "snapshot: "@ + e@,
            SnapshotFault::Directory(m) => m@,
            SnapshotFault::Write(e) => "snapshot: write: "@ + e@,
        }
    }
}

/// The reply to a `snapshot` that could not be stored.
pub fn snapshot_failed(fault: &SnapshotFault) -> (r: Json)
    ensures
        r@ == refusal_reply(fault.text()),
{
    match fault {
        SnapshotFault::Encode(e) => refuse("snapshot: ".to_owned().concat(e.as_str()).as_str()),
        SnapshotFault::Directory(m) => refuse(m.as_str()),
        SnapshotFault::Write(e) => refuse(
            "snapshot: write: ".to_owned().concat(e.as_str()).as_str(),
        ),
    }
}

/// Finish a `snapshot` whose file is written: the entry is stored and
/// described.
pub fn snapshot_stored(spool: &mut Spool, entry: SpoolEntry) -> (r: Json)
    requires
        old(spool).wf(),
    ensures
        final(spool).wf(),
        final(spool)@ == stored(old(spool)@, entry@),
        r@ == entry@.described(JsonV::obj().with("ok"@, JsonV::Bool(true))),
{
    let reply = describe(&entry, Json::obj().with("ok", Json::Bool(true)));
    spool.insert(entry);
    reply
}

fn describe(entry: &SpoolEntry, base: Json) -> (r: Json)
    ensures
        r@ == entry@.described(base@),
{
    base.with("id", Json::string(entry.sha256.as_str())).with(
        "bytes",
        Json::Uint(entry.bytes),
    ).with("duration_s", Json::float(entry.duration_s)).with(
        "channels",
        Json::strings(&entry.channels),
    ).with("sha256", Json::string(entry.sha256.as_str()))
}

/// The reply to `snapshot_list`.
pub open spec fn list_of(es: Seq<SpoolEntryV>) -> JsonV {
    JsonV::obj().with("ok"@, JsonV::Bool(true)).with(
        "snapshots"@,
        JsonV::Arr(es.map_values(|e: SpoolEntryV| e.described(JsonV::obj()))),
    )
}

/// `snapshot_list`: every stored snapshot.
pub fn snapshot_list(spool: &Spool) -> (r: Json)
    ensures
        r@ == list_of(spool@),
{
    let mut items: Vec<Json> = Vec::new();
    let mut i: usize = 0;
    while i < spool.entries.len()
        invariant
            i <= spool.entries.len(),
            items.len() == i,
            forall|k: int|
                0 <= k < i ==> (#[trigger] items@[k])@ == spool.entries@[k]@.described(
                    JsonV::obj(),
                ),
        decreases spool.entries.len() - i,
    {
        items.push(describe(&spool.entries[i], Json::obj()));
        i = i + 1;
    }
    assert(views(items@) =~= spool@.map_values(
        |e: SpoolEntryV| e.described(JsonV::obj()),
    ));
    Json::obj().with("ok", Json::Bool(true)).with("snapshots", Json::array(items))
}

/// The error for an id that no stored snapshot has.
pub open spec fn unknown_id(id: Seq<char>) -> Seq<char> {
    "unknown snapshot id '"@ + id + "'"@
}

/// The error for an id that no stored snapshot has.
fn unknown_id_text(id: &str) -> (r: String)
    ensures
        r@ == unknown_id(id@),
{
    "unknown snapshot id '".to_owned().concat(id).concat("'")
}

/// `snapshot_delete`: drop the entry and give the file to remove.
pub fn snapshot_delete(spool: &mut Spool, cmd: &Json) -> (r: (Json, Option<String>))
    requires
        old(spool).wf(),
    ensures
        final(spool).wf(),
        match str_field(cmd@, "id"@) {
            None => {
                &&& r.0@ == refusal_reply("id required"@)
                &&& r.1 is None
                &&& final(spool)@ == old(spool)@
            },
            Some(id) => {
                &&& final(spool)@ == without(old(spool)@, id)
                &&& match entry_of(old(spool)@, id) {
                    None => r.0@ == refusal_reply(unknown_id(id)) && r.1 is None,
                    Some(e) => r.0@ == JsonV::obj().with("ok"@, JsonV::Bool(true))
                        && opt_text(r.1) == Some(e.path),
                }
            },
        },
{
    match get_str(cmd, "id") {
        None => (refuse("id required"), None),
        Some(id) => match spool.remove(id) {
            Some(path) => (Json::obj().with("ok", Json::Bool(true)), Some(path)),
            None => (refuse(unknown_id_text(id).as_str()), None),
        },
    }
}

/// The part of a file that a `snapshot_fetch` asks for.
#[derive(Debug)]
pub struct FetchPlan {
    pub id: String,
    pub path: String,
    pub offset: u64,
    /// The most bytes to read.
    pub len: u64,
    pub total_bytes: u64,
}

/// The most bytes that a request asks for: `len`, capped.
pub open spec fn fetch_len(cmd: JsonV) -> u64 {
    match uint_field(cmd, "len"@) {
        Some(n) => if n < MAX_FETCH_CHUNK_BYTES {
            n
        } else {
            MAX_FETCH_CHUNK_BYTES as u64
        },
        None => MAX_FETCH_CHUNK_BYTES as u64,
    }
}

/// `snapshot_fetch`, before the file is read: which bytes of which file.
pub fn snapshot_fetch(spool: &Spool, cmd: &Json) -> (r: Result<FetchPlan, Json>)
    ensures
        match (str_field(cmd@, "id"@), r) {
            (None, Err(e)) => e@ == refusal_reply("id required"@),
            (None, Ok(_)) => false,
            (Some(id), Err(e)) => entry_of(spool@, id) is None && e@ == refusal_reply(
                unknown_id(id),
            ),
            (Some(id), Ok(p)) => p.plans(cmd@, spool@, id),
        },
{
    let id = match get_str(cmd, "id") {
        None => return Err(refuse("id required")),
        Some(id) => id,
    };
    let offset: u64 = match get_uint(cmd, "offset") {
        Some(n) => n,
        None => 0,
    };
    let cap: u64 = MAX_FETCH_CHUNK_BYTES as u64;
    let len: u64 = match get_uint(cmd, "len") {
        Some(n) => if n < cap {
            n
        } else {
            cap
        },
        None => cap,
    };
    let n: usize = spool.place_of(id);
    proof {
        let e = SpoolEntryV {
            path: Seq::empty(),
            bytes: 0,
            sha256: id@,
            duration_s: Double { bits: 0 },
            channels: Seq::empty(),
        };
        at_first_place(spool@, e, id@, n as int);
    }
    if n >= spool.entries.len() {
        return Err(refuse(unknown_id_text(id).as_str()));
    }
    assert(spool@[n as int] == spool.entries@[n as int]@);
    Ok(
        FetchPlan {
            id: id.to_owned(),
            path: spool.entries[n].path.clone(),
            offset,
            len,
            total_bytes: spool.entries[n].bytes,
        },
    )
}

/// The step of a `snapshot_fetch` that the file system failed.
#[derive(Clone, Copy, Debug, PartialEq, Eq, Structural)]
pub enum FetchStep {
    Open,
    Seek,
    Read,
}

impl FetchStep {
    /// How the refusal starts.
    pub open spec fn head(self) -> Seq<char> {
        match self {
            FetchStep::Open => "snapshot_fetch: open: "@,
            FetchStep::Seek => "snapshot_fetch: seek: "@,
            FetchStep::Read => "snapshot_fetch: read: "@,
        }
    }
}

/// The reply to a `snapshot_fetch` whose file could not be read.
pub fn fetch_failed(step: FetchStep, error: &str) -> (r: Json)
    ensures
        r@ == refusal_reply(step.head() + error@),
{
    let head = match step {
        FetchStep::Open => "snapshot_fetch: open: ",
        FetchStep::Seek => "snapshot_fetch: seek: ",
        FetchStep::Read => "snapshot_fetch: read: ",
    };
    refuse(head.to_owned().concat(error).as_str())
}

impl FetchPlan {
    /// The reply once the bytes are read.
    pub open spec fn reply_of(&self, chunk: Seq<u8>) -> JsonV {
        JsonV::obj().with("ok"@, JsonV::Bool(true)).with("id"@, JsonV::Str(self.id@)).with(
            "offset"@,
            JsonV::Uint(self.offset),
        ).with("chunk_b64"@, JsonV::Str(encoded(chunk))).with(
            "chunk_len"@,
            JsonV::Uint(chunk.len() as u64),
        ).with("total_bytes"@, JsonV::Uint(self.total_bytes))
    }

    /// What a request plans to read of the stored snapshots.
    pub open spec fn plans(&self, cmd: JsonV, es: Seq<SpoolEntryV>, id: Seq<char>) -> bool {
        &&& entry_of(es, id) is Some
        &&& self.id@ == id
        &&& self.path@ == entry_of(es, id)->0.path
        &&& self.total_bytes == entry_of(es, id)->0.bytes
        &&& self.offset == (match uint_field(cmd, "offset"@) {
            Some(n) => n,
            None => 0u64,
        })
        &&& self.len == fetch_len(cmd)
        &&& self.len <= MAX_FETCH_CHUNK_BYTES
    }
}

/// The reply to a `snapshot_fetch` that read `chunk`.
pub fn fetch_reply(plan: &FetchPlan, chunk: &Vec<u8>) -> (r: Json)
    ensures
        r@ == plan.reply_of(chunk@),
{
    Json::obj().with("ok", Json::Bool(true)).with("id", Json::string(plan.id.as_str())).with(
        "offset",
        Json::Uint(plan.offset),
    ).with("chunk_b64", Json::Str(base64_encode(chunk.as_slice()))).with(
        "chunk_len",
        Json::Uint(chunk.len() as u64),
    ).with("total_bytes", Json::Uint(plan.total_bytes))
}

/// A client that decodes a chunk gets the bytes that were read.
pub proof fn a_fetched_chunk_decodes_to_its_bytes(chunk: Seq<u8>)
    ensures
        decoded(encoded(chunk)) == chunk,
{
    decoding_undoes_encoding(chunk);
}

/// A stored snapshot is told by name: its digest, which is its id, its size,
/// its duration and its channels in order. Nothing of the file's place is told.
pub proof fn a_snapshot_is_told_by_name(stored_one: SpoolEntryV)
    ensures
        ({
            let told = stored_one.described(JsonV::obj());
            &&& told.field("id"@) == Some(JsonV::Str(stored_one.sha256))
            &&& told.field("sha256"@) == told.field("id"@)
            &&& told.field("bytes"@) == Some(JsonV::Uint(stored_one.bytes))
            &&& stored_one.duration_s.finite() ==> told.field("duration_s"@) == Some(
                JsonV::Float(stored_one.duration_s),
            )
            &&& !stored_one.duration_s.finite() ==> told.field("duration_s"@) == Some(JsonV::Null)
            &&& told.field("channels"@) == Some(JsonV::Arr(str_views(stored_one.channels)))
        }),
{
    fields_read_back();
    reveal_strlit("id");
    reveal_strlit("bytes");
    reveal_strlit("duration_s");
    reveal_strlit("channels");
    reveal_strlit("sha256");
    assert("id"@.len() == 2);
    assert("bytes"@.len() == 5);
    assert("duration_s"@.len() == 10);
    assert("channels"@.len() == 8);
    assert("sha256"@.len() == 6);
}

/// A list tells every stored snapshot, in order, and nothing else.
pub proof fn every_snapshot_is_listed(es: Seq<SpoolEntryV>, i: int)
    ensures
        list_of(es).field("ok"@) == Some(JsonV::Bool(true)),
        list_of(es).field("snapshots"@) is Some && list_of(es).field("snapshots"@)->0 is Arr,
        ({
            let told = list_of(es).field("snapshots"@)->0->Arr_0;
            &&& told.len() == es.len()
            &&& 0 <= i < es.len() ==> told[i] == es[i].described(JsonV::obj())
        }),
{
    fields_read_back();
    reveal_strlit("ok");
    reveal_strlit("snapshots");
    assert("ok"@.len() == 2);
    assert("snapshots"@.len() == 9);
}

/// A chunk is told with the snapshot it is of, where it starts, how long it
/// is and how long the whole is; its text decodes to its bytes.
pub proof fn a_chunk_is_told_by_name(plan: &FetchPlan, part: Seq<u8>)
    requires
        part.len() <= u64::MAX,
    ensures
        plan.reply_of(part).field("ok"@) == Some(JsonV::Bool(true)),
        plan.reply_of(part).field("id"@) == Some(JsonV::Str(plan.id@)),
        plan.reply_of(part).field("offset"@) == Some(JsonV::Uint(plan.offset)),
        plan.reply_of(part).field("total_bytes"@) == Some(JsonV::Uint(plan.total_bytes)),
        plan.reply_of(part).field("chunk_len"@) matches Some(JsonV::Uint(n)) && n == part.len(),
        plan.reply_of(part).field("chunk_b64"@) matches Some(JsonV::Str(t)) && decoded(t) == part,
{
    fields_read_back();
    reveal_strlit("ok");
    reveal_strlit("id");
    reveal_strlit("offset");
    reveal_strlit("total_bytes");
    reveal_strlit("chunk_len");
    reveal_strlit("chunk_b64");
    assert("ok"@.len() == 2);
    assert("id"@.len() == 2);
    assert("offset"@.len() == 6);
    assert("total_bytes"@.len() == 11);
    assert("chunk_len"@.len() == 9);
    assert("chunk_b64"@.len() == 9);
    assert("ok"@[0] != "id"@[0]);
    assert("chunk_len"@[6] != "chunk_b64"@[6]);
    decoding_undoes_encoding(part);
}

/// A request reads the file of the snapshot that it names, from the offset it
/// gives, never more than it asks for and never more than 256 KiB at once.
pub proof fn a_fetch_reads_what_was_asked(
    plan: &FetchPlan,
    cmd: JsonV,
    es: Seq<SpoolEntryV>,
    id: Seq<char>,
)
    requires
        plan.plans(cmd, es, id),
    ensures
        entry_of(es, id) matches Some(e) && plan.path@ == e.path && plan.total_bytes == e.bytes,
        plan.id@ == id,
        plan.len <= 262144,
        uint_field(cmd, "len"@) matches Some(n) ==> plan.len <= n && (n <= 262144 ==> plan.len
            == n),
        uint_field(cmd, "len"@) is None ==> plan.len == 262144,
        uint_field(cmd, "len"@) matches Some(n) ==> (n >= 262144 ==> plan.len == 262144),
        uint_field(cmd, "offset"@) matches Some(n) ==> plan.offset == n,
        uint_field(cmd, "offset"@) is None ==> plan.offset == 0,
{
}

/// What is found under an id has that id and is stored.
pub proof fn what_is_found_is_stored(es: Seq<SpoolEntryV>, id: Seq<char>)
    ensures
        entry_of(es, id) matches Some(e) ==> e.sha256 == id && es.contains(e),
        entry_of(es, id) is None <==> forall|i: int|
            0 <= i < es.len() ==> (#[trigger] es[i]).sha256 != id,
    decreases es.len(),
{
    if es.len() > 0 {
        let rest = es.drop_first();
        what_is_found_is_stored(rest, id);
        assert(es[0] == es.first());
        if es[0].sha256 != id {
            if let Some(e) = entry_of(rest, id) {
                let k = choose|k: int| 0 <= k < rest.len() && rest[k] == e;
                assert(es[k + 1] == e);
                assert(es[k + 1].sha256 == id);
            } else {
                assert forall|i: int| 0 <= i < es.len() implies (#[trigger] es[i]).sha256
                    != id by {
                    if i > 0 {
                        assert(rest[i - 1] == es[i]);
                    }
                }
            }
        } else {
            assert(es[0].sha256 == id);
        }
    }
}

/// The faults of a snapshot read apart: each names the step, but the
/// directory's refusal speaks for itself.
pub proof fn faults_name_their_step(e: String)
    ensures
        SnapshotFault::Encode(e).text() == "snapshot: "@ + e@,
        SnapshotFault::Write(e).text() == "snapshot: write: "@ + e@,
        SnapshotFault::Directory(e).text() == e@,
        FetchStep::Open.head() == "snapshot_fetch: open: "@,
        FetchStep::Seek.head() == "snapshot_fetch: seek: "@,
        FetchStep::Read.head() == "snapshot_fetch: read: "@,
{
}

} // verus!
