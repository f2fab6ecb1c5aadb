//! The session-check records that a process holds, and how they reach the
//! refusal file.
//!
//! A record with a refusal is written to the file until it is there. A pass
//! is applied to the file once, never again: a later refusal that another
//! process wrote must not be cleared by an old pass. A file that could not be
//! read is never written over.
use vstd::prelude::*;

use crate::clock::utc_now_millis;
use crate::json::{fields_read_back, Json, JsonV, opt_text};
use crate::ring::{newest, the_newest_are_the_last};
use crate::text::{dec, decimal, numerals_denote_their_number, str_eq};

verus! {

/// The most records that a process keeps.
pub const MAX_PROCESS_RECORDS: usize = 64;

/// What ran a check.
#[derive(Clone, Copy, Debug, PartialEq, Eq, Structural)]
pub enum CheckSource {
    Probe,
    SameCapture,
    Explicit,
}

/// What a check found about a layer.
#[derive(Clone, Copy, Debug, PartialEq, Eq, Structural)]
pub enum VerdictKind {
    Verified,
    Refused,
    Unverified,
}

/// A layer's verdict, with the evidence as it is published.
pub struct LayerVerdict {
    pub kind: VerdictKind,
    pub body: Json,
}

#[verifier::ext_equal]
pub struct LayerVerdictV {
    pub kind: VerdictKind,
    pub body: JsonV,
}

/// What an optional verdict holds.
pub open spec fn verdict_view(v: Option<LayerVerdict>) -> Option<LayerVerdictV> {
    match v {
        Some(v) => Some(v@),
        None => None,
    }
}

/// Whether a layer was refused.
pub open spec fn refuses(v: Option<LayerVerdictV>) -> bool {
    match v {
        Some(v) => v.kind == VerdictKind::Refused,
        None => false,
    }
}

impl LayerVerdict {
    pub open spec fn view(&self) -> LayerVerdictV {
        LayerVerdictV { kind: self.kind, body: self.body@ }
    }

    pub fn is_refused(&self) -> (r: bool)
        ensures
            r == (self@.kind == VerdictKind::Refused),
    {
        self.kind == VerdictKind::Refused
    }

    /// Whether the check decided anything.
    pub fn is_decisive(&self) -> (r: bool)
        ensures
            r == (self@.kind != VerdictKind::Unverified),
    {
        self.kind != VerdictKind::Unverified
    }

    pub fn copy(&self) -> (r: LayerVerdict)
        ensures
            r@ == self@,
    {
        LayerVerdict { kind: self.kind, body: self.body.copy() }
    }
}

/// A copy of an optional verdict.
pub fn copy_verdict(v: &Option<LayerVerdict>) -> (r: Option<LayerVerdict>)
    ensures
        verdict_view(r) == verdict_view(*v),
{
    match v {
        Some(v) => Some(v.copy()),
        None => None,
    }
}

/// Why a refusal is not on disk.
#[derive(Clone, Copy, Debug, PartialEq, Eq, Structural)]
pub enum PersistErrorKind {
    Unreadable,
    WriteFailed,
}

#[derive(Debug)]
pub struct PersistError {
    pub kind: PersistErrorKind,
    pub detail: String,
}

#[verifier::ext_equal]
pub struct PersistErrorV {
    pub kind: PersistErrorKind,
    pub detail: Seq<char>,
}

impl PersistError {
    pub open spec fn view(&self) -> PersistErrorV {
        PersistErrorV { kind: self.kind, detail: self.detail@ }
    }

    pub fn copy(&self) -> (r: PersistError)
        ensures
            r@ == self@,
    {
        PersistError { kind: self.kind, detail: self.detail.clone() }
    }
}

/// The loopback that a check ran on.
#[derive(Debug)]
pub struct LoopbackRef {
    pub key: String,
    pub output_port: String,
    pub input_port: String,
}

#[verifier::ext_equal]
pub struct LoopbackRefV {
    pub key: Seq<char>,
    pub output_port: Seq<char>,
    pub input_port: Seq<char>,
}

impl LoopbackRef {
    pub open spec fn view(&self) -> LoopbackRefV {
        LoopbackRefV {
            key: self.key@,
            output_port: self.output_port@,
            input_port: self.input_port@,
        }
    }

    pub fn copy(&self) -> (r: LoopbackRef)
        ensures
            r@ == self@,
    {
        LoopbackRef {
            key: self.key.clone(),
            output_port: self.output_port.clone(),
            input_port: self.input_port.clone(),
        }
    }
}

/// One check.
pub struct SessionCheckRecord {
    pub id: String,
    pub ran_at: String,
    pub source: CheckSource,
    pub cmd: String,
    pub loopback: LoopbackRef,
    pub voltage: Option<LayerVerdict>,
    pub latency: Option<LayerVerdict>,
    pub persisted: Option<bool>,
    pub persist_error: Option<PersistError>,
}

#[verifier::ext_equal]
pub struct RecordV {
    pub id: Seq<char>,
    pub ran_at: Seq<char>,
    pub source: CheckSource,
    pub cmd: Seq<char>,
    pub loopback: LoopbackRefV,
    pub voltage: Option<LayerVerdictV>,
    pub latency: Option<LayerVerdictV>,
    pub persisted: Option<bool>,
    pub persist_error: Option<PersistErrorV>,
}

impl RecordV {
    /// Whether a layer of the record was refused.
    pub open spec fn refusal(self) -> bool {
        refuses(self.voltage) || refuses(self.latency)
    }

    /// The record, not on disk for the given reason.
    pub open spec fn unwritten(self, e: PersistErrorV) -> RecordV {
        RecordV { persisted: Some(false), persist_error: Some(e), ..self }
    }

    /// The record, on disk.
    pub open spec fn written(self) -> RecordV {
        RecordV { persisted: Some(true), persist_error: None, ..self }
    }
}

impl SessionCheckRecord {
    pub open spec fn view(&self) -> RecordV {
        RecordV {
            id: self.id@,
            ran_at: self.ran_at@,
            source: self.source,
            cmd: self.cmd@,
            loopback: self.loopback@,
            voltage: verdict_view(self.voltage),
            latency: verdict_view(self.latency),
            persisted: self.persisted,
            persist_error: match self.persist_error {
                Some(e) => Some(e@),
                None => None,
            },
        }
    }

    pub fn has_refusal(&self) -> (r: bool)
        ensures
            r == self@.refusal(),
    {
        (match &self.voltage {
            Some(v) => v.is_refused(),
            None => false,
        }) || (match &self.latency {
            Some(v) => v.is_refused(),
            None => false,
        })
    }

    pub fn copy(&self) -> (r: SessionCheckRecord)
        ensures
            r@ == self@,
    {
        SessionCheckRecord {
            id: self.id.clone(),
            ran_at: self.ran_at.clone(),
            source: self.source,
            cmd: self.cmd.clone(),
            loopback: self.loopback.copy(),
            voltage: copy_verdict(&self.voltage),
            latency: copy_verdict(&self.latency),
            persisted: self.persisted,
            persist_error: match &self.persist_error {
                Some(e) => Some(e.copy()),
                None => None,
            },
        }
    }
}

/// A held record, and whether its pass is already applied to the file.
pub struct Held {
    pub record: SessionCheckRecord,
    pub applied: bool,
}

#[verifier::ext_equal]
pub struct HeldV {
    pub record: RecordV,
    pub applied: bool,
}

impl Held {
    pub open spec fn view(&self) -> HeldV {
        HeldV { record: self.record@, applied: self.applied }
    }
}

/// The records of a process.
pub struct SessionChecks {
    pub process: Vec<Held>,
    pub seq: u64,
}

/// The records without those of the given id.
pub open spec fn others(s: Seq<HeldV>, id: Seq<char>) -> Seq<HeldV>
    decreases s.len(),
{
    if s.len() == 0 {
        s
    } else if s[0].record.id == id {
        others(s.drop_first(), id)
    } else {
        seq![s[0]] + others(s.drop_first(), id)
    }
}

/// The records after a new one of its id came in; the oldest make room.
pub open spec fn pushed(s: Seq<HeldV>, rec: RecordV) -> Seq<HeldV> {
    newest(
        others(s, rec.id).push(HeldV { record: rec, applied: false }),
        MAX_PROCESS_RECORDS as nat,
    )
}

/// A record after a failed attempt to write.
pub open spec fn still_pending(h: HeldV, e: PersistErrorV) -> HeldV {
    if h.record.refusal() && h.record.persisted != Some(true) {
        HeldV { record: h.record.unwritten(e), ..h }
    } else {
        h
    }
}

/// A record after the file holds everything: refusals are on disk, passes are
/// applied.
pub open spec fn synced(h: HeldV) -> HeldV {
    if h.record.refusal() {
        HeldV { record: h.record.written(), ..h }
    } else {
        HeldV { applied: true, ..h }
    }
}

/// Whether a sync still has to merge a record.
pub open spec fn to_merge(h: HeldV) -> bool {
    h.record.persisted != Some(true) && !h.applied
}

/// The records that a sync still has to merge.
pub open spec fn unmerged(s: Seq<HeldV>) -> Seq<RecordV>
    decreases s.len(),
{
    if s.len() == 0 {
        Seq::empty()
    } else if to_merge(s.last()) {
        unmerged(s.drop_last()).push(s.last().record)
    } else {
        unmerged(s.drop_last())
    }
}

/// The first record of the given id.
pub open spec fn record_of(s: Seq<HeldV>, id: Seq<char>) -> Option<RecordV>
    decreases s.len(),
{
    if s.len() == 0 {
        None
    } else if s[0].record.id == id {
        Some(s[0].record)
    } else {
        record_of(s.drop_first(), id)
    }
}

/// No two records share an id, and there are at most `MAX_PROCESS_RECORDS`.
pub open spec fn records_wf(s: Seq<HeldV>) -> bool {
    &&& s.len() <= MAX_PROCESS_RECORDS
    &&& forall|i: int, j: int|
        0 <= i < j < s.len() ==> (#[trigger] s[i]).record.id != (#[trigger] s[j]).record.id
}

/// The id of the `n`th record of process `pid`.
pub open spec fn id_text(pid: u32, n: u64) -> Seq<char> {
    dec(pid as nat) + "-"@ + dec(n as nat)
}

proof fn others_are_distinct(s: Seq<HeldV>, id: Seq<char>)
    requires
        forall|i: int, j: int|
            0 <= i < j < s.len() ==> (#[trigger] s[i]).record.id != (#[trigger] s[j]).record.id,
    ensures
        forall|i: int, j: int|
            0 <= i < j < others(s, id).len() ==> (#[trigger] others(s, id)[i]).record.id != (
            #[trigger] others(s, id)[j]).record.id,
        forall|i: int|
            0 <= i < others(s, id).len() ==> (#[trigger] others(s, id)[i]).record.id != id,
        forall|i: int|
            0 <= i < others(s, id).len() ==> s.contains(#[trigger] others(s, id)[i]),
        others(s, id).len() <= s.len(),
    decreases s.len(),
{
    if s.len() > 0 {
        let rest = s.drop_first();
        assert forall|i: int, j: int| 0 <= i < j < rest.len() implies (
        #[trigger] rest[i]).record.id != (#[trigger] rest[j]).record.id by {
            assert(rest[i] == s[i + 1] && rest[j] == s[j + 1]);
        }
        others_are_distinct(rest, id);
        let t = others(s, id);
        let u = others(rest, id);
        assert forall|k: int| 0 <= k < u.len() implies s.contains(#[trigger] u[k]) by {
            let m = choose|m: int| 0 <= m < rest.len() && rest[m] == u[k];
            assert(s[m + 1] == u[k]);
        }
        if s[0].record.id != id {
            assert forall|i: int, j: int| 0 <= i < j < t.len() implies (
            #[trigger] t[i]).record.id != (#[trigger] t[j]).record.id by {
                assert(t[j] == u[j - 1]);
                if i == 0 {
                    let m = choose|m: int| 0 <= m < rest.len() && rest[m] == u[j - 1];
                    assert(s[m + 1] == u[j - 1]);
                    assert(s[0].record.id != s[m + 1].record.id);
                } else {
                    assert(t[i] == u[i - 1]);
                }
            }
            assert forall|i: int| 0 <= i < t.len() implies (#[trigger] t[i]).record.id != id by {
                if i > 0 {
                    assert(t[i] == u[i - 1]);
                }
            }
            assert forall|i: int| 0 <= i < t.len() implies s.contains(#[trigger] t[i]) by {
                if i == 0 {
                    assert(s[0] == t[0]);
                } else {
                    assert(t[i] == u[i - 1]);
                }
            }
        }
    }
}

proof fn pushing_keeps_wf(s: Seq<HeldV>, rec: RecordV)
    requires
        records_wf(s),
    ensures
        records_wf(pushed(s, rec)),
{
    others_are_distinct(s, rec.id);
}

impl SessionChecks {
    pub open spec fn view(&self) -> Seq<HeldV> {
        self.process@.map_values(|h: Held| h@)
    }

    pub open spec fn wf(&self) -> bool {
        records_wf(self@)
    }

    pub fn new() -> (r: SessionChecks)
        ensures
            r.wf(),
            r@ == Seq::<HeldV>::empty(),
            r.seq == 0,
    {
        let r = SessionChecks { process: Vec::new(), seq: 0 };
        assert(r@ =~= Seq::empty());
        r
    }

    /// A fresh id.
    pub fn next_id(&mut self, pid: u32) -> (id: String)
        requires
            old(self).seq < u64::MAX,
        ensures
            final(self).seq == old(self).seq + 1,
            final(self).process == old(self).process,
            id@ == id_text(pid, final(self).seq),
    {
        self.seq = self.seq + 1;
        decimal(pid as u64).concat("-").concat(decimal(self.seq).as_str())
    }

    /// Hold a record. One of the same id is replaced and is then unsynced
    /// again; past the limit the oldest go.
    pub fn push(&mut self, record: SessionCheckRecord)
        requires
            old(self).wf(),
        ensures
            final(self).wf(),
            final(self).seq == old(self).seq,
            final(self)@ == pushed(old(self)@, record@),
    {
        let ghost before = self@;
        let ghost id = record.id@;
        let ghost mut kept: Seq<HeldV> = Seq::empty();
        let ghost mut rest: Seq<HeldV> = before;
        let mut i: usize = 0;
        assert(self@ =~= kept + rest);
        assert(kept + others(rest, id) =~= others(before, id));
        while i < self.process.len()
            invariant
                i <= self.process.len(),
                kept.len() == i,
                self@ == kept + rest,
                id == record.id@,
                kept + others(rest, id) == others(before, id),
                self.seq == old(self).seq,
            decreases self.process.len() - i,
        {
            assert(self@[i as int] == self.process@[i as int]@);
            assert(rest[0] == self@[i as int]);
            if str_eq(self.process[i].record.id.as_str(), record.id.as_str()) {
                let ghost was = self@;
                let ghost now = self.process@;
                let _ = self.process.remove(i);
                proof {
                    assert(self.process@ == now.remove(i as int));
                    assert(self@ =~= was.remove(i as int));
                    assert(was.remove(i as int) =~= kept + rest.drop_first());
                    rest = rest.drop_first();
                }
            } else {
                proof {
                    let next = rest.drop_first();
                    assert(kept.push(rest[0]) + next =~= kept + rest);
                    assert(kept.push(rest[0]) + others(next, id) =~= kept + others(rest, id));
                    kept = kept.push(rest[0]);
                    rest = next;
                }
                i = i + 1;
            }
        }
        proof {
            assert(rest =~= Seq::empty());
            assert(self@ =~= others(before, id));
            others_are_distinct(before, id);
            pushing_keeps_wf(before, record@);
        }
        let ghost rec = record@;
        let ghost kept_all = self@;
        self.process.push(Held { record, applied: false });
        assert(self@ =~= kept_all.push(HeldV { record: rec, applied: false }));
        let ghost full = self@;
        if self.process.len() > MAX_PROCESS_RECORDS {
            let _ = self.process.remove(0);
            assert(self@ =~= full.remove(0));
            assert(full.remove(0) =~= newest(full, MAX_PROCESS_RECORDS as nat));
        }
    }

    /// The record of the given id.
    pub fn get(&self, id: &str) -> (r: Option<&SessionCheckRecord>)
        ensures
            match r {
                Some(rec) => record_of(self@, id@) == Some(rec@),
                None => record_of(self@, id@) is None,
            },
    {
        let ghost all = self@;
        let mut i: usize = 0;
        assert(all.subrange(0, all.len() as int) =~= all);
        while i < self.process.len()
            invariant
                i <= self.process.len(),
                all == self@,
                record_of(all, id@) == record_of(all.subrange(i as int, all.len() as int), id@),
            decreases self.process.len() - i,
        {
            let ghost rest = all.subrange(i as int, all.len() as int);
            assert(rest.drop_first() =~= all.subrange(i + 1, all.len() as int));
            assert(rest[0] == self.process@[i as int]@);
            if str_eq(self.process[i].record.id.as_str(), id) {
                return Some(&self.process[i].record);
            }
            i = i + 1;
        }
        None
    }

    /// The refusals that are not on disk stay pending, for the given reason.
    pub fn mark_pending(&mut self, error: &PersistError)
        requires
            old(self).wf(),
        ensures
            final(self).wf(),
            final(self).seq == old(self).seq,
            final(self)@ == old(self)@.map_values(|h: HeldV| still_pending(h, error@)),
    {
        let mut i: usize = 0;
        while i < self.process.len()
            invariant
                i <= self.process.len(),
                self.process.len() == old(self).process.len(),
                self.seq == old(self).seq,
                forall|k: int|
                    0 <= k < self.process.len() ==> (#[trigger] self.process@[k])@ == (if k < i {
                        still_pending(old(self).process@[k]@, error@)
                    } else {
                        old(self).process@[k]@
                    }),
            decreases self.process.len() - i,
        {
            let pending: bool = self.process[i].record.has_refusal() && (
            match self.process[i].record.persisted {
                Some(true) => false,
                _ => true,
            });
            if pending {
                self.process[i].record.persisted = Some(false);
                self.process[i].record.persist_error = Some(error.copy());
            }
            i = i + 1;
        }
        assert(self@ =~= old(self)@.map_values(|h: HeldV| still_pending(h, error@)));
    }

    /// Everything held is in the file.
    pub fn mark_persisted(&mut self)
        requires
            old(self).wf(),
        ensures
            final(self).wf(),
            final(self).seq == old(self).seq,
            final(self)@ == old(self)@.map_values(|h: HeldV| synced(h)),
    {
        let mut i: usize = 0;
        while i < self.process.len()
            invariant
                i <= self.process.len(),
                self.process.len() == old(self).process.len(),
                self.seq == old(self).seq,
                forall|k: int|
                    0 <= k < self.process.len() ==> (#[trigger] self.process@[k])@ == (if k < i {
                        synced(old(self).process@[k]@)
                    } else {
                        old(self).process@[k]@
                    }),
            decreases self.process.len() - i,
        {
            if self.process[i].record.has_refusal() {
                self.process[i].record.persisted = Some(true);
                self.process[i].record.persist_error = None;
            } else {
                self.process[i].applied = true;
            }
            i = i + 1;
        }
        assert(self@ =~= old(self)@.map_values(|h: HeldV| synced(h)));
    }

    /// The records that a sync still has to merge: refusals not yet on disk
    /// and passes not yet applied.
    pub fn unsynced(&self) -> (r: Vec<SessionCheckRecord>)
        ensures
            r@.map_values(|x: SessionCheckRecord| x@) == unmerged(self@),
    {
        let ghost all = self@;
        let mut out: Vec<SessionCheckRecord> = Vec::new();
        let mut i: usize = 0;
        proof {
            assert(all.take(0) =~= Seq::empty());
            assert(out@.map_values(|x: SessionCheckRecord| x@) =~= Seq::empty());
        }
        while i < self.process.len()
            invariant
                i <= self.process.len(),
                all == self@,
                out@.map_values(|x: SessionCheckRecord| x@) == unmerged(all.take(i as int)),
            decreases self.process.len() - i,
        {
            proof {
                assert(all.take(i + 1).drop_last() =~= all.take(i as int));
                assert(all.take(i + 1).last() == self.process@[i as int]@);
            }
            let done: bool = match self.process[i].record.persisted {
                Some(true) => true,
                _ => false,
            };
            if !done && !self.process[i].applied {
                let ghost before = out@;
                out.push(self.process[i].record.copy());
                assert(out@.map_values(|x: SessionCheckRecord| x@) =~= before.map_values(
                    |x: SessionCheckRecord| x@,
                ).push(self.process@[i as int]@.record));
            }
            i = i + 1;
        }
        assert(all.take(i as int) =~= all);
        out
    }

    /// Take in how an attempt to bring the refusal file up to date ended, and
    /// tell what then stands on record.
    pub fn sync(&mut self, event: &SyncEvent) -> (r: OnRecord)
        requires
            old(self).wf(),
        ensures
            final(self).wf(),
            final(self).seq == old(self).seq,
            r.stands_after(*event),
            final(self)@ == after_sync(old(self)@, *event),
    {
        match event {
            SyncEvent::Unreadable { observation } => {
                let e = PersistError {
                    kind: PersistErrorKind::Unreadable,
                    detail: observation.clone(),
                };
                self.mark_pending(&e);
                OnRecord::Unreadable { observation: observation.clone() }
            },
            SyncEvent::WriteFailed { cause } => {
                let e = PersistError {
                    kind: PersistErrorKind::WriteFailed,
                    detail: cause.clone(),
                };
                self.mark_pending(&e);
                OnRecord::AsRead
            },
            SyncEvent::Unchanged => {
                self.mark_persisted();
                OnRecord::AsRead
            },
            SyncEvent::Written => {
                self.mark_persisted();
                OnRecord::Merged
            },
        }
    }
}

/// How an attempt to bring the refusal file up to date ended.
#[derive(Debug)]
pub enum SyncEvent {
    /// The file could not be read, so nothing was written.
    Unreadable { observation: String },
    /// Merging changed nothing.
    Unchanged,
    Written,
    WriteFailed { cause: String },
}

/// Which refusals stand on record after an attempt to bring the file up to
/// date.
#[derive(Debug)]
pub enum OnRecord {
    /// None that could be read.
    Unreadable { observation: String },
    /// Those that were read.
    AsRead,
    /// Those that were read, with the unsynced records merged in.
    Merged,
}

impl OnRecord {
    /// What stands on record after an attempt.
    pub open spec fn stands_after(&self, event: SyncEvent) -> bool {
        match event {
            SyncEvent::Unreadable { observation } => *self matches OnRecord::Unreadable {
                observation: o,
            } && o@ == observation@,
            SyncEvent::WriteFailed { .. } => *self is AsRead,
            SyncEvent::Unchanged => *self is AsRead,
            SyncEvent::Written => *self is Merged,
        }
    }
}

/// The records after an attempt.
pub open spec fn after_sync(s: Seq<HeldV>, event: SyncEvent) -> Seq<HeldV> {
    match event {
        SyncEvent::Unreadable { observation } => s.map_values(
            |h: HeldV|
                still_pending(
                    h,
                    PersistErrorV {
                        kind: PersistErrorKind::Unreadable,
                        detail: observation@,
                    },
                ),
        ),
        SyncEvent::WriteFailed { cause } => s.map_values(
            |h: HeldV|
                still_pending(
                    h,
                    PersistErrorV { kind: PersistErrorKind::WriteFailed, detail: cause@ },
                ),
        ),
        SyncEvent::Unchanged => s.map_values(|h: HeldV| synced(h)),
        SyncEvent::Written => s.map_values(|h: HeldV| synced(h)),
    }
}

/// What to do with the refusal file.
#[derive(Clone, Copy, Debug, PartialEq, Eq, Structural)]
pub enum SyncAction {
    /// Leave it alone: it could not be read.
    Leave,
    /// Nothing to write.
    Keep,
    /// Write the merged records.
    Write,
}

/// What to do with the refusal file after reading it.
pub open spec fn action_of(readable: bool, changed: bool) -> SyncAction {
    if !readable {
        SyncAction::Leave
    } else if changed {
        SyncAction::Write
    } else {
        SyncAction::Keep
    }
}

/// What to do with the refusal file after reading it; `changed` tells whether
/// merging the unsynced records changes what was read.
pub fn sync_action(readable: bool, changed: bool) -> (r: SyncAction)
    ensures
        r == action_of(readable, changed),
{
    if !readable {
        SyncAction::Leave
    } else if changed {
        SyncAction::Write
    } else {
        SyncAction::Keep
    }
}

/// An empty record.
pub open spec fn fresh_record(
    id: Seq<char>,
    ran_at: Seq<char>,
    cmd: Seq<char>,
    source: CheckSource,
    loopback: LoopbackRefV,
) -> RecordV {
    RecordV {
        id,
        ran_at,
        source,
        cmd,
        loopback,
        voltage: None,
        latency: None,
        persisted: None,
        persist_error: None,
    }
}

/// A new, empty record for a check that runs at `ran_at`.
pub fn record_at(
    id: String,
    ran_at: String,
    cmd: &str,
    source: CheckSource,
    loopback: &LoopbackRef,
) -> (r: SessionCheckRecord)
    ensures
        r@ == fresh_record(id@, ran_at@, cmd@, source, loopback@),
{
    SessionCheckRecord {
        id,
        ran_at,
        source,
        cmd: cmd.to_owned(),
        loopback: loopback.copy(),
        voltage: None,
        latency: None,
        persisted: None,
        persist_error: None,
    }
}

/// A new, empty record for a check that runs now, with a fresh id.
pub fn new_record(
    checks: &mut SessionChecks,
    pid: u32,
    cmd: &str,
    source: CheckSource,
    loopback: &LoopbackRef,
) -> (r: SessionCheckRecord)
    requires
        old(checks).seq < u64::MAX,
    ensures
        final(checks).seq == old(checks).seq + 1,
        final(checks).process == old(checks).process,
        r@ == fresh_record(
            id_text(pid, final(checks).seq),
            r@.ran_at,
            cmd@,
            source,
            loopback@,
        ),
{
    let id = checks.next_id(pid);
    record_at(id, utc_now_millis(), cmd, source, loopback)
}

/// A finished record: a refusal is not on disk yet, a pass need not be.
pub open spec fn finished(rec: RecordV) -> RecordV {
    RecordV {
        persisted: if rec.refusal() {
            Some(false)
        } else {
            None
        },
        ..rec
    }
}

/// Hold a finished record: a refusal starts out as not on disk.
pub fn hold(checks: &mut SessionChecks, rec: SessionCheckRecord)
    requires
        old(checks).wf(),
    ensures
        final(checks).wf(),
        final(checks).seq == old(checks).seq,
        final(checks)@ == pushed(old(checks)@, finished(rec@)),
{
    let mut rec = rec;
    rec.persisted = if rec.has_refusal() {
        Some(false)
    } else {
        None
    };
    checks.push(rec);
}

/// The `refusal_record` field of replies: `"ok"`, or what was observed of an
/// unreadable file.
pub open spec fn refusal_record_of(unreadable: Option<Seq<char>>) -> JsonV {
    match unreadable {
        None => JsonV::Str("ok"@),
        Some(o) => JsonV::obj().with("unreadable"@, JsonV::Str(o)),
    }
}

/// The `refusal_record` field of replies.
pub fn refusal_record_value(unreadable: &Option<String>) -> (r: Json)
    ensures
        r@ == refusal_record_of(opt_text(*unreadable)),
{
    match unreadable {
        None => Json::string("ok"),
        Some(o) => Json::obj().with("unreadable", Json::string(o.as_str())),
    }
}

/// After a successful sync no record is merged again.
pub proof fn a_synced_record_is_merged_once(s: Seq<HeldV>)
    ensures
        unmerged(s.map_values(|h: HeldV| synced(h))).len() == 0,
    decreases s.len(),
{
    let t = s.map_values(|h: HeldV| synced(h));
    if s.len() > 0 {
        a_synced_record_is_merged_once(s.drop_last());
        assert(t.drop_last() =~= s.drop_last().map_values(|h: HeldV| synced(h)));
        assert(t.last() == synced(s.last()));
    }
}

/// Pushing a record makes it unsynced, even when one of its id was already
/// applied.
pub proof fn a_pushed_record_is_unsynced(s: Seq<HeldV>, rec: RecordV)
    requires
        rec.persisted != Some(true),
    ensures
        unmerged(pushed(s, rec)).len() > 0,
        unmerged(pushed(s, rec)).last() == rec,
{
    let t = pushed(s, rec);
    assert(t.last() == (HeldV { record: rec, applied: false }));
}

/// A refusal that could not be written stays unsynced.
pub proof fn an_unwritten_refusal_stays_unsynced(h: HeldV, e: PersistErrorV)
    requires
        h.record.refusal(),
        to_merge(h),
    ensures
        to_merge(still_pending(h, e)),
        still_pending(h, e).record.persist_error == Some(e),
{
}

/// A process never gives an id twice.
pub proof fn ids_never_repeat(pid: u32, a: u64, b: u64)
    requires
        a != b,
    ensures
        id_text(pid, a) != id_text(pid, b),
{
    let head = dec(pid as nat) + "-"@;
    let x = id_text(pid, a);
    let y = id_text(pid, b);
    numerals_denote_their_number(a as nat);
    numerals_denote_their_number(b as nat);
    if x == y {
        assert(x.subrange(head.len() as int, x.len() as int) =~= dec(a as nat));
        assert(y.subrange(head.len() as int, y.len() as int) =~= dec(b as nat));
    }
}

/// A record is a refusal where either of its layers was refused; finishing it
/// marks it as not on disk exactly then, and changes nothing else of it.
pub proof fn a_refusal_is_not_on_disk_yet(rec: RecordV)
    ensures
        rec.refusal() <==> (rec.voltage is Some && rec.voltage->0.kind == VerdictKind::Refused) || (
        rec.latency is Some && rec.latency->0.kind == VerdictKind::Refused),
        rec.refusal() ==> finished(rec).persisted == Some(false),
        !rec.refusal() ==> finished(rec).persisted is None,
        finished(rec) == (RecordV { persisted: finished(rec).persisted, ..rec }),
        finished(rec).refusal() == rec.refusal(),
{
}

/// A new record says what ran, why, when and on which loopback, and has no
/// verdict yet.
pub proof fn a_new_record_is_empty(
    id: Seq<char>,
    at: Seq<char>,
    cmd: Seq<char>,
    source: CheckSource,
    loopback: LoopbackRefV,
)
    ensures
        ({
            let rec = fresh_record(id, at, cmd, source, loopback);
            &&& rec.id == id && rec.ran_at == at && rec.cmd == cmd
            &&& rec.source == source && rec.loopback == loopback
            &&& rec.voltage is None && rec.latency is None
            &&& rec.persisted is None && rec.persist_error is None
            &&& !rec.refusal()
        }),
{
}

/// A record that was pushed is the newest one and is found by its id; of its
/// id there is no other, and no record of another id is changed. At most
/// `MAX_PROCESS_RECORDS` are kept.
pub proof fn a_pushed_record_is_found(s: Seq<HeldV>, rec: RecordV)
    requires
        records_wf(s),
    ensures
        records_wf(pushed(s, rec)),
        pushed(s, rec).len() > 0,
        pushed(s, rec).last() == (HeldV { record: rec, applied: false }),
        record_of(pushed(s, rec), rec.id) == Some(rec),
        forall|i: int|
            0 <= i < pushed(s, rec).len() - 1 ==> s.contains(#[trigger] pushed(s, rec)[i])
                && pushed(s, rec)[i].record.id != rec.id,
{
    pushing_keeps_wf(s, rec);
    others_are_distinct(s, rec.id);
    let kept = others(s, rec.id);
    let all = kept.push(HeldV { record: rec, applied: false });
    let t = pushed(s, rec);
    the_newest_are_the_last(all, MAX_PROCESS_RECORDS as nat);
    assert forall|i: int| 0 <= i < t.len() - 1 implies s.contains(#[trigger] t[i])
        && t[i].record.id != rec.id by {
        let k = all.len() - t.len() + i;
        assert(t[i] == all[k]);
        assert(all[k] == kept[k]);
    }
    found_by_id(t, t.len() - 1);
}

proof fn found_by_id(s: Seq<HeldV>, i: int)
    requires
        0 <= i < s.len(),
        forall|k: int| 0 <= k < i ==> (#[trigger] s[k]).record.id != s[i].record.id,
    ensures
        record_of(s, s[i].record.id) == Some(s[i].record),
    decreases i,
{
    if i > 0 {
        assert(s[0].record.id != s[i].record.id);
        let rest = s.drop_first();
        assert forall|k: int| 0 <= k < i - 1 implies (#[trigger] rest[k]).record.id != rest[i
            - 1].record.id by {
            assert(s[k + 1].record.id != s[i].record.id);
        }
        found_by_id(rest, i - 1);
    }
}

/// A record is found by its id wherever it is held, and an id that no record
/// has finds none.
pub proof fn records_are_found_by_their_ids(s: Seq<HeldV>, id: Seq<char>, i: int)
    requires
        records_wf(s),
    ensures
        0 <= i < s.len() ==> record_of(s, s[i].record.id) == Some(s[i].record),
        (forall|k: int| 0 <= k < s.len() ==> (#[trigger] s[k]).record.id != id) ==> record_of(s, id)
            is None,
{
    if 0 <= i < s.len() {
        assert forall|k: int| 0 <= k < i implies (#[trigger] s[k]).record.id != s[i].record.id by {
            assert(s[k].record.id != s[i].record.id);
        }
        found_by_id(s, i);
    }
    if forall|k: int| 0 <= k < s.len() ==> (#[trigger] s[k]).record.id != id {
        not_found(s, id);
    }
}

proof fn not_found(s: Seq<HeldV>, id: Seq<char>)
    requires
        forall|k: int| 0 <= k < s.len() ==> (#[trigger] s[k]).record.id != id,
    ensures
        record_of(s, id) is None,
    decreases s.len(),
{
    if s.len() > 0 {
        assert(s[0].record.id != id);
        let rest = s.drop_first();
        assert forall|k: int| 0 <= k < rest.len() implies (#[trigger] rest[k]).record.id != id by {
            assert(s[k + 1].record.id != id);
        }
        not_found(rest, id);
    }
}

/// A sync that succeeded puts refusals on disk and marks passes as applied; a
/// failed one tells each refusal that is not on disk why, and touches no other
/// record. What was judged is never touched.
pub proof fn a_sync_touches_only_what_it_settles(h: HeldV, e: PersistErrorV)
    ensures
        synced(h).record.voltage == h.record.voltage,
        synced(h).record.latency == h.record.latency,
        synced(h).record.id == h.record.id,
        h.record.refusal() ==> synced(h).record.persisted == Some(true)
            && synced(h).record.persist_error is None && synced(h).applied == h.applied,
        !h.record.refusal() ==> synced(h).applied && synced(h).record == h.record,
        !to_merge(synced(h)),
        !h.record.refusal() ==> still_pending(h, e) == h,
        h.record.persisted == Some(true) ==> still_pending(h, e) == h,
        h.record.refusal() && h.record.persisted != Some(true) ==> still_pending(
            h,
            e,
        ).record.persisted == Some(false) && still_pending(h, e).record.persist_error == Some(e),
        still_pending(h, e).record.voltage == h.record.voltage,
        still_pending(h, e).record.latency == h.record.latency,
        still_pending(h, e).record.id == h.record.id,
        still_pending(h, e).applied == h.applied,
        to_merge(still_pending(h, e)) == to_merge(h),
{
}

/// A record is still to be merged exactly while it is neither on disk nor
/// applied; what is to be merged comes in the order in which it was held.
pub proof fn what_is_unsynced_is_merged_in_order(s: Seq<HeldV>, h: HeldV)
    ensures
        h.record.persisted == Some(true) || h.applied ==> unmerged(s.push(h)) == unmerged(s),
        h.record.persisted != Some(true) && !h.applied ==> unmerged(s.push(h)) == unmerged(s).push(
            h.record,
        ),
{
    assert(s.push(h).drop_last() =~= s);
}

/// An attempt leaves as many records as there were, each where it was, settled
/// where the file holds everything and pending where it does not; a file that
/// could not be read, or not be written, is told as the reason.
pub proof fn an_attempt_settles_each_record(s: Seq<HeldV>, event: SyncEvent, i: int)
    requires
        0 <= i < s.len(),
    ensures
        after_sync(s, event).len() == s.len(),
        event is Written || event is Unchanged ==> after_sync(s, event)[i] == synced(s[i]),
        event matches SyncEvent::Unreadable { observation } ==> after_sync(s, event)[i]
            == still_pending(
            s[i],
            PersistErrorV { kind: PersistErrorKind::Unreadable, detail: observation@ },
        ),
        event matches SyncEvent::WriteFailed { cause } ==> after_sync(s, event)[i]
            == still_pending(
            s[i],
            PersistErrorV { kind: PersistErrorKind::WriteFailed, detail: cause@ },
        ),
{
}

/// What stands on record is what was merged where it was written, what was
/// read where nothing was, and nothing where nothing could be read.
pub proof fn an_attempt_tells_what_stands(r: OnRecord, event: SyncEvent)
    requires
        r.stands_after(event),
    ensures
        r is Merged <==> event is Written,
        r is Unreadable <==> event is Unreadable,
        r is AsRead <==> event is WriteFailed || event is Unchanged,
        event matches SyncEvent::Unreadable { observation: told } ==> r matches
            OnRecord::Unreadable { observation } && observation@ == told@,
{
}

/// A file that could not be read is never written; one that could is written
/// exactly where merging changes it.
pub proof fn an_unreadable_file_is_left_alone(readable: bool, changed: bool)
    ensures
        action_of(readable, changed) == SyncAction::Write <==> readable && changed,
        action_of(readable, changed) == SyncAction::Leave <==> !readable,
        action_of(readable, changed) == SyncAction::Keep <==> readable && !changed,
{
}

/// Replies say that the refusal file is fine, or what was observed of it.
pub proof fn an_unreadable_file_is_told(observed: Option<Seq<char>>)
    ensures
        observed is None ==> refusal_record_of(observed) == JsonV::Str("ok"@),
        observed matches Some(o) ==> refusal_record_of(observed).field("unreadable"@) == Some(
            JsonV::Str(o),
        ),
{
    fields_read_back();
}

} // verus!
