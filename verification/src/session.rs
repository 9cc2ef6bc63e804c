//! Telemetry session decoder: dispatch of one envelope at a time, the batch
//! pipeline (acknowledge, persist, decode items), and the per-connection
//! stream step.
//!
//! These functions are pure: they compute the acknowledgment bytes to write
//! back, the archive entry to persist and the decoded items, and the caller
//! performs the socket and storage work. The caller writes the
//! acknowledgment before it persists or decodes, so the firmware's send
//! pipeline never stalls on the slower paths.

use vstd::prelude::*;

use crate::codec::DecodeErr;
use crate::hexfmt::hex8;
use crate::hexfmt::spec_hex8;
use crate::schema::{
    lemma_envelope_encode_decode,
    BatchItemV, Envelope, EnvelopeV, SensorRecord, SensorRecordV, encode_envelope,
    lemma_batch_item_round_trip, parse_batch_item, parse_envelope, parse_sensor,
    spec_enc_batch_item, spec_enc_envelope, spec_parse_batch_item, spec_parse_envelope,
    spec_parse_sensor, val_batch, val_batch_bytes, val_raw, val_raw_bytes, val_session,
    val_session_bytes, wf_batch_item,
};
use crate::codec::bytes_eq;
use vstd::slice::slice_to_vec;
use crate::codec::at;
use crate::codec::lemma_at_concat;

verus! {

/// What became of one framed batch item.
pub enum ItemOutcome {
    /// The item's payload decoded as a sensor record.
    Decoded { seq: u32, rec: SensorRecord },
    /// The item framed correctly but its payload matched no known shape; it
    /// is dropped and the rest of the batch goes on.
    Discarded { seq: u32 },
}

pub enum ItemOutcomeV {
    Decoded { seq: u32, rec: SensorRecordV },
    Discarded { seq: u32 },
}

impl View for ItemOutcome {
    type V = ItemOutcomeV;

    open spec fn view(&self) -> ItemOutcomeV {
        match self {
            ItemOutcome::Decoded { seq, rec } => ItemOutcomeV::Decoded { seq: *seq, rec: rec@ },
            ItemOutcome::Discarded { seq } => ItemOutcomeV::Discarded { seq: *seq },
        }
    }
}

/// How item decoding for one batch ended.
#[derive(Clone, Copy, PartialEq, Eq, Structural, Debug)]
pub enum BatchEnd {
    /// The inner stream was consumed exactly to its end.
    Complete,
    /// A frame failed to decode mid-stream; the items after that point are
    /// lost, the connection is unaffected.
    Corrupted,
}

/// The outcomes of decoding one batch's inner stream, in stream order.
pub struct BatchReport {
    pub outcomes: Vec<ItemOutcome>,
    pub end: BatchEnd,
}

pub struct BatchReportV {
    pub outcomes: Seq<ItemOutcomeV>,
    pub end: BatchEnd,
}

pub open spec fn outcomes_view(v: Seq<ItemOutcome>) -> Seq<ItemOutcomeV> {
    v.map_values(|o: ItemOutcome| o@)
}

impl View for BatchReport {
    type V = BatchReportV;

    open spec fn view(&self) -> BatchReportV {
        BatchReportV { outcomes: outcomes_view(self.outcomes@), end: self.end }
    }
}

/// One archive entry: the batch's raw envelope bytes under its fixed-width
/// hex key.
pub struct PersistPlan {
    pub key: Vec<u8>,
    pub payload: Vec<u8>,
}

pub struct PersistPlanV {
    pub key: Seq<u8>,
    pub payload: Seq<u8>,
}

impl View for PersistPlan {
    type V = PersistPlanV;

    open spec fn view(&self) -> PersistPlanV {
        PersistPlanV { key: self.key@, payload: self.payload@ }
    }
}

/// The work a batch with a present stream produces, after its
/// acknowledgment: the archive entry, then the item decode.
pub struct BatchWork {
    pub persist: PersistPlan,
    pub report: BatchReport,
}

pub struct BatchWorkV {
    pub persist: PersistPlanV,
    pub report: BatchReportV,
}

impl View for BatchWork {
    type V = BatchWorkV;

    open spec fn view(&self) -> BatchWorkV {
        BatchWorkV { persist: self.persist@, report: self.report@ }
    }
}

/// What one dispatched envelope asks the connection to do.
pub enum SessionAction {
    /// A session handshake: write back the fixed acknowledgment.
    SessionAck { ack: Vec<u8> },
    /// A batch without an id: warn and go on; nothing is written back.
    BatchMissingId,
    /// A batch with an id: write back the echoing acknowledgment first, then
    /// do the work if a stream was present.
    BatchHandled { id: u32, ack: Vec<u8>, work: Option<BatchWork> },
    /// An unrecognized kind: warn and go on.
    UnknownPart,
}

pub enum SessionActionV {
    SessionAck { ack: Seq<u8> },
    BatchMissingId,
    BatchHandled { id: u32, ack: Seq<u8>, work: Option<BatchWorkV> },
    UnknownPart,
}

impl View for SessionAction {
    type V = SessionActionV;

    open spec fn view(&self) -> SessionActionV {
        match self {
            SessionAction::SessionAck { ack } => SessionActionV::SessionAck { ack: ack@ },
            SessionAction::BatchMissingId => SessionActionV::BatchMissingId,
            SessionAction::BatchHandled { id, ack, work } => SessionActionV::BatchHandled {
                id: *id,
                ack: ack@,
                work: match work {
                    Some(w) => Some(w@),
                    None => None,
                },
            },
            SessionAction::UnknownPart => SessionActionV::UnknownPart,
        }
    }
}

// ---------------------------------------------------------------------------
// Batch item decoding.
// ---------------------------------------------------------------------------

/// What one framed item becomes: decoded if its payload parses as a sensor
/// record, discarded otherwise.
pub open spec fn spec_item_outcome(it: BatchItemV) -> ItemOutcomeV {
    match spec_parse_sensor(it.data, 0) {
        Ok((r, _n)) => ItemOutcomeV::Decoded { seq: it.seq, rec: r },
        Err(_e) => ItemOutcomeV::Discarded { seq: it.seq },
    }
}

/// Decode a batch's inner stream from `i` to its end. Exhausting the stream
/// exactly at a frame boundary is the normal end; any frame that fails to
/// decode ends the batch as corrupted, keeping the outcomes so far.
pub open spec fn spec_decode_items(s: Seq<u8>, i: int) -> BatchReportV
    decreases s.len() - i,
    when 0 <= i <= s.len()
{
    if i == s.len() {
        BatchReportV { outcomes: Seq::empty(), end: BatchEnd::Complete }
    } else {
        match spec_parse_batch_item(s, i) {
            Ok((it, n)) => if i < n <= s.len() {
                let rest = spec_decode_items(s, n);
                BatchReportV {
                    outcomes: seq![spec_item_outcome(it)] + rest.outcomes,
                    end: rest.end,
                }
            } else {
                BatchReportV { outcomes: Seq::empty(), end: BatchEnd::Corrupted }
            },
            Err(_e) => BatchReportV { outcomes: Seq::empty(), end: BatchEnd::Corrupted },
        }
    }
}

/// Decode a batch's inner stream item by item.
pub fn decode_batch_items(blob: &[u8]) -> (r: BatchReport)
    ensures
        r@ == spec_decode_items(blob@, 0),
{
    let ghost full = spec_decode_items(blob@, 0);
    let mut outcomes: Vec<ItemOutcome> = Vec::new();
    let mut pos: usize = 0;
    proof {
        assert(outcomes_view(outcomes@) + full.outcomes =~= full.outcomes);
    }
    loop
        invariant
            full == spec_decode_items(blob@, 0),
            pos <= blob@.len(),
            full.outcomes == outcomes_view(outcomes@) + spec_decode_items(blob@, pos as int).outcomes,
            full.end == spec_decode_items(blob@, pos as int).end,
        decreases blob@.len() - pos,
    {
        if pos == blob.len() {
            proof {
                assert(spec_decode_items(blob@, pos as int).outcomes =~= Seq::<ItemOutcomeV>::empty());
                assert(spec_decode_items(blob@, pos as int).end == BatchEnd::Complete);
            }
            let r = BatchReport { outcomes, end: BatchEnd::Complete };
            assert(r@.outcomes =~= full.outcomes);
            assert(r@.end == full.end);
            assert(r@ == full);
            return r;
        }
        match parse_batch_item(blob, pos) {
            Err(_e) => {
                proof {
                    assert(spec_decode_items(blob@, pos as int).end == BatchEnd::Corrupted);
                }
                let r = BatchReport { outcomes, end: BatchEnd::Corrupted };
                assert(r@.outcomes =~= full.outcomes);
                assert(r@.end == full.end);
                assert(r@ == full);
                return r;
            },
            Ok((it, n)) => {
                let ghost prev = outcomes@;
                let outcome = match parse_sensor(it.data.as_slice(), 0) {
                    Ok((rec, _m)) => ItemOutcome::Decoded { seq: it.seq, rec },
                    Err(_e) => ItemOutcome::Discarded { seq: it.seq },
                };
                proof {
                    assert(outcome@ == spec_item_outcome(it@));
                }
                outcomes.push(outcome);
                proof {
                    assert(outcomes_view(outcomes@) =~= outcomes_view(prev) + seq![outcome@]);
                    assert(outcomes_view(prev) + (seq![spec_item_outcome(it@)]
                        + spec_decode_items(blob@, n as int).outcomes) =~= outcomes_view(outcomes@)
                        + spec_decode_items(blob@, n as int).outcomes);
                }
                pos = n;
            },
        }
    }
}

// ---------------------------------------------------------------------------
// Envelope dispatch.
// ---------------------------------------------------------------------------

/// The fixed session acknowledgment: `part` and `proto` only.
pub open spec fn spec_session_ack() -> EnvelopeV {
    EnvelopeV {
        part: val_session(),
        proto: val_raw(),
        id: None,
        version: None,
        dev: None,
        stream: None,
    }
}

/// The batch acknowledgment: `part`, `proto` and the echoed id.
pub open spec fn spec_batch_ack(id: u32) -> EnvelopeV {
    EnvelopeV {
        part: val_batch(),
        proto: val_raw(),
        id: Some(id),
        version: None,
        dev: None,
        stream: None,
    }
}

/// Dispatch one envelope: what is acknowledged, persisted and decoded.
pub open spec fn spec_process_envelope(e: EnvelopeV) -> SessionActionV {
    if e.part == val_session() {
        SessionActionV::SessionAck { ack: spec_enc_envelope(spec_session_ack()) }
    } else if e.part == val_batch() {
        match e.id {
            None => SessionActionV::BatchMissingId,
            Some(id) => SessionActionV::BatchHandled {
                id,
                ack: spec_enc_envelope(spec_batch_ack(id)),
                work: match e.stream {
                    None => None,
                    Some(blob) => Some(
                        BatchWorkV {
                            persist: (PersistPlanV {
                                key: spec_hex8(id),
                                payload: spec_enc_envelope(e),
                            }),
                            report: spec_decode_items(blob, 0),
                        },
                    ),
                },
            },
        }
    } else {
        SessionActionV::UnknownPart
    }
}

fn make_session_ack() -> (r: Vec<u8>)
    ensures
        r@ == spec_enc_envelope(spec_session_ack()),
{
    let part = val_session_bytes();
    let proto = val_raw_bytes();
    let pv: Vec<u8> = slice_to_vec(part.as_slice());
    let qv: Vec<u8> = slice_to_vec(proto.as_slice());
    let ack = Envelope { part: pv, proto: qv, id: None, version: None, dev: None, stream: None };
    assert(ack@ == spec_session_ack());
    encode_envelope(&ack)
}

fn make_batch_ack(id: u32) -> (r: Vec<u8>)
    ensures
        r@ == spec_enc_envelope(spec_batch_ack(id)),
{
    let part = val_batch_bytes();
    let proto = val_raw_bytes();
    let pv: Vec<u8> = slice_to_vec(part.as_slice());
    let qv: Vec<u8> = slice_to_vec(proto.as_slice());
    let ack = Envelope {
        part: pv,
        proto: qv,
        id: Some(id),
        version: None,
        dev: None,
        stream: None,
    };
    assert(ack@ == spec_batch_ack(id));
    encode_envelope(&ack)
}

/// Dispatch one decoded envelope.
pub fn process_envelope(e: &Envelope) -> (r: SessionAction)
    ensures
        r@ == spec_process_envelope(e@),
{
    let v_session = val_session_bytes();
    let v_batch = val_batch_bytes();
    if bytes_eq(e.part.as_slice(), v_session.as_slice()) {
        SessionAction::SessionAck { ack: make_session_ack() }
    } else if bytes_eq(e.part.as_slice(), v_batch.as_slice()) {
        match e.id {
            None => SessionAction::BatchMissingId,
            Some(id) => {
                let ack = make_batch_ack(id);
                let work = match &e.stream {
                    None => None,
                    Some(blob) => {
                        let key = hex8(id);
                        let payload = encode_envelope(e);
                        let report = decode_batch_items(blob.as_slice());
                        Some(
                            BatchWork {
                                persist: (PersistPlan { key, payload }),
                                report,
                            },
                        )
                    },
                };
                SessionAction::BatchHandled { id, ack, work }
            },
        }
    } else {
        SessionAction::UnknownPart
    }
}

// ---------------------------------------------------------------------------
// Per-connection stream step.
// ---------------------------------------------------------------------------

/// What the connection driver should do with its buffered bytes.
pub enum StreamStep {
    /// The buffer holds a prefix of an envelope: read more bytes.
    NeedMore,
    /// The buffer cannot begin a valid envelope: the stream is
    /// desynchronized and the connection is dropped.
    Fatal,
    /// One envelope was consumed; perform the action, drop `consumed` bytes
    /// from the front of the buffer, and go on with the next record.
    Handled { consumed: usize, action: SessionAction },
}

pub enum StreamStepV {
    NeedMore,
    Fatal,
    Handled { consumed: int, action: SessionActionV },
}

impl View for StreamStep {
    type V = StreamStepV;

    open spec fn view(&self) -> StreamStepV {
        match self {
            StreamStep::NeedMore => StreamStepV::NeedMore,
            StreamStep::Fatal => StreamStepV::Fatal,
            StreamStep::Handled { consumed, action } => StreamStepV::Handled {
                consumed: *consumed as int,
                action: action@,
            },
        }
    }
}

/// One step of the session loop on the buffered inbound bytes.
pub open spec fn spec_session_step(s: Seq<u8>) -> StreamStepV {
    match spec_parse_envelope(s, 0) {
        Ok((e, n)) => StreamStepV::Handled { consumed: n, action: spec_process_envelope(e) },
        Err(DecodeErr::Truncated) => StreamStepV::NeedMore,
        Err(DecodeErr::Malformed) => StreamStepV::Fatal,
    }
}

/// Take one step of the session loop: decode at most one envelope from the
/// front of the buffer and dispatch it. Envelopes are handled strictly in
/// arrival order, one at a time.
pub fn session_step(buf: &[u8]) -> (r: StreamStep)
    ensures
        r@ == spec_session_step(buf@),
        r matches StreamStep::Handled { consumed, .. } ==> 0 < consumed <= buf@.len(),
{
    match parse_envelope(buf, 0) {
        Ok((e, n)) => StreamStep::Handled { consumed: n, action: process_envelope(&e) },
        Err(DecodeErr::Truncated) => StreamStep::NeedMore,
        Err(DecodeErr::Malformed) => StreamStep::Fatal,
    }
}


// ---------------------------------------------------------------------------
// The ordered outward effects of an action.
// ---------------------------------------------------------------------------

/// One outward effect of handling a record, in the order the connection
/// driver must perform them.
pub enum Effect {
    /// Write these bytes back on the connection and flush.
    WriteBack { bytes: Vec<u8> },
    /// Write the archive entry to durable storage; a failure is logged and
    /// is not fatal to the connection.
    Archive { plan: PersistPlan },
}

pub enum EffectV {
    WriteBack { bytes: Seq<u8> },
    Archive { plan: PersistPlanV },
}

impl View for Effect {
    type V = EffectV;

    open spec fn view(&self) -> EffectV {
        match self {
            Effect::WriteBack { bytes } => EffectV::WriteBack { bytes: bytes@ },
            Effect::Archive { plan } => EffectV::Archive { plan: plan@ },
        }
    }
}

/// The effects of one action, in order: the acknowledgment, where one is
/// owed, always precedes the archive write, so the firmware's send pipeline
/// is never stalled by the storage path.
pub open spec fn spec_action_effects(a: SessionActionV) -> Seq<EffectV> {
    match a {
        SessionActionV::SessionAck { ack } => seq![EffectV::WriteBack { bytes: ack }],
        SessionActionV::BatchMissingId => Seq::empty(),
        SessionActionV::BatchHandled { id: _, ack, work } => seq![
            EffectV::WriteBack { bytes: ack },
        ] + (match work {
            Some(w) => seq![EffectV::Archive { plan: w.persist }],
            None => Seq::empty(),
        }),
        SessionActionV::UnknownPart => Seq::empty(),
    }
}

/// Linearize an action's outward effects for the connection driver.
pub fn action_effects(a: SessionAction) -> (r: (Vec<Effect>, Option<BatchReport>))
    ensures
        outcomes_effects_view(r.0@) == spec_action_effects(a@),
        a@ matches SessionActionV::BatchHandled { work: Some(w), .. } ==> (r.1 matches Some(rep)
            && rep@ == w.report),
        !(a@ matches SessionActionV::BatchHandled { work: Some(_), .. }) ==> r.1 is None,
{
    let mut effects: Vec<Effect> = Vec::new();
    match a {
        SessionAction::SessionAck { ack } => {
            effects.push(Effect::WriteBack { bytes: ack });
            assert(outcomes_effects_view(effects@) =~= spec_action_effects(a@));
            (effects, None)
        },
        SessionAction::BatchMissingId => {
            assert(outcomes_effects_view(effects@) =~= spec_action_effects(a@));
            (effects, None)
        },
        SessionAction::BatchHandled { id: _, ack, work } => {
            effects.push(Effect::WriteBack { bytes: ack });
            match work {
                Some(w) => {
                    effects.push(Effect::Archive { plan: w.persist });
                    assert(outcomes_effects_view(effects@) =~= spec_action_effects(a@));
                    (effects, Some(w.report))
                },
                None => {
                    assert(outcomes_effects_view(effects@) =~= spec_action_effects(a@));
                    (effects, None)
                },
            }
        },
        SessionAction::UnknownPart => {
            assert(outcomes_effects_view(effects@) =~= spec_action_effects(a@));
            (effects, None)
        },
    }
}

pub open spec fn outcomes_effects_view(v: Seq<Effect>) -> Seq<EffectV> {
    v.map_values(|e: Effect| e@)
}

// ---------------------------------------------------------------------------
// Laws of the dispatch.
// ---------------------------------------------------------------------------

/// For every envelope of kind `session`, exactly one acknowledgment is
/// emitted and it has the one fixed shape — `part` `"session"`, `proto`
/// `"raw"`, all other fields absent — regardless of the record's announced
/// `version` and `dev`.
pub proof fn lemma_session_ack_fixed(e: EnvelopeV)
    requires
        e.part == val_session(),
    ensures
        spec_process_envelope(e) == (SessionActionV::SessionAck {
            ack: spec_enc_envelope(spec_session_ack()),
        }),
        spec_parse_envelope(spec_enc_envelope(spec_session_ack()), 0) matches Ok(t) && t.0
            == spec_session_ack(),
{
    lemma_envelope_encode_decode(spec_session_ack());
}

/// For every batch record with a present id, exactly one acknowledgment is
/// emitted, and it echoes that id: it decodes to `part` `"batch"`, `proto`
/// `"raw"`, `id` equal to the record's. The caller writes it before any
/// persistence or item-decode work.
pub proof fn lemma_batch_ack_echoes_id(e: EnvelopeV, id: u32)
    requires
        e.part == val_batch(),
        e.id == Some(id),
    ensures
        spec_process_envelope(e) matches SessionActionV::BatchHandled { id: aid, ack, .. }
            && aid == id && ack == spec_enc_envelope(spec_batch_ack(id)),
        spec_parse_envelope(spec_enc_envelope(spec_batch_ack(id)), 0) matches Ok(t) && t.0
            == spec_batch_ack(id),
{
    assert(val_batch().len() != val_session().len());
    lemma_envelope_encode_decode(spec_batch_ack(id));
}

/// The acknowledgment of a batch is emitted before any persistence work
/// begins: among the ordered effects of its action, the acknowledgment
/// write stands first, and the archive write, where one is owed, follows
/// it. There is exactly one acknowledgment.
pub proof fn lemma_ack_before_persistence(e: EnvelopeV, id: u32)
    requires
        e.part == val_batch(),
        e.id == Some(id),
    ensures
        ({
            let effs = spec_action_effects(spec_process_envelope(e));
            &&& effs.len() >= 1
            &&& effs[0] == (EffectV::WriteBack { bytes: spec_enc_envelope(spec_batch_ack(id)) })
            &&& forall|j: int| 1 <= j < effs.len() ==> effs[j] is Archive
            &&& e.stream is Some ==> effs.len() == 2
            &&& e.stream is None ==> effs.len() == 1
        }),
{
    assert(val_batch().len() != val_session().len());
}

/// A batch record missing its id is dropped without an acknowledgment, and
/// the connection remains open: the step is handled, not fatal, and the
/// loop goes on to the next record.
pub proof fn lemma_missing_id_keeps_connection(s: Seq<u8>, e: EnvelopeV, n: int)
    requires
        e.part == val_batch(),
        e.id is None,
        spec_parse_envelope(s, 0) == Ok::<(EnvelopeV, int), DecodeErr>((e, n)),
    ensures
        spec_process_envelope(e) == SessionActionV::BatchMissingId,
        spec_session_step(s) == (StreamStepV::Handled {
            consumed: n,
            action: SessionActionV::BatchMissingId,
        }),
{
    assert(val_batch().len() != val_session().len());
}

/// Persistence is planned for every batch with an id and a present stream,
/// under the id's fixed-width hex key and with the batch's raw envelope
/// bytes, independent of whether any inner item decodes.
pub proof fn lemma_persist_unconditional(e: EnvelopeV, id: u32, blob: Seq<u8>)
    requires
        e.part == val_batch(),
        e.id == Some(id),
        e.stream == Some(blob),
    ensures
        spec_process_envelope(e) matches SessionActionV::BatchHandled { work: Some(w), .. }
            && w.persist.key == spec_hex8(id) && w.persist.payload == spec_enc_envelope(e)
            && w.report == spec_decode_items(blob, 0),
{
    assert(val_batch().len() != val_session().len());
}

/// Batch item decoding is a function of the inner blob alone: decoding the
/// same blob twice yields the same outcomes, in the same order, and the
/// same end state.
pub proof fn lemma_item_decode_deterministic(b: Seq<u8>, r1: BatchReportV, r2: BatchReportV)
    requires
        r1 == spec_decode_items(b, 0),
        r2 == spec_decode_items(b, 0),
    ensures
        r1 == r2,
        r1.outcomes == r2.outcomes,
        r1.end == r2.end,
{
}

/// The concatenated canonical encodings of a list of batch items.
pub open spec fn spec_enc_items(items: Seq<BatchItemV>) -> Seq<u8>
    decreases items.len(),
{
    if items.len() == 0 {
        Seq::empty()
    } else {
        spec_enc_batch_item(items[0]) + spec_enc_items(items.drop_first())
    }
}

pub open spec fn wf_items(items: Seq<BatchItemV>) -> bool {
    forall|j: int| 0 <= j < items.len() ==> wf_batch_item(#[trigger] items[j])
}

/// Decoding a blob that is exactly a sequence of well-framed items yields
/// one outcome per item, in stream order, and ends at the end of the
/// stream normally: one item whose payload matches no known shape is
/// discarded on its own, and every other item still decodes.
pub proof fn lemma_well_framed_batch(s: Seq<u8>, i: int, items: Seq<BatchItemV>)
    requires
        wf_items(items),
        0 <= i <= s.len(),
        at(s, i, spec_enc_items(items)),
        i + spec_enc_items(items).len() == s.len(),
    ensures
        spec_decode_items(s, i).end == BatchEnd::Complete,
        spec_decode_items(s, i).outcomes == items.map_values(
            |it: BatchItemV| spec_item_outcome(it),
        ),
    decreases items.len(),
{
    let f = |it: BatchItemV| spec_item_outcome(it);
    if items.len() == 0 {
        assert(i == s.len());
        assert(items.map_values(f) =~= Seq::<ItemOutcomeV>::empty());
    } else {
        let first = items[0];
        let rest = items.drop_first();
        lemma_at_concat(s, i, spec_enc_batch_item(first), spec_enc_items(rest));
        lemma_batch_item_round_trip(s, i, first);
        crate::schema::lemma_batch_item_enc_len(first);
        let n = i + spec_enc_batch_item(first).len();
        assert(wf_items(rest)) by {
            assert(forall|j: int| 0 <= j < rest.len() ==> rest[j] == items[j + 1]);
        }
        lemma_well_framed_batch(s, n, rest);
        assert(items.map_values(f) =~= seq![f(first)] + rest.map_values(f)) by {
            assert(forall|j: int| 0 <= j < rest.len() ==> rest.map_values(f)[j] == f(
                #[trigger] rest[j],
            ));
            assert(forall|j: int| 1 <= j < items.len() ==> items.map_values(f)[j] == f(
                #[trigger] items[j],
            ));
            assert(forall|j: int| 0 <= j < rest.len() ==> rest[j] == items[j + 1]);
        }
    }
}

} // verus!
