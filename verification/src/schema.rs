//! Sensor-record schema and the wire shapes of the telemetry records: the
//! envelope read from the stream, the framed batch item inside a batch's
//! inner stream, and the tagged sensor-record variants carried by items.
//!
//! Text carried on the wire is kept as its raw bytes: the gateway relays
//! device-announced strings without interpreting them.

use vstd::prelude::*;

use crate::codec::{
    DecodeErr, at, bytes_eq, lemma_at_concat, lemma_at_self, spec_enc_head, lemma_bytes_round_trip, lemma_field_bytes_round_trip,
    lemma_field_u8_round_trip, lemma_field_u16_round_trip, lemma_field_uint_round_trip,
    lemma_field_text_round_trip, lemma_map_head_round_trip, lemma_text_round_trip,
    lemma_uint_round_trip, enc_field_bytes_into, enc_field_text_into,
    enc_field_uint_into, enc_map_head_into, enc_text_into, parse_bytes,
    parse_field_bytes, parse_field_text, parse_field_u8, parse_field_u16, parse_field_uint,
    parse_map_head, parse_text, parse_uint, parses_to, spec_enc_bytes,
    spec_enc_field_bytes, spec_enc_field_text, spec_enc_field_uint, spec_enc_map_head,
    spec_enc_text, spec_enc_uint, spec_parse_bytes, spec_parse_field_bytes, spec_parse_field_text,
    spec_parse_field_u8, spec_parse_field_u16, spec_parse_field_uint, spec_parse_map_head,
    spec_parse_text, spec_parse_uint,
};

verus! {

/// The bytes of `"part"`.
pub open spec fn key_part() -> Seq<u8> {
    seq![112u8, 97u8, 114u8, 116u8]
}

pub fn key_part_bytes() -> (r: [u8; 4])
    ensures
        r@ == key_part(),
{
    let a: [u8; 4] = [112u8, 97u8, 114u8, 116u8];
    proof {
        assert(a@ =~= key_part());
    }
    a
}

/// The bytes of `"proto"`.
pub open spec fn key_proto() -> Seq<u8> {
    seq![112u8, 114u8, 111u8, 116u8, 111u8]
}

pub fn key_proto_bytes() -> (r: [u8; 5])
    ensures
        r@ == key_proto(),
{
    let a: [u8; 5] = [112u8, 114u8, 111u8, 116u8, 111u8];
    proof {
        assert(a@ =~= key_proto());
    }
    a
}

/// The bytes of `"id"`.
pub open spec fn key_id() -> Seq<u8> {
    seq![105u8, 100u8]
}

pub fn key_id_bytes() -> (r: [u8; 2])
    ensures
        r@ == key_id(),
{
    let a: [u8; 2] = [105u8, 100u8];
    proof {
        assert(a@ =~= key_id());
    }
    a
}

/// The bytes of `"version"`.
pub open spec fn key_version() -> Seq<u8> {
    seq![118u8, 101u8, 114u8, 115u8, 105u8, 111u8, 110u8]
}

pub fn key_version_bytes() -> (r: [u8; 7])
    ensures
        r@ == key_version(),
{
    let a: [u8; 7] = [118u8, 101u8, 114u8, 115u8, 105u8, 111u8, 110u8];
    proof {
        assert(a@ =~= key_version());
    }
    a
}

/// The bytes of `"dev"`.
pub open spec fn key_dev() -> Seq<u8> {
    seq![100u8, 101u8, 118u8]
}

pub fn key_dev_bytes() -> (r: [u8; 3])
    ensures
        r@ == key_dev(),
{
    let a: [u8; 3] = [100u8, 101u8, 118u8];
    proof {
        assert(a@ =~= key_dev());
    }
    a
}

/// The bytes of `"stream"`.
pub open spec fn key_stream() -> Seq<u8> {
    seq![115u8, 116u8, 114u8, 101u8, 97u8, 109u8]
}

pub fn key_stream_bytes() -> (r: [u8; 6])
    ensures
        r@ == key_stream(),
{
    let a: [u8; 6] = [115u8, 116u8, 114u8, 101u8, 97u8, 109u8];
    proof {
        assert(a@ =~= key_stream());
    }
    a
}

/// The bytes of `"seq"`.
pub open spec fn key_seq() -> Seq<u8> {
    seq![115u8, 101u8, 113u8]
}

pub fn key_seq_bytes() -> (r: [u8; 3])
    ensures
        r@ == key_seq(),
{
    let a: [u8; 3] = [115u8, 101u8, 113u8];
    proof {
        assert(a@ =~= key_seq());
    }
    a
}

/// The bytes of `"data"`.
pub open spec fn key_data() -> Seq<u8> {
    seq![100u8, 97u8, 116u8, 97u8]
}

pub fn key_data_bytes() -> (r: [u8; 4])
    ensures
        r@ == key_data(),
{
    let a: [u8; 4] = [100u8, 97u8, 116u8, 97u8];
    proof {
        assert(a@ =~= key_data());
    }
    a
}

/// The bytes of `"type"`.
pub open spec fn key_type() -> Seq<u8> {
    seq![116u8, 121u8, 112u8, 101u8]
}

pub fn key_type_bytes() -> (r: [u8; 4])
    ensures
        r@ == key_type(),
{
    let a: [u8; 4] = [116u8, 121u8, 112u8, 101u8];
    proof {
        assert(a@ =~= key_type());
    }
    a
}

/// The bytes of `"ts"`.
pub open spec fn key_ts() -> Seq<u8> {
    seq![116u8, 115u8]
}

pub fn key_ts_bytes() -> (r: [u8; 2])
    ensures
        r@ == key_ts(),
{
    let a: [u8; 2] = [116u8, 115u8];
    proof {
        assert(a@ =~= key_ts());
    }
    a
}

/// The bytes of `"left"`.
pub open spec fn key_left() -> Seq<u8> {
    seq![108u8, 101u8, 102u8, 116u8]
}

pub fn key_left_bytes() -> (r: [u8; 4])
    ensures
        r@ == key_left(),
{
    let a: [u8; 4] = [108u8, 101u8, 102u8, 116u8];
    proof {
        assert(a@ =~= key_left());
    }
    a
}

/// The bytes of `"right"`.
pub open spec fn key_right() -> Seq<u8> {
    seq![114u8, 105u8, 103u8, 104u8, 116u8]
}

pub fn key_right_bytes() -> (r: [u8; 5])
    ensures
        r@ == key_right(),
{
    let a: [u8; 5] = [114u8, 105u8, 103u8, 104u8, 116u8];
    proof {
        assert(a@ =~= key_right());
    }
    a
}

/// The bytes of `"status"`.
pub open spec fn key_status() -> Seq<u8> {
    seq![115u8, 116u8, 97u8, 116u8, 117u8, 115u8]
}

pub fn key_status_bytes() -> (r: [u8; 6])
    ensures
        r@ == key_status(),
{
    let a: [u8; 6] = [115u8, 116u8, 97u8, 116u8, 117u8, 115u8];
    proof {
        assert(a@ =~= key_status());
    }
    a
}

/// The bytes of `"cen"`.
pub open spec fn key_cen() -> Seq<u8> {
    seq![99u8, 101u8, 110u8]
}

pub fn key_cen_bytes() -> (r: [u8; 3])
    ensures
        r@ == key_cen(),
{
    let a: [u8; 3] = [99u8, 101u8, 110u8];
    proof {
        assert(a@ =~= key_cen());
    }
    a
}

/// The bytes of `"in"`.
pub open spec fn key_in() -> Seq<u8> {
    seq![105u8, 110u8]
}

pub fn key_in_bytes() -> (r: [u8; 2])
    ensures
        r@ == key_in(),
{
    let a: [u8; 2] = [105u8, 110u8];
    proof {
        assert(a@ =~= key_in());
    }
    a
}

/// The bytes of `"out"`.
pub open spec fn key_out() -> Seq<u8> {
    seq![111u8, 117u8, 116u8]
}

pub fn key_out_bytes() -> (r: [u8; 3])
    ensures
        r@ == key_out(),
{
    let a: [u8; 3] = [111u8, 117u8, 116u8];
    proof {
        assert(a@ =~= key_out());
    }
    a
}

/// The bytes of `"adc"`.
pub open spec fn key_adc() -> Seq<u8> {
    seq![97u8, 100u8, 99u8]
}

pub fn key_adc_bytes() -> (r: [u8; 3])
    ensures
        r@ == key_adc(),
{
    let a: [u8; 3] = [97u8, 100u8, 99u8];
    proof {
        assert(a@ =~= key_adc());
    }
    a
}

/// The bytes of `"freq"`.
pub open spec fn key_freq() -> Seq<u8> {
    seq![102u8, 114u8, 101u8, 113u8]
}

pub fn key_freq_bytes() -> (r: [u8; 4])
    ensures
        r@ == key_freq(),
{
    let a: [u8; 4] = [102u8, 114u8, 101u8, 113u8];
    proof {
        assert(a@ =~= key_freq());
    }
    a
}

/// The bytes of `"gain"`.
pub open spec fn key_gain() -> Seq<u8> {
    seq![103u8, 97u8, 105u8, 110u8]
}

pub fn key_gain_bytes() -> (r: [u8; 4])
    ensures
        r@ == key_gain(),
{
    let a: [u8; 4] = [103u8, 97u8, 105u8, 110u8];
    proof {
        assert(a@ =~= key_gain());
    }
    a
}

/// The bytes of `"left1"`.
pub open spec fn key_left1() -> Seq<u8> {
    seq![108u8, 101u8, 102u8, 116u8, 49u8]
}

pub fn key_left1_bytes() -> (r: [u8; 5])
    ensures
        r@ == key_left1(),
{
    let a: [u8; 5] = [108u8, 101u8, 102u8, 116u8, 49u8];
    proof {
        assert(a@ =~= key_left1());
    }
    a
}

/// The bytes of `"left2"`.
pub open spec fn key_left2() -> Seq<u8> {
    seq![108u8, 101u8, 102u8, 116u8, 50u8]
}

pub fn key_left2_bytes() -> (r: [u8; 5])
    ensures
        r@ == key_left2(),
{
    let a: [u8; 5] = [108u8, 101u8, 102u8, 116u8, 50u8];
    proof {
        assert(a@ =~= key_left2());
    }
    a
}

/// The bytes of `"right1"`.
pub open spec fn key_right1() -> Seq<u8> {
    seq![114u8, 105u8, 103u8, 104u8, 116u8, 49u8]
}

pub fn key_right1_bytes() -> (r: [u8; 6])
    ensures
        r@ == key_right1(),
{
    let a: [u8; 6] = [114u8, 105u8, 103u8, 104u8, 116u8, 49u8];
    proof {
        assert(a@ =~= key_right1());
    }
    a
}

/// The bytes of `"right2"`.
pub open spec fn key_right2() -> Seq<u8> {
    seq![114u8, 105u8, 103u8, 104u8, 116u8, 50u8]
}

pub fn key_right2_bytes() -> (r: [u8; 6])
    ensures
        r@ == key_right2(),
{
    let a: [u8; 6] = [114u8, 105u8, 103u8, 104u8, 116u8, 50u8];
    proof {
        assert(a@ =~= key_right2());
    }
    a
}

/// The bytes of `"mcu"`.
pub open spec fn key_mcu() -> Seq<u8> {
    seq![109u8, 99u8, 117u8]
}

pub fn key_mcu_bytes() -> (r: [u8; 3])
    ensures
        r@ == key_mcu(),
{
    let a: [u8; 3] = [109u8, 99u8, 117u8];
    proof {
        assert(a@ =~= key_mcu());
    }
    a
}

/// The bytes of `"amb"`.
pub open spec fn key_amb() -> Seq<u8> {
    seq![97u8, 109u8, 98u8]
}

pub fn key_amb_bytes() -> (r: [u8; 3])
    ensures
        r@ == key_amb(),
{
    let a: [u8; 3] = [97u8, 109u8, 98u8];
    proof {
        assert(a@ =~= key_amb());
    }
    a
}

/// The bytes of `"hu"`.
pub open spec fn key_hu() -> Seq<u8> {
    seq![104u8, 117u8]
}

pub fn key_hu_bytes() -> (r: [u8; 2])
    ensures
        r@ == key_hu(),
{
    let a: [u8; 2] = [104u8, 117u8];
    proof {
        assert(a@ =~= key_hu());
    }
    a
}

/// The bytes of `"msg"`.
pub open spec fn key_msg() -> Seq<u8> {
    seq![109u8, 115u8, 103u8]
}

pub fn key_msg_bytes() -> (r: [u8; 3])
    ensures
        r@ == key_msg(),
{
    let a: [u8; 3] = [109u8, 115u8, 103u8];
    proof {
        assert(a@ =~= key_msg());
    }
    a
}

/// The bytes of `"level"`.
pub open spec fn key_level() -> Seq<u8> {
    seq![108u8, 101u8, 118u8, 101u8, 108u8]
}

pub fn key_level_bytes() -> (r: [u8; 5])
    ensures
        r@ == key_level(),
{
    let a: [u8; 5] = [108u8, 101u8, 118u8, 101u8, 108u8];
    proof {
        assert(a@ =~= key_level());
    }
    a
}

/// The bytes of `"hs"`.
pub open spec fn key_hs() -> Seq<u8> {
    seq![104u8, 115u8]
}

pub fn key_hs_bytes() -> (r: [u8; 2])
    ensures
        r@ == key_hs(),
{
    let a: [u8; 2] = [104u8, 115u8];
    proof {
        assert(a@ =~= key_hs());
    }
    a
}

/// The bytes of `"capSense"`.
pub open spec fn val_cap_sense() -> Seq<u8> {
    seq![99u8, 97u8, 112u8, 83u8, 101u8, 110u8, 115u8, 101u8]
}

pub fn val_cap_sense_bytes() -> (r: [u8; 8])
    ensures
        r@ == val_cap_sense(),
{
    let a: [u8; 8] = [99u8, 97u8, 112u8, 83u8, 101u8, 110u8, 115u8, 101u8];
    proof {
        assert(a@ =~= val_cap_sense());
    }
    a
}

/// The bytes of `"piezo-dual"`.
pub open spec fn val_piezo_dual() -> Seq<u8> {
    seq![112u8, 105u8, 101u8, 122u8, 111u8, 45u8, 100u8, 117u8, 97u8, 108u8]
}

pub fn val_piezo_dual_bytes() -> (r: [u8; 10])
    ensures
        r@ == val_piezo_dual(),
{
    let a: [u8; 10] = [112u8, 105u8, 101u8, 122u8, 111u8, 45u8, 100u8, 117u8, 97u8, 108u8];
    proof {
        assert(a@ =~= val_piezo_dual());
    }
    a
}

/// The bytes of `"bedTemp"`.
pub open spec fn val_bed_temp() -> Seq<u8> {
    seq![98u8, 101u8, 100u8, 84u8, 101u8, 109u8, 112u8]
}

pub fn val_bed_temp_bytes() -> (r: [u8; 7])
    ensures
        r@ == val_bed_temp(),
{
    let a: [u8; 7] = [98u8, 101u8, 100u8, 84u8, 101u8, 109u8, 112u8];
    proof {
        assert(a@ =~= val_bed_temp());
    }
    a
}

/// The bytes of `"log"`.
pub open spec fn val_log() -> Seq<u8> {
    seq![108u8, 111u8, 103u8]
}

pub fn val_log_bytes() -> (r: [u8; 3])
    ensures
        r@ == val_log(),
{
    let a: [u8; 3] = [108u8, 111u8, 103u8];
    proof {
        assert(a@ =~= val_log());
    }
    a
}

/// The bytes of `"frzTemp"`.
pub open spec fn val_frz_temp() -> Seq<u8> {
    seq![102u8, 114u8, 122u8, 84u8, 101u8, 109u8, 112u8]
}

pub fn val_frz_temp_bytes() -> (r: [u8; 7])
    ensures
        r@ == val_frz_temp(),
{
    let a: [u8; 7] = [102u8, 114u8, 122u8, 84u8, 101u8, 109u8, 112u8];
    proof {
        assert(a@ =~= val_frz_temp());
    }
    a
}

/// The bytes of `"session"`.
pub open spec fn val_session() -> Seq<u8> {
    seq![115u8, 101u8, 115u8, 115u8, 105u8, 111u8, 110u8]
}

pub fn val_session_bytes() -> (r: [u8; 7])
    ensures
        r@ == val_session(),
{
    let a: [u8; 7] = [115u8, 101u8, 115u8, 115u8, 105u8, 111u8, 110u8];
    proof {
        assert(a@ =~= val_session());
    }
    a
}

/// The bytes of `"batch"`.
pub open spec fn val_batch() -> Seq<u8> {
    seq![98u8, 97u8, 116u8, 99u8, 104u8]
}

pub fn val_batch_bytes() -> (r: [u8; 5])
    ensures
        r@ == val_batch(),
{
    let a: [u8; 5] = [98u8, 97u8, 116u8, 99u8, 104u8];
    proof {
        assert(a@ =~= val_batch());
    }
    a
}

/// The bytes of `"raw"`.
pub open spec fn val_raw() -> Seq<u8> {
    seq![114u8, 97u8, 119u8]
}

pub fn val_raw_bytes() -> (r: [u8; 3])
    ensures
        r@ == val_raw(),
{
    let a: [u8; 3] = [114u8, 97u8, 119u8];
    proof {
        assert(a@ =~= val_raw());
    }
    a
}


// ---------------------------------------------------------------------------
// Record types and their mathematical views.
// ---------------------------------------------------------------------------

/// Top-level unit read from the telemetry stream: a session handshake, a
/// batch announcement, or an unrecognized kind kept for dispatch.
pub struct Envelope {
    pub part: Vec<u8>,
    pub proto: Vec<u8>,
    pub id: Option<u32>,
    pub version: Option<Vec<u8>>,
    pub dev: Option<Vec<u8>>,
    pub stream: Option<Vec<u8>>,
}

pub struct EnvelopeV {
    pub part: Seq<u8>,
    pub proto: Seq<u8>,
    pub id: Option<u32>,
    pub version: Option<Seq<u8>>,
    pub dev: Option<Seq<u8>>,
    pub stream: Option<Seq<u8>>,
}

pub open spec fn opt_view(o: Option<Vec<u8>>) -> Option<Seq<u8>> {
    match o {
        Some(v) => Some(v@),
        None => None,
    }
}

impl View for Envelope {
    type V = EnvelopeV;

    open spec fn view(&self) -> EnvelopeV {
        EnvelopeV {
            part: self.part@,
            proto: self.proto@,
            id: self.id,
            version: opt_view(self.version),
            dev: opt_view(self.dev),
            stream: opt_view(self.stream),
        }
    }
}

/// One framed unit inside a batch's inner stream: a sequence number and the
/// opaque bytes of one encoded sensor record.
pub struct BatchItem {
    pub seq: u32,
    pub data: Vec<u8>,
}

pub struct BatchItemV {
    pub seq: u32,
    pub data: Seq<u8>,
}

impl View for BatchItem {
    type V = BatchItemV;

    open spec fn view(&self) -> BatchItemV {
        BatchItemV { seq: self.seq, data: self.data@ }
    }
}

/// One side's capacitive-sensing reading.
pub struct CapSenseSide {
    pub status: Vec<u8>,
    pub cen: u16,
    pub inner: u16,
    pub out: u16,
}

pub struct CapSenseSideV {
    pub status: Seq<u8>,
    pub cen: u16,
    pub inner: u16,
    pub out: u16,
}

impl View for CapSenseSide {
    type V = CapSenseSideV;

    open spec fn view(&self) -> CapSenseSideV {
        CapSenseSideV { status: self.status@, cen: self.cen, inner: self.inner, out: self.out }
    }
}

/// Capacitive-sensing record: a timestamp and per-side triplets.
pub struct CapSense {
    pub ts: u64,
    pub left: CapSenseSide,
    pub right: CapSenseSide,
}

pub struct CapSenseV {
    pub ts: u64,
    pub left: CapSenseSideV,
    pub right: CapSenseSideV,
}

impl View for CapSense {
    type V = CapSenseV;

    open spec fn view(&self) -> CapSenseV {
        CapSenseV { ts: self.ts, left: self.left@, right: self.right@ }
    }
}

/// Piezo waveform record: timestamp, ADC configuration, frequency, gain and
/// four raw waveform blobs.
pub struct PiezoDual {
    pub ts: u64,
    pub adc: u8,
    pub freq: u16,
    pub gain: u16,
    pub left1: Vec<u8>,
    pub left2: Vec<u8>,
    pub right1: Vec<u8>,
    pub right2: Vec<u8>,
}

pub struct PiezoDualV {
    pub ts: u64,
    pub adc: u8,
    pub freq: u16,
    pub gain: u16,
    pub left1: Seq<u8>,
    pub left2: Seq<u8>,
    pub right1: Seq<u8>,
    pub right2: Seq<u8>,
}

impl View for PiezoDual {
    type V = PiezoDualV;

    open spec fn view(&self) -> PiezoDualV {
        PiezoDualV {
            ts: self.ts,
            adc: self.adc,
            freq: self.freq,
            gain: self.gain,
            left1: self.left1@,
            left2: self.left2@,
            right1: self.right1@,
            right2: self.right2@,
        }
    }
}

/// One side's bed-temperature triplet.
#[derive(Clone, Copy, PartialEq, Eq, Structural, Debug)]
pub struct BedTempSide {
    pub cen: u16,
    pub inner: u16,
    pub out: u16,
}

/// Bed-temperature record: timestamp, MCU, ambient and humidity scalars, and
/// per-side triplets.
#[derive(Clone, Copy, PartialEq, Eq, Structural, Debug)]
pub struct BedTemp {
    pub ts: u64,
    pub mcu: u16,
    pub amb: u16,
    pub hu: u16,
    pub left: BedTempSide,
    pub right: BedTempSide,
}

/// Log-message record: timestamp, message text and severity level.
pub struct LogRecord {
    pub ts: u64,
    pub msg: Vec<u8>,
    pub level: Vec<u8>,
}

pub struct LogRecordV {
    pub ts: u64,
    pub msg: Seq<u8>,
    pub level: Seq<u8>,
}

impl View for LogRecord {
    type V = LogRecordV;

    open spec fn view(&self) -> LogRecordV {
        LogRecordV { ts: self.ts, msg: self.msg@, level: self.level@ }
    }
}

/// Freezer-temperature record: timestamp plus ambient, heatsink and per-side
/// scalars.
#[derive(Clone, Copy, PartialEq, Eq, Structural, Debug)]
pub struct FrzTemp {
    pub ts: u64,
    pub amb: u16,
    pub hs: u16,
    pub left: u16,
    pub right: u16,
}

/// A decoded telemetry reading: the closed set of tagged variants the
/// firmware emits inside batches.
pub enum SensorRecord {
    CapSense(CapSense),
    PiezoDual(PiezoDual),
    BedTemp(BedTemp),
    LogMsg(LogRecord),
    FrzTemp(FrzTemp),
}

pub enum SensorRecordV {
    CapSense(CapSenseV),
    PiezoDual(PiezoDualV),
    BedTemp(BedTemp),
    LogMsg(LogRecordV),
    FrzTemp(FrzTemp),
}

impl View for SensorRecord {
    type V = SensorRecordV;

    open spec fn view(&self) -> SensorRecordV {
        match self {
            SensorRecord::CapSense(r) => SensorRecordV::CapSense(r@),
            SensorRecord::PiezoDual(r) => SensorRecordV::PiezoDual(r@),
            SensorRecord::BedTemp(r) => SensorRecordV::BedTemp(*r),
            SensorRecord::LogMsg(r) => SensorRecordV::LogMsg(r@),
            SensorRecord::FrzTemp(r) => SensorRecordV::FrzTemp(*r),
        }
    }
}

// ---------------------------------------------------------------------------
// Well-formedness: every variable-length payload fits a wire length field.
// ---------------------------------------------------------------------------

pub open spec fn opt_len_ok(o: Option<Seq<u8>>) -> bool {
    match o {
        Some(b) => b.len() <= u64::MAX,
        None => true,
    }
}

pub open spec fn wf_envelope(e: EnvelopeV) -> bool {
    e.part.len() <= u64::MAX && e.proto.len() <= u64::MAX && opt_len_ok(e.version)
        && opt_len_ok(e.dev) && opt_len_ok(e.stream)
}

pub open spec fn wf_batch_item(b: BatchItemV) -> bool {
    b.data.len() <= u64::MAX
}

pub open spec fn wf_sensor(r: SensorRecordV) -> bool {
    match r {
        SensorRecordV::CapSense(c) => c.left.status.len() <= u64::MAX && c.right.status.len()
            <= u64::MAX,
        SensorRecordV::PiezoDual(p) => p.left1.len() <= u64::MAX && p.left2.len() <= u64::MAX
            && p.right1.len() <= u64::MAX && p.right2.len() <= u64::MAX,
        SensorRecordV::BedTemp(_) => true,
        SensorRecordV::LogMsg(l) => l.msg.len() <= u64::MAX && l.level.len() <= u64::MAX,
        SensorRecordV::FrzTemp(_) => true,
    }
}


// ---------------------------------------------------------------------------
// Canonical encodings.
// ---------------------------------------------------------------------------

pub open spec fn opt_count<A>(o: Option<A>) -> u64 {
    if o is Some {
        1
    } else {
        0
    }
}

pub open spec fn spec_enc_opt_uint(name: Seq<u8>, o: Option<u32>) -> Seq<u8> {
    match o {
        Some(v) => spec_enc_field_uint(name, v as u64),
        None => Seq::empty(),
    }
}

pub open spec fn spec_enc_opt_text(name: Seq<u8>, o: Option<Seq<u8>>) -> Seq<u8> {
    match o {
        Some(b) => spec_enc_field_text(name, b),
        None => Seq::empty(),
    }
}

pub open spec fn spec_enc_opt_bytes(name: Seq<u8>, o: Option<Seq<u8>>) -> Seq<u8> {
    match o {
        Some(b) => spec_enc_field_bytes(name, b),
        None => Seq::empty(),
    }
}

/// How many optional envelope fields are present.
pub open spec fn spec_env_opts_count(e: EnvelopeV) -> u64 {
    (opt_count(e.id) + opt_count(e.version) + opt_count(e.dev) + opt_count(e.stream)) as u64
}

/// How many map entries an envelope encodes to: the two mandatory fields
/// plus one per present optional field.
pub open spec fn spec_env_count(e: EnvelopeV) -> u64 {
    (2 + spec_env_opts_count(e)) as u64
}

/// The encodings of the present optional envelope fields, in fixed order.
#[verifier::opaque]
pub open spec fn spec_env_opts_enc(e: EnvelopeV) -> Seq<u8> {
    spec_enc_opt_uint(key_id(), e.id) + spec_enc_opt_text(key_version(), e.version)
        + spec_enc_opt_text(key_dev(), e.dev) + spec_enc_opt_bytes(key_stream(), e.stream)
}

/// The canonical encoding of an envelope: a map holding `part` and `proto`
/// and then each present optional field, in fixed order.
#[verifier::opaque]
pub open spec fn spec_enc_envelope(e: EnvelopeV) -> Seq<u8> {
    spec_enc_map_head(spec_env_count(e)) + spec_enc_field_text(key_part(), e.part)
        + spec_enc_field_text(key_proto(), e.proto) + spec_env_opts_enc(e)
}

/// The canonical encoding of one framed batch item.
#[verifier::opaque]
pub open spec fn spec_enc_batch_item(b: BatchItemV) -> Seq<u8> {
    spec_enc_map_head(2) + spec_enc_field_uint(key_seq(), b.seq as u64)
        + spec_enc_field_bytes(key_data(), b.data)
}

/// One capacitive-sensing side as a map entry: the side's key, then a map of
/// its four fields.
#[verifier::opaque]
pub open spec fn spec_enc_cap_side(name: Seq<u8>, c: CapSenseSideV) -> Seq<u8> {
    spec_enc_text(name) + spec_enc_map_head(4) + spec_enc_field_text(key_status(), c.status)
        + spec_enc_field_uint(key_cen(), c.cen as u64) + spec_enc_field_uint(key_in(), c.inner as u64)
        + spec_enc_field_uint(key_out(), c.out as u64)
}

/// One bed-temperature side as a map entry: the side's key, then a map of
/// its three fields.
#[verifier::opaque]
pub open spec fn spec_enc_bed_side(name: Seq<u8>, c: BedTempSide) -> Seq<u8> {
    spec_enc_text(name) + spec_enc_map_head(3) + spec_enc_field_uint(key_cen(), c.cen as u64)
        + spec_enc_field_uint(key_in(), c.inner as u64) + spec_enc_field_uint(key_out(), c.out as u64)
}

/// The fields of a capacitive-sensing record after its discriminator.
#[verifier::opaque]
pub open spec fn spec_enc_cap_tail(c: CapSenseV) -> Seq<u8> {
    spec_enc_field_uint(key_ts(), c.ts) + spec_enc_cap_side(key_left(), c.left)
        + spec_enc_cap_side(key_right(), c.right)
}

/// The fields of a piezo waveform record after its discriminator.
#[verifier::opaque]
pub open spec fn spec_enc_piezo_tail(p: PiezoDualV) -> Seq<u8> {
    spec_enc_field_uint(key_ts(), p.ts) + spec_enc_field_uint(key_adc(), p.adc as u64)
        + spec_enc_field_uint(key_freq(), p.freq as u64)
        + spec_enc_field_uint(key_gain(), p.gain as u64) + spec_enc_field_bytes(key_left1(), p.left1)
        + spec_enc_field_bytes(key_left2(), p.left2) + spec_enc_field_bytes(key_right1(), p.right1)
        + spec_enc_field_bytes(key_right2(), p.right2)
}

/// The fields of a bed-temperature record after its discriminator.
#[verifier::opaque]
pub open spec fn spec_enc_bed_tail(b: BedTemp) -> Seq<u8> {
    spec_enc_field_uint(key_ts(), b.ts) + spec_enc_field_uint(key_mcu(), b.mcu as u64)
        + spec_enc_field_uint(key_amb(), b.amb as u64) + spec_enc_field_uint(key_hu(), b.hu as u64)
        + spec_enc_bed_side(key_left(), b.left) + spec_enc_bed_side(key_right(), b.right)
}

/// The fields of a log-message record after its discriminator.
#[verifier::opaque]
pub open spec fn spec_enc_log_tail(l: LogRecordV) -> Seq<u8> {
    spec_enc_field_uint(key_ts(), l.ts) + spec_enc_field_text(key_msg(), l.msg)
        + spec_enc_field_text(key_level(), l.level)
}

/// The fields of a freezer-temperature record after its discriminator.
#[verifier::opaque]
pub open spec fn spec_enc_frz_tail(f: FrzTemp) -> Seq<u8> {
    spec_enc_field_uint(key_ts(), f.ts) + spec_enc_field_uint(key_amb(), f.amb as u64)
        + spec_enc_field_uint(key_hs(), f.hs as u64) + spec_enc_field_uint(key_left(), f.left as u64)
        + spec_enc_field_uint(key_right(), f.right as u64)
}

/// The canonical encoding of a sensor record: a map whose first entry is the
/// `type` discriminator, followed by the variant's fields in fixed order.
#[verifier::opaque]
pub open spec fn spec_enc_sensor(r: SensorRecordV) -> Seq<u8> {
    match r {
        SensorRecordV::CapSense(c) => spec_enc_map_head(4)
            + spec_enc_field_text(key_type(), val_cap_sense()) + spec_enc_cap_tail(c),
        SensorRecordV::PiezoDual(p) => spec_enc_map_head(9)
            + spec_enc_field_text(key_type(), val_piezo_dual()) + spec_enc_piezo_tail(p),
        SensorRecordV::BedTemp(b) => spec_enc_map_head(7)
            + spec_enc_field_text(key_type(), val_bed_temp()) + spec_enc_bed_tail(b),
        SensorRecordV::LogMsg(l) => spec_enc_map_head(4)
            + spec_enc_field_text(key_type(), val_log()) + spec_enc_log_tail(l),
        SensorRecordV::FrzTemp(f) => spec_enc_map_head(6)
            + spec_enc_field_text(key_type(), val_frz_temp()) + spec_enc_frz_tail(f),
    }
}

/// Encode an envelope.
pub fn encode_envelope(e: &Envelope) -> (r: Vec<u8>)
    ensures
        r@ == spec_enc_envelope(e@),
{
    proof {
        reveal(spec_enc_envelope);
        reveal(spec_env_opts_enc);
    }
    let mut out: Vec<u8> = Vec::new();
    let mut count: u64 = 2;
    if e.id.is_some() {
        count = count + 1;
    }
    if e.version.is_some() {
        count = count + 1;
    }
    if e.dev.is_some() {
        count = count + 1;
    }
    if e.stream.is_some() {
        count = count + 1;
    }
    assert(count == spec_env_count(e@));
    enc_map_head_into(&mut out, count);
    let kp = key_part_bytes();
    enc_field_text_into(&mut out, kp.as_slice(), e.part.as_slice());
    let kq = key_proto_bytes();
    enc_field_text_into(&mut out, kq.as_slice(), e.proto.as_slice());
    match e.id {
        Some(v) => {
            let ki = key_id_bytes();
            enc_field_uint_into(&mut out, ki.as_slice(), v as u64);
        },
        None => {},
    }
    match &e.version {
        Some(b) => {
            let kv = key_version_bytes();
            enc_field_text_into(&mut out, kv.as_slice(), b.as_slice());
        },
        None => {},
    }
    match &e.dev {
        Some(b) => {
            let kd = key_dev_bytes();
            enc_field_text_into(&mut out, kd.as_slice(), b.as_slice());
        },
        None => {},
    }
    match &e.stream {
        Some(b) => {
            let ks = key_stream_bytes();
            enc_field_bytes_into(&mut out, ks.as_slice(), b.as_slice());
        },
        None => {},
    }
    assert(out@ =~= spec_enc_envelope(e@));
    out
}

/// Encode one framed batch item.
pub fn encode_batch_item(b: &BatchItem) -> (r: Vec<u8>)
    ensures
        r@ == spec_enc_batch_item(b@),
{
    proof {
        reveal(spec_enc_batch_item);
    }
    let mut out: Vec<u8> = Vec::new();
    enc_map_head_into(&mut out, 2);
    let ks = key_seq_bytes();
    enc_field_uint_into(&mut out, ks.as_slice(), b.seq as u64);
    let kd = key_data_bytes();
    enc_field_bytes_into(&mut out, kd.as_slice(), b.data.as_slice());
    assert(out@ =~= spec_enc_batch_item(b@));
    out
}

/// Append one capacitive-sensing side entry.
fn enc_cap_side_into(out: &mut Vec<u8>, name: &[u8], c: &CapSenseSide)
    ensures
        final(out)@ == old(out)@ + spec_enc_cap_side(name@, c@),
{
    proof {
        reveal(spec_enc_cap_side);
    }
    let ghost o0 = out@;
    enc_text_into(out, name);
    enc_map_head_into(out, 4);
    let kst = key_status_bytes();
    enc_field_text_into(out, kst.as_slice(), c.status.as_slice());
    let kc = key_cen_bytes();
    enc_field_uint_into(out, kc.as_slice(), c.cen as u64);
    let ki = key_in_bytes();
    enc_field_uint_into(out, ki.as_slice(), c.inner as u64);
    let ko = key_out_bytes();
    enc_field_uint_into(out, ko.as_slice(), c.out as u64);
    assert(out@ =~= o0 + spec_enc_cap_side(name@, c@));
}

/// Append one bed-temperature side entry.
fn enc_bed_side_into(out: &mut Vec<u8>, name: &[u8], c: &BedTempSide)
    ensures
        final(out)@ == old(out)@ + spec_enc_bed_side(name@, *c),
{
    proof {
        reveal(spec_enc_bed_side);
    }
    let ghost o0 = out@;
    enc_text_into(out, name);
    enc_map_head_into(out, 3);
    let kc = key_cen_bytes();
    enc_field_uint_into(out, kc.as_slice(), c.cen as u64);
    let ki = key_in_bytes();
    enc_field_uint_into(out, ki.as_slice(), c.inner as u64);
    let ko = key_out_bytes();
    enc_field_uint_into(out, ko.as_slice(), c.out as u64);
    assert(out@ =~= o0 + spec_enc_bed_side(name@, *c));
}

/// Encode a sensor record.
pub fn encode_sensor(r: &SensorRecord) -> (out: Vec<u8>)
    ensures
        out@ == spec_enc_sensor(r@),
{
    proof {
        reveal(spec_enc_sensor);
        reveal(spec_enc_cap_tail);
        reveal(spec_enc_piezo_tail);
        reveal(spec_enc_bed_tail);
        reveal(spec_enc_log_tail);
        reveal(spec_enc_frz_tail);
        reveal(spec_enc_cap_side);
        reveal(spec_enc_bed_side);
    }
    let mut out: Vec<u8> = Vec::new();
    let kt = key_type_bytes();
    let kts = key_ts_bytes();
    let kl = key_left_bytes();
    let kr = key_right_bytes();
    match r {
        SensorRecord::CapSense(c) => {
            enc_map_head_into(&mut out, 4);
            let vt = val_cap_sense_bytes();
            enc_field_text_into(&mut out, kt.as_slice(), vt.as_slice());
            enc_field_uint_into(&mut out, kts.as_slice(), c.ts);
            enc_cap_side_into(&mut out, kl.as_slice(), &c.left);
            enc_cap_side_into(&mut out, kr.as_slice(), &c.right);
        },
        SensorRecord::PiezoDual(p) => {
            enc_map_head_into(&mut out, 9);
            let vt = val_piezo_dual_bytes();
            enc_field_text_into(&mut out, kt.as_slice(), vt.as_slice());
            enc_field_uint_into(&mut out, kts.as_slice(), p.ts);
            let ka = key_adc_bytes();
            enc_field_uint_into(&mut out, ka.as_slice(), p.adc as u64);
            let kf = key_freq_bytes();
            enc_field_uint_into(&mut out, kf.as_slice(), p.freq as u64);
            let kg = key_gain_bytes();
            enc_field_uint_into(&mut out, kg.as_slice(), p.gain as u64);
            let k1 = key_left1_bytes();
            enc_field_bytes_into(&mut out, k1.as_slice(), p.left1.as_slice());
            let k2 = key_left2_bytes();
            enc_field_bytes_into(&mut out, k2.as_slice(), p.left2.as_slice());
            let k3 = key_right1_bytes();
            enc_field_bytes_into(&mut out, k3.as_slice(), p.right1.as_slice());
            let k4 = key_right2_bytes();
            enc_field_bytes_into(&mut out, k4.as_slice(), p.right2.as_slice());
        },
        SensorRecord::BedTemp(b) => {
            enc_map_head_into(&mut out, 7);
            let vt = val_bed_temp_bytes();
            enc_field_text_into(&mut out, kt.as_slice(), vt.as_slice());
            enc_field_uint_into(&mut out, kts.as_slice(), b.ts);
            let km = key_mcu_bytes();
            enc_field_uint_into(&mut out, km.as_slice(), b.mcu as u64);
            let ka = key_amb_bytes();
            enc_field_uint_into(&mut out, ka.as_slice(), b.amb as u64);
            let kh = key_hu_bytes();
            enc_field_uint_into(&mut out, kh.as_slice(), b.hu as u64);
            enc_bed_side_into(&mut out, kl.as_slice(), &b.left);
            enc_bed_side_into(&mut out, kr.as_slice(), &b.right);
        },
        SensorRecord::LogMsg(l) => {
            enc_map_head_into(&mut out, 4);
            let vt = val_log_bytes();
            enc_field_text_into(&mut out, kt.as_slice(), vt.as_slice());
            enc_field_uint_into(&mut out, kts.as_slice(), l.ts);
            let km = key_msg_bytes();
            enc_field_text_into(&mut out, km.as_slice(), l.msg.as_slice());
            let kv = key_level_bytes();
            enc_field_text_into(&mut out, kv.as_slice(), l.level.as_slice());
        },
        SensorRecord::FrzTemp(f) => {
            enc_map_head_into(&mut out, 6);
            let vt = val_frz_temp_bytes();
            enc_field_text_into(&mut out, kt.as_slice(), vt.as_slice());
            enc_field_uint_into(&mut out, kts.as_slice(), f.ts);
            let ka = key_amb_bytes();
            enc_field_uint_into(&mut out, ka.as_slice(), f.amb as u64);
            let kh = key_hs_bytes();
            enc_field_uint_into(&mut out, kh.as_slice(), f.hs as u64);
            enc_field_uint_into(&mut out, kl.as_slice(), f.left as u64);
            enc_field_uint_into(&mut out, kr.as_slice(), f.right as u64);
        },
    }
    assert(out@ =~= spec_enc_sensor(r@));
    out
}


// ---------------------------------------------------------------------------
// Decoding.
// ---------------------------------------------------------------------------

/// An exec record parse agrees with its spec-level parse, through the view.
pub open spec fn parses_to_view<T: View>(sr: Result<(T::V, int), DecodeErr>, r: Result<(T, usize), DecodeErr>) -> bool {
    match sr {
        Ok((v, n)) => r matches Ok(p) && p.0@ == v && p.1 as int == n,
        Err(e) => r matches Err(f) && f == e,
    }
}

/// Decode one capacitive-sensing side entry: the side's key, then its map.
#[verifier::opaque]
pub open spec fn spec_parse_cap_side(s: Seq<u8>, i: int, name: Seq<u8>) -> Result<(CapSenseSideV, int), DecodeErr> {
    match spec_parse_text(s, i) {
        Ok((k, n)) => if k != name {
            Err(DecodeErr::Malformed)
        } else {
            match spec_parse_map_head(s, n) {
                Ok((count, n0)) => if count != 4 {
                    Err(DecodeErr::Malformed)
                } else {
                    match spec_parse_field_text(s, n0, key_status()) {
                        Ok((status, n1)) => match spec_parse_field_u16(s, n1, key_cen()) {
                            Ok((cen, n2)) => match spec_parse_field_u16(s, n2, key_in()) {
                                Ok((inner, n3)) => match spec_parse_field_u16(s, n3, key_out()) {
                                    Ok((out, n4)) => Ok((
                                        CapSenseSideV { status, cen, inner, out },
                                        n4,
                                    )),
                                    Err(e) => Err(e),
                                },
                                Err(e) => Err(e),
                            },
                            Err(e) => Err(e),
                        },
                        Err(e) => Err(e),
                    }
                },
                Err(e) => Err(e),
            }
        },
        Err(e) => Err(e),
    }
}

/// Decode one bed-temperature side entry: the side's key, then its map.
#[verifier::opaque]
pub open spec fn spec_parse_bed_side(s: Seq<u8>, i: int, name: Seq<u8>) -> Result<(BedTempSide, int), DecodeErr> {
    match spec_parse_text(s, i) {
        Ok((k, n)) => if k != name {
            Err(DecodeErr::Malformed)
        } else {
            match spec_parse_map_head(s, n) {
                Ok((count, n0)) => if count != 3 {
                    Err(DecodeErr::Malformed)
                } else {
                    match spec_parse_field_u16(s, n0, key_cen()) {
                        Ok((cen, n1)) => match spec_parse_field_u16(s, n1, key_in()) {
                            Ok((inner, n2)) => match spec_parse_field_u16(s, n2, key_out()) {
                                Ok((out, n3)) => Ok((BedTempSide { cen, inner, out }, n3)),
                                Err(e) => Err(e),
                            },
                            Err(e) => Err(e),
                        },
                        Err(e) => Err(e),
                    }
                },
                Err(e) => Err(e),
            }
        },
        Err(e) => Err(e),
    }
}

/// Decode the fields of a capacitive-sensing record after its discriminator.
#[verifier::opaque]
pub open spec fn spec_parse_cap_tail(s: Seq<u8>, i: int) -> Result<(SensorRecordV, int), DecodeErr> {
    match spec_parse_field_uint(s, i, key_ts()) {
        Ok((ts, n1)) => match spec_parse_cap_side(s, n1, key_left()) {
            Ok((left, n2)) => match spec_parse_cap_side(s, n2, key_right()) {
                Ok((right, n3)) => Ok((
                    SensorRecordV::CapSense(CapSenseV { ts, left, right }),
                    n3,
                )),
                Err(e) => Err(e),
            },
            Err(e) => Err(e),
        },
        Err(e) => Err(e),
    }
}

/// Decode the fields of a piezo waveform record after its discriminator.
#[verifier::opaque]
pub open spec fn spec_parse_piezo_tail(s: Seq<u8>, i: int) -> Result<(SensorRecordV, int), DecodeErr> {
    match spec_parse_field_uint(s, i, key_ts()) {
        Ok((ts, n1)) => match spec_parse_field_u8(s, n1, key_adc()) {
            Ok((adc, n2)) => match spec_parse_field_u16(s, n2, key_freq()) {
                Ok((freq, n3)) => match spec_parse_field_u16(s, n3, key_gain()) {
                    Ok((gain, n4)) => match spec_parse_field_bytes(s, n4, key_left1()) {
                        Ok((left1, n5)) => match spec_parse_field_bytes(s, n5, key_left2()) {
                            Ok((left2, n6)) => match spec_parse_field_bytes(s, n6, key_right1()) {
                                Ok((right1, n7)) => match spec_parse_field_bytes(s, n7, key_right2()) {
                                    Ok((right2, n8)) => Ok((
                                        SensorRecordV::PiezoDual(
                                            PiezoDualV { ts, adc, freq, gain, left1, left2, right1, right2 },
                                        ),
                                        n8,
                                    )),
                                    Err(e) => Err(e),
                                },
                                Err(e) => Err(e),
                            },
                            Err(e) => Err(e),
                        },
                        Err(e) => Err(e),
                    },
                    Err(e) => Err(e),
                },
                Err(e) => Err(e),
            },
            Err(e) => Err(e),
        },
        Err(e) => Err(e),
    }
}

/// Decode the fields of a bed-temperature record after its discriminator.
#[verifier::opaque]
pub open spec fn spec_parse_bed_tail(s: Seq<u8>, i: int) -> Result<(SensorRecordV, int), DecodeErr> {
    match spec_parse_field_uint(s, i, key_ts()) {
        Ok((ts, n1)) => match spec_parse_field_u16(s, n1, key_mcu()) {
            Ok((mcu, n2)) => match spec_parse_field_u16(s, n2, key_amb()) {
                Ok((amb, n3)) => match spec_parse_field_u16(s, n3, key_hu()) {
                    Ok((hu, n4)) => match spec_parse_bed_side(s, n4, key_left()) {
                        Ok((left, n5)) => match spec_parse_bed_side(s, n5, key_right()) {
                            Ok((right, n6)) => Ok((
                                SensorRecordV::BedTemp(BedTemp { ts, mcu, amb, hu, left, right }),
                                n6,
                            )),
                            Err(e) => Err(e),
                        },
                        Err(e) => Err(e),
                    },
                    Err(e) => Err(e),
                },
                Err(e) => Err(e),
            },
            Err(e) => Err(e),
        },
        Err(e) => Err(e),
    }
}

/// Decode the fields of a log-message record after its discriminator.
#[verifier::opaque]
pub open spec fn spec_parse_log_tail(s: Seq<u8>, i: int) -> Result<(SensorRecordV, int), DecodeErr> {
    match spec_parse_field_uint(s, i, key_ts()) {
        Ok((ts, n1)) => match spec_parse_field_text(s, n1, key_msg()) {
            Ok((msg, n2)) => match spec_parse_field_text(s, n2, key_level()) {
                Ok((level, n3)) => Ok((
                    SensorRecordV::LogMsg(LogRecordV { ts, msg, level }),
                    n3,
                )),
                Err(e) => Err(e),
            },
            Err(e) => Err(e),
        },
        Err(e) => Err(e),
    }
}

/// Decode the fields of a freezer-temperature record after its discriminator.
#[verifier::opaque]
pub open spec fn spec_parse_frz_tail(s: Seq<u8>, i: int) -> Result<(SensorRecordV, int), DecodeErr> {
    match spec_parse_field_uint(s, i, key_ts()) {
        Ok((ts, n1)) => match spec_parse_field_u16(s, n1, key_amb()) {
            Ok((amb, n2)) => match spec_parse_field_u16(s, n2, key_hs()) {
                Ok((hs, n3)) => match spec_parse_field_u16(s, n3, key_left()) {
                    Ok((left, n4)) => match spec_parse_field_u16(s, n4, key_right()) {
                        Ok((right, n5)) => Ok((
                            SensorRecordV::FrzTemp(FrzTemp { ts, amb, hs, left, right }),
                            n5,
                        )),
                        Err(e) => Err(e),
                    },
                    Err(e) => Err(e),
                },
                Err(e) => Err(e),
            },
            Err(e) => Err(e),
        },
        Err(e) => Err(e),
    }
}

/// Decode one sensor record at `i`: the map head, the `type` discriminator,
/// then the matching variant's fields. An unknown discriminator or a
/// mismatched entry count is malformed.
#[verifier::opaque]
pub open spec fn spec_parse_sensor(s: Seq<u8>, i: int) -> Result<(SensorRecordV, int), DecodeErr> {
    match spec_parse_map_head(s, i) {
        Ok((count, n0)) => match spec_parse_field_text(s, n0, key_type()) {
            Ok((tag, n1)) => if tag == val_cap_sense() {
                if count != 4 {
                    Err(DecodeErr::Malformed)
                } else {
                    spec_parse_cap_tail(s, n1)
                }
            } else if tag == val_piezo_dual() {
                if count != 9 {
                    Err(DecodeErr::Malformed)
                } else {
                    spec_parse_piezo_tail(s, n1)
                }
            } else if tag == val_bed_temp() {
                if count != 7 {
                    Err(DecodeErr::Malformed)
                } else {
                    spec_parse_bed_tail(s, n1)
                }
            } else if tag == val_log() {
                if count != 4 {
                    Err(DecodeErr::Malformed)
                } else {
                    spec_parse_log_tail(s, n1)
                }
            } else if tag == val_frz_temp() {
                if count != 6 {
                    Err(DecodeErr::Malformed)
                } else {
                    spec_parse_frz_tail(s, n1)
                }
            } else {
                Err(DecodeErr::Malformed)
            },
            Err(e) => Err(e),
        },
        Err(e) => Err(e),
    }
}

/// Decode one framed batch item at `i`.
#[verifier::opaque]
pub open spec fn spec_parse_batch_item(s: Seq<u8>, i: int) -> Result<(BatchItemV, int), DecodeErr> {
    match spec_parse_map_head(s, i) {
        Ok((count, n0)) => if count != 2 {
            Err(DecodeErr::Malformed)
        } else {
            match spec_parse_field_uint(s, n0, key_seq()) {
                Ok((seq, n1)) => if seq > u32::MAX as u64 {
                    Err(DecodeErr::Malformed)
                } else {
                    match spec_parse_field_bytes(s, n1, key_data()) {
                        Ok((data, n2)) => Ok((BatchItemV { seq: seq as u32, data }, n2)),
                        Err(e) => Err(e),
                    }
                },
                Err(e) => Err(e),
            }
        },
        Err(e) => Err(e),
    }
}

// Optional envelope fields: each step consumes its entry when the next key
// matches its name, and otherwise leaves the position for the next field.

pub open spec fn spec_opt_field_uint(s: Seq<u8>, i: int, rem: u64, name: Seq<u8>) -> Result<(Option<u64>, int, u64), DecodeErr> {
    if rem == 0 {
        Ok((None, i, 0))
    } else {
        match spec_parse_text(s, i) {
            Ok((k, n)) => if k == name {
                match spec_parse_uint(s, n) {
                    Ok((v, m)) => Ok((Some(v), m, (rem - 1) as u64)),
                    Err(e) => Err(e),
                }
            } else {
                Ok((None, i, rem))
            },
            Err(e) => Err(e),
        }
    }
}

pub open spec fn spec_opt_field_text(s: Seq<u8>, i: int, rem: u64, name: Seq<u8>) -> Result<(Option<Seq<u8>>, int, u64), DecodeErr> {
    if rem == 0 {
        Ok((None, i, 0))
    } else {
        match spec_parse_text(s, i) {
            Ok((k, n)) => if k == name {
                match spec_parse_text(s, n) {
                    Ok((v, m)) => Ok((Some(v), m, (rem - 1) as u64)),
                    Err(e) => Err(e),
                }
            } else {
                Ok((None, i, rem))
            },
            Err(e) => Err(e),
        }
    }
}

pub open spec fn spec_opt_field_bytes(s: Seq<u8>, i: int, rem: u64, name: Seq<u8>) -> Result<(Option<Seq<u8>>, int, u64), DecodeErr> {
    if rem == 0 {
        Ok((None, i, 0))
    } else {
        match spec_parse_text(s, i) {
            Ok((k, n)) => if k == name {
                match spec_parse_bytes(s, n) {
                    Ok((v, m)) => Ok((Some(v), m, (rem - 1) as u64)),
                    Err(e) => Err(e),
                }
            } else {
                Ok((None, i, rem))
            },
            Err(e) => Err(e),
        }
    }
}

/// Decode the optional envelope fields in their fixed order. `rem` entries
/// must remain and all must be consumed.
#[verifier::opaque]
pub open spec fn spec_parse_env_opts(s: Seq<u8>, i: int, rem: u64) -> Result<((Option<u64>, Option<Seq<u8>>, Option<Seq<u8>>, Option<Seq<u8>>), int), DecodeErr> {
    match spec_opt_field_uint(s, i, rem, key_id()) {
        Ok((id, n1, rem1)) => match spec_opt_field_text(s, n1, rem1, key_version()) {
            Ok((version, n2, rem2)) => match spec_opt_field_text(s, n2, rem2, key_dev()) {
                Ok((dev, n3, rem3)) => match spec_opt_field_bytes(s, n3, rem3, key_stream()) {
                    Ok((stream, n4, rem4)) => if rem4 == 0 {
                        Ok(((id, version, dev, stream), n4))
                    } else {
                        Err(DecodeErr::Malformed)
                    },
                    Err(e) => Err(e),
                },
                Err(e) => Err(e),
            },
            Err(e) => Err(e),
        },
        Err(e) => Err(e),
    }
}

/// Decode one envelope at `i`: the map head, `part` and `proto`, then the
/// optional fields in fixed order.
#[verifier::opaque]
pub open spec fn spec_parse_envelope(s: Seq<u8>, i: int) -> Result<(EnvelopeV, int), DecodeErr> {
    match spec_parse_map_head(s, i) {
        Ok((count, n0)) => if count < 2 || count > 6 {
            Err(DecodeErr::Malformed)
        } else {
            match spec_parse_field_text(s, n0, key_part()) {
                Ok((part, n1)) => match spec_parse_field_text(s, n1, key_proto()) {
                    Ok((proto, n2)) => match spec_parse_env_opts(s, n2, (count - 2) as u64) {
                        Ok(((id, version, dev, stream), n3)) => match id {
                            Some(v) => if v > u32::MAX as u64 {
                                Err(DecodeErr::Malformed)
                            } else {
                                Ok((
                                    EnvelopeV {
                                        part,
                                        proto,
                                        id: Some(v as u32),
                                        version,
                                        dev,
                                        stream,
                                    },
                                    n3,
                                ))
                            },
                            None => Ok((
                                EnvelopeV { part, proto, id: None, version, dev, stream },
                                n3,
                            )),
                        },
                        Err(e) => Err(e),
                    },
                    Err(e) => Err(e),
                },
                Err(e) => Err(e),
            }
        },
        Err(e) => Err(e),
    }
}


/// Decode one capacitive-sensing side entry.
pub fn parse_cap_side(s: &[u8], pos: usize, name: &[u8]) -> (r: Result<(CapSenseSide, usize), DecodeErr>)
    requires
        pos <= s@.len(),
    ensures
        parses_to_view::<CapSenseSide>(spec_parse_cap_side(s@, pos as int, name@), r),
        r matches Ok(p) ==> pos < p.1 <= s@.len(),
{
    proof {
        reveal(spec_parse_cap_side);
    }
    let (k, n) = match parse_text(s, pos) {
        Ok(t) => t,
        Err(e) => return Err(e),
    };
    if !bytes_eq(k.as_slice(), name) {
        return Err(DecodeErr::Malformed);
    }
    let (count, n0) = match parse_map_head(s, n) {
        Ok(t) => t,
        Err(e) => return Err(e),
    };
    if count != 4 {
        return Err(DecodeErr::Malformed);
    }
    let kst = key_status_bytes();
    let (status, n1) = match parse_field_text(s, n0, kst.as_slice()) {
        Ok(t) => t,
        Err(e) => return Err(e),
    };
    let kc = key_cen_bytes();
    let (cen, n2) = match parse_field_u16(s, n1, kc.as_slice()) {
        Ok(t) => t,
        Err(e) => return Err(e),
    };
    let ki = key_in_bytes();
    let (inner, n3) = match parse_field_u16(s, n2, ki.as_slice()) {
        Ok(t) => t,
        Err(e) => return Err(e),
    };
    let ko = key_out_bytes();
    let (out, n4) = match parse_field_u16(s, n3, ko.as_slice()) {
        Ok(t) => t,
        Err(e) => return Err(e),
    };
    Ok((CapSenseSide { status, cen, inner, out }, n4))
}

/// Decode one bed-temperature side entry.
pub fn parse_bed_side(s: &[u8], pos: usize, name: &[u8]) -> (r: Result<(BedTempSide, usize), DecodeErr>)
    requires
        pos <= s@.len(),
    ensures
        parses_to(spec_parse_bed_side(s@, pos as int, name@), r),
        r matches Ok(p) ==> pos < p.1 <= s@.len(),
{
    proof {
        reveal(spec_parse_bed_side);
    }
    let (k, n) = match parse_text(s, pos) {
        Ok(t) => t,
        Err(e) => return Err(e),
    };
    if !bytes_eq(k.as_slice(), name) {
        return Err(DecodeErr::Malformed);
    }
    let (count, n0) = match parse_map_head(s, n) {
        Ok(t) => t,
        Err(e) => return Err(e),
    };
    if count != 3 {
        return Err(DecodeErr::Malformed);
    }
    let kc = key_cen_bytes();
    let (cen, n1) = match parse_field_u16(s, n0, kc.as_slice()) {
        Ok(t) => t,
        Err(e) => return Err(e),
    };
    let ki = key_in_bytes();
    let (inner, n2) = match parse_field_u16(s, n1, ki.as_slice()) {
        Ok(t) => t,
        Err(e) => return Err(e),
    };
    let ko = key_out_bytes();
    let (out, n3) = match parse_field_u16(s, n2, ko.as_slice()) {
        Ok(t) => t,
        Err(e) => return Err(e),
    };
    Ok((BedTempSide { cen, inner, out }, n3))
}

fn parse_cap_tail(s: &[u8], pos: usize) -> (r: Result<(SensorRecord, usize), DecodeErr>)
    requires
        pos <= s@.len(),
    ensures
        parses_to_view::<SensorRecord>(spec_parse_cap_tail(s@, pos as int), r),
        r matches Ok(p) ==> p.1 <= s@.len(),
{
    proof {
        reveal(spec_parse_cap_tail);
    }
    let kts = key_ts_bytes();
    let (ts, n1) = match parse_field_uint(s, pos, kts.as_slice()) {
        Ok(t) => t,
        Err(e) => return Err(e),
    };
    let kl = key_left_bytes();
    let (left, n2) = match parse_cap_side(s, n1, kl.as_slice()) {
        Ok(t) => t,
        Err(e) => return Err(e),
    };
    let kr = key_right_bytes();
    let (right, n3) = match parse_cap_side(s, n2, kr.as_slice()) {
        Ok(t) => t,
        Err(e) => return Err(e),
    };
    Ok((SensorRecord::CapSense(CapSense { ts, left, right }), n3))
}

fn parse_piezo_tail(s: &[u8], pos: usize) -> (r: Result<(SensorRecord, usize), DecodeErr>)
    requires
        pos <= s@.len(),
    ensures
        parses_to_view::<SensorRecord>(spec_parse_piezo_tail(s@, pos as int), r),
        r matches Ok(p) ==> p.1 <= s@.len(),
{
    proof {
        reveal(spec_parse_piezo_tail);
    }
    let kts = key_ts_bytes();
    let (ts, n1) = match parse_field_uint(s, pos, kts.as_slice()) {
        Ok(t) => t,
        Err(e) => return Err(e),
    };
    let ka = key_adc_bytes();
    let (adc, n2) = match parse_field_u8(s, n1, ka.as_slice()) {
        Ok(t) => t,
        Err(e) => return Err(e),
    };
    let kf = key_freq_bytes();
    let (freq, n3) = match parse_field_u16(s, n2, kf.as_slice()) {
        Ok(t) => t,
        Err(e) => return Err(e),
    };
    let kg = key_gain_bytes();
    let (gain, n4) = match parse_field_u16(s, n3, kg.as_slice()) {
        Ok(t) => t,
        Err(e) => return Err(e),
    };
    let k1 = key_left1_bytes();
    let (left1, n5) = match parse_field_bytes(s, n4, k1.as_slice()) {
        Ok(t) => t,
        Err(e) => return Err(e),
    };
    let k2 = key_left2_bytes();
    let (left2, n6) = match parse_field_bytes(s, n5, k2.as_slice()) {
        Ok(t) => t,
        Err(e) => return Err(e),
    };
    let k3 = key_right1_bytes();
    let (right1, n7) = match parse_field_bytes(s, n6, k3.as_slice()) {
        Ok(t) => t,
        Err(e) => return Err(e),
    };
    let k4 = key_right2_bytes();
    let (right2, n8) = match parse_field_bytes(s, n7, k4.as_slice()) {
        Ok(t) => t,
        Err(e) => return Err(e),
    };
    Ok((
        SensorRecord::PiezoDual(PiezoDual { ts, adc, freq, gain, left1, left2, right1, right2 }),
        n8,
    ))
}

fn parse_bed_tail(s: &[u8], pos: usize) -> (r: Result<(SensorRecord, usize), DecodeErr>)
    requires
        pos <= s@.len(),
    ensures
        parses_to_view::<SensorRecord>(spec_parse_bed_tail(s@, pos as int), r),
        r matches Ok(p) ==> p.1 <= s@.len(),
{
    proof {
        reveal(spec_parse_bed_tail);
    }
    let kts = key_ts_bytes();
    let (ts, n1) = match parse_field_uint(s, pos, kts.as_slice()) {
        Ok(t) => t,
        Err(e) => return Err(e),
    };
    let km = key_mcu_bytes();
    let (mcu, n2) = match parse_field_u16(s, n1, km.as_slice()) {
        Ok(t) => t,
        Err(e) => return Err(e),
    };
    let ka = key_amb_bytes();
    let (amb, n3) = match parse_field_u16(s, n2, ka.as_slice()) {
        Ok(t) => t,
        Err(e) => return Err(e),
    };
    let kh = key_hu_bytes();
    let (hu, n4) = match parse_field_u16(s, n3, kh.as_slice()) {
        Ok(t) => t,
        Err(e) => return Err(e),
    };
    let kl = key_left_bytes();
    let (left, n5) = match parse_bed_side(s, n4, kl.as_slice()) {
        Ok(t) => t,
        Err(e) => return Err(e),
    };
    let kr = key_right_bytes();
    let (right, n6) = match parse_bed_side(s, n5, kr.as_slice()) {
        Ok(t) => t,
        Err(e) => return Err(e),
    };
    Ok((SensorRecord::BedTemp(BedTemp { ts, mcu, amb, hu, left, right }), n6))
}

fn parse_log_tail(s: &[u8], pos: usize) -> (r: Result<(SensorRecord, usize), DecodeErr>)
    requires
        pos <= s@.len(),
    ensures
        parses_to_view::<SensorRecord>(spec_parse_log_tail(s@, pos as int), r),
        r matches Ok(p) ==> p.1 <= s@.len(),
{
    proof {
        reveal(spec_parse_log_tail);
    }
    let kts = key_ts_bytes();
    let (ts, n1) = match parse_field_uint(s, pos, kts.as_slice()) {
        Ok(t) => t,
        Err(e) => return Err(e),
    };
    let km = key_msg_bytes();
    let (msg, n2) = match parse_field_text(s, n1, km.as_slice()) {
        Ok(t) => t,
        Err(e) => return Err(e),
    };
    let kv = key_level_bytes();
    let (level, n3) = match parse_field_text(s, n2, kv.as_slice()) {
        Ok(t) => t,
        Err(e) => return Err(e),
    };
    Ok((SensorRecord::LogMsg(LogRecord { ts, msg, level }), n3))
}

fn parse_frz_tail(s: &[u8], pos: usize) -> (r: Result<(SensorRecord, usize), DecodeErr>)
    requires
        pos <= s@.len(),
    ensures
        parses_to_view::<SensorRecord>(spec_parse_frz_tail(s@, pos as int), r),
        r matches Ok(p) ==> p.1 <= s@.len(),
{
    proof {
        reveal(spec_parse_frz_tail);
    }
    let kts = key_ts_bytes();
    let (ts, n1) = match parse_field_uint(s, pos, kts.as_slice()) {
        Ok(t) => t,
        Err(e) => return Err(e),
    };
    let ka = key_amb_bytes();
    let (amb, n2) = match parse_field_u16(s, n1, ka.as_slice()) {
        Ok(t) => t,
        Err(e) => return Err(e),
    };
    let kh = key_hs_bytes();
    let (hs, n3) = match parse_field_u16(s, n2, kh.as_slice()) {
        Ok(t) => t,
        Err(e) => return Err(e),
    };
    let kl = key_left_bytes();
    let (left, n4) = match parse_field_u16(s, n3, kl.as_slice()) {
        Ok(t) => t,
        Err(e) => return Err(e),
    };
    let kr = key_right_bytes();
    let (right, n5) = match parse_field_u16(s, n4, kr.as_slice()) {
        Ok(t) => t,
        Err(e) => return Err(e),
    };
    Ok((SensorRecord::FrzTemp(FrzTemp { ts, amb, hs, left, right }), n5))
}

/// Decode one sensor record.
pub fn parse_sensor(s: &[u8], pos: usize) -> (r: Result<(SensorRecord, usize), DecodeErr>)
    requires
        pos <= s@.len(),
    ensures
        parses_to_view::<SensorRecord>(spec_parse_sensor(s@, pos as int), r),
        r matches Ok(p) ==> p.1 <= s@.len(),
{
    proof {
        reveal(spec_parse_sensor);
    }
    let (count, n0) = match parse_map_head(s, pos) {
        Ok(t) => t,
        Err(e) => return Err(e),
    };
    let kt = key_type_bytes();
    let (tag, n1) = match parse_field_text(s, n0, kt.as_slice()) {
        Ok(t) => t,
        Err(e) => return Err(e),
    };
    let v_cap = val_cap_sense_bytes();
    let v_pz = val_piezo_dual_bytes();
    let v_bed = val_bed_temp_bytes();
    let v_log = val_log_bytes();
    let v_frz = val_frz_temp_bytes();
    if bytes_eq(tag.as_slice(), v_cap.as_slice()) {
        if count != 4 {
            return Err(DecodeErr::Malformed);
        }
        parse_cap_tail(s, n1)
    } else if bytes_eq(tag.as_slice(), v_pz.as_slice()) {
        if count != 9 {
            return Err(DecodeErr::Malformed);
        }
        parse_piezo_tail(s, n1)
    } else if bytes_eq(tag.as_slice(), v_bed.as_slice()) {
        if count != 7 {
            return Err(DecodeErr::Malformed);
        }
        parse_bed_tail(s, n1)
    } else if bytes_eq(tag.as_slice(), v_log.as_slice()) {
        if count != 4 {
            return Err(DecodeErr::Malformed);
        }
        parse_log_tail(s, n1)
    } else if bytes_eq(tag.as_slice(), v_frz.as_slice()) {
        if count != 6 {
            return Err(DecodeErr::Malformed);
        }
        parse_frz_tail(s, n1)
    } else {
        Err(DecodeErr::Malformed)
    }
}

/// Decode one framed batch item.
pub fn parse_batch_item(s: &[u8], pos: usize) -> (r: Result<(BatchItem, usize), DecodeErr>)
    requires
        pos <= s@.len(),
    ensures
        parses_to_view::<BatchItem>(spec_parse_batch_item(s@, pos as int), r),
        r matches Ok(p) ==> pos < p.1 <= s@.len(),
{
    proof {
        reveal(spec_parse_batch_item);
    }
    let (count, n0) = match parse_map_head(s, pos) {
        Ok(t) => t,
        Err(e) => return Err(e),
    };
    if count != 2 {
        return Err(DecodeErr::Malformed);
    }
    let ks = key_seq_bytes();
    let (seq, n1) = match parse_field_uint(s, n0, ks.as_slice()) {
        Ok(t) => t,
        Err(e) => return Err(e),
    };
    if seq > u32::MAX as u64 {
        return Err(DecodeErr::Malformed);
    }
    let kd = key_data_bytes();
    let (data, n2) = match parse_field_bytes(s, n1, kd.as_slice()) {
        Ok(t) => t,
        Err(e) => return Err(e),
    };
    Ok((BatchItem { seq: seq as u32, data }, n2))
}

fn opt_field_uint(s: &[u8], pos: usize, rem: u64, name: &[u8]) -> (r: Result<(Option<u64>, usize, u64), DecodeErr>)
    requires
        pos <= s@.len(),
    ensures
        ({
            let sr = spec_opt_field_uint(s@, pos as int, rem, name@);
            &&& (sr matches Ok(t) ==> r matches Ok(p) && p.0 == t.0 && p.1 as int == t.1 && p.2
                == t.2)
            &&& (sr matches Err(e) ==> r matches Err(f) && f == e)
        }),
        r matches Ok(p) ==> pos <= p.1 <= s@.len() && p.2 <= rem,
{
    if rem == 0 {
        return Ok((None, pos, 0));
    }
    let (k, n) = match parse_text(s, pos) {
        Ok(t) => t,
        Err(e) => return Err(e),
    };
    if bytes_eq(k.as_slice(), name) {
        let (v, m) = match parse_uint(s, n) {
            Ok(t) => t,
            Err(e) => return Err(e),
        };
        Ok((Some(v), m, rem - 1))
    } else {
        Ok((None, pos, rem))
    }
}

fn opt_field_text(s: &[u8], pos: usize, rem: u64, name: &[u8]) -> (r: Result<(Option<Vec<u8>>, usize, u64), DecodeErr>)
    requires
        pos <= s@.len(),
    ensures
        ({
            let sr = spec_opt_field_text(s@, pos as int, rem, name@);
            &&& (sr matches Ok(t) ==> r matches Ok(p) && opt_view(p.0) == t.0 && p.1 as int == t.1
                && p.2 == t.2)
            &&& (sr matches Err(e) ==> r matches Err(f) && f == e)
        }),
        r matches Ok(p) ==> pos <= p.1 <= s@.len() && p.2 <= rem,
{
    if rem == 0 {
        return Ok((None, pos, 0));
    }
    let (k, n) = match parse_text(s, pos) {
        Ok(t) => t,
        Err(e) => return Err(e),
    };
    if bytes_eq(k.as_slice(), name) {
        let (v, m) = match parse_text(s, n) {
            Ok(t) => t,
            Err(e) => return Err(e),
        };
        Ok((Some(v), m, rem - 1))
    } else {
        Ok((None, pos, rem))
    }
}

fn opt_field_bytes(s: &[u8], pos: usize, rem: u64, name: &[u8]) -> (r: Result<(Option<Vec<u8>>, usize, u64), DecodeErr>)
    requires
        pos <= s@.len(),
    ensures
        ({
            let sr = spec_opt_field_bytes(s@, pos as int, rem, name@);
            &&& (sr matches Ok(t) ==> r matches Ok(p) && opt_view(p.0) == t.0 && p.1 as int == t.1
                && p.2 == t.2)
            &&& (sr matches Err(e) ==> r matches Err(f) && f == e)
        }),
        r matches Ok(p) ==> pos <= p.1 <= s@.len() && p.2 <= rem,
{
    if rem == 0 {
        return Ok((None, pos, 0));
    }
    let (k, n) = match parse_text(s, pos) {
        Ok(t) => t,
        Err(e) => return Err(e),
    };
    if bytes_eq(k.as_slice(), name) {
        let (v, m) = match parse_bytes(s, n) {
            Ok(t) => t,
            Err(e) => return Err(e),
        };
        Ok((Some(v), m, rem - 1))
    } else {
        Ok((None, pos, rem))
    }
}

/// Decode one envelope.
pub fn parse_envelope(s: &[u8], pos: usize) -> (r: Result<(Envelope, usize), DecodeErr>)
    requires
        pos <= s@.len(),
    ensures
        parses_to_view::<Envelope>(spec_parse_envelope(s@, pos as int), r),
        r matches Ok(p) ==> pos < p.1 <= s@.len(),
{
    proof {
        reveal(spec_parse_envelope);
        reveal(spec_parse_env_opts);
    }
    let (count, n0) = match parse_map_head(s, pos) {
        Ok(t) => t,
        Err(e) => return Err(e),
    };
    if count < 2 || count > 6 {
        return Err(DecodeErr::Malformed);
    }
    let kp = key_part_bytes();
    let (part, n1) = match parse_field_text(s, n0, kp.as_slice()) {
        Ok(t) => t,
        Err(e) => return Err(e),
    };
    let kq = key_proto_bytes();
    let (proto, n2) = match parse_field_text(s, n1, kq.as_slice()) {
        Ok(t) => t,
        Err(e) => return Err(e),
    };
    let ki = key_id_bytes();
    let (id, n3, rem1) = match opt_field_uint(s, n2, count - 2, ki.as_slice()) {
        Ok(t) => t,
        Err(e) => return Err(e),
    };
    let kv = key_version_bytes();
    let (version, n4, rem2) = match opt_field_text(s, n3, rem1, kv.as_slice()) {
        Ok(t) => t,
        Err(e) => return Err(e),
    };
    let kd = key_dev_bytes();
    let (dev, n5, rem3) = match opt_field_text(s, n4, rem2, kd.as_slice()) {
        Ok(t) => t,
        Err(e) => return Err(e),
    };
    let ks = key_stream_bytes();
    let (stream, n6, rem4) = match opt_field_bytes(s, n5, rem3, ks.as_slice()) {
        Ok(t) => t,
        Err(e) => return Err(e),
    };
    if rem4 != 0 {
        return Err(DecodeErr::Malformed);
    }
    match id {
        Some(v) => {
            if v > u32::MAX as u64 {
                Err(DecodeErr::Malformed)
            } else {
                Ok((
                    Envelope { part, proto, id: Some(v as u32), version, dev, stream },
                    n6,
                ))
            }
        },
        None => Ok((Envelope { part, proto, id: None, version, dev, stream }, n6)),
    }
}


// ---------------------------------------------------------------------------
// Round trips: decoding a canonical encoding yields the encoded record.
// ---------------------------------------------------------------------------

pub proof fn lemma_cap_side_round_trip(s: Seq<u8>, i: int, name: Seq<u8>, c: CapSenseSideV)
    requires
        name.len() <= u64::MAX,
        c.status.len() <= u64::MAX,
        at(s, i, spec_enc_cap_side(name, c)),
    ensures
        spec_parse_cap_side(s, i, name) == Ok::<(CapSenseSideV, int), DecodeErr>(
            (c, i + spec_enc_cap_side(name, c).len()),
        ),
{
    reveal(spec_enc_cap_side);
    reveal(spec_parse_cap_side);
    let e1 = spec_enc_text(name);
    let e2 = spec_enc_map_head(4);
    let e3 = spec_enc_field_text(key_status(), c.status);
    let e4 = spec_enc_field_uint(key_cen(), c.cen as u64);
    let e5 = spec_enc_field_uint(key_in(), c.inner as u64);
    let e6 = spec_enc_field_uint(key_out(), c.out as u64);
    lemma_at_concat(s, i, e1 + e2 + e3 + e4 + e5, e6);
    lemma_at_concat(s, i, e1 + e2 + e3 + e4, e5);
    lemma_at_concat(s, i, e1 + e2 + e3, e4);
    lemma_at_concat(s, i, e1 + e2, e3);
    lemma_at_concat(s, i, e1, e2);
    let i1 = i + e1.len();
    let i2 = i1 + e2.len();
    let i3 = i2 + e3.len();
    let i4 = i3 + e4.len();
    let i5 = i4 + e5.len();
    lemma_text_round_trip(s, i, name);
    lemma_map_head_round_trip(s, i1, 4);
    lemma_field_text_round_trip(s, i2, key_status(), c.status);
    lemma_field_u16_round_trip(s, i3, key_cen(), c.cen);
    lemma_field_u16_round_trip(s, i4, key_in(), c.inner);
    lemma_field_u16_round_trip(s, i5, key_out(), c.out);
}

pub proof fn lemma_bed_side_round_trip(s: Seq<u8>, i: int, name: Seq<u8>, c: BedTempSide)
    requires
        name.len() <= u64::MAX,
        at(s, i, spec_enc_bed_side(name, c)),
    ensures
        spec_parse_bed_side(s, i, name) == Ok::<(BedTempSide, int), DecodeErr>(
            (c, i + spec_enc_bed_side(name, c).len()),
        ),
{
    reveal(spec_enc_bed_side);
    reveal(spec_parse_bed_side);
    let e1 = spec_enc_text(name);
    let e2 = spec_enc_map_head(3);
    let e3 = spec_enc_field_uint(key_cen(), c.cen as u64);
    let e4 = spec_enc_field_uint(key_in(), c.inner as u64);
    let e5 = spec_enc_field_uint(key_out(), c.out as u64);
    lemma_at_concat(s, i, e1 + e2 + e3 + e4, e5);
    lemma_at_concat(s, i, e1 + e2 + e3, e4);
    lemma_at_concat(s, i, e1 + e2, e3);
    lemma_at_concat(s, i, e1, e2);
    let i1 = i + e1.len();
    let i2 = i1 + e2.len();
    let i3 = i2 + e3.len();
    let i4 = i3 + e4.len();
    lemma_text_round_trip(s, i, name);
    lemma_map_head_round_trip(s, i1, 3);
    lemma_field_u16_round_trip(s, i2, key_cen(), c.cen);
    lemma_field_u16_round_trip(s, i3, key_in(), c.inner);
    lemma_field_u16_round_trip(s, i4, key_out(), c.out);
}

/// Decoding the canonical encoding of any well-formed sensor record, at any
/// position and whatever follows it, yields back exactly that record.
#[verifier::rlimit(100)]
#[verifier::spinoff_prover]
proof fn lemma_cap_tail_round_trip(s: Seq<u8>, i: int, c: CapSenseV)
    requires
        c.left.status.len() <= u64::MAX,
        c.right.status.len() <= u64::MAX,
        at(s, i, spec_enc_cap_tail(c)),
    ensures
        spec_parse_cap_tail(s, i) == Ok::<(SensorRecordV, int), DecodeErr>(
            (SensorRecordV::CapSense(c), i + spec_enc_cap_tail(c).len()),
        ),
{
    reveal(spec_enc_cap_tail);
    reveal(spec_parse_cap_tail);
    let e1 = spec_enc_field_uint(key_ts(), c.ts);
    let e2 = spec_enc_cap_side(key_left(), c.left);
    let e3 = spec_enc_cap_side(key_right(), c.right);
    lemma_at_concat(s, i, e1 + e2, e3);
    lemma_at_concat(s, i, e1, e2);
    let i1 = i + e1.len();
    let i2 = i1 + e2.len();
    lemma_field_uint_round_trip(s, i, key_ts(), c.ts);
    lemma_cap_side_round_trip(s, i1, key_left(), c.left);
    lemma_cap_side_round_trip(s, i2, key_right(), c.right);
}

#[verifier::rlimit(100)]
#[verifier::spinoff_prover]
proof fn lemma_piezo_tail_round_trip(s: Seq<u8>, i: int, p: PiezoDualV)
    requires
        p.left1.len() <= u64::MAX,
        p.left2.len() <= u64::MAX,
        p.right1.len() <= u64::MAX,
        p.right2.len() <= u64::MAX,
        at(s, i, spec_enc_piezo_tail(p)),
    ensures
        spec_parse_piezo_tail(s, i) == Ok::<(SensorRecordV, int), DecodeErr>(
            (SensorRecordV::PiezoDual(p), i + spec_enc_piezo_tail(p).len()),
        ),
{
    reveal(spec_enc_piezo_tail);
    reveal(spec_parse_piezo_tail);
    let e1 = spec_enc_field_uint(key_ts(), p.ts);
    let e2 = spec_enc_field_uint(key_adc(), p.adc as u64);
    let e3 = spec_enc_field_uint(key_freq(), p.freq as u64);
    let e4 = spec_enc_field_uint(key_gain(), p.gain as u64);
    let e5 = spec_enc_field_bytes(key_left1(), p.left1);
    let e6 = spec_enc_field_bytes(key_left2(), p.left2);
    let e7 = spec_enc_field_bytes(key_right1(), p.right1);
    let e8 = spec_enc_field_bytes(key_right2(), p.right2);
    let i1 = i + e1.len();
    let i2 = i1 + e2.len();
    let i3 = i2 + e3.len();
    let i4 = i3 + e4.len();
    let i5 = i4 + e5.len();
    let i6 = i5 + e6.len();
    let i7 = i6 + e7.len();
    assert(at(s, i, e1 + e2 + e3 + e4 + e5 + e6 + e7) && at(s, i7, e8)) by {
        lemma_at_concat(s, i, e1 + e2 + e3 + e4 + e5 + e6 + e7, e8);
    }
    assert(at(s, i, e1 + e2 + e3 + e4 + e5 + e6) && at(s, i6, e7)) by {
        lemma_at_concat(s, i, e1 + e2 + e3 + e4 + e5 + e6, e7);
    }
    assert(at(s, i, e1 + e2 + e3 + e4 + e5) && at(s, i5, e6)) by {
        lemma_at_concat(s, i, e1 + e2 + e3 + e4 + e5, e6);
    }
    assert(at(s, i, e1 + e2 + e3 + e4) && at(s, i4, e5)) by {
        lemma_at_concat(s, i, e1 + e2 + e3 + e4, e5);
    }
    assert(at(s, i, e1 + e2 + e3) && at(s, i3, e4)) by {
        lemma_at_concat(s, i, e1 + e2 + e3, e4);
    }
    assert(at(s, i, e1 + e2) && at(s, i2, e3)) by {
        lemma_at_concat(s, i, e1 + e2, e3);
    }
    assert(at(s, i, e1) && at(s, i1, e2)) by {
        lemma_at_concat(s, i, e1, e2);
    }
    assert(spec_parse_field_uint(s, i, key_ts()) == Ok::<(u64, int), DecodeErr>((p.ts, i1))) by {
        lemma_field_uint_round_trip(s, i, key_ts(), p.ts);
    }
    assert(spec_parse_field_u8(s, i1, key_adc()) == Ok::<(u8, int), DecodeErr>((p.adc, i2))) by {
        lemma_field_u8_round_trip(s, i1, key_adc(), p.adc);
    }
    assert(spec_parse_field_u16(s, i2, key_freq()) == Ok::<(u16, int), DecodeErr>((p.freq, i3))) by {
        lemma_field_u16_round_trip(s, i2, key_freq(), p.freq);
    }
    assert(spec_parse_field_u16(s, i3, key_gain()) == Ok::<(u16, int), DecodeErr>((p.gain, i4))) by {
        lemma_field_u16_round_trip(s, i3, key_gain(), p.gain);
    }
    assert(spec_parse_field_bytes(s, i4, key_left1()) == Ok::<(Seq<u8>, int), DecodeErr>((
        p.left1,
        i5,
    ))) by {
        lemma_field_bytes_round_trip(s, i4, key_left1(), p.left1);
    }
    assert(spec_parse_field_bytes(s, i5, key_left2()) == Ok::<(Seq<u8>, int), DecodeErr>((
        p.left2,
        i6,
    ))) by {
        lemma_field_bytes_round_trip(s, i5, key_left2(), p.left2);
    }
    assert(spec_parse_field_bytes(s, i6, key_right1()) == Ok::<(Seq<u8>, int), DecodeErr>((
        p.right1,
        i7,
    ))) by {
        lemma_field_bytes_round_trip(s, i6, key_right1(), p.right1);
    }
    assert(spec_parse_field_bytes(s, i7, key_right2()) == Ok::<(Seq<u8>, int), DecodeErr>((
        p.right2,
        i7 + e8.len(),
    ))) by {
        lemma_field_bytes_round_trip(s, i7, key_right2(), p.right2);
    }
}

#[verifier::rlimit(100)]
#[verifier::spinoff_prover]
proof fn lemma_bed_tail_round_trip(s: Seq<u8>, i: int, b: BedTemp)
    requires
        at(s, i, spec_enc_bed_tail(b)),
    ensures
        spec_parse_bed_tail(s, i) == Ok::<(SensorRecordV, int), DecodeErr>(
            (SensorRecordV::BedTemp(b), i + spec_enc_bed_tail(b).len()),
        ),
{
    reveal(spec_enc_bed_tail);
    reveal(spec_parse_bed_tail);
    let e1 = spec_enc_field_uint(key_ts(), b.ts);
    let e2 = spec_enc_field_uint(key_mcu(), b.mcu as u64);
    let e3 = spec_enc_field_uint(key_amb(), b.amb as u64);
    let e4 = spec_enc_field_uint(key_hu(), b.hu as u64);
    let e5 = spec_enc_bed_side(key_left(), b.left);
    let e6 = spec_enc_bed_side(key_right(), b.right);
    lemma_at_concat(s, i, e1 + e2 + e3 + e4 + e5, e6);
    lemma_at_concat(s, i, e1 + e2 + e3 + e4, e5);
    lemma_at_concat(s, i, e1 + e2 + e3, e4);
    lemma_at_concat(s, i, e1 + e2, e3);
    lemma_at_concat(s, i, e1, e2);
    let i1 = i + e1.len();
    let i2 = i1 + e2.len();
    let i3 = i2 + e3.len();
    let i4 = i3 + e4.len();
    let i5 = i4 + e5.len();
    lemma_field_uint_round_trip(s, i, key_ts(), b.ts);
    lemma_field_u16_round_trip(s, i1, key_mcu(), b.mcu);
    lemma_field_u16_round_trip(s, i2, key_amb(), b.amb);
    lemma_field_u16_round_trip(s, i3, key_hu(), b.hu);
    lemma_bed_side_round_trip(s, i4, key_left(), b.left);
    lemma_bed_side_round_trip(s, i5, key_right(), b.right);
}

#[verifier::rlimit(100)]
#[verifier::spinoff_prover]
proof fn lemma_log_tail_round_trip(s: Seq<u8>, i: int, l: LogRecordV)
    requires
        l.msg.len() <= u64::MAX,
        l.level.len() <= u64::MAX,
        at(s, i, spec_enc_log_tail(l)),
    ensures
        spec_parse_log_tail(s, i) == Ok::<(SensorRecordV, int), DecodeErr>(
            (SensorRecordV::LogMsg(l), i + spec_enc_log_tail(l).len()),
        ),
{
    reveal(spec_enc_log_tail);
    reveal(spec_parse_log_tail);
    let e1 = spec_enc_field_uint(key_ts(), l.ts);
    let e2 = spec_enc_field_text(key_msg(), l.msg);
    let e3 = spec_enc_field_text(key_level(), l.level);
    lemma_at_concat(s, i, e1 + e2, e3);
    lemma_at_concat(s, i, e1, e2);
    let i1 = i + e1.len();
    let i2 = i1 + e2.len();
    lemma_field_uint_round_trip(s, i, key_ts(), l.ts);
    lemma_field_text_round_trip(s, i1, key_msg(), l.msg);
    lemma_field_text_round_trip(s, i2, key_level(), l.level);
}

#[verifier::rlimit(100)]
#[verifier::spinoff_prover]
proof fn lemma_frz_tail_round_trip(s: Seq<u8>, i: int, f: FrzTemp)
    requires
        at(s, i, spec_enc_frz_tail(f)),
    ensures
        spec_parse_frz_tail(s, i) == Ok::<(SensorRecordV, int), DecodeErr>(
            (SensorRecordV::FrzTemp(f), i + spec_enc_frz_tail(f).len()),
        ),
{
    reveal(spec_enc_frz_tail);
    reveal(spec_parse_frz_tail);
    let e1 = spec_enc_field_uint(key_ts(), f.ts);
    let e2 = spec_enc_field_uint(key_amb(), f.amb as u64);
    let e3 = spec_enc_field_uint(key_hs(), f.hs as u64);
    let e4 = spec_enc_field_uint(key_left(), f.left as u64);
    let e5 = spec_enc_field_uint(key_right(), f.right as u64);
    lemma_at_concat(s, i, e1 + e2 + e3 + e4, e5);
    lemma_at_concat(s, i, e1 + e2 + e3, e4);
    lemma_at_concat(s, i, e1 + e2, e3);
    lemma_at_concat(s, i, e1, e2);
    let i1 = i + e1.len();
    let i2 = i1 + e2.len();
    let i3 = i2 + e3.len();
    let i4 = i3 + e4.len();
    lemma_field_uint_round_trip(s, i, key_ts(), f.ts);
    lemma_field_u16_round_trip(s, i1, key_amb(), f.amb);
    lemma_field_u16_round_trip(s, i2, key_hs(), f.hs);
    lemma_field_u16_round_trip(s, i3, key_left(), f.left);
    lemma_field_u16_round_trip(s, i4, key_right(), f.right);
}

/// The five discriminator strings are pairwise distinct.
proof fn lemma_tags_distinct()
    ensures
        val_cap_sense() != val_piezo_dual(),
        val_cap_sense() != val_bed_temp(),
        val_cap_sense() != val_log(),
        val_cap_sense() != val_frz_temp(),
        val_piezo_dual() != val_bed_temp(),
        val_piezo_dual() != val_log(),
        val_piezo_dual() != val_frz_temp(),
        val_bed_temp() != val_log(),
        val_bed_temp() != val_frz_temp(),
        val_log() != val_frz_temp(),
{
    assert(val_bed_temp()[0] != val_frz_temp()[0]);
}

#[verifier::rlimit(100)]
#[verifier::spinoff_prover]
proof fn lemma_sensor_dispatch(s: Seq<u8>, i: int, r: SensorRecordV, count: u64, tag: Seq<u8>, tail: Seq<u8>)
    requires
        ({
            let e1 = spec_enc_map_head(count);
            let e2 = spec_enc_field_text(key_type(), tag);
            &&& at(s, i, e1 + e2 + tail)
            &&& tag.len() <= u64::MAX
            &&& match r {
                SensorRecordV::CapSense(c) => count == 4 && tag == val_cap_sense() && tail
                    == spec_enc_cap_tail(c) && spec_parse_cap_tail(
                    s,
                    i + e1.len() + e2.len(),
                ) == Ok::<(SensorRecordV, int), DecodeErr>((r, i + e1.len() + e2.len() + tail.len())),
                SensorRecordV::PiezoDual(p) => count == 9 && tag == val_piezo_dual() && tail
                    == spec_enc_piezo_tail(p) && spec_parse_piezo_tail(
                    s,
                    i + e1.len() + e2.len(),
                ) == Ok::<(SensorRecordV, int), DecodeErr>((r, i + e1.len() + e2.len() + tail.len())),
                SensorRecordV::BedTemp(b) => count == 7 && tag == val_bed_temp() && tail
                    == spec_enc_bed_tail(b) && spec_parse_bed_tail(
                    s,
                    i + e1.len() + e2.len(),
                ) == Ok::<(SensorRecordV, int), DecodeErr>((r, i + e1.len() + e2.len() + tail.len())),
                SensorRecordV::LogMsg(l) => count == 4 && tag == val_log() && tail
                    == spec_enc_log_tail(l) && spec_parse_log_tail(
                    s,
                    i + e1.len() + e2.len(),
                ) == Ok::<(SensorRecordV, int), DecodeErr>((r, i + e1.len() + e2.len() + tail.len())),
                SensorRecordV::FrzTemp(f) => count == 6 && tag == val_frz_temp() && tail
                    == spec_enc_frz_tail(f) && spec_parse_frz_tail(
                    s,
                    i + e1.len() + e2.len(),
                ) == Ok::<(SensorRecordV, int), DecodeErr>((r, i + e1.len() + e2.len() + tail.len())),
            }
        }),
    ensures
        spec_parse_sensor(s, i) == Ok::<(SensorRecordV, int), DecodeErr>(
            (r, i + (spec_enc_map_head(count) + spec_enc_field_text(key_type(), tag) + tail).len()),
        ),
{
    reveal(spec_parse_sensor);
    let e1 = spec_enc_map_head(count);
    let e2 = spec_enc_field_text(key_type(), tag);
    lemma_at_concat(s, i, e1 + e2, tail);
    lemma_at_concat(s, i, e1, e2);
    lemma_map_head_round_trip(s, i, count);
    lemma_field_text_round_trip(s, i + e1.len(), key_type(), tag);
    lemma_tags_distinct();
}

/// Decoding the canonical encoding of any well-formed sensor record, at any
/// position and whatever follows it, yields back exactly that record.
pub proof fn lemma_sensor_round_trip(s: Seq<u8>, i: int, r: SensorRecordV)
    requires
        wf_sensor(r),
        at(s, i, spec_enc_sensor(r)),
    ensures
        spec_parse_sensor(s, i) == Ok::<(SensorRecordV, int), DecodeErr>(
            (r, i + spec_enc_sensor(r).len()),
        ),
{
    reveal(spec_enc_sensor);
    match r {
        SensorRecordV::CapSense(c) => {
            let e1 = spec_enc_map_head(4);
            let e2 = spec_enc_field_text(key_type(), val_cap_sense());
            let tail = spec_enc_cap_tail(c);
            lemma_at_concat(s, i, e1 + e2, tail);
            lemma_cap_tail_round_trip(s, i + e1.len() + e2.len(), c);
            lemma_sensor_dispatch(s, i, r, 4, val_cap_sense(), tail);
        },
        SensorRecordV::PiezoDual(p) => {
            let e1 = spec_enc_map_head(9);
            let e2 = spec_enc_field_text(key_type(), val_piezo_dual());
            let tail = spec_enc_piezo_tail(p);
            lemma_at_concat(s, i, e1 + e2, tail);
            lemma_piezo_tail_round_trip(s, i + e1.len() + e2.len(), p);
            lemma_sensor_dispatch(s, i, r, 9, val_piezo_dual(), tail);
        },
        SensorRecordV::BedTemp(b) => {
            let e1 = spec_enc_map_head(7);
            let e2 = spec_enc_field_text(key_type(), val_bed_temp());
            let tail = spec_enc_bed_tail(b);
            lemma_at_concat(s, i, e1 + e2, tail);
            lemma_bed_tail_round_trip(s, i + e1.len() + e2.len(), b);
            lemma_sensor_dispatch(s, i, r, 7, val_bed_temp(), tail);
        },
        SensorRecordV::LogMsg(l) => {
            let e1 = spec_enc_map_head(4);
            let e2 = spec_enc_field_text(key_type(), val_log());
            let tail = spec_enc_log_tail(l);
            lemma_at_concat(s, i, e1 + e2, tail);
            lemma_log_tail_round_trip(s, i + e1.len() + e2.len(), l);
            lemma_sensor_dispatch(s, i, r, 4, val_log(), tail);
        },
        SensorRecordV::FrzTemp(f) => {
            let e1 = spec_enc_map_head(6);
            let e2 = spec_enc_field_text(key_type(), val_frz_temp());
            let tail = spec_enc_frz_tail(f);
            lemma_at_concat(s, i, e1 + e2, tail);
            lemma_frz_tail_round_trip(s, i + e1.len() + e2.len(), f);
            lemma_sensor_dispatch(s, i, r, 6, val_frz_temp(), tail);
        },
    }
}

/// Decoding the canonical encoding of a well-formed batch item, at any
/// position and whatever follows it, yields back exactly that item.
pub proof fn lemma_batch_item_round_trip(s: Seq<u8>, i: int, b: BatchItemV)
    requires
        wf_batch_item(b),
        at(s, i, spec_enc_batch_item(b)),
    ensures
        spec_parse_batch_item(s, i) == Ok::<(BatchItemV, int), DecodeErr>(
            (b, i + spec_enc_batch_item(b).len()),
        ),
{
    reveal(spec_enc_batch_item);
    reveal(spec_parse_batch_item);
    let e1 = spec_enc_map_head(2);
    let e2 = spec_enc_field_uint(key_seq(), b.seq as u64);
    let e3 = spec_enc_field_bytes(key_data(), b.data);
    lemma_at_concat(s, i, e1 + e2, e3);
    lemma_at_concat(s, i, e1, e2);
    let i1 = i + e1.len();
    let i2 = i1 + e2.len();
    lemma_map_head_round_trip(s, i, 2);
    lemma_field_uint_round_trip(s, i1, key_seq(), b.seq as u64);
    lemma_field_bytes_round_trip(s, i2, key_data(), b.data);
}


// ---------------------------------------------------------------------------
// Envelope round trip.
// ---------------------------------------------------------------------------

/// A text string parses at `i` and reads `k`.
pub open spec fn next_key_is(s: Seq<u8>, i: int, k: Seq<u8>) -> bool {
    spec_parse_text(s, i) matches Ok(t) && t.0 == k
}

/// An optional `u32` widened to the wire's integer type.
pub open spec fn id64(o: Option<u32>) -> Option<u64> {
    match o {
        Some(v) => Some(v as u64),
        None => None,
    }
}

proof fn lemma_opt_uint_present(s: Seq<u8>, i: int, rem: u64, name: Seq<u8>, v: u64)
    requires
        rem > 0,
        name.len() <= u64::MAX,
        at(s, i, spec_enc_field_uint(name, v)),
    ensures
        spec_opt_field_uint(s, i, rem, name) == Ok::<(Option<u64>, int, u64), DecodeErr>(
            (Some(v), i + spec_enc_field_uint(name, v).len(), (rem - 1) as u64),
        ),
{
    reveal(spec_enc_field_uint);
    lemma_at_concat(s, i, spec_enc_text(name), spec_enc_uint(v));
    lemma_text_round_trip(s, i, name);
    lemma_uint_round_trip(s, i + spec_enc_text(name).len() as int, v);
}

proof fn lemma_opt_text_present(s: Seq<u8>, i: int, rem: u64, name: Seq<u8>, b: Seq<u8>)
    requires
        rem > 0,
        name.len() <= u64::MAX,
        b.len() <= u64::MAX,
        at(s, i, spec_enc_field_text(name, b)),
    ensures
        spec_opt_field_text(s, i, rem, name) == Ok::<(Option<Seq<u8>>, int, u64), DecodeErr>(
            (Some(b), i + spec_enc_field_text(name, b).len(), (rem - 1) as u64),
        ),
{
    reveal(spec_enc_field_text);
    lemma_at_concat(s, i, spec_enc_text(name), spec_enc_text(b));
    lemma_text_round_trip(s, i, name);
    lemma_text_round_trip(s, i + spec_enc_text(name).len() as int, b);
}

proof fn lemma_opt_bytes_present(s: Seq<u8>, i: int, rem: u64, name: Seq<u8>, b: Seq<u8>)
    requires
        rem > 0,
        name.len() <= u64::MAX,
        b.len() <= u64::MAX,
        at(s, i, spec_enc_field_bytes(name, b)),
    ensures
        spec_opt_field_bytes(s, i, rem, name) == Ok::<(Option<Seq<u8>>, int, u64), DecodeErr>(
            (Some(b), i + spec_enc_field_bytes(name, b).len(), (rem - 1) as u64),
        ),
{
    reveal(spec_enc_field_bytes);
    lemma_at_concat(s, i, spec_enc_text(name), spec_enc_bytes(b));
    lemma_text_round_trip(s, i, name);
    lemma_bytes_round_trip(s, i + spec_enc_text(name).len() as int, b);
}

proof fn lemma_opt_uint_absent(s: Seq<u8>, i: int, rem: u64, name: Seq<u8>, other: Seq<u8>)
    requires
        rem > 0 ==> next_key_is(s, i, other) && other != name,
    ensures
        spec_opt_field_uint(s, i, rem, name) == Ok::<(Option<u64>, int, u64), DecodeErr>(
            (None, i, rem),
        ),
{
}

proof fn lemma_opt_text_absent(s: Seq<u8>, i: int, rem: u64, name: Seq<u8>, other: Seq<u8>)
    requires
        rem > 0 ==> next_key_is(s, i, other) && other != name,
    ensures
        spec_opt_field_text(s, i, rem, name) == Ok::<(Option<Seq<u8>>, int, u64), DecodeErr>(
            (None, i, rem),
        ),
{
}

proof fn lemma_opt_bytes_absent(s: Seq<u8>, i: int, rem: u64, name: Seq<u8>, other: Seq<u8>)
    requires
        rem > 0 ==> next_key_is(s, i, other) && other != name,
    ensures
        spec_opt_field_bytes(s, i, rem, name) == Ok::<(Option<Seq<u8>>, int, u64), DecodeErr>(
            (None, i, rem),
        ),
{
}

#[verifier::rlimit(100)]
#[verifier::spinoff_prover]
proof fn lemma_env_opts_round_trip(s: Seq<u8>, i: int, e: EnvelopeV)
    requires
        wf_envelope(e),
        at(s, i, spec_env_opts_enc(e)),
    ensures
        spec_parse_env_opts(s, i, spec_env_opts_count(e)) == Ok::<
            ((Option<u64>, Option<Seq<u8>>, Option<Seq<u8>>, Option<Seq<u8>>), int),
            DecodeErr,
        >(((id64(e.id), e.version, e.dev, e.stream), i + spec_env_opts_enc(e).len())),
{
    reveal(spec_env_opts_enc);
    reveal(spec_parse_env_opts);
    let t1 = spec_enc_opt_uint(key_id(), e.id);
    let t2 = spec_enc_opt_text(key_version(), e.version);
    let t3 = spec_enc_opt_text(key_dev(), e.dev);
    let t4 = spec_enc_opt_bytes(key_stream(), e.stream);
    lemma_at_concat(s, i, t1 + t2 + t3, t4);
    lemma_at_concat(s, i, t1 + t2, t3);
    lemma_at_concat(s, i, t1, t2);
    let p2 = i + t1.len();
    let p3 = p2 + t2.len();
    let p4 = p3 + t3.len();
    let rem0 = spec_env_opts_count(e);
    let rem1 = (rem0 - opt_count(e.id)) as u64;
    let rem2 = (rem1 - opt_count(e.version)) as u64;
    let rem3 = (rem2 - opt_count(e.dev)) as u64;
    match e.version {
        Some(b) => {
            reveal(spec_enc_field_text);
            lemma_at_concat(s, p2, spec_enc_text(key_version()), spec_enc_text(b));
            lemma_text_round_trip(s, p2, key_version());
            assert(next_key_is(s, p2, key_version()));
        },
        None => {},
    }
    match e.dev {
        Some(b) => {
            reveal(spec_enc_field_text);
            lemma_at_concat(s, p3, spec_enc_text(key_dev()), spec_enc_text(b));
            lemma_text_round_trip(s, p3, key_dev());
            assert(next_key_is(s, p3, key_dev()));
        },
        None => {},
    }
    match e.stream {
        Some(b) => {
            reveal(spec_enc_field_bytes);
            lemma_at_concat(s, p4, spec_enc_text(key_stream()), spec_enc_bytes(b));
            lemma_text_round_trip(s, p4, key_stream());
            assert(next_key_is(s, p4, key_stream()));
        },
        None => {},
    }
    match e.id {
        Some(v) => {
            lemma_opt_uint_present(s, i, rem0, key_id(), v as u64);
        },
        None => {
            assert(t1.len() == 0);
            if rem0 > 0 {
                if e.version matches Some(_b) {
                    lemma_opt_uint_absent(s, i, rem0, key_id(), key_version());
                } else if e.dev matches Some(_b) {
                    lemma_opt_uint_absent(s, i, rem0, key_id(), key_dev());
                } else {
                    lemma_opt_uint_absent(s, i, rem0, key_id(), key_stream());
                }
            } else {
                lemma_opt_uint_absent(s, i, rem0, key_id(), key_id());
            }
        },
    }
    assert(spec_opt_field_uint(s, i, rem0, key_id()) == Ok::<(Option<u64>, int, u64), DecodeErr>(
        (id64(e.id), p2, rem1),
    ));
    match e.version {
        Some(b) => {
            lemma_opt_text_present(s, p2, rem1, key_version(), b);
        },
        None => {
            assert(t2.len() == 0);
            if rem1 > 0 {
                if e.dev matches Some(_b) {
                    lemma_opt_text_absent(s, p2, rem1, key_version(), key_dev());
                } else {
                    lemma_opt_text_absent(s, p2, rem1, key_version(), key_stream());
                }
            } else {
                lemma_opt_text_absent(s, p2, rem1, key_version(), key_version());
            }
        },
    }
    assert(spec_opt_field_text(s, p2, rem1, key_version()) == Ok::<
        (Option<Seq<u8>>, int, u64),
        DecodeErr,
    >((e.version, p3, rem2)));
    match e.dev {
        Some(b) => {
            lemma_opt_text_present(s, p3, rem2, key_dev(), b);
        },
        None => {
            assert(t3.len() == 0);
            if rem2 > 0 {
                lemma_opt_text_absent(s, p3, rem2, key_dev(), key_stream());
            } else {
                lemma_opt_text_absent(s, p3, rem2, key_dev(), key_dev());
            }
        },
    }
    assert(spec_opt_field_text(s, p3, rem2, key_dev()) == Ok::<
        (Option<Seq<u8>>, int, u64),
        DecodeErr,
    >((e.dev, p4, rem3)));
    match e.stream {
        Some(b) => {
            lemma_opt_bytes_present(s, p4, rem3, key_stream(), b);
        },
        None => {
            assert(t4.len() == 0);
            lemma_opt_bytes_absent(s, p4, rem3, key_stream(), key_stream());
        },
    }
    assert(spec_opt_field_bytes(s, p4, rem3, key_stream()) == Ok::<
        (Option<Seq<u8>>, int, u64),
        DecodeErr,
    >((e.stream, p4 + t4.len(), 0)));
}

/// Decoding the canonical encoding of any well-formed envelope, at any
/// position and whatever follows it, yields back exactly that envelope.
#[verifier::rlimit(100)]
#[verifier::spinoff_prover]
pub proof fn lemma_envelope_round_trip(s: Seq<u8>, i: int, e: EnvelopeV)
    requires
        wf_envelope(e),
        at(s, i, spec_enc_envelope(e)),
    ensures
        spec_parse_envelope(s, i) == Ok::<(EnvelopeV, int), DecodeErr>(
            (e, i + spec_enc_envelope(e).len()),
        ),
{
    reveal(spec_enc_envelope);
    reveal(spec_parse_envelope);
    let e1 = spec_enc_map_head(spec_env_count(e));
    let e2 = spec_enc_field_text(key_part(), e.part);
    let e3 = spec_enc_field_text(key_proto(), e.proto);
    let e4 = spec_env_opts_enc(e);
    lemma_at_concat(s, i, e1 + e2 + e3, e4);
    lemma_at_concat(s, i, e1 + e2, e3);
    lemma_at_concat(s, i, e1, e2);
    let i1 = i + e1.len();
    let i2 = i1 + e2.len();
    let i3 = i2 + e3.len();
    lemma_map_head_round_trip(s, i, spec_env_count(e));
    lemma_field_text_round_trip(s, i1, key_part(), e.part);
    lemma_field_text_round_trip(s, i2, key_proto(), e.proto);
    lemma_env_opts_round_trip(s, i3, e);
    assert(2 <= spec_env_count(e) <= 6);
    assert((spec_env_count(e) - 2) as u64 == spec_env_opts_count(e));
    match e.id {
        Some(v) => {
            assert(v as u64 <= u32::MAX as u64);
            assert((v as u64) as u32 == v);
        },
        None => {},
    }
}


/// Round trip: decoding the encoding of any constructible sensor record
/// yields a value equal to the original in all fields, consuming exactly
/// the encoded bytes.
pub proof fn lemma_sensor_encode_decode(r: SensorRecordV)
    requires
        wf_sensor(r),
    ensures
        spec_parse_sensor(spec_enc_sensor(r), 0) == Ok::<(SensorRecordV, int), DecodeErr>(
            (r, spec_enc_sensor(r).len() as int),
        ),
{
    lemma_at_self(spec_enc_sensor(r));
    lemma_sensor_round_trip(spec_enc_sensor(r), 0, r);
}

/// Round trip: decoding the encoding of any well-formed envelope yields a
/// value equal to the original, consuming exactly the encoded bytes.
pub proof fn lemma_envelope_encode_decode(e: EnvelopeV)
    requires
        wf_envelope(e),
    ensures
        spec_parse_envelope(spec_enc_envelope(e), 0) == Ok::<(EnvelopeV, int), DecodeErr>(
            (e, spec_enc_envelope(e).len() as int),
        ),
{
    lemma_at_self(spec_enc_envelope(e));
    lemma_envelope_round_trip(spec_enc_envelope(e), 0, e);
}

/// Round trip for one framed batch item.
pub proof fn lemma_batch_item_encode_decode(b: BatchItemV)
    requires
        wf_batch_item(b),
    ensures
        spec_parse_batch_item(spec_enc_batch_item(b), 0) == Ok::<(BatchItemV, int), DecodeErr>(
            (b, spec_enc_batch_item(b).len() as int),
        ),
{
    lemma_at_self(spec_enc_batch_item(b));
    lemma_batch_item_round_trip(spec_enc_batch_item(b), 0, b);
}

/// A batch-item encoding is never empty: its map head alone takes a byte.
pub proof fn lemma_batch_item_enc_len(b: BatchItemV)
    ensures
        spec_enc_batch_item(b).len() >= 1,
{
    reveal(spec_enc_batch_item);
    reveal(spec_enc_head);
}

} // verus!
