//! Command-channel logic: the command set, the side parameter, the textual
//! frame written to the firmware's control socket, and the decision and
//! completion of one `execute` call.
//!
//! The channel owns at most one live firmware connection. These functions
//! decide and frame; the caller owns the socket: it tests the plan, writes
//! the frame under the channel's lock, reads with its short bounded timeout,
//! and hands whatever bytes came back to `finish_execute` unmodified.

use vstd::prelude::*;

use crate::codec::bytes_eq;
use crate::codec::spec_enc_field_uint;
use crate::codec::spec_enc_field_text;
use crate::codec::spec_enc_map_head;
use crate::codec::enc_field_uint_into;
use crate::codec::enc_field_text_into;
use crate::codec::enc_map_head_into;

verus! {

/// Which side of the bed a command addresses.
#[derive(Clone, Copy, PartialEq, Eq, Structural, Debug)]
pub enum Side {
    Left,
    Right,
}

/// The commands the gateway relays; their numeric codes are opaque firmware
/// selectors.
#[derive(Clone, Copy, PartialEq, Eq, Structural, Debug)]
pub enum Command {
    Hello,
    Variables,
    Alarm(Side),
    AlarmClear,
    Settings,
    HeatDuration(Side),
    HeatLevel(Side),
    Prime,
}

/// The firmware code of each command.
pub open spec fn spec_command_code(c: Command) -> u64 {
    match c {
        Command::Hello => 0,
        Command::Alarm(Side::Left) => 5,
        Command::Alarm(Side::Right) => 6,
        Command::Settings => 8,
        Command::HeatDuration(Side::Left) => 9,
        Command::HeatDuration(Side::Right) => 10,
        Command::HeatLevel(Side::Left) => 11,
        Command::HeatLevel(Side::Right) => 12,
        Command::Prime => 13,
        Command::Variables => 14,
        Command::AlarmClear => 16,
    }
}

/// The firmware code of a command.
pub fn command_code(c: Command) -> (r: u64)
    ensures
        r == spec_command_code(c),
{
    match c {
        Command::Hello => 0,
        Command::Alarm(Side::Left) => 5,
        Command::Alarm(Side::Right) => 6,
        Command::Settings => 8,
        Command::HeatDuration(Side::Left) => 9,
        Command::HeatDuration(Side::Right) => 10,
        Command::HeatLevel(Side::Left) => 11,
        Command::HeatLevel(Side::Right) => 12,
        Command::Prime => 13,
        Command::Variables => 14,
        Command::AlarmClear => 16,
    }
}

pub open spec fn side_left() -> Seq<u8> {
    seq![108u8, 101u8, 102u8, 116u8]
}

pub open spec fn side_right() -> Seq<u8> {
    seq![114u8, 105u8, 103u8, 104u8, 116u8]
}

/// Which side a caller-supplied parameter names: `Some` exactly for the two
/// recognized spellings. Anything else is a caller error and is rejected
/// before any socket work.
pub open spec fn spec_parse_side(s: Seq<u8>) -> Option<Side> {
    if s == side_left() {
        Some(Side::Left)
    } else if s == side_right() {
        Some(Side::Right)
    } else {
        None
    }
}

/// Recognize a side parameter, rejecting everything but the two spellings.
pub fn parse_side(s: &[u8]) -> (r: Option<Side>)
    ensures
        r == spec_parse_side(s@),
{
    let left: [u8; 4] = [108u8, 101u8, 102u8, 116u8];
    let right: [u8; 5] = [114u8, 105u8, 103u8, 104u8, 116u8];
    proof {
        assert(left@ =~= side_left());
        assert(right@ =~= side_right());
    }
    if bytes_eq(s, left.as_slice()) {
        Some(Side::Left)
    } else if bytes_eq(s, right.as_slice()) {
        Some(Side::Right)
    } else {
        None
    }
}

/// The decimal digits of `n`, most significant first.
pub open spec fn spec_dec_digits(n: u64) -> Seq<u8>
    decreases n,
{
    if n < 10 {
        seq![(48 + n) as u8]
    } else {
        spec_dec_digits(n / 10) + seq![(48 + n % 10) as u8]
    }
}

/// Render `n` in decimal.
pub fn dec_digits(n: u64) -> (r: Vec<u8>)
    ensures
        r@ == spec_dec_digits(n),
    decreases n,
{
    if n < 10 {
        let mut out: Vec<u8> = Vec::new();
        out.push(48 + (n as u8));
        assert(out@ =~= spec_dec_digits(n));
        out
    } else {
        let mut out = dec_digits(n / 10);
        out.push(48 + ((n % 10) as u8));
        assert(out@ =~= spec_dec_digits(n));
        out
    }
}

/// One frame of the control protocol: the command code in decimal, then the
/// hex payload line if there is one, closed by the blank line.
pub open spec fn spec_command_frame(code: u64, payload: Option<Seq<u8>>) -> Seq<u8> {
    match payload {
        None => spec_dec_digits(code) + seq![10u8, 10u8],
        Some(p) => spec_dec_digits(code) + seq![10u8] + p + seq![10u8, 10u8],
    }
}

/// Build one control frame.
pub fn command_frame(code: u64, payload: Option<&Vec<u8>>) -> (r: Vec<u8>)
    ensures
        r@ == spec_command_frame(
            code,
            match payload {
                Some(p) => Some(p@),
                None => None,
            },
        ),
{
    let mut out = dec_digits(code);
    match payload {
        None => {
            out.push(10);
            out.push(10);
            assert(out@ =~= spec_dec_digits(code) + seq![10u8, 10u8]);
        },
        Some(p) => {
            out.push(10);
            let ghost mid = out@;
            let mut k: usize = 0;
            while k < p.len()
                invariant
                    k <= p@.len(),
                    out@ == mid + p@.take(k as int),
                decreases p@.len() - k,
            {
                out.push(p[k]);
                assert(mid + p@.take(k as int) + seq![p@[k as int]] =~= mid + p@.take(
                    k as int + 1,
                ));
                k = k + 1;
            }
            out.push(10);
            out.push(10);
            assert(p@.take(p@.len() as int) =~= p@);
            assert(out@ =~= spec_dec_digits(code) + seq![10u8] + p@ + seq![10u8, 10u8]);
        },
    }
    out
}

/// The alarm settings relayed to the firmware: intensity, duration, pattern
/// and the alarm's epoch timestamp. Their device-side meaning is opaque to
/// the gateway.
pub struct AlarmSettings {
    pub pl: u8,
    pub du: u16,
    pub pi: Vec<u8>,
    pub tt: u64,
}

pub struct AlarmSettingsV {
    pub pl: u8,
    pub du: u16,
    pub pi: Seq<u8>,
    pub tt: u64,
}

impl View for AlarmSettings {
    type V = AlarmSettingsV;

    open spec fn view(&self) -> AlarmSettingsV {
        AlarmSettingsV { pl: self.pl, du: self.du, pi: self.pi@, tt: self.tt }
    }
}

pub open spec fn key_pl() -> Seq<u8> {
    seq![112u8, 108u8]
}

pub open spec fn key_du() -> Seq<u8> {
    seq![100u8, 117u8]
}

pub open spec fn key_pi() -> Seq<u8> {
    seq![112u8, 105u8]
}

pub open spec fn key_tt() -> Seq<u8> {
    seq![116u8, 116u8]
}

/// The canonical wire encoding of alarm settings: a map of its four fields.
pub open spec fn spec_enc_alarm(a: AlarmSettingsV) -> Seq<u8> {
    spec_enc_map_head(4) + spec_enc_field_uint(key_pl(), a.pl as u64)
        + spec_enc_field_uint(key_du(), a.du as u64) + spec_enc_field_text(key_pi(), a.pi)
        + spec_enc_field_uint(key_tt(), a.tt)
}

/// Encode alarm settings for the command payload.
pub fn encode_alarm_settings(a: &AlarmSettings) -> (r: Vec<u8>)
    ensures
        r@ == spec_enc_alarm(a@),
{
    let mut out: Vec<u8> = Vec::new();
    enc_map_head_into(&mut out, 4);
    let kpl: [u8; 2] = [112u8, 108u8];
    enc_field_uint_into(&mut out, kpl.as_slice(), a.pl as u64);
    let kdu: [u8; 2] = [100u8, 117u8];
    enc_field_uint_into(&mut out, kdu.as_slice(), a.du as u64);
    let kpi: [u8; 2] = [112u8, 105u8];
    enc_field_text_into(&mut out, kpi.as_slice(), a.pi.as_slice());
    let ktt: [u8; 2] = [116u8, 116u8];
    enc_field_uint_into(&mut out, ktt.as_slice(), a.tt);
    proof {
        assert(kpl@ =~= key_pl());
        assert(kdu@ =~= key_du());
        assert(kpi@ =~= key_pi());
        assert(ktt@ =~= key_tt());
        assert(out@ =~= spec_enc_alarm(a@));
    }
    out
}

/// What one `execute` call does next.
pub enum ExecutePlan {
    /// No firmware connection is installed: fail at once, write nothing,
    /// never block.
    NotConnected,
    /// Write this frame under the channel's lock, then read the response
    /// with the short bounded timeout.
    Send { frame: Vec<u8> },
}

/// The result an `execute` caller sees.
pub enum CommandOutcome {
    /// No firmware connection was installed.
    NotConnected,
    /// The response bytes, passed through unmodified; empty when the
    /// firmware stayed silent or the read failed, by design.
    Response { body: Vec<u8> },
}

/// Decide one `execute` call against the channel's state: with no
/// connection installed it fails immediately with `NotConnected`; with one
/// it sends exactly the command's frame.
pub fn execute_plan(connected: bool, code: u64, payload: Option<&Vec<u8>>) -> (r: ExecutePlan)
    ensures
        !connected ==> r is NotConnected,
        connected ==> (r matches ExecutePlan::Send { frame } && frame@ == spec_command_frame(
            code,
            match payload {
                Some(p) => Some(p@),
                None => None,
            },
        )),
{
    if !connected {
        ExecutePlan::NotConnected
    } else {
        ExecutePlan::Send { frame: command_frame(code, payload) }
    }
}

/// Complete one `execute` call: the firmware's response is returned to the
/// caller unmodified, whatever it holds.
pub fn finish_execute(response: Vec<u8>) -> (r: CommandOutcome)
    ensures
        r matches CommandOutcome::Response { body } && body@ == response@,
{
    CommandOutcome::Response { body: response }
}

} // verus!
