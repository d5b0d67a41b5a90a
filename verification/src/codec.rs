//! The protocol codec: the frame envelope `{"op": .., "d": .., "s": .., "t": ..}`,
//! the opcode-tagged inbound and outbound frame unions, and the mapping
//! between the two. Decoding is total over arbitrary text — anything outside
//! the envelope grammar is a decode error, never a panic — and encoding is
//! total over the closed outbound union.

use vstd::prelude::*;

use crate::json::copy_range;
use crate::json::digit_val;
use crate::json::digit_val_x;
use crate::json::find_field;
use crate::json::is_digit;
use crate::json::is_digit_x;
use crate::json::lit_false;
use crate::json::lit_null;
use crate::json::lit_true;
use crate::json::object_end;
use crate::json::parse_object;

verus! {

// ---------------------------------------------------------------------------
// Frames
// ---------------------------------------------------------------------------

/// The application-visible payload of a dispatch frame: the event's name and
/// its raw payload text, carried uninterpreted to the handler.
#[derive(Clone, Debug)]
pub struct DispatchEvent {
    pub name: Vec<char>,
    pub payload: Vec<char>,
}

pub ghost struct EventModel {
    pub name: Seq<char>,
    pub payload: Seq<char>,
}

impl View for DispatchEvent {
    type V = EventModel;

    open spec fn view(&self) -> EventModel {
        EventModel { name: self.name@, payload: self.payload@ }
    }
}

/// The event kinds this client routes specially; every other name is an
/// Other, to be logged and dropped, never an error.
#[derive(Clone, Copy, Debug, PartialEq, Eq, Structural)]
pub enum EventKind {
    Ready,
    InteractionCreate,
    Other,
}

pub open spec fn lit_ready() -> Seq<char> {
    seq!['R', 'E', 'A', 'D', 'Y']
}

pub open spec fn lit_interaction_create() -> Seq<char> {
    seq![
        'I',
        'N',
        'T',
        'E',
        'R',
        'A',
        'C',
        'T',
        'I',
        'O',
        'N',
        '_',
        'C',
        'R',
        'E',
        'A',
        'T',
        'E',
    ]
}

pub open spec fn spec_kind(name: Seq<char>) -> EventKind {
    if name == lit_ready() {
        EventKind::Ready
    } else if name == lit_interaction_create() {
        EventKind::InteractionCreate
    } else {
        EventKind::Other
    }
}

impl DispatchEvent {
    /// The kind this event's name routes to: session-ready and
    /// interaction-created are handled; everything else is logged and
    /// dropped by the application.
    pub fn kind(&self) -> (k: EventKind)
        ensures
            k == spec_kind(self@.name),
    {
        let ready = vec!['R', 'E', 'A', 'D', 'Y'];
        proof {
            assert(ready@ =~= lit_ready());
        }
        if crate::json::range_eq(&self.name, 0, self.name.len(), &ready) {
            proof {
                assert(self.name@.subrange(0, self.name@.len() as int) =~= self.name@);
            }
            EventKind::Ready
        } else {
            let ic = vec![
                'I',
                'N',
                'T',
                'E',
                'R',
                'A',
                'C',
                'T',
                'I',
                'O',
                'N',
                '_',
                'C',
                'R',
                'E',
                'A',
                'T',
                'E',
            ];
            proof {
                assert(ic@ =~= lit_interaction_create());
                assert(self.name@.subrange(0, self.name@.len() as int) =~= self.name@);
            }
            if crate::json::range_eq(&self.name, 0, self.name.len(), &ic) {
                EventKind::InteractionCreate
            } else {
                EventKind::Other
            }
        }
    }
}

/// One inbound frame, exactly one variant per opcode in the known set.
#[derive(Clone, Debug)]
pub enum InboundFrame {
    Dispatch { event: DispatchEvent, sequence: u64 },
    HeartbeatRequest,
    Reconnect,
    InvalidSession { resumable: bool },
    Hello { heartbeat_interval_ms: u64 },
    HeartbeatAck,
}

pub ghost enum InFrameModel {
    Dispatch { event: EventModel, sequence: u64 },
    HeartbeatRequest,
    Reconnect,
    InvalidSession { resumable: bool },
    Hello { heartbeat_interval_ms: u64 },
    HeartbeatAck,
}

impl View for InboundFrame {
    type V = InFrameModel;

    open spec fn view(&self) -> InFrameModel {
        match self {
            InboundFrame::Dispatch { event, sequence } => InFrameModel::Dispatch {
                event: event@,
                sequence: *sequence,
            },
            InboundFrame::HeartbeatRequest => InFrameModel::HeartbeatRequest,
            InboundFrame::Reconnect => InFrameModel::Reconnect,
            InboundFrame::InvalidSession { resumable } => InFrameModel::InvalidSession {
                resumable: *resumable,
            },
            InboundFrame::Hello { heartbeat_interval_ms } => InFrameModel::Hello {
                heartbeat_interval_ms: *heartbeat_interval_ms,
            },
            InboundFrame::HeartbeatAck => InFrameModel::HeartbeatAck,
        }
    }
}

/// One outbound frame: the closed union this client ever sends.
#[derive(Clone, Debug)]
pub enum OutboundFrame {
    Heartbeat { last_sequence: Option<u64> },
    Identify { token: Vec<char>, intents: u64, device: Vec<char> },
}

pub ghost enum OutFrameModel {
    Heartbeat { last_sequence: Option<u64> },
    Identify { token: Seq<char>, intents: u64, device: Seq<char> },
}

impl View for OutboundFrame {
    type V = OutFrameModel;

    open spec fn view(&self) -> OutFrameModel {
        match self {
            OutboundFrame::Heartbeat { last_sequence } => OutFrameModel::Heartbeat {
                last_sequence: *last_sequence,
            },
            OutboundFrame::Identify { token, intents, device } => OutFrameModel::Identify {
                token: token@,
                intents: *intents,
                device: device@,
            },
        }
    }
}

/// Why an inbound frame was refused. A malformed envelope and an opcode
/// outside the known set are both recoverable: the frame is dropped and the
/// session goes on.
#[derive(Clone, Copy, Debug, PartialEq, Eq, Structural)]
pub enum DecodeError {
    Malformed,
    UnknownOpcode { opcode: u64 },
}

// ---------------------------------------------------------------------------
// Digit runs
// ---------------------------------------------------------------------------

/// The value of a digit run, None where the text is empty, not all digits,
/// or past the range of a u64.
pub open spec fn digits_value(q: Seq<char>) -> Option<u64>
    decreases q.len(),
{
    if q.len() == 0 {
        None
    } else if q.len() == 1 {
        if is_digit(q[0]) {
            Some(digit_val(q[0]))
        } else {
            None
        }
    } else {
        match digits_value(q.drop_last()) {
            None => None,
            Some(v) => {
                if is_digit(q.last()) && v * 10 + digit_val(q.last()) <= u64::MAX {
                    Some((v * 10 + digit_val(q.last())) as u64)
                } else {
                    None
                }
            },
        }
    }
}

fn digits_prefix(v: &Vec<char>, n: usize) -> (r: Option<u64>)
    requires
        n <= v.len(),
    ensures
        r == digits_value(v@.subrange(0, n as int)),
    decreases n,
{
    if n == 0 {
        None
    } else if n == 1 {
        if is_digit_x(v[0]) {
            proof {
                assert(v@.subrange(0, 1)[0] == v@[0]);
            }
            Some(digit_val_x(v[0]))
        } else {
            proof {
                assert(v@.subrange(0, 1)[0] == v@[0]);
            }
            None
        }
    } else {
        let rest = digits_prefix(v, n - 1);
        proof {
            assert(v@.subrange(0, n as int).drop_last() =~= v@.subrange(0, n - 1 as int));
            assert(v@.subrange(0, n as int).last() == v@[n - 1]);
        }
        match rest {
            None => None,
            Some(acc) => {
                let c = v[n - 1];
                if is_digit_x(c) {
                    match acc.checked_mul(10) {
                        None => None,
                        Some(t) => t.checked_add(digit_val_x(c)),
                    }
                } else {
                    None
                }
            },
        }
    }
}

/// The value of a whole digit-run text, mirroring digits_value.
pub fn parse_digits(v: &Vec<char>) -> (r: Option<u64>)
    ensures
        r == digits_value(v@),
{
    let r = digits_prefix(v, v.len());
    proof {
        assert(v@.subrange(0, v@.len() as int) =~= v@);
    }
    r
}

// ---------------------------------------------------------------------------
// The envelope's member keys
// ---------------------------------------------------------------------------

pub open spec fn key_op() -> Seq<char> {
    seq!['o', 'p']
}

pub open spec fn key_d() -> Seq<char> {
    seq!['d']
}

pub open spec fn key_s() -> Seq<char> {
    seq!['s']
}

pub open spec fn key_t() -> Seq<char> {
    seq!['t']
}

pub open spec fn key_heartbeat_interval() -> Seq<char> {
    seq![
        'h',
        'e',
        'a',
        'r',
        't',
        'b',
        'e',
        'a',
        't',
        '_',
        'i',
        'n',
        't',
        'e',
        'r',
        'v',
        'a',
        'l',
    ]
}

fn key_op_x() -> (r: Vec<char>)
    ensures
        r@ == key_op(),
{
    let r = vec!['o', 'p'];
    proof {
        assert(r@ =~= key_op());
    }
    r
}

fn key_d_x() -> (r: Vec<char>)
    ensures
        r@ == key_d(),
{
    let r = vec!['d'];
    proof {
        assert(r@ =~= key_d());
    }
    r
}

fn key_s_x() -> (r: Vec<char>)
    ensures
        r@ == key_s(),
{
    let r = vec!['s'];
    proof {
        assert(r@ =~= key_s());
    }
    r
}

fn key_t_x() -> (r: Vec<char>)
    ensures
        r@ == key_t(),
{
    let r = vec!['t'];
    proof {
        assert(r@ =~= key_t());
    }
    r
}

fn key_heartbeat_interval_x() -> (r: Vec<char>)
    ensures
        r@ == key_heartbeat_interval(),
{
    let r = vec!['h', 'e', 'a', 'r', 't', 'b', 'e', 'a', 't', '_', 'i', 'n', 't', 'e', 'r', 'v',
        'a', 'l'];
    proof {
        assert(r@ =~= key_heartbeat_interval());
    }
    r
}

// ---------------------------------------------------------------------------
// Decoding
// ---------------------------------------------------------------------------

/// The raw text of a member, None where the object has no such member.
pub open spec fn member(m: Map<Seq<char>, Seq<char>>, k: Seq<char>) -> Option<Seq<char>> {
    if m.contains_key(k) {
        Some(m[k])
    } else {
        None
    }
}

/// A raw member value read as a string: its content between the quotes,
/// escapes kept as written.
pub open spec fn string_content(v: Seq<char>) -> Option<Seq<char>> {
    if v.len() >= 2 && v[0] == '"' && v[v.len() - 1] == '"' {
        Some(v.subrange(1, v.len() - 1))
    } else {
        None
    }
}

pub open spec fn dispatch_of(
    d: Option<Seq<char>>,
    s_txt: Option<Seq<char>>,
    t_txt: Option<Seq<char>>,
) -> Result<InFrameModel, DecodeError> {
    match (d, s_txt, t_txt) {
        (Some(dv), Some(sv), Some(tv)) => match (digits_value(sv), string_content(tv)) {
            (Some(n), Some(name)) => Ok(
                InFrameModel::Dispatch { event: EventModel { name, payload: dv }, sequence: n },
            ),
            _ => Err(DecodeError::Malformed),
        },
        _ => Err(DecodeError::Malformed),
    }
}

pub open spec fn invalid_session_of(d: Option<Seq<char>>) -> Result<InFrameModel, DecodeError> {
    match d {
        Some(v) => {
            if v == lit_true() {
                Ok(InFrameModel::InvalidSession { resumable: true })
            } else if v == lit_false() {
                Ok(InFrameModel::InvalidSession { resumable: false })
            } else {
                Err(DecodeError::Malformed)
            }
        },
        None => Err(DecodeError::Malformed),
    }
}

pub open spec fn hello_of(d: Option<Seq<char>>) -> Result<InFrameModel, DecodeError> {
    match d {
        None => Err(DecodeError::Malformed),
        Some(v) => match parse_object(v) {
            None => Err(DecodeError::Malformed),
            Some((dm, dend)) => {
                if dend != v.len() {
                    Err(DecodeError::Malformed)
                } else {
                    match member(dm, key_heartbeat_interval()) {
                        None => Err(DecodeError::Malformed),
                        Some(iv) => match digits_value(iv) {
                            None => Err(DecodeError::Malformed),
                            Some(n) => Ok(InFrameModel::Hello { heartbeat_interval_ms: n }),
                        },
                    }
                }
            },
        },
    }
}

/// The frame an envelope's members denote, keyed by the op member.
pub open spec fn frame_of_members(m: Map<Seq<char>, Seq<char>>) -> Result<
    InFrameModel,
    DecodeError,
> {
    match member(m, key_op()) {
        None => Err(DecodeError::Malformed),
        Some(optxt) => match digits_value(optxt) {
            None => Err(DecodeError::Malformed),
            Some(op) => {
                if op == 0 {
                    dispatch_of(member(m, key_d()), member(m, key_s()), member(m, key_t()))
                } else if op == 1 {
                    Ok(InFrameModel::HeartbeatRequest)
                } else if op == 7 {
                    Ok(InFrameModel::Reconnect)
                } else if op == 9 {
                    invalid_session_of(member(m, key_d()))
                } else if op == 10 {
                    hello_of(member(m, key_d()))
                } else if op == 11 {
                    Ok(InFrameModel::HeartbeatAck)
                } else {
                    Err(DecodeError::UnknownOpcode { opcode: op })
                }
            },
        },
    }
}

/// What any inbound text decodes to: the frame its envelope denotes, or the
/// exact error. The whole text must be one envelope object, whitespace
/// around it aside.
pub open spec fn spec_decode(s: Seq<char>) -> Result<InFrameModel, DecodeError> {
    match parse_object(s) {
        None => Err(DecodeError::Malformed),
        Some((m, end)) => {
            if crate::json::skip_ws(s, end) != s.len() {
                Err(DecodeError::Malformed)
            } else {
                frame_of_members(m)
            }
        },
    }
}

pub open spec fn view_decoded(r: Result<InboundFrame, DecodeError>) -> Result<
    InFrameModel,
    DecodeError,
> {
    match r {
        Ok(f) => Ok(f@),
        Err(e) => Err(e),
    }
}

fn string_content_x(v: &Vec<char>) -> (r: Option<Vec<char>>)
    ensures
        match r {
            Some(c) => string_content(v@) == Some(c@),
            None => string_content(v@) is None,
        },
{
    if v.len() >= 2 && v[0] == '"' && v[v.len() - 1] == '"' {
        Some(copy_range(v, 1, v.len() - 1))
    } else {
        None
    }
}

fn decode_hello(d: &Vec<char>) -> (r: Result<InboundFrame, DecodeError>)
    ensures
        view_decoded(r) == hello_of(Some(d@)),
{
    match object_end(d) {
        None => Err(DecodeError::Malformed),
        Some(end) => {
            if end != d.len() {
                Err(DecodeError::Malformed)
            } else {
                match find_field(d, &key_heartbeat_interval_x()) {
                    None => Err(DecodeError::Malformed),
                    Some(iv) => match parse_digits(&iv) {
                        None => Err(DecodeError::Malformed),
                        Some(n) => Ok(InboundFrame::Hello { heartbeat_interval_ms: n }),
                    },
                }
            }
        },
    }
}

/// Decodes one inbound wire text. The result is exactly what spec_decode
/// says of the text: the frame for a well-formed envelope with a known
/// opcode, the exact error otherwise.
pub fn decode_frame(text: &Vec<char>) -> (r: Result<InboundFrame, DecodeError>)
    ensures
        view_decoded(r) == spec_decode(text@),
{
    match object_end(text) {
        None => Err(DecodeError::Malformed),
        Some(end) => {
            if crate::json::skip_ws_x(text, end) != text.len() {
                Err(DecodeError::Malformed)
            } else {
                let op_txt = match find_field(text, &key_op_x()) {
                    None => {
                        return Err(DecodeError::Malformed);
                    },
                    Some(v) => v,
                };
                let op = match parse_digits(&op_txt) {
                    None => {
                        return Err(DecodeError::Malformed);
                    },
                    Some(op) => op,
                };
                if op == 0 {
                    let d = find_field(text, &key_d_x());
                    let s_txt = find_field(text, &key_s_x());
                    let t_txt = find_field(text, &key_t_x());
                    match (d, s_txt, t_txt) {
                        (Some(dv), Some(sv), Some(tv)) => {
                            let n = match parse_digits(&sv) {
                                None => {
                                    return Err(DecodeError::Malformed);
                                },
                                Some(n) => n,
                            };
                            match string_content_x(&tv) {
                                None => Err(DecodeError::Malformed),
                                Some(name) => Ok(
                                    InboundFrame::Dispatch {
                                        event: DispatchEvent { name, payload: dv },
                                        sequence: n,
                                    },
                                ),
                            }
                        },
                        _ => Err(DecodeError::Malformed),
                    }
                } else if op == 1 {
                    Ok(InboundFrame::HeartbeatRequest)
                } else if op == 7 {
                    Ok(InboundFrame::Reconnect)
                } else if op == 9 {
                    match find_field(text, &key_d_x()) {
                        None => Err(DecodeError::Malformed),
                        Some(dv) => {
                            let lit_true_v = vec!['t', 'r', 'u', 'e'];
                            let lit_false_v = vec!['f', 'a', 'l', 's', 'e'];
                            proof {
                                assert(lit_true_v@ =~= lit_true());
                                assert(lit_false_v@ =~= lit_false());
                            }
                            if crate::json::range_eq(&dv, 0, dv.len(), &lit_true_v) {
                                proof {
                                    assert(dv@.subrange(0, dv@.len() as int) =~= dv@);
                                }
                                Ok(InboundFrame::InvalidSession { resumable: true })
                            } else if crate::json::range_eq(&dv, 0, dv.len(), &lit_false_v) {
                                proof {
                                    assert(dv@.subrange(0, dv@.len() as int) =~= dv@);
                                }
                                Ok(InboundFrame::InvalidSession { resumable: false })
                            } else {
                                proof {
                                    assert(dv@.subrange(0, dv@.len() as int) =~= dv@);
                                }
                                Err(DecodeError::Malformed)
                            }
                        },
                    }
                } else if op == 10 {
                    match find_field(text, &key_d_x()) {
                        None => Err(DecodeError::Malformed),
                        Some(dv) => decode_hello(&dv),
                    }
                } else if op == 11 {
                    Ok(InboundFrame::HeartbeatAck)
                } else {
                    Err(DecodeError::UnknownOpcode { opcode: op })
                }
            }
        },
    }
}

// ---------------------------------------------------------------------------
// Encoding
// ---------------------------------------------------------------------------

pub open spec fn digit_char(n: u64) -> char {
    if n == 0 {
        '0'
    } else if n == 1 {
        '1'
    } else if n == 2 {
        '2'
    } else if n == 3 {
        '3'
    } else if n == 4 {
        '4'
    } else if n == 5 {
        '5'
    } else if n == 6 {
        '6'
    } else if n == 7 {
        '7'
    } else if n == 8 {
        '8'
    } else {
        '9'
    }
}

/// The decimal digits of n, most significant first.
pub open spec fn dec_digits(n: u64) -> Seq<char>
    decreases n,
{
    if n < 10 {
        seq![digit_char(n)]
    } else {
        dec_digits(n / 10) + seq![digit_char(n % 10)]
    }
}

/// A character as it stands inside an encoded string: quote and backslash
/// escaped, everything else as itself.
pub open spec fn esc_char(c: char) -> Seq<char> {
    if c == '"' || c == '\\' {
        seq!['\\', c]
    } else {
        seq![c]
    }
}

pub open spec fn escape(s: Seq<char>) -> Seq<char>
    decreases s.len(),
{
    if s.len() == 0 {
        Seq::empty()
    } else {
        escape(s.drop_last()) + esc_char(s.last())
    }
}

pub open spec fn hb_prefix() -> Seq<char> {
    seq!['{', '"', 'o', 'p', '"', ':', '1', ',', '"', 'd', '"', ':']
}

pub open spec fn idy_prefix() -> Seq<char> {
    seq![
        '{',
        '"',
        'o',
        'p',
        '"',
        ':',
        '2',
        ',',
        '"',
        'd',
        '"',
        ':',
        '{',
        '"',
        't',
        'o',
        'k',
        'e',
        'n',
        '"',
        ':',
        '"',
    ]
}

pub open spec fn idy_mid1() -> Seq<char> {
    seq!['"', ',', '"', 'i', 'n', 't', 'e', 'n', 't', 's', '"', ':']
}

pub open spec fn idy_mid2() -> Seq<char> {
    seq![
        ',',
        '"',
        'p',
        'r',
        'o',
        'p',
        'e',
        'r',
        't',
        'i',
        'e',
        's',
        '"',
        ':',
        '{',
        '"',
        'd',
        'e',
        'v',
        'i',
        'c',
        'e',
        '"',
        ':',
        '"',
    ]
}

pub open spec fn idy_suffix() -> Seq<char> {
    seq!['"', '}', '}', '}']
}

/// The wire text of an outbound frame. A heartbeat carries its sequence
/// value, or null where none has been seen; an identify carries token,
/// intents and the device property.
pub open spec fn spec_encode(f: OutFrameModel) -> Seq<char> {
    match f {
        OutFrameModel::Heartbeat { last_sequence } => match last_sequence {
            None => hb_prefix() + lit_null() + seq!['}'],
            Some(n) => hb_prefix() + dec_digits(n) + seq!['}'],
        },
        OutFrameModel::Identify { token, intents, device } => idy_prefix() + escape(token)
            + idy_mid1() + dec_digits(intents) + idy_mid2() + escape(device) + idy_suffix(),
    }
}

fn digit_char_x(n: u64) -> (c: char)
    ensures
        c == digit_char(n),
{
    if n == 0 {
        '0'
    } else if n == 1 {
        '1'
    } else if n == 2 {
        '2'
    } else if n == 3 {
        '3'
    } else if n == 4 {
        '4'
    } else if n == 5 {
        '5'
    } else if n == 6 {
        '6'
    } else if n == 7 {
        '7'
    } else if n == 8 {
        '8'
    } else {
        '9'
    }
}

fn push_digits(out: &mut Vec<char>, n: u64)
    ensures
        final(out)@ == old(out)@ + dec_digits(n),
    decreases n,
{
    if n >= 10 {
        push_digits(out, n / 10);
        let c = digit_char_x(n % 10);
        out.push(c);
        proof {
            assert(out@ =~= old(out)@ + dec_digits(n));
        }
    } else {
        let c = digit_char_x(n);
        out.push(c);
        proof {
            assert(out@ =~= old(out)@ + dec_digits(n));
        }
    }
}

fn push_escaped(out: &mut Vec<char>, s: &Vec<char>)
    ensures
        final(out)@ == old(out)@ + escape(s@),
{
    proof {
        assert(s@.subrange(0, 0) =~= Seq::<char>::empty());
        assert(out@ =~= out@ + escape(s@.subrange(0, 0)));
    }
    let mut j: usize = 0;
    while j < s.len()
        invariant
            j <= s.len(),
            out@ == old(out)@ + escape(s@.subrange(0, j as int)),
        decreases s.len() - j,
    {
        let c = s[j];
        if c == '"' || c == '\\' {
            out.push('\\');
            out.push(c);
        } else {
            out.push(c);
        }
        proof {
            assert(s@.subrange(0, j + 1 as int).drop_last() =~= s@.subrange(0, j as int));
            assert(s@.subrange(0, j + 1 as int).last() == s@[j as int]);
            assert(out@ =~= old(out)@ + escape(s@.subrange(0, j + 1 as int)));
        }
        j = j + 1;
    }
    proof {
        assert(s@.subrange(0, s@.len() as int) =~= s@);
    }
}

/// Encodes an outbound frame as wire text. Never fails: the outbound union
/// is closed and every member of it has a text.
#[verifier::rlimit(80)]
pub fn encode_frame(f: &OutboundFrame) -> (r: Vec<char>)
    ensures
        r@ == spec_encode(f@),
{
    let mut out: Vec<char> = Vec::new();
    match f {
        OutboundFrame::Heartbeat { last_sequence } => {
            out.push('{');
            out.push('"');
            out.push('o');
            out.push('p');
            out.push('"');
            out.push(':');
            out.push('1');
            out.push(',');
            out.push('"');
            out.push('d');
            out.push('"');
            out.push(':');
            proof {
                assert(out@ =~= hb_prefix());
            }
            match last_sequence {
                None => {
                    out.push('n');
                    out.push('u');
                    out.push('l');
                    out.push('l');
                    proof {
                        assert(out@ =~= hb_prefix() + lit_null());
                    }
                },
                Some(n) => {
                    push_digits(&mut out, *n);
                },
            }
            out.push('}');
            proof {
                assert(out@ =~= spec_encode(f@));
            }
        },
        OutboundFrame::Identify { token, intents, device } => {
            out.push('{');
            out.push('"');
            out.push('o');
            out.push('p');
            out.push('"');
            out.push(':');
            out.push('2');
            out.push(',');
            out.push('"');
            out.push('d');
            out.push('"');
            out.push(':');
            out.push('{');
            out.push('"');
            out.push('t');
            out.push('o');
            out.push('k');
            out.push('e');
            out.push('n');
            out.push('"');
            out.push(':');
            out.push('"');
            proof {
                assert(out@ =~= idy_prefix());
            }
            push_escaped(&mut out, token);
            out.push('"');
            out.push(',');
            out.push('"');
            out.push('i');
            out.push('n');
            out.push('t');
            out.push('e');
            out.push('n');
            out.push('t');
            out.push('s');
            out.push('"');
            out.push(':');
            proof {
                assert(out@ =~= idy_prefix() + escape(token@) + idy_mid1());
            }
            push_digits(&mut out, *intents);
            out.push(',');
            out.push('"');
            out.push('p');
            out.push('r');
            out.push('o');
            out.push('p');
            out.push('e');
            out.push('r');
            out.push('t');
            out.push('i');
            out.push('e');
            out.push('s');
            out.push('"');
            out.push(':');
            out.push('{');
            out.push('"');
            out.push('d');
            out.push('e');
            out.push('v');
            out.push('i');
            out.push('c');
            out.push('e');
            out.push('"');
            out.push(':');
            out.push('"');
            proof {
                assert(out@ =~= idy_prefix() + escape(token@) + idy_mid1() + dec_digits(*intents)
                    + idy_mid2());
            }
            push_escaped(&mut out, device);
            out.push('"');
            out.push('}');
            out.push('}');
            out.push('}');
            proof {
                assert(out@ =~= spec_encode(f@));
            }
        },
    }
    out
}

proof fn lemma_dec_digits_all_digits(n: u64)
    ensures
        dec_digits(n).len() >= 1,
        forall|k: int| 0 <= k < dec_digits(n).len() ==> is_digit(#[trigger] dec_digits(n)[k]),
    decreases n,
{
    if n < 10 {
        assert(is_digit(digit_char(n)));
    } else {
        lemma_dec_digits_all_digits(n / 10);
        assert(is_digit(digit_char(n % 10)));
        assert(forall|k: int|
            0 <= k < dec_digits(n / 10).len() ==> dec_digits(n)[k] == dec_digits(n / 10)[k]);
        assert(dec_digits(n).last() == digit_char(n % 10));
    }
}

/// Codec symmetry on the opcode the two wire directions share: a heartbeat
/// encoded for sending, read back as an inbound frame, decodes to the
/// heartbeat-request opcode, whatever sequence value it carried. (The only
/// other outbound opcode, identify, is not an inbound opcode at all.)
#[verifier::rlimit(100)]
pub proof fn lemma_heartbeat_round_trip(last_sequence: Option<u64>)
    ensures
        spec_decode(spec_encode(OutFrameModel::Heartbeat { last_sequence })) == Ok::<
            InFrameModel,
            DecodeError,
        >(InFrameModel::HeartbeatRequest),
{
    let d = match last_sequence {
        None => lit_null(),
        Some(n) => dec_digits(n),
    };
    let s = hb_prefix() + d + seq!['}'];
    assert(spec_encode(OutFrameModel::Heartbeat { last_sequence }) == s);
    let dl = d.len() as int;
    assert(s.len() == 13 + dl);
    assert(s[0] == '{');
    assert(s[1] == '"');
    assert(s[2] == 'o');
    assert(s[3] == 'p');
    assert(s[4] == '"');
    assert(s[5] == ':');
    assert(s[6] == '1');
    assert(s[7] == ',');
    assert(s[8] == '"');
    assert(s[9] == 'd');
    assert(s[10] == '"');
    assert(s[11] == ':');
    assert(forall|k: int| 0 <= k < dl ==> s[12 + k] == d[k]);
    assert(s[12 + dl] == '}');

    // No whitespace stands anywhere in an encoded heartbeat.
    assert(crate::json::skip_ws(s, 0) == 0int);
    assert(crate::json::skip_ws(s, 1) == 1int);
    assert(crate::json::skip_ws(s, 5) == 5int);
    assert(crate::json::skip_ws(s, 6) == 6int);
    assert(crate::json::skip_ws(s, 7) == 7int);
    assert(crate::json::skip_ws(s, 8) == 8int);
    assert(crate::json::skip_ws(s, 11) == 11int);
    assert(crate::json::skip_ws(s, 12 + dl) == 12 + dl);
    assert(crate::json::skip_ws(s, 13 + dl) == 13 + dl);

    // The value of the d member spans exactly [12, 12 + dl).
    match last_sequence {
        None => {
            assert(dl == 4);
            assert(s[12] == 'n');
            assert(s.subrange(12, 16) =~= lit_null());
            assert(crate::json::value_end(s, 12) == Some(12 + dl));
            assert(crate::json::skip_ws(s, 12) == 12int);
        },
        Some(n) => {
            lemma_dec_digits_all_digits(n);
            assert(forall|k: int| 12 <= k < 12 + dl ==> crate::json::is_num_char(s[k]));
            assert(!crate::json::is_num_char('}'));
            crate::json::lemma_num_end_run(s, 12, 12 + dl);
            assert(crate::json::is_num_char(s[12]));
            assert(crate::json::value_end(s, 12) == Some(12 + dl));
            assert(!crate::json::is_ws(s[12]));
            assert(crate::json::skip_ws(s, 12) == 12int);
        },
    }

    // The d member, walked from index 8.
    assert(crate::json::str_end(s, 9) == Some(11int)) by {
        reveal_with_fuel(crate::json::str_end, 3);
    }
    assert(s.subrange(9, 10) =~= key_d());
    let m2 = Map::<Seq<char>, Seq<char>>::empty().insert(key_d(), s.subrange(12, 12 + dl));
    assert(s.subrange(12, 12 + dl) =~= d);
    assert(crate::json::walk_members(s, 8) == Some((m2, 13 + dl)));

    // The op member, walked from index 1.
    assert(crate::json::str_end(s, 2) == Some(5int)) by {
        reveal_with_fuel(crate::json::str_end, 4);
    }
    assert(s.subrange(2, 4) =~= key_op());
    assert(crate::json::num_end(s, 6) == 7int) by {
        reveal_with_fuel(crate::json::num_end, 3);
    }
    assert(crate::json::value_end(s, 6) == Some(7int));
    assert(s.subrange(6, 7) =~= seq!['1']);
    assert(key_op().len() == 2 && key_d().len() == 1);
    assert(!m2.contains_key(key_op()));
    let m = m2.insert(key_op(), seq!['1']);
    assert(crate::json::walk_members(s, 1) == Some((m, 13 + dl)));
    assert(parse_object(s) == Some((m, 13 + dl)));

    // The envelope names opcode 1: a heartbeat request.
    assert(member(m, key_op()) == Some(seq!['1']));
    assert(is_digit('1'));
    assert(digits_value(seq!['1']) == Some(1u64));
    assert(frame_of_members(m) == Ok::<InFrameModel, DecodeError>(InFrameModel::HeartbeatRequest));
}

/// The wire text of a heartbeat carrying the given sequence value: what the
/// periodic task and an on-demand heartbeat both send.
pub fn heartbeat_message(last_sequence: Option<u64>) -> (r: Vec<char>)
    ensures
        r@ == spec_encode(OutFrameModel::Heartbeat { last_sequence }),
{
    encode_frame(&OutboundFrame::Heartbeat { last_sequence })
}

} // verus!
