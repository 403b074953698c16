//! The frames that two nodes exchange, one to a line, fields between `|`.

use vstd::prelude::*;
use crate::callsign::{is_canonical, parsed_callsign, Callsign};
use crate::error::{CallsignError, PeerParseError};
use crate::frequency::FrequencyHz;
use crate::ids::{NodeId, SpotId};
use crate::number::{
    all_digits, char_hex_value, char_lower_hex_value, decimal_digits, hex_char, hex_char_of,
    hex_value, lower_hex_value,
    lemma_decimal_digits, lemma_parse_signed_decimal, lemma_parse_unsigned_decimal,
    parse_i64_chars, parse_signed, parse_u32_chars, parse_u64_chars, parse_unsigned, push_i64,
    push_u64, signed_decimal,
};
use crate::spot::{
    node_view, timestamp_in_range, Spot, SpotModel, Timestamp, MAX_UNIX_TIMESTAMP,
    MIN_UNIX_TIMESTAMP,
};
use crate::text::{
    chars_are_trimmed, chars_eq, chars_free_of, chars_of, char_is_whitespace, free_of, is_digit, is_trimmed, is_whitespace, join, join_chars,
    lemma_join_ends, lemma_join_ends_open, lemma_join_free, lemma_join_starts,
    lemma_split_join, lemma_trim_of_trimmed, push_chars, split, split_chars, string_of, trim,
    trim_chars, views,
};

verus! {

/// One frame of the peer protocol.
#[derive(Debug, PartialEq)]
pub enum PeerFrame {
    Hello { node_id: NodeId, version: String },
    Capabilities { values: Vec<String> },
    Auth { token: String },
    Spot { spot: Spot },
    Heartbeat { nonce: String },
    Ping { nonce: String },
    Pong { nonce: String },
}

/// What a frame says, as mathematical values.
pub enum FrameModel {
    Hello { node_id: Seq<char>, version: Seq<char> },
    Capabilities { values: Seq<Seq<char>> },
    Auth { token: Seq<char> },
    Spot { spot: SpotModel },
    Heartbeat { nonce: Seq<char> },
    Ping { nonce: Seq<char> },
    Pong { nonce: Seq<char> },
}

/// The texts of a sequence of strings.
pub open spec fn string_views(v: Seq<String>) -> Seq<Seq<char>> {
    v.map_values(|s: String| s@)
}

impl View for PeerFrame {
    type V = FrameModel;

    open spec fn view(&self) -> FrameModel {
        match self {
            PeerFrame::Hello { node_id, version } => FrameModel::Hello {
                node_id: node_id@,
                version: version@,
            },
            PeerFrame::Capabilities { values } => FrameModel::Capabilities {
                values: string_views(values@),
            },
            PeerFrame::Auth { token } => FrameModel::Auth { token: token@ },
            PeerFrame::Spot { spot } => FrameModel::Spot { spot: spot@ },
            PeerFrame::Heartbeat { nonce } => FrameModel::Heartbeat { nonce: nonce@ },
            PeerFrame::Ping { nonce } => FrameModel::Ping { nonce: nonce@ },
            PeerFrame::Pong { nonce } => FrameModel::Pong { nonce: nonce@ },
        }
    }
}

/// A copy of a list of strings.
pub fn clone_strings(values: &Vec<String>) -> (out: Vec<String>)
    ensures
        string_views(out@) == string_views(values@),
{
    let mut out: Vec<String> = Vec::new();
    let mut i: usize = 0;
    while i < values.len()
        invariant
            i <= values.len(),
            out@.len() == i,
            forall|k: int| 0 <= k < i ==> (#[trigger] out@[k])@ == values@[k]@,
        decreases values.len() - i,
    {
        let item = values[i].clone();
        assert(item@ == values@[i as int]@);
        out.push(item);
        i += 1;
    }
    assert(string_views(out@) =~= string_views(values@));
    out
}

impl Clone for PeerFrame {
    fn clone(&self) -> (out: Self)
        ensures
            out@ == self@,
    {
        match self {
            PeerFrame::Hello { node_id, version } => PeerFrame::Hello {
                node_id: node_id.clone(),
                version: version.clone(),
            },
            PeerFrame::Capabilities { values } => PeerFrame::Capabilities {
                values: clone_strings(values),
            },
            PeerFrame::Auth { token } => PeerFrame::Auth { token: token.clone() },
            PeerFrame::Spot { spot } => PeerFrame::Spot { spot: spot.clone() },
            PeerFrame::Heartbeat { nonce } => PeerFrame::Heartbeat { nonce: nonce.clone() },
            PeerFrame::Ping { nonce } => PeerFrame::Ping { nonce: nonce.clone() },
            PeerFrame::Pong { nonce } => PeerFrame::Pong { nonce: nonce.clone() },
        }
    }
}

/// How one character of a comment is written in a frame: `|` and `%`, which
/// the format uses itself, and the two line ends are written as `%` and two
/// hexadecimal digits.
pub open spec fn escape_char(c: char) -> Seq<char> {
    if c == '|' {
        seq!['%', '7', 'C']
    } else if c == '%' {
        seq!['%', '2', '5']
    } else if c == '\n' {
        seq!['%', '0', 'A']
    } else if c == '\r' {
        seq!['%', '0', 'D']
    } else {
        seq![c]
    }
}

/// A comment as it is written in a frame.
pub open spec fn escape(s: Seq<char>) -> Seq<char>
    decreases s.len(),
{
    if s.len() == 0 {
        Seq::<char>::empty()
    } else {
        escape_char(s[0]) + escape(s.skip(1))
    }
}

/// The ASCII character that `%` and the two hexadecimal digits `hi` and `lo`
/// stand for, where they stand for one.
pub open spec fn escaped_char(hi: char, lo: char) -> Option<char> {
    match (hex_value(hi), hex_value(lo)) {
        (Some(h), Some(l)) => if h * 16 + l < 128 {
            Some(((h * 16 + l) as u8) as char)
        } else {
            None
        },
        _ => None,
    }
}

/// The comment that a frame's field stands for: `%` and two hexadecimal
/// digits below 80 are one character, everything else stands for itself.
pub open spec fn unescape(s: Seq<char>) -> Seq<char>
    decreases s.len(),
{
    if s.len() == 0 {
        Seq::<char>::empty()
    } else if s[0] == '%' && s.len() >= 3 && escaped_char(s[1], s[2]) is Some {
        seq![escaped_char(s[1], s[2])->0] + unescape(s.skip(3))
    } else {
        seq![s[0]] + unescape(s.skip(1))
    }
}

/// Two comments written one after the other are written as the two
/// writings one after the other.
pub proof fn lemma_escape_concat(a: Seq<char>, b: Seq<char>)
    ensures
        escape(a + b) == escape(a) + escape(b),
    decreases a.len(),
{
    if a.len() == 0 {
        assert(a + b =~= b);
        assert(escape(a) + escape(b) =~= escape(b));
    } else {
        lemma_escape_concat(a.skip(1), b);
        assert((a + b).skip(1) =~= a.skip(1) + b);
        assert(escape_char(a[0]) + (escape(a.skip(1)) + escape(b)) =~= (escape_char(a[0]) + escape(
            a.skip(1),
        )) + escape(b));
    }
}

/// Appends the comment `s` as it is written in a frame.
pub fn push_escaped(out: &mut Vec<char>, s: &[char])
    ensures
        final(out)@ == old(out)@ + escape(s@),
{
    let mut i: usize = 0;
    assert(s@.take(0) =~= Seq::<char>::empty());
    while i < s.len()
        invariant
            i <= s.len(),
            out@ == old(out)@ + escape(s@.take(i as int)),
        decreases s.len() - i,
    {
        let c = s[i];
        let ghost before = out@;
        if c == '|' {
            out.push('%');
            out.push('7');
            out.push('C');
        } else if c == '%' {
            out.push('%');
            out.push('2');
            out.push('5');
        } else if c == '\n' {
            out.push('%');
            out.push('0');
            out.push('A');
        } else if c == '\r' {
            out.push('%');
            out.push('0');
            out.push('D');
        } else {
            out.push(c);
        }
        assert(out@ =~= before + escape_char(c));
        proof {
            lemma_escape_concat(s@.take(i as int), seq![c]);
            assert(s@.take(i + 1) =~= s@.take(i as int) + seq![c]);
            assert(seq![c].skip(1) =~= Seq::<char>::empty());
            assert(escape(Seq::<char>::empty()) =~= Seq::<char>::empty());
            assert(seq![c][0] == c);
            assert(escape(seq![c]) == escape_char(c) + escape(seq![c].skip(1)));
            assert(escape(seq![c]) =~= escape_char(c));
            assert(out@ =~= old(out)@ + escape(s@.take(i + 1)));
        }
        i += 1;
    }
    assert(s@.take(s.len() as int) =~= s@);
}

/// The comment that the field `s` of a frame stands for.
pub fn unescape_chars(s: &[char]) -> (out: Vec<char>)
    ensures
        out@ == unescape(s@),
{
    let mut out: Vec<char> = Vec::new();
    let mut i: usize = 0;
    assert(s@.skip(0) =~= s@);
    while i < s.len()
        invariant
            i <= s.len(),
            unescape(s@) == out@ + unescape(s@.skip(i as int)),
        decreases s.len() - i,
    {
        let ghost rest = s@.skip(i as int);
        let ghost before = out@;
        assert(rest[0] == s@[i as int]);
        let mut decoded: Option<char> = None;
        if s[i] == '%' && s.len() - i >= 3 {
            assert(rest[1] == s@[i + 1]);
            assert(rest[2] == s@[i + 2]);
            match (char_hex_value(s[i + 1]), char_hex_value(s[i + 2])) {
                (Some(h), Some(l)) => {
                    if h < 8 {
                        decoded = Some((h * 16 + l) as char);
                    }
                },
                _ => {},
            }
        }
        match decoded {
            Some(c) => {
                out.push(c);
                assert(rest.skip(3) =~= s@.skip(i + 3));
                assert(before + (seq![c] + unescape(rest.skip(3))) =~= out@ + unescape(
                    s@.skip(i + 3),
                ));
                i += 3;
            },
            None => {
                out.push(s[i]);
                assert(rest.skip(1) =~= s@.skip(i + 1));
                assert(before + (seq![rest[0]] + unescape(rest.skip(1))) =~= out@ + unescape(
                    s@.skip(i + 1),
                ));
                i += 1;
            },
        }
    }
    assert(s@.skip(s.len() as int) =~= Seq::<char>::empty());
    assert(out@ + Seq::<char>::empty() =~= out@);
    out
}

/// A spot identifier as text: two lower-case hexadecimal digits for each byte.
pub open spec fn hex_text(bytes: Seq<u8>) -> Seq<char> {
    Seq::new(
        2 * bytes.len(),
        |i: int|
            if i % 2 == 0 {
                hex_char((bytes[i / 2] / 16) as nat)
            } else {
                hex_char((bytes[i / 2] % 16) as nat)
            },
    )
}

/// The byte that two characters of an identifier stand for: two lower-case
/// hexadecimal digits, and nothing else.
pub open spec fn hex_pair(c0: char, c1: char) -> Option<u8> {
    match (lower_hex_value(c0), lower_hex_value(c1)) {
        (Some(h), Some(l)) => Some((h * 16 + l) as u8),
        _ => None,
    }
}

/// The identifier that a text stands for: 64 lower-case hexadecimal digits,
/// two for each byte.
pub open spec fn spot_id_of_text(s: Seq<char>) -> Option<Seq<u8>> {
    if s.len() == 64 && (forall|k: int| 0 <= k < 32 ==> hex_pair(#[trigger] s[2 * k], s[2 * k + 1])
        is Some) {
        Some(Seq::new(32, |k: int| hex_pair(s[2 * k], s[2 * k + 1])->0))
    } else {
        None
    }
}

/// The identifier as text: 64 lower-case hexadecimal digits.
pub fn format_spot_id(spot_id: &SpotId) -> (out: String)
    ensures
        out@ == hex_text(spot_id@),
{
    let mut out: Vec<char> = Vec::new();
    let mut i: usize = 0;
    while i < 32
        invariant
            i <= 32,
            out@.len() == 2 * i,
            forall|k: int| 0 <= k < 2 * i ==> #[trigger] out@[k] == hex_text(spot_id@)[k],
        decreases 32 - i,
    {
        let b = spot_id.0[i];
        out.push(hex_char_of(b / 16));
        out.push(hex_char_of(b % 16));
        i += 1;
    }
    assert(out@ =~= hex_text(spot_id@));
    string_of(out.as_slice())
}

fn parse_spot_id_chars(input: &[char]) -> (r: Result<SpotId, PeerParseError>)
    ensures
        match r {
            Ok(id) => spot_id_of_text(input@) == Some(id@),
            Err(e) => spot_id_of_text(input@) is None && e == PeerParseError::Invalid("spot id"),
        },
{
    if input.len() != 64 {
        return Err(PeerParseError::Invalid("spot id"));
    }
    let mut bytes = [0u8;32];
    let mut k: usize = 0;
    while k < 32
        invariant
            k <= 32,
            input@.len() == 64,
            forall|j: int|
                0 <= j < k ==> hex_pair(#[trigger] input@[2 * j], input@[2 * j + 1]) == Some(
                    bytes@[j],
                ),
        decreases 32 - k,
    {
        let c0 = input[2 * k];
        let c1 = input[2 * k + 1];
        let byte: u8 = match (char_lower_hex_value(c0), char_lower_hex_value(c1)) {
            (Some(h), Some(l)) => h * 16 + l,
            _ => {
                assert(hex_pair(input@[2 * (k as int)], input@[2 * (k as int) + 1]) is None);
                return Err(PeerParseError::Invalid("spot id"));
            },
        };
        bytes[k] = byte;
        k += 1;
    }
    assert(bytes@ =~= spot_id_of_text(input@)->0);
    Ok(SpotId(bytes))
}

/// The identifier that `input` writes: 64 lower-case hexadecimal digits.
pub fn parse_spot_id(input: &str) -> (r: Result<SpotId, PeerParseError>)
    ensures
        match r {
            Ok(id) => spot_id_of_text(input@) == Some(id@),
            Err(e) => spot_id_of_text(input@) is None && e == PeerParseError::Invalid("spot id"),
        },
{
    let cs = chars_of(input);
    parse_spot_id_chars(cs.as_slice())
}

/// The field at place `i` of a frame, or the empty text where the frame has
/// fewer fields.
pub open spec fn field(parts: Seq<Seq<char>>, i: int) -> Seq<char> {
    if 0 <= i < parts.len() {
        parts[i]
    } else {
        Seq::<char>::empty()
    }
}

/// The text of an origin in a frame: the name, or nothing where there is none.
pub open spec fn origin_text(origin: Option<Seq<char>>) -> Seq<char> {
    match origin {
        Some(name) => name,
        None => Seq::<char>::empty(),
    }
}

/// The fields of the line that stands for a frame, the keyword first.
pub open spec fn frame_fields(frame: FrameModel) -> Seq<Seq<char>> {
    match frame {
        FrameModel::Hello { node_id, version } => seq!["HELLO"@, node_id, version],
        FrameModel::Capabilities { values } => seq!["CAPS"@, join(values, seq![','])],
        FrameModel::Auth { token } => seq!["AUTH"@, token],
        FrameModel::Spot { spot } => seq![
            "SPOT"@,
            hex_text(spot.spot_id),
            signed_decimal(spot.ts),
            decimal_digits(spot.freq as nat),
            spot.dx,
            spot.spotter,
            escape(spot.comment),
            origin_text(spot.origin),
            decimal_digits(spot.hop as nat),
        ],
        FrameModel::Heartbeat { nonce } => seq!["HEARTBEAT"@, nonce],
        FrameModel::Ping { nonce } => seq!["PING"@, nonce],
        FrameModel::Pong { nonce } => seq!["PONG"@, nonce],
    }
}

/// The line that stands for a frame, without the line end.
pub open spec fn frame_line(frame: FrameModel) -> Seq<char> {
    join(frame_fields(frame), seq!['|'])
}

/// The entries of a list that are not empty once trimmed, each trimmed.
pub open spec fn trimmed_nonempty(items: Seq<Seq<char>>) -> Seq<Seq<char>>
    decreases items.len(),
{
    if items.len() == 0 {
        Seq::<Seq<char>>::empty()
    } else if trim(items.last()).len() == 0 {
        trimmed_nonempty(items.drop_last())
    } else {
        trimmed_nonempty(items.drop_last()).push(trim(items.last()))
    }
}

/// The spot that the fields of a `SPOT` frame stand for. There must be nine
/// fields with the keyword: the first that is absent is named as missing,
/// and a tenth field is refused. The fields are then checked in their order,
/// and the first that is wrong is named.
pub open spec fn parse_spot(parts: Seq<Seq<char>>) -> Result<SpotModel, PeerParseError> {
    if parts.len() < 2 {
        Err(PeerParseError::Missing("spot id"))
    } else if parts.len() < 3 {
        Err(PeerParseError::Missing("timestamp"))
    } else if parts.len() < 4 {
        Err(PeerParseError::Missing("frequency"))
    } else if parts.len() < 5 {
        Err(PeerParseError::Missing("dx callsign"))
    } else if parts.len() < 6 {
        Err(PeerParseError::Missing("spotter callsign"))
    } else if parts.len() < 7 {
        Err(PeerParseError::Missing("comment"))
    } else if parts.len() < 8 {
        Err(PeerParseError::Missing("origin"))
    } else if parts.len() < 9 {
        Err(PeerParseError::Missing("hop"))
    } else if parts.len() > 9 {
        Err(PeerParseError::Invalid("field count"))
    } else {
        match spot_id_of_text(parts[1]) {
            None => Err(PeerParseError::Invalid("spot id")),
            Some(spot_id) => match parse_signed(
                parts[2],
                MIN_UNIX_TIMESTAMP as int,
                MAX_UNIX_TIMESTAMP as int,
            ) {
                None => Err(PeerParseError::Invalid("timestamp")),
                Some(ts) => match parse_unsigned(parts[3], u64::MAX as nat) {
                    None => Err(PeerParseError::Invalid("frequency")),
                    Some(freq) => match parsed_callsign(parts[4], false) {
                        Err(_) => Err(PeerParseError::Invalid("dx callsign")),
                        Ok(dx) => match parsed_callsign(parts[5], false) {
                            Err(_) => Err(PeerParseError::Invalid("spotter callsign")),
                            Ok(spotter) => match parse_unsigned(parts[8], u32::MAX as nat) {
                                None => Err(PeerParseError::Invalid("hop")),
                                Some(hop) => Ok(
                                    SpotModel {
                                        spot_id,
                                        ts,
                                        freq: freq as u64,
                                        dx,
                                        spotter,
                                        comment: unescape(parts[6]),
                                        origin: if parts[7].len() == 0 {
                                            None
                                        } else {
                                            Some(parts[7])
                                        },
                                        hop: hop as u32,
                                    },
                                ),
                            },
                        },
                    },
                },
            },
        }
    }
}

/// The frame that a line stands for. The line is trimmed and cut at each `|`;
/// the first field is the keyword and decides how the others are read.
pub open spec fn parse_frame(line: Seq<char>) -> Result<FrameModel, PeerParseError> {
    let parts = split(trim(line), '|');
    let keyword = parts[0];
    if trim(line).len() == 0 {
        Err(PeerParseError::Empty)
    } else if keyword == "HELLO"@ {
        if parts.len() < 2 {
            Err(PeerParseError::Missing("node id"))
        } else {
            Ok(
                FrameModel::Hello {
                    node_id: parts[1],
                    version: if parts.len() < 3 {
                        "1"@
                    } else {
                        parts[2]
                    },
                },
            )
        }
    } else if keyword == "CAPS"@ {
        Ok(FrameModel::Capabilities { values: trimmed_nonempty(split(field(parts, 1), ',')) })
    } else if keyword == "AUTH"@ {
        if field(parts, 1).len() == 0 {
            Err(PeerParseError::Missing("auth token"))
        } else {
            Ok(FrameModel::Auth { token: field(parts, 1) })
        }
    } else if keyword == "HEARTBEAT"@ {
        Ok(FrameModel::Heartbeat { nonce: field(parts, 1) })
    } else if keyword == "SPOT"@ {
        match parse_spot(parts) {
            Ok(spot) => Ok(FrameModel::Spot { spot }),
            Err(e) => Err(e),
        }
    } else if keyword == "PING"@ {
        Ok(FrameModel::Ping { nonce: field(parts, 1) })
    } else if keyword == "PONG"@ {
        Ok(FrameModel::Pong { nonce: field(parts, 1) })
    } else {
        Err(PeerParseError::Unknown)
    }
}

fn is_keyword(field: &[char], keyword: &str) -> (same: bool)
    ensures
        same == (field@ == keyword@),
{
    let k = chars_of(keyword);
    chars_eq(field, k.as_slice())
}

fn capability_list(text: &[char]) -> (values: Vec<String>)
    ensures
        string_views(values@) == trimmed_nonempty(split(text@, ',')),
{
    let items = split_chars(text, ',');
    let mut values: Vec<String> = Vec::new();
    let mut i: usize = 0;
    assert(views(items@).take(0) =~= Seq::<Seq<char>>::empty());
    assert(string_views(values@) =~= Seq::<Seq<char>>::empty());
    while i < items.len()
        invariant
            i <= items.len(),
            string_views(values@) == trimmed_nonempty(views(items@).take(i as int)),
        decreases items.len() - i,
    {
        let item = trim_chars(items[i].as_slice());
        assert(views(items@).take(i + 1).drop_last() =~= views(items@).take(i as int));
        assert(views(items@).take(i + 1).last() == items@[i as int]@);
        if item.len() > 0 {
            let ghost before = string_views(values@);
            let text = string_of(item);
            values.push(text);
            assert(string_views(values@) =~= before.push(text@));
        }
        i += 1;
    }
    assert(views(items@).take(items.len() as int) =~= views(items@));
    values
}

fn parse_spot_parts(parts: &Vec<Vec<char>>) -> (r: Result<Spot, PeerParseError>)
    ensures
        match r {
            Ok(spot) => parse_spot(views(parts@)) == Ok::<SpotModel, PeerParseError>(spot@),
            Err(e) => parse_spot(views(parts@)) == Err::<SpotModel, PeerParseError>(e),
        },
{
    let n = parts.len();
    if n < 2 {
        return Err(PeerParseError::Missing("spot id"));
    }
    if n < 3 {
        return Err(PeerParseError::Missing("timestamp"));
    }
    if n < 4 {
        return Err(PeerParseError::Missing("frequency"));
    }
    if n < 5 {
        return Err(PeerParseError::Missing("dx callsign"));
    }
    if n < 6 {
        return Err(PeerParseError::Missing("spotter callsign"));
    }
    if n < 7 {
        return Err(PeerParseError::Missing("comment"));
    }
    if n < 8 {
        return Err(PeerParseError::Missing("origin"));
    }
    if n < 9 {
        return Err(PeerParseError::Missing("hop"));
    }
    if n > 9 {
        return Err(PeerParseError::Invalid("field count"));
    }
    let ghost fields = views(parts@);
    assert(fields[1] == parts@[1]@ && fields[2] == parts@[2]@ && fields[3] == parts@[3]@
        && fields[4] == parts@[4]@ && fields[5] == parts@[5]@ && fields[6] == parts@[6]@
        && fields[7] == parts@[7]@ && fields[8] == parts@[8]@);
    let comment_field = parts[6].as_slice();
    let origin_field = parts[7].as_slice();
    let hop_field = parts[8].as_slice();

    let spot_id = match parse_spot_id_chars(parts[1].as_slice()) {
        Ok(id) => id,
        Err(e) => {
            return Err(e);
        },
    };
    let seconds = match parse_i64_chars(parts[2].as_slice()) {
        Some(v) => v,
        None => {
            return Err(PeerParseError::Invalid("timestamp"));
        },
    };
    let ts = match Timestamp::from_unix_timestamp(seconds) {
        Some(t) => t,
        None => {
            return Err(PeerParseError::Invalid("timestamp"));
        },
    };
    let freq = match parse_u64_chars(parts[3].as_slice()) {
        Some(v) => FrequencyHz(v),
        None => {
            return Err(PeerParseError::Invalid("frequency"));
        },
    };
    let dx_text = string_of(parts[4].as_slice());
    let dx = match Callsign::parse_loose(dx_text.as_str()) {
        Ok(call) => call,
        Err(_) => {
            return Err(PeerParseError::Invalid("dx callsign"));
        },
    };
    let spotter_text = string_of(parts[5].as_slice());
    let spotter = match Callsign::parse_loose(spotter_text.as_str()) {
        Ok(call) => call,
        Err(_) => {
            return Err(PeerParseError::Invalid("spotter callsign"));
        },
    };
    let origin = if origin_field.len() == 0 {
        None
    } else {
        Some(NodeId(string_of(origin_field)))
    };
    let hop = match parse_u32_chars(hop_field) {
        Some(v) => v,
        None => {
            return Err(PeerParseError::Invalid("hop"));
        },
    };
    let comment = unescape_chars(comment_field);
    Ok(
        Spot {
            spot_id,
            ts,
            freq,
            dx,
            spotter,
            comment: string_of(comment.as_slice()),
            origin,
            hop,
        },
    )
}

impl PeerFrame {
    /// The frame that `line` stands for, or why it stands for none.
    pub fn parse(line: &str) -> (r: Result<Self, PeerParseError>)
        ensures
            match r {
                Ok(frame) => parse_frame(line@) == Ok::<FrameModel, PeerParseError>(frame@),
                Err(e) => parse_frame(line@) == Err::<FrameModel, PeerParseError>(e),
            },
    {
        let cs = chars_of(line);
        let trimmed = trim_chars(cs.as_slice());
        if trimmed.len() == 0 {
            return Err(PeerParseError::Empty);
        }
        let parts = split_chars(trimmed, '|');
        let ghost fields = views(parts@);
        let n = parts.len();
        assert(fields[0] == parts@[0]@);
        let empty: Vec<char> = Vec::new();
        let second = if n > 1 {
            parts[1].as_slice()
        } else {
            empty.as_slice()
        };
        assert(second@ == field(fields, 1));
        let keyword = parts[0].as_slice();
        if is_keyword(keyword, "HELLO") {
            if n < 2 {
                return Err(PeerParseError::Missing("node id"));
            }
            let version = if n < 3 {
                "1".to_owned()
            } else {
                assert(fields[2] == parts@[2]@);
                string_of(parts[2].as_slice())
            };
            Ok(PeerFrame::Hello { node_id: NodeId(string_of(second)), version })
        } else if is_keyword(keyword, "CAPS") {
            Ok(PeerFrame::Capabilities { values: capability_list(second) })
        } else if is_keyword(keyword, "AUTH") {
            if second.len() == 0 {
                return Err(PeerParseError::Missing("auth token"));
            }
            Ok(PeerFrame::Auth { token: string_of(second) })
        } else if is_keyword(keyword, "HEARTBEAT") {
            Ok(PeerFrame::Heartbeat { nonce: string_of(second) })
        } else if is_keyword(keyword, "SPOT") {
            match parse_spot_parts(&parts) {
                Ok(spot) => Ok(PeerFrame::Spot { spot }),
                Err(e) => Err(e),
            }
        } else if is_keyword(keyword, "PING") {
            Ok(PeerFrame::Ping { nonce: string_of(second) })
        } else if is_keyword(keyword, "PONG") {
            Ok(PeerFrame::Pong { nonce: string_of(second) })
        } else {
            Err(PeerParseError::Unknown)
        }
    }

    /// The line that stands for the frame, without the line end.
    pub fn to_line(&self) -> (out: String)
        ensures
            out@ == frame_line(self@),
    {
        let mut fields: Vec<Vec<char>> = Vec::new();
        match self {
            PeerFrame::Hello { node_id, version } => {
                fields.push(chars_of("HELLO"));
                fields.push(chars_of(node_id.0.as_str()));
                fields.push(chars_of(version.as_str()));
            },
            PeerFrame::Capabilities { values } => {
                let mut items: Vec<Vec<char>> = Vec::new();
                let mut i: usize = 0;
                while i < values.len()
                    invariant
                        i <= values.len(),
                        items@.len() == i,
                        forall|k: int| 0 <= k < i ==> (#[trigger] items@[k])@ == values@[k]@,
                    decreases values.len() - i,
                {
                    items.push(chars_of(values[i].as_str()));
                    i += 1;
                }
                assert(views(items@) =~= string_views(values@));
                let comma: Vec<char> = vec![','];
                assert(comma@ =~= seq![',']);
                fields.push(chars_of("CAPS"));
                fields.push(join_chars(&items, comma.as_slice()));
            },
            PeerFrame::Auth { token } => {
                fields.push(chars_of("AUTH"));
                fields.push(chars_of(token.as_str()));
            },
            PeerFrame::Spot { spot } => {
                fields.push(chars_of("SPOT"));
                fields.push(chars_of(format_spot_id(&spot.spot_id).as_str()));
                let mut ts: Vec<char> = Vec::new();
                push_i64(&mut ts, spot.ts.unix_timestamp());
                assert(ts@ =~= signed_decimal(spot.ts@));
                fields.push(ts);
                let mut freq: Vec<char> = Vec::new();
                push_u64(&mut freq, spot.freq.0);
                assert(freq@ =~= decimal_digits(spot.freq.0 as nat));
                fields.push(freq);
                fields.push(chars_of(spot.dx.as_str()));
                fields.push(chars_of(spot.spotter.as_str()));
                let mut comment: Vec<char> = Vec::new();
                let raw = chars_of(spot.comment.as_str());
                push_escaped(&mut comment, raw.as_slice());
                assert(comment@ =~= escape(spot.comment@));
                fields.push(comment);
                match &spot.origin {
                    Some(id) => {
                        fields.push(chars_of(id.0.as_str()));
                    },
                    None => {
                        fields.push(Vec::new());
                    },
                }
                let mut hop: Vec<char> = Vec::new();
                push_u64(&mut hop, spot.hop as u64);
                assert(hop@ =~= decimal_digits(spot.hop as nat));
                fields.push(hop);
            },
            PeerFrame::Heartbeat { nonce } => {
                fields.push(chars_of("HEARTBEAT"));
                fields.push(chars_of(nonce.as_str()));
            },
            PeerFrame::Ping { nonce } => {
                fields.push(chars_of("PING"));
                fields.push(chars_of(nonce.as_str()));
            },
            PeerFrame::Pong { nonce } => {
                fields.push(chars_of("PONG"));
                fields.push(chars_of(nonce.as_str()));
            },
        }
        assert(views(fields@) =~= frame_fields(self@));
        let bar: Vec<char> = vec!['|'];
        assert(bar@ =~= seq!['|']);
        let line = join_chars(&fields, bar.as_slice());
        string_of(line.as_slice())
    }
}

/// A comment as it is written in a frame holds no `|`, and reading it gives
/// the comment back.
pub proof fn lemma_escape_round_trip(s: Seq<char>)
    ensures
        free_of(escape(s), '|'),
        unescape(escape(s)) == s,
    decreases s.len(),
{
    if s.len() == 0 {
    } else {
        let c = s[0];
        let rest = s.skip(1);
        lemma_escape_round_trip(rest);
        let head = escape_char(c);
        let tail = escape(rest);
        let whole = head + tail;
        assert forall|i: int| 0 <= i < whole.len() implies #[trigger] whole[i] != '|' by {
            if i >= head.len() {
                assert(whole[i] == tail[i - head.len()]);
            }
        }
        if c == '|' || c == '%' || c == '\n' || c == '\r' {
            assert(whole[0] == '%' && whole[1] == head[1] && whole[2] == head[2]);
            assert(whole.skip(3) =~= tail);
            assert(escaped_char(head[1], head[2]) == Some(c));
            assert(seq![c] + rest =~= s);
        } else {
            assert(whole[0] == c);
            assert(whole.skip(1) =~= tail);
            assert(seq![c] + rest =~= s);
        }
    }
}

proof fn lemma_hex_char(v: nat)
    requires
        v < 16,
    ensures
        lower_hex_value(hex_char(v)) == Some(v),
        hex_char(v) != '|',
{
}

/// An identifier of 32 bytes as text holds no `|`, and reading it gives the
/// identifier back.
pub proof fn lemma_hex_round_trip(bytes: Seq<u8>)
    requires
        bytes.len() == 32,
    ensures
        free_of(hex_text(bytes), '|'),
        spot_id_of_text(hex_text(bytes)) == Some(bytes),
{
    let text = hex_text(bytes);
    assert forall|i: int| 0 <= i < text.len() implies #[trigger] text[i] != '|' by {
        lemma_hex_char((bytes[i / 2] / 16) as nat);
        lemma_hex_char((bytes[i / 2] % 16) as nat);
    }
    assert forall|k: int| 0 <= k < 32 implies hex_pair(#[trigger] text[2 * k], text[2 * k + 1])
        == Some(bytes[k]) by {
        lemma_hex_char((bytes[k] / 16) as nat);
        lemma_hex_char((bytes[k] % 16) as nat);
        assert((2 * k) / 2 == k && (2 * k + 1) / 2 == k);
        assert(text[2 * k] == hex_char((bytes[k] / 16) as nat));
        assert(text[2 * k + 1] == hex_char((bytes[k] % 16) as nat));
    }
    assert(spot_id_of_text(text)->0 =~= bytes);
}

proof fn lemma_decimal_free(n: nat)
    ensures
        free_of(decimal_digits(n), '|'),
        decimal_digits(n).len() > 0,
        is_digit(decimal_digits(n).last()),
        free_of(signed_decimal(n as int), '|'),
        free_of(signed_decimal(-(n as int)), '|'),
{
    lemma_decimal_digits(n);
    let d = decimal_digits(n);
    assert forall|i: int| 0 <= i < d.len() implies #[trigger] d[i] != '|' by {
        assert(is_digit(d[i]));
    }
    let m = seq!['-'] + d;
    assert forall|i: int| 0 <= i < m.len() implies #[trigger] m[i] != '|' by {
        if i > 0 {
            assert(m[i] == d[i - 1]);
        }
    }
}

impl SpotModel {
    /// Whether the spot can cross a link unchanged: its identifier has 32
    /// bytes, its moment is one that a timestamp can hold, its callsigns are
    /// canonical, its origin is not the empty name, and neither the
    /// callsigns nor the origin hold a `|`.
    pub open spec fn wire_safe(self) -> bool {
        &&& self.spot_id.len() == 32
        &&& timestamp_in_range(self.ts)
        &&& is_canonical(self.dx)
        &&& free_of(self.dx, '|')
        &&& is_canonical(self.spotter)
        &&& free_of(self.spotter, '|')
        &&& (self.origin matches Some(name) ==> name.len() > 0 && free_of(name, '|'))
    }
}

proof fn lemma_spot_fields(spot: SpotModel)
    requires
        spot.wire_safe(),
    ensures
        frame_fields(FrameModel::Spot { spot }).len() == 9,
        forall|i: int|
            0 <= i < 9 ==> free_of(#[trigger] frame_fields(FrameModel::Spot { spot })[i], '|'),
        parse_spot(frame_fields(FrameModel::Spot { spot })) == Ok::<SpotModel, PeerParseError>(
            spot,
        ),
        is_digit(frame_fields(FrameModel::Spot { spot })[8].last()),
        frame_fields(FrameModel::Spot { spot })[8].len() > 0,
{
    let fields = frame_fields(FrameModel::Spot { spot });
    reveal_strlit("SPOT");
    lemma_hex_round_trip(spot.spot_id);
    lemma_decimal_free(spot.freq as nat);
    lemma_decimal_free(spot.hop as nat);
    if spot.ts >= 0 {
        lemma_decimal_free(spot.ts as nat);
    } else {
        lemma_decimal_free((-spot.ts) as nat);
    }
    lemma_escape_round_trip(spot.comment);
    lemma_parse_signed_decimal(spot.ts, MIN_UNIX_TIMESTAMP as int, MAX_UNIX_TIMESTAMP as int);
    lemma_parse_unsigned_decimal(spot.freq as nat, u64::MAX as nat);
    lemma_parse_unsigned_decimal(spot.hop as nat, u32::MAX as nat);
    assert(free_of(fields[0], '|'));
    assert(free_of(fields[1], '|'));
    assert(free_of(fields[2], '|'));
    assert(free_of(fields[3], '|'));
    assert(free_of(fields[4], '|'));
    assert(free_of(fields[5], '|'));
    assert(free_of(fields[6], '|'));
    assert(free_of(fields[7], '|'));
    assert(free_of(fields[8], '|'));
    assert(fields[6] == escape(spot.comment));
    assert(fields[7] == origin_text(spot.origin));
    assert(fields[8] == decimal_digits(spot.hop as nat));
}

/// A spot that is written as a frame and read again is the same spot: for
/// every spot that can cross a link unchanged, whatever its comment holds.
pub proof fn lemma_spot_round_trip(spot: SpotModel)
    requires
        spot.wire_safe(),
    ensures
        parse_frame(frame_line(FrameModel::Spot { spot })) == Ok::<FrameModel, PeerParseError>(
            FrameModel::Spot { spot },
        ),
{
    let frame = FrameModel::Spot { spot };
    let fields = frame_fields(frame);
    let line = frame_line(frame);
    lemma_spot_fields(spot);
    lemma_split_join(fields, '|');
    reveal_strlit("SPOT");
    reveal_strlit("HELLO");
    reveal_strlit("CAPS");
    reveal_strlit("AUTH");
    reveal_strlit("HEARTBEAT");
    assert(fields[0] == "SPOT"@);
    assert(fields.last() == fields[8]);
    lemma_join_ends(fields, seq!['|']);
    assert(line[0] == 'S');
    assert(!is_whitespace(line.last()));
    lemma_trim_of_trimmed(line);
    assert("SPOT"@[0] != "HELLO"@[0]);
    assert("SPOT"@[0] != "CAPS"@[0]);
    assert("SPOT"@[0] != "AUTH"@[0]);
    assert("SPOT"@[0] != "HEARTBEAT"@[0]);
}

/// A text that can stand last in a line: it does not end in white space.
pub open spec fn ends_clean(s: Seq<char>) -> bool {
    s.len() == 0 || !is_whitespace(s.last())
}

impl FrameModel {
    /// Whether the frame can cross a link unchanged: no field holds a `|`,
    /// the last field does not end in white space, a token is not empty, a
    /// spot can cross a link unchanged, and each capability is a trimmed text
    /// that is not empty and holds no comma.
    pub open spec fn wire_safe(self) -> bool {
        match self {
            FrameModel::Hello { node_id, version } => free_of(node_id, '|') && free_of(
                version,
                '|',
            ) && ends_clean(version),
            FrameModel::Capabilities { values } => forall|i: int|
                0 <= i < values.len() ==> {
                    &&& (#[trigger] values[i]).len() > 0
                    &&& is_trimmed(values[i])
                    &&& free_of(values[i], ',')
                    &&& free_of(values[i], '|')
                },
            FrameModel::Auth { token } => token.len() > 0 && free_of(token, '|') && ends_clean(
                token,
            ),
            FrameModel::Spot { spot } => spot.wire_safe(),
            FrameModel::Heartbeat { nonce } => free_of(nonce, '|') && ends_clean(nonce),
            FrameModel::Ping { nonce } => free_of(nonce, '|') && ends_clean(nonce),
            FrameModel::Pong { nonce } => free_of(nonce, '|') && ends_clean(nonce),
        }
    }
}

proof fn lemma_keywords()
    ensures
        "HELLO"@ != "CAPS"@,
        "HELLO"@ != "AUTH"@,
        "HELLO"@ != "HEARTBEAT"@,
        "HELLO"@ != "SPOT"@,
        "HELLO"@ != "PING"@,
        "HELLO"@ != "PONG"@,
        "CAPS"@ != "AUTH"@,
        "CAPS"@ != "HEARTBEAT"@,
        "CAPS"@ != "SPOT"@,
        "CAPS"@ != "PING"@,
        "CAPS"@ != "PONG"@,
        "AUTH"@ != "HEARTBEAT"@,
        "AUTH"@ != "SPOT"@,
        "AUTH"@ != "PING"@,
        "AUTH"@ != "PONG"@,
        "HEARTBEAT"@ != "SPOT"@,
        "HEARTBEAT"@ != "PING"@,
        "HEARTBEAT"@ != "PONG"@,
        "SPOT"@ != "PING"@,
        "SPOT"@ != "PONG"@,
        "PING"@ != "PONG"@,
        forall|k: Seq<char>|
            k == "HELLO"@ || k == "CAPS"@ || k == "AUTH"@ || k == "HEARTBEAT"@ || k == "SPOT"@ || k
                == "PING"@ || k == "PONG"@ ==> #[trigger] k.len() > 0 && !is_whitespace(k[0])
                && free_of(k, '|'),
{
    reveal_strlit("HELLO");
    reveal_strlit("CAPS");
    reveal_strlit("AUTH");
    reveal_strlit("HEARTBEAT");
    reveal_strlit("SPOT");
    reveal_strlit("PING");
    reveal_strlit("PONG");
    assert("HELLO"@.len() == 5);
    assert("HEARTBEAT"@.len() == 9);
    assert("CAPS"@.len() == 4);
    assert("AUTH"@.len() == 4);
    assert("SPOT"@.len() == 4);
    assert("PING"@.len() == 4);
    assert("PONG"@.len() == 4);
    assert("CAPS"@[0] != "AUTH"@[0]);
    assert("CAPS"@[0] != "SPOT"@[0]);
    assert("CAPS"@[0] != "PING"@[0]);
    assert("CAPS"@[0] != "PONG"@[0]);
    assert("AUTH"@[0] != "SPOT"@[0]);
    assert("AUTH"@[0] != "PING"@[0]);
    assert("AUTH"@[0] != "PONG"@[0]);
    assert("SPOT"@[0] != "PING"@[0]);
    assert("SPOT"@[0] != "PONG"@[0]);
    assert("PING"@[1] != "PONG"@[1]);
}

proof fn lemma_trimmed_nonempty(values: Seq<Seq<char>>)
    requires
        forall|i: int|
            0 <= i < values.len() ==> (#[trigger] values[i]).len() > 0 && is_trimmed(values[i]),
    ensures
        trimmed_nonempty(values) == values,
    decreases values.len(),
{
    if values.len() > 0 {
        let front = values.drop_last();
        assert forall|i: int| 0 <= i < front.len() implies (#[trigger] front[i]).len() > 0
            && is_trimmed(front[i]) by {
            assert(front[i] == values[i]);
        }
        lemma_trimmed_nonempty(front);
        assert(values.last() == values[values.len() - 1]);
        lemma_trim_of_trimmed(values.last());
        assert(front.push(values.last()) =~= values);
    }
}

proof fn lemma_capabilities(values: Seq<Seq<char>>)
    requires
        forall|i: int|
            0 <= i < values.len() ==> {
                &&& (#[trigger] values[i]).len() > 0
                &&& is_trimmed(values[i])
                &&& free_of(values[i], ',')
                &&& free_of(values[i], '|')
            },
    ensures
        free_of(join(values, seq![',']), '|'),
        ends_clean(join(values, seq![','])),
        trimmed_nonempty(split(join(values, seq![',']), ',')) == values,
{
    let list = join(values, seq![',']);
    assert forall|i: int| 0 <= i < values.len() implies free_of(#[trigger] values[i], '|') by {}
    lemma_join_free(values, seq![','], '|');
    lemma_trimmed_nonempty(values);
    if values.len() == 0 {
        let empty = Seq::<char>::empty();
        assert(split(empty, ',') =~= seq![empty]);
        assert(seq![empty].drop_last() =~= Seq::<Seq<char>>::empty());
        assert(trimmed_nonempty(seq![empty].drop_last()) =~= Seq::<Seq<char>>::empty());
        assert(trim(empty).len() == 0);
        assert(trimmed_nonempty(seq![empty]) =~= values);
    } else {
        assert forall|i: int| 0 <= i < values.len() implies free_of(#[trigger] values[i], ',') by {}
        lemma_split_join(values, ',');
        assert(values.last() == values[values.len() - 1]);
        lemma_join_ends(values, seq![',']);
    }
}

proof fn lemma_line_trimmed(fields: Seq<Seq<char>>)
    requires
        fields.len() >= 2,
        fields[0].len() > 0,
        !is_whitespace(fields[0][0]),
        ends_clean(fields.last()),
    ensures
        trim(join(fields, seq!['|'])) == join(fields, seq!['|']),
        join(fields, seq!['|']).len() > 0,
{
    let line = join(fields, seq!['|']);
    lemma_join_starts(fields, seq!['|']);
    if fields.last().len() == 0 {
        lemma_join_ends_open(fields, seq!['|']);
    } else {
        lemma_join_ends(fields, seq!['|']);
    }
    lemma_trim_of_trimmed(line);
}

/// A frame that is written as a line and read again is the same frame: for
/// every frame that can cross a link unchanged.
pub proof fn lemma_frame_round_trip(frame: FrameModel)
    requires
        frame.wire_safe(),
    ensures
        parse_frame(frame_line(frame)) == Ok::<FrameModel, PeerParseError>(frame),
{
    let fields = frame_fields(frame);
    lemma_keywords();
    match frame {
        FrameModel::Spot { spot } => {
            lemma_spot_round_trip(spot);
        },
        FrameModel::Capabilities { values } => {
            lemma_capabilities(values);
            assert(fields.last() == fields[1]);
            assert forall|i: int| 0 <= i < fields.len() implies free_of(#[trigger] fields[i], '|') by {
                assert(i == 0 || i == 1);
            }
            lemma_split_join(fields, '|');
            lemma_line_trimmed(fields);
        },
        FrameModel::Hello { node_id, version } => {
            assert(fields.last() == fields[2]);
            assert forall|i: int| 0 <= i < fields.len() implies free_of(#[trigger] fields[i], '|') by {
                assert(i == 0 || i == 1 || i == 2);
            }
            lemma_split_join(fields, '|');
            lemma_line_trimmed(fields);
        },
        _ => {
            assert(fields.last() == fields[1]);
            assert forall|i: int| 0 <= i < fields.len() implies free_of(#[trigger] fields[i], '|') by {
                assert(i == 0 || i == 1);
            }
            lemma_split_join(fields, '|');
            lemma_line_trimmed(fields);
        },
    }
}

fn text_ends_clean(s: &[char]) -> (clean: bool)
    ensures
        clean == ends_clean(s@),
{
    s.len() == 0 || !char_is_whitespace(s[s.len() - 1])
}

fn callsign_crosses(call: &Callsign) -> (ok: bool)
    ensures
        ok == (is_canonical(call@) && free_of(call@, '|')),
{
    let cs = chars_of(call.as_str());
    call.is_canonical() && chars_free_of(cs.as_slice(), '|')
}

impl Spot {
    /// Whether the spot can cross a link unchanged. Where it can, the frame
    /// that carries it reads back as the same frame.
    pub fn is_wire_safe(&self) -> (safe: bool)
        ensures
            safe == self@.wire_safe(),
            safe ==> parse_frame(frame_line(FrameModel::Spot { spot: self@ })) == Ok::<
                FrameModel,
                PeerParseError,
            >(FrameModel::Spot { spot: self@ }),
    {
        let seconds = self.ts.unix_timestamp();
        let origin_ok = match &self.origin {
            Some(id) => {
                let cs = chars_of(id.0.as_str());
                cs.len() > 0 && chars_free_of(cs.as_slice(), '|')
            },
            None => true,
        };
        let safe = callsign_crosses(&self.dx) && callsign_crosses(&self.spotter) && origin_ok;
        proof {
            if safe {
                lemma_spot_round_trip(self@);
            }
        }
        safe
    }
}

impl PeerFrame {
    /// Whether the frame can cross a link unchanged. Where it can, its line
    /// reads back as the same frame.
    pub fn is_wire_safe(&self) -> (safe: bool)
        ensures
            safe == self@.wire_safe(),
            safe ==> parse_frame(frame_line(self@)) == Ok::<FrameModel, PeerParseError>(self@),
    {
        let safe = match self {
            PeerFrame::Hello { node_id, version } => {
                let id = chars_of(node_id.0.as_str());
                let v = chars_of(version.as_str());
                chars_free_of(id.as_slice(), '|') && chars_free_of(v.as_slice(), '|')
                    && text_ends_clean(v.as_slice())
            },
            PeerFrame::Capabilities { values } => {
                let mut all = true;
                let mut i: usize = 0;
                while i < values.len()
                    invariant
                        i <= values.len(),
                        all == (forall|k: int|
                            0 <= k < i ==> {
                                &&& (#[trigger] values@[k])@.len() > 0
                                &&& is_trimmed(values@[k]@)
                                &&& free_of(values@[k]@, ',')
                                &&& free_of(values@[k]@, '|')
                            }),
                    decreases values.len() - i,
                {
                    let v = chars_of(values[i].as_str());
                    let ok = v.len() > 0 && chars_are_trimmed(v.as_slice()) && chars_free_of(
                        v.as_slice(),
                        ',',
                    ) && chars_free_of(v.as_slice(), '|');
                    if !ok {
                        all = false;
                    }
                    i += 1;
                }
                proof {
                    let texts = string_views(values@);
                    if all {
                        assert forall|k: int| 0 <= k < texts.len() implies {
                            &&& (#[trigger] texts[k]).len() > 0
                            &&& is_trimmed(texts[k])
                            &&& free_of(texts[k], ',')
                            &&& free_of(texts[k], '|')
                        } by {
                            assert(texts[k] == values@[k]@);
                        }
                    } else {
                        let k = choose|k: int|
                            0 <= k < values@.len() && !({
                                &&& (#[trigger] values@[k])@.len() > 0
                                &&& is_trimmed(values@[k]@)
                                &&& free_of(values@[k]@, ',')
                                &&& free_of(values@[k]@, '|')
                            });
                        assert(texts[k] == values@[k]@);
                    }
                }
                all
            },
            PeerFrame::Auth { token } => {
                let t = chars_of(token.as_str());
                t.len() > 0 && chars_free_of(t.as_slice(), '|') && text_ends_clean(t.as_slice())
            },
            PeerFrame::Spot { spot } => spot.is_wire_safe(),
            PeerFrame::Heartbeat { nonce } => {
                let n = chars_of(nonce.as_str());
                chars_free_of(n.as_slice(), '|') && text_ends_clean(n.as_slice())
            },
            PeerFrame::Ping { nonce } => {
                let n = chars_of(nonce.as_str());
                chars_free_of(n.as_slice(), '|') && text_ends_clean(n.as_slice())
            },
            PeerFrame::Pong { nonce } => {
                let n = chars_of(nonce.as_str());
                chars_free_of(n.as_slice(), '|') && text_ends_clean(n.as_slice())
            },
        };
        proof {
            if safe {
                lemma_frame_round_trip(self@);
            }
        }
        safe
    }
}

} // verus!
