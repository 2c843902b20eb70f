//! The SUS chart format: its errors, base-36 fields, positions and records.

use vstd::prelude::*;
use vstd::string::{StringExecFns, StringSliceAdditionalSpecFns};
use vstd::utf8::{decode_utf8, valid_utf8};

use crate::arith::{gcd_u64, normalizer};
use crate::error::ChartError;
use crate::note::{ExDirection, Lane, SideButton, SlidePointKind, TapKind};
use crate::position::{
    lemma_from_fraction, lemma_reduced_form_value, lemma_same_value_same_position, lemma_terms_fit,
    lemma_valid_denominator, reduced, sum, Position,
};
use crate::std_text::lossy_text;
use crate::text::{
    all_ascii, ascii_chars, char_bytes, chars_of, digit, digit_byte, digit_char, digit_value, digits_of,
    lemma_digits_round_trip, numeral_value,
    first_word, first_word_spec, line_prefix, line_text, padded_digits, parse_chars, parse_chars_spec,
    push_padded, push_quoted, push_zero_pairs, quoted, split_once, split_once_spec, string_of,
};
use crate::timeline::MeasureTimeline;

verus! {

/// Why a SUS document could not be read or written.
#[derive(Debug, PartialEq)]
pub enum SusError {
    MalformedCommand { line: usize },
    InvalidValue { line: usize, value: String },
    UnsupportedCommand { line: usize, command: String },
    Chart { line: usize, source: ChartError },
    MissingStart { line: usize, channel: char },
    MissingEnd { channel: char },
    UnsupportedNote { note: String },
    UnrepresentablePosition,
}

impl SusError {
    /// The sentence that describes the error.
    pub open spec fn text(&self) -> Seq<char> {
        match self {
            SusError::MalformedCommand { line } => line_text(*line as nat) + "malformed command"@,
            SusError::InvalidValue { line, value } => line_text(*line as nat) + "invalid value "@ + quoted(value@),
            SusError::UnsupportedCommand { line, command } => line_text(*line as nat) + "unsupported command "@
                + quoted(command@),
            SusError::Chart { line, source } => line_text(*line as nat) + source.text(),
            SusError::MissingStart { line, channel } => line_text(*line as nat) + "channel "@ + quoted(seq![*channel])
                + " has no start point"@,
            SusError::MissingEnd { channel } => "channel "@ + quoted(seq![*channel]) + " has no end point"@,
            SusError::UnsupportedNote { note } => "cannot represent "@ + quoted(note@) + " in the supported SUS output"@,
            SusError::UnrepresentablePosition => "position cannot be represented at the SUS resolution"@,
        }
    }

    /// The sentence that describes the error.
    pub fn message(&self) -> (text: String)
        ensures
            text@ == self.text(),
    {
        match self {
            SusError::MalformedCommand { line } => {
                let mut text = line_prefix(*line);
                text.append("malformed command");
                text
            },
            SusError::InvalidValue { line, value } => {
                let mut text = line_prefix(*line);
                text.append("invalid value ");
                push_quoted(&mut text, value.as_str());
                text
            },
            SusError::UnsupportedCommand { line, command } => {
                let mut text = line_prefix(*line);
                text.append("unsupported command ");
                push_quoted(&mut text, command.as_str());
                text
            },
            SusError::Chart { line, source } => {
                let mut text = line_prefix(*line);
                text.append(source.message());
                text
            },
            SusError::MissingStart { line, channel } => {
                let mut text = line_prefix(*line);
                text.append("channel ");
                text.append("`");
                text.push(*channel);
                text.append("`");
                text.append(" has no start point");
                proof {
                    assert(text@ =~= self.text());
                }
                text
            },
            SusError::MissingEnd { channel } => {
                let mut text = String::from_str("channel ");
                text.append("`");
                text.push(*channel);
                text.append("`");
                text.append(" has no end point");
                proof {
                    assert(text@ =~= self.text());
                }
                text
            },
            SusError::UnsupportedNote { note } => {
                let mut text = String::from_str("cannot represent ");
                push_quoted(&mut text, note.as_str());
                text.append(" in the supported SUS output");
                text
            },
            SusError::UnrepresentablePosition => String::from_str(
                "position cannot be represented at the SUS resolution",
            ),
        }
    }
}

/// Errors that only mean some chart information cannot be written.
pub open spec fn is_loss_spec(error: &SusError) -> bool {
    error is UnsupportedNote || error is UnrepresentablePosition
}

/// Whether the error only means that some chart information cannot be written.
pub fn is_loss(error: &SusError) -> (loss: bool)
    ensures
        loss == is_loss_spec(error),
{
    match error {
        SusError::UnsupportedNote { .. } | SusError::UnrepresentablePosition => true,
        _ => false,
    }
}

/// The error for a data token that means nothing at its place.
pub fn invalid_token(line: usize, token: &[u8]) -> (error: SusError)
    ensures
        error matches SusError::InvalidValue { line: l, value } && l == line && (valid_utf8(token@) ==> value@
            == decode_utf8(token@)),
{
    SusError::InvalidValue { line, value: lossy_text(token) }
}

/// The error for a byte that is not a base-36 digit: its text is the byte
/// taken as a Latin-1 character.
fn invalid_digit(line: usize, value: u8) -> (error: SusError)
    ensures
        error matches SusError::InvalidValue { line: l, value: v } && l == line && v@ == seq![value as char],
{
    let mut text = String::new();
    text.push(value as char);
    SusError::InvalidValue { line, value: text }
}

/// Reads a base-36 digit, in either letter case.
pub fn base36_byte(value: u8, line: usize) -> (result: Result<u8, SusError>)
    ensures
        match digit_value(value, 36) {
            Some(v) => result == Ok::<u8, SusError>(v as u8),
            None => result matches Err(SusError::InvalidValue { line: l, value: t }) && l == line && t@ == seq![
                value as char,
            ],
        },
{
    match digit(value, 36) {
        Some(v) => Ok(v),
        None => Err(invalid_digit(line, value)),
    }
}

/// The byte a character is cut to: its code point modulo 256.
pub open spec fn low_byte(c: char) -> u8 {
    ((c as u32) % 256) as u8
}

/// Reads a base-36 digit given as a character, cut to its low byte.
pub fn base36(value: char, line: usize) -> (result: Result<u8, SusError>)
    ensures
        match digit_value(low_byte(value), 36) {
            Some(v) => result == Ok::<u8, SusError>(v as u8),
            None => result matches Err(SusError::InvalidValue { line: l, value: t }) && l == line && t@ == seq![
                low_byte(value) as char,
            ],
        },
{
    let byte = ((value as u32) % 256) as u8;
    base36_byte(byte, line)
}

/// The group of a two-digit base-36 speed group field.
pub open spec fn group_value(bytes: Seq<u8>) -> Option<nat> {
    if bytes.len() == 2 {
        match (digit_value(bytes[0], 36), digit_value(bytes[1], 36)) {
            (Some(high), Some(low)) => Some(high * 36 + low),
            _ => None,
        }
    } else {
        None
    }
}

/// Reads a two-digit base-36 group number.
pub fn parse_group(line: usize, value: &str) -> (result: Result<u32, SusError>)
    ensures
        value.spec_bytes().len() != 2 ==> result == Err::<u32, SusError>(SusError::MalformedCommand { line }),
        value.spec_bytes().len() == 2 ==> match group_value(value.spec_bytes()) {
            Some(g) => result == Ok::<u32, SusError>(g as u32),
            None => result matches Err(SusError::InvalidValue { line: l, .. }) && l == line,
        },
{
    let bytes = value.as_bytes();
    if bytes.len() != 2 {
        return Err(SusError::MalformedCommand { line });
    }
    let high = base36_byte(bytes[0], line)? as u32;
    let low = base36_byte(bytes[1], line)? as u32;
    Ok(high * 36 + low)
}

/// The characters of a speed group number as written: two lower-case
/// base-36 digits.
pub open spec fn group_text(group: nat) -> Seq<char> {
    seq![digit_byte(group / 36) as char, digit_byte(group % 36) as char]
}

/// Writes a speed group number as two base-36 digits.
pub fn speed_group_text(group: u32) -> (text: String)
    requires
        group < 36 * 36,
    ensures
        text@ == group_text(group as nat),
{
    let mut text = String::new();
    text.push(digit_char((group / 36) as u8));
    text.push(digit_char((group % 36) as u8));
    text
}

/// Every speed group number that SUS can write is read back unchanged.
pub proof fn lemma_group_round_trip(group: nat)
    requires
        group < 36 * 36,
    ensures
        group_value(char_bytes(group_text(group))) == Some(group),
{
    let high = group / 36;
    let low = group % 36;
    assert(char_bytes(group_text(group)) =~= seq![digit_byte(high), digit_byte(low)]);
}

/// A speed group SUS can write, that is, below 36 * 36.
pub fn speed_group(group: u32) -> (result: Result<u32, SusError>)
    ensures
        group < 36 * 36 ==> result == Ok::<u32, SusError>(group),
        group >= 36 * 36 ==> result matches Err(SusError::UnrepresentablePosition),
{
    if group < 36 * 36 {
        Ok(group)
    } else {
        Err(SusError::UnrepresentablePosition)
    }
}

/// The lower-case base-36 digit of a value below 36.
pub fn base36_digit(value: u8) -> (c: char)
    requires
        value < 36,
    ensures
        c == digit_byte(value as nat) as char,
{
    digit_char(value)
}

/// The long-note channel with the given index: one base-36 digit.
pub fn channel(index: usize) -> (result: Result<char, SusError>)
    ensures
        index < 36 ==> result == Ok::<char, SusError>(digit_byte(index as nat) as char),
        index >= 36 ==> result matches Err(SusError::UnrepresentablePosition),
{
    if index < 36 {
        Ok(digit_char(index as u8))
    } else {
        Err(SusError::UnrepresentablePosition)
    }
}

/// The SUS metadata commands, which hold no chart data.
pub open spec fn is_metadata_word(word: Seq<char>) -> bool {
    ||| word == "TITLE"@
    ||| word == "SUBTITLE"@
    ||| word == "ARTIST"@
    ||| word == "GENRE"@
    ||| word == "DESIGNER"@
    ||| word == "DIFFICULTY"@
    ||| word == "PLAYLEVEL"@
    ||| word == "SONGID"@
    ||| word == "WAVE"@
    ||| word == "WAVEOFFSET"@
    ||| word == "JACKET"@
    ||| word == "BACKGROUND"@
    ||| word == "MOVIE"@
    ||| word == "MOVIEOFFSET"@
    ||| word == "BASEBPM"@
}

/// Whether a command's first word names a metadata command.
pub fn is_metadata(command: &str) -> (metadata: bool)
    ensures
        metadata == (first_word_spec(command@) matches Some(word) && is_metadata_word(word)),
{
    let chars = chars_of(command);
    match first_word(chars.as_slice()) {
        None => false,
        Some(word) => {
            let word = string_of(word.as_slice());
            let w = word.as_str();
            crate::text::text_is(w, "TITLE") || crate::text::text_is(w, "SUBTITLE") || crate::text::text_is(w, "ARTIST")
                || crate::text::text_is(w, "GENRE") || crate::text::text_is(w, "DESIGNER") || crate::text::text_is(
                w,
                "DIFFICULTY",
            ) || crate::text::text_is(w, "PLAYLEVEL") || crate::text::text_is(w, "SONGID") || crate::text::text_is(
                w,
                "WAVE",
            ) || crate::text::text_is(w, "WAVEOFFSET") || crate::text::text_is(w, "JACKET") || crate::text::text_is(
                w,
                "BACKGROUND",
            ) || crate::text::text_is(w, "MOVIE") || crate::text::text_is(w, "MOVIEOFFSET") || crate::text::text_is(
                w,
                "BASEBPM",
            )
        },
    }
}

/// The measure and tick of a `measure'tick` text.
pub open spec fn measure_tick_spec(value: Seq<char>) -> Option<(nat, nat)> {
    match split_once_spec(value, '\'') {
        Some((m, t)) => match (parse_chars_spec(m, 10, u32::MAX as nat), parse_chars_spec(t, 10, u64::MAX as nat)) {
            (Some(measure), Some(tick)) => Some((measure, tick)),
            _ => None,
        },
        None => None,
    }
}

/// Reads a `measure'tick` position.
pub fn parse_measure_tick(line: usize, value: &str) -> (result: Result<(u32, u64), SusError>)
    ensures
        match measure_tick_spec(value@) {
            Some((m, t)) => result == Ok::<(u32, u64), SusError>((m as u32, t as u64)),
            None => result is Err,
        },
        split_once_spec(value@, '\'') is None ==> result == Err::<(u32, u64), SusError>(
            SusError::MalformedCommand { line },
        ),
        split_once_spec(value@, '\'') matches Some((m, t)) ==> (parse_chars_spec(m, 10, u32::MAX as nat) is None
            ==> (result matches Err(SusError::InvalidValue { line: l, value: v }) && l == line && v@ == m)),
        split_once_spec(value@, '\'') matches Some((m, t)) ==> (parse_chars_spec(m, 10, u32::MAX as nat) is Some
            && parse_chars_spec(t, 10, u64::MAX as nat) is None ==> (result matches Err(
            SusError::InvalidValue { line: l, value: v },
        ) && l == line && v@ == t)),
{
    let chars = chars_of(value);
    let (measure, tick) = match split_once(chars.as_slice(), '\'') {
        Some(parts) => parts,
        None => return Err(SusError::MalformedCommand { line }),
    };
    let measure_value = match parse_chars(measure.as_slice(), 10, u32::MAX as u64) {
        Some(v) => v,
        None => return Err(SusError::InvalidValue { line, value: string_of(measure.as_slice()) }),
    };
    let tick_value = match parse_chars(tick.as_slice(), 10, u64::MAX) {
        Some(v) => v,
        None => return Err(SusError::InvalidValue { line, value: string_of(tick.as_slice()) }),
    };
    Ok((measure_value as u32, tick_value))
}

/// The SUS side button written at a lane.
pub fn side_button(lane: u8) -> (button: Option<SideButton>)
    ensures
        button == SideButton::from_lane_start_spec(lane),
{
    SideButton::from_xlair_lane_start(lane)
}

/// The lane at which a side button is written.
pub fn side_lane(button: SideButton) -> (lane: u8)
    ensures
        lane == button.lane_start_spec(),
{
    button.xlair_lane_start()
}

/// The direction code of an XLAIR side button in directional data.
pub open spec fn side_direction_spec(button: SideButton) -> char {
    match button {
        SideButton::LeftUpper => '3',
        SideButton::RightUpper => '4',
        SideButton::LeftLower => '5',
        SideButton::RightLower => '6',
    }
}

/// The direction code of an XLAIR side button in directional data.
pub fn side_direction(button: SideButton) -> (code: char)
    ensures
        code == side_direction_spec(button),
{
    match button {
        SideButton::LeftUpper => '3',
        SideButton::RightUpper => '4',
        SideButton::LeftLower => '5',
        SideButton::RightLower => '6',
    }
}

/// The direction code of an Ex direction in standard SUS directional data.
pub open spec fn standard_ex_direction_spec(direction: ExDirection) -> Option<char> {
    match direction {
        ExDirection::Up => Some('1'),
        ExDirection::Down => Some('2'),
        ExDirection::UpperLeft => Some('3'),
        ExDirection::UpperRight => Some('4'),
        ExDirection::LowerLeft => Some('5'),
        ExDirection::LowerRight => Some('6'),
        _ => None,
    }
}

/// The direction code of an Ex direction in standard SUS directional data.
pub fn standard_ex_direction(direction: ExDirection) -> (result: Result<char, SusError>)
    ensures
        match standard_ex_direction_spec(direction) {
            Some(c) => result == Ok::<char, SusError>(c),
            None => (result matches Err(SusError::UnsupportedNote { note }) && note@ == "standard SUS ExTap direction"@),
        },
{
    match direction {
        ExDirection::Up => Ok('1'),
        ExDirection::Down => Ok('2'),
        ExDirection::UpperLeft => Ok('3'),
        ExDirection::UpperRight => Ok('4'),
        ExDirection::LowerLeft => Ok('5'),
        ExDirection::LowerRight => Ok('6'),
        _ => Err(SusError::UnsupportedNote { note: String::from_str("standard SUS ExTap direction") }),
    }
}

/// The start lane of a slider lane; SUS writes no other lane here.
pub fn central_lane(lane: Lane, note: &str) -> (result: Result<u8, SusError>)
    ensures
        match lane {
            Lane::Slider { start, .. } => result == Ok::<u8, SusError>(start),
            Lane::Side(_) => result matches Err(SusError::UnsupportedNote { note: n }) && n@ == note@,
        },
{
    match lane {
        Lane::Slider { start, .. } => Ok(start),
        Lane::Side(_) => Err(SusError::UnsupportedNote { note: note.to_owned() }),
    }
}

/// The width of a slider lane; SUS writes no other lane here.
pub fn lane_width(lane: Lane) -> (result: Result<u8, SusError>)
    ensures
        match lane {
            Lane::Slider { width, .. } => result == Ok::<u8, SusError>(width),
            Lane::Side(_) => (result matches Err(SusError::UnsupportedNote { note }) && note@ == "side lane"@),
        },
{
    match lane {
        Lane::Slider { width, .. } => Ok(width),
        Lane::Side(_) => Err(SusError::UnsupportedNote { note: String::from_str("side lane") }),
    }
}

/// The least common multiple as SUS computes it: `a / gcd(a, b) * b`, when
/// that fits in 64 bits.
pub open spec fn lcm_spec(a: nat, b: nat) -> Option<nat> {
    if (a / normalizer(a, b)) * b <= u64::MAX {
        Some((a / normalizer(a, b)) * b)
    } else {
        None
    }
}

/// The least common multiple, if it fits in 64 bits.
pub fn lcm(left: u64, right: u64) -> (result: Option<u64>)
    ensures
        match lcm_spec(left as nat, right as nat) {
            Some(v) => result == Some(v as u64),
            None => result is None,
        },
{
    let divisor = gcd_u64(left, right);
    let quotient = left / divisor;
    quotient.checked_mul(right)
}

/// The least common multiple is a multiple of both numbers.
pub proof fn lemma_lcm_is_common_multiple(a: nat, b: nat)
    requires
        a > 0,
        b > 0,
        lcm_spec(a, b) is Some,
    ensures
        lcm_spec(a, b)->0 % a == 0,
        lcm_spec(a, b)->0 % b == 0,
        lcm_spec(a, b)->0 > 0,
{
    crate::arith::lemma_reduced_is_coprime(a, b);
    let g = crate::arith::gcd_spec(a, b);
    assert(normalizer(a, b) == g);
    let l = (a / g) * b;
    let bg = b / g;
    assert(l == a * bg) by (nonlinear_arith)
        requires
            a == g * (a / g),
            b == g * bg,
            l == (a / g) * b,
    ;
    assert(l > 0) by (nonlinear_arith)
        requires
            l == a * bg,
            a > 0,
            b == g * bg,
            b > 0,
    ;
    vstd::arithmetic::div_mod::lemma_mod_multiples_basic(bg as int, a as int);
    vstd::arithmetic::div_mod::lemma_mod_multiples_basic((a / g) as int, b as int);
    assert(l % a == 0) by (nonlinear_arith)
        requires
            l == a * bg,
            ((bg * a) as int) % (a as int) == 0,
    ;
    assert(l % b == 0) by (nonlinear_arith)
        requires
            l == (a / g) * b,
            (((a / g) * b) as int) % (b as int) == 0,
    ;
}

/// The value `10^k`.
pub open spec fn ten_pow(k: nat) -> nat
    decreases k,
{
    if k == 0 {
        1
    } else {
        10 * ten_pow((k - 1) as nat)
    }
}

/// The position a decimal measure length such as `3.5` denotes, or `None`
/// where the text is no such number or the scaled numerator overflows.
pub open spec fn position_text_spec(value: Seq<char>) -> Option<Position> {
    let (integer, fraction) = match split_once_spec(value, '.') {
        Some(parts) => parts,
        None => (value, Seq::empty()),
    };
    let fraction_value = if fraction.len() == 0 {
        Some(0nat)
    } else {
        parse_chars_spec(fraction, 10, u64::MAX as nat)
    };
    match (parse_chars_spec(integer, 10, u64::MAX as nat), fraction_value) {
        (Some(i), Some(f)) => {
            let d = ten_pow(fraction.len());
            if d <= u64::MAX && i * d + f <= u64::MAX {
                Some(Position::from_fraction(i * d + f, d))
            } else {
                None
            }
        },
        _ => None,
    }
}

/// `10^k`, if it fits in 64 bits.
fn checked_ten_pow(k: usize) -> (result: Option<u64>)
    ensures
        ten_pow(k as nat) <= u64::MAX ==> result == Some(ten_pow(k as nat) as u64),
        ten_pow(k as nat) > u64::MAX ==> result is None,
{
    let mut value: u64 = 1;
    let mut i: usize = 0;
    while i < k
        invariant
            i <= k,
            value == ten_pow(i as nat),
        decreases k - i,
    {
        match value.checked_mul(10) {
            Some(v) => value = v,
            None => {
                proof {
                    lemma_ten_pow_grows(i as nat + 1, k as nat);
                }
                return None;
            },
        }
        i += 1;
    }
    Some(value)
}

proof fn lemma_ten_pow_grows(a: nat, b: nat)
    requires
        a <= b,
    ensures
        ten_pow(a) <= ten_pow(b),
    decreases b - a,
{
    if a < b {
        lemma_ten_pow_grows(a, (b - 1) as nat);
        assert(ten_pow((b - 1) as nat) >= 1) by {
            lemma_ten_pow_positive((b - 1) as nat);
        }
    }
}

proof fn lemma_ten_pow_positive(k: nat)
    ensures
        ten_pow(k) >= 1,
    decreases k,
{
    if k > 0 {
        lemma_ten_pow_positive((k - 1) as nat);
    }
}

/// Reads a decimal measure length such as `4` or `3.5` as an exact fraction.
pub fn parse_position(value: &str) -> (result: Result<Position, ()>)
    ensures
        match position_text_spec(value@) {
            Some(p) => result == Ok::<Position, ()>(p),
            None => result is Err,
        },
{
    let chars = chars_of(value);
    let (integer, fraction) = match split_once(chars.as_slice(), '.') {
        Some(parts) => parts,
        None => (chars, Vec::new()),
    };
    let integer_value = match parse_chars(integer.as_slice(), 10, u64::MAX) {
        Some(v) => v,
        None => return Err(()),
    };
    let fraction_value = if fraction.len() == 0 {
        0
    } else {
        match parse_chars(fraction.as_slice(), 10, u64::MAX) {
            Some(v) => v,
            None => return Err(()),
        }
    };
    let denominator = match checked_ten_pow(fraction.len()) {
        Some(d) => d,
        None => return Err(()),
    };
    let numerator = match integer_value.checked_mul(denominator) {
        Some(v) => match v.checked_add(fraction_value) {
            Some(n) => n,
            None => return Err(()),
        },
        None => return Err(()),
    };
    proof {
        lemma_ten_pow_positive(fraction@.len());
    }
    match Position::new(numerator, denominator) {
        Ok(p) => Ok(p),
        Err(_) => Err(()),
    }
}

/// The decimal fraction digits of `r / d` for `0 < r < d`, written until the
/// remainder is zero, or `None` where more than `budget` digits are needed or
/// the remainder times ten overflows.
pub open spec fn fraction_digits(r: nat, d: nat, budget: nat) -> Option<Seq<u8>>
    decreases budget,
{
    if budget == 0 || d == 0 {
        None
    } else {
        let scaled = r * 10;
        if scaled > u64::MAX {
            None
        } else {
            let digit = (48 + scaled / d) as u8;
            if scaled % d == 0 {
                Some(seq![digit])
            } else {
                match fraction_digits(scaled % d, d, (budget - 1) as nat) {
                    Some(rest) => Some(seq![digit] + rest),
                    None => None,
                }
            }
        }
    }
}

/// How SUS writes a measure length: its integer part, then a point and the
/// decimal digits of the rest when there is one.
pub open spec fn position_text(position: Position) -> Option<Seq<char>> {
    let integer = position.num() / position.den();
    let remainder = position.num() % position.den();
    if remainder == 0 {
        Some(ascii_chars(digits_of(integer, 10)))
    } else {
        match fraction_digits(remainder, position.den(), 18) {
            Some(f) => Some(ascii_chars(digits_of(integer, 10)) + "."@ + ascii_chars(f)),
            None => None,
        }
    }
}

/// Writes a measure length as a decimal number with up to eighteen fraction
/// digits; the last digit written is never zero, so no zeros are trimmed.
pub fn format_position(position: Position) -> (result: Result<String, SusError>)
    ensures
        match position_text(position) {
            Some(text) => result matches Ok(s) && s@ == text,
            None => result matches Err(SusError::UnrepresentablePosition),
        },
{
    let n = position.numerator();
    let d = position.denominator();
    let integer = n / d;
    let mut remainder = n % d;
    let mut text = String::new();
    crate::text::push_digits(&mut text, integer, 10);
    if remainder == 0 {
        return Ok(text);
    }
    text.append(".");
    let ghost prefix = text@;
    let mut written: Vec<u8> = Vec::new();
    let mut count: usize = 0;
    while count < 18
        invariant
            count <= 18,
            d == position.den(),
            d > 0,
            0 < remainder < d,
            position_text(position) == match fraction_digits(remainder as nat, d as nat, (18 - count) as nat) {
                Some(f) => Some(prefix + ascii_chars(written@ + f)),
                None => None::<Seq<char>>,
            },
            text@ == prefix + ascii_chars(written@),
        decreases 18 - count,
    {
        let scaled = match remainder.checked_mul(10) {
            Some(v) => v,
            None => return Err(SusError::UnrepresentablePosition),
        };
        proof {
            assert(scaled / d < 10) by (nonlinear_arith)
                requires
                    scaled == remainder * 10,
                    remainder < d,
                    d > 0,
            ;
        }
        let digit: u64 = scaled / d;
        let digit_byte: u8 = 48 + digit as u8;
        let ghost before = written@;
        written.push(digit_byte);
        text.push(digit_byte as char);
        proof {
            assert(ascii_chars(written@) =~= ascii_chars(before).push(digit_byte as char));
            assert forall|f: Seq<u8>| before + (seq![digit_byte] + f) == #[trigger] (written@ + f) by {
                assert(before + (seq![digit_byte] + f) =~= written@ + f);
            }
        }
        remainder = scaled % d;
        count += 1;
        if remainder == 0 {
            proof {
                assert(written@ + Seq::<u8>::empty() == written@);
                assert(before + seq![digit_byte] == written@);
            }
            return Ok(text);
        }
    }
    Err(SusError::UnrepresentablePosition)
}

/// The number of decimal places SUS writes for a measure length.
pub open spec fn position_text_places(position: Position) -> nat {
    let remainder = position.num() % position.den();
    if remainder == 0 {
        0
    } else {
        match fraction_digits(remainder, position.den(), 18) {
            Some(f) => f.len(),
            None => 0,
        }
    }
}

/// A measure length times ten to the number of decimal places written for
/// it: the number that its decimal digits spell when read as one.
pub open spec fn position_text_scaled(position: Position) -> nat {
    position.num() * ten_pow(position_text_places(position)) / position.den()
}

/// Every byte is an ASCII decimal digit.
pub open spec fn decimal_bytes(bytes: Seq<u8>) -> bool {
    forall|j: int| 0 <= j < bytes.len() ==> 48 <= #[trigger] bytes[j] <= 57
}

proof fn lemma_decimal_digits(n: nat)
    ensures
        decimal_bytes(digits_of(n, 10)),
    decreases n,
{
    if n >= 10 {
        lemma_decimal_digits(n / 10);
        let high = digits_of(n / 10, 10);
        let s = digits_of(n, 10);
        assert(s == high.push(digit_byte(n % 10)));
        assert forall|j: int| 0 <= j < s.len() implies 48 <= #[trigger] s[j] <= 57 by {
            if j < high.len() {
                assert(s[j] == high[j]);
            }
        }
    }
}

/// Appending digits multiplies the value of the leading ones by ten per
/// digit appended.
proof fn lemma_numeral_append(a: Seq<u8>, b: Seq<u8>)
    requires
        numeral_value(a, 10) is Some,
        numeral_value(b, 10) is Some,
    ensures
        numeral_value(a + b, 10) == Some(numeral_value(a, 10)->0 * ten_pow(b.len()) + numeral_value(b, 10)->0),
    decreases b.len(),
{
    if b.len() == 0 {
        assert(a + b =~= a);
        assert(ten_pow(0) == 1);
        assert(numeral_value(b, 10) == Some(0nat));
        assert(numeral_value(a, 10)->0 * 1 == numeral_value(a, 10)->0);
    } else {
        let c = b.drop_last();
        assert((a + b).drop_last() =~= a + c);
        assert((a + b).last() == b.last());
        lemma_numeral_append(a, c);
        let va = numeral_value(a, 10)->0;
        let vc = numeral_value(c, 10)->0;
        let low = digit_value(b.last(), 10)->0;
        let k = c.len();
        let tk = ten_pow(k);
        let tb = ten_pow(b.len());
        assert(tb == 10 * tk);
        assert((va * tk + vc) * 10 + low == va * tb + (vc * 10 + low)) by (nonlinear_arith)
            requires
                tb == 10 * tk,
        ;
        assert(numeral_value(b, 10) == Some(vc * 10 + low));
        assert(numeral_value(a + c, 10) == Some(va * tk + vc));
        assert(numeral_value(a + b, 10) == Some((va * tk + vc) * 10 + low));
    }
}

/// The digits written for the part of a measure length below one spell that
/// part times a power of ten.
proof fn lemma_fraction_digits_value(r: nat, d: nat, budget: nat)
    requires
        0 < r < d,
        fraction_digits(r, d, budget) is Some,
    ensures
        ({
            let f = fraction_digits(r, d, budget)->0;
            &&& 0 < f.len() <= budget
            &&& decimal_bytes(f)
            &&& numeral_value(f, 10) is Some
            &&& numeral_value(f, 10)->0 * d == r * ten_pow(f.len())
        }),
    decreases budget,
{
    let scaled = r * 10;
    let q = scaled / d;
    let m = scaled % d;
    assert(q < 10 && q * d + m == scaled && m < d) by (nonlinear_arith)
        requires
            scaled == r * 10,
            r < d,
            d > 0,
            q == scaled / d,
            m == scaled % d,
    ;
    let digit = (48 + q) as u8;
    let single = seq![digit];
    assert(single.drop_last() =~= Seq::<u8>::empty());
    assert(numeral_value(Seq::<u8>::empty(), 10) == Some(0nat));
    assert(digit_value(digit, 10) == Some(q));
    assert(numeral_value(single, 10) == Some(q));
    if m == 0 {
        assert(ten_pow(1) == 10) by {
            reveal_with_fuel(ten_pow, 2);
        }
        assert(fraction_digits(r, d, budget) == Some(single));
    } else {
        lemma_fraction_digits_value(m, d, (budget - 1) as nat);
        let rest = fraction_digits(m, d, (budget - 1) as nat)->0;
        assert(fraction_digits(r, d, budget) == Some(single + rest));
        lemma_numeral_append(single, rest);
        let vr = numeral_value(rest, 10)->0;
        let k = rest.len();
        let f = single + rest;
        let tk = ten_pow(k);
        let tf = ten_pow(f.len());
        assert(tf == 10 * tk);
        assert((q * tk + vr) * d == r * tf) by (nonlinear_arith)
            requires
                vr * d == m * tk,
                q * d + m == r * 10,
                tf == 10 * tk,
        ;
        assert forall|j: int| 0 <= j < f.len() implies 48 <= #[trigger] f[j] <= 57 by {
            if j > 0 {
                assert(f[j] == rest[j - 1]);
            }
        }
    }
}

/// ASCII digits as characters hold no point and give their bytes back.
proof fn lemma_decimal_text(bytes: Seq<u8>)
    requires
        decimal_bytes(bytes),
    ensures
        all_ascii(ascii_chars(bytes)),
        char_bytes(ascii_chars(bytes)) == bytes,
        forall|j: int| 0 <= j < bytes.len() ==> ascii_chars(bytes)[j] != '.',
{
    assert forall|j: int| 0 <= j < bytes.len() implies (ascii_chars(bytes)[j] as u32) < 128 && (
    ascii_chars(bytes)[j] as u8) == bytes[j] && ascii_chars(bytes)[j] != '.' by {
        let b = bytes[j];
        assert(48 <= b <= 57);
        assert(ascii_chars(bytes)[j] == b as char);
    }
    assert(char_bytes(ascii_chars(bytes)) =~= bytes);
}

/// Decimal digits read as a number give their value.
proof fn lemma_parse_decimal(bytes: Seq<u8>)
    requires
        decimal_bytes(bytes),
        bytes.len() > 0,
        numeral_value(bytes, 10) is Some,
        numeral_value(bytes, 10)->0 <= u64::MAX,
    ensures
        parse_chars_spec(ascii_chars(bytes), 10, u64::MAX as nat) == numeral_value(bytes, 10),
{
    lemma_decimal_text(bytes);
    assert(48 <= bytes[0]);
}

/// Text without a point does not split at one.
proof fn lemma_no_point(a: Seq<char>)
    requires
        forall|j: int| 0 <= j < a.len() ==> a[j] != '.',
    ensures
        split_once_spec(a, '.') is None,
{
}

/// Text made of a run without a point, a point and more text splits at that point.
proof fn lemma_split_at_point(a: Seq<char>, b: Seq<char>)
    requires
        forall|j: int| 0 <= j < a.len() ==> a[j] != '.',
    ensures
        split_once_spec(a + seq!['.'] + b, '.') == Some((a, b)),
{
    let s = a + seq!['.'] + b;
    let i = a.len() as int;
    assert(s[i] == '.');
    assert forall|j: int| 0 <= j < i implies s[j] != '.' by {
        assert(s[j] == a[j]);
    }
    assert(exists|k: int| 0 <= k < s.len() && s[k] == '.' && forall|j: int| 0 <= j < k ==> s[j] != '.');
    let c = choose|k: int| 0 <= k < s.len() && s[k] == '.' && forall|j: int| 0 <= j < k ==> s[j] != '.';
    if c < i {
        assert(s[c] == a[c]);
    }
    assert(c == i);
    assert(s.take(i) =~= a);
    assert(s.skip(i + 1) =~= b);
}

/// The `#mmm02` lines of the first `k` measure length changes: the measure
/// in at least three digits, then the length as a decimal; `None` where a
/// length has no such decimal.
pub open spec fn length_lines(lengths: Seq<(u32, Position)>, k: nat) -> Option<Seq<char>>
    decreases k,
{
    if k == 0 {
        Some(Seq::empty())
    } else {
        match (length_lines(lengths, (k - 1) as nat), position_text(lengths[k - 1].1)) {
            (Some(before), Some(length)) => Some(
                before + "#"@ + ascii_chars(padded_digits(lengths[k - 1].0 as nat, 10, 3)) + "02: "@ + length + "\n"@,
            ),
            _ => None,
        }
    }
}

/// Writes the measure length changes of a SUS document.
pub fn measure_length_lines(lengths: &Vec<(u32, Position)>) -> (result: Result<String, SusError>)
    ensures
        match length_lines(lengths@, lengths@.len()) {
            Some(text) => result matches Ok(s) && s@ == text,
            None => result matches Err(SusError::UnrepresentablePosition),
        },
{
    let mut text = String::new();
    let mut i: usize = 0;
    while i < lengths.len()
        invariant
            i <= lengths@.len(),
            length_lines(lengths@, i as nat) == Some(text@),
        decreases lengths@.len() - i,
    {
        let (measure, length) = lengths[i];
        let written = match format_position(length) {
            Ok(written) => written,
            Err(error) => {
                proof {
                    lemma_length_lines_stay_none(lengths@, (i + 1) as nat);
                }
                return Err(error);
            },
        };
        text.append("#");
        push_padded(&mut text, measure as u64, 10, 3);
        text.append("02: ");
        text.append(written.as_str());
        text.append("\n");
        i += 1;
        proof {
            assert(Some(text@) =~= length_lines(lengths@, i as nat));
        }
    }
    Ok(text)
}

/// Once a length cannot be written, no longer list of lines can be.
proof fn lemma_length_lines_stay_none(lengths: Seq<(u32, Position)>, k: nat)
    requires
        k <= lengths.len(),
        length_lines(lengths, k) is None,
    ensures
        length_lines(lengths, lengths.len()) is None,
    decreases lengths.len() - k,
{
    if k < lengths.len() {
        lemma_length_lines_stay_none(lengths, k + 1);
    }
}

/// The last fraction digit written is never zero.
proof fn lemma_fraction_ends_nonzero(r: nat, d: nat, budget: nat)
    requires
        0 < r < d,
    ensures
        fraction_digits(r, d, budget) matches Some(f) ==> f.len() > 0 && f.last() != 48u8,
    decreases budget,
{
    if budget > 0 {
        let scaled = r * 10;
        if scaled <= u64::MAX {
            assert(scaled / d < 10) by (nonlinear_arith)
                requires
                    scaled == r * 10,
                    r < d,
                    d > 0,
            ;
            if scaled % d == 0 {
                assert(scaled / d >= 1) by (nonlinear_arith)
                    requires
                        scaled % d == 0,
                        scaled > 0,
                        d > 0,
                ;
            } else {
                assert(0 < scaled % d < d) by (nonlinear_arith)
                    requires
                        scaled % d != 0,
                        d > 0,
                ;
                lemma_fraction_ends_nonzero(scaled % d, d, (budget - 1) as nat);
            }
        }
    }
}

/// A measure length with a fraction is written without trailing zeros: its
/// last character is not `0`.
pub proof fn lemma_position_text_no_trailing_zero(position: Position)
    requires
        position.wf(),
        position.num() % position.den() != 0,
        position_text(position) is Some,
    ensures
        position_text(position)->0.last() != '0',
{
    lemma_valid_denominator(position);
    let remainder = position.num() % position.den();
    assert(remainder < position.den()) by (nonlinear_arith)
        requires
            position.den() > 0,
            remainder == position.num() % position.den(),
    ;
    lemma_fraction_ends_nonzero(remainder, position.den(), 18);
    let f = fraction_digits(remainder, position.den(), 18)->0;
    let t = ascii_chars(digits_of(position.num() / position.den(), 10)) + "."@ + ascii_chars(f);
    assert(t.last() == f.last() as char);
}

/// Reading back the decimal that SUS writes for a measure length gives that
/// length again, wherever the decimal's digits, read as one number, fit in
/// 64 bits.
pub proof fn lemma_position_text_round_trip(position: Position)
    requires
        position.wf(),
        position_text(position) is Some,
        position_text_scaled(position) <= u64::MAX,
    ensures
        position_text_spec(position_text(position)->0) == Some(position),
{
    lemma_valid_denominator(position);
    lemma_terms_fit(position);
    let n = position.num();
    let d = position.den();
    let integer = n / d;
    let remainder = n % d;
    assert(n == integer * d + remainder && remainder < d && integer <= n) by (nonlinear_arith)
        requires
            d > 0,
            integer == n / d,
            remainder == n % d,
    ;
    let int_digits = digits_of(integer, 10);
    lemma_digits_round_trip(integer, 10);
    lemma_decimal_digits(integer);
    lemma_parse_decimal(int_digits);
    lemma_decimal_text(int_digits);
    if remainder == 0 {
        let text = ascii_chars(int_digits);
        lemma_no_point(text);
        assert(ten_pow(0) == 1);
        let q = Position::from_fraction(integer, 1);
        lemma_from_fraction(integer, 1);
        lemma_reduced_form_value(q, integer, 1);
        assert(q.num() * d == n * q.den()) by (nonlinear_arith)
            requires
                q.num() * 1 == integer * q.den(),
                n == integer * d + remainder,
                remainder == 0,
        ;
        lemma_same_value_same_position(q, position);
    } else {
        let f = fraction_digits(remainder, d, 18)->0;
        lemma_fraction_digits_value(remainder, d, 18);
        let k = f.len();
        let fv = numeral_value(f, 10)->0;
        let t = ten_pow(k);
        lemma_ten_pow_grows(k, 18);
        lemma_ten_pow_positive(k);
        assert(ten_pow(18) == 1000000000000000000) by {
            reveal_with_fuel(ten_pow, 19);
        }
        assert(fv < t) by (nonlinear_arith)
            requires
                fv * d == remainder * t,
                remainder < d,
                t >= 1,
                d > 0,
        ;
        lemma_parse_decimal(f);
        lemma_decimal_text(f);
        reveal_strlit(".");
        assert("."@ == seq!['.']);
        lemma_split_at_point(ascii_chars(int_digits), ascii_chars(f));
        let x = integer * t + fv;
        assert(n * t == d * x) by (nonlinear_arith)
            requires
                n == integer * d + remainder,
                fv * d == remainder * t,
                x == integer * t + fv,
        ;
        vstd::arithmetic::div_mod::lemma_div_multiples_vanish(x as int, d as int);
        assert(position_text_scaled(position) == x);
        let q = Position::from_fraction(x, t);
        lemma_from_fraction(x, t);
        lemma_reduced_form_value(q, x, t);
        assert(q.num() * d == n * q.den()) by (nonlinear_arith)
            requires
                q.num() * t == x * q.den(),
                n * t == d * x,
                t > 0,
        ;
        lemma_same_value_same_position(q, position);
    }
}

/// `ticks` and the denominators of `positions` brought to their least
/// common multiple one by one, from the front; `None` where a step does not
/// fit in 64 bits.
pub open spec fn denominators_lcm(positions: Seq<Position>, ticks: nat) -> Option<nat>
    decreases positions.len(),
{
    if positions.len() == 0 {
        Some(ticks)
    } else {
        match lcm_spec(ticks, positions[0].den()) {
            Some(t) => denominators_lcm(positions.drop_first(), t),
            None => None,
        }
    }
}

/// The ticks per beat of a standard SUS document that places `positions`:
/// the least common multiple of their denominators, when a four-beat measure
/// then has at most `0xfff` ticks.
pub open spec fn standard_resolution(positions: Seq<Position>) -> Option<nat> {
    match denominators_lcm(positions, 1) {
        Some(t) => if t * 4 <= 0x0fff {
            Some(t)
        } else {
            None
        },
        None => None,
    }
}

/// Folds the denominators of `positions` into `ticks` by least common multiples.
fn fold_denominators(positions: &[Position], ticks: u64) -> (result: Option<u64>)
    ensures
        match denominators_lcm(positions@, ticks as nat) {
            Some(t) => t <= u64::MAX && result == Some(t as u64),
            None => result is None,
        },
{
    let mut acc = ticks;
    let mut i: usize = 0;
    proof {
        assert(positions@.skip(0) =~= positions@);
    }
    while i < positions.len()
        invariant
            i <= positions@.len(),
            denominators_lcm(positions@.skip(i as int), acc as nat) == denominators_lcm(positions@, ticks as nat),
        decreases positions@.len() - i,
    {
        proof {
            assert(positions@.skip(i as int).drop_first() =~= positions@.skip(i + 1));
            assert(positions@.skip(i as int)[0] == positions@[i as int]);
        }
        match lcm(acc, positions[i].denominator()) {
            Some(t) => acc = t,
            None => return None,
        }
        i += 1;
    }
    proof {
        assert(positions@.skip(i as int) =~= Seq::<Position>::empty());
    }
    Some(acc)
}

/// The ticks per beat with which a standard SUS document places every one
/// of `positions` on a tick.
pub fn standard_ticks_per_beat(positions: &Vec<Position>) -> (result: Result<u64, SusError>)
    ensures
        match standard_resolution(positions@) {
            Some(t) => result == Ok::<u64, SusError>(t as u64),
            None => result matches Err(SusError::UnrepresentablePosition),
        },
{
    let ticks = match fold_denominators(positions.as_slice(), 1) {
        Some(t) => t,
        None => return Err(SusError::UnrepresentablePosition),
    };
    match ticks.checked_mul(4) {
        Some(per_measure) => if per_measure > 0x0fff {
            Err(SusError::UnrepresentablePosition)
        } else {
            Ok(ticks)
        },
        None => Err(SusError::UnrepresentablePosition),
    }
}

/// `ticks` and the ticks that each of `positions` needs in XLAIR SUS brought
/// to their least common multiple one by one, from the front; `None` where a
/// position cannot be placed or a step does not fit in 64 bits.
pub open spec fn required_ticks_lcm(timeline: MeasureTimeline, positions: Seq<Position>, ticks: nat) -> Option<nat>
    decreases positions.len(),
{
    if positions.len() == 0 {
        Some(ticks)
    } else {
        match required_ticks_from(timeline, positions[0], 0, Position::from_fraction(0, 1)) {
            Some(r) => match lcm_spec(ticks, r) {
                Some(t) => required_ticks_lcm(timeline, positions.drop_first(), t),
                None => None,
            },
            None => None,
        }
    }
}

/// The lengths that the measure-length changes of `timeline` set.
pub open spec fn change_lengths(timeline: MeasureTimeline) -> Seq<Position> {
    timeline.changes().map_values(|change: (u32, Position)| change.1)
}

/// The ticks per beat of an XLAIR SUS document on `timeline` that places
/// `positions`: 96 brought to a common multiple with the denominators of the
/// measure lengths and with what each position needs, when the first measure
/// then has a whole number of ticks that fits in 64 bits.
pub open spec fn xlair_resolution(timeline: MeasureTimeline, positions: Seq<Position>) -> Option<nat> {
    match denominators_lcm(change_lengths(timeline), 96) {
        Some(t) => match required_ticks_lcm(timeline, positions, t) {
            Some(u) => if timeline.ticks_spec(0, u) is Ok {
                Some(u)
            } else {
                None
            },
            None => None,
        },
        None => None,
    }
}

/// The ticks per beat with which an XLAIR SUS document on `timeline` places
/// every one of `positions` on a tick.
pub fn xlair_ticks_per_beat(timeline: &MeasureTimeline, positions: &Vec<Position>) -> (result: Result<u64, SusError>)
    ensures
        match xlair_resolution(*timeline, positions@) {
            Some(t) => result == Ok::<u64, SusError>(t as u64),
            None => result matches Err(SusError::UnrepresentablePosition),
        },
{
    let changes = timeline.length_changes();
    let mut lengths: Vec<Position> = Vec::new();
    let mut k: usize = 0;
    while k < changes.len()
        invariant
            k <= changes@.len(),
            changes@ == timeline.changes(),
            lengths@ == change_lengths(*timeline).take(k as int),
        decreases changes@.len() - k,
    {
        lengths.push(changes[k].1);
        k += 1;
        proof {
            assert(lengths@ =~= change_lengths(*timeline).take(k as int));
        }
    }
    proof {
        assert(change_lengths(*timeline).take(k as int) =~= change_lengths(*timeline));
    }
    let mut ticks = match fold_denominators(lengths.as_slice(), 96) {
        Some(t) => t,
        None => return Err(SusError::UnrepresentablePosition),
    };
    let ghost start = ticks as nat;
    let mut i: usize = 0;
    proof {
        assert(positions@.skip(0) =~= positions@);
    }
    while i < positions.len()
        invariant
            i <= positions@.len(),
            denominators_lcm(change_lengths(*timeline), 96) == Some(start),
            required_ticks_lcm(*timeline, positions@.skip(i as int), ticks as nat) == required_ticks_lcm(
                *timeline,
                positions@,
                start,
            ),
        decreases positions@.len() - i,
    {
        proof {
            assert(positions@.skip(i as int).drop_first() =~= positions@.skip(i + 1));
            assert(positions@.skip(i as int)[0] == positions@[i as int]);
        }
        let required = match xlair_required_ticks(timeline, positions[i]) {
            Ok(r) => r,
            Err(_) => return Err(SusError::UnrepresentablePosition),
        };
        match lcm(ticks, required) {
            Some(t) => ticks = t,
            None => return Err(SusError::UnrepresentablePosition),
        }
        i += 1;
    }
    proof {
        assert(positions@.skip(i as int) =~= Seq::<Position>::empty());
    }
    match timeline.ticks(0, ticks) {
        Ok(_) => Ok(ticks),
        Err(_) => Err(SusError::UnrepresentablePosition),
    }
}

/// A multiple of a multiple of `c` is a multiple of `c`.
proof fn lemma_multiple_of_multiple(a: nat, b: nat, c: nat)
    requires
        b > 0,
        c > 0,
        a % b == 0,
        b % c == 0,
    ensures
        a % c == 0,
{
    vstd::arithmetic::div_mod::lemma_fundamental_div_mod(a as int, b as int);
    vstd::arithmetic::div_mod::lemma_fundamental_div_mod(b as int, c as int);
    let k = (a / b) * (b / c);
    assert(a == k * c) by (nonlinear_arith)
        requires
            a == b * (a / b),
            b == c * (b / c),
            k == (a / b) * (b / c),
    ;
    vstd::arithmetic::div_mod::lemma_mod_multiples_basic(k as int, c as int);
}

/// Folding denominators into a positive count of ticks gives a positive
/// multiple of that count and of every denominator.
proof fn lemma_denominators_lcm_multiple(positions: Seq<Position>, ticks: nat)
    requires
        ticks > 0,
        forall|i: int| 0 <= i < positions.len() ==> (#[trigger] positions[i]).wf(),
        denominators_lcm(positions, ticks) is Some,
    ensures
        ({
            let t = denominators_lcm(positions, ticks)->0;
            &&& t > 0
            &&& t % ticks == 0
            &&& forall|i: int| 0 <= i < positions.len() ==> t % (#[trigger] positions[i]).den() == 0
        }),
    decreases positions.len(),
{
    let t = denominators_lcm(positions, ticks)->0;
    if positions.len() == 0 {
        vstd::arithmetic::div_mod::lemma_mod_self_0(ticks as int);
    } else {
        let first = positions[0];
        lemma_valid_denominator(first);
        lemma_lcm_is_common_multiple(ticks, first.den());
        let next = lcm_spec(ticks, first.den())->0;
        let rest = positions.drop_first();
        assert forall|i: int| 0 <= i < rest.len() implies (#[trigger] rest[i]).wf() by {
            assert(rest[i] == positions[i + 1]);
        }
        lemma_denominators_lcm_multiple(rest, next);
        lemma_multiple_of_multiple(t, next, ticks);
        lemma_multiple_of_multiple(t, next, first.den());
        assert forall|i: int| 0 <= i < positions.len() implies t % (#[trigger] positions[i]).den() == 0 by {
            if i > 0 {
                assert(positions[i] == rest[i - 1]);
            }
        }
    }
}

/// The ticks per beat that a standard SUS document is written with place
/// every position it was computed for on a tick: each position's
/// denominator divides them.
pub proof fn lemma_standard_resolution_places_positions(positions: Seq<Position>)
    requires
        forall|i: int| 0 <= i < positions.len() ==> (#[trigger] positions[i]).wf(),
        standard_resolution(positions) is Some,
    ensures
        forall|i: int|
            0 <= i < positions.len() ==> standard_resolution(positions)->0 % (#[trigger] positions[i]).den() == 0,
{
    lemma_denominators_lcm_multiple(positions, 1);
}

/// What a position needs in XLAIR SUS is a positive number of ticks.
proof fn lemma_required_ticks_positive(timeline: MeasureTimeline, position: Position, measure: nat, start: Position)
    requires
        required_ticks_from(timeline, position, measure, start) is Some,
    ensures
        required_ticks_from(timeline, position, measure, start)->0 > 0,
    decreases u32::MAX - measure,
{
    let length = timeline.length_at_spec(measure);
    match sum(start, length) {
        Err(_) => {},
        Ok(end) => {
            if position.is_before(end) {
                let left = position.num() * start.den();
                let right = start.num() * position.den();
                let scale = position.den() * start.den();
                let offset = Position::from_fraction((left - right) as nat, scale);
                let ratio_numerator = offset.num() * length.den();
                let ratio_denominator = offset.den() * length.num();
                lemma_from_fraction(ratio_numerator, ratio_denominator);
                let denominator = Position::from_fraction(ratio_numerator, ratio_denominator).den();
                crate::arith::lemma_gcd_divides(denominator, 4);
                let g = crate::arith::gcd_spec(denominator, 4);
                vstd::arithmetic::div_mod::lemma_fundamental_div_mod(denominator as int, g as int);
                assert(denominator / g > 0) by (nonlinear_arith)
                    requires
                        denominator > 0,
                        g > 0,
                        denominator == g * (denominator / g) + denominator % g,
                        denominator % g == 0,
                ;
            } else if measure < u32::MAX {
                lemma_required_ticks_positive(timeline, position, measure + 1, end);
            }
        },
    }
}

/// Folding what positions need in XLAIR SUS into a positive count of ticks
/// gives a positive multiple of that count and of what each position needs.
proof fn lemma_required_ticks_lcm_multiple(timeline: MeasureTimeline, positions: Seq<Position>, ticks: nat)
    requires
        ticks > 0,
        required_ticks_lcm(timeline, positions, ticks) is Some,
    ensures
        ({
            let t = required_ticks_lcm(timeline, positions, ticks)->0;
            &&& t > 0
            &&& t % ticks == 0
            &&& forall|i: int|
                0 <= i < positions.len() ==> t % required_ticks_from(
                    timeline,
                    #[trigger] positions[i],
                    0,
                    Position::from_fraction(0, 1),
                )->0 == 0
        }),
    decreases positions.len(),
{
    let t = required_ticks_lcm(timeline, positions, ticks)->0;
    if positions.len() == 0 {
        vstd::arithmetic::div_mod::lemma_mod_self_0(ticks as int);
    } else {
        let first = positions[0];
        let zero = Position::from_fraction(0, 1);
        let needed = required_ticks_from(timeline, first, 0, zero)->0;
        lemma_required_ticks_positive(timeline, first, 0, zero);
        lemma_lcm_is_common_multiple(ticks, needed);
        let next = lcm_spec(ticks, needed)->0;
        let rest = positions.drop_first();
        lemma_required_ticks_lcm_multiple(timeline, rest, next);
        lemma_multiple_of_multiple(t, next, ticks);
        lemma_multiple_of_multiple(t, next, needed);
        assert forall|i: int| 0 <= i < positions.len() implies t % required_ticks_from(
            timeline,
            #[trigger] positions[i],
            0,
            zero,
        )->0 == 0 by {
            if i > 0 {
                assert(positions[i] == rest[i - 1]);
            }
        }
    }
}

/// The ticks per beat that an XLAIR SUS document is written with are a
/// multiple of 96, of the denominator of every measure length it sets and of
/// what each position it was computed for needs, and give the first measure
/// a whole number of ticks.
pub proof fn lemma_xlair_resolution_places_positions(timeline: MeasureTimeline, positions: Seq<Position>)
    requires
        timeline.wf(),
        xlair_resolution(timeline, positions) is Some,
    ensures
        ({
            let t = xlair_resolution(timeline, positions)->0;
            &&& t % 96 == 0
            &&& forall|i: int|
                0 <= i < change_lengths(timeline).len() ==> t % (#[trigger] change_lengths(timeline)[i]).den()
                    == 0
            &&& forall|i: int|
                0 <= i < positions.len() ==> t % required_ticks_from(
                    timeline,
                    #[trigger] positions[i],
                    0,
                    Position::from_fraction(0, 1),
                )->0 == 0
            &&& timeline.ticks_spec(0, t) is Ok
        }),
{
    let lengths = change_lengths(timeline);
    timeline.lemma_changes_valid();
    assert forall|i: int| 0 <= i < lengths.len() implies (#[trigger] lengths[i]).wf() by {
        assert(lengths[i] == timeline.changes()[i].1);
    }
    lemma_denominators_lcm_multiple(lengths, 96);
    let s = denominators_lcm(lengths, 96)->0;
    lemma_required_ticks_lcm_multiple(timeline, positions, s);
    let t = required_ticks_lcm(timeline, positions, s)->0;
    lemma_multiple_of_multiple(t, s, 96);
    assert forall|i: int| 0 <= i < lengths.len() implies t % (#[trigger] lengths[i]).den() == 0 by {
        lemma_valid_denominator(lengths[i]);
        lemma_multiple_of_multiple(t, s, lengths[i].den());
    }
}

/// The ticks from `start` to `end` at `ticks_per_measure / 4` ticks per
/// beat, if `end` is later, the arithmetic fits in 64 bits, the duration
/// falls on a tick and the count fits in four hexadecimal digits.
pub open spec fn standard_duration(start: Position, end: Position, ticks_per_measure: nat) -> Option<nat> {
    let left = end.num() * start.den();
    let right = start.num() * end.den();
    let d = end.den() * start.den();
    if !start.is_before(end) || left > u64::MAX || right > u64::MAX || d > u64::MAX {
        None
    } else {
        let duration = Position::from_fraction((left - right) as nat, d);
        let n = duration.num() * (ticks_per_measure / 4);
        if n > u64::MAX || n % duration.den() != 0 || n / duration.den() > u16::MAX {
            None
        } else {
            Some(n / duration.den())
        }
    }
}

/// The number of ticks a standard SUS hold or slide segment lasts.
pub fn duration_ticks(start: Position, end: Position, ticks_per_measure: u64) -> (result: Result<u64, SusError>)
    ensures
        match standard_duration(start, end, ticks_per_measure as nat) {
            Some(t) => result == Ok::<u64, SusError>(t as u64),
            None => result matches Err(SusError::UnrepresentablePosition),
        },
{
    if !(start < end) {
        return Err(SusError::UnrepresentablePosition);
    }
    let left = match end.numerator().checked_mul(start.denominator()) {
        Some(v) => v,
        None => return Err(SusError::UnrepresentablePosition),
    };
    let right = match start.numerator().checked_mul(end.denominator()) {
        Some(v) => v,
        None => return Err(SusError::UnrepresentablePosition),
    };
    let denominator = match end.denominator().checked_mul(start.denominator()) {
        Some(v) => v,
        None => return Err(SusError::UnrepresentablePosition),
    };
    proof {
        assert(denominator > 0) by (nonlinear_arith)
            requires
                denominator == end.den() * start.den(),
                end.den() > 0,
                start.den() > 0,
        ;
    }
    let duration = match Position::new(left - right, denominator) {
        Ok(p) => p,
        Err(_) => return Err(SusError::UnrepresentablePosition),
    };
    let numerator = match duration.numerator().checked_mul(ticks_per_measure / 4) {
        Some(v) => v,
        None => return Err(SusError::UnrepresentablePosition),
    };
    if numerator % duration.denominator() != 0 {
        return Err(SusError::UnrepresentablePosition);
    }
    let ticks = numerator / duration.denominator();
    if ticks > u16::MAX as u64 {
        return Err(SusError::UnrepresentablePosition);
    }
    Ok(ticks)
}

/// The measure and tick at which a position is written.
pub fn output_position(timeline: &MeasureTimeline, position: Position, ticks_per_beat: u64) -> (result: Result<
    (u32, u64),
    SusError,
>)
    ensures
        match timeline.locate_spec(position, ticks_per_beat as nat) {
            Ok(location) => result == Ok::<(u32, u64), SusError>(location),
            Err(_) => result matches Err(SusError::UnrepresentablePosition),
        },
{
    match timeline.locate(position, ticks_per_beat) {
        Ok(location) => Ok(location),
        Err(_) => Err(SusError::UnrepresentablePosition),
    }
}

/// The text of a data line holding one token: the header `#mmm` followed by
/// `key`, then two zeros for every tick before the token and after it in the
/// measure.
pub open spec fn record_line(measure: nat, key: Seq<char>, tick: nat, token: Seq<char>, slots: nat) -> Seq<char> {
    "#"@ + ascii_chars(padded_digits(measure, 10, 3)) + key + ": "@ + Seq::new(2 * tick, |i: int| '0') + token
        + Seq::new(2 * (slots - tick - 1) as nat, |i: int| '0')
}

/// The data line that places `token` at `tick` of `measure` in a channel
/// named by `key`.
pub fn format_record(
    timeline: &MeasureTimeline,
    ticks_per_beat: u64,
    measure: u32,
    tick: u64,
    key: &str,
    token: &str,
) -> (result: Result<String, SusError>)
    ensures
        match timeline.ticks_spec(measure as nat, ticks_per_beat as nat) {
            Ok(slots) => if tick + 1 <= slots {
                result matches Ok(s) && s@ == record_line(measure as nat, key@, tick as nat, token@, slots)
                    + "\n"@
            } else {
                result matches Err(SusError::UnrepresentablePosition)
            },
            Err(_) => result matches Err(SusError::UnrepresentablePosition),
        },
{
    let slots = match timeline.ticks(measure, ticks_per_beat) {
        Ok(slots) => slots,
        Err(_) => return Err(SusError::UnrepresentablePosition),
    };
    if tick >= slots {
        return Err(SusError::UnrepresentablePosition);
    }
    let trailing = slots - tick - 1;
    let mut text = String::from_str("#");
    push_padded(&mut text, measure as u64, 10, 3);
    text.append(key);
    text.append(": ");
    push_zero_pairs(&mut text, tick);
    text.append(token);
    push_zero_pairs(&mut text, trailing);
    text.append("\n");
    Ok(text)
}

/// A standard SUS channel line: `#mmm`, the note kind and the lane, then a
/// token made of `token_kind` and the lane width at the tick of `position`.
pub fn standard_channel_line(
    position: Position,
    kind: char,
    lane: u8,
    token_kind: char,
    width: u8,
    ticks_per_beat: u64,
    timeline: &MeasureTimeline,
) -> (result: Result<String, SusError>)
    requires
        lane < 36,
        width < 36,
    ensures
        match timeline.locate_spec(position, ticks_per_beat as nat) {
            Ok((measure, tick)) => match timeline.ticks_spec(measure as nat, ticks_per_beat as nat) {
                Ok(slots) => if tick + 1 <= slots {
                    result matches Ok(s) && s@ == record_line(
                        measure as nat,
                        seq![kind, digit_byte(lane as nat) as char],
                        tick as nat,
                        seq![token_kind, digit_byte(width as nat) as char],
                        slots,
                    )
                } else {
                    result matches Err(SusError::UnrepresentablePosition)
                },
                Err(_) => result matches Err(SusError::UnrepresentablePosition),
            },
            Err(_) => result matches Err(SusError::UnrepresentablePosition),
        },
{
    let (measure, tick) = output_position(timeline, position, ticks_per_beat)?;
    let slots = match timeline.ticks(measure, ticks_per_beat) {
        Ok(slots) => slots,
        Err(_) => return Err(SusError::UnrepresentablePosition),
    };
    if tick >= slots {
        return Err(SusError::UnrepresentablePosition);
    }
    let trailing = slots - tick - 1;
    let mut text = String::from_str("#");
    push_padded(&mut text, measure as u64, 10, 3);
    let ghost header = text@;
    text.push(kind);
    text.push(digit_char(lane));
    text.append(": ");
    push_zero_pairs(&mut text, tick);
    text.push(token_kind);
    text.push(digit_char(width));
    push_zero_pairs(&mut text, trailing);
    proof {
        let key = seq![kind, digit_byte(lane as nat) as char];
        let token = seq![token_kind, digit_byte(width as nat) as char];
        assert(text@ =~= record_line(measure as nat, key, tick as nat, token, slots as nat));
    }
    Ok(text)
}

/// Where records of the same position are put: starts, then relay points,
/// then ends.
pub open spec fn record_kind_rank(token: Seq<u8>) -> u8 {
    if token.len() == 0 {
        0
    } else if token[0] == 49 {
        0
    } else if 51 <= token[0] <= 53 {
        1
    } else if token[0] == 50 {
        2
    } else {
        0
    }
}

/// The rank of a record among the records of the same position.
pub fn record_kind_order(token: &str) -> (rank: u8)
    ensures
        rank == record_kind_rank(token.spec_bytes()),
{
    let bytes = token.as_bytes();
    if bytes.len() == 0 {
        return 0;
    }
    let first = bytes[0];
    if first == 49 {
        0
    } else if 51 <= first && first <= 53 {
        1
    } else if first == 50 {
        2
    } else {
        0
    }
}

/// The span `[start, end]` shares no instant with any interval of `intervals`.
pub open spec fn channel_is_free(intervals: Seq<(Position, Position)>, start: Position, end: Position) -> bool {
    forall|k: int| 0 <= k < intervals.len() ==> end.is_before(#[trigger] intervals[k].0) || intervals[k].1.is_before(start)
}

/// The first channel that is free for `[start, end]`.
pub open spec fn first_free_channel(channels: Seq<Vec<(Position, Position)>>, start: Position, end: Position) -> Option<int> {
    if exists|i: int| 0 <= i < channels.len() && channel_is_free(channels[i]@, start, end) {
        Some(choose|i: int|
            0 <= i < channels.len() && channel_is_free(channels[i]@, start, end) && forall|j: int|
                0 <= j < i ==> !channel_is_free(#[trigger] channels[j]@, start, end))
    } else {
        None
    }
}

fn channel_free(intervals: &Vec<(Position, Position)>, start: Position, end: Position) -> (free: bool)
    ensures
        free == channel_is_free(intervals@, start, end),
{
    let mut k: usize = 0;
    while k < intervals.len()
        invariant
            k <= intervals@.len(),
            forall|j: int| 0 <= j < k ==> end.is_before(#[trigger] intervals@[j].0) || intervals@[j].1.is_before(start),
        decreases intervals@.len() - k,
    {
        let (other_start, other_end) = intervals[k];
        if !(end < other_start || other_end < start) {
            return false;
        }
        k += 1;
    }
    true
}

fn copy_intervals(intervals: &Vec<(Position, Position)>) -> (copy: Vec<(Position, Position)>)
    ensures
        copy@ == intervals@,
{
    let mut copy = Vec::new();
    let mut k: usize = 0;
    while k < intervals.len()
        invariant
            k <= intervals@.len(),
            copy@ == intervals@.take(k as int),
        decreases intervals@.len() - k,
    {
        copy.push(intervals[k]);
        k += 1;
        proof {
            assert(copy@ =~= intervals@.take(k as int));
        }
    }
    proof {
        assert(intervals@.take(k as int) == intervals@);
    }
    copy
}

/// Gives a long note from `start` to `end` the first channel whose notes do
/// not touch it, and records the note there.
pub fn allocate_channel(channels: &mut Vec<Vec<(Position, Position)>>, start: Position, end: Position) -> (result: Result<
    char,
    SusError,
>)
    ensures
        match first_free_channel(old(channels)@, start, end) {
            Some(i) => {
                &&& final(channels)@.len() == old(channels)@.len()
                &&& final(channels)@[i]@ == old(channels)@[i]@.push((start, end))
                &&& forall|j: int| 0 <= j < old(channels)@.len() && j != i ==> final(channels)@[j] == old(channels)@[j]
                &&& (i < 36 ==> result == Ok::<char, SusError>(digit_byte(i as nat) as char))
                &&& (i >= 36 ==> result matches Err(SusError::UnrepresentablePosition))
            },
            None => {
                &&& final(channels)@ == old(channels)@
                &&& result matches Err(SusError::UnrepresentablePosition)
            },
        },
{
    let mut index: usize = 0;
    while index < channels.len()
        invariant
            channels@ == old(channels)@,
            index <= channels@.len(),
            forall|j: int| 0 <= j < index ==> !channel_is_free(#[trigger] channels@[j]@, start, end),
        decreases channels@.len() - index,
    {
        if channel_free(&channels[index], start, end) {
            proof {
                let i = index as int;
                assert(0 <= i < channels@.len() && channel_is_free(channels@[i]@, start, end) && forall|j: int|
                    0 <= j < i ==> !channel_is_free(#[trigger] channels@[j]@, start, end));
                let k = first_free_channel(channels@, start, end)->0;
                if k < i {
                    assert(!channel_is_free(channels@[k]@, start, end));
                } else if k > i {
                    assert(!channel_is_free(channels@[i]@, start, end));
                }
            }
            let mut updated = copy_intervals(&channels[index]);
            updated.push((start, end));
            channels.set(index, updated);
            return channel(index);
        }
        index += 1;
    }
    Err(SusError::UnrepresentablePosition)
}

/// The ticks per beat needed to place a position that lies in a measure
/// starting at `start` with length `length`: the denominator of the fraction
/// of the measure that precedes it, over the factors it shares with four,
/// or `None` where an intermediate value overflows 64 bits.
pub open spec fn required_ticks_in(position: Position, start: Position, length: Position) -> Option<nat> {
    let left = position.num() * start.den();
    let right = start.num() * position.den();
    let scale = position.den() * start.den();
    if left > u64::MAX || right > u64::MAX || left < right || scale > u64::MAX {
        None
    } else {
        let offset = Position::from_fraction((left - right) as nat, scale);
        let ratio_numerator = offset.num() * length.den();
        let ratio_denominator = offset.den() * length.num();
        if ratio_numerator > u64::MAX || ratio_denominator > u64::MAX || ratio_denominator == 0 {
            None
        } else {
            let denominator = Position::from_fraction(ratio_numerator, ratio_denominator).den();
            Some(denominator / crate::arith::gcd_spec(denominator, 4))
        }
    }
}

/// The ticks needed for `position`, searching from `measure`, which starts
/// at `start`; `None` where the measure starts overflow or the search runs
/// past the last measure.
pub open spec fn required_ticks_from(timeline: MeasureTimeline, position: Position, measure: nat, start: Position) -> Option<
    nat,
>
    decreases u32::MAX - measure,
{
    let length = timeline.length_at_spec(measure);
    match sum(start, length) {
        Err(_) => None,
        Ok(end) => if position.is_before(end) {
            required_ticks_in(position, start, length)
        } else if measure >= u32::MAX {
            None
        } else {
            required_ticks_from(timeline, position, measure + 1, end)
        },
    }
}

/// The ticks per beat that XLAIR SUS needs to place `position` on a tick:
/// the denominator of the position's fraction of its measure, over the
/// common factors it shares with four.
pub fn xlair_required_ticks(timeline: &MeasureTimeline, position: Position) -> (result: Result<u64, SusError>)
    ensures
        match required_ticks_from(*timeline, position, 0, Position::from_fraction(0, 1)) {
            Some(t) => result == Ok::<u64, SusError>(t as u64) && 0 < t <= u64::MAX,
            None => result matches Err(SusError::UnrepresentablePosition),
        },
{
    let mut start = Position::new(0, 1).unwrap();
    let mut measure: u32 = 0;
    loop
        invariant
            required_ticks_from(*timeline, position, measure as nat, start) == required_ticks_from(
                *timeline,
                position,
                0,
                Position::from_fraction(0, 1),
            ),
        decreases u32::MAX - measure,
    {
        let length = timeline.length_of(measure);
        let end = match start.checked_add(length) {
            Ok(end) => end,
            Err(_) => return Err(SusError::UnrepresentablePosition),
        };
        if position < end {
            let left = match position.numerator().checked_mul(start.denominator()) {
                Some(v) => v,
                None => return Err(SusError::UnrepresentablePosition),
            };
            let right = match start.numerator().checked_mul(position.denominator()) {
                Some(v) => v,
                None => return Err(SusError::UnrepresentablePosition),
            };
            let difference = match left.checked_sub(right) {
                Some(v) => v,
                None => return Err(SusError::UnrepresentablePosition),
            };
            let position_denominator = position.denominator();
            let start_denominator = start.denominator();
            let scale = match position_denominator.checked_mul(start_denominator) {
                Some(v) => v,
                None => return Err(SusError::UnrepresentablePosition),
            };
            proof {
                assert(scale > 0) by (nonlinear_arith)
                    requires
                        scale == position.den() * start.den(),
                        position.den() > 0,
                        start.den() > 0,
                ;
            }
            let offset = match Position::new(difference, scale) {
                Ok(p) => p,
                Err(_) => return Err(SusError::UnrepresentablePosition),
            };
            let ratio_numerator = match offset.numerator().checked_mul(length.denominator()) {
                Some(v) => v,
                None => return Err(SusError::UnrepresentablePosition),
            };
            let ratio_denominator = match offset.denominator().checked_mul(length.numerator()) {
                Some(v) => v,
                None => return Err(SusError::UnrepresentablePosition),
            };
            let ratio = match Position::new(ratio_numerator, ratio_denominator) {
                Ok(p) => p,
                Err(_) => return Err(SusError::UnrepresentablePosition),
            };
            let denominator = ratio.denominator();
            let divisor = gcd_u64(denominator, 4);
            proof {
                crate::arith::lemma_gcd_divides(denominator as nat, 4);
                assert(divisor as nat == crate::arith::gcd_spec(denominator as nat, 4));
                assert(divisor <= denominator) by {
                    vstd::arithmetic::div_mod::lemma_mod_is_zero(denominator as nat, divisor as nat);
                }
                assert(denominator / divisor > 0) by {
                    vstd::arithmetic::div_mod::lemma_div_non_zero(denominator as int, divisor as int);
                }
            }
            return Ok(denominator / divisor);
        }
        if measure == u32::MAX {
            return Err(SusError::UnrepresentablePosition);
        }
        start = end;
        measure += 1;
    }
}


/// The tap a short-note token's first byte names: `1` to `6`.
pub open spec fn tap_code(code: u8) -> Option<TapKind> {
    if code == 49 {
        Some(TapKind::Tap)
    } else if code == 50 {
        Some(TapKind::XTap)
    } else if code == 51 {
        Some(TapKind::Flick { direction: None })
    } else if code == 52 {
        Some(TapKind::Tap4)
    } else if code == 53 {
        Some(TapKind::Tap5)
    } else if code == 54 {
        Some(TapKind::Tap6)
    } else {
        None
    }
}

/// Reads the tap kind of a short-note token.
pub fn tap_kind(code: u8) -> (kind: Option<TapKind>)
    ensures
        kind == tap_code(code),
{
    if code == 49 {
        Some(TapKind::Tap)
    } else if code == 50 {
        Some(TapKind::XTap)
    } else if code == 51 {
        Some(TapKind::Flick { direction: None })
    } else if code == 52 {
        Some(TapKind::Tap4)
    } else if code == 53 {
        Some(TapKind::Tap5)
    } else if code == 54 {
        Some(TapKind::Tap6)
    } else {
        None
    }
}

/// The first byte of the short-note token that writes a tap; a flick's
/// direction is not written.
pub open spec fn tap_text(kind: TapKind) -> u8 {
    match kind {
        TapKind::Tap => 49,
        TapKind::XTap => 50,
        TapKind::Flick { .. } => 51,
        TapKind::Tap4 => 52,
        TapKind::Tap5 => 53,
        TapKind::Tap6 => 54,
    }
}

/// Writes the first byte of a tap's short-note token.
pub fn tap_byte(kind: TapKind) -> (code: u8)
    ensures
        code == tap_text(kind),
{
    match kind {
        TapKind::Tap => 49,
        TapKind::XTap => 50,
        TapKind::Flick { .. } => 51,
        TapKind::Tap4 => 52,
        TapKind::Tap5 => 53,
        TapKind::Tap6 => 54,
    }
}

/// Every tap is read back as written, except that a flick loses its
/// direction.
pub proof fn lemma_tap_round_trip(kind: TapKind)
    ensures
        tap_code(tap_text(kind)) == Some(
            match kind {
                TapKind::Flick { .. } => TapKind::Flick { direction: None },
                _ => kind,
            },
        ),
{
}

/// The Ex direction a standard directional token's first byte names.
pub open spec fn standard_direction_code(code: u8) -> Option<ExDirection> {
    if code == 49 {
        Some(ExDirection::Up)
    } else if code == 50 {
        Some(ExDirection::Down)
    } else if code == 51 {
        Some(ExDirection::UpperLeft)
    } else if code == 52 {
        Some(ExDirection::UpperRight)
    } else if code == 53 {
        Some(ExDirection::LowerLeft)
    } else if code == 54 {
        Some(ExDirection::LowerRight)
    } else {
        None
    }
}

/// Reads the Ex direction of a standard directional token.
pub fn standard_direction(code: u8) -> (direction: Option<ExDirection>)
    ensures
        direction == standard_direction_code(code),
{
    if code == 49 {
        Some(ExDirection::Up)
    } else if code == 50 {
        Some(ExDirection::Down)
    } else if code == 51 {
        Some(ExDirection::UpperLeft)
    } else if code == 52 {
        Some(ExDirection::UpperRight)
    } else if code == 53 {
        Some(ExDirection::LowerLeft)
    } else if code == 54 {
        Some(ExDirection::LowerRight)
    } else {
        None
    }
}

/// Every Ex direction that standard SUS can write is read back unchanged.
pub proof fn lemma_standard_direction_round_trip(direction: ExDirection)
    requires
        standard_ex_direction_spec(direction) is Some,
    ensures
        standard_direction_code(standard_ex_direction_spec(direction)->0 as u8) == Some(direction),
{
}

/// The side button an XLAIR directional token's first byte names: `3` to `6`.
pub open spec fn side_button_code(code: u8) -> Option<SideButton> {
    if code == 51 {
        Some(SideButton::LeftUpper)
    } else if code == 52 {
        Some(SideButton::RightUpper)
    } else if code == 53 {
        Some(SideButton::LeftLower)
    } else if code == 54 {
        Some(SideButton::RightLower)
    } else {
        None
    }
}

/// Reads the side button of an XLAIR directional token.
pub fn side_button_of(code: u8) -> (button: Option<SideButton>)
    ensures
        button == side_button_code(code),
{
    if code == 51 {
        Some(SideButton::LeftUpper)
    } else if code == 52 {
        Some(SideButton::RightUpper)
    } else if code == 53 {
        Some(SideButton::LeftLower)
    } else if code == 54 {
        Some(SideButton::RightLower)
    } else {
        None
    }
}

/// Every side button is read back from the direction code written for it.
pub proof fn lemma_side_direction_round_trip(button: SideButton)
    ensures
        side_button_code(side_direction_spec(button) as u8) == Some(button),
{
}

/// The kind of a slide relay point a slider token's first byte names:
/// `4` a control point, `5` an invisible one, anything else a visible one.
pub open spec fn slide_point_code(code: u8) -> SlidePointKind {
    if code == 52 {
        SlidePointKind::Control
    } else if code == 53 {
        SlidePointKind::Invisible
    } else {
        SlidePointKind::Visible
    }
}

/// Reads the kind of a slide relay point.
pub fn slide_point_kind(code: u8) -> (kind: SlidePointKind)
    ensures
        kind == slide_point_code(code),
{
    if code == 52 {
        SlidePointKind::Control
    } else if code == 53 {
        SlidePointKind::Invisible
    } else {
        SlidePointKind::Visible
    }
}

/// The first byte of the slider token that writes a relay point.
pub open spec fn slide_point_text(kind: SlidePointKind) -> u8 {
    match kind {
        SlidePointKind::Visible => 51,
        SlidePointKind::Control => 52,
        SlidePointKind::Invisible => 53,
    }
}

/// Writes the first byte of a relay point's slider token.
pub fn slide_point_byte(kind: SlidePointKind) -> (code: u8)
    ensures
        code == slide_point_text(kind),
{
    match kind {
        SlidePointKind::Visible => 51,
        SlidePointKind::Control => 52,
        SlidePointKind::Invisible => 53,
    }
}

/// Every relay point kind is read back as written.
pub proof fn lemma_slide_point_round_trip(kind: SlidePointKind)
    ensures
        slide_point_code(slide_point_text(kind)) == kind,
{
}

/// The positions of the `count` evenly spaced tokens of a data line in
/// `measure`, up to the first that cannot be computed.
pub open spec fn token_positions(timeline: MeasureTimeline, measure: nat, count: nat, k: nat) -> Result<
    Seq<Position>,
    ChartError,
>
    decreases k,
{
    if k == 0 {
        Ok(Seq::empty())
    } else {
        match token_positions(timeline, measure, count, (k - 1) as nat) {
            Err(error) => Err(error),
            Ok(before) => match timeline.position_spec(measure, (k - 1) as nat, count) {
                Ok(p) => Ok(before.push(p)),
                Err(error) => Err(error),
            },
        }
    }
}

/// The positions of the two-byte tokens of a data line's `data` in
/// `measure`: token `i` of `n` lies `i / n` of the way through the measure.
pub fn positions(timeline: &MeasureTimeline, line: usize, measure: u32, data: &str) -> (result: Result<
    Vec<Position>,
    SusError,
>)
    ensures
        data.spec_bytes().len() % 2 != 0 ==> (result matches Err(SusError::InvalidValue { line: l, value: v }) && l
            == line && v@ == data@),
        data.spec_bytes().len() % 2 == 0 ==> match token_positions(
            *timeline,
            measure as nat,
            data.spec_bytes().len() / 2,
            data.spec_bytes().len() / 2,
        ) {
            Ok(found) => result matches Ok(v) && v@ == found,
            Err(source) => result == Err::<Vec<Position>, SusError>(SusError::Chart { line, source }),
        },
{
    let length = data.as_bytes().len();
    if length % 2 != 0 {
        return Err(SusError::InvalidValue { line, value: data.to_owned() });
    }
    let count = length / 2;
    let mut found: Vec<Position> = Vec::new();
    let mut index: usize = 0;
    while index < count
        invariant
            count == data.spec_bytes().len() / 2,
            data.spec_bytes().len() % 2 == 0,
            index <= count,
            token_positions(*timeline, measure as nat, count as nat, index as nat) == Ok::<
                Seq<Position>,
                ChartError,
            >(found@),
        decreases count - index,
    {
        match timeline.position(measure, index as u64, count as u64) {
            Ok(p) => found.push(p),
            Err(source) => {
                proof {
                    lemma_token_positions_fail(*timeline, measure as nat, count as nat, (index + 1) as nat, count as nat);
                }
                return Err(SusError::Chart { line, source });
            },
        }
        index += 1;
    }
    Ok(found)
}

/// Once a token's position fails, the positions of the line fail with the
/// same error.
proof fn lemma_token_positions_fail(timeline: MeasureTimeline, measure: nat, count: nat, k: nat, n: nat)
    requires
        1 <= k <= n,
        token_positions(timeline, measure, count, (k - 1) as nat) is Ok,
        timeline.position_spec(measure, (k - 1) as nat, count) is Err,
    ensures
        token_positions(timeline, measure, count, n) == Err::<Seq<Position>, ChartError>(
            timeline.position_spec(measure, (k - 1) as nat, count)->Err_0,
        ),
    decreases n - k,
{
    if k < n {
        lemma_token_positions_fail(timeline, measure, count, k, (n - 1) as nat);
    }
}

} // verus!
