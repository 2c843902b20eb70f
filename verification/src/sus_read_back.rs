//! What XLAIR SUS writes of a tap, it reads back: the data line of its
//! record holds the same tap at the same position.

use vstd::prelude::*;
use vstd::utf8::{encode_utf8, is_ascii_chars};

use crate::chart::ChartMode;
use crate::error::ChartError;
use crate::note::{valid_slider, Lane, TapKind};
use crate::position::Position;
use crate::sus::{record_line, tap_text, token_positions};
use crate::sus_data_lines::{data_line_read, token_read, ChannelKind, DataLineParts, TokenRead};
use crate::sus_standard::{lane_field, note_head, standard_note_outcome, upper, upper_hex, uppercase, StandardNote};
use crate::sus_standard_read::{is_standard_note_spec, standard_read, ReadNoteParts, ReadParts};
use crate::sus_xlair::{digit, xlair_records, XlairNote};
use crate::text::{
    all_ascii, ascii_chars, char_bytes, digit_byte, digit_value, digits_of, numeral_value, padded_digits,
    parse_chars_spec, parse_unsigned_spec,
};
use crate::timeline::MeasureTimeline;

verus! {

/// The positions of the first `k` tokens are those of their indices.
proof fn lemma_token_positions_at(timeline: MeasureTimeline, measure: nat, count: nat, k: nat, i: nat)
    requires
        token_positions(timeline, measure, count, k) is Ok,
        i < k,
    ensures
        token_positions(timeline, measure, count, k)->Ok_0.len() == k,
        timeline.position_spec(measure, i, count) is Ok,
        token_positions(timeline, measure, count, k)->Ok_0[i as int] == timeline.position_spec(measure, i, count)->Ok_0,
    decreases k,
{
    if i + 1 < k {
        lemma_token_positions_at(timeline, measure, count, (k - 1) as nat, i);
    }
    if k > 1 {
        lemma_token_positions_length(timeline, measure, count, (k - 1) as nat);
    }
}

/// The positions of the first `k` tokens are `k` positions.
proof fn lemma_token_positions_length(timeline: MeasureTimeline, measure: nat, count: nat, k: nat)
    requires
        token_positions(timeline, measure, count, k) is Ok,
    ensures
        token_positions(timeline, measure, count, k)->Ok_0.len() == k,
    decreases k,
{
    if k > 0 {
        lemma_token_positions_length(timeline, measure, count, (k - 1) as nat);
    }
}

/// Zeros are worth nothing.
proof fn lemma_zeros_value(z: nat, radix: nat)
    requires
        radix > 0,
    ensures
        numeral_value(Seq::new(z, |i: int| 48u8), radix) == Some(0nat),
    decreases z,
{
    if z > 0 {
        let zeros = Seq::new(z, |i: int| 48u8);
        assert(zeros.drop_last() =~= Seq::new((z - 1) as nat, |i: int| 48u8));
        lemma_zeros_value((z - 1) as nat, radix);
        assert(zeros.last() == 48u8);
        assert(digit_value(48u8, radix) == Some(0nat));
        assert(0 * radix + 0 == 0) by (nonlinear_arith);
    }
}

/// Leading zeros do not change the value of digits.
proof fn lemma_leading_zeros(z: nat, s: Seq<u8>, radix: nat)
    requires
        radix > 0,
    ensures
        numeral_value(Seq::new(z, |i: int| 48u8) + s, radix) == numeral_value(s, radix),
    decreases s.len(),
{
    let zeros = Seq::new(z, |i: int| 48u8);
    if s.len() == 0 {
        assert(zeros + s =~= zeros);
        lemma_zeros_value(z, radix);
    } else {
        assert((zeros + s).drop_last() =~= zeros + s.drop_last());
        assert((zeros + s).last() == s.last());
        lemma_leading_zeros(z, s.drop_last(), radix);
    }
}

/// Decimal digits are the bytes of `0` to `9`.
proof fn lemma_decimal_digits(n: nat)
    ensures
        forall|i: int| 0 <= i < digits_of(n, 10).len() ==> 48 <= #[trigger] digits_of(n, 10)[i] <= 57,
        digits_of(n, 10).len() >= 1,
        n < 10 ==> digits_of(n, 10).len() == 1,
        n < 100 ==> digits_of(n, 10).len() <= 2,
        n < 1000 ==> digits_of(n, 10).len() <= 3,
    decreases n,
{
    if n >= 10 {
        lemma_decimal_digits(n / 10);
    }
}

/// A measure below 1000 is written in three decimal digits that read back
/// as the measure.
proof fn lemma_three_digit_measure(m: nat)
    requires
        m < 1000,
    ensures
        ({
            let text = ascii_chars(padded_digits(m, 10, 3));
            &&& text.len() == 3
            &&& forall|i: int| 0 <= i < 3 ==> '0' <= #[trigger] text[i] && text[i] <= '9'
            &&& parse_chars_spec(text, 10, u32::MAX as nat) == Some(m)
        }),
{
    lemma_decimal_digits(m);
    crate::text::lemma_digits_round_trip(m, 10);
    let digits = digits_of(m, 10);
    let bytes = padded_digits(m, 10, 3);
    let text = ascii_chars(bytes);
    let zeros = Seq::new((3 - digits.len()) as nat, |i: int| 48u8);
    if digits.len() < 3 {
        assert(bytes == zeros + digits);
        lemma_leading_zeros((3 - digits.len()) as nat, digits, 10);
    } else {
        assert(bytes == digits);
    }
    assert(bytes.len() == 3);
    assert forall|i: int| 0 <= i < 3 implies 48 <= #[trigger] bytes[i] <= 57 by {
        if digits.len() < 3 && i < 3 - digits.len() {
            assert(bytes[i] == zeros[i]);
        } else if digits.len() < 3 {
            assert(bytes[i] == digits[i - (3 - digits.len())]);
        }
    }
    assert(all_ascii(text));
    assert(char_bytes(text) =~= bytes);
    assert(numeral_value(bytes, 10) == Some(m));
    assert(bytes[0] != 43);
    assert(parse_unsigned_spec(bytes, 10, u32::MAX as nat) == Some(m));
}

/// A tap that XLAIR SUS writes on a slider lane is read back: its record is
/// the tap's token under the key of its lane, at the measure and tick that
/// locating the tap gives; the data line that lays the record out in its
/// measure reads as a line of taps on that lane whose token at that tick
/// stands at the tap's position, and the token reads as the tap. This holds
/// wherever the measure is below 1000 and the positions of the measure's
/// tokens fit in 64-bit arithmetic; a flick is read back without its
/// direction.
pub proof fn lemma_xlair_tap_reads_back(
    timeline: MeasureTimeline,
    ticks_per_beat: nat,
    position: Position,
    start: u8,
    width: u8,
    kind: TapKind,
    channel: char,
    mode: ChartMode,
    measure: u32,
    tick: u64,
    slots: nat,
)
    requires
        timeline.wf(),
        position.wf(),
        ticks_per_beat > 0,
        valid_slider(start, width),
        kind is Tap || kind is XTap || kind == (TapKind::Flick { direction: None }),
        timeline.locate_spec(position, ticks_per_beat) == Ok::<(u32, u64), ChartError>((measure, tick)),
        timeline.ticks_spec(measure as nat, ticks_per_beat) == Ok::<nat, ChartError>(slots),
        tick < slots,
        measure < 1000,
        token_positions(timeline, measure as nat, slots, slots) is Ok,
    ensures
        ({
            let key = seq!['1', digit(start)];
            let token = seq![tap_text(kind) as char, digit(width)];
            let header = ascii_chars(padded_digits(measure as nat, 10, 3)) + key;
            let data = Seq::new((2 * tick) as nat, |i: int| '0') + token + Seq::new(
                (2 * (slots - tick - 1)) as nat,
                |i: int| '0',
            );
            &&& xlair_records(
                timeline,
                ticks_per_beat,
                position,
                Lane::Slider { start, width },
                channel,
                XlairNote::Tap(kind),
            ) == Ok::<Seq<(u32, u64, Seq<char>, Seq<char>)>, crate::sus_standard::LineFailure>(
                seq![(measure, tick, key, token)],
            )
            &&& record_line(measure as nat, key, tick as nat, token, slots) == "#"@ + header + ": "@ + data
            &&& data_line_read(0, timeline, mode, header, data) matches Ok(
                DataLineParts::Channel(channel_kind, lane, found_channel, found),
            )
            &&& channel_kind == ChannelKind::Short
            &&& lane == start
            &&& found_channel is None
            &&& found.len() == slots
            &&& found[tick as int] == position
            &&& token_read(mode, ChannelKind::Short, start, encode_utf8(data)[2 * tick], encode_utf8(data)[2 * tick + 1])
                == Ok::<TokenRead, crate::sus_data_lines::TokenFailure>(TokenRead::Tap(kind, Lane::Slider { start, width }))
        }),
{
    let key = seq!['1', digit(start)];
    let token = seq![tap_text(kind) as char, digit(width)];
    let digits = ascii_chars(padded_digits(measure as nat, 10, 3));
    let header = digits + key;
    let before = Seq::new((2 * tick) as nat, |i: int| '0');
    let after = Seq::new((2 * (slots - tick - 1)) as nat, |i: int| '0');
    let data = before + token + after;
    lemma_three_digit_measure(measure as nat);
    // The record line is the header, a colon and the data.
    assert(record_line(measure as nat, key, tick as nat, token, slots) =~= "#"@ + header + ": "@ + data);
    // The header and the data are ASCII.
    assert(is_ascii_chars(header));
    assert(is_ascii_chars(data)) by {
        assert forall|i: int| 0 <= i < data.len() implies '\0' <= #[trigger] data[i] <= '\u{7f}' by {
            if i < before.len() {
                assert(data[i] == before[i]);
            } else if i < before.len() + 2 {
                assert(data[i] == token[i - before.len()]);
            } else {
                assert(data[i] == after[i - before.len() - 2]);
            }
        }
    }
    vstd::utf8::is_ascii_chars_encode_utf8(header);
    vstd::utf8::is_ascii_chars_encode_utf8(data);
    let bytes = encode_utf8(data);
    assert(data[2 * tick] == token[0]);
    assert(data[2 * tick + 1] == token[1]);
    assert(bytes[2 * tick] == tap_text(kind));
    assert(bytes[2 * tick + 1] == digit_byte(width as nat));
    // The header reads as the measure, a tap channel and the lane.
    assert(header.subrange(0, 3) =~= digits);
    assert(header.skip(3) =~= key);
    reveal_strlit("02");
    reveal_strlit("08");
    assert(key != "02"@);
    assert(key != "08"@);
    assert(crate::sus::low_byte(digit(start)) == digit_byte(start as nat));
    assert(digit_value(digit_byte(start as nat), 36) == Some(start as nat));
    assert(digit_value(digit_byte(width as nat), 36) == Some(width as nat));
    // The token at the tick stands at the tap's position.
    assert(bytes.len() == 2 * slots);
    lemma_token_positions_at(timeline, measure as nat, slots, slots, tick as nat);
    timeline.lemma_located_position_reads_back(position, ticks_per_beat);
}


/// Hexadecimal digits are the bytes of `0` to `9` and `a` to `f`.
proof fn lemma_hex_digits(n: nat)
    ensures
        forall|i: int|
            0 <= i < digits_of(n, 16).len() ==> (48 <= #[trigger] digits_of(n, 16)[i] <= 57 || 97 <= digits_of(
                n,
                16,
            )[i] <= 102),
        digits_of(n, 16).len() >= 1,
        n < 16 ==> digits_of(n, 16).len() == 1,
        n < 256 ==> digits_of(n, 16).len() <= 2,
        n < 4096 ==> digits_of(n, 16).len() <= 3,
    decreases n,
{
    if n >= 16 {
        lemma_hex_digits(n / 16);
    }
}

/// The bytes of hexadecimal digits in upper case.
pub open spec fn upper_bytes(bytes: Seq<u8>) -> Seq<u8> {
    char_bytes(uppercase(ascii_chars(bytes)))
}

/// Upper-case digits have the value of the lower-case ones.
proof fn lemma_upper_value(bytes: Seq<u8>)
    requires
        forall|i: int| 0 <= i < bytes.len() ==> (48 <= #[trigger] bytes[i] <= 57 || 97 <= bytes[i] <= 102),
    ensures
        numeral_value(upper_bytes(bytes), 16) == numeral_value(bytes, 16),
        upper_bytes(bytes).len() == bytes.len(),
        forall|i: int|
            0 <= i < bytes.len() ==> (48 <= #[trigger] upper_bytes(bytes)[i] <= 57 || 65 <= upper_bytes(bytes)[i] <= 70),
    decreases bytes.len(),
{
    let up = upper_bytes(bytes);
    assert forall|i: int| 0 <= i < bytes.len() implies (48 <= #[trigger] up[i] <= 57 || 65 <= up[i] <= 70)
        && digit_value(up[i], 16) == digit_value(bytes[i], 16) by {
        let c = bytes[i] as char;
        assert(up[i] == upper(c) as u8);
    }
    if bytes.len() > 0 {
        assert(up.drop_last() =~= upper_bytes(bytes.drop_last()));
        lemma_upper_value(bytes.drop_last());
        assert(up.last() == up[bytes.len() - 1]);
    }
}

/// A number with at most `width` hexadecimal digits is written in exactly
/// `width` upper-case digits that read back as the number.
proof fn lemma_upper_hex_reads_back(n: nat, width: nat)
    requires
        digits_of(n, 16).len() <= width,
    ensures
        upper_hex(n, width).len() == width,
        forall|i: int|
            0 <= i < width ==> ('0' <= #[trigger] upper_hex(n, width)[i] <= '9' || 'A' <= upper_hex(n, width)[i]
                <= 'F'),
        all_ascii(upper_hex(n, width)),
        numeral_value(char_bytes(upper_hex(n, width)), 16) == Some(n),
{
    lemma_hex_digits(n);
    crate::text::lemma_digits_round_trip(n, 16);
    let digits = digits_of(n, 16);
    let bytes = padded_digits(n, 16, width);
    let zeros = Seq::new((width - digits.len()) as nat, |i: int| 48u8);
    if digits.len() < width {
        assert(bytes == zeros + digits);
        lemma_leading_zeros((width - digits.len()) as nat, digits, 16);
    } else {
        assert(bytes == digits);
    }
    assert forall|i: int| 0 <= i < bytes.len() implies (48 <= #[trigger] bytes[i] <= 57 || 97 <= bytes[i] <= 102) by {
        if digits.len() < width && i < width - digits.len() {
            assert(bytes[i] == zeros[i]);
        } else if digits.len() < width {
            assert(bytes[i] == digits[i - (width - digits.len())]);
        }
    }
    lemma_upper_value(bytes);
    let text = upper_hex(n, width);
    assert(char_bytes(text) =~= upper_bytes(bytes));
    assert forall|i: int| 0 <= i < width implies ('0' <= #[trigger] text[i] <= '9' || 'A' <= text[i] <= 'F') by {
        assert(upper_bytes(bytes)[i] == text[i] as u8);
    }
}

/// The value of the two last hexadecimal digits of a tick written in three.
proof fn lemma_last_hex_digits(t: nat)
    requires
        t < 4096,
        upper_hex(t, 3)[1] == '0' && upper_hex(t, 3)[2] == '8',
    ensures
        t % 256 == 8,
{
    lemma_hex_digits(t);
    lemma_upper_hex_reads_back(t, 3);
    let text = upper_hex(t, 3);
    let bytes = char_bytes(text);
    assert(bytes[1] == 48 && bytes[2] == 56);
    assert(bytes.drop_last().drop_last() =~= seq![bytes[0]]);
    assert(bytes.drop_last().last() == bytes[1]);
    let high = numeral_value(seq![bytes[0]], 16)->0;
    assert(numeral_value(bytes.drop_last(), 16) == Some(high * 16 + 0));
    assert(t == (high * 16 + 0) * 16 + 8);
    assert(((high * 16 + 0) * 16 + 8) % 256 == 8) by (nonlinear_arith);
}

/// The header of a standard note line for the measure and tick: five
/// hexadecimal digits that read back as them, and do not end in `08`.
proof fn lemma_standard_header(m: nat, t: nat)
    requires
        m < 256,
        t < 4096,
        t % 256 != 8,
    ensures
        ({
            let header = upper_hex(m, 2) + upper_hex(t, 3);
            &&& crate::sus_standard_read::note_header(header)
            &&& parse_chars_spec(header.subrange(0, 2), 16, u32::MAX as nat) == Some(m)
            &&& parse_chars_spec(header.subrange(2, 5), 16, u64::MAX as nat) == Some(t)
        }),
{
    lemma_hex_digits(m);
    lemma_hex_digits(t);
    lemma_upper_hex_reads_back(m, 2);
    lemma_upper_hex_reads_back(t, 3);
    let mm = upper_hex(m, 2);
    let tt = upper_hex(t, 3);
    let header = mm + tt;
    assert(header.subrange(0, 2) =~= mm);
    assert(header.subrange(2, 5) =~= tt);
    assert forall|i: int| 0 <= i < 5 implies crate::sus_standard_read::is_hex_char(#[trigger] header[i]) by {
        if i < 2 {
            assert(header[i] == mm[i]);
        } else {
            assert(header[i] == tt[i - 2]);
        }
    }
    if header[3] == '0' && header[4] == '8' {
        assert(tt[1] == header[3] && tt[2] == header[4]);
        lemma_last_hex_digits(t);
    }
    assert(char_bytes(mm)[0] != 43);
    assert(char_bytes(tt)[0] != 43);
}

/// The data of a standard tap line: ASCII bytes whose first two read as the
/// tap code and whose next four read as the doubled lane start and width,
/// each pair on character boundaries.
proof fn lemma_standard_tap_data(start: u8, width: u8)
    requires
        valid_slider(start, width),
    ensures
        ({
            let bytes = encode_utf8("01"@ + lane_field(start, width));
            &&& bytes.len() == 6
            &&& crate::sus_standard_read::sliced(bytes, 0, 2)
            &&& crate::sus_standard_read::data_hex(bytes, 0, 2, 255) == Some(1nat)
            &&& crate::sus_standard_read::read_lane(bytes, 2) == Ok::<Lane, crate::sus_standard_read::ReadStop>(
                Lane::Slider { start, width },
            )
        }),
{
    reveal_strlit("01");
    lemma_hex_digits(2 * start as nat);
    lemma_hex_digits(2 * width as nat);
    lemma_upper_hex_reads_back(2 * start as nat, 2);
    lemma_upper_hex_reads_back(2 * width as nat, 2);
    let ss = upper_hex(2 * start as nat, 2);
    let ww = upper_hex(2 * width as nat, 2);
    let data = "01"@ + lane_field(start, width);
    assert(data =~= seq!['0', '1'] + ss + ww);
    assert(is_ascii_chars(data)) by {
        assert forall|i: int| 0 <= i < data.len() implies '\0' <= #[trigger] data[i] <= '\u{7f}' by {
            if 2 <= i < 4 {
                assert(data[i] == ss[i - 2]);
            } else if i >= 4 {
                assert(data[i] == ww[i - 4]);
            }
        }
    }
    vstd::utf8::is_ascii_chars_encode_utf8(data);
    let bytes = encode_utf8(data);
    assert(bytes =~= char_bytes(data));
    assert(bytes.subrange(0, 2) =~= seq![48u8, 49u8]);
    assert(numeral_value(seq![48u8, 49u8], 16) == Some(1nat)) by {
        assert(seq![48u8, 49u8].drop_last() =~= seq![48u8]);
        assert(seq![48u8].drop_last() =~= Seq::<u8>::empty());
        assert(numeral_value(Seq::<u8>::empty(), 16) == Some(0nat));
        assert(numeral_value(seq![48u8], 16) == Some(0nat));
    }
    assert(bytes.subrange(2, 4) =~= char_bytes(ss));
    assert(bytes.subrange(4, 6) =~= char_bytes(ww));
    assert(char_bytes(ss)[0] != 43);
    assert(char_bytes(ww)[0] != 43);
    vstd::utf8::encode_utf8_valid_utf8(data);
    vstd::utf8::is_char_boundary_start_end_of_seq(bytes);
    vstd::utf8::is_char_boundary_iff_not_is_continuation_byte(bytes, 2);
    vstd::utf8::is_char_boundary_iff_not_is_continuation_byte(bytes, 4);
    assert((2 * start as nat) / 2 == start);
    assert((2 * width as nat) / 2 == width);
}

/// A tap that standard SUS writes on a slider lane is read back where its
/// measure has four beats: the line it writes for the tap, `#`, the header,
/// `: ` and the data, reads as a tap on that lane at the tap's position.
/// This holds wherever the measure is below 256, the tick in it is below
/// 4096 and is not 8 more than a multiple of 256 (a header ending in `08`
/// reads as no note), and the arithmetic of reading the position fits in
/// 64 bits.
pub proof fn lemma_standard_tap_reads_back(
    timeline: MeasureTimeline,
    ticks_per_beat: u64,
    ticks_per_measure: nat,
    position: Position,
    start: u8,
    width: u8,
    mode: ChartMode,
    tempo_defined: bool,
    measure: u32,
    tick: u64,
)
    requires
        timeline.wf(),
        position.wf(),
        ticks_per_beat > 0,
        ticks_per_beat * 4 <= u64::MAX,
        valid_slider(start, width),
        timeline.locate_spec(position, ticks_per_beat as nat) == Ok::<(u32, u64), ChartError>((measure, tick)),
        timeline.length_at_spec(measure as nat) == Position::from_fraction(4, 1),
        measure < 256,
        tick < 4096,
        tick % 256 != 8,
        timeline.position_spec(measure as nat, tick as nat, (ticks_per_beat * 4) as nat) is Ok,
    ensures
        ({
            let header = upper_hex(measure as nat, 2) + upper_hex(tick as nat, 3);
            let data = "01"@ + lane_field(start, width);
            &&& standard_note_outcome(
                timeline,
                ticks_per_beat as nat,
                ticks_per_measure,
                position,
                Lane::Slider { start, width },
                StandardNote::Tap(TapKind::Tap),
            ) == Ok::<Seq<Seq<char>>, crate::sus_standard::LineFailure>(
                seq![note_head(measure as nat, tick as nat) + data],
            )
            &&& note_head(measure as nat, tick as nat) + data == "#"@ + header + ": "@ + data
            &&& is_standard_note_spec(header, data)
            &&& standard_read(0, ticks_per_beat, timeline, mode, header, encode_utf8(data), tempo_defined) == Ok::<
                ReadParts,
                crate::sus_standard_read::ReadStop,
            >(ReadParts::Note(position, Lane::Slider { start, width }, ReadNoteParts::Tap(TapKind::Tap)))
        }),
{
    reveal_strlit("01");
    let m = measure as nat;
    let t = tick as nat;
    let header = upper_hex(m, 2) + upper_hex(t, 3);
    let lanes = lane_field(start, width);
    let data = "01"@ + lanes;
    lemma_standard_header(m, t);
    lemma_standard_tap_data(start, width);
    assert(note_head(m, t) + data =~= "#"@ + header + ": "@ + data);
    assert(note_head(m, t) + "01"@ + lanes =~= note_head(m, t) + data);
    // The position the header gives is the tap's: a measure of four beats
    // has four times the ticks of a beat.
    crate::position::lemma_whole_beats(4);
    assert(timeline.ticks_spec(m, ticks_per_beat as nat) == Ok::<nat, ChartError>((ticks_per_beat * 4) as nat));
    timeline.lemma_located_position_reads_back(position, ticks_per_beat as nat);
}

} // verus!
