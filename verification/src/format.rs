//! The supported chart formats and the decoding of chart files.

use vstd::prelude::*;
use vstd::string::StringSliceAdditionalSpecFns;
use vstd::utf8::{decode_utf8, valid_utf8};

use crate::std_text::utf8_text;

verus! {

/// A chart format supported by the converter.
#[derive(Clone, Copy, Debug, PartialEq, Eq, Structural)]
pub enum Format {
    /// The C2S format.
    C2s,
    /// The XLAIR-compatible SUS subset.
    Sus,
    /// The supported UGC subset.
    Ugc,
}

/// The byte of `b` with ASCII upper-case letters made lower-case.
pub open spec fn ascii_lower(b: u8) -> u8 {
    if 65 <= b <= 90 {
        (b + 32) as u8
    } else {
        b
    }
}

/// Equal up to the case of ASCII letters.
pub open spec fn eq_ignore_ascii_case(s: Seq<u8>, t: Seq<u8>) -> bool {
    s.len() == t.len() && forall|i: int| 0 <= i < s.len() ==> ascii_lower(s[i]) == ascii_lower(t[i])
}

/// The bytes of an ASCII text.
pub open spec fn ascii_bytes(s: Seq<char>) -> Seq<u8> {
    s.map_values(|c: char| c as u8)
}

/// The file extension of a format, without a dot.
pub open spec fn extension_text(format: Format) -> Seq<char> {
    match format {
        Format::C2s => "c2s"@,
        Format::Sus => "sus"@,
        Format::Ugc => "ugc"@,
    }
}

/// The format a file extension names, with or without one leading dot and in
/// any letter case.
pub open spec fn format_of_extension(extension: Seq<u8>) -> Option<Format> {
    let bare = if extension.len() > 0 && extension[0] == 46 {
        extension.drop_first()
    } else {
        extension
    };
    if eq_ignore_ascii_case(bare, ascii_bytes("c2s"@)) {
        Some(Format::C2s)
    } else if eq_ignore_ascii_case(bare, ascii_bytes("sus"@)) {
        Some(Format::Sus)
    } else if eq_ignore_ascii_case(bare, ascii_bytes("ugc"@)) {
        Some(Format::Ugc)
    } else {
        None
    }
}

/// Compares `bytes` with an ASCII text, ignoring the case of ASCII letters.
fn bytes_eq_ignore_case(bytes: &[u8], name: &str) -> (equal: bool)
    requires
        name.is_ascii(),
    ensures
        equal == eq_ignore_ascii_case(bytes@, ascii_bytes(name@)),
{
    let other = name.as_bytes();
    proof {
        vstd::string::is_ascii_spec_bytes(name);
        assert(other@ == ascii_bytes(name@));
    }
    if bytes.len() != other.len() {
        return false;
    }
    let mut index: usize = 0;
    while index < bytes.len()
        invariant
            bytes@.len() == other@.len(),
            other@ == ascii_bytes(name@),
            index <= bytes@.len(),
            forall|i: int| 0 <= i < index ==> ascii_lower(bytes@[i]) == ascii_lower(other@[i]),
        decreases bytes@.len() - index,
    {
        let a = bytes[index];
        let b = other[index];
        let lower_a = if 65 <= a && a <= 90 {
            a + 32
        } else {
            a
        };
        let lower_b = if 65 <= b && b <= 90 {
            b + 32
        } else {
            b
        };
        if lower_a != lower_b {
            return false;
        }
        index += 1;
    }
    true
}

impl Format {
    /// Identifies a format from a file extension, with or without a leading dot.
    pub fn from_extension(extension: &str) -> (format: Option<Self>)
        ensures
            format == format_of_extension(extension.spec_bytes()),
    {
        let bytes = extension.as_bytes();
        let bare = if bytes.len() > 0 && bytes[0] == 46 {
            &bytes[1..bytes.len()]
        } else {
            bytes
        };
        proof {
            if bytes@.len() > 0 && bytes@[0] == 46 {
                assert(bare@ == bytes@.drop_first());
            }
            reveal_strlit("c2s");
            reveal_strlit("sus");
            reveal_strlit("ugc");
        }
        if bytes_eq_ignore_case(bare, "c2s") {
            Some(Format::C2s)
        } else if bytes_eq_ignore_case(bare, "sus") {
            Some(Format::Sus)
        } else if bytes_eq_ignore_case(bare, "ugc") {
            Some(Format::Ugc)
        } else {
            None
        }
    }

    /// Returns the file extension associated with the format.
    pub fn extension(self) -> (extension: &'static str)
        ensures
            extension@ == extension_text(self),
    {
        match self {
            Format::C2s => "c2s",
            Format::Sus => "sus",
            Format::Ugc => "ugc",
        }
    }

    /// Returns the display name of the format.
    pub fn name(self) -> (name: &'static str)
        ensures
            name@ == match self {
                Format::C2s => "C2S"@,
                Format::Sus => "SUS"@,
                Format::Ugc => "UGC"@,
            },
    {
        match self {
            Format::C2s => "C2S",
            Format::Sus => "SUS",
            Format::Ugc => "UGC",
        }
    }
}

/// Every format is found again from its own extension.
pub proof fn lemma_extension_round_trip(format: Format)
    ensures
        format_of_extension(ascii_bytes(extension_text(format))) == Some(format),
{
    reveal_strlit("c2s");
    reveal_strlit("sus");
    reveal_strlit("ugc");
    let e = ascii_bytes(extension_text(format));
    assert(e.len() == 3);
    match format {
        Format::C2s => {
            assert(eq_ignore_ascii_case(e, ascii_bytes("c2s"@)));
        },
        Format::Sus => {
            assert(!eq_ignore_ascii_case(e, ascii_bytes("c2s"@))) by {
                assert(ascii_lower(e[0]) != ascii_lower(ascii_bytes("c2s"@)[0]));
            }
            assert(eq_ignore_ascii_case(e, ascii_bytes("sus"@)));
        },
        Format::Ugc => {
            assert(!eq_ignore_ascii_case(e, ascii_bytes("c2s"@))) by {
                assert(ascii_lower(e[0]) != ascii_lower(ascii_bytes("c2s"@)[0]));
            }
            assert(!eq_ignore_ascii_case(e, ascii_bytes("sus"@))) by {
                assert(ascii_lower(e[0]) != ascii_lower(ascii_bytes("sus"@)[0]));
            }
            assert(eq_ignore_ascii_case(e, ascii_bytes("ugc"@)));
        },
    }
}

/// Why the bytes of a chart file are not text.
#[derive(Debug)]
pub enum SourceEncodingError {
    /// The source is not valid UTF-8.
    Utf8(std::str::Utf8Error),
    /// The source contains invalid UTF-16.
    Utf16,
}

/// The text of UTF-16 code units, or `None` where a surrogate is unpaired.
pub open spec fn utf16_decode(units: Seq<u16>) -> Option<Seq<char>>
    decreases units.len(),
{
    if units.len() == 0 {
        Some(Seq::empty())
    } else {
        let u = units[0];
        if u < 0xD800 || u > 0xDFFF {
            match utf16_decode(units.drop_first()) {
                Some(rest) => Some(seq![(u as u32) as char] + rest),
                None => None,
            }
        } else if u <= 0xDBFF && units.len() >= 2 && 0xDC00 <= units[1] <= 0xDFFF {
            let c = (0x10000 + (u - 0xD800) * 0x400 + (units[1] - 0xDC00)) as u32 as char;
            match utf16_decode(units.subrange(2, units.len() as int)) {
                Some(rest) => Some(seq![c] + rest),
                None => None,
            }
        } else {
            None
        }
    }
}

/// The code units of `bytes` taken in pairs, little-endian or big-endian.
pub open spec fn utf16_units(bytes: Seq<u8>, big_endian: bool) -> Seq<u16> {
    Seq::new(
        bytes.len() / 2,
        |i: int|
            if big_endian {
                (bytes[2 * i] * 256 + bytes[2 * i + 1]) as u16
            } else {
                (bytes[2 * i + 1] * 256 + bytes[2 * i]) as u16
            },
    )
}

/// What `decode_utf16` returns for `bytes`.
pub open spec fn utf16_text(bytes: Seq<u8>, big_endian: bool) -> Option<Seq<char>> {
    if bytes.len() % 2 != 0 {
        None
    } else {
        utf16_decode(utf16_units(bytes, big_endian))
    }
}

/// Decodes UTF-16 text given as bytes in the chosen byte order.
fn decode_utf16(source: &[u8], big_endian: bool) -> (text: Result<String, SourceEncodingError>)
    ensures
        match utf16_text(source@, big_endian) {
            Some(chars) => text matches Ok(s) && s@ == chars,
            None => text matches Err(SourceEncodingError::Utf16),
        },
{
    if source.len() % 2 != 0 {
        return Err(SourceEncodingError::Utf16);
    }
    let mut units: Vec<u16> = Vec::new();
    let mut index: usize = 0;
    let ghost all_units = utf16_units(source@, big_endian);
    while index < source.len() / 2
        invariant
            index <= source@.len() / 2,
            source@.len() % 2 == 0,
            all_units == utf16_units(source@, big_endian),
            units@ == all_units.take(index as int),
        decreases source@.len() / 2 - index,
    {
        let first = source[2 * index] as u16;
        let second = source[2 * index + 1] as u16;
        let unit = if big_endian {
            first * 256 + second
        } else {
            second * 256 + first
        };
        units.push(unit);
        index += 1;
        proof {
            assert(units@ == all_units.take(index as int));
        }
    }
    proof {
        assert(units@ == all_units);
    }
    let mut text = String::new();
    let mut position: usize = 0;
    while position < units.len()
        invariant
            position <= units@.len(),
            units@ == all_units,
            all_units == utf16_units(source@, big_endian),
            source@.len() % 2 == 0,
            utf16_decode(all_units) == match utf16_decode(all_units.subrange(position as int, all_units.len() as int)) {
                Some(rest) => Some(text@ + rest),
                None => None,
            },
        decreases units@.len() - position,
    {
        let ghost rest = all_units.subrange(position as int, all_units.len() as int);
        let ghost before = text@;
        let unit = units[position];
        proof {
            assert(rest[0] == unit);
            if position + 1 < units@.len() {
                assert(rest[1] == units@[position + 1]);
            }
        }
        if unit < 0xD800 || unit > 0xDFFF {
            proof {
                assert(rest.drop_first() == all_units.subrange(position + 1, all_units.len() as int));
            }
            let c = char::from_u32(unit as u32).unwrap();
            text.push(c);
            position += 1;
            proof {
                assert forall|r: Seq<char>| before + (seq![c] + r) == #[trigger] (text@ + r) by {
                    assert(before + (seq![c] + r) =~= text@ + r);
                }
            }
        } else if unit <= 0xDBFF && position + 1 < units.len() && 0xDC00 <= units[position + 1]
            && units[position + 1] <= 0xDFFF {
            let low = units[position + 1];
            let code = 0x10000 + ((unit - 0xD800) as u32) * 0x400 + ((low - 0xDC00) as u32);
            proof {
                assert(rest.subrange(2, rest.len() as int) == all_units.subrange(
                    position + 2,
                    all_units.len() as int,
                ));
            }
            let c = char::from_u32(code).unwrap();
            text.push(c);
            position += 2;
            proof {
                assert forall|r: Seq<char>| before + (seq![c] + r) == #[trigger] (text@ + r) by {
                    assert(before + (seq![c] + r) =~= text@ + r);
                }
            }
        } else {
            proof {
                assert(utf16_decode(rest) is None);
            }
            return Err(SourceEncodingError::Utf16);
        }
    }
    proof {
        assert(all_units.subrange(position as int, all_units.len() as int) == Seq::<u16>::empty());
        assert(text@ + Seq::<char>::empty() == text@);
    }
    Ok(text)
}

/// What `decode_source` returns for the bytes of a chart file: UTF-8 after
/// an optional UTF-8 byte order mark, or UTF-16 after its byte order mark.
pub open spec fn source_text(bytes: Seq<u8>) -> Option<Seq<char>> {
    if bytes.len() >= 3 && bytes[0] == 0xef && bytes[1] == 0xbb && bytes[2] == 0xbf {
        let rest = bytes.subrange(3, bytes.len() as int);
        if valid_utf8(rest) {
            Some(decode_utf8(rest))
        } else {
            None
        }
    } else if bytes.len() >= 2 && bytes[0] == 0xff && bytes[1] == 0xfe {
        utf16_text(bytes.subrange(2, bytes.len() as int), false)
    } else if bytes.len() >= 2 && bytes[0] == 0xfe && bytes[1] == 0xff {
        utf16_text(bytes.subrange(2, bytes.len() as int), true)
    } else if valid_utf8(bytes) {
        Some(decode_utf8(bytes))
    } else {
        None
    }
}

/// The bytes begin with a UTF-16 byte order mark and no UTF-8 one.
pub open spec fn is_utf16_source(bytes: Seq<u8>) -> bool {
    !(bytes.len() >= 3 && bytes[0] == 0xef && bytes[1] == 0xbb && bytes[2] == 0xbf) && bytes.len() >= 2 && (
    (bytes[0] == 0xff && bytes[1] == 0xfe) || (bytes[0] == 0xfe && bytes[1] == 0xff))
}

/// Decodes UTF-8 bytes into an owned string.
fn decode_utf8_bytes(bytes: &[u8]) -> (text: Result<String, SourceEncodingError>)
    ensures
        valid_utf8(bytes@) ==> (text matches Ok(s) && s@ == decode_utf8(bytes@)),
        !valid_utf8(bytes@) ==> text matches Err(SourceEncodingError::Utf8(_)),
{
    match utf8_text(bytes) {
        Ok(s) => {
            proof {
                vstd::utf8::encode_utf8_decode_utf8(s@);
            }
            Ok(s.to_owned())
        },
        Err(error) => Err(SourceEncodingError::Utf8(error)),
    }
}

/// Decodes a chart file, accepting UTF-8 (with or without a byte order mark)
/// and UTF-16 marked by a byte order mark.
pub fn decode_source(source: &[u8]) -> (text: Result<String, SourceEncodingError>)
    ensures
        match source_text(source@) {
            Some(chars) => text matches Ok(s) && s@ == chars,
            None => if is_utf16_source(source@) {
                text matches Err(SourceEncodingError::Utf16)
            } else {
                text matches Err(SourceEncodingError::Utf8(_))
            },
        },
{
    let n = source.len();
    if n >= 3 && source[0] == 0xef && source[1] == 0xbb && source[2] == 0xbf {
        return decode_utf8_bytes(&source[3..n]);
    }
    if n >= 2 && source[0] == 0xff && source[1] == 0xfe {
        return decode_utf16(&source[2..n], false);
    }
    if n >= 2 && source[0] == 0xfe && source[1] == 0xff {
        return decode_utf16(&source[2..n], true);
    }
    decode_utf8_bytes(source)
}

} // verus!
