//! The literal codes that each format gives its directions, colors, kinds,
//! record names and file extensions. Reading and writing are each tied here
//! to the code the format names, so that neither can agree with the other on
//! a wrong code.

use vstd::prelude::*;

use crate::air_parent::StandardParent;
use crate::c2s_records::C2sRecord;
use crate::format::{ascii_lower, extension_text, format_of_extension, Format};
use crate::note::{AirColor, AirCrushColor, AirDirection, ExDirection, SideButton, SlidePointKind, TapKind};
use crate::c2s_records::ParentRecord;
use crate::chart::ChartMode;
use crate::sus_data_lines::{data_line_read, ChannelKind, DataLineParts};
use crate::timeline::MeasureTimeline;
use crate::ugc::UgcRecord;

verus! {

/// `extension` is the extension of `format`, `c2s`, `sus` or `ugc`, in any
/// mix of ASCII letter case.
pub open spec fn names_extension(extension: Seq<u8>, format: Format) -> bool {
    let name: Seq<u8> = match format {
        Format::C2s => seq![99u8, 50u8, 115u8],
        Format::Sus => seq![115u8, 117u8, 115u8],
        Format::Ugc => seq![117u8, 103u8, 99u8],
    };
    &&& extension.len() == 3
    &&& forall|i: int|
        0 <= i < 3 ==> #[trigger] extension[i] == name[i] || (97 <= name[i] <= 122 && extension[i] == name[i] - 32)
}

/// A file extension names a format exactly when, without one leading dot,
/// it is that format's extension (`c2s`, `sus` or `ugc`) in any mix of
/// ASCII letter case; and each format's own extension is that name.
pub proof fn lemma_extensions_name_formats(extension: Seq<u8>, format: Format)
    ensures
        extension_text(Format::C2s) == "c2s"@,
        extension_text(Format::Sus) == "sus"@,
        extension_text(Format::Ugc) == "ugc"@,
        format_of_extension(extension) == Some(format) <==> names_extension(extension, format)
            || (extension.len() > 0 && extension[0] == 46 && names_extension(extension.drop_first(), format)),
{
    reveal_strlit("c2s");
    assert("c2s"@.len() == 3);
    reveal_strlit("sus");
    assert("sus"@.len() == 3);
    reveal_strlit("ugc");
    assert("ugc"@.len() == 3);
    assert("c2s"@[0] == 'c' && "c2s"@[1] == '2' && "c2s"@[2] == 's');
    assert("sus"@[0] == 's' && "sus"@[1] == 'u' && "sus"@[2] == 's');
    assert("ugc"@[0] == 'u' && "ugc"@[1] == 'g' && "ugc"@[2] == 'c');
    let bare = if extension.len() > 0 && extension[0] == 46 {
        extension.drop_first()
    } else {
        extension
    };
    let c2s = crate::format::ascii_bytes("c2s"@);
    let sus = crate::format::ascii_bytes("sus"@);
    let ugc = crate::format::ascii_bytes("ugc"@);
    assert(c2s =~= seq![99u8, 50u8, 115u8]);
    assert(sus =~= seq![115u8, 117u8, 115u8]);
    assert(ugc =~= seq![117u8, 103u8, 99u8]);
    lemma_case_match(bare, c2s);
    lemma_case_match(bare, sus);
    lemma_case_match(bare, ugc);
    if extension.len() > 0 && extension[0] == 46 {
        // A bare extension of three letters never starts with a dot.
        assert(!names_extension(extension, format));
    }
}

/// Matching an ASCII name up to letter case byte by byte.
proof fn lemma_case_match(bare: Seq<u8>, name: Seq<u8>)
    requires
        name.len() == 3,
        forall|i: int| 0 <= i < 3 ==> (97 <= #[trigger] name[i] <= 122 || 48 <= name[i] <= 57),
    ensures
        crate::format::eq_ignore_ascii_case(bare, name) <==> (bare.len() == 3 && forall|i: int|
            0 <= i < 3 ==> #[trigger] bare[i] == name[i] || (97 <= name[i] <= 122 && bare[i] == name[i] - 32)),
{
}

/// Standard SUS directional data names the Ex directions by the first byte of
/// a token: `1` up, `2` down, `3` upper left, `4` upper right, `5` lower
/// left, `6` lower right; no other byte names one, and the writer uses the
/// same codes, with none for the other directions.
pub proof fn lemma_sus_standard_direction_codes()
    ensures
        forall|code: u8| #[trigger] crate::sus::standard_direction_code(code) == Some(ExDirection::Up) <==> code == 49 /* '1' */,
        forall|code: u8| #[trigger] crate::sus::standard_direction_code(code) == Some(ExDirection::Down) <==> code == 50 /* '2' */,
        forall|code: u8| #[trigger] crate::sus::standard_direction_code(code) == Some(ExDirection::UpperLeft) <==> code == 51 /* '3' */,
        forall|code: u8| #[trigger] crate::sus::standard_direction_code(code) == Some(ExDirection::UpperRight) <==> code == 52 /* '4' */,
        forall|code: u8| #[trigger] crate::sus::standard_direction_code(code) == Some(ExDirection::LowerLeft) <==> code == 53 /* '5' */,
        forall|code: u8| #[trigger] crate::sus::standard_direction_code(code) == Some(ExDirection::LowerRight) <==> code == 54 /* '6' */,
        forall|code: u8| #[trigger] crate::sus::standard_direction_code(code) is None <==> !(49 <= code <= 54),
        crate::sus::standard_ex_direction_spec(ExDirection::Up) == Some('1'),
        crate::sus::standard_ex_direction_spec(ExDirection::Down) == Some('2'),
        crate::sus::standard_ex_direction_spec(ExDirection::UpperLeft) == Some('3'),
        crate::sus::standard_ex_direction_spec(ExDirection::UpperRight) == Some('4'),
        crate::sus::standard_ex_direction_spec(ExDirection::LowerLeft) == Some('5'),
        crate::sus::standard_ex_direction_spec(ExDirection::LowerRight) == Some('6'),
        crate::sus::standard_ex_direction_spec(ExDirection::Center) == None::<char>,
        crate::sus::standard_ex_direction_spec(ExDirection::All) == None::<char>,
        crate::sus::standard_ex_direction_spec(ExDirection::Wide) == None::<char>,
        crate::sus::standard_ex_direction_spec(ExDirection::Left) == None::<char>,
        crate::sus::standard_ex_direction_spec(ExDirection::Right) == None::<char>,
        crate::sus::standard_ex_direction_spec(ExDirection::Inward) == None::<char>,
{
}

/// XLAIR SUS directional data names the side buttons by the first byte of a
/// token: `3` upper left, `4` upper right, `5` lower left, `6` lower right;
/// no other byte names one, and the writer uses the same codes.
pub proof fn lemma_sus_side_button_codes()
    ensures
        forall|code: u8| #[trigger] crate::sus::side_button_code(code) == Some(SideButton::LeftUpper) <==> code == 51 /* '3' */,
        forall|code: u8| #[trigger] crate::sus::side_button_code(code) == Some(SideButton::RightUpper) <==> code == 52 /* '4' */,
        forall|code: u8| #[trigger] crate::sus::side_button_code(code) == Some(SideButton::LeftLower) <==> code == 53 /* '5' */,
        forall|code: u8| #[trigger] crate::sus::side_button_code(code) == Some(SideButton::RightLower) <==> code == 54 /* '6' */,
        forall|code: u8| #[trigger] crate::sus::side_button_code(code) is None <==> !(51 <= code <= 54),
        crate::sus::side_direction_spec(SideButton::LeftUpper) == '3',
        crate::sus::side_direction_spec(SideButton::RightUpper) == '4',
        crate::sus::side_direction_spec(SideButton::LeftLower) == '5',
        crate::sus::side_direction_spec(SideButton::RightLower) == '6',
{
}

/// SUS short-note tokens name the taps by their first byte: `1` tap, `2` ExTap
/// (XTap), `3` flick, `4` to `6` the XLAIR taps; no other byte names one, and
/// the writer uses the same codes.
pub proof fn lemma_sus_tap_codes()
    ensures
        forall|code: u8| #[trigger] crate::sus::tap_code(code) == Some(TapKind::Tap) <==> code == 49,
        forall|code: u8| #[trigger] crate::sus::tap_code(code) == Some(TapKind::XTap) <==> code == 50,
        forall|code: u8| #[trigger] crate::sus::tap_code(code) == Some(TapKind::Flick { direction: None }) <==> code == 51,
        forall|code: u8| #[trigger] crate::sus::tap_code(code) == Some(TapKind::Tap4) <==> code == 52,
        forall|code: u8| #[trigger] crate::sus::tap_code(code) == Some(TapKind::Tap5) <==> code == 53,
        forall|code: u8| #[trigger] crate::sus::tap_code(code) == Some(TapKind::Tap6) <==> code == 54,
        forall|code: u8| #[trigger] crate::sus::tap_code(code) is None <==> !(49 <= code <= 54),
        crate::sus::tap_text(TapKind::Tap) == 49u8,
        crate::sus::tap_text(TapKind::XTap) == 50u8,
        crate::sus::tap_text(TapKind::Flick { direction: None }) == 51u8,
        crate::sus::tap_text(TapKind::Tap4) == 52u8,
        crate::sus::tap_text(TapKind::Tap5) == 53u8,
        crate::sus::tap_text(TapKind::Tap6) == 54u8,
{
}

/// SUS slide tokens name relay points by their first byte: `4` a control
/// point, `5` an invisible point, anything else a visible one; the writer
/// writes `3`, `4` and `5`.
pub proof fn lemma_sus_slide_point_codes()
    ensures
        forall|code: u8| #[trigger] crate::sus::slide_point_code(code) == SlidePointKind::Control <==> code == 52,
        forall|code: u8| #[trigger] crate::sus::slide_point_code(code) == SlidePointKind::Invisible <==> code == 53,
        forall|code: u8| #[trigger] crate::sus::slide_point_code(code) == SlidePointKind::Visible <==> code != 52 && code != 53,
        crate::sus::slide_point_text(SlidePointKind::Visible) == 51u8,
        crate::sus::slide_point_text(SlidePointKind::Control) == 52u8,
        crate::sus::slide_point_text(SlidePointKind::Invisible) == 53u8,
{
}

/// XLAIR SUS writes the side buttons on lanes 0 and 1 (upper left), 2 and 3
/// (lower left), 12 and 13 (upper right), 14 and 15 (lower right), and reads
/// each of those lanes, and no other, as its button.
pub proof fn lemma_side_button_lanes()
    ensures
        forall|code: u8| #[trigger] SideButton::from_lane_start_spec(code) == Some(SideButton::LeftUpper) <==> code <= 1,
        forall|code: u8| #[trigger] SideButton::from_lane_start_spec(code) == Some(SideButton::LeftLower) <==> 2 <= code <= 3,
        forall|code: u8| #[trigger] SideButton::from_lane_start_spec(code) == Some(SideButton::RightUpper) <==> 12 <= code <= 13,
        forall|code: u8| #[trigger] SideButton::from_lane_start_spec(code) == Some(SideButton::RightLower) <==> 14 <= code <= 15,
        SideButton::LeftUpper.lane_start_spec() == 0,
        SideButton::LeftLower.lane_start_spec() == 2,
        SideButton::RightUpper.lane_start_spec() == 12,
        SideButton::RightLower.lane_start_spec() == 14,
{
}

/// C2S names the Ex directions `UP`, `DW`, `CE`, `RC` or `ALL`, `LC` or
/// `VLT`, `LS` or `L`, `RS` or `R`, `BS`, `IN` or `I`; a name is read as a
/// direction exactly when it is one of that direction's names, and the
/// writer uses the first of them, with none for the diagonals.
pub proof fn lemma_c2s_ex_direction_names()
    ensures
        forall|v: Seq<char>| #[trigger] crate::c2s::ex_direction_code(v) == Some(ExDirection::Up) <==> v == "UP"@,
        forall|v: Seq<char>| #[trigger] crate::c2s::ex_direction_code(v) == Some(ExDirection::Down) <==> v == "DW"@,
        forall|v: Seq<char>| #[trigger] crate::c2s::ex_direction_code(v) == Some(ExDirection::Center) <==> v == "CE"@,
        forall|v: Seq<char>| #[trigger] crate::c2s::ex_direction_code(v) == Some(ExDirection::All) <==> (v == "RC"@ || v == "ALL"@),
        forall|v: Seq<char>| #[trigger] crate::c2s::ex_direction_code(v) == Some(ExDirection::Wide) <==> (v == "LC"@ || v == "VLT"@),
        forall|v: Seq<char>| #[trigger] crate::c2s::ex_direction_code(v) == Some(ExDirection::Left) <==> (v == "LS"@ || v == "L"@),
        forall|v: Seq<char>| #[trigger] crate::c2s::ex_direction_code(v) == Some(ExDirection::Right) <==> (v == "RS"@ || v == "R"@),
        forall|v: Seq<char>| #[trigger] crate::c2s::ex_direction_code(v) == Some(ExDirection::Inward) <==> (v == "BS"@ || v == "IN"@ || v == "I"@),
        crate::c2s::ex_direction_text(ExDirection::Up) == Some("UP"@),
        crate::c2s::ex_direction_text(ExDirection::Down) == Some("DW"@),
        crate::c2s::ex_direction_text(ExDirection::Center) == Some("CE"@),
        crate::c2s::ex_direction_text(ExDirection::All) == Some("RC"@),
        crate::c2s::ex_direction_text(ExDirection::Wide) == Some("LC"@),
        crate::c2s::ex_direction_text(ExDirection::Left) == Some("LS"@),
        crate::c2s::ex_direction_text(ExDirection::Right) == Some("RS"@),
        crate::c2s::ex_direction_text(ExDirection::Inward) == Some("BS"@),
        crate::c2s::ex_direction_text(ExDirection::UpperLeft) is None,
        crate::c2s::ex_direction_text(ExDirection::UpperRight) is None,
        crate::c2s::ex_direction_text(ExDirection::LowerLeft) is None,
        crate::c2s::ex_direction_text(ExDirection::LowerRight) is None,
{
    reveal_strlit("ALL");
    assert("ALL"@.len() == 3);
    reveal_strlit("BS");
    assert("BS"@.len() == 2);
    reveal_strlit("CE");
    assert("CE"@.len() == 2);
    reveal_strlit("DW");
    assert("DW"@.len() == 2);
    reveal_strlit("I");
    assert("I"@.len() == 1);
    reveal_strlit("IN");
    assert("IN"@.len() == 2);
    reveal_strlit("L");
    assert("L"@.len() == 1);
    reveal_strlit("LC");
    assert("LC"@.len() == 2);
    reveal_strlit("LS");
    assert("LS"@.len() == 2);
    reveal_strlit("R");
    assert("R"@.len() == 1);
    reveal_strlit("RC");
    assert("RC"@.len() == 2);
    reveal_strlit("RS");
    assert("RS"@.len() == 2);
    reveal_strlit("UP");
    assert("UP"@.len() == 2);
    reveal_strlit("VLT");
    assert("VLT"@.len() == 3);
    assert("ALL"@[0] == 'A');
    assert("ALL"@[1] == 'L');
    assert("ALL"@[2] == 'L');
    assert("BS"@[0] == 'B');
    assert("BS"@[1] == 'S');
    assert("CE"@[0] == 'C');
    assert("CE"@[1] == 'E');
    assert("DW"@[0] == 'D');
    assert("DW"@[1] == 'W');
    assert("I"@[0] == 'I');
    assert("IN"@[0] == 'I');
    assert("IN"@[1] == 'N');
    assert("L"@[0] == 'L');
    assert("LC"@[0] == 'L');
    assert("LC"@[1] == 'C');
    assert("LS"@[0] == 'L');
    assert("LS"@[1] == 'S');
    assert("R"@[0] == 'R');
    assert("RC"@[0] == 'R');
    assert("RC"@[1] == 'C');
    assert("RS"@[0] == 'R');
    assert("RS"@[1] == 'S');
    assert("UP"@[0] == 'U');
    assert("UP"@[1] == 'P');
    assert("VLT"@[0] == 'V');
    assert("VLT"@[1] == 'L');
    assert("VLT"@[2] == 'T');
    assert(crate::c2s::ex_direction_code("L"@) == Some(ExDirection::Left));
    assert(crate::c2s::ex_direction_code("LS"@) == Some(ExDirection::Left));
    assert(crate::c2s::ex_direction_code("R"@) == Some(ExDirection::Right));
    assert(crate::c2s::ex_direction_code("RS"@) == Some(ExDirection::Right));
}

/// C2S names the AIR directions `AIR` (up), `AUL` and `AUR` (upper left and
/// right), `ADW` (down), `ADL` and `ADR` (lower left and right): a record
/// name is read as a direction exactly when it is that direction's name,
/// and each direction is written under its name.
pub proof fn lemma_c2s_air_direction_names()
    ensures
        forall|v: Seq<char>| #[trigger] crate::c2s::air_direction_code(v) == Some(AirDirection::Up) <==> v == "AIR"@,
        forall|v: Seq<char>| #[trigger] crate::c2s::air_direction_code(v) == Some(AirDirection::UpperLeft) <==> v == "AUL"@,
        forall|v: Seq<char>| #[trigger] crate::c2s::air_direction_code(v) == Some(AirDirection::UpperRight) <==> v == "AUR"@,
        forall|v: Seq<char>| #[trigger] crate::c2s::air_direction_code(v) == Some(AirDirection::Down) <==> v == "ADW"@,
        forall|v: Seq<char>| #[trigger] crate::c2s::air_direction_code(v) == Some(AirDirection::LowerLeft) <==> v == "ADL"@,
        forall|v: Seq<char>| #[trigger] crate::c2s::air_direction_code(v) == Some(AirDirection::LowerRight) <==> v == "ADR"@,
        crate::c2s::air_direction_text(AirDirection::Up) == "AIR"@,
        crate::c2s::air_direction_text(AirDirection::UpperLeft) == "AUL"@,
        crate::c2s::air_direction_text(AirDirection::UpperRight) == "AUR"@,
        crate::c2s::air_direction_text(AirDirection::Down) == "ADW"@,
        crate::c2s::air_direction_text(AirDirection::LowerLeft) == "ADL"@,
        crate::c2s::air_direction_text(AirDirection::LowerRight) == "ADR"@,
{
    reveal_strlit("ADL");
    assert("ADL"@.len() == 3);
    reveal_strlit("ADR");
    assert("ADR"@.len() == 3);
    reveal_strlit("ADW");
    assert("ADW"@.len() == 3);
    reveal_strlit("AIR");
    assert("AIR"@.len() == 3);
    reveal_strlit("AUL");
    assert("AUL"@.len() == 3);
    reveal_strlit("AUR");
    assert("AUR"@.len() == 3);
    assert("ADL"@[0] == 'A');
    assert("ADL"@[1] == 'D');
    assert("ADL"@[2] == 'L');
    assert("ADR"@[0] == 'A');
    assert("ADR"@[1] == 'D');
    assert("ADR"@[2] == 'R');
    assert("ADW"@[0] == 'A');
    assert("ADW"@[1] == 'D');
    assert("ADW"@[2] == 'W');
    assert("AIR"@[0] == 'A');
    assert("AIR"@[1] == 'I');
    assert("AIR"@[2] == 'R');
    assert("AUL"@[0] == 'A');
    assert("AUL"@[1] == 'U');
    assert("AUL"@[2] == 'L');
    assert("AUR"@[0] == 'A');
    assert("AUR"@[1] == 'U');
    assert("AUR"@[2] == 'R');
}

/// C2S names the AIR colors `DEF` (normal) and `GRN` or `PPL` (inverted);
/// the writer writes `DEF` and `PPL`.
pub proof fn lemma_c2s_air_color_names()
    ensures
        forall|v: Seq<char>| #[trigger] crate::c2s::air_color_code(v) == Some(AirColor::Normal) <==> v == "DEF"@,
        forall|v: Seq<char>| #[trigger] crate::c2s::air_color_code(v) == Some(AirColor::Inverted) <==> (v == "GRN"@ || v == "PPL"@),
        crate::c2s::air_color_text(AirColor::Normal) == "DEF"@,
        crate::c2s::air_color_text(AirColor::Inverted) == "PPL"@,
{
    reveal_strlit("DEF");
    assert("DEF"@.len() == 3);
    reveal_strlit("GRN");
    assert("GRN"@.len() == 3);
    reveal_strlit("PPL");
    assert("PPL"@.len() == 3);
    assert("DEF"@[0] == 'D');
    assert("DEF"@[1] == 'E');
    assert("DEF"@[2] == 'F');
    assert("GRN"@[0] == 'G');
    assert("GRN"@[1] == 'R');
    assert("GRN"@[2] == 'N');
    assert("PPL"@[0] == 'P');
    assert("PPL"@[1] == 'P');
    assert("PPL"@[2] == 'L');
}

/// C2S names the AIR crush colors by three letters: `DEF` normal, `NON` transparent, `RED` red, `ORN` orange and so on
/// through `BLK` black; a name is read as a color exactly when it is that
/// color's name, and each color is written under its name.
pub proof fn lemma_c2s_air_crush_color_names()
    ensures
        forall|v: Seq<char>| #[trigger] crate::c2s::air_crush_color_code(v) == Some(AirCrushColor::Normal) <==> v == "DEF"@,
        forall|v: Seq<char>| #[trigger] crate::c2s::air_crush_color_code(v) == Some(AirCrushColor::Transparent) <==> v == "NON"@,
        forall|v: Seq<char>| #[trigger] crate::c2s::air_crush_color_code(v) == Some(AirCrushColor::Red) <==> v == "RED"@,
        forall|v: Seq<char>| #[trigger] crate::c2s::air_crush_color_code(v) == Some(AirCrushColor::Orange) <==> v == "ORN"@,
        forall|v: Seq<char>| #[trigger] crate::c2s::air_crush_color_code(v) == Some(AirCrushColor::Yellow) <==> v == "YEL"@,
        forall|v: Seq<char>| #[trigger] crate::c2s::air_crush_color_code(v) == Some(AirCrushColor::Lime) <==> v == "LIM"@,
        forall|v: Seq<char>| #[trigger] crate::c2s::air_crush_color_code(v) == Some(AirCrushColor::Green) <==> v == "GRN"@,
        forall|v: Seq<char>| #[trigger] crate::c2s::air_crush_color_code(v) == Some(AirCrushColor::Aqua) <==> v == "AQA"@,
        forall|v: Seq<char>| #[trigger] crate::c2s::air_crush_color_code(v) == Some(AirCrushColor::Cyan) <==> v == "CYN"@,
        forall|v: Seq<char>| #[trigger] crate::c2s::air_crush_color_code(v) == Some(AirCrushColor::DarkBlue) <==> v == "DGR"@,
        forall|v: Seq<char>| #[trigger] crate::c2s::air_crush_color_code(v) == Some(AirCrushColor::Blue) <==> v == "BLU"@,
        forall|v: Seq<char>| #[trigger] crate::c2s::air_crush_color_code(v) == Some(AirCrushColor::Violet) <==> v == "VLT"@,
        forall|v: Seq<char>| #[trigger] crate::c2s::air_crush_color_code(v) == Some(AirCrushColor::Purple) <==> v == "PPL"@,
        forall|v: Seq<char>| #[trigger] crate::c2s::air_crush_color_code(v) == Some(AirCrushColor::Pink) <==> v == "PNK"@,
        forall|v: Seq<char>| #[trigger] crate::c2s::air_crush_color_code(v) == Some(AirCrushColor::Gray) <==> v == "GRY"@,
        forall|v: Seq<char>| #[trigger] crate::c2s::air_crush_color_code(v) == Some(AirCrushColor::Black) <==> v == "BLK"@,
        crate::c2s::air_crush_color_text(AirCrushColor::Normal) == "DEF"@,
        crate::c2s::air_crush_color_text(AirCrushColor::Transparent) == "NON"@,
        crate::c2s::air_crush_color_text(AirCrushColor::Red) == "RED"@,
        crate::c2s::air_crush_color_text(AirCrushColor::Orange) == "ORN"@,
        crate::c2s::air_crush_color_text(AirCrushColor::Yellow) == "YEL"@,
        crate::c2s::air_crush_color_text(AirCrushColor::Lime) == "LIM"@,
        crate::c2s::air_crush_color_text(AirCrushColor::Green) == "GRN"@,
        crate::c2s::air_crush_color_text(AirCrushColor::Aqua) == "AQA"@,
        crate::c2s::air_crush_color_text(AirCrushColor::Cyan) == "CYN"@,
        crate::c2s::air_crush_color_text(AirCrushColor::DarkBlue) == "DGR"@,
        crate::c2s::air_crush_color_text(AirCrushColor::Blue) == "BLU"@,
        crate::c2s::air_crush_color_text(AirCrushColor::Violet) == "VLT"@,
        crate::c2s::air_crush_color_text(AirCrushColor::Purple) == "PPL"@,
        crate::c2s::air_crush_color_text(AirCrushColor::Pink) == "PNK"@,
        crate::c2s::air_crush_color_text(AirCrushColor::Gray) == "GRY"@,
        crate::c2s::air_crush_color_text(AirCrushColor::Black) == "BLK"@,
{
    reveal_strlit("AQA");
    assert("AQA"@.len() == 3);
    reveal_strlit("BLK");
    assert("BLK"@.len() == 3);
    reveal_strlit("BLU");
    assert("BLU"@.len() == 3);
    reveal_strlit("CYN");
    assert("CYN"@.len() == 3);
    reveal_strlit("DEF");
    assert("DEF"@.len() == 3);
    reveal_strlit("DGR");
    assert("DGR"@.len() == 3);
    reveal_strlit("GRN");
    assert("GRN"@.len() == 3);
    reveal_strlit("GRY");
    assert("GRY"@.len() == 3);
    reveal_strlit("LIM");
    assert("LIM"@.len() == 3);
    reveal_strlit("NON");
    assert("NON"@.len() == 3);
    reveal_strlit("ORN");
    assert("ORN"@.len() == 3);
    reveal_strlit("PNK");
    assert("PNK"@.len() == 3);
    reveal_strlit("PPL");
    assert("PPL"@.len() == 3);
    reveal_strlit("RED");
    assert("RED"@.len() == 3);
    reveal_strlit("VLT");
    assert("VLT"@.len() == 3);
    reveal_strlit("YEL");
    assert("YEL"@.len() == 3);
    assert("AQA"@[0] == 'A');
    assert("AQA"@[1] == 'Q');
    assert("AQA"@[2] == 'A');
    assert("BLK"@[0] == 'B');
    assert("BLK"@[1] == 'L');
    assert("BLK"@[2] == 'K');
    assert("BLU"@[0] == 'B');
    assert("BLU"@[1] == 'L');
    assert("BLU"@[2] == 'U');
    assert("CYN"@[0] == 'C');
    assert("CYN"@[1] == 'Y');
    assert("CYN"@[2] == 'N');
    assert("DEF"@[0] == 'D');
    assert("DEF"@[1] == 'E');
    assert("DEF"@[2] == 'F');
    assert("DGR"@[0] == 'D');
    assert("DGR"@[1] == 'G');
    assert("DGR"@[2] == 'R');
    assert("GRN"@[0] == 'G');
    assert("GRN"@[1] == 'R');
    assert("GRN"@[2] == 'N');
    assert("GRY"@[0] == 'G');
    assert("GRY"@[1] == 'R');
    assert("GRY"@[2] == 'Y');
    assert("LIM"@[0] == 'L');
    assert("LIM"@[1] == 'I');
    assert("LIM"@[2] == 'M');
    assert("NON"@[0] == 'N');
    assert("NON"@[1] == 'O');
    assert("NON"@[2] == 'N');
    assert("ORN"@[0] == 'O');
    assert("ORN"@[1] == 'R');
    assert("ORN"@[2] == 'N');
    assert("PNK"@[0] == 'P');
    assert("PNK"@[1] == 'N');
    assert("PNK"@[2] == 'K');
    assert("PPL"@[0] == 'P');
    assert("PPL"@[1] == 'P');
    assert("PPL"@[2] == 'L');
    assert("RED"@[0] == 'R');
    assert("RED"@[1] == 'E');
    assert("RED"@[2] == 'D');
    assert("VLT"@[0] == 'V');
    assert("VLT"@[1] == 'L');
    assert("VLT"@[2] == 'T');
    assert("YEL"@[0] == 'Y');
    assert("YEL"@[1] == 'E');
    assert("YEL"@[2] == 'L');
}

/// UGC names the Ex directions by one letter: `U` up, `D` down, `C` center,
/// `A` all, `W` wide, `L` left, `R` right, `I` inward; a letter is read as a
/// direction exactly when it is that direction's, and the writer uses the
/// same letters, with none for the diagonals.
pub proof fn lemma_ugc_ex_direction_letters()
    ensures
        forall|v: Seq<char>| #[trigger] crate::ugc::ex_direction_code(v) == Some(ExDirection::Up) <==> v == "U"@,
        forall|v: Seq<char>| #[trigger] crate::ugc::ex_direction_code(v) == Some(ExDirection::Down) <==> v == "D"@,
        forall|v: Seq<char>| #[trigger] crate::ugc::ex_direction_code(v) == Some(ExDirection::Center) <==> v == "C"@,
        forall|v: Seq<char>| #[trigger] crate::ugc::ex_direction_code(v) == Some(ExDirection::All) <==> v == "A"@,
        forall|v: Seq<char>| #[trigger] crate::ugc::ex_direction_code(v) == Some(ExDirection::Wide) <==> v == "W"@,
        forall|v: Seq<char>| #[trigger] crate::ugc::ex_direction_code(v) == Some(ExDirection::Left) <==> v == "L"@,
        forall|v: Seq<char>| #[trigger] crate::ugc::ex_direction_code(v) == Some(ExDirection::Right) <==> v == "R"@,
        forall|v: Seq<char>| #[trigger] crate::ugc::ex_direction_code(v) == Some(ExDirection::Inward) <==> v == "I"@,
        crate::ugc::ex_direction_text(ExDirection::Up) == Some("U"@),
        crate::ugc::ex_direction_text(ExDirection::Down) == Some("D"@),
        crate::ugc::ex_direction_text(ExDirection::Center) == Some("C"@),
        crate::ugc::ex_direction_text(ExDirection::All) == Some("A"@),
        crate::ugc::ex_direction_text(ExDirection::Wide) == Some("W"@),
        crate::ugc::ex_direction_text(ExDirection::Left) == Some("L"@),
        crate::ugc::ex_direction_text(ExDirection::Right) == Some("R"@),
        crate::ugc::ex_direction_text(ExDirection::Inward) == Some("I"@),
        crate::ugc::ex_direction_text(ExDirection::UpperLeft) is None,
        crate::ugc::ex_direction_text(ExDirection::UpperRight) is None,
        crate::ugc::ex_direction_text(ExDirection::LowerLeft) is None,
        crate::ugc::ex_direction_text(ExDirection::LowerRight) is None,
{
    reveal_strlit("A");
    assert("A"@.len() == 1);
    reveal_strlit("C");
    assert("C"@.len() == 1);
    reveal_strlit("D");
    assert("D"@.len() == 1);
    reveal_strlit("I");
    assert("I"@.len() == 1);
    reveal_strlit("L");
    assert("L"@.len() == 1);
    reveal_strlit("R");
    assert("R"@.len() == 1);
    reveal_strlit("U");
    assert("U"@.len() == 1);
    reveal_strlit("W");
    assert("W"@.len() == 1);
    assert("A"@[0] == 'A');
    assert("C"@[0] == 'C');
    assert("D"@[0] == 'D');
    assert("I"@[0] == 'I');
    assert("L"@[0] == 'L');
    assert("R"@[0] == 'R');
    assert("U"@[0] == 'U');
    assert("W"@[0] == 'W');
}

/// UGC names the AIR directions `UC` (up), `UL` and `UR` (upper left and
/// right), `DC` (down), `DL` and `DR` (lower left and right); a code is read
/// as a direction exactly when it is that direction's, and each direction is
/// written under its code.
pub proof fn lemma_ugc_air_direction_codes()
    ensures
        forall|v: Seq<char>| #[trigger] crate::ugc::air_direction_code(v) == Some(AirDirection::Up) <==> v == "UC"@,
        forall|v: Seq<char>| #[trigger] crate::ugc::air_direction_code(v) == Some(AirDirection::UpperLeft) <==> v == "UL"@,
        forall|v: Seq<char>| #[trigger] crate::ugc::air_direction_code(v) == Some(AirDirection::UpperRight) <==> v == "UR"@,
        forall|v: Seq<char>| #[trigger] crate::ugc::air_direction_code(v) == Some(AirDirection::Down) <==> v == "DC"@,
        forall|v: Seq<char>| #[trigger] crate::ugc::air_direction_code(v) == Some(AirDirection::LowerLeft) <==> v == "DL"@,
        forall|v: Seq<char>| #[trigger] crate::ugc::air_direction_code(v) == Some(AirDirection::LowerRight) <==> v == "DR"@,
        crate::ugc::air_direction_text(AirDirection::Up) == "UC"@,
        crate::ugc::air_direction_text(AirDirection::UpperLeft) == "UL"@,
        crate::ugc::air_direction_text(AirDirection::UpperRight) == "UR"@,
        crate::ugc::air_direction_text(AirDirection::Down) == "DC"@,
        crate::ugc::air_direction_text(AirDirection::LowerLeft) == "DL"@,
        crate::ugc::air_direction_text(AirDirection::LowerRight) == "DR"@,
{
    reveal_strlit("DC");
    assert("DC"@.len() == 2);
    reveal_strlit("DL");
    assert("DL"@.len() == 2);
    reveal_strlit("DR");
    assert("DR"@.len() == 2);
    reveal_strlit("UC");
    assert("UC"@.len() == 2);
    reveal_strlit("UL");
    assert("UL"@.len() == 2);
    reveal_strlit("UR");
    assert("UR"@.len() == 2);
    assert("DC"@[0] == 'D');
    assert("DC"@[1] == 'C');
    assert("DL"@[0] == 'D');
    assert("DL"@[1] == 'L');
    assert("DR"@[0] == 'D');
    assert("DR"@[1] == 'R');
    assert("UC"@[0] == 'U');
    assert("UC"@[1] == 'C');
    assert("UL"@[0] == 'U');
    assert("UL"@[1] == 'L');
    assert("UR"@[0] == 'U');
    assert("UR"@[1] == 'R');
}

/// UGC names the AIR crush colors by one character: `0` normal, `Z`
/// transparent, `1` red, `2` orange, `3` yellow, `4` lime, `5` green, `6`
/// aqua, `7` cyan, `8` dark blue, `9` blue, `A` violet, `Y` purple, `B` pink,
/// `C` gray, `D` black; a code is read as a color exactly when it is that
/// color's, and each color is written under its code.
pub proof fn lemma_ugc_air_crush_color_codes()
    ensures
        forall|v: Seq<char>| #[trigger] crate::ugc::air_crush_color_code(v) == Some(AirCrushColor::Normal) <==> v == "0"@,
        forall|v: Seq<char>| #[trigger] crate::ugc::air_crush_color_code(v) == Some(AirCrushColor::Transparent) <==> v == "Z"@,
        forall|v: Seq<char>| #[trigger] crate::ugc::air_crush_color_code(v) == Some(AirCrushColor::Red) <==> v == "1"@,
        forall|v: Seq<char>| #[trigger] crate::ugc::air_crush_color_code(v) == Some(AirCrushColor::Orange) <==> v == "2"@,
        forall|v: Seq<char>| #[trigger] crate::ugc::air_crush_color_code(v) == Some(AirCrushColor::Yellow) <==> v == "3"@,
        forall|v: Seq<char>| #[trigger] crate::ugc::air_crush_color_code(v) == Some(AirCrushColor::Lime) <==> v == "4"@,
        forall|v: Seq<char>| #[trigger] crate::ugc::air_crush_color_code(v) == Some(AirCrushColor::Green) <==> v == "5"@,
        forall|v: Seq<char>| #[trigger] crate::ugc::air_crush_color_code(v) == Some(AirCrushColor::Aqua) <==> v == "6"@,
        forall|v: Seq<char>| #[trigger] crate::ugc::air_crush_color_code(v) == Some(AirCrushColor::Cyan) <==> v == "7"@,
        forall|v: Seq<char>| #[trigger] crate::ugc::air_crush_color_code(v) == Some(AirCrushColor::DarkBlue) <==> v == "8"@,
        forall|v: Seq<char>| #[trigger] crate::ugc::air_crush_color_code(v) == Some(AirCrushColor::Blue) <==> v == "9"@,
        forall|v: Seq<char>| #[trigger] crate::ugc::air_crush_color_code(v) == Some(AirCrushColor::Violet) <==> v == "A"@,
        forall|v: Seq<char>| #[trigger] crate::ugc::air_crush_color_code(v) == Some(AirCrushColor::Purple) <==> v == "Y"@,
        forall|v: Seq<char>| #[trigger] crate::ugc::air_crush_color_code(v) == Some(AirCrushColor::Pink) <==> v == "B"@,
        forall|v: Seq<char>| #[trigger] crate::ugc::air_crush_color_code(v) == Some(AirCrushColor::Gray) <==> v == "C"@,
        forall|v: Seq<char>| #[trigger] crate::ugc::air_crush_color_code(v) == Some(AirCrushColor::Black) <==> v == "D"@,
        crate::ugc::air_crush_color_text(AirCrushColor::Normal) == "0"@,
        crate::ugc::air_crush_color_text(AirCrushColor::Transparent) == "Z"@,
        crate::ugc::air_crush_color_text(AirCrushColor::Red) == "1"@,
        crate::ugc::air_crush_color_text(AirCrushColor::Orange) == "2"@,
        crate::ugc::air_crush_color_text(AirCrushColor::Yellow) == "3"@,
        crate::ugc::air_crush_color_text(AirCrushColor::Lime) == "4"@,
        crate::ugc::air_crush_color_text(AirCrushColor::Green) == "5"@,
        crate::ugc::air_crush_color_text(AirCrushColor::Aqua) == "6"@,
        crate::ugc::air_crush_color_text(AirCrushColor::Cyan) == "7"@,
        crate::ugc::air_crush_color_text(AirCrushColor::DarkBlue) == "8"@,
        crate::ugc::air_crush_color_text(AirCrushColor::Blue) == "9"@,
        crate::ugc::air_crush_color_text(AirCrushColor::Violet) == "A"@,
        crate::ugc::air_crush_color_text(AirCrushColor::Purple) == "Y"@,
        crate::ugc::air_crush_color_text(AirCrushColor::Pink) == "B"@,
        crate::ugc::air_crush_color_text(AirCrushColor::Gray) == "C"@,
        crate::ugc::air_crush_color_text(AirCrushColor::Black) == "D"@,
{
    reveal_strlit("0");
    assert("0"@.len() == 1);
    reveal_strlit("1");
    assert("1"@.len() == 1);
    reveal_strlit("2");
    assert("2"@.len() == 1);
    reveal_strlit("3");
    assert("3"@.len() == 1);
    reveal_strlit("4");
    assert("4"@.len() == 1);
    reveal_strlit("5");
    assert("5"@.len() == 1);
    reveal_strlit("6");
    assert("6"@.len() == 1);
    reveal_strlit("7");
    assert("7"@.len() == 1);
    reveal_strlit("8");
    assert("8"@.len() == 1);
    reveal_strlit("9");
    assert("9"@.len() == 1);
    reveal_strlit("A");
    assert("A"@.len() == 1);
    reveal_strlit("B");
    assert("B"@.len() == 1);
    reveal_strlit("C");
    assert("C"@.len() == 1);
    reveal_strlit("D");
    assert("D"@.len() == 1);
    reveal_strlit("Y");
    assert("Y"@.len() == 1);
    reveal_strlit("Z");
    assert("Z"@.len() == 1);
    assert("0"@[0] == '0');
    assert("1"@[0] == '1');
    assert("2"@[0] == '2');
    assert("3"@[0] == '3');
    assert("4"@[0] == '4');
    assert("5"@[0] == '5');
    assert("6"@[0] == '6');
    assert("7"@[0] == '7');
    assert("8"@[0] == '8');
    assert("9"@[0] == '9');
    assert("A"@[0] == 'A');
    assert("B"@[0] == 'B');
    assert("C"@[0] == 'C');
    assert("D"@[0] == 'D');
    assert("Y"@[0] == 'Y');
    assert("Z"@[0] == 'Z');
}

/// UGC flags are `TRUE` or `FALSE`.
pub proof fn lemma_ugc_flag_values()
    ensures
        forall|v: Seq<char>| #[trigger] crate::ugc::bool_code(v) == Some(true) <==> v == "TRUE"@,
        forall|v: Seq<char>| #[trigger] crate::ugc::bool_code(v) == Some(false) <==> v == "FALSE"@,
{
    reveal_strlit("FALSE");
    assert("FALSE"@.len() == 5);
    reveal_strlit("TRUE");
    assert("TRUE"@.len() == 4);
    assert("FALSE"@[0] == 'F');
    assert("FALSE"@[1] == 'A');
    assert("FALSE"@[2] == 'L');
    assert("FALSE"@[3] == 'S');
    assert("FALSE"@[4] == 'E');
    assert("TRUE"@[0] == 'T');
    assert("TRUE"@[1] == 'R');
    assert("TRUE"@[2] == 'U');
    assert("TRUE"@[3] == 'E');
}

/// AIR notes name the note they stand on by three letters: `TAP`, `FLK`
/// (flick), `CHR` (charge tap), `MNE` (mine), `HLD` (hold), `SLD` (slide); a
/// text names a parent kind exactly when it is that kind's letters.
pub proof fn lemma_parent_kind_letters()
    ensures
        forall|v: Seq<char>| #[trigger] crate::air_parent::parent_named(v) == Some(StandardParent::Tap) <==> v == "TAP"@,
        forall|v: Seq<char>| #[trigger] crate::air_parent::parent_named(v) == Some(StandardParent::Flick) <==> v == "FLK"@,
        forall|v: Seq<char>| #[trigger] crate::air_parent::parent_named(v) == Some(StandardParent::ChargeTap) <==> v == "CHR"@,
        forall|v: Seq<char>| #[trigger] crate::air_parent::parent_named(v) == Some(StandardParent::Mine) <==> v == "MNE"@,
        forall|v: Seq<char>| #[trigger] crate::air_parent::parent_named(v) == Some(StandardParent::Hold) <==> v == "HLD"@,
        forall|v: Seq<char>| #[trigger] crate::air_parent::parent_named(v) == Some(StandardParent::Slide) <==> v == "SLD"@,
        crate::air_parent::parent_letters(StandardParent::Tap) == "TAP"@,
        crate::air_parent::parent_letters(StandardParent::Flick) == "FLK"@,
        crate::air_parent::parent_letters(StandardParent::ChargeTap) == "CHR"@,
        crate::air_parent::parent_letters(StandardParent::Mine) == "MNE"@,
        crate::air_parent::parent_letters(StandardParent::Hold) == "HLD"@,
        crate::air_parent::parent_letters(StandardParent::Slide) == "SLD"@,
{
    reveal_strlit("CHR");
    assert("CHR"@.len() == 3);
    reveal_strlit("FLK");
    assert("FLK"@.len() == 3);
    reveal_strlit("HLD");
    assert("HLD"@.len() == 3);
    reveal_strlit("MNE");
    assert("MNE"@.len() == 3);
    reveal_strlit("SLD");
    assert("SLD"@.len() == 3);
    reveal_strlit("TAP");
    assert("TAP"@.len() == 3);
    assert("CHR"@[0] == 'C');
    assert("CHR"@[1] == 'H');
    assert("CHR"@[2] == 'R');
    assert("FLK"@[0] == 'F');
    assert("FLK"@[1] == 'L');
    assert("FLK"@[2] == 'K');
    assert("HLD"@[0] == 'H');
    assert("HLD"@[1] == 'L');
    assert("HLD"@[2] == 'D');
    assert("MNE"@[0] == 'M');
    assert("MNE"@[1] == 'N');
    assert("MNE"@[2] == 'E');
    assert("SLD"@[0] == 'S');
    assert("SLD"@[1] == 'L');
    assert("SLD"@[2] == 'D');
    assert("TAP"@[0] == 'T');
    assert("TAP"@[1] == 'A');
    assert("TAP"@[2] == 'P');
    assert(crate::air_parent::parent_letters(StandardParent::Tap) =~= "TAP"@);
    assert(crate::air_parent::parent_letters(StandardParent::Flick) =~= "FLK"@);
    assert(crate::air_parent::parent_letters(StandardParent::ChargeTap) =~= "CHR"@);
    assert(crate::air_parent::parent_letters(StandardParent::Mine) =~= "MNE"@);
    assert(crate::air_parent::parent_letters(StandardParent::Hold) =~= "HLD"@);
    assert(crate::air_parent::parent_letters(StandardParent::Slide) =~= "SLD"@);
}

/// The C2S record names: `RESOLUTION`, `BPM`, `MET`, `TAP`, `FLK`, `MNE`,
/// `CHR` (ExTap), `AIR`, `HLD`, `HXD` (Ex hold), `SLD`/`SLC` (slide),
/// `SXD`/`SXC` (Ex slide), `AHD`/`AHX` (AIR hold), `ASC`/`ASD` (AIR slide),
/// `SLA` (speed group), `SFL`/`SLP` (scroll speed), `ALD` (AIR crush).
pub proof fn lemma_c2s_record_names()
    ensures
        forall|v: Seq<char>| #[trigger] crate::c2s_records::record_kind_spec(v) == Some(C2sRecord::Resolution) <==> v == "RESOLUTION"@,
        forall|v: Seq<char>| #[trigger] crate::c2s_records::record_kind_spec(v) == Some(C2sRecord::Tempo) <==> v == "BPM"@,
        forall|v: Seq<char>| #[trigger] crate::c2s_records::record_kind_spec(v) == Some(C2sRecord::Meter) <==> v == "MET"@,
        forall|v: Seq<char>| #[trigger] crate::c2s_records::record_kind_spec(v) == Some(C2sRecord::Tap) <==> v == "TAP"@,
        forall|v: Seq<char>| #[trigger] crate::c2s_records::record_kind_spec(v) == Some(C2sRecord::Flick) <==> v == "FLK"@,
        forall|v: Seq<char>| #[trigger] crate::c2s_records::record_kind_spec(v) == Some(C2sRecord::Mine) <==> v == "MNE"@,
        forall|v: Seq<char>| #[trigger] crate::c2s_records::record_kind_spec(v) == Some(C2sRecord::ExTap) <==> v == "CHR"@,
        forall|v: Seq<char>| #[trigger] crate::c2s_records::record_kind_spec(v) == Some(C2sRecord::Air) <==> v == "AIR"@,
        forall|v: Seq<char>| #[trigger] crate::c2s_records::record_kind_spec(v) == Some(C2sRecord::Hold) <==> v == "HLD"@,
        forall|v: Seq<char>| #[trigger] crate::c2s_records::record_kind_spec(v) == Some(C2sRecord::ExHold) <==> v == "HXD"@,
        forall|v: Seq<char>| #[trigger] crate::c2s_records::record_kind_spec(v) == Some(C2sRecord::Slide) <==> (v == "SLD"@ || v == "SLC"@),
        forall|v: Seq<char>| #[trigger] crate::c2s_records::record_kind_spec(v) == Some(C2sRecord::ExSlide) <==> (v == "SXD"@ || v == "SXC"@),
        forall|v: Seq<char>| #[trigger] crate::c2s_records::record_kind_spec(v) == Some(C2sRecord::AirHold) <==> (v == "AHD"@ || v == "AHX"@),
        forall|v: Seq<char>| #[trigger] crate::c2s_records::record_kind_spec(v) == Some(C2sRecord::AirSlide) <==> (v == "ASC"@ || v == "ASD"@),
        forall|v: Seq<char>| #[trigger] crate::c2s_records::record_kind_spec(v) == Some(C2sRecord::SpeedAssignment) <==> v == "SLA"@,
        forall|v: Seq<char>| #[trigger] crate::c2s_records::record_kind_spec(v) == Some(C2sRecord::ScrollSpeed) <==> (v == "SFL"@ || v == "SLP"@),
        forall|v: Seq<char>| #[trigger] crate::c2s_records::record_kind_spec(v) == Some(C2sRecord::AirCrush) <==> v == "ALD"@,
{
    reveal_strlit("AHD");
    assert("AHD"@.len() == 3);
    reveal_strlit("AHX");
    assert("AHX"@.len() == 3);
    reveal_strlit("AIR");
    assert("AIR"@.len() == 3);
    reveal_strlit("ALD");
    assert("ALD"@.len() == 3);
    reveal_strlit("ASC");
    assert("ASC"@.len() == 3);
    reveal_strlit("ASD");
    assert("ASD"@.len() == 3);
    reveal_strlit("BPM");
    assert("BPM"@.len() == 3);
    reveal_strlit("CHR");
    assert("CHR"@.len() == 3);
    reveal_strlit("FLK");
    assert("FLK"@.len() == 3);
    reveal_strlit("HLD");
    assert("HLD"@.len() == 3);
    reveal_strlit("HXD");
    assert("HXD"@.len() == 3);
    reveal_strlit("MET");
    assert("MET"@.len() == 3);
    reveal_strlit("MNE");
    assert("MNE"@.len() == 3);
    reveal_strlit("RESOLUTION");
    assert("RESOLUTION"@.len() == 10);
    reveal_strlit("SFL");
    assert("SFL"@.len() == 3);
    reveal_strlit("SLA");
    assert("SLA"@.len() == 3);
    reveal_strlit("SLC");
    assert("SLC"@.len() == 3);
    reveal_strlit("SLD");
    assert("SLD"@.len() == 3);
    reveal_strlit("SLP");
    assert("SLP"@.len() == 3);
    reveal_strlit("SXC");
    assert("SXC"@.len() == 3);
    reveal_strlit("SXD");
    assert("SXD"@.len() == 3);
    reveal_strlit("TAP");
    assert("TAP"@.len() == 3);
    assert("AHD"@[0] == 'A');
    assert("AHD"@[1] == 'H');
    assert("AHD"@[2] == 'D');
    assert("AHX"@[0] == 'A');
    assert("AHX"@[1] == 'H');
    assert("AHX"@[2] == 'X');
    assert("AIR"@[0] == 'A');
    assert("AIR"@[1] == 'I');
    assert("AIR"@[2] == 'R');
    assert("ALD"@[0] == 'A');
    assert("ALD"@[1] == 'L');
    assert("ALD"@[2] == 'D');
    assert("ASC"@[0] == 'A');
    assert("ASC"@[1] == 'S');
    assert("ASC"@[2] == 'C');
    assert("ASD"@[0] == 'A');
    assert("ASD"@[1] == 'S');
    assert("ASD"@[2] == 'D');
    assert("BPM"@[0] == 'B');
    assert("BPM"@[1] == 'P');
    assert("BPM"@[2] == 'M');
    assert("CHR"@[0] == 'C');
    assert("CHR"@[1] == 'H');
    assert("CHR"@[2] == 'R');
    assert("FLK"@[0] == 'F');
    assert("FLK"@[1] == 'L');
    assert("FLK"@[2] == 'K');
    assert("HLD"@[0] == 'H');
    assert("HLD"@[1] == 'L');
    assert("HLD"@[2] == 'D');
    assert("HXD"@[0] == 'H');
    assert("HXD"@[1] == 'X');
    assert("HXD"@[2] == 'D');
    assert("MET"@[0] == 'M');
    assert("MET"@[1] == 'E');
    assert("MET"@[2] == 'T');
    assert("MNE"@[0] == 'M');
    assert("MNE"@[1] == 'N');
    assert("MNE"@[2] == 'E');
    assert("RESOLUTION"@[0] == 'R');
    assert("RESOLUTION"@[1] == 'E');
    assert("RESOLUTION"@[2] == 'S');
    assert("RESOLUTION"@[3] == 'O');
    assert("RESOLUTION"@[4] == 'L');
    assert("RESOLUTION"@[5] == 'U');
    assert("RESOLUTION"@[6] == 'T');
    assert("RESOLUTION"@[7] == 'I');
    assert("RESOLUTION"@[8] == 'O');
    assert("RESOLUTION"@[9] == 'N');
    assert("SFL"@[0] == 'S');
    assert("SFL"@[1] == 'F');
    assert("SFL"@[2] == 'L');
    assert("SLA"@[0] == 'S');
    assert("SLA"@[1] == 'L');
    assert("SLA"@[2] == 'A');
    assert("SLC"@[0] == 'S');
    assert("SLC"@[1] == 'L');
    assert("SLC"@[2] == 'C');
    assert("SLD"@[0] == 'S');
    assert("SLD"@[1] == 'L');
    assert("SLD"@[2] == 'D');
    assert("SLP"@[0] == 'S');
    assert("SLP"@[1] == 'L');
    assert("SLP"@[2] == 'P');
    assert("SXC"@[0] == 'S');
    assert("SXC"@[1] == 'X');
    assert("SXC"@[2] == 'C');
    assert("SXD"@[0] == 'S');
    assert("SXD"@[1] == 'X');
    assert("SXD"@[2] == 'D');
    assert("TAP"@[0] == 'T');
    assert("TAP"@[1] == 'A');
    assert("TAP"@[2] == 'P');
}

/// The UGC header record names: `@TICKS`, `@MAINBPM`, `@FLAG`, `@SPDDEF` or
/// `@SPDFLD`, `@BEAT`, `@BPM`, `@TIL`, `@SPDMOD`, `@MAINTIL`, `@USETIL`.
pub proof fn lemma_ugc_header_record_names()
    ensures
        forall|v: Seq<char>| #[trigger] crate::ugc::header_kind_spec(v) == Some(UgcRecord::Ticks) <==> v == "@TICKS"@,
        forall|v: Seq<char>| #[trigger] crate::ugc::header_kind_spec(v) == Some(UgcRecord::MainBpm) <==> v == "@MAINBPM"@,
        forall|v: Seq<char>| #[trigger] crate::ugc::header_kind_spec(v) == Some(UgcRecord::Flag) <==> v == "@FLAG"@,
        forall|v: Seq<char>| #[trigger] crate::ugc::header_kind_spec(v) == Some(UgcRecord::SpeedDefinition) <==> (v == "@SPDDEF"@ || v == "@SPDFLD"@),
        forall|v: Seq<char>| #[trigger] crate::ugc::header_kind_spec(v) == Some(UgcRecord::Beat) <==> v == "@BEAT"@,
        forall|v: Seq<char>| #[trigger] crate::ugc::header_kind_spec(v) == Some(UgcRecord::Tempo) <==> v == "@BPM"@,
        forall|v: Seq<char>| #[trigger] crate::ugc::header_kind_spec(v) == Some(UgcRecord::GroupSpeed) <==> v == "@TIL"@,
        forall|v: Seq<char>| #[trigger] crate::ugc::header_kind_spec(v) == Some(UgcRecord::GlobalSpeed) <==> v == "@SPDMOD"@,
        forall|v: Seq<char>| #[trigger] crate::ugc::header_kind_spec(v) == Some(UgcRecord::MainSpeedGroup) <==> v == "@MAINTIL"@,
        forall|v: Seq<char>| #[trigger] crate::ugc::header_kind_spec(v) == Some(UgcRecord::UseSpeedGroup) <==> v == "@USETIL"@,
{
    reveal_strlit("@BEAT");
    assert("@BEAT"@.len() == 5);
    reveal_strlit("@BPM");
    assert("@BPM"@.len() == 4);
    reveal_strlit("@FLAG");
    assert("@FLAG"@.len() == 5);
    reveal_strlit("@MAINBPM");
    assert("@MAINBPM"@.len() == 8);
    reveal_strlit("@MAINTIL");
    assert("@MAINTIL"@.len() == 8);
    reveal_strlit("@SPDDEF");
    assert("@SPDDEF"@.len() == 7);
    reveal_strlit("@SPDFLD");
    assert("@SPDFLD"@.len() == 7);
    reveal_strlit("@SPDMOD");
    assert("@SPDMOD"@.len() == 7);
    reveal_strlit("@TICKS");
    assert("@TICKS"@.len() == 6);
    reveal_strlit("@TIL");
    assert("@TIL"@.len() == 4);
    reveal_strlit("@USETIL");
    assert("@USETIL"@.len() == 7);
    assert("@BEAT"@[0] == '@');
    assert("@BEAT"@[1] == 'B');
    assert("@BEAT"@[2] == 'E');
    assert("@BEAT"@[3] == 'A');
    assert("@BEAT"@[4] == 'T');
    assert("@BPM"@[0] == '@');
    assert("@BPM"@[1] == 'B');
    assert("@BPM"@[2] == 'P');
    assert("@BPM"@[3] == 'M');
    assert("@FLAG"@[0] == '@');
    assert("@FLAG"@[1] == 'F');
    assert("@FLAG"@[2] == 'L');
    assert("@FLAG"@[3] == 'A');
    assert("@FLAG"@[4] == 'G');
    assert("@MAINBPM"@[0] == '@');
    assert("@MAINBPM"@[1] == 'M');
    assert("@MAINBPM"@[2] == 'A');
    assert("@MAINBPM"@[3] == 'I');
    assert("@MAINBPM"@[4] == 'N');
    assert("@MAINBPM"@[5] == 'B');
    assert("@MAINBPM"@[6] == 'P');
    assert("@MAINBPM"@[7] == 'M');
    assert("@MAINTIL"@[0] == '@');
    assert("@MAINTIL"@[1] == 'M');
    assert("@MAINTIL"@[2] == 'A');
    assert("@MAINTIL"@[3] == 'I');
    assert("@MAINTIL"@[4] == 'N');
    assert("@MAINTIL"@[5] == 'T');
    assert("@MAINTIL"@[6] == 'I');
    assert("@MAINTIL"@[7] == 'L');
    assert("@SPDDEF"@[0] == '@');
    assert("@SPDDEF"@[1] == 'S');
    assert("@SPDDEF"@[2] == 'P');
    assert("@SPDDEF"@[3] == 'D');
    assert("@SPDDEF"@[4] == 'D');
    assert("@SPDDEF"@[5] == 'E');
    assert("@SPDDEF"@[6] == 'F');
    assert("@SPDFLD"@[0] == '@');
    assert("@SPDFLD"@[1] == 'S');
    assert("@SPDFLD"@[2] == 'P');
    assert("@SPDFLD"@[3] == 'D');
    assert("@SPDFLD"@[4] == 'F');
    assert("@SPDFLD"@[5] == 'L');
    assert("@SPDFLD"@[6] == 'D');
    assert("@SPDMOD"@[0] == '@');
    assert("@SPDMOD"@[1] == 'S');
    assert("@SPDMOD"@[2] == 'P');
    assert("@SPDMOD"@[3] == 'D');
    assert("@SPDMOD"@[4] == 'M');
    assert("@SPDMOD"@[5] == 'O');
    assert("@SPDMOD"@[6] == 'D');
    assert("@TICKS"@[0] == '@');
    assert("@TICKS"@[1] == 'T');
    assert("@TICKS"@[2] == 'I');
    assert("@TICKS"@[3] == 'C');
    assert("@TICKS"@[4] == 'K');
    assert("@TICKS"@[5] == 'S');
    assert("@TIL"@[0] == '@');
    assert("@TIL"@[1] == 'T');
    assert("@TIL"@[2] == 'I');
    assert("@TIL"@[3] == 'L');
    assert("@USETIL"@[0] == '@');
    assert("@USETIL"@[1] == 'U');
    assert("@USETIL"@[2] == 'S');
    assert("@USETIL"@[3] == 'E');
    assert("@USETIL"@[4] == 'T');
    assert("@USETIL"@[5] == 'I');
    assert("@USETIL"@[6] == 'L');
}


/// The channel of a SUS data line is named by the fourth character of its
/// header: `1` short notes, `2` holds (side long notes in XLAIR), `3` and `4`
/// slides, `5` directional notes; a line read as notes has one of these,
/// for every header that starts with three digits.
pub proof fn lemma_sus_channel_kinds(
    measure_base: u32,
    timeline: MeasureTimeline,
    mode: ChartMode,
    header: Seq<char>,
    data: Seq<char>,
)
    requires
        crate::sus_data_lines::data_header(header),
    ensures
        data_line_read(measure_base, timeline, mode, header, data) matches Ok(DataLineParts::Channel(kind, _, _, _))
            ==> header.len() > 3 && {
            ||| header[3] == '1' && kind == ChannelKind::Short
            ||| header[3] == '2' && kind == (if mode is Xlair {
                ChannelKind::SideLong
            } else {
                ChannelKind::CentralHold
            })
            ||| (header[3] == '3' || header[3] == '4') && kind == ChannelKind::Slider
            ||| header[3] == '5' && kind == ChannelKind::Directional
        },
{
    let kind = header.skip(3);
    assert(kind.len() == header.len() - 3);
    if header.len() > 3 {
        assert(kind[0] == header[3]);
    }
}

/// The letters UGC writes: `A`, `L` and `R` after a flick for its direction
/// (nothing for none), `s` and `c` for visible and control slide points, `N`
/// and `I` for the normal and inverted AIR colors; in XLAIR mode the side
/// actions are the four diagonal AIR directions.
pub proof fn lemma_ugc_written_letters()
    ensures
        crate::ugc::flick_direction_text(None) == Some(Seq::<char>::empty()),
        crate::ugc::flick_direction_text(Some(ExDirection::All)) == Some("A"@),
        crate::ugc::flick_direction_text(Some(ExDirection::Left)) == Some("L"@),
        crate::ugc::flick_direction_text(Some(ExDirection::Right)) == Some("R"@),
        forall|d: ExDirection| d != ExDirection::All && d != ExDirection::Left && d != ExDirection::Right
            ==> #[trigger] crate::ugc::flick_direction_text(Some(d)) is None,
        crate::ugc::slide_point_letter(SlidePointKind::Visible) == Some('s'),
        crate::ugc::slide_point_letter(SlidePointKind::Control) == Some('c'),
        crate::ugc::slide_point_letter(SlidePointKind::Invisible) == None::<char>,
        crate::ugc::air_color_letter(AirColor::Normal) == 'N',
        crate::ugc::air_color_letter(AirColor::Inverted) == 'I',
        forall|d: AirDirection| #[trigger] crate::ugc::is_xlair_side_air_direction_spec(d) <==> d != AirDirection::Up
            && d != AirDirection::Down,
{
}

/// The C2S records an AIR note can stand on: `TAP`, `CHR` (ExTap), `FLK`,
/// `MNE` (mine), `HLD` (hold), `SLD` (slide).
pub proof fn lemma_c2s_parent_names()
    ensures
        forall|v: Seq<char>| #[trigger] crate::c2s_records::parent_tag(v) == Some(ParentRecord::Tap) <==> v == "TAP"@,
        forall|v: Seq<char>| #[trigger] crate::c2s_records::parent_tag(v) == Some(ParentRecord::ExTap) <==> v == "CHR"@,
        forall|v: Seq<char>| #[trigger] crate::c2s_records::parent_tag(v) == Some(ParentRecord::Flick) <==> v == "FLK"@,
        forall|v: Seq<char>| #[trigger] crate::c2s_records::parent_tag(v) == Some(ParentRecord::Mine) <==> v == "MNE"@,
        forall|v: Seq<char>| #[trigger] crate::c2s_records::parent_tag(v) == Some(ParentRecord::Hold) <==> v == "HLD"@,
        forall|v: Seq<char>| #[trigger] crate::c2s_records::parent_tag(v) == Some(ParentRecord::Slide) <==> v == "SLD"@,
{
    reveal_strlit("TAP");
    assert("TAP"@.len() == 3);
    assert("TAP"@[0] == 'T');
    assert("TAP"@[1] == 'A');
    assert("TAP"@[2] == 'P');
    reveal_strlit("CHR");
    assert("CHR"@.len() == 3);
    assert("CHR"@[0] == 'C');
    assert("CHR"@[1] == 'H');
    assert("CHR"@[2] == 'R');
    reveal_strlit("FLK");
    assert("FLK"@.len() == 3);
    assert("FLK"@[0] == 'F');
    assert("FLK"@[1] == 'L');
    assert("FLK"@[2] == 'K');
    reveal_strlit("MNE");
    assert("MNE"@.len() == 3);
    assert("MNE"@[0] == 'M');
    assert("MNE"@[1] == 'N');
    assert("MNE"@[2] == 'E');
    reveal_strlit("HLD");
    assert("HLD"@.len() == 3);
    assert("HLD"@[0] == 'H');
    assert("HLD"@[1] == 'L');
    assert("HLD"@[2] == 'D');
    reveal_strlit("SLD");
    assert("SLD"@.len() == 3);
    assert("SLD"@[0] == 'S');
    assert("SLD"@[1] == 'L');
    assert("SLD"@[2] == 'D');
}

} // verus!
