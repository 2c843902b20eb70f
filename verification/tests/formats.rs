use chart_converter::c2s::C2sError;
use chart_converter::converter::{decode_chart, ConverterError, FormatError, SvgError};
use chart_converter::format::{decode_source, Format, SourceEncodingError};
use chart_converter::sus::SusError;
use chart_converter::ugc::UgcError;

#[test]
fn exposes_format_extensions() {
    assert_eq!(Format::C2s.extension(), "c2s");
    assert_eq!(Format::Sus.extension(), "sus");
    assert_eq!(Format::Ugc.extension(), "ugc");
    assert_eq!(Format::from_extension(".C2S"), Some(Format::C2s));
    assert_eq!(Format::from_extension("sus"), Some(Format::Sus));
    assert_eq!(Format::from_extension("chart"), None);
}

#[test]
fn extensions_ignore_case_and_one_dot() {
    assert_eq!(Format::from_extension("UgC"), Some(Format::Ugc));
    assert_eq!(Format::from_extension("..sus"), None);
    assert_eq!(Format::from_extension(""), None);
    for format in [Format::C2s, Format::Sus, Format::Ugc] {
        assert_eq!(Format::from_extension(format.extension()), Some(format));
    }
}

#[test]
fn formats_have_display_names() {
    assert_eq!(Format::C2s.name(), "C2S");
    assert_eq!(Format::Sus.name(), "SUS");
    assert_eq!(Format::Ugc.name(), "UGC");
}

#[test]
fn decodes_plain_and_bom_marked_utf8() {
    assert_eq!(decode_source(b"TAP\t0").unwrap(), "TAP\t0");
    assert_eq!(decode_source(&[0xef, 0xbb, 0xbf, b'h', b'i']).unwrap(), "hi");
    assert_eq!(decode_source("é".as_bytes()).unwrap(), "é");
}

#[test]
fn decodes_bom_marked_utf16_in_either_byte_order() {
    let source = "RESOLUTION\t384\n";
    let mut little = vec![0xff, 0xfe];
    little.extend(source.encode_utf16().flat_map(u16::to_le_bytes));
    assert_eq!(decode_source(&little).unwrap(), source);
    let mut big = vec![0xfe, 0xff];
    big.extend("𝄞x".encode_utf16().flat_map(u16::to_be_bytes));
    assert_eq!(decode_source(&big).unwrap(), "𝄞x");
}

#[test]
fn rejects_invalid_utf16() {
    assert!(matches!(decode_source(&[0xff, 0xfe, 0x41]), Err(SourceEncodingError::Utf16)));
    assert!(matches!(decode_source(&[0xff, 0xfe, 0x00, 0xd8, 0x41, 0x00]), Err(SourceEncodingError::Utf16)));
}

#[test]
fn rejects_invalid_utf8() {
    assert!(matches!(decode_source(&[0x41, 0xff]), Err(SourceEncodingError::Utf8(_))));
    assert!(matches!(decode_source(&[0xef, 0xbb, 0xbf, 0xc3]), Err(SourceEncodingError::Utf8(_))));
}

#[test]
fn decoding_failures_name_the_format() {
    match decode_chart(Format::Sus, &[0xfe, 0xff, 0x00]) {
        Err(ConverterError::Encoding { format, source }) => {
            assert_eq!(format, Format::Sus);
            assert!(matches!(source, SourceEncodingError::Utf16));
        }
        other => panic!("unexpected {other:?}"),
    }
    assert_eq!(decode_chart(Format::C2s, b"TAP").unwrap(), "TAP");
}

#[test]
fn converter_errors_describe_the_failed_step() {
    let encoding = ConverterError::Encoding { format: Format::C2s, source: SourceEncodingError::Utf16 };
    assert_eq!(encoding.message(), "failed to decode C2S chart: source contains invalid UTF-16");
    let parse = ConverterError::Parse {
        format: Format::Sus,
        source: FormatError::Sus(SusError::MalformedCommand { line: 3 }),
    };
    assert_eq!(parse.message(), "failed to parse SUS chart: line 3: malformed command");
    let write = ConverterError::Write { format: Format::Ugc, source: FormatError::Ugc(UgcError::UnrepresentablePosition) };
    assert_eq!(write.message(), "failed to write UGC chart: position cannot be represented at the UGC resolution");
    let utf8 = decode_source(&[0xff]).unwrap_err();
    assert_eq!(utf8.message(), "source is not valid UTF-8");
}

#[test]
fn format_errors_pass_the_underlying_message_through() {
    let error = FormatError::C2s(C2sError::MissingResolution);
    assert_eq!(error.message(), "the RESOLUTION header is missing");
}

#[test]
fn svg_errors_describe_the_parse_failure() {
    let error = SvgError::Sus(SusError::MissingEnd { channel: 'a' });
    assert_eq!(error.message(), "failed to parse SUS chart: channel `a` has no end point");
}
