//! The errors of format-independent conversion, and the decoding step that
//! comes before parsing a chart file.

use vstd::prelude::*;
use vstd::string::StringExecFns;

use crate::c2s::C2sError;
use crate::format::{decode_source, is_utf16_source, source_text, Format, SourceEncodingError};
use crate::sus::SusError;
use crate::ugc::UgcError;

verus! {

/// An error of one format's parser or writer.
#[derive(Debug)]
pub enum FormatError {
    C2s(C2sError),
    Sus(SusError),
    Ugc(UgcError),
}

impl FormatError {
    /// The sentence of the underlying error, unchanged.
    pub open spec fn text(&self) -> Seq<char> {
        match self {
            FormatError::C2s(error) => error.text(),
            FormatError::Sus(error) => error.text(),
            FormatError::Ugc(error) => error.text(),
        }
    }

    /// The sentence of the underlying error, unchanged.
    pub fn message(&self) -> (text: String)
        ensures
            text@ == self.text(),
    {
        match self {
            FormatError::C2s(error) => error.message(),
            FormatError::Sus(error) => error.message(),
            FormatError::Ugc(error) => error.message(),
        }
    }
}

impl SourceEncodingError {
    /// The sentence that describes the error.
    pub open spec fn text(&self) -> Seq<char> {
        match self {
            SourceEncodingError::Utf8(_) => "source is not valid UTF-8"@,
            SourceEncodingError::Utf16 => "source contains invalid UTF-16"@,
        }
    }

    /// The sentence that describes the error.
    pub fn message(&self) -> (text: String)
        ensures
            text@ == self.text(),
    {
        match self {
            SourceEncodingError::Utf8(_) => String::from_str("source is not valid UTF-8"),
            SourceEncodingError::Utf16 => String::from_str("source contains invalid UTF-16"),
        }
    }
}

/// The display name of a format.
pub open spec fn format_name(format: Format) -> Seq<char> {
    match format {
        Format::C2s => "C2S"@,
        Format::Sus => "SUS"@,
        Format::Ugc => "UGC"@,
    }
}

/// Errors returned by a format-independent conversion operation.
#[allow(inconsistent_fields)]
#[derive(Debug)]
pub enum ConverterError {
    Encoding { format: Format, source: SourceEncodingError },
    Parse { format: Format, source: FormatError },
    Write { format: Format, source: FormatError },
}

impl ConverterError {
    /// The sentence that describes the error: the step that failed, the
    /// format, and the underlying error.
    pub open spec fn text(&self) -> Seq<char> {
        match self {
            ConverterError::Encoding { format, source } => "failed to decode "@ + format_name(*format) + " chart: "@
                + source.text(),
            ConverterError::Parse { format, source } => "failed to parse "@ + format_name(*format) + " chart: "@
                + source.text(),
            ConverterError::Write { format, source } => "failed to write "@ + format_name(*format) + " chart: "@
                + source.text(),
        }
    }

    /// The sentence that describes the error.
    pub fn message(&self) -> (text: String)
        ensures
            text@ == self.text(),
    {
        let (step, format, detail) = match self {
            ConverterError::Encoding { format, source } => ("failed to decode ", *format, source.message()),
            ConverterError::Parse { format, source } => ("failed to parse ", *format, source.message()),
            ConverterError::Write { format, source } => ("failed to write ", *format, source.message()),
        };
        let mut text = String::from_str(step);
        text.append(format.name());
        text.append(" chart: ");
        text.append(detail.as_str());
        proof {
            match self {
                ConverterError::Encoding { .. } => {
                    assert(text@ =~= self.text());
                },
                ConverterError::Parse { .. } => {
                    assert(text@ =~= self.text());
                },
                ConverterError::Write { .. } => {
                    assert(text@ =~= self.text());
                },
            }
        }
        text
    }
}

/// The error of rendering a SUS chart as SVG.
#[derive(Debug)]
pub enum SvgError {
    Sus(SusError),
}

impl SvgError {
    /// The sentence that describes the error.
    pub open spec fn text(&self) -> Seq<char> {
        match self {
            SvgError::Sus(error) => "failed to parse SUS chart: "@ + error.text(),
        }
    }

    /// The sentence that describes the error.
    pub fn message(&self) -> (text: String)
        ensures
            text@ == self.text(),
    {
        match self {
            SvgError::Sus(error) => {
                let mut text = String::from_str("failed to parse SUS chart: ");
                text.append(error.message().as_str());
                text
            },
        }
    }
}

/// Decodes the bytes of a chart file in `format` for its parser; a failure is
/// reported as the encoding error of that format.
pub fn decode_chart(format: Format, source: &[u8]) -> (result: Result<String, ConverterError>)
    ensures
        match source_text(source@) {
            Some(chars) => result matches Ok(s) && s@ == chars,
            None => match result {
                Err(ConverterError::Encoding { format: f, source: e }) => f == format && (e is Utf16
                    <==> is_utf16_source(source@)),
                _ => false,
            },
        },
{
    match decode_source(source) {
        Ok(text) => Ok(text),
        Err(source) => Err(ConverterError::Encoding { format, source }),
    }
}

} // verus!
