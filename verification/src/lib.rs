//! Shared chart model and text-format building blocks for the C2S, SUS and
//! UGC rhythm-game chart formats.

pub mod air_parent;
pub mod arith;
pub mod beat;
pub mod c2s;
pub mod c2s_notes;
pub mod c2s_records;
pub mod chart;
pub mod codes;
pub mod converter;
pub mod error;
pub mod format;
pub mod note;
pub mod note_order;
pub mod position;
pub mod record_order;
pub mod slides;
pub mod std_text;
pub mod sus;
pub mod sus_data_lines;
pub mod sus_lines;
pub mod sus_read_back;
pub mod sus_standard;
pub mod sus_standard_body;
pub mod sus_standard_read;
pub mod sus_xlair;
pub mod sus_xlair_body;
pub mod text;
pub mod timeline;
pub mod ugc;
pub mod ugc_document;
pub mod ugc_long;
pub mod ugc_notes;
