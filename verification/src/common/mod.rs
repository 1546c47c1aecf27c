mod errors;
mod file_meta;
pub mod headers;
mod job;
mod range;
pub mod text;

pub use errors::{DataBaseError, JobError};
pub use file_meta::FileMeta;
pub use file_meta::{lemma_content_type_round_trip, spec_content_type, spec_file_name};
pub use job::ArchiveJob;
pub use range::Range;
pub use range::{
    bounds_have_length, bounds_text, lemma_parse_data_round_trip, lemma_range_header_round_trip,
    spec_parse_data, spec_parse_range, spec_parse_range_value, spec_read_length,
};
