//! Decoding of bit-packed orientation samples and the decisions of a
//! three-stage pipeline that turns them into fixed-point angle triplets.

pub mod conversion;
pub mod input;
pub mod pipeline;
pub mod queue;
pub mod source;

pub use conversion::{bits_to_u32, bits_to_u32_triplet, ConversionError};
pub use input::{parse_field, parse_sample_line, parse_samples, queue_from_text};
pub use pipeline::{
    acquire_next, acquire_stage, convert_message, report_message, Disconnected, Envelope,
    FRACTIONAL_BITS,
};
pub use queue::SensorOutputQueue;
pub use source::source_from_samples;
