//! A binary codec for DNS messages in the wire format of RFC 1035: the
//! twelve-byte header, question entries and resource records, all built on
//! one representation of a domain name as a sequence of labels.
//!
//! Every encoder states the exact bytes it produces and every decoder states,
//! for each input, whether it succeeds, what it returns and how much input it
//! leaves, or which error it reports and where.

pub mod buffer;
pub mod error;
pub mod header;
pub mod label;
pub mod question;
pub mod reader;
pub mod record;
pub mod record_type;
pub mod reply;
pub mod text;
pub mod wire;

pub use error::{DecodeError, Field, LabelError, RecordTypeError};
pub use header::Header;
pub use label::LabelSequence;
pub use question::Question;
pub use record::Record;
pub use record_type::RecordType;
pub use reply::{message, response, sample_response, ResponseError};
