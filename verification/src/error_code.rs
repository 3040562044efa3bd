//! Process exit codes reported for fatal startup problems.

use vstd::prelude::*;

verus! {

/// Cannot parse arguments.
pub const ARGUMENT_ERROR: i32 = 1;

/// An output channel failed while reporting to the operator.
pub const UNKNOWN_ERROR: i32 = 2;

/// Cannot deserialize config.
pub const UNPARSEABLE_CONFIG: i32 = 10;

/// A configuration has conflicting settings.
pub const BAD_CONFIG: i32 = 11;

/// The configured content type is not a valid header value.
pub const BAD_CONTENT_TYPE: i32 = 12;

/// The desired log file path could not be opened.
pub const CANNOT_OPEN_LOG_FILE: i32 = 20;

/// The configured generator data file path could not be read.
pub const CANNOT_READ_GENERATOR_DATA_FILE: i32 = 30;

/// `chunk_size` does not leave room for the tag wrapping.
pub const GENERATOR_CHUNK_SIZE_TOO_SMALL: i32 = 31;

/// `chunk_buffer` must hold at least one chunk.
pub const GENERATOR_CHUNK_BUFFER_TOO_SMALL: i32 = 32;

} // verus!
