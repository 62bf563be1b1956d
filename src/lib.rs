//! Bookkeeping core of an asynchronous sinc resampler for non-interleaved,
//! multi-channel audio: buffer validation, channel masks, the per-channel ring
//! buffers, chunk sizes and the oversampled tap grid.

pub mod buffers;
pub mod error;
pub mod stream;
pub mod taps;

pub use crate::buffers::{
    buffer_capacity, buffer_length, make_buffer, output_buffer_for_mask, pad_input, resize_buffer,
    truncate_channels, update_mask_from_buffers, validate_buffers, validate_chunk_buffers,
};
pub use crate::error::ResampleError;
pub use crate::stream::{Fixed, StreamState};
pub use crate::taps::{grid_tap, nearest_taps, round_sinc_len, tap_count, SincInterpolationType};
