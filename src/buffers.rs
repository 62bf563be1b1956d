use vstd::prelude::*;

use crate::error::ResampleError;

verus! {

/// The smallest of `lens`, or 0 when it is empty.
pub open spec fn min_len(lens: Seq<int>) -> int
    decreases lens.len(),
{
    if lens.len() == 0 {
        0
    } else if lens.len() == 1 {
        lens[0]
    } else {
        let rest = min_len(lens.drop_last());
        if lens.last() < rest { lens.last() } else { rest }
    }
}

/// The number of frames per channel of a non-interleaved buffer.
pub open spec fn channel_lengths<T>(buffer: Seq<Vec<T>>) -> Seq<int> {
    Seq::new(buffer.len(), |ch: int| buffer[ch]@.len() as int)
}

/// Current length of a buffer in frames: the shortest channel, or 0 for a
/// buffer without channels.
pub fn buffer_length<T>(buffer: &[Vec<T>]) -> (r: usize)
    ensures
        r == min_len(channel_lengths(buffer@)),
{
    let mut result: usize = 0;
    let mut ch: usize = 0;
    while ch < buffer.len()
        invariant
            0 <= ch <= buffer@.len(),
            result == min_len(channel_lengths(buffer@.subrange(0, ch as int))),
        decreases buffer@.len() - ch,
    {
        let len = buffer[ch].len();
        proof {
            let prefix = channel_lengths(buffer@.subrange(0, ch as int + 1));
            assert(prefix.drop_last() =~= channel_lengths(buffer@.subrange(0, ch as int)));
        }
        if ch == 0 || len < result {
            result = len;
        }
        ch = ch + 1;
    }
    assert(buffer@.subrange(0, buffer@.len() as int) =~= buffer@);
    result
}

/// The first channel, counting from `from`, that is active in `mask` and holds
/// fewer than `min` frames.
pub open spec fn first_short_channel<T>(bufs: Seq<Vec<T>>, mask: Seq<bool>, min: usize, from: int) -> Option<int>
    decreases bufs.len() - from,
{
    if from < 0 || from >= bufs.len() {
        None
    } else if mask[from] && bufs[from]@.len() < min {
        Some(from)
    } else {
        first_short_channel(bufs, mask, min, from + 1)
    }
}

/// The error that a chunk with these buffers meets, if any: the checks are made
/// in this order, and the first that fails decides.
pub open spec fn buffer_error<T>(
    wave_in: Seq<Vec<T>>,
    wave_out: Seq<Vec<T>>,
    mask: Seq<bool>,
    channels: usize,
    min_input_len: usize,
    min_output_len: usize,
) -> Option<ResampleError> {
    if wave_in.len() != channels {
        Some(ResampleError::WrongNumberOfInputChannels { expected: channels, actual: wave_in.len() as usize })
    } else if mask.len() != channels {
        Some(ResampleError::WrongNumberOfMaskChannels { expected: channels, actual: mask.len() as usize })
    } else if first_short_channel(wave_in, mask, min_input_len, 0) is Some {
        let c = first_short_channel(wave_in, mask, min_input_len, 0)->Some_0;
        Some(ResampleError::InsufficientInputBufferSize {
            channel: c as usize,
            expected: min_input_len,
            actual: wave_in[c]@.len() as usize,
        })
    } else if wave_out.len() != channels {
        Some(ResampleError::WrongNumberOfOutputChannels { expected: channels, actual: wave_out.len() as usize })
    } else if first_short_channel(wave_out, mask, min_output_len, 0) is Some {
        let c = first_short_channel(wave_out, mask, min_output_len, 0)->Some_0;
        Some(ResampleError::InsufficientOutputBufferSize {
            channel: c as usize,
            expected: min_output_len,
            actual: wave_out[c]@.len() as usize,
        })
    } else {
        None
    }
}

/// `Ok(())` where `err` is `None`, else `Err` of it.
pub open spec fn as_result(err: Option<ResampleError>) -> Result<(), ResampleError> {
    match err {
        Some(e) => Err(e),
        None => Ok(()),
    }
}

/// The mask a chunk runs with: the one given, or every channel active.
pub open spec fn requested_mask(mask: Option<&[bool]>, channels: nat) -> Seq<bool> {
    match mask {
        Some(m) => m@,
        None => Seq::new(channels, |ch: int| true),
    }
}

/// Finds the first channel that is active and holds fewer than `min` frames.
fn find_short_channel<T>(bufs: &[Vec<T>], mask: Option<&[bool]>, min: usize) -> (r: Option<usize>)
    requires
        requested_mask(mask, bufs@.len()).len() == bufs@.len(),
    ensures
        match r {
            Some(c) => c < bufs@.len() && first_short_channel(bufs@, requested_mask(mask, bufs@.len()), min, 0) == Some(c as int),
            None => first_short_channel(bufs@, requested_mask(mask, bufs@.len()), min, 0) is None,
        },
{
    let ghost m = requested_mask(mask, bufs@.len());
    let mut ch: usize = 0;
    while ch < bufs.len()
        invariant
            0 <= ch <= bufs@.len(),
            m == requested_mask(mask, bufs@.len()),
            m.len() == bufs@.len(),
            first_short_channel(bufs@, m, min, 0) == first_short_channel(bufs@, m, min, ch as int),
        decreases bufs@.len() - ch,
    {
        let active = match mask {
            Some(mask) => mask[ch],
            None => true,
        };
        if active && bufs[ch].len() < min {
            return Some(ch);
        }
        ch = ch + 1;
    }
    None
}

/// Checks the input, output and mask of a chunk before anything is changed.
/// Only active channels are held to the minimum lengths.
pub fn validate_buffers<T>(
    wave_in: &[Vec<T>],
    wave_out: &[Vec<T>],
    mask: &[bool],
    channels: usize,
    min_input_len: usize,
    min_output_len: usize,
) -> (r: Result<(), ResampleError>)
    ensures
        r == as_result(buffer_error(wave_in@, wave_out@, mask@, channels, min_input_len, min_output_len)),
{
    validate_chunk_buffers(wave_in, wave_out, Some(mask), channels, min_input_len, min_output_len)
}

/// As [`validate_buffers`], where no mask stands for every channel active.
pub fn validate_chunk_buffers<T>(
    wave_in: &[Vec<T>],
    wave_out: &[Vec<T>],
    mask: Option<&[bool]>,
    channels: usize,
    min_input_len: usize,
    min_output_len: usize,
) -> (r: Result<(), ResampleError>)
    ensures
        r == as_result(
            buffer_error(wave_in@, wave_out@, requested_mask(mask, channels as nat), channels, min_input_len, min_output_len),
        ),
{
    if wave_in.len() != channels {
        return Err(ResampleError::WrongNumberOfInputChannels { expected: channels, actual: wave_in.len() });
    }
    let mask_len = match mask {
        Some(m) => m.len(),
        None => channels,
    };
    if mask_len != channels {
        return Err(ResampleError::WrongNumberOfMaskChannels { expected: channels, actual: mask_len });
    }
    if let Some(chan) = find_short_channel(wave_in, mask, min_input_len) {
        return Err(ResampleError::InsufficientInputBufferSize {
            channel: chan,
            expected: min_input_len,
            actual: wave_in[chan].len(),
        });
    }
    if wave_out.len() != channels {
        return Err(ResampleError::WrongNumberOfOutputChannels { expected: channels, actual: wave_out.len() });
    }
    if let Some(chan) = find_short_channel(wave_out, mask, min_output_len) {
        return Err(ResampleError::InsufficientOutputBufferSize {
            channel: chan,
            expected: min_output_len,
            actual: wave_out[chan].len(),
        });
    }
    Ok(())
}

/// `z` is a value that `T::default()` returns.
pub open spec fn is_default<T: Default>(z: T) -> bool {
    call_ensures(T::default, (), z)
}

fn default_value<T: Default>() -> (r: T)
    ensures
        is_default(r),
{
    T::default()
}

/// Relies on `Vec::capacity`, which is never below the length.
#[verifier::external_body]
fn vec_capacity<T>(v: &Vec<T>) -> (r: usize)
    ensures
        r >= v@.len(),
{
    v.capacity()
}

/// A row of `len` copies of `value`, with room for `capacity` frames.
pub(crate) fn filled_row<T: Copy>(len: usize, capacity: usize, value: T) -> (r: Vec<T>)
    ensures
        r@ == Seq::new(len as nat, |i: int| value),
{
    let mut row: Vec<T> = Vec::with_capacity(capacity);
    while row.len() < len
        invariant
            row.len() <= len,
            forall|i: int| 0 <= i < row.len() ==> #[trigger] row@[i] == value,
        decreases len - row.len(),
    {
        row.push(value);
    }
    assert(row@ =~= Seq::new(len as nat, |i: int| value));
    row
}

/// Truncates `row` to `frames`, or pads it with `value` up to `frames`.
fn resize_row<T: Copy>(row: &mut Vec<T>, frames: usize, value: T)
    ensures
        final(row)@ == resized(old(row)@, frames as nat, value),
{
    row.truncate(frames);
    while row.len() < frames
        invariant
            row@.len() <= frames,
            old(row)@.len() <= frames ==> row@.subrange(0, old(row)@.len() as int) == old(row)@,
            old(row)@.len() <= frames ==> row@.len() >= old(row)@.len(),
            old(row)@.len() > frames ==> row@ == old(row)@.subrange(0, frames as int),
            forall|i: int| old(row)@.len() <= i < row@.len() ==> #[trigger] row@[i] == value,
        decreases frames - row.len(),
    {
        row.push(value);
        proof {
            if old(row)@.len() <= frames {
                assert(row@.subrange(0, old(row)@.len() as int) =~= old(row)@);
            }
        }
    }
    assert(row@ =~= resized(old(row)@, frames as nat, value));
}

/// `row` cut to `frames`, or padded with `value` up to `frames`.
pub open spec fn resized<T>(row: Seq<T>, frames: nat, value: T) -> Seq<T> {
    Seq::new(frames, |i: int| if i < row.len() { row[i] } else { value })
}

/// Allocates a buffer of `channels` channels with room for `frames` frames
/// each. Where `filled` holds, every channel holds `frames` default samples
/// (zeros for floating-point samples); otherwise every channel is empty.
pub fn make_buffer<T: Default + Copy>(channels: usize, frames: usize, filled: bool) -> (r: Vec<Vec<T>>)
    ensures
        r@.len() == channels,
        forall|ch: int|
            0 <= ch < channels ==> (#[trigger] r@[ch])@.len() == if filled {
                frames as int
            } else {
                0
            },
        forall|ch: int, i: int| 0 <= ch < channels && 0 <= i < r@[ch]@.len() ==> is_default(#[trigger] r@[ch]@[i]),
{
    let mut buffer: Vec<Vec<T>> = Vec::with_capacity(channels);
    while buffer.len() < channels
        invariant
            buffer@.len() <= channels,
            forall|ch: int| 0 <= ch < buffer@.len() ==> (#[trigger] buffer@[ch])@.len() == 0,
        decreases channels - buffer.len(),
    {
        buffer.push(Vec::with_capacity(frames));
    }
    if filled {
        resize_buffer(buffer.as_mut_slice(), frames);
    }
    buffer
}

/// Sets every channel of `buffer` to `frames` frames: longer channels are
/// cut, shorter ones padded with default samples (zeros for floating-point
/// samples).
pub fn resize_buffer<T: Default + Copy>(buffer: &mut [Vec<T>], frames: usize)
    ensures
        final(buffer)@.len() == old(buffer)@.len(),
        forall|ch: int|
            0 <= ch < old(buffer)@.len() ==> (#[trigger] final(buffer)@[ch])@.len() == frames,
        forall|ch: int, i: int|
            0 <= ch < old(buffer)@.len() && 0 <= i < frames ==> if i < old(buffer)@[ch]@.len() {
                #[trigger] final(buffer)@[ch]@[i] == old(buffer)@[ch]@[i]
            } else {
                is_default(final(buffer)@[ch]@[i])
            },
{
    let zero = default_value::<T>();
    let mut ch: usize = 0;
    while ch < buffer.len()
        invariant
            ch <= buffer@.len() == old(buffer)@.len(),
            is_default(zero),
            forall|c: int| 0 <= c < ch ==> #[trigger] buffer@[c]@ == resized(old(buffer)@[c]@, frames as nat, zero),
            forall|c: int| ch <= c < buffer@.len() ==> #[trigger] buffer@[c] == old(buffer)@[c],
        decreases buffer@.len() - ch,
    {
        resize_row(&mut buffer[ch], frames, zero);
        ch = ch + 1;
    }
}

/// Current allocated room of a buffer in frames: the smallest over the
/// channels, or 0 for a buffer without channels. It is never below
/// [`buffer_length`].
pub fn buffer_capacity<T>(buffer: &[Vec<T>]) -> (r: usize)
    ensures
        r >= min_len(channel_lengths(buffer@)),
        buffer@.len() == 0 ==> r == 0,
{
    let mut result: usize = 0;
    let mut ch: usize = 0;
    while ch < buffer.len()
        invariant
            0 <= ch <= buffer@.len(),
            result >= min_len(channel_lengths(buffer@.subrange(0, ch as int))),
            ch == 0 ==> result == 0,
        decreases buffer@.len() - ch,
    {
        let capacity = vec_capacity(&buffer[ch]);
        proof {
            let prefix = channel_lengths(buffer@.subrange(0, ch as int + 1));
            assert(prefix.drop_last() =~= channel_lengths(buffer@.subrange(0, ch as int)));
        }
        if ch == 0 || capacity < result {
            result = capacity;
        }
        ch = ch + 1;
    }
    assert(buffer@.subrange(0, buffer@.len() as int) =~= buffer@);
    result
}

/// Marks every channel of `mask` active.
pub fn update_mask_from_buffers(mask: &mut [bool])
    ensures
        final(mask)@ == Seq::new(old(mask)@.len(), |ch: int| true),
{
    let mut ch: usize = 0;
    while ch < mask.len()
        invariant
            ch <= mask@.len() == old(mask)@.len(),
            forall|c: int| 0 <= c < ch ==> #[trigger] mask@[c],
        decreases mask@.len() - ch,
    {
        mask[ch] = true;
        ch = ch + 1;
    }
    assert(mask@ =~= Seq::new(old(mask)@.len(), |ch: int| true));
}

/// Whether channel `ch` takes part in a chunk run with `mask`: every channel
/// does where no mask is given, and a channel past the end of the mask does not.
pub open spec fn channel_is_active(mask: Option<&[bool]>, ch: int) -> bool {
    match mask {
        Some(m) => 0 <= ch < m@.len() && m@[ch],
        None => true,
    }
}

/// An output buffer for one chunk: `frames` copies of `silence` for each
/// active channel, and an empty vector for each inactive one.
pub fn output_buffer_for_mask<T: Copy>(channels: usize, frames: usize, mask: Option<&[bool]>, silence: T) -> (r: Vec<Vec<T>>)
    ensures
        r@.len() == channels,
        forall|ch: int|
            0 <= ch < channels ==> (#[trigger] r@[ch])@ == if channel_is_active(mask, ch) {
                Seq::new(frames as nat, |i: int| silence)
            } else {
                Seq::empty()
            },
{
    let mut wave_out: Vec<Vec<T>> = Vec::with_capacity(channels);
    while wave_out.len() < channels
        invariant
            wave_out@.len() <= channels,
            forall|ch: int|
                0 <= ch < wave_out@.len() ==> (#[trigger] wave_out@[ch])@ == if channel_is_active(mask, ch) {
                    Seq::new(frames as nat, |i: int| silence)
                } else {
                    Seq::empty()
                },
        decreases channels - wave_out.len(),
    {
        let ch = wave_out.len();
        let active = match mask {
            Some(m) => ch < m.len() && m[ch],
            None => true,
        };
        if active {
            wave_out.push(filled_row(frames, frames, silence));
        } else {
            let empty: Vec<T> = Vec::new();
            assert(empty@ =~= Seq::empty());
            wave_out.push(empty);
        }
    }
    wave_out
}

/// Cuts every channel of `wave_out` to at most `frames` frames.
pub fn truncate_channels<T>(wave_out: &mut Vec<Vec<T>>, frames: usize)
    ensures
        final(wave_out)@.len() == old(wave_out)@.len(),
        forall|ch: int|
            0 <= ch < old(wave_out)@.len() ==> (#[trigger] final(wave_out)@[ch])@ == if frames
                < old(wave_out)@[ch]@.len() {
                old(wave_out)@[ch]@.subrange(0, frames as int)
            } else {
                old(wave_out)@[ch]@
            },
{
    let mut ch: usize = 0;
    while ch < wave_out.len()
        invariant
            ch <= wave_out@.len() == old(wave_out)@.len(),
            forall|c: int|
                0 <= c < ch ==> (#[trigger] wave_out@[c])@ == if frames < old(wave_out)@[c]@.len() {
                    old(wave_out)@[c]@.subrange(0, frames as int)
                } else {
                    old(wave_out)@[c]@
                },
            forall|c: int| ch <= c < wave_out@.len() ==> #[trigger] wave_out@[c] == old(wave_out)@[c],
        decreases wave_out@.len() - ch,
    {
        wave_out[ch].truncate(frames);
        ch = ch + 1;
    }
}

/// Channel `ch` of the zero-padded input of a partial chunk: `frames`
/// frames, the given channel's own as far as it reaches (none where it is
/// empty) and `silence` after that; all `silence` where no input, or no such
/// channel, is given.
pub open spec fn padded_channel<T>(wave_in: Option<&[Vec<T>]>, ch: int, frames: nat, silence: T) -> Seq<T> {
    match wave_in {
        Some(input) if 0 <= ch < input@.len() => Seq::new(
            frames,
            |i: int| if i < input@[ch]@.len() { input@[ch]@[i] } else { silence },
        ),
        _ => Seq::new(frames, |i: int| silence),
    }
}

/// The input of a chunk made from what is left of a stream: each of the
/// `channels` channels has exactly `frames` frames, taken from `wave_in` as far
/// as it reaches and `silence` after that, also where a given channel is
/// empty. Frames past `frames` are dropped.
pub fn pad_input<T: Copy>(wave_in: Option<&[Vec<T>]>, channels: usize, frames: usize, silence: T) -> (r: Vec<Vec<T>>)
    ensures
        r@.len() == channels,
        forall|ch: int| 0 <= ch < channels ==> (#[trigger] r@[ch])@ == padded_channel(wave_in, ch, frames as nat, silence),
{
    let mut padded: Vec<Vec<T>> = Vec::with_capacity(channels);
    while padded.len() < channels
        invariant
            padded@.len() <= channels,
            forall|ch: int| 0 <= ch < padded@.len() ==> (#[trigger] padded@[ch])@ == padded_channel(wave_in, ch, frames as nat, silence),
        decreases channels - padded.len(),
    {
        let ch = padded.len();
        let mut row = filled_row(frames, frames, silence);
        if let Some(input) = wave_in {
            if ch < input.len() {
                let source = &input[ch];
                let frames_in = if source.len() > frames { frames } else { source.len() };
                let mut i: usize = 0;
                while i < frames_in
                    invariant
                        i <= frames_in <= frames,
                        frames_in <= source@.len(),
                        frames_in == source@.len() || frames_in == frames,
                        row@.len() == frames,
                        forall|k: int| 0 <= k < i ==> #[trigger] row@[k] == source@[k],
                        forall|k: int| i <= k < frames ==> #[trigger] row@[k] == silence,
                    decreases frames_in - i,
                {
                    row[i] = source[i];
                    i = i + 1;
                }
                assert(row@ =~= padded_channel(wave_in, ch as int, frames as nat, silence));
            }
        }
        assert(row@ =~= padded_channel(wave_in, ch as int, frames as nat, silence));
        padded.push(row);
    }
    padded
}

} // verus!
