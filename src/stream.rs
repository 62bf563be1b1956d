use vstd::prelude::*;

use crate::buffers::{
    as_result, buffer_error, filled_row, first_short_channel, requested_mask, update_mask_from_buffers,
    validate_chunk_buffers,
};
use crate::error::ResampleError;

verus! {

/// Which side of a chunk keeps a constant number of frames.
#[derive(Debug, Clone, Copy, PartialEq, Eq, Structural)]
pub enum Fixed {
    /// Each chunk consumes `chunk_size` input frames.
    Input,
    /// Each chunk produces `chunk_size` output frames.
    Output,
}

/// The number of frames per channel that the ring buffers hold: the history of
/// `2 * sinc_len` frames ahead of room for the largest chunk of input.
pub open spec fn ring_len(input_frames_max: nat, sinc_len: nat) -> nat {
    input_frames_max + 2 * sinc_len
}

/// What a ring buffer row holds once a chunk of `consumed` frames has been
/// taken in: the last `2 * sinc_len` frames moved to the head, then, for an
/// active channel, the new input right behind them.
pub open spec fn loaded_row<T>(row: Seq<T>, input: Seq<T>, active: bool, consumed: nat, sinc_len: nat) -> Seq<T> {
    Seq::new(
        row.len(),
        |i: int|
            if i < 2 * sinc_len {
                row[consumed + i]
            } else if active && i < 2 * sinc_len + consumed {
                input[i - 2 * sinc_len]
            } else {
                row[i]
            },
    )
}

/// Channel `c` is not short when the search from the first channel finds none.
proof fn no_short_channel_at<T>(bufs: Seq<Vec<T>>, mask: Seq<bool>, min: usize, c: int)
    requires
        0 <= c < bufs.len(),
        first_short_channel(bufs, mask, min, 0) is None,
    ensures
        !(mask[c] && bufs[c]@.len() < min),
{
    no_short_channel_from(bufs, mask, min, 0, c);
}

/// Channel `c` is not short when the search from channel `from` finds none.
proof fn no_short_channel_from<T>(bufs: Seq<Vec<T>>, mask: Seq<bool>, min: usize, from: int, c: int)
    requires
        0 <= from <= c < bufs.len(),
        first_short_channel(bufs, mask, min, from) is None,
    ensures
        !(mask[c] && bufs[c]@.len() < min),
    decreases c - from,
{
    if from < c {
        no_short_channel_from(bufs, mask, min, from + 1, c);
    }
}

/// The abstract state of a [`StreamState`].
pub struct StreamView<T> {
    /// The number of channels.
    pub nbr_channels: nat,
    /// The frame count of the fixed side of a chunk.
    pub chunk_size: nat,
    /// The chunk size the state was made with, the largest it accepts.
    pub max_chunk_size: nat,
    /// The input frames per channel that the next chunk consumes.
    pub needed_input_size: nat,
    /// The output frames per channel that the next chunk produces.
    pub needed_output_size: nat,
    /// The most input frames per channel that any chunk may consume.
    pub input_frames_max: nat,
    /// The most output frames per channel that any chunk may produce.
    pub output_frames_max: nat,
    /// The length of the interpolation filter, in input frames.
    pub sinc_len: nat,
    /// Which side of a chunk is fixed.
    pub fixed: Fixed,
    /// The sample value that fresh and reset ring buffers hold.
    pub silence: T,
    /// Which channels the last chunk processed.
    pub mask: Seq<bool>,
    /// One ring buffer per channel.
    pub buffer: Seq<Seq<T>>,
}

impl<T> StreamView<T> {
    /// The invariant of every state that a resampler can reach.
    pub open spec fn valid(self) -> bool {
        &&& 0 < self.chunk_size <= self.max_chunk_size
        &&& self.needed_input_size <= self.input_frames_max
        &&& self.needed_output_size <= self.output_frames_max
        &&& match self.fixed {
            Fixed::Input => self.needed_input_size == self.chunk_size && self.input_frames_max == self.max_chunk_size,
            Fixed::Output => self.needed_output_size == self.chunk_size && self.output_frames_max == self.max_chunk_size,
        }
        &&& ring_len(self.input_frames_max, self.sinc_len) <= usize::MAX
        &&& self.mask.len() == self.nbr_channels
        &&& self.buffer.len() == self.nbr_channels
        &&& forall|ch: int| 0 <= ch < self.nbr_channels ==> #[trigger] self.buffer[ch].len() == ring_len(self.input_frames_max, self.sinc_len)
    }

    /// The state once a chunk of `wave_in` has been taken in under `mask`.
    pub open spec fn loaded(self, wave_in: Seq<Vec<T>>, mask: Seq<bool>) -> StreamView<T> {
        StreamView {
            mask,
            buffer: Seq::new(
                self.buffer.len(),
                |ch: int| loaded_row(self.buffer[ch], wave_in[ch]@, mask[ch], self.needed_input_size, self.sinc_len),
            ),
            ..self
        }
    }

    /// The state with `varying` frames on the side of a chunk that is not fixed.
    pub open spec fn with_varying_size(self, varying: nat) -> StreamView<T> {
        match self.fixed {
            Fixed::Input => StreamView { needed_input_size: self.chunk_size, needed_output_size: varying, ..self },
            Fixed::Output => StreamView { needed_input_size: varying, needed_output_size: self.chunk_size, ..self },
        }
    }

    /// The state with a chunk size of `n` on the fixed side; the other side keeps its count.
    pub open spec fn with_chunk_size(self, n: nat) -> StreamView<T> {
        match self.fixed {
            Fixed::Input => StreamView { chunk_size: n, needed_input_size: n, ..self },
            Fixed::Output => StreamView { chunk_size: n, needed_output_size: n, ..self },
        }
    }

    /// The state after a reset: every ring buffer holds silence, every
    /// channel is active and the chunk size is back at its largest. The side
    /// that is not fixed keeps its count until the caller updates it.
    pub open spec fn after_reset(self) -> StreamView<T> {
        StreamView {
            mask: Seq::new(self.nbr_channels, |ch: int| true),
            buffer: Seq::new(
                self.buffer.len(),
                |ch: int| Seq::new(ring_len(self.input_frames_max, self.sinc_len), |i: int| self.silence),
            ),
            ..self.with_chunk_size(self.max_chunk_size)
        }
    }

    /// The largest number of frames that the side of a chunk that is not fixed may take.
    pub open spec fn varying_max(self) -> nat {
        match self.fixed {
            Fixed::Input => self.output_frames_max,
            Fixed::Output => self.input_frames_max,
        }
    }
}

/// The part of an asynchronous resampler's state that is counted in frames:
/// the chunk sizes, the channel mask and one ring buffer per channel.
/// Where a chunk reads its input from, and how much of it, is decided here;
/// the fractional read position and the ratios are kept by the caller, which
/// hands in the frame count that they give for the side that is not fixed.
pub struct StreamState<T> {
    nbr_channels: usize,
    chunk_size: usize,
    max_chunk_size: usize,
    needed_input_size: usize,
    needed_output_size: usize,
    input_frames_max: usize,
    output_frames_max: usize,
    sinc_len: usize,
    fixed: Fixed,
    silence: T,
    channel_mask: Vec<bool>,
    buffer: Vec<Vec<T>>,
}

impl<T> View for StreamState<T> {
    type V = StreamView<T>;

    closed spec fn view(&self) -> StreamView<T> {
        StreamView {
            nbr_channels: self.nbr_channels as nat,
            chunk_size: self.chunk_size as nat,
            max_chunk_size: self.max_chunk_size as nat,
            needed_input_size: self.needed_input_size as nat,
            needed_output_size: self.needed_output_size as nat,
            input_frames_max: self.input_frames_max as nat,
            output_frames_max: self.output_frames_max as nat,
            sinc_len: self.sinc_len as nat,
            fixed: self.fixed,
            silence: self.silence,
            mask: self.channel_mask@,
            buffer: self.buffer@.map_values(|row: Vec<T>| row@),
        }
    }
}

/// Moves the last `2 * sinc_len` frames of a chunk to the head of `row`, and
/// for an active channel copies the first `consumed` frames of `input` right
/// behind them.
fn load_row<T: Copy>(row: &mut Vec<T>, input: &Vec<T>, active: bool, consumed: usize, sinc_len: usize)
    requires
        consumed + 2 * sinc_len <= old(row)@.len(),
        active ==> consumed <= input@.len(),
    ensures
        final(row)@ == loaded_row(old(row)@, input@, active, consumed as nat, sinc_len as nat),
{
    let row_len = row.len();
    let history = 2 * sinc_len;
    let ghost start = old(row)@;
    let mut i: usize = 0;
    while i < history
        invariant
            i <= history == 2 * sinc_len,
            consumed + history <= start.len() == row_len,
            row@.len() == start.len(),
            forall|j: int| 0 <= j < i ==> #[trigger] row@[j] == start[consumed + j],
            forall|j: int| i <= j < start.len() ==> #[trigger] row@[j] == start[j],
        decreases history - i,
    {
        let v = row[consumed + i];
        row[i] = v;
        i = i + 1;
    }
    if active {
        let mut k: usize = 0;
        while k < consumed
            invariant
                k <= consumed <= input@.len(),
                history == 2 * sinc_len,
                consumed + history <= start.len() == row_len,
                row@.len() == start.len(),
                forall|j: int| 0 <= j < history ==> #[trigger] row@[j] == start[consumed + j],
                forall|j: int| history <= j < history + k ==> #[trigger] row@[j] == input@[j - history],
                forall|j: int| history + k <= j < start.len() ==> #[trigger] row@[j] == start[j],
            decreases consumed - k,
        {
            row[history + k] = input[k];
            k = k + 1;
        }
    }
    assert(row@ =~= loaded_row(start, input@, active, consumed as nat, sinc_len as nat));
}

impl<T: Copy> StreamState<T> {
    /// Well-formedness: the view is valid.
    pub open spec fn wf(&self) -> bool {
        self@.valid()
    }

    /// A state for `nbr_channels` channels and chunks of `chunk_size` frames
    /// on the `fixed` side. The other side may need up to `varying_max`
    /// frames per chunk, and needs `varying_size` for the first. Every ring
    /// buffer starts out holding `silence` and every channel is active.
    pub fn new(
        nbr_channels: usize,
        chunk_size: usize,
        sinc_len: usize,
        fixed: Fixed,
        varying_max: usize,
        varying_size: usize,
        silence: T,
    ) -> (r: Self)
        requires
            nbr_channels > 0,
            chunk_size > 0,
            varying_size <= varying_max,
            ring_len(
                match fixed {
                    Fixed::Input => chunk_size as nat,
                    Fixed::Output => varying_max as nat,
                },
                sinc_len as nat,
            ) <= usize::MAX,
        ensures
            r.wf(),
            r@.nbr_channels == nbr_channels,
            r@.chunk_size == chunk_size,
            r@.max_chunk_size == chunk_size,
            r@.sinc_len == sinc_len,
            r@.fixed == fixed,
            r@.silence == silence,
            r@.varying_max() == varying_max,
            r@ == r@.with_varying_size(varying_size as nat),
            r@.mask == Seq::new(nbr_channels as nat, |ch: int| true),
            forall|ch: int| 0 <= ch < nbr_channels ==> #[trigger] r@.buffer[ch] == Seq::new(
                ring_len(r@.input_frames_max, sinc_len as nat),
                |i: int| silence,
            ),
    {
        let (input_frames_max, output_frames_max, needed_input_size, needed_output_size) = match fixed {
            Fixed::Input => (chunk_size, varying_max, chunk_size, varying_size),
            Fixed::Output => (varying_max, chunk_size, varying_size, chunk_size),
        };
        let buffer_len = input_frames_max + 2 * sinc_len;
        let mut buffer: Vec<Vec<T>> = Vec::with_capacity(nbr_channels);
        let mut channel_mask: Vec<bool> = Vec::with_capacity(nbr_channels);
        while buffer.len() < nbr_channels
            invariant
                buffer.len() <= nbr_channels,
                channel_mask.len() == buffer.len(),
                forall|ch: int| 0 <= ch < channel_mask.len() ==> #[trigger] channel_mask@[ch],
                forall|ch: int| 0 <= ch < buffer.len() ==> #[trigger] buffer@[ch]@ == Seq::new(buffer_len as nat, |i: int| silence),
            decreases nbr_channels - buffer.len(),
        {
            buffer.push(filled_row(buffer_len, buffer_len, silence));
            channel_mask.push(true);
        }
        let r = StreamState {
            nbr_channels,
            chunk_size,
            max_chunk_size: chunk_size,
            needed_input_size,
            needed_output_size,
            input_frames_max,
            output_frames_max,
            sinc_len,
            fixed,
            silence,
            channel_mask,
            buffer,
        };
        assert(r@.mask =~= Seq::new(nbr_channels as nat, |ch: int| true));
        r
    }

    /// Takes in the input of the next chunk. The buffers and the mask are
    /// checked first, and on an error nothing changes. Otherwise the mask is
    /// stored (every channel active where none is given), every ring buffer
    /// moves its history to the head, and every active channel copies in
    /// `input_frames_next()` frames of its input.
    pub fn load_chunk(&mut self, wave_in: &[Vec<T>], wave_out: &[Vec<T>], mask: Option<&[bool]>) -> (r: Result<(), ResampleError>)
        requires
            old(self).wf(),
        ensures
            final(self).wf(),
            r == as_result(
                buffer_error(
                    wave_in@,
                    wave_out@,
                    requested_mask(mask, old(self)@.nbr_channels),
                    old(self)@.nbr_channels as usize,
                    old(self)@.needed_input_size as usize,
                    old(self)@.needed_output_size as usize,
                ),
            ),
            r is Err ==> final(self)@ == old(self)@,
            r is Ok ==> final(self)@ == old(self)@.loaded(wave_in@, requested_mask(mask, old(self)@.nbr_channels)),
    {
        validate_chunk_buffers(
            wave_in,
            wave_out,
            mask,
            self.nbr_channels,
            self.needed_input_size,
            self.needed_output_size,
        )?;
        let ghost m = requested_mask(mask, self@.nbr_channels);
        let ghost start = self@;
        let mut ch: usize = 0;
        while ch < self.nbr_channels
            invariant
                self.wf(),
                ch <= self.nbr_channels,
                m.len() == self.nbr_channels,
                wave_in@.len() == self.nbr_channels,
                buffer_error(wave_in@, wave_out@, m, self.nbr_channels, self.needed_input_size, self.needed_output_size) is None,
                m == requested_mask(mask, self@.nbr_channels),
                self@ == (StreamView { mask: self@.mask, buffer: self@.buffer, ..start }),
                forall|c: int| 0 <= c < ch ==> #[trigger] self@.mask[c] == m[c],
                forall|c: int| 0 <= c < ch ==> #[trigger] self@.buffer[c] == loaded_row(
                    start.buffer[c], wave_in@[c]@, m[c], start.needed_input_size, start.sinc_len),
                forall|c: int| ch <= c < self.nbr_channels ==> #[trigger] self@.buffer[c] == start.buffer[c],
            decreases self.nbr_channels - ch,
        {
            let active = match mask {
                Some(mask) => mask[ch],
                None => true,
            };
            let ghost old_buffer = self@.buffer;
            proof {
                no_short_channel_at(wave_in@, m, self.needed_input_size, ch as int);
                assert(self@.buffer[ch as int] == self.buffer@[ch as int]@);
            }
            load_row(&mut self.buffer[ch], &wave_in[ch], active, self.needed_input_size, self.sinc_len);
            self.channel_mask[ch] = active;
            proof {
                assert(self@.buffer[ch as int] == self.buffer@[ch as int]@);
                assert forall|c: int| 0 <= c < self.nbr_channels && c != ch implies #[trigger] self@.buffer[c] == old_buffer[c] by {
                    assert(self@.buffer[c] == self.buffer@[c]@);
                }
            }
            ch = ch + 1;
        }
        assert(self@.mask =~= m);
        assert(self@.buffer =~= start.loaded(wave_in@, m).buffer);
        Ok(())
    }

    /// Sets the number of frames on the side of a chunk that is not fixed.
    pub fn update_lengths(&mut self, varying_size: usize)
        requires
            old(self).wf(),
            varying_size <= old(self)@.varying_max(),
        ensures
            final(self).wf(),
            final(self)@ == old(self)@.with_varying_size(varying_size as nat),
    {
        match self.fixed {
            Fixed::Input => {
                self.needed_input_size = self.chunk_size;
                self.needed_output_size = varying_size;
            },
            Fixed::Output => {
                self.needed_input_size = varying_size;
                self.needed_output_size = self.chunk_size;
            },
        }
    }

    /// Ends a chunk: returns the numbers of input frames it consumed and of
    /// output frames it produced, and sets the count of the side that is not
    /// fixed for the next chunk to `varying_size`.
    pub fn finish_chunk(&mut self, varying_size: usize) -> (r: (usize, usize))
        requires
            old(self).wf(),
            varying_size <= old(self)@.varying_max(),
        ensures
            final(self).wf(),
            r == (old(self)@.needed_input_size as usize, old(self)@.needed_output_size as usize),
            old(self)@.fixed == Fixed::Input ==> r.0 == old(self)@.chunk_size,
            old(self)@.fixed == Fixed::Output ==> r.1 == old(self)@.chunk_size,
            final(self)@ == old(self)@.with_varying_size(varying_size as nat),
    {
        let consumed = self.needed_input_size;
        let produced = self.needed_output_size;
        self.update_lengths(varying_size);
        (consumed, produced)
    }

    /// Changes the chunk size. A size of zero, or one larger than the size the
    /// state was made with, is refused and changes nothing.
    pub fn set_chunk_size(&mut self, chunk_size: usize) -> (r: Result<(), ResampleError>)
        requires
            old(self).wf(),
        ensures
            final(self).wf(),
            (chunk_size == 0 || chunk_size > old(self)@.max_chunk_size) ==> {
                &&& r == Err::<(), ResampleError>(
                    ResampleError::InvalidChunkSize { max: old(self)@.max_chunk_size as usize, requested: chunk_size },
                )
                &&& final(self)@ == old(self)@
            },
            (0 < chunk_size <= old(self)@.max_chunk_size) ==> {
                &&& r is Ok
                &&& final(self)@ == old(self)@.with_chunk_size(chunk_size as nat)
            },
    {
        if chunk_size > self.max_chunk_size || chunk_size == 0 {
            return Err(ResampleError::InvalidChunkSize { max: self.max_chunk_size, requested: chunk_size });
        }
        self.chunk_size = chunk_size;
        match self.fixed {
            Fixed::Input => self.needed_input_size = chunk_size,
            Fixed::Output => self.needed_output_size = chunk_size,
        }
        Ok(())
    }

    /// Clears every ring buffer to silence, marks every channel active and
    /// restores the largest chunk size.
    pub fn reset(&mut self)
        requires
            old(self).wf(),
        ensures
            final(self).wf(),
            final(self)@ == old(self)@.after_reset(),
    {
        let ghost start = self@;
        let mut ch: usize = 0;
        while ch < self.nbr_channels
            invariant
                self.wf(),
                start.valid(),
                ch <= self.nbr_channels,
                self@ == (StreamView { mask: self@.mask, buffer: self@.buffer, ..start }),
                self@.mask == start.mask,
                forall|c: int| 0 <= c < ch ==> #[trigger] self@.buffer[c] == start.after_reset().buffer[c],
            decreases self.nbr_channels - ch,
        {
            let row_len = self.buffer[ch].len();
            let ghost old_buffer = self@.buffer;
            proof {
                assert(self@.buffer[ch as int] == self.buffer@[ch as int]@);
            }
            self.buffer.set(ch, filled_row(row_len, row_len, self.silence));
            proof {
                assert(self@.buffer[ch as int] == self.buffer@[ch as int]@);
                assert(self@.buffer[ch as int] =~= start.after_reset().buffer[ch as int]);
                assert forall|c: int| 0 <= c < self.nbr_channels && c != ch implies #[trigger] self@.buffer[c] == old_buffer[c] by {
                    assert(self@.buffer[c] == self.buffer@[c]@);
                }
            }
            ch = ch + 1;
        }
        update_mask_from_buffers(self.channel_mask.as_mut_slice());
        self.chunk_size = self.max_chunk_size;
        match self.fixed {
            Fixed::Input => self.needed_input_size = self.max_chunk_size,
            Fixed::Output => self.needed_output_size = self.max_chunk_size,
        }
        assert(self@.mask =~= start.after_reset().mask);
        assert(self@.buffer =~= start.after_reset().buffer);
    }

    /// Where in a ring buffer the filter starts for a tap `sample_offset`
    /// frames from the head of the fresh input, or `None` where the filter
    /// would reach outside the buffer.
    pub fn kernel_base(&self, sample_offset: i64) -> (r: Option<usize>)
        requires
            self.wf(),
        ensures
            ({
                let base = 2 * self@.sinc_len + sample_offset;
                &&& r is Some <==> (0 <= base && base + self@.sinc_len <= ring_len(self@.input_frames_max, self@.sinc_len))
                &&& r is Some ==> r->Some_0 == base
            }),
    {
        let buffer_len = (self.input_frames_max + 2 * self.sinc_len) as i128;
        let base = 2 * (self.sinc_len as i128) + sample_offset as i128;
        if 0 <= base && base + (self.sinc_len as i128) <= buffer_len {
            Some(base as usize)
        } else {
            None
        }
    }

    /// The number of channels.
    pub fn nbr_channels(&self) -> (r: usize)
        ensures
            r == self@.nbr_channels,
    {
        self.nbr_channels
    }

    /// The chunk size in effect.
    pub fn chunk_size(&self) -> (r: usize)
        ensures
            r == self@.chunk_size,
    {
        self.chunk_size
    }

    /// The chunk size the state was made with, the largest it accepts.
    pub fn max_chunk_size(&self) -> (r: usize)
        ensures
            r == self@.max_chunk_size,
    {
        self.max_chunk_size
    }

    /// The number of input frames per channel that the next chunk consumes.
    pub fn input_frames_next(&self) -> (r: usize)
        ensures
            r == self@.needed_input_size,
    {
        self.needed_input_size
    }

    /// The number of output frames per channel that the next chunk produces.
    pub fn output_frames_next(&self) -> (r: usize)
        ensures
            r == self@.needed_output_size,
    {
        self.needed_output_size
    }

    /// The largest number of input frames per channel that a chunk may consume.
    pub fn input_frames_max(&self) -> (r: usize)
        ensures
            r == self@.input_frames_max,
    {
        self.input_frames_max
    }

    /// The largest number of output frames per channel that a chunk may produce.
    pub fn output_frames_max(&self) -> (r: usize)
        ensures
            r == self@.output_frames_max,
    {
        self.output_frames_max
    }

    /// The length of the interpolation filter, in input frames.
    pub fn sinc_len(&self) -> (r: usize)
        ensures
            r == self@.sinc_len,
    {
        self.sinc_len
    }

    /// Which side of a chunk is fixed.
    pub fn fixed(&self) -> (r: Fixed)
        ensures
            r == self@.fixed,
    {
        self.fixed
    }

    /// Whether channel `ch` was active in the last chunk.
    pub fn is_active(&self, ch: usize) -> (r: bool)
        requires
            self.wf(),
            ch < self@.nbr_channels,
        ensures
            r == self@.mask[ch as int],
    {
        self.channel_mask[ch]
    }

    /// The ring buffer of channel `ch`.
    pub fn channel(&self, ch: usize) -> (r: &Vec<T>)
        requires
            self.wf(),
            ch < self@.nbr_channels,
        ensures
            r@ == self@.buffer[ch as int],
    {
        &self.buffer[ch]
    }
}

/// In every state a resampler can reach, the side of a chunk that is fixed
/// has exactly `chunk_size` frames: a chunk in `Fixed::Input` mode consumes
/// `chunk_size` input frames, one in `Fixed::Output` mode produces
/// `chunk_size` output frames.
pub proof fn lemma_fixed_side_is_chunk_size<T: Copy>(state: &StreamState<T>)
    requires
        state.wf(),
    ensures
        state@.fixed == Fixed::Input ==> state@.needed_input_size == state@.chunk_size,
        state@.fixed == Fixed::Output ==> state@.needed_output_size == state@.chunk_size,
{
}

/// In every state a resampler can reach, whatever ratio and chunk-size
/// changes led there, the next chunk needs no more input frames and writes no
/// more output frames than the largest counts announced for any chunk.
pub proof fn lemma_frames_next_within_max<T: Copy>(state: &StreamState<T>)
    requires
        state.wf(),
    ensures
        state@.needed_input_size <= state@.input_frames_max,
        state@.needed_output_size <= state@.output_frames_max,
{
}

/// Two inputs that agree on the channels a mask marks active, over the frames
/// a chunk consumes, meet the same checks and leave the same state behind:
/// what an inactive channel holds, or whether it holds anything, never
/// matters.
pub proof fn lemma_inactive_input_ignored<T>(
    state: StreamView<T>,
    wave_in1: Seq<Vec<T>>,
    wave_in2: Seq<Vec<T>>,
    wave_out: Seq<Vec<T>>,
    mask: Seq<bool>,
)
    requires
        state.valid(),
        mask.len() == state.nbr_channels,
        wave_in1.len() == wave_in2.len(),
        forall|ch: int|
            0 <= ch < wave_in1.len() && #[trigger] mask[ch] ==> wave_in1[ch]@.len() >= state.needed_input_size
                && wave_in2[ch]@.len() >= state.needed_input_size && wave_in1[ch]@.subrange(
                0,
                state.needed_input_size as int,
            ) == wave_in2[ch]@.subrange(0, state.needed_input_size as int),
    ensures
        buffer_error(
            wave_in1,
            wave_out,
            mask,
            state.nbr_channels as usize,
            state.needed_input_size as usize,
            state.needed_output_size as usize,
        ) == buffer_error(
            wave_in2,
            wave_out,
            mask,
            state.nbr_channels as usize,
            state.needed_input_size as usize,
            state.needed_output_size as usize,
        ),
        wave_in1.len() == state.nbr_channels ==> state.loaded(wave_in1, mask) == state.loaded(wave_in2, mask),
{
    let n = state.needed_input_size as usize;
    lemma_no_short_active_channel(wave_in1, mask, n, 0);
    lemma_no_short_active_channel(wave_in2, mask, n, 0);
    let l1 = state.loaded(wave_in1, mask);
    let l2 = state.loaded(wave_in2, mask);
    if wave_in1.len() == state.nbr_channels {
        assert forall|ch: int| 0 <= ch < state.buffer.len() implies #[trigger] l1.buffer[ch] == l2.buffer[ch] by {
            if mask[ch] {
                assert forall|i: int| 0 <= i < n implies wave_in1[ch]@[i] == wave_in2[ch]@[i] by {
                    assert(wave_in1[ch]@.subrange(0, n as int)[i] == wave_in1[ch]@[i]);
                    assert(wave_in2[ch]@.subrange(0, n as int)[i] == wave_in2[ch]@[i]);
                }
            }
            assert(l1.buffer[ch] =~= l2.buffer[ch]);
        }
        assert(l1.buffer =~= l2.buffer);
    }
}

/// No active channel is short when each holds at least `min` frames.
proof fn lemma_no_short_active_channel<T>(bufs: Seq<Vec<T>>, mask: Seq<bool>, min: usize, from: int)
    requires
        0 <= from,
        forall|ch: int| 0 <= ch < bufs.len() && #[trigger] mask[ch] ==> bufs[ch]@.len() >= min,
    ensures
        first_short_channel(bufs, mask, min, from) is None,
    decreases bufs.len() - from,
{
    if from < bufs.len() {
        lemma_no_short_active_channel(bufs, mask, min, from + 1);
    }
}

} // verus!
