use rubato::{
    grid_tap, nearest_taps, round_sinc_len, tap_count, Fixed, ResampleError, SincInterpolationType, StreamState,
};

fn channel_of(state: &StreamState<i32>, ch: usize) -> Vec<i32> {
    state.channel(ch).clone()
}

#[test]
fn new_state_is_silent_and_all_active() {
    let state = StreamState::new(2, 4, 2, Fixed::Input, 10, 5, 0i32);
    assert_eq!(state.nbr_channels(), 2);
    assert_eq!(state.input_frames_next(), 4);
    assert_eq!(state.output_frames_next(), 5);
    assert_eq!(state.input_frames_max(), 4);
    assert_eq!(state.output_frames_max(), 10);
    assert_eq!(channel_of(&state, 0), vec![0; 8]);
    assert!(state.is_active(0) && state.is_active(1));
}

#[test]
fn fixed_input_consumes_chunk_size() {
    let mut state = StreamState::new(2, 4, 2, Fixed::Input, 10, 5, 0i32);
    let wave_in = vec![vec![1, 2, 3, 4], vec![5, 6, 7, 8]];
    let wave_out = vec![vec![0; 5], vec![0; 5]];
    assert_eq!(state.load_chunk(&wave_in, &wave_out, None), Ok(()));
    assert_eq!(channel_of(&state, 0), vec![0, 0, 0, 0, 1, 2, 3, 4]);
    assert_eq!(channel_of(&state, 1), vec![0, 0, 0, 0, 5, 6, 7, 8]);
    assert_eq!(state.finish_chunk(6), (4, 5));
    assert_eq!(state.input_frames_next(), 4);
    assert_eq!(state.output_frames_next(), 6);

    let wave_in = vec![vec![9, 10, 11, 12], vec![13, 14, 15, 16]];
    let wave_out = vec![vec![0; 6], vec![0; 6]];
    assert_eq!(state.load_chunk(&wave_in, &wave_out, None), Ok(()));
    assert_eq!(channel_of(&state, 0), vec![1, 2, 3, 4, 9, 10, 11, 12]);
    assert_eq!(state.finish_chunk(3), (4, 6));
}

#[test]
fn fixed_output_produces_chunk_size() {
    let mut state = StreamState::new(1, 3, 1, Fixed::Output, 6, 5, 0i32);
    assert_eq!(state.input_frames_next(), 5);
    assert_eq!(state.output_frames_next(), 3);
    let wave_in = vec![vec![1, 2, 3, 4, 5]];
    let wave_out = vec![vec![0; 3]];
    assert_eq!(state.load_chunk(&wave_in, &wave_out, None), Ok(()));
    assert_eq!(channel_of(&state, 0), vec![0, 0, 1, 2, 3, 4, 5, 0]);
    assert_eq!(state.finish_chunk(4), (5, 3));
    assert_eq!(state.input_frames_next(), 4);
    assert_eq!(state.output_frames_next(), 3);
    let wave_in = vec![vec![6, 7, 8, 9]];
    assert_eq!(state.load_chunk(&wave_in, &wave_out, None), Ok(()));
    assert_eq!(channel_of(&state, 0), vec![3, 4, 6, 7, 8, 9, 5, 0]);
    assert_eq!(state.finish_chunk(6), (4, 3));
}

#[test]
fn inactive_channel_only_shifts() {
    let mut state = StreamState::new(2, 2, 1, Fixed::Input, 4, 2, 0i32);
    let wave_in = vec![vec![1, 2], vec![3, 4]];
    let wave_out = vec![vec![0; 2], vec![0; 2]];
    assert_eq!(state.load_chunk(&wave_in, &wave_out, None), Ok(()));
    assert_eq!(channel_of(&state, 1), vec![0, 0, 3, 4]);
    state.finish_chunk(2);
    let wave_in = vec![vec![5, 6], Vec::new()];
    let wave_out = vec![vec![0; 2], Vec::new()];
    let mask = [true, false];
    assert_eq!(state.load_chunk(&wave_in, &wave_out, Some(&mask)), Ok(()));
    assert_eq!(channel_of(&state, 0), vec![1, 2, 5, 6]);
    assert_eq!(channel_of(&state, 1), vec![3, 4, 3, 4]);
    assert!(state.is_active(0));
    assert!(!state.is_active(1));
}

#[test]
fn refused_chunk_changes_nothing() {
    let mut state = StreamState::new(2, 2, 1, Fixed::Input, 4, 2, 0i32);
    let wave_in = vec![vec![1, 2], vec![3]];
    let wave_out = vec![vec![0; 2], vec![0; 2]];
    let mask = [false, true];
    assert_eq!(
        state.load_chunk(&wave_in, &wave_out, Some(&mask)),
        Err(ResampleError::InsufficientInputBufferSize { channel: 1, expected: 2, actual: 1 })
    );
    assert!(state.is_active(0));
    assert_eq!(channel_of(&state, 0), vec![0; 4]);
    let short_mask = [true];
    assert_eq!(
        state.load_chunk(&wave_in, &wave_out, Some(&short_mask)),
        Err(ResampleError::WrongNumberOfMaskChannels { expected: 2, actual: 1 })
    );
}

#[test]
fn chunk_size_limits() {
    let mut state = StreamState::new(1, 3, 1, Fixed::Output, 6, 5, 0i32);
    assert_eq!(state.set_chunk_size(0), Err(ResampleError::InvalidChunkSize { max: 3, requested: 0 }));
    assert_eq!(state.set_chunk_size(4), Err(ResampleError::InvalidChunkSize { max: 3, requested: 4 }));
    assert_eq!(state.output_frames_next(), 3);
    assert_eq!(state.set_chunk_size(2), Ok(()));
    assert_eq!(state.chunk_size(), 2);
    assert_eq!(state.output_frames_next(), 2);
    assert_eq!(state.input_frames_next(), 5);
}

#[test]
fn fixed_input_chunk_resize() {
    let mut state = StreamState::new(2, 1024, 64, Fixed::Input, 1239, 1150, 0i32);
    assert_eq!(state.input_frames_next(), 1024);
    assert_eq!(state.set_chunk_size(256), Ok(()));
    assert_eq!(state.input_frames_next(), 256);
    assert_eq!(state.max_chunk_size(), 1024);
}

#[test]
fn reset_restores_silence_and_chunk_size() {
    let mut state = StreamState::new(2, 2, 1, Fixed::Input, 4, 2, 0i32);
    let wave_in = vec![vec![1, 2], Vec::new()];
    let wave_out = vec![vec![0; 2], Vec::new()];
    assert_eq!(state.load_chunk(&wave_in, &wave_out, Some(&[true, false])), Ok(()));
    assert_eq!(state.set_chunk_size(1), Ok(()));
    state.reset();
    assert_eq!(channel_of(&state, 0), vec![0; 4]);
    assert!(state.is_active(1));
    assert_eq!(state.chunk_size(), 2);
    assert_eq!(state.input_frames_next(), 2);
}

#[test]
fn frames_next_stay_within_max() {
    let mut state = StreamState::new(1, 8, 2, Fixed::Output, 20, 12, 0i32);
    let check = |s: &StreamState<i32>| {
        assert!(s.input_frames_next() <= s.input_frames_max());
        assert!(s.output_frames_next() <= s.output_frames_max());
    };
    check(&state);
    state.update_lengths(20);
    check(&state);
    assert_eq!(state.set_chunk_size(3), Ok(()));
    check(&state);
    state.update_lengths(7);
    check(&state);
    state.reset();
    check(&state);
    assert_eq!(state.output_frames_next(), 8);
}

#[test]
fn kernel_base_stays_inside_ring() {
    let state = StreamState::new(1, 4, 2, Fixed::Input, 10, 5, 0i32);
    assert_eq!(state.kernel_base(-4), Some(0));
    assert_eq!(state.kernel_base(-5), None);
    assert_eq!(state.kernel_base(0), Some(4));
    assert_eq!(state.kernel_base(2), Some(6));
    assert_eq!(state.kernel_base(3), None);
    assert_eq!(state.kernel_base(i64::MIN), None);
    assert_eq!(state.kernel_base(i64::MAX), None);
}

#[test]
fn grid_tap_uses_floor_and_nonnegative_remainder() {
    assert_eq!(grid_tap(-5, 4), (-2, 3));
    assert_eq!(grid_tap(-4, 4), (-1, 0));
    assert_eq!(grid_tap(9, 4), (2, 1));
}

#[test]
fn nearest_taps_per_interpolation() {
    let mut taps = [(7i64, 7usize); 4];
    assert_eq!(nearest_taps(SincInterpolationType::Cubic, -1, 4, &mut taps), 4);
    assert_eq!(taps, [(-1, 2), (-1, 3), (0, 0), (0, 1)]);

    let mut taps = [(7i64, 7usize); 4];
    assert_eq!(nearest_taps(SincInterpolationType::Quadratic, 3, 4, &mut taps), 3);
    assert_eq!(taps, [(0, 3), (1, 0), (1, 1), (7, 7)]);

    let mut taps = [(7i64, 7usize); 4];
    assert_eq!(nearest_taps(SincInterpolationType::Linear, 5, 4, &mut taps), 2);
    assert_eq!(taps, [(1, 1), (1, 2), (7, 7), (7, 7)]);

    let mut taps = [(7i64, 7usize); 4];
    assert_eq!(nearest_taps(SincInterpolationType::Nearest, 7, 4, &mut taps), 1);
    assert_eq!(taps, [(1, 3), (7, 7), (7, 7), (7, 7)]);

    assert_eq!(tap_count(SincInterpolationType::Cubic), 4);
}

#[test]
fn sinc_len_rounds_up_to_multiple_of_eight() {
    assert_eq!(round_sinc_len(64), 64);
    assert_eq!(round_sinc_len(65), 72);
    assert_eq!(round_sinc_len(1), 8);
    assert_eq!(round_sinc_len(0), 0);
}

#[test]
fn inactive_input_does_not_matter() {
    let mask = [true, false];
    let wave_out = vec![vec![0; 2], Vec::new()];
    let mut first = StreamState::new(2, 2, 1, Fixed::Input, 4, 2, 0i32);
    let mut second = StreamState::new(2, 2, 1, Fixed::Input, 4, 2, 0i32);
    assert_eq!(first.load_chunk(&[vec![1, 2], vec![9, 9]], &wave_out, Some(&mask)), Ok(()));
    assert_eq!(second.load_chunk(&[vec![1, 2, 7], Vec::new()], &wave_out, Some(&mask)), Ok(()));
    assert_eq!(channel_of(&first, 0), channel_of(&second, 0));
    assert_eq!(channel_of(&first, 1), channel_of(&second, 1));
    assert_eq!(channel_of(&first, 0), vec![0, 0, 1, 2]);
}
