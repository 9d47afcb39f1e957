use popback::delay::DelayLine;

// With a feedback factor of zero the committed sample is the raw input, so
// the line is a pure delay: the tap at step i returns input i - L.
fn run_pure(line: &mut DelayLine, inputs: &[u32]) -> Vec<u32> {
    let mut out = Vec::new();
    for &input in inputs {
        let popped = line.tap();
        if line.len() > 0 {
            line.commit(input);
        }
        out.push(popped);
    }
    out
}

#[test]
fn pure_delay_shifts_by_length() {
    let mut line = DelayLine::new(3);
    let inputs: Vec<u32> = (1..=8).collect();
    let out = run_pure(&mut line, &inputs);
    assert_eq!(out, vec![0, 0, 0, 1, 2, 3, 4, 5]);
}

#[test]
fn bypassed_line_taps_silence() {
    // A length-zero line holds nothing: nothing reaches the wet path, so
    // the output is the dry signal alone.
    let mut line = DelayLine::new(0);
    let out = run_pure(&mut line, &[7, 8, 9]);
    assert_eq!(out, vec![0, 0, 0]);
}

#[test]
fn impulse_reappears_after_hundred_ms() {
    // Sample rate 44100, delay length 100 ms = 4410 samples, feedback zero:
    // a unit impulse at t = 0 must reappear exactly once, at t = 4410.
    let length = 4410;
    let one = 1.0f32.to_bits();
    let zero = 0.0f32.to_bits();
    let mut line = DelayLine::new(length);
    let mut inputs = vec![zero; 3 * length];
    inputs[0] = one;
    let out = run_pure(&mut line, &inputs);
    for (i, &s) in out.iter().enumerate() {
        if i == length {
            assert_eq!(s, one);
        } else {
            assert_eq!(f32::from_bits(s), 0.0);
        }
    }
}

#[test]
fn resize_resets_cursor_and_keeps_prefix() {
    let mut line = DelayLine::new(4);
    run_pure(&mut line, &[1, 2, 3, 4]);
    // The ring now holds [1, 2, 3, 4] with the cursor back at the start.
    line.resize(2);
    assert_eq!(line.len(), 2);
    // After the resize the kept samples [1, 2] read back first, exactly as
    // if they had just been committed: the cursor was reset to the start.
    let out = run_pure(&mut line, &[10, 20, 30, 40]);
    assert_eq!(out, vec![1, 2, 10, 20]);
}

#[test]
fn resize_grows_with_silence() {
    let mut line = DelayLine::new(1);
    run_pure(&mut line, &[5]);
    line.resize(3);
    assert_eq!(line.len(), 3);
    let out = run_pure(&mut line, &[10, 20, 30, 40]);
    // Kept sample first, then the padded silence, then the new stream.
    assert_eq!(out, vec![5, 0, 0, 10]);
}

#[test]
fn resize_to_zero_bypasses() {
    let mut line = DelayLine::new(3);
    run_pure(&mut line, &[1, 2, 3]);
    line.resize(0);
    assert_eq!(line.len(), 0);
    let out = run_pure(&mut line, &[6, 7]);
    assert_eq!(out, vec![0, 0]);
}
