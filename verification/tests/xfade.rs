use popback::xfade::SwapPair;

fn run(pair: &mut SwapPair, inputs: &[u32]) -> Vec<u32> {
    inputs.iter().map(|&input| pair.step(input).0).collect()
}

#[test]
fn first_block_plays_back_silence() {
    let mut pair = SwapPair::new(4);
    let out = run(&mut pair, &[1, 2, 3, 4]);
    assert_eq!(out, vec![0, 0, 0, 0]);
}

#[test]
fn next_block_replays_previous_block_reversed() {
    // L = 4, a fade weight pinned at its floor of 1 and unit wet gain make
    // the raw wet samples the output: recording [1,2,3,4] must come back as
    // [4,3,2,1] on the following pass.
    let a: Vec<u32> = [1.0f32, 2.0, 3.0, 4.0].iter().map(|s| s.to_bits()).collect();
    let b: Vec<u32> = [5.0f32, 6.0, 7.0, 8.0].iter().map(|s| s.to_bits()).collect();
    let mut pair = SwapPair::new(4);
    run(&mut pair, &a);
    let out = run(&mut pair, &b);
    let reversed: Vec<u32> = a.iter().rev().cloned().collect();
    assert_eq!(out, reversed);
    // And the block recorded meanwhile comes back reversed in its turn.
    let out2 = run(&mut pair, &[0, 0, 0, 0]);
    let reversed_b: Vec<u32> = b.iter().rev().cloned().collect();
    assert_eq!(out2, reversed_b);
}

#[test]
fn step_reports_block_offset() {
    let mut pair = SwapPair::new(2);
    assert_eq!(pair.step(1).1, 0);
    assert_eq!(pair.step(2).1, 1);
    // The boundary step swaps roles and starts over at offset zero.
    assert_eq!(pair.step(3).1, 0);
}

#[test]
fn resize_resets_and_discards_in_flight_recording() {
    let mut pair = SwapPair::new(4);
    run(&mut pair, &[1, 2, 3, 4]);
    run(&mut pair, &[5, 6]);
    pair.resize(2);
    assert_eq!(pair.len(), 2);
    // Both surfaces kept their leading two samples; the cursor restarted,
    // so the truncated playback surface [1, 2] plays back reversed.
    let out = run(&mut pair, &[9, 9]);
    assert_eq!(out, vec![2, 1]);
}
