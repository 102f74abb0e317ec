use soundbar::audio::analyzer::shift_append;
use soundbar::audio::buffer::AudioRing;

#[test]
fn wraps_and_keeps_newest_samples() {
    let mut ring = AudioRing::new(4);

    ring.push_slice_lossy(&[1.0, 2.0, 3.0, 4.0, 5.0]);

    let mut out = [0.0; 4];
    let count = ring.pop_into(&mut out);

    assert_eq!(count, 3);
    assert_eq!(&out[..count], &[3.0, 4.0, 5.0]);
}

#[test]
fn empty_ring_pops_nothing_and_leaves_output_untouched() {
    let mut ring: AudioRing<f32> = AudioRing::new(8);
    let mut out = [9.0_f32; 3];
    assert_eq!(ring.pop_into(&mut out), 0);
    assert_eq!(out, [9.0, 9.0, 9.0]);
}

#[test]
fn pop_stops_at_output_length_and_keeps_the_rest_queued() {
    let mut ring = AudioRing::new(8);
    ring.push_slice_lossy(&[1, 2, 3, 4, 5]);
    let mut out = [0; 2];
    assert_eq!(ring.pop_into(&mut out), 2);
    assert_eq!(out, [1, 2]);
    let mut rest = [0; 8];
    assert_eq!(ring.pop_into(&mut rest), 3);
    assert_eq!(&rest[..3], &[3, 4, 5]);
    assert_eq!(&rest[3..], &[0, 0, 0, 0, 0]);
}

#[test]
fn single_pushes_overwrite_the_oldest_when_full() {
    let mut ring = AudioRing::new(3);
    for sample in 1..=6 {
        ring.push_lossy(sample);
    }
    let mut out = [0; 5];
    assert_eq!(ring.pop_into(&mut out), 2);
    assert_eq!(&out[..2], &[5, 6]);
}

#[test]
fn interleaved_reads_and_writes_wrap_around_the_slots() {
    let mut ring = AudioRing::new(4);
    let mut out = [0; 4];
    ring.push_slice_lossy(&[1, 2]);
    assert_eq!(ring.pop_into(&mut out[..1]), 1);
    assert_eq!(out[0], 1);
    ring.push_slice_lossy(&[3, 4]);
    ring.push_lossy(5);
    assert_eq!(ring.pop_into(&mut out), 3);
    assert_eq!(&out[..3], &[3, 4, 5]);
}

#[test]
fn batches_write_like_one_batch() {
    let mut split = AudioRing::new(5);
    split.push_slice_lossy(&[1, 2, 3]);
    split.push_slice_lossy(&[4, 5, 6, 7]);
    let mut whole = AudioRing::new(5);
    whole.push_slice_lossy(&[1, 2, 3, 4, 5, 6, 7]);
    let mut a = [0; 8];
    let mut b = [0; 8];
    assert_eq!(split.pop_into(&mut a), 4);
    assert_eq!(whole.pop_into(&mut b), 4);
    assert_eq!(a, b);
    assert_eq!(&a[..4], &[4, 5, 6, 7]);
}

#[test]
fn shift_append_keeps_the_window_length() {
    let mut window = [1.0_f32, 2.0, 3.0, 4.0];
    shift_append(&mut window, &[5.0, 6.0]);
    assert_eq!(window, [3.0, 4.0, 5.0, 6.0]);
}

#[test]
fn shift_append_with_more_than_the_window_keeps_the_newest() {
    let mut window = [0, 0, 0];
    shift_append(&mut window, &[1, 2, 3, 4, 5]);
    assert_eq!(window, [3, 4, 5]);
}

#[test]
fn shift_append_of_nothing_changes_nothing() {
    let mut window = [7, 8, 9];
    shift_append(&mut window, &[]);
    assert_eq!(window, [7, 8, 9]);
}

#[test]
fn shift_append_in_batches_matches_one_batch() {
    let mut a = [1, 2, 3, 4];
    shift_append(&mut a, &[5]);
    shift_append(&mut a, &[6, 7]);
    let mut b = [1, 2, 3, 4];
    shift_append(&mut b, &[5, 6, 7]);
    assert_eq!(a, b);
}
