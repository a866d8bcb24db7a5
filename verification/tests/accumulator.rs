use pulse_doppler::InputBuffer;
use rustfft::num_complex::Complex32;

fn reals(values: impl Iterator<Item = f32>) -> Vec<Complex32> {
    values.map(|v| Complex32::new(v, 0.0)).collect()
}

#[test]
fn test_input_buffer() {
    let mut buffer = InputBuffer::new(512);
    let chunk1: Vec<Complex32> = reals((0..128).map(|x| (x * 10 + 1) as f32));
    let chunk2: Vec<Complex32> = reals((0..128).map(|x| (x * 10 + 2) as f32));
    let chunk3: Vec<Complex32> = reals((0..(256 + 10)).map(|x| (x * 10 + 3) as f32));
    let chunk4: Vec<Complex32> = reals((0..128).map(|x| (x * 10 + 4) as f32));
    let chunk5: Vec<Complex32> = reals((0..128 * 3).map(|x| (x * 10 + 5) as f32));

    let r1 = buffer.handle_input(&chunk1);
    assert_eq!(r1, None);
    let r2 = buffer.handle_input(&chunk2);
    assert_eq!(r2, None);

    let r3 = buffer.handle_input(&chunk3);
    let full_buffer = r3.unwrap();
    assert_eq!(full_buffer.len(), 512);
    assert_eq!(full_buffer[0..128], chunk1);
    assert_eq!(full_buffer[128..256], chunk2);
    assert_eq!(full_buffer[256..512], chunk3[0..256]);
    assert_eq!(buffer.buffered_len(), 512 + 10);

    let r4 = buffer.handle_input(&chunk4);
    assert_eq!(r4, None);
    let r5 = buffer.handle_input(&chunk5);
    let full_buffer = r5.unwrap();
    assert_eq!(full_buffer.len(), 512);
    assert_eq!(full_buffer[0..10], chunk3[256..256 + 10]);
    assert_eq!(full_buffer[10..128 + 10], chunk4);
    assert_eq!(full_buffer[128 + 10..512], chunk5[0..128 * 3 - 10]);
}

#[test]
fn oversized_chunk_emits_immediately() {
    let mut buffer = InputBuffer::new(4);
    let big: Vec<Complex32> = reals((0..7).map(|x| x as f32));
    let frame = buffer.handle_input(&big).unwrap();
    assert_eq!(frame.len(), 4);
    assert_eq!(frame[..], big[0..4]);
    assert_eq!(buffer.buffered_len(), 7);
    // The next call first discards the oldest frame's worth of samples.
    let more: Vec<Complex32> = reals((10..11).map(|x| x as f32));
    let frame = buffer.handle_input(&more).unwrap();
    assert_eq!(frame[0..3], big[4..7]);
    assert_eq!(frame[3], Complex32::new(10.0, 0.0));
}
