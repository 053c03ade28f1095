use jpeg2k::WrappedSlice;

#[test]
fn reads_in_chunks_until_the_end() {
    let src = [1u8, 2, 3, 4, 5];
    let mut s = WrappedSlice::new(&src);
    assert_eq!(s.remaining(), 5);
    let mut out = [0u8; 3];
    assert_eq!(s.read_into(&mut out), 3);
    assert_eq!(out, [1, 2, 3]);
    assert_eq!(s.remaining(), 2);
    let mut out = [9u8; 3];
    assert_eq!(s.read_into(&mut out), 2);
    assert_eq!(out, [4, 5, 9]);
    assert_eq!(s.remaining(), 0);
}

#[test]
fn read_after_end_returns_zero_and_leaves_buffer() {
    let src = [7u8, 8];
    let mut s = WrappedSlice::new(&src);
    let mut out = [0u8; 4];
    assert_eq!(s.read_into(&mut out), 2);
    let mut out = [42u8; 4];
    assert_eq!(s.read_into(&mut out), 0);
    assert_eq!(out, [42, 42, 42, 42]);
    assert_eq!(s.read_into(&mut out), 0);
    assert_eq!(out, [42, 42, 42, 42]);
}

#[test]
fn zero_length_reads_are_no_ops() {
    let src = [1u8, 2, 3];
    let mut s = WrappedSlice::new(&src);
    let mut out: [u8; 0] = [];
    assert_eq!(s.read_into(&mut out), 0);
    assert_eq!(s.read_into(&mut out), 0);
    assert_eq!(s.remaining(), 3);
}

#[test]
fn skip_is_clamped_to_the_end() {
    let src = [0u8; 10];
    let mut s = WrappedSlice::new(&src);
    assert_eq!(s.skip_by(4), 4);
    assert_eq!(s.skip_by(0), 4);
    assert_eq!(s.skip_by(100), 10);
    assert_eq!(s.remaining(), 0);
    let mut s = WrappedSlice::new(&src);
    assert_eq!(s.skip_by(-1), 10);
    let mut s = WrappedSlice::new(&src);
    assert_eq!(s.consume(usize::MAX), 10);
}

#[test]
fn seek_reports_whether_the_position_was_reached() {
    let src = [5u8, 6, 7, 8];
    let mut s = WrappedSlice::new(&src);
    assert!(s.seek_to(2));
    let mut out = [0u8; 1];
    assert_eq!(s.read_into(&mut out), 1);
    assert_eq!(out, [7]);
    assert!(s.seek_to(4));
    assert_eq!(s.remaining(), 0);
    assert!(!s.seek_to(5));
    assert_eq!(s.remaining(), 0);
    assert!(s.seek_to(0));
    assert_eq!(s.remaining(), 4);
    assert!(!s.seek_to(-3));
    assert_eq!(s.remaining(), 0);
    assert_eq!(s.seek(1), 1);
    assert_eq!(s.seek(99), 4);
}

#[test]
fn mixed_operations_never_pass_the_end() {
    let src: Vec<u8> = (0..50).collect();
    let mut s = WrappedSlice::new(&src);
    let mut out = [0u8; 7];
    for step in 0..40i64 {
        match step % 3 {
            0 => {
                s.read_into(&mut out);
            }
            1 => {
                let pos = s.skip_by(step * 3 - 20);
                assert!(pos <= 50);
            }
            _ => {
                s.seek_to(step * 2 - 10);
            }
        }
        assert!(s.remaining() <= 50);
    }
}
