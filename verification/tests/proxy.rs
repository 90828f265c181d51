use rook::proxy::{drain_progress_lines, progress_line_ends};

#[test]
fn progress_end_lines() {
    assert!(progress_line_ends("progress=end"));
    assert!(progress_line_ends("progress= end \t"));
    assert!(!progress_line_ends("progress=continue"));
    assert!(!progress_line_ends("progress=ending"));
    assert!(!progress_line_ends("frame=12"));
    assert!(!progress_line_ends("progress"));
}

#[test]
fn complete_lines_are_taken_and_the_rest_kept() {
    let mut buf = b"frame=1\nprogress=continue\nout_time=00:0".to_vec();
    assert!(!drain_progress_lines(&mut buf));
    assert_eq!(buf, b"out_time=00:0".to_vec());
    buf.extend_from_slice(b"1\nprogress=end\n");
    assert!(drain_progress_lines(&mut buf));
    assert!(buf.is_empty());
}

#[test]
fn end_in_a_partial_line_does_not_count_yet() {
    let mut buf = b"progress=end".to_vec();
    assert!(!drain_progress_lines(&mut buf));
    assert_eq!(buf, b"progress=end".to_vec());
}
