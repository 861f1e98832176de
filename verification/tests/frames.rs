use b10x_mcp::error::ClientError;
use b10x_mcp::frames::FrameMeter;

#[test]
fn messages_are_counted_between_newlines() {
    let mut meter = FrameMeter::new(3);
    assert!(meter.absorb(b"abc\nabc\n\nab").is_ok());
    assert!(meter.absorb(b"").is_ok());
    assert!(meter.absorb(b"c").is_ok());
    assert_eq!(
        meter.absorb(b"d").unwrap_err(),
        ClientError::Bound { name: "max_frame_bytes", actual: 4, limit: 3 }
    );
    assert!(meter.absorb(b"\nabc").is_ok());
    assert!(meter.absorb(b"\nabcd").is_err());
    assert!(FrameMeter::new(0).absorb(b"\n\n").is_ok());
    assert!(FrameMeter::new(0).absorb(b"a").is_err());
    assert!(FrameMeter::new(usize::MAX).absorb(b"abc").is_ok());
}

#[test]
fn cutting_a_stream_changes_nothing() {
    let stream = b"ab\ncde\nf";
    for cut in 0..=stream.len() {
        let mut meter = FrameMeter::new(3);
        assert!(meter.absorb(&stream[..cut]).is_ok());
        assert!(meter.absorb(&stream[cut..]).is_ok());
        assert!(meter.absorb(b"gh").is_ok());
        assert!(meter.absorb(b"i").is_err());
    }
}
