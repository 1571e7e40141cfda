use flt::kitty::{
    contains, graphics_query, opaque_black, probe_reply, rgba_bytes, transmit_commands, transmit_picture,
    ProbeReply,
};
use flt::log_window::LogWindow;
use flt::pixel::Pixel;

fn command(keys: &str, more: u8, payload: &[u8]) -> Vec<u8> {
    let mut out = b"\x1b_G".to_vec();
    out.extend_from_slice(keys.as_bytes());
    out.extend_from_slice(b",m=");
    out.push(more);
    out.push(b';');
    out.extend_from_slice(payload);
    out.extend_from_slice(b"\x1b\\");
    out
}

#[test]
fn one_pixel_picture_is_one_command_in_base64() {
    let rows = vec![vec![Pixel { r: 1, g: 2, b: 3, a: 4 }]];
    let stream = transmit_picture(&rows, 1, 1, 80, 20).unwrap();
    assert_eq!(stream, command("f=32,s=1,v=1,c=80,r=20,a=T,q=2", b'0', b"AQIDBA=="));
}

#[test]
fn long_text_is_sent_in_chunks() {
    let encoded = vec![b'A'; 5000];
    let stream = transmit_commands(&encoded, 12, 34, 5, 6);
    let mut expected = command("f=32,s=12,v=34,c=5,r=6,a=T,q=2", b'1', &encoded[..4096]);
    expected.extend(command("i=1", b'0', &encoded[4096..]));
    assert_eq!(stream, expected);
}

#[test]
fn empty_text_sends_nothing() {
    assert!(transmit_commands(&vec![], 0, 0, 1, 1).is_empty());
}

#[test]
fn rgba_bytes_run_row_after_row() {
    let rows = vec![vec![Pixel { r: 1, g: 2, b: 3, a: 4 }, opaque_black()], vec![Pixel::zero()]];
    assert_eq!(rgba_bytes(&rows), vec![1, 2, 3, 4, 0, 0, 0, 255, 0, 0, 0, 0]);
}

#[test]
fn query_names_its_id() {
    assert_eq!(graphics_query(), b"\x1b_Gi=31,a=q;\x1b\\".to_vec());
}

#[test]
fn replies_are_read_as_they_come() {
    assert_eq!(probe_reply(&b"\x1b_Gi=31;OK\x1b\\".to_vec()), ProbeReply::Supported);
    assert_eq!(probe_reply(&b"\x1b_Gi=3".to_vec()), ProbeReply::Pending);
    assert_eq!(probe_reply(&b"\x1b[?62c\x1b\\".to_vec()), ProbeReply::Unsupported);
    assert_eq!(probe_reply(&vec![]), ProbeReply::Pending);
}

#[test]
fn contains_finds_a_pattern_anywhere() {
    assert!(contains(&b"abcd".to_vec(), &b"cd".to_vec()));
    assert!(contains(&b"abcd".to_vec(), &vec![]));
    assert!(!contains(&b"abcd".to_vec(), &b"ce".to_vec()));
    assert!(!contains(&b"ab".to_vec(), &b"abc".to_vec()));
}

#[test]
fn log_window_keeps_the_last_four_messages() {
    let mut window = LogWindow::new();
    for i in 0..6 {
        window.log(format!("m{i}"));
    }
    let lines: Vec<String> = (0..5).filter_map(|i| window.line(i).cloned()).collect();
    assert_eq!(lines, vec!["m2", "m3", "m4", "m5"]);
}
