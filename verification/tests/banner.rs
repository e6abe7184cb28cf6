use subnet_scan::banner::{banner_text, probe_line, ReadStatus, CR, LF};
use subnet_scan::randomizer::Rand;

#[test]
fn probe_line_is_the_probe_followed_by_crlf() {
    let mut rng = Rand::from_seed(1);
    assert_eq!(probe_line(&mut rng), b"vF?$V\r\n".to_vec());
    assert_eq!(rng.state(), 109);
    let mut rng = Rand::from_seed(42);
    let line = probe_line(&mut rng);
    assert_eq!(line.len(), 7);
    assert_eq!(&line[..5], b"YJ45=");
    assert_eq!(line[5], CR);
    assert_eq!(line[6], LF);
}

#[test]
fn probe_lines_differ_from_one_to_the_next() {
    let mut rng = Rand::from_seed(7);
    let a = probe_line(&mut rng);
    let b = probe_line(&mut rng);
    assert_ne!(a, b);
}

#[test]
fn banner_is_the_text_received_until_the_peer_closed() {
    let bytes = b"SSH-2.0-OpenSSH_9.6\r\n".to_vec();
    assert_eq!(banner_text(ReadStatus::PeerClosed, &bytes), "SSH-2.0-OpenSSH_9.6\r\n");
}

#[test]
fn banner_keeps_what_arrived_before_the_timeout() {
    let bytes = b"220 mail ready".to_vec();
    assert_eq!(banner_text(ReadStatus::TimedOut, &bytes), "220 mail ready");
}

#[test]
fn banner_is_empty_when_nothing_arrived() {
    assert_eq!(banner_text(ReadStatus::TimedOut, &Vec::new()), "");
    assert_eq!(banner_text(ReadStatus::PeerClosed, &Vec::new()), "");
}

#[test]
fn banner_is_empty_when_the_read_failed() {
    assert_eq!(banner_text(ReadStatus::Failed, &b"partial".to_vec()), "");
    assert_eq!(banner_text(ReadStatus::Failed, &Vec::new()), "");
}

#[test]
fn ill_formed_bytes_are_replaced_not_rejected() {
    let bytes = vec![0xff, b'h', b'i', 0xc3];
    assert_eq!(banner_text(ReadStatus::PeerClosed, &bytes), "\u{fffd}hi\u{fffd}");
    let bytes = vec![0xe2, 0x82];
    assert_eq!(banner_text(ReadStatus::TimedOut, &bytes), "\u{fffd}");
}

#[test]
fn well_formed_utf8_is_decoded_as_it_stands() {
    let text = "gr\u{fc}\u{df} dich \u{2603} \u{1f600}";
    assert_eq!(banner_text(ReadStatus::PeerClosed, &text.as_bytes().to_vec()), text);
}
