use chunky::forward::{Demand, Forwarder, Phase, RELAY_BUFFER};
use chunky::fragment::fragment_record;

#[test]
fn relay_buffer_is_4096_bytes() {
    assert_eq!(RELAY_BUFFER, 4096);
}

#[test]
fn direction_without_interception_relays_at_once() {
    let f = Forwarder::new(false, 500);
    assert_eq!(f.phase, Phase::Relay);
    assert_eq!(f.wants(), Demand::Read(4096));
    let (f, out) = f.step(vec![0x16, 0x03, 0x01, 0x00, 0x02, 0xaa, 0xbb]);
    assert_eq!(out, vec![0x16, 0x03, 0x01, 0x00, 0x02, 0xaa, 0xbb]);
    assert_eq!(f.phase, Phase::Relay);
}

#[test]
fn interception_begins_with_three_bytes() {
    let f = Forwarder::new(true, 500);
    assert_eq!(f.phase, Phase::Intercept);
    assert_eq!(f.chunk_size, 500);
    assert_eq!(f.wants(), Demand::ReadExact(3));
}

#[test]
fn non_handshake_bytes_pass_unchanged() {
    let (f, out) = Forwarder::new(true, 500).step(vec![0x17, 0x03, 0x03]);
    assert_eq!(out, vec![0x17, 0x03, 0x03]);
    assert_eq!(f.phase, Phase::Relay);
    assert_eq!(f.wants(), Demand::Read(4096));
    // From here on nothing is looked at: a handshake record passes as it is.
    let record = vec![0x16, 0x03, 0x01, 0x00, 0x03, 1, 2, 3];
    let (f, out) = f.step(record.clone());
    assert_eq!(out, record);
    assert_eq!(f.phase, Phase::Relay);
}

#[test]
fn late_version_byte_passes_unchanged() {
    let (f, out) = Forwarder::new(true, 500).step(vec![0x16, 0x03, 0x04]);
    assert_eq!(out, vec![0x16, 0x03, 0x04]);
    assert_eq!(f.phase, Phase::Relay);
    let (f, out) = Forwarder::new(true, 2).step(vec![b'G', b'E', b'T']);
    assert_eq!(out, vec![b'G', b'E', b'T']);
    assert_eq!(f.phase, Phase::Relay);
}

#[test]
fn handshake_record_is_read_and_fragmented() {
    let f = Forwarder::new(true, 2);
    let (f, out) = f.step(vec![0x16, 0x03, 0x01]);
    assert!(out.is_empty());
    assert_eq!(f.phase, Phase::Length { header: [0x16, 0x03, 0x01] });
    assert_eq!(f.wants(), Demand::ReadExact(2));
    let (f, out) = f.step(vec![0x00, 0x05]);
    assert!(out.is_empty());
    assert_eq!(f.phase, Phase::Body { header: [0x16, 0x03, 0x01], length: 5 });
    assert_eq!(f.wants(), Demand::ReadExact(5));
    let (f, out) = f.step(vec![10, 20, 30, 40, 50]);
    assert_eq!(
        out,
        vec![
            0x16, 0x03, 0x01, 0, 2, 10, 20, 0x16, 0x03, 0x01, 0, 2, 30, 40, 0x16, 0x03, 0x01, 0,
            1, 50,
        ]
    );
    assert_eq!(f.phase, Phase::Relay);
    assert_eq!(f.wants(), Demand::Read(4096));
    // Only the first record is rewritten.
    let second = vec![0x16, 0x03, 0x01, 0x00, 0x03, 1, 2, 3];
    let (f, out) = f.step(second.clone());
    assert_eq!(out, second);
    assert_eq!(f.phase, Phase::Relay);
}

#[test]
fn length_is_read_high_byte_first() {
    let (f, _) = Forwarder::new(true, 500).step(vec![0x16, 0x03, 0x03]);
    let (f, _) = f.step(vec![0x01, 0x02]);
    assert_eq!(f.phase, Phase::Body { header: [0x16, 0x03, 0x03], length: 258 });
    assert_eq!(f.wants(), Demand::ReadExact(258));
    let (f, _) = Forwarder::new(true, 500).step(vec![0x16, 0x03, 0x03]);
    let (f, _) = f.step(vec![0xff, 0xff]);
    assert_eq!(f.wants(), Demand::ReadExact(65535));
    let body = vec![0x5a; 65535];
    let (f, out) = f.step(body.clone());
    assert_eq!(out, fragment_record(&[0x16, 0x03, 0x03], &body, 500));
    assert_eq!(f.phase, Phase::Relay);
}

#[test]
fn empty_handshake_record_leaves_nothing() {
    let (f, _) = Forwarder::new(true, 500).step(vec![0x16, 0x03, 0x01]);
    let (f, _) = f.step(vec![0, 0]);
    assert_eq!(f.wants(), Demand::ReadExact(0));
    let (f, out) = f.step(vec![]);
    assert!(out.is_empty());
    assert_eq!(f.phase, Phase::Relay);
}

#[test]
fn relay_writes_what_it_reads_until_the_peer_closes() {
    let mut f = Forwarder::new(false, 500);
    let mut written = Vec::new();
    let reads: Vec<Vec<u8>> = vec![vec![1, 2, 3], vec![4], vec![5; 4096], vec![6, 7]];
    for read in reads.iter() {
        assert_eq!(f.wants(), Demand::Read(4096));
        let (next, out) = f.step(read.clone());
        written.extend_from_slice(&out);
        f = next;
    }
    assert_eq!(written, reads.concat());
    let (f, out) = f.step(vec![]);
    assert!(out.is_empty());
    assert_eq!(f.phase, Phase::Closed);
    assert_eq!(f.wants(), Demand::Shutdown);
}

#[test]
fn short_reads_fail_the_direction() {
    let (f, out) = Forwarder::new(true, 500).step(vec![0x16, 0x03]);
    assert!(out.is_empty());
    assert_eq!(f.phase, Phase::Failed);
    assert_eq!(f.wants(), Demand::Fail);
    let (f, _) = Forwarder::new(true, 500).step(vec![]);
    assert_eq!(f.phase, Phase::Failed);
    let (f, _) = Forwarder::new(true, 500).step(vec![0x16, 0x03, 0x01, 0x00]);
    assert_eq!(f.phase, Phase::Failed);

    let (f, _) = Forwarder::new(true, 500).step(vec![0x16, 0x03, 0x01]);
    let (f, out) = f.step(vec![0x00]);
    assert!(out.is_empty());
    assert_eq!(f.phase, Phase::Failed);

    let (f, _) = Forwarder::new(true, 500).step(vec![0x16, 0x03, 0x01]);
    let (f, _) = f.step(vec![0x00, 0x04]);
    let (f, out) = f.step(vec![1, 2, 3]);
    assert!(out.is_empty());
    assert_eq!(f.phase, Phase::Failed);
    assert_eq!(f.wants(), Demand::Fail);
}

#[test]
fn record_cannot_be_cut_into_pieces_of_no_bytes() {
    let (f, _) = Forwarder::new(true, 0).step(vec![0x16, 0x03, 0x01]);
    let (f, _) = f.step(vec![0x00, 0x02]);
    let (f, out) = f.step(vec![1, 2]);
    assert!(out.is_empty());
    assert_eq!(f.phase, Phase::Failed);
    // Without a handshake record the chunk size is never used.
    let (f, out) = Forwarder::new(true, 0).step(vec![0x17, 0x03, 0x03]);
    assert_eq!(out, vec![0x17, 0x03, 0x03]);
    assert_eq!(f.phase, Phase::Relay);
}

#[test]
fn ended_directions_stay_ended() {
    let (f, _) = Forwarder::new(false, 500).step(vec![]);
    assert_eq!(f.phase, Phase::Closed);
    let (f, out) = f.step(vec![1, 2, 3]);
    assert!(out.is_empty());
    assert_eq!(f.phase, Phase::Closed);
    let (f, _) = Forwarder::new(true, 500).step(vec![1]);
    assert_eq!(f.phase, Phase::Failed);
    let (f, out) = f.step(vec![0x16, 0x03, 0x01]);
    assert!(out.is_empty());
    assert_eq!(f.phase, Phase::Failed);
}
