use ftdi_nusb::{read_transfer_size, strip_modem_status, strip_modem_status_to_vec};

#[test]
fn read_transfer_size_accounts_for_status_bytes() {
    assert_eq!(read_transfer_size(2040, 4096, 512), Some(2048));
    assert_eq!(read_transfer_size(4080, 4096, 512), Some(4096));
    assert_eq!(read_transfer_size(4081, 4096, 512), Some(4096));
    assert_eq!(read_transfer_size(4096, 4096, 512), Some(4096));
}

#[test]
fn read_transfer_size_rounds_configured_size_to_packets() {
    assert_eq!(read_transfer_size(1, 4097, 512), Some(512));
}

#[test]
fn read_transfer_size_edge_cases() {
    // A chunk size of 0 still asks for one packet.
    assert_eq!(read_transfer_size(1000, 0, 64), Some(64));
    assert_eq!(read_transfer_size(0, 4096, 64), Some(0));
    assert_eq!(read_transfer_size(10_000, 4097, 512), Some(4608));
    assert_eq!(read_transfer_size(1, 64, 1), None);
    assert_eq!(read_transfer_size(1, 64, 0), None);
    assert_eq!(read_transfer_size(usize::MAX, 64, 64), None);
    assert_eq!(read_transfer_size(1, usize::MAX, 64), None);
    assert_eq!(read_transfer_size(usize::MAX / 2, usize::MAX / 2, 64), None);
}

#[test]
fn strip_modem_status_single_packet() {
    let mut data = vec![0u8; 64];
    data[0] = 0x01;
    data[1] = 0x60;
    for (i, byte) in data.iter_mut().enumerate().take(64).skip(2) {
        *byte = i as u8;
    }

    let stripped = strip_modem_status(&mut data, 64);
    assert_eq!(stripped, 62);
    for (i, byte) in data.iter().enumerate().take(62) {
        assert_eq!(*byte, (i + 2) as u8);
    }
}

#[test]
fn strip_modem_status_multiple_packets() {
    let packet_size = 8;
    let mut data = vec![
        0xAA, 0xBB, 2, 3, 4, 5, 6, 7, 0xCC, 0xDD, 10, 11, 12, 13, 14, 15,
    ];

    let stripped = strip_modem_status(&mut data, packet_size);
    assert_eq!(stripped, 12);
    assert_eq!(&data[..12], &[2, 3, 4, 5, 6, 7, 10, 11, 12, 13, 14, 15]);
}

#[test]
fn strip_modem_status_short() {
    let mut data = vec![0x01, 0x60];
    assert_eq!(strip_modem_status(&mut data, 64), 0);
}

#[test]
fn strip_modem_status_empty() {
    let mut data: Vec<u8> = vec![];
    assert_eq!(strip_modem_status(&mut data, 64), 0);
}

#[test]
fn strip_modem_status_short_last_packet() {
    let raw = vec![0x01, 0x60, 1, 2, 0x01, 0x60, 3, 4, 0x01, 0x60];
    let mut data = raw.clone();
    assert_eq!(strip_modem_status(&mut data, 4), 4);
    assert_eq!(&data[..4], &[1, 2, 3, 4]);
    assert_eq!(&data[4..], &raw[4..]);
    assert_eq!(strip_modem_status_to_vec(&raw, 4), vec![1, 2, 3, 4]);
}

#[test]
fn both_ways_of_stripping_agree() {
    for packet_size in 1..12 {
        for len in 0..40u8 {
            let raw: Vec<u8> = (0..len).collect();
            let mut data = raw.clone();
            let stripped = strip_modem_status(&mut data, packet_size);
            assert_eq!(&data[..stripped], &strip_modem_status_to_vec(&raw, packet_size)[..]);
        }
    }
}
