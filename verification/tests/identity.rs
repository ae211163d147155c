use ftdi_nusb::{
    detect_chip_type, determine_max_packet_size, next_device_id, ChipType, FtdiDevice, Interface,
    RecoveryGuard,
};

#[test]
fn recovery_guard_marks_cancelled_operation_dirty() {
    let mut recovery_required = false;
    RecoveryGuard::new().release(&mut recovery_required);
    assert!(recovery_required);
}

#[test]
fn disarmed_recovery_guard_leaves_device_ready() {
    let mut recovery_required = false;
    let mut guard = RecoveryGuard::new();
    guard.disarm();
    guard.release(&mut recovery_required);
    assert!(!recovery_required);
}

#[test]
fn detect_chip_type_known_versions() {
    assert_eq!(detect_chip_type(0x0400, false), ChipType::Bm);
    assert_eq!(detect_chip_type(0x0200, true), ChipType::Am);
    assert_eq!(detect_chip_type(0x0200, false), ChipType::Bm);
    assert_eq!(detect_chip_type(0x0500, false), ChipType::Ft2232C);
    assert_eq!(detect_chip_type(0x0600, false), ChipType::Ft232R);
    assert_eq!(detect_chip_type(0x0700, false), ChipType::Ft2232H);
    assert_eq!(detect_chip_type(0x0800, false), ChipType::Ft4232H);
    assert_eq!(detect_chip_type(0x0900, false), ChipType::Ft232H);
    assert_eq!(detect_chip_type(0x1000, false), ChipType::Ft230X);
}

#[test]
fn detect_chip_type_other_versions() {
    assert_eq!(detect_chip_type(0x3000, true), ChipType::Ft2232H);
    assert_eq!(detect_chip_type(0x0000, true), ChipType::Bm);
    assert_eq!(detect_chip_type(0x2800, false), ChipType::Bm);
}

/// A configuration descriptor with interface 0 (no endpoints in alternate
/// setting 0, packet size 512 in alternate setting 1) and interface 1 (packet
/// size 64).
fn configuration() -> Vec<u8> {
    let mut bytes = vec![9, 2, 0, 0, 2, 1, 0, 0x80, 50];
    bytes.extend_from_slice(&[9, 4, 0, 0, 0, 0xFF, 0xFF, 0xFF, 0]);
    bytes.extend_from_slice(&[9, 4, 0, 1, 2, 0xFF, 0xFF, 0xFF, 0]);
    bytes.extend_from_slice(&[7, 5, 0x81, 2, 0x00, 0x02, 0]);
    bytes.extend_from_slice(&[7, 5, 0x02, 2, 0x40, 0x00, 0]);
    bytes.extend_from_slice(&[9, 4, 1, 0, 1, 0xFF, 0xFF, 0xFF, 0]);
    bytes.extend_from_slice(&[7, 5, 0x83, 2, 0x40, 0x00, 0]);
    bytes[2] = bytes.len() as u8;
    bytes
}

#[test]
fn packet_size_comes_from_the_configuration() {
    let bytes = configuration();
    assert_eq!(determine_max_packet_size(Some(&bytes), ChipType::Bm, 0), 512);
    assert_eq!(determine_max_packet_size(Some(&bytes), ChipType::Ft2232H, 1), 64);
}

#[test]
fn packet_size_has_a_default() {
    let bytes = configuration();
    assert_eq!(determine_max_packet_size(Some(&bytes), ChipType::Ft4232H, 2), 512);
    assert_eq!(determine_max_packet_size(Some(&bytes), ChipType::Ft232R, 2), 64);
    assert_eq!(determine_max_packet_size(Some(&[]), ChipType::Ft232H, 0), 512);
    assert_eq!(determine_max_packet_size(Some(&bytes[..20]), ChipType::Ft230X, 0), 64);
    assert_eq!(determine_max_packet_size(None, ChipType::Ft2232C, 0), 64);
}

#[test]
fn opened_device_has_defaults() {
    let bytes = configuration();
    let device = FtdiDevice::from_open_device(0x0700, true, Some(&bytes), Interface::B, 7);
    assert_eq!(device.chip_type(), ChipType::Ft2232H);
    assert_eq!(device.max_packet_size(), 64);
    assert_eq!(device.interface_num(), 1);
    assert_eq!(device.usb_index(), 2);
    assert_eq!(device.baudrate(), 0);
    assert!(!device.bitbang_enabled());
    assert_eq!(device.read_timeout(), std::time::Duration::from_secs(5));
    assert_eq!(device.write_timeout(), std::time::Duration::from_secs(5));
    assert_eq!(device.read_chunksize(), 4096);
    assert_eq!(device.write_chunksize(), 4096);
    assert_eq!(device.recovery_epoch(), 0);
    assert_eq!(device.device_id(), 7);
    assert!(device.ensure_ready().is_ok());
}

#[test]
fn single_channel_chips_use_index_zero() {
    let device = FtdiDevice::from_open_device(0x0600, true, None, Interface::A, 0);
    assert_eq!(device.chip_type(), ChipType::Ft232R);
    assert_eq!(device.usb_index(), 0);
}

#[test]
fn interfaces_have_their_addresses() {
    let any = Interface::Any.config();
    assert_eq!((any.interface_num, any.usb_index, any.write_ep, any.read_ep), (0, 1, 0x02, 0x81));
    let d = Interface::D.config();
    assert_eq!((d.interface_num, d.usb_index, d.write_ep, d.read_ep), (3, 4, 0x08, 0x87));
    assert_eq!(Interface::A.config(), Interface::Any.config());
}

#[test]
fn device_ids_count_up_and_run_round() {
    let mut next = u64::MAX - 1;
    assert_eq!(next_device_id(&mut next), u64::MAX - 1);
    assert_eq!(next_device_id(&mut next), u64::MAX);
    assert_eq!(next_device_id(&mut next), 0);
    assert_eq!(next, 1);
}

#[test]
fn disarmed_guard_does_not_make_a_device_ready() {
    let mut recovery_required = true;
    let mut guard = RecoveryGuard::new();
    guard.disarm();
    guard.release(&mut recovery_required);
    assert!(recovery_required);
}
