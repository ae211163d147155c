use std::time::Duration;

use ftdi_nusb::{
    byte_reply, modem_status_reply, transferred, BreakType, ControlIn, ControlOut, DataBits, Error,
    FlowControl, FtdiDevice, Interface, Parity, StopBits,
};
use nusb::transfer::TransferError;

fn device() -> FtdiDevice {
    let mut device = FtdiDevice::from_open_device(0x0700, true, None, Interface::B, 0);
    device.set_write_timeout(Duration::from_millis(11));
    device.set_read_timeout(Duration::from_millis(22));
    device
}

fn out(request: u8, value: u16, index: u16) -> ControlOut {
    ControlOut { request, value, index, timeout: Duration::from_millis(11) }
}

fn asks(request: u8, length: u16) -> ControlIn {
    ControlIn { request, value: 0, index: 2, length, timeout: Duration::from_millis(22) }
}

#[test]
fn line_properties_are_packed() {
    let device = device();
    let plain = device.set_line_property(DataBits::Eight, StopBits::One, Parity::NoParity);
    assert_eq!(plain.unwrap(), out(4, 0x0008, 2));
    let all = device.set_line_property_with_break(
        DataBits::Seven,
        StopBits::Two,
        Parity::Space,
        BreakType::On,
    );
    assert_eq!(all.unwrap(), out(4, 0x5407, 2));
}

#[test]
fn flow_control_requests() {
    let device = device();
    assert_eq!(device.set_flow_control(FlowControl::Disabled).unwrap(), out(2, 0, 0x0002));
    assert_eq!(device.set_flow_control(FlowControl::RtsCts).unwrap(), out(2, 0, 0x0102));
    assert_eq!(device.set_flow_control(FlowControl::DtrDsr).unwrap(), out(2, 0, 0x0202));
    assert_eq!(device.set_flow_control_xonxoff(0x11, 0x13).unwrap(), out(2, 0x1311, 0x0402));
}

#[test]
fn modem_lines_and_special_characters() {
    let device = device();
    assert_eq!(device.set_dtr(true).unwrap(), out(1, 0x0101, 2));
    assert_eq!(device.set_dtr(false).unwrap(), out(1, 0x0100, 2));
    assert_eq!(device.set_rts(true).unwrap(), out(1, 0x0202, 2));
    assert_eq!(device.set_rts(false).unwrap(), out(1, 0x0200, 2));
    assert_eq!(device.set_dtr_rts(true, false).unwrap(), out(1, 0x0301, 2));
    assert_eq!(device.set_dtr_rts(true, true).unwrap(), out(1, 0x0303, 2));
    assert_eq!(device.set_event_char(0x0D, true).unwrap(), out(6, 0x010D, 2));
    assert_eq!(device.set_error_char(0x3F, false).unwrap(), out(7, 0x003F, 2));
    assert_eq!(device.flush_tx().unwrap(), out(0, 1, 2));
}

#[test]
fn questions_to_the_device() {
    let device = device();
    assert_eq!(device.poll_modem_status().unwrap(), asks(5, 2));
    assert_eq!(device.latency_timer().unwrap(), asks(0x0A, 1));
    assert_eq!(device.read_pins().unwrap(), asks(0x0C, 1));
    assert_eq!(device.is_connected(), Some(asks(0x0A, 1)));
}

#[test]
fn answers_of_the_device() {
    assert_eq!(modem_status_reply(Ok(vec![0x34, 0x12])).unwrap().raw, 0x1234);
    assert!(matches!(modem_status_reply(Ok(vec![0x34])), Err(Error::DeviceUnavailable)));
    assert!(matches!(
        modem_status_reply(Err(TransferError::Stall)),
        Err(Error::Transfer(TransferError::Stall))
    ));
    assert_eq!(byte_reply(Ok(vec![16])).unwrap(), 16);
    assert!(matches!(byte_reply(Ok(vec![])), Err(Error::DeviceUnavailable)));
    assert!(matches!(
        byte_reply(Err(TransferError::Disconnected)),
        Err(Error::Transfer(TransferError::Disconnected))
    ));
    assert!(matches!(transferred(Ok(3)), Ok(3)));
}

#[test]
fn latency_timer_settles() {
    let device = device();
    let short = device.set_latency_timer(16).unwrap();
    assert_eq!(short.request, out(9, 16, 2));
    assert_eq!(short.settle_ms, 16);
    assert_eq!(device.set_latency_timer(50).unwrap().settle_ms, 50);
    assert_eq!(device.set_latency_timer(255).unwrap().settle_ms, 50);
    assert!(matches!(
        device.set_latency_timer(0),
        Err(Error::InvalidArgument("latency must be between 1 and 255"))
    ));
}

#[test]
fn poisoned_device_sends_no_request() {
    let mut device = device();
    device.mark_recovery_required();
    assert!(matches!(device.control_out(0, 0, 0), Err(Error::RecoveryRequired)));
    assert!(matches!(device.control_in(0, 0, 0, 1), Err(Error::RecoveryRequired)));
    assert!(matches!(device.set_dtr(true), Err(Error::RecoveryRequired)));
    assert!(matches!(device.set_latency_timer(1), Err(Error::RecoveryRequired)));
    assert!(matches!(device.set_latency_timer(0), Err(Error::InvalidArgument(_))));
    assert!(device.is_connected().is_none());
}
