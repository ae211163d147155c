use ftdi_nusb::{
    DeviceFilter, Error, FtdiDevice, Interface, ListedDevice, SearchStep, StringKind, StringRead,
};

fn listed() -> Vec<ListedDevice> {
    let entry = |vendor_id, product_id, busnum, device_address| ListedDevice {
        vendor_id,
        product_id,
        busnum,
        device_address,
    };
    vec![
        entry(0x1234, 0x6001, 1, 1),
        entry(0x0403, 0x6001, 1, 2),
        entry(0x0403, 0x6010, 2, 1),
        entry(0x0403, 0x6001, 2, 2),
        entry(0x0403, 0x6001, 3, 1),
    ]
}

#[test]
fn open_finds_the_first_device() {
    assert!(matches!(
        FtdiDevice::open(&listed(), 0x0403, 0x6001),
        Ok((1, Interface::Any))
    ));
    assert_eq!(Interface::Any.config(), Interface::A.config());
    assert!(matches!(
        FtdiDevice::open(&listed(), 0x0403, 0x6014),
        Err(Error::DeviceNotFound)
    ));
    assert!(matches!(
        FtdiDevice::open_with_interface(&listed(), 0x0403, 0x6010, Interface::B),
        Ok((2, Interface::B))
    ));
}

#[test]
fn open_by_address() {
    assert!(matches!(
        FtdiDevice::open_bus_addr(&listed(), 2, 2, Interface::A),
        Ok((3, Interface::A))
    ));
    assert!(matches!(
        FtdiDevice::open_bus_addr(&listed(), 3, 2, Interface::A),
        Err(Error::DeviceNotFound)
    ));
}

fn filter(description: Option<&str>, serial: Option<&str>, index: usize) -> DeviceFilter {
    DeviceFilter {
        vendor_id: 0x0403,
        product_id: 0x6001,
        description: description.map(String::from),
        serial: serial.map(String::from),
        index,
    }
}

/// Descriptions and serial numbers of the listed devices.
fn string(index: usize, kind: StringKind) -> StringRead {
    match (index, kind) {
        (1, StringKind::Description) => StringRead::Text(String::from("UART")),
        (1, StringKind::Serial) => StringRead::Text(String::from("A1")),
        (3, StringKind::Description) => StringRead::Absent,
        (3, StringKind::Serial) => StringRead::Text(String::from("A2")),
        (4, StringKind::Description) => StringRead::Text(String::from("UART")),
        (4, StringKind::Serial) => StringRead::Unreadable,
        _ => unreachable!(),
    }
}

fn search(filter: &DeviceFilter) -> (Option<usize>, Vec<(usize, StringKind)>) {
    let mut reads = Vec::new();
    let mut step = FtdiDevice::open_with_filter(filter, Interface::C, &listed());
    loop {
        match step {
            SearchStep::NotFound => return (None, reads),
            SearchStep::Select { index, iface } => {
                assert_eq!(iface, Interface::C);
                return (Some(index), reads);
            }
            SearchStep::Read { index, search } => {
                reads.push((index, search.wanted));
                let read = string(index, search.wanted);
                step = FtdiDevice::resume_search(filter, search, read);
            }
        }
    }
}

#[test]
fn filter_without_strings_counts_candidates() {
    assert_eq!(search(&filter(None, None, 0)), (Some(1), vec![]));
    assert_eq!(search(&filter(None, None, 2)), (Some(4), vec![]));
    assert_eq!(search(&filter(None, None, 3)), (None, vec![]));
}

#[test]
fn filter_by_description() {
    assert_eq!(search(&filter(Some("UART"), None, 0)).0, Some(1));
    assert_eq!(search(&filter(Some("UART"), None, 1)).0, Some(4));
    assert_eq!(search(&filter(Some("UART"), None, 2)).0, None);
    // A device without a description never matches one.
    assert_eq!(search(&filter(Some(""), None, 0)).0, None);
}

#[test]
fn filter_by_serial() {
    assert_eq!(search(&filter(None, Some("A2"), 0)).0, Some(3));
    // A serial number that cannot be read counts as empty.
    assert_eq!(search(&filter(None, Some(""), 0)).0, Some(4));
    assert_eq!(search(&filter(None, Some("A3"), 0)).0, None);
}

#[test]
fn filter_by_both_reads_the_serial_only_if_needed() {
    let (found, reads) = search(&filter(Some("UART"), Some(""), 0));
    assert_eq!(found, Some(4));
    assert_eq!(
        reads,
        vec![
            (1, StringKind::Description),
            (1, StringKind::Serial),
            (3, StringKind::Description),
            (4, StringKind::Description),
            (4, StringKind::Serial),
        ]
    );
}

#[test]
fn picker_offers_common_chips() {
    assert_eq!(
        FtdiDevice::request_device(),
        vec![
            (0x0403, 0x6001),
            (0x0403, 0x6010),
            (0x0403, 0x6011),
            (0x0403, 0x6014),
            (0x0403, 0x6015),
        ]
    );
}
