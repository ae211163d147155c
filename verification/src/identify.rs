//! Identifying chips and their packet sizes.

use vstd::prelude::*;

use crate::platform::{configuration_interfaces, configuration_layout, InterfaceGroup};
use crate::types::ChipType;

verus! {

/// The chip type that a device version stands for.
pub open spec fn chip_of(bcd: u16, has_serial: bool) -> ChipType {
    if bcd == 0x0200 && has_serial {
        ChipType::Am
    } else if bcd == 0x0500 {
        ChipType::Ft2232C
    } else if bcd == 0x0600 {
        ChipType::Ft232R
    } else if bcd == 0x0700 || bcd == 0x3000 {
        ChipType::Ft2232H
    } else if bcd == 0x0800 {
        ChipType::Ft4232H
    } else if bcd == 0x0900 {
        ChipType::Ft232H
    } else if bcd == 0x1000 {
        ChipType::Ft230X
    } else {
        ChipType::Bm
    }
}

/// Detect the chip type from the device version.
pub fn detect_chip_type(bcd: u16, has_serial: bool) -> (chip_type: ChipType)
    ensures
        chip_type == chip_of(bcd, has_serial),
{
    match bcd {
        0x0400 => ChipType::Bm,
        0x0200 if !has_serial => ChipType::Bm,
        0x0200 => ChipType::Am,
        0x0500 => ChipType::Ft2232C,
        0x0600 => ChipType::Ft232R,
        0x0700 | 0x3000 => ChipType::Ft2232H,
        0x0800 => ChipType::Ft4232H,
        0x0900 => ChipType::Ft232H,
        0x1000 => ChipType::Ft230X,
        _ => ChipType::Bm,
    }
}

/// The packet size of the first endpoint among alternate settings, which are
/// listed by the packet sizes of their endpoints.
pub open spec fn first_endpoint(alt_settings: Seq<Seq<usize>>) -> Option<usize>
    decreases alt_settings.len(),
{
    if alt_settings.len() == 0 {
        None
    } else if alt_settings[0].len() > 0 {
        Some(alt_settings[0][0])
    } else {
        first_endpoint(alt_settings.skip(1))
    }
}

/// The packet size of the first endpoint of the interface `number`.
pub open spec fn interface_endpoint(
    interfaces: Seq<(u8, Seq<Seq<usize>>)>,
    number: u8,
) -> Option<usize>
    decreases interfaces.len(),
{
    if interfaces.len() == 0 {
        None
    } else if interfaces[0].0 == number && first_endpoint(interfaces[0].1) is Some {
        first_endpoint(interfaces[0].1)
    } else {
        interface_endpoint(interfaces.skip(1), number)
    }
}

/// The packet size that a chip has unless its descriptors say otherwise.
pub open spec fn default_packet_size(chip_type: ChipType) -> usize {
    if chip_type.h_type() {
        512
    } else {
        64
    }
}

/// The packet size of the interface `number` of a chip, given the layout of
/// its active configuration.
pub open spec fn max_packet_size_of(
    layout: Option<Seq<(u8, Seq<Seq<usize>>)>>,
    chip_type: ChipType,
    number: u8,
) -> usize {
    match layout {
        None => default_packet_size(chip_type),
        Some(interfaces) => match interface_endpoint(interfaces, number) {
            Some(size) => size,
            None => default_packet_size(chip_type),
        },
    }
}

/// Determine the maximum packet size for a device from the bytes of its active
/// configuration, if it has one.
pub fn determine_max_packet_size(
    configuration: Option<&[u8]>,
    chip_type: ChipType,
    interface_num: u8,
) -> (size: usize)
    ensures
        size == max_packet_size_of(
            match configuration {
                Some(bytes) => configuration_layout(bytes@),
                None => None,
            },
            chip_type,
            interface_num,
        ),
{
    let interfaces: Option<Vec<InterfaceGroup>> = match configuration {
        Some(bytes) => configuration_interfaces(bytes),
        None => None,
    };
    packet_size_from_layout(&interfaces, chip_type, interface_num)
}

/// The layout that a list of interfaces describes.
pub open spec fn layout_of(interfaces: Option<Vec<InterfaceGroup>>) -> Option<
    Seq<(u8, Seq<Seq<usize>>)>,
> {
    match interfaces {
        Some(groups) => Some(groups@.map_values(|group: InterfaceGroup| group@)),
        None => None,
    }
}

/// Determine the maximum packet size for a device whose active configuration
/// holds these interfaces.
pub fn packet_size_from_layout(
    interfaces: &Option<Vec<InterfaceGroup>>,
    chip_type: ChipType,
    interface_num: u8,
) -> (size: usize)
    ensures
        size == max_packet_size_of(layout_of(*interfaces), chip_type, interface_num),
{
    let default_size: usize = if chip_type.is_h_type() {
        512
    } else {
        64
    };
    let groups: &Vec<InterfaceGroup> = match interfaces {
        Some(groups) => groups,
        None => return default_size,
    };
    let ghost layout = groups@.map_values(|group: InterfaceGroup| group@);
    let mut i: usize = 0;
    assert(layout.skip(0) =~= layout);
    while i < groups.len()
        invariant
            i <= groups@.len(),
            layout == groups@.map_values(|group: InterfaceGroup| group@),
            layout_of(*interfaces) == Some(layout),
            default_size == default_packet_size(chip_type),
            interface_endpoint(layout, interface_num) == interface_endpoint(
                layout.skip(i as int),
                interface_num,
            ),
        decreases groups@.len() - i,
    {
        let group: &InterfaceGroup = &groups[i];
        assert(layout.skip(i as int)[0] == group@);
        assert(layout.skip(i as int).skip(1) =~= layout.skip(i + 1));
        if group.number == interface_num {
            let ghost alts = group@.1;
            let mut j: usize = 0;
            assert(alts.skip(0) =~= alts);
            while j < group.alt_settings.len()
                invariant
                    i < groups@.len(),
                    j <= group.alt_settings@.len(),
                    alts == group@.1,
                    group.number == interface_num,
                    layout_of(*interfaces) == Some(layout),
                    layout.skip(i as int).len() > 0,
                    layout.skip(i as int)[0] == group@,
                    interface_endpoint(layout, interface_num) == interface_endpoint(
                        layout.skip(i as int),
                        interface_num,
                    ),
                    first_endpoint(alts) == first_endpoint(alts.skip(j as int)),
                decreases group.alt_settings@.len() - j,
            {
                let alt: &Vec<usize> = &group.alt_settings[j];
                assert(alts.skip(j as int)[0] == alt@);
                assert(alts.skip(j as int).skip(1) =~= alts.skip(j + 1));
                if alt.len() > 0 {
                    return alt[0];
                }
                j = j + 1;
            }
        }
        i = i + 1;
    }
    default_size
}

} // verus!
