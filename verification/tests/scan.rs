use pci::ecam::{Ecam, SnapshotSpace};
use pci::scan_device;
use pci::Resolver;

fn put16(data: &mut Vec<u8>, offset: usize, value: u16) {
    data[offset] = (value & 0xFF) as u8;
    data[offset + 1] = (value >> 8) as u8;
}

fn endpoint(vendor: u16, device: u16, header: u8) -> Vec<u8> {
    let mut data = vec![0u8; 256];
    put16(&mut data, 0x00, vendor);
    put16(&mut data, 0x02, device);
    data[0x0E] = header;
    data
}

fn bridge(vendor: u16, device: u16, secondary: u8) -> Vec<u8> {
    let mut data = endpoint(vendor, device, 0x01);
    data[0x19] = secondary;
    data
}

#[test]
fn scan_finds_every_device_across_the_bridge() {
    // A bridge at (0,0,0) leading to bus 1, which holds an endpoint at
    // (1,0,0) and a multi-function device at (1,1,0) with (1,1,1)
    // also present: the scan returns exactly those four addresses, in
    // order, with no duplicates.
    let mut space = SnapshotSpace::new();
    space.insert(0, 0, 0, Ecam::new(bridge(0x8086, 0x1237, 1)));
    space.insert(1, 0, 0, Ecam::new(endpoint(0x10DE, 0x2204, 0x00)));
    space.insert(1, 1, 0, Ecam::new(endpoint(0x1022, 0x145C, 0x80)));
    space.insert(1, 1, 1, Ecam::new(endpoint(0x1022, 0x145D, 0x00)));

    let devs = scan_device(&space, 0);
    let addrs: Vec<(u8, u8, u8)> = devs.iter().map(|d| (d.0, d.1, d.2)).collect();
    assert_eq!(addrs, vec![(0, 0, 0), (1, 0, 0), (1, 1, 0), (1, 1, 1)]);

    assert_eq!(devs[0].3.vendor_id(), 0x8086);
    assert_eq!(devs[0].3.get_type1_header().unwrap().secondary_bus_number(), 1);
    assert_eq!(devs[1].3.vendor_id(), 0x10DE);
    assert_eq!(devs[2].3.vendor_id(), 0x1022);
    assert_eq!(devs[3].3.device_id(), 0x145D);
}

#[test]
fn scan_skips_functions_of_single_function_devices() {
    // (0,0,1) exists in the table, but function 0 does not carry the
    // multi-function flag, so it is never probed.
    let mut space = SnapshotSpace::new();
    space.insert(0, 0, 0, Ecam::new(endpoint(0x8086, 0x1237, 0x00)));
    space.insert(0, 0, 1, Ecam::new(endpoint(0x8086, 0x7000, 0x00)));

    let devs = scan_device(&space, 0);
    let addrs: Vec<(u8, u8, u8)> = devs.iter().map(|d| (d.0, d.1, d.2)).collect();
    assert_eq!(addrs, vec![(0, 0, 0)]);
}

#[test]
fn scan_skips_sentinel_devices() {
    // An address that resolves but reads back the unused sentinel is
    // no device.
    let mut space = SnapshotSpace::new();
    space.insert(0, 0, 0, Ecam::new(endpoint(0xFFFF, 0x1237, 0x00)));
    space.insert(0, 1, 0, Ecam::new(endpoint(0x8086, 0x1237, 0x00)));

    let devs = scan_device(&space, 0);
    let addrs: Vec<(u8, u8, u8)> = devs.iter().map(|d| (d.0, d.1, d.2)).collect();
    assert_eq!(addrs, vec![(0, 1, 0)]);
}

#[test]
fn scan_of_empty_space_is_empty() {
    let space = SnapshotSpace::new();
    let devs = scan_device(&space, 0);
    assert!(devs.is_empty());
}

#[test]
fn snapshot_resolve_misses_unlisted_addresses() {
    let mut space = SnapshotSpace::new();
    space.insert(0, 3, 0, Ecam::new(endpoint(0x8086, 0x1237, 0x00)));
    assert!(space.resolve(0, 3, 0).is_ok());
    assert!(space.resolve(0, 4, 0).is_err());
}
