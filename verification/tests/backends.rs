use pci::cfgmgr32::{Cfgmgr32, Components, DevNode, Directory};
use pci::ecam::{mem_offset, Ecam};
use pci::io_port::{config_address, extract16, extract8, multiple4, IoPort};
use pci::{get_pci_config, scan_device, Method, Resolver};

#[test]
fn ecam_reads_little_endian() {
    let e = Ecam::new(vec![0x12, 0x34, 0x56, 0x78, 0x9A]);
    assert_eq!(e.read8(0), 0x12);
    assert_eq!(e.read8(4), 0x9A);
    assert_eq!(e.read16(0), 0x3412);
    assert_eq!(e.read16(2), 0x7856);
    assert_eq!(e.read32(0), 0x7856_3412);
    assert_eq!(e.read32(1), 0x9A78_5634);
}

#[test]
fn ecam_reads_zero_beyond_the_window() {
    let e = Ecam::new(vec![0xAB, 0xCD]);
    assert_eq!(e.read8(2), 0);
    assert_eq!(e.read16(1), 0x00CD);
    assert_eq!(e.read32(0), 0x0000_CDAB);
    assert_eq!(e.read32(200), 0);
}

#[test]
fn mem_offset_places_the_window() {
    assert_eq!(mem_offset(0xB000_0000, 0, 1, 2, 3), 0xB011_3000);
    assert_eq!(mem_offset(0xB000_0000, 0, 0, 0, 0), 0xB000_0000);
    assert_eq!(mem_offset(0x8000_0000, 0x10, 0x12, 31, 7), 0x802F_F000);
}

#[test]
fn multiple4_splits_offset_and_shift() {
    assert_eq!(multiple4(0x0D), (0x0C, 8));
    assert_eq!(multiple4(0x0C), (0x0C, 0));
    assert_eq!(multiple4(0x0F), (0x0C, 24));
    assert_eq!(multiple4(0x02), (0x00, 16));
}

#[test]
fn config_address_packs_the_fields() {
    assert_eq!(config_address(0, 0, 0, 0), 0x8000_0000);
    assert_eq!(config_address(1, 2, 3, 4), 0x8001_1304);
    assert_eq!(config_address(0xFF, 0x1F, 0x07, 0xFC), 0x80FF_FFFC);
}

#[test]
fn extract_helpers_select_sub_fields() {
    let dword = 0x1234_5678;
    assert_eq!(extract8(dword, 0), 0x78);
    assert_eq!(extract8(dword, 8), 0x56);
    assert_eq!(extract8(dword, 24), 0x12);
    assert_eq!(extract16(dword, 0), 0x5678);
    assert_eq!(extract16(dword, 16), 0x1234);
}

#[test]
fn io_port_handle_binds_any_address() {
    let p = IoPort::try_from(2, 3, 1).unwrap();
    assert_eq!(p.bus, 2);
    assert_eq!(p.device, 3);
    assert_eq!(p.func, 1);
    assert_eq!(p.address_for(0x10), 0x8002_1910);
}

#[test]
fn components_parse_a_full_hardware_id() {
    let ids = vec![String::from("PCI\\VEN_8086&DEV_1237&SUBSYS_12344321&REV_02&CC_060400")];
    let c = Components::from(&ids);
    assert_eq!(c.ven, 0x8086);
    assert_eq!(c.dev, 0x1237);
    assert_eq!(c.subsys_id, 0x1234);
    assert_eq!(c.subsys_ven, 0x4321);
    assert_eq!(c.rev, 0x02);
    assert_eq!(c.base_class, 0x06);
    assert_eq!(c.sub_class, 0x04);
    assert_eq!(c.prog_intf, 0x00);
}

#[test]
fn components_ignore_foreign_and_malformed_strings() {
    let ids = vec![
        String::from("USB\\VID_046D&PID_C52B"),
        String::from("PCI\\VEN_10DE&DEV_XYZW"),
        String::from("PCI\\CC_0300"),
    ];
    let c = Components::from(&ids);
    assert_eq!(c.ven, 0x10DE);
    assert_eq!(c.dev, 0xFFFF);
    assert_eq!(c.base_class, 0x03);
    assert_eq!(c.sub_class, 0x00);
}

#[test]
fn components_without_strings_read_as_absent() {
    let c = Components::from(&vec![]);
    assert_eq!(c.ven, 0xFFFF);
    assert_eq!(c.dev, 0xFFFF);
}

fn root_bridge_node() -> DevNode {
    DevNode::new(
        0,
        0,
        0,
        String::from("PCI\\VEN_8086&DEV_1237\\3&11583659&0&00"),
        Some(vec![String::from("PCI\\VEN_10DE&DEV_2204\\4&2&0&0008")]),
        &vec![String::from("PCI\\VEN_8086&DEV_1237&REV_02&CC_060400")],
    )
}

fn child_node() -> DevNode {
    DevNode::new(
        1,
        0,
        0,
        String::from("PCI\\VEN_10DE&DEV_2204\\4&2&0&0008"),
        None,
        &vec![String::from("PCI\\VEN_10DE&DEV_2204&REV_A1&CC_030000")],
    )
}

#[test]
fn directory_resolves_nodes_to_synthesized_registers() {
    let dir = Directory::new(vec![root_bridge_node(), child_node()]);
    assert!(dir.support());

    let h: Cfgmgr32 = dir.resolve(0, 0, 0).unwrap();
    assert_eq!(h.get_vendor(), 0x8086);
    assert_eq!(h.get_device(), 0x1237);
    assert_eq!(h.get_revision(), 0x02);
    assert_eq!(h.get_header(), 0x81);
    assert_eq!(h.get_primary_bus_number(), 0);
    // The first PCI child of the bridge node lives on bus 1.
    assert_eq!(h.get_secondary_bus_number(), 1);

    let doc = get_pci_config(h).unwrap();
    assert_eq!(doc.vendor_id(), 0x8086);
    assert!(doc.header_type().type1());
    assert!(doc.header_type().multi_function_device());
    let t1 = doc.get_type1_header().unwrap();
    assert_eq!(t1.secondary_bus_number(), 1);
}

#[test]
fn directory_degrades_to_absent_for_unknown_addresses() {
    let dir = Directory::new(vec![child_node()]);
    let h = dir.resolve(7, 7, 7).unwrap();
    assert_eq!(h.get_vendor(), 0xFFFF);
    assert!(get_pci_config(h).is_none());
}

#[test]
fn directory_reports_support_only_with_nodes() {
    let empty = Directory::new(vec![]);
    assert!(!empty.support());
}

#[test]
fn scan_walks_the_directory_tree() {
    let dir = Directory::new(vec![root_bridge_node(), child_node()]);
    let devs = scan_device(&dir, 0);
    let addrs: Vec<(u8, u8, u8)> = devs.iter().map(|d| (d.0, d.1, d.2)).collect();
    // Every node reads as multi-function, so functions 1..8 of both
    // slots are probed and degrade to absent; the bridge leads the
    // scan onto bus 1.
    assert_eq!(addrs, vec![(0, 0, 0), (1, 0, 0)]);
    assert_eq!(devs[1].3.class_code().base_class(), 0x03);
    assert_eq!(devs[1].3.revision_id(), 0xA1);
}

#[test]
fn cfgmgr32_reads_zero_for_unexposed_registers() {
    let dir = Directory::new(vec![child_node()]);
    let h = dir.resolve(1, 0, 0).unwrap();
    assert_eq!(h.read16(0x04), 0); // command
    assert_eq!(h.read16(0x06), 0); // status
    assert_eq!(h.read32(0x10), 0); // base address
    assert_eq!(h.read8(0x34), 0); // capabilities pointer
}
