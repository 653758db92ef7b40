use pci::ecam::Ecam;
use pci::{
    get_pci_config, CapabilityId, ClassCode, Command, HeaderType, PciBaseAddress, PciConfigType0,
    Status,
};

fn blank_space() -> Vec<u8> {
    vec![0u8; 256]
}

fn put16(data: &mut Vec<u8>, offset: usize, value: u16) {
    data[offset] = (value & 0xFF) as u8;
    data[offset + 1] = (value >> 8) as u8;
}

fn put32(data: &mut Vec<u8>, offset: usize, value: u32) {
    data[offset] = (value & 0xFF) as u8;
    data[offset + 1] = ((value >> 8) & 0xFF) as u8;
    data[offset + 2] = ((value >> 16) & 0xFF) as u8;
    data[offset + 3] = ((value >> 24) & 0xFF) as u8;
}

#[test]
fn absent_when_vendor_is_sentinel() {
    let mut data = blank_space();
    put16(&mut data, 0x00, 0xFFFF);
    put16(&mut data, 0x02, 0x1237);
    assert!(get_pci_config(Ecam::new(data)).is_none());
}

#[test]
fn absent_when_device_is_sentinel() {
    let mut data = blank_space();
    put16(&mut data, 0x00, 0x8086);
    put16(&mut data, 0x02, 0xFFFF);
    assert!(get_pci_config(Ecam::new(data)).is_none());
}

#[test]
fn absent_when_both_are_sentinel() {
    let mut data = blank_space();
    put16(&mut data, 0x00, 0xFFFF);
    put16(&mut data, 0x02, 0xFFFF);
    assert!(get_pci_config(Ecam::new(data)).is_none());
}

#[test]
fn common_header_fields_decode() {
    let mut data = blank_space();
    put16(&mut data, 0x00, 0x8086);
    put16(&mut data, 0x02, 0x1237);
    put16(&mut data, 0x04, 0x0007);
    put16(&mut data, 0x06, 0x0290);
    data[0x08] = 0x02; // revision
    data[0x09] = 0x01; // prog-if
    data[0x0A] = 0x04; // sub class
    data[0x0B] = 0x06; // base class
    data[0x0C] = 0x10; // cache line size
    data[0x0D] = 0x20; // latency timer
    data[0x0E] = 0x81; // header type: bridge, multi-function
    data[0x0F] = 0x05; // bist
    data[0x34] = 0x40; // capabilities pointer
    data[0x3C] = 0x0B; // interrupt line
    data[0x3D] = 0x01; // interrupt pin

    let cfg = get_pci_config(Ecam::new(data)).unwrap();
    assert_eq!(cfg.vendor_id(), 0x8086);
    assert_eq!(cfg.device_id(), 0x1237);
    assert_eq!(cfg.revision_id(), 0x02);
    assert_eq!(cfg.class_code().base_class(), 0x06);
    assert_eq!(cfg.class_code().sub_class(), 0x04);
    assert_eq!(cfg.class_code().prog_if(), 0x01);
    assert_eq!(cfg.cache_line_size(), 0x10);
    assert_eq!(cfg.master_latency_timer(), 0x20);
    assert_eq!(cfg.bist(), 0x05);
    assert_eq!(cfg.capabilities_pointer(), 0x40);
    assert_eq!(cfg.interrupt_line(), 0x0B);
    assert_eq!(cfg.interrupt_pin(), 0x01);
    assert!(cfg.header_type().type1());
    assert!(!cfg.header_type().type0());
    assert!(cfg.header_type().multi_function_device());
}

#[test]
fn resolving_a_plain_endpoint() {
    // A backend reporting vendor 0x8086, device 0x1237 and header type
    // 0x00 yields a document, no bridge header, and no multi-function
    // flag.
    let mut data = blank_space();
    put16(&mut data, 0x00, 0x8086);
    put16(&mut data, 0x02, 0x1237);
    data[0x0E] = 0x00;

    let cfg = get_pci_config(Ecam::new(data)).unwrap();
    assert_eq!(cfg.vendor_id(), 0x8086);
    assert_eq!(cfg.device_id(), 0x1237);
    assert!(cfg.get_type1_header().is_none());
    assert!(!cfg.header_type().multi_function_device());
    assert!(cfg.get_type0_header().is_some());
}

#[test]
fn type0_header_reads_lazily() {
    let mut data = blank_space();
    put16(&mut data, 0x00, 0x8086);
    put16(&mut data, 0x02, 0x1237);
    data[0x0E] = 0x00;
    put32(&mut data, 0x10, 0xF000_000C);
    put32(&mut data, 0x14, 0x0000_0001);
    put32(&mut data, 0x28, 0xDEAD_BEEF);
    put16(&mut data, 0x2C, 0x1028);
    put16(&mut data, 0x2E, 0x04AA);
    put32(&mut data, 0x30, 0x000C_0002);

    let cfg = get_pci_config(Ecam::new(data)).unwrap();
    let t0 = cfg.get_type0_header().unwrap();
    assert_eq!(t0.bar0(), 0xF000_000C);
    assert_eq!(t0.bar1(), 0x0000_0001);
    assert_eq!(t0.cardbus_cis_pointer(), 0xDEAD_BEEF);
    assert_eq!(t0.subsystem_vendor_id(), 0x1028);
    assert_eq!(t0.subsystem_id(), 0x04AA);
    assert_eq!(t0.expansion_rom(), 0x000C_0002);
}

#[test]
fn type1_header_reads_lazily() {
    let mut data = blank_space();
    put16(&mut data, 0x00, 0x8086);
    put16(&mut data, 0x02, 0x1237);
    data[0x0E] = 0x01;
    data[0x18] = 0x00; // primary bus
    data[0x19] = 0x02; // secondary bus
    data[0x1A] = 0x05; // subordinate bus
    data[0x1B] = 0x18; // secondary latency timer
    put32(&mut data, 0x38, 0x000C_0001);

    let cfg = get_pci_config(Ecam::new(data)).unwrap();
    assert!(cfg.get_type0_header().is_none());
    let t1 = cfg.get_type1_header().unwrap();
    assert_eq!(t1.parity_error_response(), 0x00);
    assert_eq!(t1.secondary_bus_number(), 0x02);
    assert_eq!(t1.subordinate_bus_number(), 0x05);
    assert_eq!(t1.secondary_latency_timer(), 0x18);
    assert_eq!(t1.expansion_rom(), 0x000C_0001);
}

#[test]
fn bar_decoding_is_idempotent() {
    // Decoding the same raw word pair twice yields identical decoded
    // attributes.
    let words: [(u32, u32); 4] = [
        (0xF000_000C, 0x0000_0001),
        (0x0000_E001, 0),
        (0x1234_0000, 0),
        (0x0000_0002, 0),
    ];
    for (w0, w1) in words {
        let a = PciBaseAddress::from(w0, w1);
        let b = PciBaseAddress::from(w0, w1);
        assert_eq!(a.bar(), b.bar());
        assert_eq!(a.io_space(), b.io_space());
        assert_eq!(a.b16(), b.b16());
        assert_eq!(a.b32(), b.b32());
        assert_eq!(a.b64(), b.b64());
        assert_eq!(a.prefetchable(), b.prefetchable());
    }
}

#[test]
fn bar_decode_io_space() {
    let a = PciBaseAddress::from(0x0000_E001, 0xFFFF_FFFF);
    assert!(a.io_space());
    assert_eq!(a.bar(), 0x0000_E000);
    assert!(!a.b64());
    assert!(!a.prefetchable());
}

#[test]
fn bar_decode_memory_32bit() {
    let a = PciBaseAddress::from(0x1234_0000, 0xFFFF_FFFF);
    assert!(!a.io_space());
    assert!(a.b32());
    assert!(!a.b16());
    assert!(!a.b64());
    assert!(!a.prefetchable());
    assert_eq!(a.bar(), 0x1234_0000);
}

#[test]
fn bar_decode_memory_64bit_combines_the_pair() {
    let a = PciBaseAddress::from(0xF000_000C, 0x0000_0001);
    assert!(!a.io_space());
    assert!(a.b64());
    assert!(a.prefetchable());
    assert_eq!(a.bar(), 0x1_F000_0000);
}

#[test]
fn bar64_lookahead_skips_the_high_word_slot() {
    // Slot 0 marks a 64-bit window, so slot 1 is its high half: the
    // list holds one combined entry for the pair, and the entry that
    // slot 1 alone would have produced is absent.
    let t0 = PciConfigType0 {
        bar0: 0xF000_000C,
        bar1: 0x0000_0001,
        bar2: 0,
        bar3: 0,
        bar4: 0,
        bar5: 0,
        cardbus_cis_pointer: 0,
        subsystem_vendor_id: 0,
        subsystem_id: 0,
        expansion_rom: 0,
    };
    let bars = t0.bars();
    assert_eq!(bars.len(), 5);
    assert!(bars[0].b64());
    assert_eq!(bars[0].bar(), 0x1_F000_0000);
    // The next entry comes from slot 2, not from the high word in
    // slot 1: it reads as an empty 32-bit memory window.
    assert!(bars[1].b32());
    assert_eq!(bars[1].bar(), 0);
    for b in &bars[1..] {
        assert!(!b.b64());
    }
}

#[test]
fn bars_without_64bit_yield_six_entries() {
    let t0 = PciConfigType0 {
        bar0: 0x0000_E001,
        bar1: 0x1234_0000,
        bar2: 0,
        bar3: 0,
        bar4: 0,
        bar5: 0,
        cardbus_cis_pointer: 0,
        subsystem_vendor_id: 0,
        subsystem_id: 0,
        expansion_rom: 0,
    };
    let bars = t0.bars();
    assert_eq!(bars.len(), 6);
    assert!(bars[0].io_space());
    assert_eq!(bars[1].bar(), 0x1234_0000);
}

#[test]
fn capability_chain_walks_to_terminator() {
    // Two nodes: MSI at 0x40 linking to PCI Express at 0x50, which
    // terminates the list.
    let mut data = blank_space();
    put16(&mut data, 0x00, 0x8086);
    put16(&mut data, 0x02, 0x1237);
    put16(&mut data, 0x06, 0x0010); // capabilities-list flag
    data[0x34] = 0x40;
    put32(&mut data, 0x40, 0x0000_5005);
    put32(&mut data, 0x50, 0x0000_0010);

    let cfg = get_pci_config(Ecam::new(data)).unwrap();
    let caps = cfg.capabilities();
    assert_eq!(caps.len(), 2);
    assert_eq!(caps[0].id, 0x05);
    assert_eq!(caps[0].next_pointer, 0x50);
    assert_eq!(caps[1].id, 0x10);
    assert_eq!(caps[1].next_pointer, 0x00);
    assert!(matches!(caps[0].id(), Some(CapabilityId::Msi)));
    assert!(matches!(caps[1].id(), Some(CapabilityId::PciE)));

    let head = cfg.capability().unwrap();
    assert_eq!(head.id, 0x05);
    let second = head.next().unwrap();
    assert_eq!(second.id, 0x10);
    assert!(second.next().is_none());
}

#[test]
fn capability_absent_without_status_flag() {
    let mut data = blank_space();
    put16(&mut data, 0x00, 0x8086);
    put16(&mut data, 0x02, 0x1237);
    data[0x34] = 0x40;
    put32(&mut data, 0x40, 0x0000_5005);

    let cfg = get_pci_config(Ecam::new(data)).unwrap();
    assert!(cfg.capability().is_none());
    assert!(cfg.capabilities().is_empty());
}

#[test]
fn capability_id_mapping() {
    let e = Ecam::new(vec![0u8; 4]);
    let known = pci::PciCapability::from(std::rc::Rc::new(e), 0x0000_0001);
    assert!(matches!(known.id(), Some(CapabilityId::Pm)));
    let e2 = Ecam::new(vec![0u8; 4]);
    let unknown = pci::PciCapability::from(std::rc::Rc::new(e2), 0x0000_00FE);
    assert!(unknown.id().is_none());
    let e3 = Ecam::new(vec![0u8; 4]);
    let highest = pci::PciCapability::from(std::rc::Rc::new(e3), 0x0000_0015);
    assert!(matches!(highest.id(), Some(CapabilityId::FlatteningPortalBridge)));
}

#[test]
fn command_bits_unpack() {
    let c = Command(0b0000_0111);
    assert!(c.io_space_enable());
    assert!(c.memory_space_enable());
    assert!(c.bus_master_enable());
    assert!(!c.special_cycle_enable());
    assert!(!c.interrupt_disable());
    let c2 = Command(0b0100_0000);
    assert!(c2.parity_error_response());
}

#[test]
fn status_bits_unpack() {
    let s = Status(0x0290);
    assert!(s.capabilities_list());
    assert!(!s.mhz_66_capable());
    assert!(s.fast_back_to_back_transactions_capable());
    assert_eq!(s.devsel_timing(), 1);
    assert!(!s.detected_parity_error());
    let s2 = Status(0x8000);
    assert!(s2.detected_parity_error());
}

#[test]
fn header_type_fields() {
    let h = HeaderType(0x80);
    assert!(h.type0());
    assert!(!h.type1());
    assert!(h.multi_function_device());
    let h1 = HeaderType(0x01);
    assert!(h1.type1());
    assert!(!h1.multi_function_device());
}

#[test]
fn class_code_fields() {
    let c = ClassCode(0x06, 0x04, 0x01);
    assert_eq!(c.base_class(), 0x06);
    assert_eq!(c.sub_class(), 0x04);
    assert_eq!(c.prog_if(), 0x01);
}
