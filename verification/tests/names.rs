use pci::error::Error;
use pci::ids::{BaseClass, Device, NameDatabase, ProgIf, SubClass, SubSystem, Vendor};
use pci::parser::parse;

fn fixture() -> String {
    let mut t = String::new();
    t.push_str("# a minimal database\n");
    t.push_str("\n");
    t.push_str("8086  Intel Corporation\n");
    t.push_str("\t1237  440FX - 82441FX PMC [Natoma]\n");
    t.push_str("\t\t0e11 4091  Smart-2\n");
    t.push_str("C 06  Bridge\n");
    t.push_str("\t04  PCI bridge\n");
    t.push_str("\t\t00  Normal decode\n");
    t
}

#[test]
fn parse_round_trips_the_minimal_fixture() {
    // One vendor with one device with one subsystem, and one class
    // with one sub-class with one prog-if: parsing yields exactly
    // those records with their identifiers and names.
    let (vendors, classes) = parse(fixture().as_str()).unwrap();

    assert_eq!(vendors.len(), 1);
    let v = &vendors[0];
    assert_eq!(v.id(), 0x8086);
    assert_eq!(v.name(), "Intel Corporation");
    assert_eq!(v.devices.len(), 1);
    let d = v.get_device(0x1237).unwrap();
    assert_eq!(d.name(), "440FX - 82441FX PMC [Natoma]");
    assert_eq!(d.subsystems.len(), 1);
    let s = d.get_subsystem(0x0e11, 0x4091).unwrap();
    assert_eq!(s.name(), "Smart-2");

    assert_eq!(classes.len(), 1);
    let c = &classes[0];
    assert_eq!(c.id(), 0x06);
    assert_eq!(c.name(), "Bridge");
    let sc = c.get_sub_class(0x04).unwrap();
    assert_eq!(sc.name(), "PCI bridge");
    let p = sc.get_prog_if(0x00).unwrap();
    assert_eq!(p.name(), "Normal decode");
}

#[test]
fn parse_reports_trailing_data_on_extra_content() {
    // One extra unparseable character after the class section.
    let mut text = fixture();
    text.push('x');
    match parse(text.as_str()) {
        Err(Error::TrailingData) => {},
        other => panic!("expected trailing data, got {:?}", other.map(|_| ())),
    }
}

#[test]
fn parse_reports_trailing_data_on_trailing_comment() {
    let mut text = fixture();
    text.push_str("# stray comment\n");
    match parse(text.as_str()) {
        Err(Error::TrailingData) => {},
        other => panic!("expected trailing data, got {:?}", other.map(|_| ())),
    }
}

#[test]
fn parse_accepts_trailing_blank_lines() {
    let mut text = fixture();
    text.push_str("\n\n");
    assert!(parse(text.as_str()).is_ok());
}

#[test]
fn parse_fails_without_class_section() {
    let text = "8086  Intel Corporation\n";
    match parse(text) {
        Err(Error::Parse(_)) => {},
        other => panic!("expected parse failure, got {:?}", other.map(|_| ())),
    }
}

#[test]
fn parse_fails_on_device_before_vendor() {
    let text = "\t1237  Orphan device\nC 06  Bridge\n";
    match parse(text) {
        Err(Error::Parse(_)) => {},
        other => panic!("expected parse failure, got {:?}", other.map(|_| ())),
    }
}

#[test]
fn parse_fails_on_malformed_vendor_line() {
    let text = "80z6  Not hex\nC 06  Bridge\n";
    match parse(text) {
        Err(Error::Parse(_)) => {},
        other => panic!("expected parse failure, got {:?}", other.map(|_| ())),
    }
}

#[test]
fn parse_groups_records_under_their_parents() {
    let mut t = String::new();
    t.push_str("1000  Broadcom / LSI\n");
    t.push_str("\t0014  MegaRAID\n");
    t.push_str("10de  NVIDIA Corporation\n");
    t.push_str("\t2204  GA102\n");
    t.push_str("\t2206  GA102 [GeForce RTX 3080]\n");
    t.push_str("C 02  Network controller\n");
    t.push_str("\t00  Ethernet controller\n");
    t.push_str("C 03  Display controller\n");
    t.push_str("\t00  VGA compatible controller\n");
    t.push_str("\t\t00  VGA controller\n");
    t.push_str("\t\t01  8514 controller\n");

    let (vendors, classes) = parse(t.as_str()).unwrap();
    assert_eq!(vendors.len(), 2);
    assert_eq!(vendors[0].devices.len(), 1);
    assert_eq!(vendors[1].devices.len(), 2);
    assert_eq!(classes.len(), 2);
    assert_eq!(classes[0].sub_classes.len(), 1);
    assert_eq!(classes[1].sub_classes.len(), 1);
    assert_eq!(classes[1].sub_classes[0].prog_ifs.len(), 2);
}

#[test]
fn database_lookups_find_first_match() {
    let v1 = Vendor::new(0x8086, String::from("Intel Corporation"), vec![]);
    let v2 = Vendor::new(
        0x10DE,
        String::from("NVIDIA Corporation"),
        vec![Device::new(0x2204, String::from("GA102"), vec![])],
    );
    let c1 = BaseClass::new(
        0x06,
        String::from("Bridge"),
        vec![SubClass::new(
            0x04,
            String::from("PCI bridge"),
            vec![ProgIf::new(0x00, String::from("Normal decode"))],
        )],
    );
    let db = NameDatabase::new(vec![v1, v2], vec![c1]);

    assert_eq!(db.get_vendor(0x10DE).unwrap().name(), "NVIDIA Corporation");
    assert!(db.get_vendor(0x1002).is_none());
    let c = db.get_class(0x06).unwrap();
    assert_eq!(c.name(), "Bridge");
    assert!(db.get_class(0x07).is_none());
    let sc = c.get_sub_class(0x04).unwrap();
    assert_eq!(sc.get_prog_if(0x00).unwrap().name(), "Normal decode");
    assert!(sc.get_prog_if(0x01).is_none());
}

#[test]
fn subsystem_lookup_matches_both_keys() {
    let d = Device::new(
        0x1237,
        String::from("440FX"),
        vec![
            SubSystem::new(0x0E11, 0x4091, String::from("Smart-2")),
            SubSystem::new(0x0E11, 0x409C, String::from("NetFlex-3/P")),
        ],
    );
    assert_eq!(d.get_subsystem(0x0E11, 0x409C).unwrap().name(), "NetFlex-3/P");
    assert!(d.get_subsystem(0x0E11, 0x4092).is_none());
    assert!(d.get_subsystem(0x0E12, 0x4091).is_none());
}

#[test]
fn error_kind_queries() {
    assert!(Error::TrailingData.is_trailing_data());
    assert!(!Error::TrailingData.is_parse());
    assert!(Error::Parse(String::from("x")).is_parse());
    assert!(!Error::NotFoundAcpiMcfg.is_trailing_data());
}
