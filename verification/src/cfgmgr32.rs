use vstd::prelude::*;

use crate::error::Error;
use crate::parser::{hex2, hex2_at, hex2_ok, hex4, hex4_at, hex4_ok, spec_split, split_on};
use crate::{
    Method, Resolver, NOT_USED, OFFSET_BASE_CLASS, OFFSET_DEVICE_ID, OFFSET_HEADER_TYPE,
    OFFSET_PROG_INTF, OFFSET_REVISION_ID, OFFSET_SUB_CLASS, OFFSET_TYPE0_SUBSYSTEM_ID,
    OFFSET_TYPE0_SUBSYSTEM_VENDOR_ID, OFFSET_TYPE1_PRIMARY_BUS_NUM, OFFSET_TYPE1_SECONDARY_BUS_NUM,
    OFFSET_VENDOR_ID,
};

verus! {

/// The numeric identifiers carried by a device node's hardware-id
/// strings.
#[derive(Clone, Copy, Debug, PartialEq, Eq, Structural)]
pub struct Components {
    pub ven: u16,
    pub dev: u16,
    pub subsys_id: u16,
    pub subsys_ven: u16,
    pub rev: u8,
    pub base_class: u8,
    pub sub_class: u8,
    pub prog_intf: u8,
}

/// The identifiers of a node whose strings name nothing: the unused
/// vendor and device sentinels, everything else zero.
pub open spec fn default_components() -> Components {
    Components {
        ven: NOT_USED,
        dev: NOT_USED,
        subsys_id: 0,
        subsys_ven: 0,
        rev: 0,
        base_class: 0,
        sub_class: 0,
        prog_intf: 0,
    }
}

impl Default for Components {
    fn default() -> (r: Components)
        ensures
            r == default_components(),
    {
        Components {
            ven: NOT_USED,
            dev: NOT_USED,
            subsys_id: 0,
            subsys_ven: 0,
            rev: 0,
            base_class: 0,
            sub_class: 0,
            prog_intf: 0,
        }
    }
}

/// What one `&`-separated component of a hardware-id string
/// contributes: a `VEN_`, `DEV_`, `SUBSYS_`, `REV_` or `CC_` field
/// whose digits are well formed updates the matching identifiers, and
/// anything else leaves them untouched.
pub open spec fn spec_apply_component(c: Components, comp: Seq<char>) -> Components {
    if comp.len() == 8 && comp[0] == 'V' && comp[1] == 'E' && comp[2] == 'N' && comp[3] == '_'
        && hex4_ok(comp, 4) {
        Components { ven: hex4_at(comp, 4), ..c }
    } else if comp.len() == 8 && comp[0] == 'D' && comp[1] == 'E' && comp[2] == 'V' && comp[3]
        == '_' && hex4_ok(comp, 4) {
        Components { dev: hex4_at(comp, 4), ..c }
    } else if comp.len() >= 15 && comp[0] == 'S' && comp[1] == 'U' && comp[2] == 'B' && comp[3]
        == 'S' && comp[4] == 'Y' && comp[5] == 'S' && comp[6] == '_' && hex4_ok(comp, 7)
        && hex4_ok(comp, 11) {
        Components { subsys_id: hex4_at(comp, 7), subsys_ven: hex4_at(comp, 11), ..c }
    } else if comp.len() >= 6 && comp[0] == 'R' && comp[1] == 'E' && comp[2] == 'V' && comp[3]
        == '_' && hex2_ok(comp, 4) {
        Components { rev: hex2_at(comp, 4), ..c }
    } else if comp.len() >= 7 && comp[0] == 'C' && comp[1] == 'C' && comp[2] == '_' && hex2_ok(
        comp,
        3,
    ) && hex2_ok(comp, 5) {
        if comp.len() >= 9 && hex2_ok(comp, 7) {
            Components {
                base_class: hex2_at(comp, 3),
                sub_class: hex2_at(comp, 5),
                prog_intf: hex2_at(comp, 7),
                ..c
            }
        } else {
            Components { base_class: hex2_at(comp, 3), sub_class: hex2_at(comp, 5), ..c }
        }
    } else {
        c
    }
}

/// The identifiers after folding a run of components in order.
pub open spec fn spec_fold_components(c: Components, comps: Seq<Seq<char>>) -> Components
    decreases comps.len(),
{
    if comps.len() == 0 {
        c
    } else {
        spec_fold_components(spec_apply_component(c, comps[0]), comps.skip(1))
    }
}

/// True when the string carries the bus prefix of a PCI hardware id.
pub open spec fn has_pci_prefix(s: Seq<char>) -> bool {
    s.len() >= 4 && s[0] == 'P' && s[1] == 'C' && s[2] == 'I' && s[3] == '\\'
}

/// What one hardware-id string contributes: its components, when it
/// carries the PCI prefix; nothing otherwise.
pub open spec fn spec_apply_id_string(c: Components, s: Seq<char>) -> Components {
    if has_pci_prefix(s) {
        spec_fold_components(c, spec_split(s.skip(4), '&'))
    } else {
        c
    }
}

/// The identifiers after folding a run of hardware-id strings in
/// order.
pub open spec fn spec_components_from(c: Components, ids: Seq<Seq<char>>) -> Components
    decreases ids.len(),
{
    if ids.len() == 0 {
        c
    } else {
        spec_components_from(spec_apply_id_string(c, ids[0]), ids.skip(1))
    }
}

fn is_pci_prefixed(s: &str) -> (r: bool)
    ensures
        r == has_pci_prefix(s@),
{
    let n = s.unicode_len();
    n >= 4 && s.get_char(0) == 'P' && s.get_char(1) == 'C' && s.get_char(2) == 'I' && s.get_char(3)
        == '\\'
}

fn apply_component(c: Components, comp: &str) -> (r: Components)
    ensures
        r == spec_apply_component(c, comp@),
{
    let n = comp.unicode_len();
    if n == 8 && comp.get_char(0) == 'V' && comp.get_char(1) == 'E' && comp.get_char(2) == 'N'
        && comp.get_char(3) == '_' {
        if let Some(v) = hex4(comp, 4) {
            return Components { ven: v, ..c };
        }
    }
    if n == 8 && comp.get_char(0) == 'D' && comp.get_char(1) == 'E' && comp.get_char(2) == 'V'
        && comp.get_char(3) == '_' {
        if let Some(v) = hex4(comp, 4) {
            return Components { dev: v, ..c };
        }
    }
    if n >= 15 && comp.get_char(0) == 'S' && comp.get_char(1) == 'U' && comp.get_char(2) == 'B'
        && comp.get_char(3) == 'S' && comp.get_char(4) == 'Y' && comp.get_char(5) == 'S'
        && comp.get_char(6) == '_' {
        if let (Some(sid), Some(sven)) = (hex4(comp, 7), hex4(comp, 11)) {
            return Components { subsys_id: sid, subsys_ven: sven, ..c };
        }
    }
    if n >= 6 && comp.get_char(0) == 'R' && comp.get_char(1) == 'E' && comp.get_char(2) == 'V'
        && comp.get_char(3) == '_' {
        if let Some(v) = hex2(comp, 4) {
            return Components { rev: v, ..c };
        }
    }
    if n >= 7 && comp.get_char(0) == 'C' && comp.get_char(1) == 'C' && comp.get_char(2) == '_' {
        if let (Some(b), Some(sc)) = (hex2(comp, 3), hex2(comp, 5)) {
            if n >= 9 {
                if let Some(p) = hex2(comp, 7) {
                    return Components { base_class: b, sub_class: sc, prog_intf: p, ..c };
                }
            }
            return Components { base_class: b, sub_class: sc, ..c };
        }
    }
    c
}

impl Components {
    /// Folds a node's hardware-id strings into its numeric
    /// identifiers, starting from the defaults. Strings without the
    /// PCI prefix, and components whose digits are not well formed,
    /// contribute nothing.
    pub fn from(values: &Vec<String>) -> (r: Components)
        ensures
            r == spec_components_from(
                default_components(),
                values@.map_values(|s: String| s@),
            ),
    {
        let ghost all = values@.map_values(|s: String| s@);
        let mut c = Components::default();
        let mut i: usize = 0;
        proof {
            assert(all.skip(0) =~= all);
        }
        while i < values.len()
            invariant
                values@.map_values(|s: String| s@) == all,
                i <= values@.len(),
                spec_components_from(default_components(), all) == spec_components_from(
                    c,
                    all.skip(i as int),
                ),
            decreases values@.len() - i,
        {
            let ghost rem = all.skip(i as int);
            proof {
                assert(rem[0] == all[i as int]);
                assert(rem.skip(1) =~= all.skip(i as int + 1));
            }
            let s = values[i].as_str();
            if is_pci_prefixed(s) {
                let n = s.unicode_len();
                let rest = s.substring_char(4, n);
                proof {
                    assert(rest@ =~= s@.skip(4));
                }
                let parts = split_on(rest, '&');
                let ghost pmodel = parts@.map_values(|p: String| p@);
                let ghost c0 = c;
                let mut j: usize = 0;
                proof {
                    assert(pmodel.skip(0) =~= pmodel);
                }
                while j < parts.len()
                    invariant
                        parts@.map_values(|p: String| p@) == pmodel,
                        j <= parts@.len(),
                        spec_fold_components(c0, pmodel) == spec_fold_components(
                            c,
                            pmodel.skip(j as int),
                        ),
                    decreases parts@.len() - j,
                {
                    proof {
                        assert(pmodel.skip(j as int)[0] == pmodel[j as int]);
                        assert(pmodel.skip(j as int).skip(1) =~= pmodel.skip(j as int + 1));
                    }
                    c = apply_component(c, parts[j].as_str());
                    j = j + 1;
                }
                proof {
                    assert(pmodel.skip(parts@.len() as int) =~= Seq::<Seq<char>>::empty());
                    assert(c == spec_fold_components(c0, pmodel));
                    assert(spec_apply_id_string(c0, rem[0]) == spec_fold_components(c0, pmodel));
                }
            }
            i = i + 1;
        }
        proof {
            assert(all.skip(values@.len() as int) =~= Seq::<Seq<char>>::empty());
        }
        c
    }
}

/// One entry of the cached node directory: the address the operating
/// system reported for the node, its instance identifier, the
/// identifiers of its children on the bus (absent when the node has
/// none), and the numeric identifiers from its hardware-id strings.
#[derive(Debug)]
pub struct DevNode {
    pub bus: u8,
    pub device: u8,
    pub func: u8,
    pub id: String,
    pub child_ids: Option<Vec<String>>,
    pub components: Components,
}

impl DevNode {
    /// Builds one directory entry from what the operating system
    /// reported, folding the hardware-id strings into numeric
    /// identifiers.
    pub fn new(
        bus: u8,
        device: u8,
        func: u8,
        id: String,
        child_ids: Option<Vec<String>>,
        hardware_ids: &Vec<String>,
    ) -> (r: DevNode)
        ensures
            r.bus == bus,
            r.device == device,
            r.func == func,
            r.id@ == id@,
            r.child_ids == child_ids,
            r.components == spec_components_from(
                default_components(),
                hardware_ids@.map_values(|s: String| s@),
            ),
    {
        let components = Components::from(hardware_ids);
        DevNode { bus, device, func, id, child_ids, components }
    }

    /// True when the node's class code marks a PCI-to-PCI bridge.
    pub fn is_pci_bridge(&self) -> (r: bool)
        ensures
            r == (self.components.base_class == 0x06 && self.components.sub_class == 0x04),
    {
        self.components.base_class == 0x06 && self.components.sub_class == 0x04
    }

    /// True when the node reads as a bridge: it lists children on the
    /// bus, or its class code says so. The operating system does not
    /// expose the raw header byte, so the layout kind is inferred;
    /// a bridge whose children are not enumerated yet may escape the
    /// first half of the test.
    pub fn is_type1(&self) -> (r: bool)
        ensures
            r == node_is_type1(self),
    {
        self.child_ids.is_some() || self.is_pci_bridge()
    }
}

/// True when the node reads as a bridge.
pub open spec fn node_is_type1(n: &DevNode) -> bool {
    n.child_ids is Some || (n.components.base_class == 0x06 && n.components.sub_class == 0x04)
}

/// The header byte the backend synthesizes: every node is reported
/// multi-function, and bridges carry layout kind 1.
pub open spec fn spec_header_byte(type1: bool) -> u8 {
    if type1 {
        0x81
    } else {
        0x80
    }
}

/// The first child identifier carrying the PCI prefix, in list order.
pub open spec fn first_pci_child(ids: Seq<Seq<char>>) -> Option<Seq<char>>
    decreases ids.len(),
{
    if ids.len() == 0 {
        None
    } else if has_pci_prefix(ids[0]) {
        Some(ids[0])
    } else {
        first_pci_child(ids.skip(1))
    }
}

/// The first directory node carrying the identifier, in directory
/// order.
pub open spec fn find_node_by_id(nodes: Seq<DevNode>, id: Seq<char>) -> Option<int>
    decreases nodes.len(),
{
    if nodes.len() == 0 {
        None
    } else if nodes[0].id@ == id {
        Some(0int)
    } else {
        match find_node_by_id(nodes.skip(1), id) {
            Some(i) => Some(i + 1),
            None => None,
        }
    }
}

/// The first directory node bound to the address, in directory order.
pub open spec fn find_node_by_addr(nodes: Seq<DevNode>, bus: u8, device: u8, func: u8) -> Option<
    int,
>
    decreases nodes.len(),
{
    if nodes.len() == 0 {
        None
    } else if nodes[0].bus == bus && nodes[0].device == device && nodes[0].func == func {
        Some(0int)
    } else {
        match find_node_by_addr(nodes.skip(1), bus, device, func) {
            Some(i) => Some(i + 1),
            None => None,
        }
    }
}

/// The secondary bus number a bridge node reports: the bus of the
/// directory node named by its first PCI child, or 0xFF when it has
/// no such child or the child is not in the directory.
pub open spec fn node_secondary_bus(nodes: Seq<DevNode>, n: &DevNode) -> u8 {
    match n.child_ids {
        Some(ids) => match first_pci_child(ids@.map_values(|s: String| s@)) {
            Some(cid) => match find_node_by_id(nodes, cid) {
                Some(i) => nodes[i].bus,
                None => 0xFF,
            },
            None => 0xFF,
        },
        None => 0xFF,
    }
}

/// The register snapshot the backend serves for one directory node.
pub open spec fn node_regs(nodes: Seq<DevNode>, n: &DevNode) -> Cfgmgr32 {
    Cfgmgr32 {
        components: n.components,
        bus: n.bus,
        secondary_bus: node_secondary_bus(nodes, n),
        type1: node_is_type1(n),
    }
}

/// The register snapshot served for an address with no node: the
/// default identifiers, which read as no device present.
pub open spec fn default_regs() -> Cfgmgr32 {
    Cfgmgr32 { components: default_components(), bus: 0xFF, secondary_bus: 0xFF, type1: false }
}

/// One bound address of the device-tree backend: a register snapshot
/// synthesized from the node directory. Fields the operating system
/// does not expose read as zero.
#[derive(Clone, Copy, Debug, PartialEq, Eq, Structural)]
pub struct Cfgmgr32 {
    pub components: Components,
    pub bus: u8,
    pub secondary_bus: u8,
    pub type1: bool,
}

impl Cfgmgr32 {
    pub fn get_vendor(&self) -> (r: u16)
        ensures
            r == self.components.ven,
    {
        self.components.ven
    }

    pub fn get_device(&self) -> (r: u16)
        ensures
            r == self.components.dev,
    {
        self.components.dev
    }

    pub fn get_revision(&self) -> (r: u8)
        ensures
            r == self.components.rev,
    {
        self.components.rev
    }

    pub fn get_base_class(&self) -> (r: u8)
        ensures
            r == self.components.base_class,
    {
        self.components.base_class
    }

    pub fn get_sub_class(&self) -> (r: u8)
        ensures
            r == self.components.sub_class,
    {
        self.components.sub_class
    }

    pub fn get_prog_intf(&self) -> (r: u8)
        ensures
            r == self.components.prog_intf,
    {
        self.components.prog_intf
    }

    pub fn get_subsys_id(&self) -> (r: u16)
        ensures
            r == self.components.subsys_id,
    {
        self.components.subsys_id
    }

    pub fn get_subsys_vendor(&self) -> (r: u16)
        ensures
            r == self.components.subsys_ven,
    {
        self.components.subsys_ven
    }

    pub fn get_header(&self) -> (r: u8)
        ensures
            r == spec_header_byte(self.type1),
    {
        if self.type1 {
            0x81
        } else {
            0x80
        }
    }

    pub fn get_primary_bus_number(&self) -> (r: u8)
        ensures
            r == self.bus,
    {
        self.bus
    }

    pub fn get_secondary_bus_number(&self) -> (r: u8)
        ensures
            r == self.secondary_bus,
    {
        self.secondary_bus
    }
}

impl Method for Cfgmgr32 {
    /// The synthesized byte register at `offset`: identifiers and bus
    /// numbers where the directory knows them, 0 everywhere else.
    open spec fn read8_spec(&self, offset: u8) -> u8 {
        if offset == OFFSET_REVISION_ID {
            self.components.rev
        } else if offset == OFFSET_PROG_INTF {
            self.components.prog_intf
        } else if offset == OFFSET_SUB_CLASS {
            self.components.sub_class
        } else if offset == OFFSET_BASE_CLASS {
            self.components.base_class
        } else if offset == OFFSET_HEADER_TYPE {
            spec_header_byte(self.type1)
        } else if offset == OFFSET_TYPE1_PRIMARY_BUS_NUM {
            self.bus
        } else if offset == OFFSET_TYPE1_SECONDARY_BUS_NUM {
            self.secondary_bus
        } else {
            0
        }
    }

    /// The synthesized word register at `offset`.
    open spec fn read16_spec(&self, offset: u8) -> u16 {
        if offset == OFFSET_VENDOR_ID {
            self.components.ven
        } else if offset == OFFSET_DEVICE_ID {
            self.components.dev
        } else if offset == OFFSET_TYPE0_SUBSYSTEM_VENDOR_ID {
            self.components.subsys_id
        } else if offset == OFFSET_TYPE0_SUBSYSTEM_ID {
            self.components.subsys_ven
        } else {
            0
        }
    }

    /// The backend exposes no dword registers: base addresses,
    /// expansion areas and the capability space all read as 0.
    open spec fn read32_spec(&self, offset: u8) -> u32 {
        0
    }

    fn read8(&self, offset: u8) -> (r: u8) {
        if offset == OFFSET_REVISION_ID {
            self.components.rev
        } else if offset == OFFSET_PROG_INTF {
            self.components.prog_intf
        } else if offset == OFFSET_SUB_CLASS {
            self.components.sub_class
        } else if offset == OFFSET_BASE_CLASS {
            self.components.base_class
        } else if offset == OFFSET_HEADER_TYPE {
            self.get_header()
        } else if offset == OFFSET_TYPE1_PRIMARY_BUS_NUM {
            self.bus
        } else if offset == OFFSET_TYPE1_SECONDARY_BUS_NUM {
            self.secondary_bus
        } else {
            0
        }
    }

    fn read16(&self, offset: u8) -> (r: u16) {
        if offset == OFFSET_VENDOR_ID {
            self.components.ven
        } else if offset == OFFSET_DEVICE_ID {
            self.components.dev
        } else if offset == OFFSET_TYPE0_SUBSYSTEM_VENDOR_ID {
            self.components.subsys_id
        } else if offset == OFFSET_TYPE0_SUBSYSTEM_ID {
            self.components.subsys_ven
        } else {
            0
        }
    }

    fn read32(&self, offset: u8) -> (r: u32) {
        0
    }
}

/// Compares two strings character by character.
fn str_eq(a: &str, b: &str) -> (r: bool)
    ensures
        r == (a@ == b@),
{
    let na = a.unicode_len();
    let nb = b.unicode_len();
    if na != nb {
        proof {
            assert(a@ != b@);
        }
        return false;
    }
    let mut i: usize = 0;
    while i < na
        invariant
            na == a@.len(),
            na == b@.len(),
            i <= na,
            forall|k: int| 0 <= k < i ==> a@[k] == b@[k],
        decreases na - i,
    {
        if a.get_char(i) != b.get_char(i) {
            proof {
                assert(a@[i as int] != b@[i as int]);
            }
            return false;
        }
        i = i + 1;
    }
    proof {
        assert(a@ =~= b@);
    }
    true
}

/// The cached directory of PCI device nodes, built once from the
/// operating system's device-instance database and read-only
/// afterwards.
#[derive(Debug)]
pub struct Directory {
    pub nodes: Vec<DevNode>,
}

impl Directory {
    pub fn new(nodes: Vec<DevNode>) -> (r: Directory)
        ensures
            r.nodes@ == nodes@,
    {
        Directory { nodes }
    }

    /// True when the directory holds any node: the backend can serve
    /// this host.
    pub fn support(&self) -> (r: bool)
        ensures
            r == (self.nodes@.len() != 0),
    {
        self.nodes.len() != 0
    }

    fn find_by_id(&self, id: &str) -> (r: Option<usize>)
        ensures
            match r {
                Some(i) => i < self.nodes@.len() && find_node_by_id(self.nodes@, id@) == Some(
                    i as int,
                ),
                None => find_node_by_id(self.nodes@, id@) is None,
            },
    {
        let n = self.nodes.len();
        let mut i: usize = 0;
        proof {
            assert(self.nodes@.skip(0) =~= self.nodes@);
        }
        while i < n
            invariant
                n == self.nodes@.len(),
                i <= n,
                match find_node_by_id(self.nodes@.skip(i as int), id@) {
                    Some(k) => find_node_by_id(self.nodes@, id@) == Some(k + i),
                    None => find_node_by_id(self.nodes@, id@) == find_node_by_id(
                        self.nodes@.skip(i as int),
                        id@,
                    ),
                },
            decreases n - i,
        {
            proof {
                assert(self.nodes@.skip(i as int)[0] == self.nodes@[i as int]);
                assert(self.nodes@.skip(i as int).skip(1) =~= self.nodes@.skip(i as int + 1));
            }
            if str_eq(self.nodes[i].id.as_str(), id) {
                return Some(i);
            }
            i = i + 1;
        }
        proof {
            assert(self.nodes@.skip(n as int) =~= Seq::<DevNode>::empty());
        }
        None
    }

    /// The secondary bus the node's first PCI child lives on, or 0xFF
    /// when it has no resolvable child.
    #[verifier::loop_isolation(false)]
    fn secondary_bus_of(&self, node: &DevNode) -> (r: u8)
        ensures
            r == node_secondary_bus(self.nodes@, node),
    {
        match &node.child_ids {
            None => 0xFF,
            Some(ids) => {
                let ghost im = ids@.map_values(|s: String| s@);
                let n = ids.len();
                let mut i: usize = 0;
                proof {
                    assert(im.skip(0) =~= im);
                }
                while i < n
                    invariant
                        n == ids@.len(),
                        ids@.map_values(|s: String| s@) == im,
                        i <= n,
                        first_pci_child(im) == first_pci_child(im.skip(i as int)),
                    decreases n - i,
                {
                    proof {
                        assert(im.skip(i as int)[0] == im[i as int]);
                        assert(im.skip(i as int).skip(1) =~= im.skip(i as int + 1));
                    }
                    if is_pci_prefixed(ids[i].as_str()) {
                        proof {
                            assert(im[i as int] == ids@[i as int]@);
                            assert(has_pci_prefix(im.skip(i as int)[0]));
                            assert(first_pci_child(im.skip(i as int)) == Some(im[i as int]));
                            assert(first_pci_child(im) == Some(im[i as int]));
                        }
                        let found = self.find_by_id(ids[i].as_str());
                        match found {
                            Some(k) => {
                                return self.nodes[k].bus;
                            },
                            None => {
                                return 0xFF;
                            },
                        }
                    }
                    i = i + 1;
                }
                proof {
                    assert(im.skip(n as int) =~= Seq::<Seq<char>>::empty());
                }
                0xFF
            },
        }
    }

    fn regs_of(&self, node: &DevNode) -> (r: Cfgmgr32)
        ensures
            r == node_regs(self.nodes@, node),
    {
        Cfgmgr32 {
            components: node.components,
            bus: node.bus,
            secondary_bus: self.secondary_bus_of(node),
            type1: node.is_type1(),
        }
    }
}

impl Resolver for Directory {
    type Handle = Cfgmgr32;

    /// Every address resolves: a node bound to it yields its register
    /// snapshot, and an address with no node degrades to the default
    /// snapshot, which reads as no device present.
    open spec fn resolve_spec(&self, bus: u8, device: u8, func: u8) -> Option<Cfgmgr32> {
        match find_node_by_addr(self.nodes@, bus, device, func) {
            Some(i) => Some(node_regs(self.nodes@, &self.nodes@[i])),
            None => Some(default_regs()),
        }
    }

    fn resolve(&self, bus: u8, device: u8, func: u8) -> (r: Result<Cfgmgr32, Error>) {
        let n = self.nodes.len();
        let mut i: usize = 0;
        proof {
            assert(self.nodes@.skip(0) =~= self.nodes@);
        }
        while i < n
            invariant
                n == self.nodes@.len(),
                i <= n,
                match find_node_by_addr(self.nodes@.skip(i as int), bus, device, func) {
                    Some(k) => find_node_by_addr(self.nodes@, bus, device, func) == Some(k + i),
                    None => find_node_by_addr(self.nodes@, bus, device, func)
                        == find_node_by_addr(self.nodes@.skip(i as int), bus, device, func),
                },
            decreases n - i,
        {
            proof {
                assert(self.nodes@.skip(i as int)[0] == self.nodes@[i as int]);
                assert(self.nodes@.skip(i as int).skip(1) =~= self.nodes@.skip(i as int + 1));
            }
            let node = &self.nodes[i];
            if node.bus == bus && node.device == device && node.func == func {
                return Ok(self.regs_of(node));
            }
            i = i + 1;
        }
        proof {
            assert(self.nodes@.skip(n as int) =~= Seq::<DevNode>::empty());
        }
        Ok(
            Cfgmgr32 {
                components: Components::default(),
                bus: 0xFF,
                secondary_bus: 0xFF,
                type1: false,
            },
        )
    }
}

} // verus!
