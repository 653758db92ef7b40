use vstd::prelude::*;

verus! {

/// The mathematical value of a subsystem record.
pub struct SubSystemModel {
    pub sub_vendor: u16,
    pub sub_device: u16,
    pub name: Seq<char>,
}

/// The mathematical value of a device record.
pub struct DeviceModel {
    pub id: u16,
    pub name: Seq<char>,
    pub subsystems: Seq<SubSystemModel>,
}

/// The mathematical value of a vendor record.
pub struct VendorModel {
    pub id: u16,
    pub name: Seq<char>,
    pub devices: Seq<DeviceModel>,
}

/// The mathematical value of a programming-interface record.
pub struct ProgIfModel {
    pub id: u8,
    pub name: Seq<char>,
}

/// The mathematical value of a sub-class record.
pub struct SubClassModel {
    pub id: u8,
    pub name: Seq<char>,
    pub prog_ifs: Seq<ProgIfModel>,
}

/// The mathematical value of a base-class record.
pub struct ClassModel {
    pub id: u8,
    pub name: Seq<char>,
    pub sub_classes: Seq<SubClassModel>,
}

/// One subsystem of a device, keyed by the (vendor, device) pair of
/// the subsystem.
pub struct SubSystem {
    pub sub_vendor: u16,
    pub sub_device: u16,
    pub name: String,
}

impl View for SubSystem {
    type V = SubSystemModel;

    open spec fn view(&self) -> SubSystemModel {
        SubSystemModel { sub_vendor: self.sub_vendor, sub_device: self.sub_device, name: self.name@ }
    }
}

impl SubSystem {
    pub fn new(sub_vendor: u16, sub_device: u16, name: String) -> (r: SubSystem)
        ensures
            r@ == (SubSystemModel { sub_vendor, sub_device, name: name@ }),
    {
        SubSystem { sub_vendor, sub_device, name }
    }

    pub fn sub_vendor(&self) -> (r: u16)
        ensures
            r == self.sub_vendor,
    {
        self.sub_vendor
    }

    pub fn sub_device(&self) -> (r: u16)
        ensures
            r == self.sub_device,
    {
        self.sub_device
    }

    pub fn name(&self) -> (r: &str)
        ensures
            r@ == self.name@,
    {
        self.name.as_str()
    }
}

/// One device of a vendor, with its subsystem records.
pub struct Device {
    pub id: u16,
    pub name: String,
    pub subsystems: Vec<SubSystem>,
}

impl View for Device {
    type V = DeviceModel;

    open spec fn view(&self) -> DeviceModel {
        DeviceModel {
            id: self.id,
            name: self.name@,
            subsystems: self.subsystems@.map_values(|s: SubSystem| s@),
        }
    }
}

impl Device {
    pub fn new(id: u16, name: String, subsystems: Vec<SubSystem>) -> (r: Device)
        ensures
            r@ == (DeviceModel {
                id,
                name: name@,
                subsystems: subsystems@.map_values(|s: SubSystem| s@),
            }),
    {
        Device { id, name, subsystems }
    }

    pub fn id(&self) -> (r: u16)
        ensures
            r == self.id,
    {
        self.id
    }

    pub fn name(&self) -> (r: &str)
        ensures
            r@ == self.name@,
    {
        self.name.as_str()
    }

    /// The first subsystem record keyed by the pair, if any.
    pub fn get_subsystem(&self, vendor: u16, device: u16) -> (r: Option<&SubSystem>)
        ensures
            r is Some <==> exists|i: int|
                0 <= i < self.subsystems@.len() && (#[trigger] self.subsystems@[i]).sub_vendor
                    == vendor && self.subsystems@[i].sub_device == device,
            r matches Some(s) ==> exists|i: int|
                {
                    &&& 0 <= i < self.subsystems@.len()
                    &&& *s == self.subsystems@[i]
                    &&& (#[trigger] self.subsystems@[i]).sub_vendor == vendor
                    &&& self.subsystems@[i].sub_device == device
                    &&& forall|j: int|
                        0 <= j < i ==> !((#[trigger] self.subsystems@[j]).sub_vendor == vendor
                            && self.subsystems@[j].sub_device == device)
                },
    {
        let n = self.subsystems.len();
        let mut i: usize = 0;
        while i < n
            invariant
                n == self.subsystems@.len(),
                i <= n,
                forall|j: int|
                    0 <= j < i ==> !((#[trigger] self.subsystems@[j]).sub_vendor == vendor
                        && self.subsystems@[j].sub_device == device),
            decreases n - i,
        {
            let s = &self.subsystems[i];
            if s.sub_vendor == vendor && s.sub_device == device {
                return Some(s);
            }
            i = i + 1;
        }
        None
    }
}

/// One vendor of the name database, with its device records.
pub struct Vendor {
    pub id: u16,
    pub name: String,
    pub devices: Vec<Device>,
}

impl View for Vendor {
    type V = VendorModel;

    open spec fn view(&self) -> VendorModel {
        VendorModel {
            id: self.id,
            name: self.name@,
            devices: self.devices@.map_values(|d: Device| d@),
        }
    }
}

impl Vendor {
    pub fn new(id: u16, name: String, devices: Vec<Device>) -> (r: Vendor)
        ensures
            r@ == (VendorModel {
                id,
                name: name@,
                devices: devices@.map_values(|d: Device| d@),
            }),
    {
        Vendor { id, name, devices }
    }

    pub fn id(&self) -> (r: u16)
        ensures
            r == self.id,
    {
        self.id
    }

    pub fn name(&self) -> (r: &str)
        ensures
            r@ == self.name@,
    {
        self.name.as_str()
    }

    /// The first device record keyed by `id`, if any.
    pub fn get_device(&self, id: u16) -> (r: Option<&Device>)
        ensures
            r is Some <==> exists|i: int|
                0 <= i < self.devices@.len() && (#[trigger] self.devices@[i]).id == id,
            r matches Some(d) ==> exists|i: int|
                {
                    &&& 0 <= i < self.devices@.len()
                    &&& *d == self.devices@[i]
                    &&& (#[trigger] self.devices@[i]).id == id
                    &&& forall|j: int| 0 <= j < i ==> (#[trigger] self.devices@[j]).id != id
                },
    {
        let n = self.devices.len();
        let mut i: usize = 0;
        while i < n
            invariant
                n == self.devices@.len(),
                i <= n,
                forall|j: int| 0 <= j < i ==> (#[trigger] self.devices@[j]).id != id,
            decreases n - i,
        {
            let d = &self.devices[i];
            if d.id == id {
                return Some(d);
            }
            i = i + 1;
        }
        None
    }
}

/// One programming interface of a sub-class.
pub struct ProgIf {
    pub id: u8,
    pub name: String,
}

impl View for ProgIf {
    type V = ProgIfModel;

    open spec fn view(&self) -> ProgIfModel {
        ProgIfModel { id: self.id, name: self.name@ }
    }
}

impl ProgIf {
    pub fn new(id: u8, name: String) -> (r: ProgIf)
        ensures
            r@ == (ProgIfModel { id, name: name@ }),
    {
        ProgIf { id, name }
    }

    pub fn id(&self) -> (r: u8)
        ensures
            r == self.id,
    {
        self.id
    }

    pub fn name(&self) -> (r: &str)
        ensures
            r@ == self.name@,
    {
        self.name.as_str()
    }
}

/// One sub-class of a base class, with its programming interfaces.
pub struct SubClass {
    pub id: u8,
    pub name: String,
    pub prog_ifs: Vec<ProgIf>,
}

impl View for SubClass {
    type V = SubClassModel;

    open spec fn view(&self) -> SubClassModel {
        SubClassModel {
            id: self.id,
            name: self.name@,
            prog_ifs: self.prog_ifs@.map_values(|p: ProgIf| p@),
        }
    }
}

impl SubClass {
    pub fn new(id: u8, name: String, prog_ifs: Vec<ProgIf>) -> (r: SubClass)
        ensures
            r@ == (SubClassModel {
                id,
                name: name@,
                prog_ifs: prog_ifs@.map_values(|p: ProgIf| p@),
            }),
    {
        SubClass { id, name, prog_ifs }
    }

    pub fn id(&self) -> (r: u8)
        ensures
            r == self.id,
    {
        self.id
    }

    pub fn name(&self) -> (r: &str)
        ensures
            r@ == self.name@,
    {
        self.name.as_str()
    }

    /// The first programming-interface record keyed by `id`, if any.
    pub fn get_prog_if(&self, id: u8) -> (r: Option<&ProgIf>)
        ensures
            r is Some <==> exists|i: int|
                0 <= i < self.prog_ifs@.len() && (#[trigger] self.prog_ifs@[i]).id == id,
            r matches Some(p) ==> exists|i: int|
                {
                    &&& 0 <= i < self.prog_ifs@.len()
                    &&& *p == self.prog_ifs@[i]
                    &&& (#[trigger] self.prog_ifs@[i]).id == id
                    &&& forall|j: int| 0 <= j < i ==> (#[trigger] self.prog_ifs@[j]).id != id
                },
    {
        let n = self.prog_ifs.len();
        let mut i: usize = 0;
        while i < n
            invariant
                n == self.prog_ifs@.len(),
                i <= n,
                forall|j: int| 0 <= j < i ==> (#[trigger] self.prog_ifs@[j]).id != id,
            decreases n - i,
        {
            let p = &self.prog_ifs[i];
            if p.id == id {
                return Some(p);
            }
            i = i + 1;
        }
        None
    }
}

/// One base class of the name database, with its sub-classes.
pub struct BaseClass {
    pub id: u8,
    pub name: String,
    pub sub_classes: Vec<SubClass>,
}

impl View for BaseClass {
    type V = ClassModel;

    open spec fn view(&self) -> ClassModel {
        ClassModel {
            id: self.id,
            name: self.name@,
            sub_classes: self.sub_classes@.map_values(|s: SubClass| s@),
        }
    }
}

impl BaseClass {
    pub fn new(id: u8, name: String, sub_classes: Vec<SubClass>) -> (r: BaseClass)
        ensures
            r@ == (ClassModel {
                id,
                name: name@,
                sub_classes: sub_classes@.map_values(|s: SubClass| s@),
            }),
    {
        BaseClass { id, name, sub_classes }
    }

    pub fn id(&self) -> (r: u8)
        ensures
            r == self.id,
    {
        self.id
    }

    pub fn name(&self) -> (r: &str)
        ensures
            r@ == self.name@,
    {
        self.name.as_str()
    }

    /// The first sub-class record keyed by `id`, if any.
    pub fn get_sub_class(&self, id: u8) -> (r: Option<&SubClass>)
        ensures
            r is Some <==> exists|i: int|
                0 <= i < self.sub_classes@.len() && (#[trigger] self.sub_classes@[i]).id == id,
            r matches Some(s) ==> exists|i: int|
                {
                    &&& 0 <= i < self.sub_classes@.len()
                    &&& *s == self.sub_classes@[i]
                    &&& (#[trigger] self.sub_classes@[i]).id == id
                    &&& forall|j: int| 0 <= j < i ==> (#[trigger] self.sub_classes@[j]).id != id
                },
    {
        let n = self.sub_classes.len();
        let mut i: usize = 0;
        while i < n
            invariant
                n == self.sub_classes@.len(),
                i <= n,
                forall|j: int| 0 <= j < i ==> (#[trigger] self.sub_classes@[j]).id != id,
            decreases n - i,
        {
            let s = &self.sub_classes[i];
            if s.id == id {
                return Some(s);
            }
            i = i + 1;
        }
        None
    }
}

/// The two lookup tables of the name database, built once from the
/// database text and read-only afterwards.
pub struct NameDatabase {
    pub vendors: Vec<Vendor>,
    pub classes: Vec<BaseClass>,
}

impl NameDatabase {
    pub fn new(vendors: Vec<Vendor>, classes: Vec<BaseClass>) -> (r: NameDatabase)
        ensures
            r.vendors@ == vendors@,
            r.classes@ == classes@,
    {
        NameDatabase { vendors, classes }
    }

    /// The first vendor record keyed by `id`, if any.
    pub fn get_vendor(&self, id: u16) -> (r: Option<&Vendor>)
        ensures
            r is Some <==> exists|i: int|
                0 <= i < self.vendors@.len() && (#[trigger] self.vendors@[i]).id == id,
            r matches Some(v) ==> exists|i: int|
                {
                    &&& 0 <= i < self.vendors@.len()
                    &&& *v == self.vendors@[i]
                    &&& (#[trigger] self.vendors@[i]).id == id
                    &&& forall|j: int| 0 <= j < i ==> (#[trigger] self.vendors@[j]).id != id
                },
    {
        let n = self.vendors.len();
        let mut i: usize = 0;
        while i < n
            invariant
                n == self.vendors@.len(),
                i <= n,
                forall|j: int| 0 <= j < i ==> (#[trigger] self.vendors@[j]).id != id,
            decreases n - i,
        {
            let v = &self.vendors[i];
            if v.id == id {
                return Some(v);
            }
            i = i + 1;
        }
        None
    }

    /// The first base-class record keyed by `id`, if any.
    pub fn get_class(&self, id: u8) -> (r: Option<&BaseClass>)
        ensures
            r is Some <==> exists|i: int|
                0 <= i < self.classes@.len() && (#[trigger] self.classes@[i]).id == id,
            r matches Some(c) ==> exists|i: int|
                {
                    &&& 0 <= i < self.classes@.len()
                    &&& *c == self.classes@[i]
                    &&& (#[trigger] self.classes@[i]).id == id
                    &&& forall|j: int| 0 <= j < i ==> (#[trigger] self.classes@[j]).id != id
                },
    {
        let n = self.classes.len();
        let mut i: usize = 0;
        while i < n
            invariant
                n == self.classes@.len(),
                i <= n,
                forall|j: int| 0 <= j < i ==> (#[trigger] self.classes@[j]).id != id,
            decreases n - i,
        {
            let c = &self.classes[i];
            if c.id == id {
                return Some(c);
            }
            i = i + 1;
        }
        None
    }
}

} // verus!
