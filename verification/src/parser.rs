use vstd::prelude::*;

use crate::error::Error;
use crate::ids::{
    BaseClass, ClassModel, Device, DeviceModel, ProgIf, ProgIfModel, SubClass, SubClassModel,
    SubSystem, SubSystemModel, Vendor, VendorModel,
};

verus! {

/// True of the sixteen hexadecimal digit characters, either case.
pub open spec fn is_hex_digit(c: char) -> bool {
    ('0' <= c && c <= '9') || ('a' <= c && c <= 'f') || ('A' <= c && c <= 'F')
}

/// The numeric value of a hexadecimal digit character.
pub open spec fn hex_digit_val(c: char) -> u32 {
    if '0' <= c && c <= '9' {
        (c as u32 - '0' as u32) as u32
    } else if 'a' <= c && c <= 'f' {
        (c as u32 - 'a' as u32 + 10) as u32
    } else if 'A' <= c && c <= 'F' {
        (c as u32 - 'A' as u32 + 10) as u32
    } else {
        0
    }
}

/// True when four hexadecimal digits stand at `at`.
pub open spec fn hex4_ok(l: Seq<char>, at: int) -> bool {
    &&& 0 <= at
    &&& at + 4 <= l.len()
    &&& is_hex_digit(l[at])
    &&& is_hex_digit(l[at + 1])
    &&& is_hex_digit(l[at + 2])
    &&& is_hex_digit(l[at + 3])
}

/// The value of the four hexadecimal digits at `at`.
pub open spec fn hex4_at(l: Seq<char>, at: int) -> u16 {
    (hex_digit_val(l[at]) * 0x1000 + hex_digit_val(l[at + 1]) * 0x100 + hex_digit_val(l[at + 2])
        * 0x10 + hex_digit_val(l[at + 3])) as u16
}

/// True when two hexadecimal digits stand at `at`.
pub open spec fn hex2_ok(l: Seq<char>, at: int) -> bool {
    &&& 0 <= at
    &&& at + 2 <= l.len()
    &&& is_hex_digit(l[at])
    &&& is_hex_digit(l[at + 1])
}

/// The value of the two hexadecimal digits at `at`.
pub open spec fn hex2_at(l: Seq<char>, at: int) -> u8 {
    (hex_digit_val(l[at]) * 0x10 + hex_digit_val(l[at + 1])) as u8
}

/// True when two space characters stand at `at`.
pub open spec fn two_spaces(l: Seq<char>, at: int) -> bool {
    &&& 0 <= at
    &&& at + 2 <= l.len()
    &&& l[at] == ' '
    &&& l[at + 1] == ' '
}

/// What one line of the database text is, by its shape alone. Lines
/// indented one tab read as device records (four digits) or sub-class
/// records (two digits); lines indented two tabs read as subsystem or
/// programming-interface records; which of the pair a line can stand
/// for in context is the phase's affair.
pub enum LineKind {
    Blank,
    Comment,
    VendorLine(u16, Seq<char>),
    DeviceLine(u16, Seq<char>),
    SubSystemLine(u16, u16, Seq<char>),
    ClassLine(u8, Seq<char>),
    SubClassLine(u8, Seq<char>),
    ProgIfLine(u8, Seq<char>),
    Bad,
}

/// Classifies one line of the database text. A record's identifier
/// digits, its mandatory separators and a non-empty name must all be
/// present; everything after the separator, to the end of the line, is
/// the name.
pub open spec fn spec_classify(l: Seq<char>) -> LineKind {
    if l.len() == 0 {
        LineKind::Blank
    } else if l[0] == '#' {
        LineKind::Comment
    } else if l.len() >= 2 && l[0] == '\t' && l[1] == '\t' {
        if l.len() >= 14 && hex4_ok(l, 2) && l[6] == ' ' && hex4_ok(l, 7) && two_spaces(l, 11) {
            LineKind::SubSystemLine(hex4_at(l, 2), hex4_at(l, 7), l.skip(13))
        } else if l.len() >= 7 && hex2_ok(l, 2) && two_spaces(l, 4) {
            LineKind::ProgIfLine(hex2_at(l, 2), l.skip(6))
        } else {
            LineKind::Bad
        }
    } else if l[0] == '\t' {
        if l.len() >= 8 && hex4_ok(l, 1) && two_spaces(l, 5) {
            LineKind::DeviceLine(hex4_at(l, 1), l.skip(7))
        } else if l.len() >= 6 && hex2_ok(l, 1) && two_spaces(l, 3) {
            LineKind::SubClassLine(hex2_at(l, 1), l.skip(5))
        } else {
            LineKind::Bad
        }
    } else if l.len() >= 2 && l[0] == 'C' && l[1] == ' ' {
        if l.len() >= 7 && hex2_ok(l, 2) && two_spaces(l, 4) {
            LineKind::ClassLine(hex2_at(l, 2), l.skip(6))
        } else {
            LineKind::Bad
        }
    } else if l.len() >= 7 && hex4_ok(l, 0) && two_spaces(l, 4) {
        LineKind::VendorLine(hex4_at(l, 0), l.skip(6))
    } else {
        LineKind::Bad
    }
}

/// The exec counterpart of `LineKind`, carrying owned names.
pub enum LineClass {
    Blank,
    Comment,
    VendorLine(u16, String),
    DeviceLine(u16, String),
    SubSystemLine(u16, u16, String),
    ClassLine(u8, String),
    SubClassLine(u8, String),
    ProgIfLine(u8, String),
    Bad,
}

fn hex_digit(c: char) -> (r: Option<u32>)
    ensures
        r is Some <==> is_hex_digit(c),
        r matches Some(v) ==> v == hex_digit_val(c) && v < 16,
{
    if c >= '0' && c <= '9' {
        Some(c as u32 - '0' as u32)
    } else if c >= 'a' && c <= 'f' {
        Some(c as u32 - 'a' as u32 + 10)
    } else if c >= 'A' && c <= 'F' {
        Some(c as u32 - 'A' as u32 + 10)
    } else {
        None
    }
}

pub(crate) fn hex4(l: &str, at: usize) -> (r: Option<u16>)
    requires
        at + 4 <= l@.len(),
        l@.len() <= usize::MAX,
    ensures
        r is Some <==> hex4_ok(l@, at as int),
        r matches Some(v) ==> v == hex4_at(l@, at as int),
{
    let d0 = hex_digit(l.get_char(at));
    let d1 = hex_digit(l.get_char(at + 1));
    let d2 = hex_digit(l.get_char(at + 2));
    let d3 = hex_digit(l.get_char(at + 3));
    match (d0, d1, d2, d3) {
        (Some(v0), Some(v1), Some(v2), Some(v3)) => Some(
            (v0 * 0x1000 + v1 * 0x100 + v2 * 0x10 + v3) as u16,
        ),
        _ => None,
    }
}

pub(crate) fn hex2(l: &str, at: usize) -> (r: Option<u8>)
    requires
        at + 2 <= l@.len(),
        l@.len() <= usize::MAX,
    ensures
        r is Some <==> hex2_ok(l@, at as int),
        r matches Some(v) ==> v == hex2_at(l@, at as int),
{
    let d0 = hex_digit(l.get_char(at));
    let d1 = hex_digit(l.get_char(at + 1));
    match (d0, d1) {
        (Some(v0), Some(v1)) => Some((v0 * 0x10 + v1) as u8),
        _ => None,
    }
}

fn spaces2(l: &str, at: usize) -> (r: bool)
    requires
        at + 2 <= l@.len(),
        l@.len() <= usize::MAX,
    ensures
        r == two_spaces(l@, at as int),
{
    l.get_char(at) == ' ' && l.get_char(at + 1) == ' '
}

/// The rest of the line from `at` on, as an owned name.
fn name_from(l: &str, at: usize) -> (r: String)
    requires
        at <= l@.len(),
    ensures
        r@ == l@.skip(at as int),
{
    let n = l.unicode_len();
    let piece = l.substring_char(at, n);
    proof {
        assert(l@.subrange(at as int, l@.len() as int) =~= l@.skip(at as int));
    }
    piece.to_owned()
}

/// Classifies one line of the database text, as `spec_classify` does.
fn classify(l: &str) -> (r: LineClass)
    ensures
        ({
            let k = spec_classify(l@);
            match r {
                LineClass::Blank => k is Blank,
                LineClass::Comment => k is Comment,
                LineClass::VendorLine(id, name) => k == LineKind::VendorLine(id, name@),
                LineClass::DeviceLine(id, name) => k == LineKind::DeviceLine(id, name@),
                LineClass::SubSystemLine(sv, sd, name) => k == LineKind::SubSystemLine(
                    sv,
                    sd,
                    name@,
                ),
                LineClass::ClassLine(id, name) => k == LineKind::ClassLine(id, name@),
                LineClass::SubClassLine(id, name) => k == LineKind::SubClassLine(id, name@),
                LineClass::ProgIfLine(id, name) => k == LineKind::ProgIfLine(id, name@),
                LineClass::Bad => k is Bad,
            }
        }),
{
    let n = l.unicode_len();
    if n == 0 {
        return LineClass::Blank;
    }
    let c0 = l.get_char(0);
    if c0 == '#' {
        return LineClass::Comment;
    }
    if n >= 2 && c0 == '\t' && l.get_char(1) == '\t' {
        if n >= 14 {
            let id0 = hex4(l, 2);
            let sep = l.get_char(6);
            let id1 = hex4(l, 7);
            let sp = spaces2(l, 11);
            if let (Some(sv), Some(sd)) = (id0, id1) {
                if sep == ' ' && sp {
                    return LineClass::SubSystemLine(sv, sd, name_from(l, 13));
                }
            }
        }
        if n >= 7 {
            let id = hex2(l, 2);
            let sp = spaces2(l, 4);
            if let Some(v) = id {
                if sp {
                    return LineClass::ProgIfLine(v, name_from(l, 6));
                }
            }
        }
        return LineClass::Bad;
    }
    if c0 == '\t' {
        if n >= 8 {
            let id = hex4(l, 1);
            let sp = spaces2(l, 5);
            if let Some(v) = id {
                if sp {
                    return LineClass::DeviceLine(v, name_from(l, 7));
                }
            }
        }
        if n >= 6 {
            let id = hex2(l, 1);
            let sp = spaces2(l, 3);
            if let Some(v) = id {
                if sp {
                    return LineClass::SubClassLine(v, name_from(l, 5));
                }
            }
        }
        return LineClass::Bad;
    }
    if n >= 2 && c0 == 'C' && l.get_char(1) == ' ' {
        if n >= 7 {
            let id = hex2(l, 2);
            let sp = spaces2(l, 4);
            if let Some(v) = id {
                if sp {
                    return LineClass::ClassLine(v, name_from(l, 6));
                }
            }
        }
        return LineClass::Bad;
    }
    if n >= 7 {
        let id = hex4(l, 0);
        let sp = spaces2(l, 4);
        if let Some(v) = id {
            if sp {
                return LineClass::VendorLine(v, name_from(l, 6));
            }
        }
    }
    LineClass::Bad
}

/// The segments of the text between occurrences of `sep`, in order,
/// each without the separator, ending with the segment after the last
/// separator. That final segment is empty exactly when the text is
/// empty or ends with the separator.
pub open spec fn spec_split(s: Seq<char>, sep: char) -> Seq<Seq<char>>
    decreases s.len(),
{
    if s.len() == 0 {
        seq![Seq::<char>::empty()]
    } else if s[0] == sep {
        seq![Seq::<char>::empty()] + spec_split(s.skip(1), sep)
    } else {
        let rest = spec_split(s.skip(1), sep);
        seq![seq![s[0]] + rest[0]] + rest.skip(1)
    }
}

/// The lines of the text: its newline-separated segments.
pub open spec fn spec_lines(s: Seq<char>) -> Seq<Seq<char>> {
    spec_split(s, '\n')
}

/// Every text has at least the final segment.
pub proof fn lemma_spec_split_len(s: Seq<char>, sep: char)
    ensures
        spec_split(s, sep).len() >= 1,
    decreases s.len(),
{
    if s.len() == 0 {
    } else if s[0] == sep {
        lemma_spec_split_len(s.skip(1), sep);
    } else {
        lemma_spec_split_len(s.skip(1), sep);
    }
}

proof fn lemma_split_break(s: Seq<char>, sep: char, start: int, i: int)
    requires
        0 <= start <= i < s.len(),
        s[i] == sep,
        forall|k: int| start <= k < i ==> s[k] != sep,
    ensures
        spec_split(s.skip(start), sep) == seq![s.subrange(start, i)] + spec_split(
            s.skip(i + 1),
            sep,
        ),
    decreases i - start,
{
    lemma_spec_split_len(s.skip(i + 1), sep);
    if start == i {
        assert(s.skip(start)[0] == sep);
        assert(s.skip(start).skip(1) =~= s.skip(start + 1));
        assert(s.subrange(start, i) =~= Seq::<char>::empty());
        assert(spec_split(s.skip(start), sep) =~= seq![s.subrange(start, i)] + spec_split(
            s.skip(i + 1),
            sep,
        ));
    } else {
        assert(s.skip(start)[0] == s[start]);
        assert(s[start] != sep);
        assert(s.skip(start).skip(1) =~= s.skip(start + 1));
        lemma_split_break(s, sep, start + 1, i);
        let rest = spec_split(s.skip(start + 1), sep);
        assert(rest[0] == s.subrange(start + 1, i));
        assert(seq![s[start]] + s.subrange(start + 1, i) =~= s.subrange(start, i));
        assert(rest.skip(1) =~= spec_split(s.skip(i + 1), sep));
        assert(spec_split(s.skip(start), sep) =~= seq![s.subrange(start, i)] + spec_split(
            s.skip(i + 1),
            sep,
        ));
    }
}

proof fn lemma_split_last(s: Seq<char>, sep: char, start: int)
    requires
        0 <= start <= s.len(),
        forall|k: int| start <= k < s.len() ==> s[k] != sep,
    ensures
        spec_split(s.skip(start), sep) == seq![s.subrange(start, s.len() as int)],
    decreases s.len() - start,
{
    if start == s.len() {
        assert(s.skip(start) =~= Seq::<char>::empty());
        assert(s.subrange(start, s.len() as int) =~= Seq::<char>::empty());
        assert(spec_split(s.skip(start), sep) =~= seq![s.subrange(start, s.len() as int)]);
    } else {
        assert(s.skip(start)[0] == s[start]);
        assert(s[start] != sep);
        assert(s.skip(start).skip(1) =~= s.skip(start + 1));
        lemma_split_last(s, sep, start + 1);
        let rest = spec_split(s.skip(start + 1), sep);
        assert(rest[0] == s.subrange(start + 1, s.len() as int));
        assert(seq![s[start]] + s.subrange(start + 1, s.len() as int) =~= s.subrange(
            start,
            s.len() as int,
        ));
        assert(rest.skip(1) =~= Seq::<Seq<char>>::empty());
        assert(spec_split(s.skip(start), sep) =~= seq![s.subrange(start, s.len() as int)]);
    }
}

/// Splits the text at a separator character, as `spec_split` does.
pub(crate) fn split_on(s: &str, sep: char) -> (lines: Vec<String>)
    ensures
        lines@.map_values(|x: String| x@) == spec_split(s@, sep),
        lines@.len() >= 1,
{
    let n = s.unicode_len();
    let mut lines: Vec<String> = Vec::new();
    let mut start: usize = 0;
    let mut i: usize = 0;

    proof {
        assert(s@.skip(0) =~= s@);
        assert(lines@.map_values(|x: String| x@) =~= Seq::<Seq<char>>::empty());
    }

    while i < n
        invariant
            start <= i <= n,
            n == s@.len(),
            spec_split(s@, sep) == lines@.map_values(|x: String| x@) + spec_split(
                s@.skip(start as int),
                sep,
            ),
            forall|k: int| start <= k < i ==> s@[k] != sep,
        decreases n - i,
    {
        if s.get_char(i) == sep {
            let piece = s.substring_char(start, i).to_owned();
            proof {
                lemma_split_break(s@, sep, start as int, i as int);
                assert(piece@ == s@.subrange(start as int, i as int));
                assert(lines@.push(piece).map_values(|x: String| x@) =~= lines@.map_values(
                    |x: String| x@,
                ) + seq![piece@]);
                assert((lines@.map_values(|x: String| x@) + seq![piece@]) + spec_split(
                    s@.skip(i as int + 1),
                    sep,
                ) =~= lines@.map_values(|x: String| x@) + (seq![piece@] + spec_split(
                    s@.skip(i as int + 1),
                    sep,
                )));
            }
            lines.push(piece);
            start = i + 1;
        }
        i = i + 1;
    }

    let piece = s.substring_char(start, n).to_owned();
    proof {
        lemma_split_last(s@, sep, start as int);
        assert(lines@.push(piece).map_values(|x: String| x@) =~= lines@.map_values(|x: String| x@)
            + seq![piece@]);
    }
    lines.push(piece);
    lines
}

/// What parsing the whole database text yields: the two record lists,
/// or a mid-record failure, or text left over after both sections.
pub enum ParseOutcome {
    Parsed(Seq<VendorModel>, Seq<ClassModel>),
    Failed,
    Trailing,
}

/// The vendor list with one fresh device appended to its last vendor.
pub open spec fn push_device_model(vs: Seq<VendorModel>, id: u16, name: Seq<char>) -> Seq<
    VendorModel,
>
    recommends
        vs.len() > 0,
{
    let v = vs.last();
    vs.update(
        vs.len() - 1,
        VendorModel {
            id: v.id,
            name: v.name,
            devices: v.devices.push(DeviceModel { id, name, subsystems: Seq::empty() }),
        },
    )
}

/// The vendor list with one subsystem appended to the last device of
/// its last vendor.
pub open spec fn push_subsystem_model(
    vs: Seq<VendorModel>,
    sub_vendor: u16,
    sub_device: u16,
    name: Seq<char>,
) -> Seq<VendorModel>
    recommends
        vs.len() > 0,
        vs.last().devices.len() > 0,
{
    let v = vs.last();
    let d = v.devices.last();
    vs.update(
        vs.len() - 1,
        VendorModel {
            id: v.id,
            name: v.name,
            devices: v.devices.update(
                v.devices.len() - 1,
                DeviceModel {
                    id: d.id,
                    name: d.name,
                    subsystems: d.subsystems.push(
                        SubSystemModel { sub_vendor, sub_device, name },
                    ),
                },
            ),
        },
    )
}

/// The class list with one fresh sub-class appended to its last class.
pub open spec fn push_subclass_model(cs: Seq<ClassModel>, id: u8, name: Seq<char>) -> Seq<
    ClassModel,
>
    recommends
        cs.len() > 0,
{
    let c = cs.last();
    cs.update(
        cs.len() - 1,
        ClassModel {
            id: c.id,
            name: c.name,
            sub_classes: c.sub_classes.push(
                SubClassModel { id, name, prog_ifs: Seq::empty() },
            ),
        },
    )
}

/// The class list with one programming interface appended to the last
/// sub-class of its last class.
pub open spec fn push_progif_model(cs: Seq<ClassModel>, id: u8, name: Seq<char>) -> Seq<
    ClassModel,
>
    recommends
        cs.len() > 0,
        cs.last().sub_classes.len() > 0,
{
    let c = cs.last();
    let s = c.sub_classes.last();
    cs.update(
        cs.len() - 1,
        ClassModel {
            id: c.id,
            name: c.name,
            sub_classes: c.sub_classes.update(
                c.sub_classes.len() - 1,
                SubClassModel {
                    id: s.id,
                    name: s.name,
                    prog_ifs: s.prog_ifs.push(ProgIfModel { id, name }),
                },
            ),
        },
    )
}

/// The vendor section: consumes lines until the class section starts.
/// Blank and comment lines separate records; a device needs a current
/// vendor and a subsystem a current device; the section must hold at
/// least one vendor before `C ` opens the class section; anything else,
/// or the end of the text, is a mid-record failure.
pub open spec fn phase1(lines: Seq<Seq<char>>, vs: Seq<VendorModel>) -> ParseOutcome
    decreases lines.len(),
{
    if lines.len() <= 1 {
        ParseOutcome::Failed
    } else {
        match spec_classify(lines[0]) {
            LineKind::Blank => phase1(lines.skip(1), vs),
            LineKind::Comment => phase1(lines.skip(1), vs),
            LineKind::VendorLine(id, name) => phase1(
                lines.skip(1),
                vs.push(VendorModel { id, name, devices: Seq::empty() }),
            ),
            LineKind::DeviceLine(id, name) => if vs.len() == 0 {
                ParseOutcome::Failed
            } else {
                phase1(lines.skip(1), push_device_model(vs, id, name))
            },
            LineKind::SubSystemLine(sv, sd, name) => if vs.len() == 0 || vs.last().devices.len()
                == 0 {
                ParseOutcome::Failed
            } else {
                phase1(lines.skip(1), push_subsystem_model(vs, sv, sd, name))
            },
            LineKind::ClassLine(id, name) => if vs.len() == 0 {
                ParseOutcome::Failed
            } else {
                phase2(
                    lines.skip(1),
                    vs,
                    seq![ClassModel { id, name, sub_classes: Seq::empty() }],
                    false,
                )
            },
            _ => ParseOutcome::Failed,
        }
    }
}

/// The class section, after its first class record. Records clear the
/// pending separators; at the end of the text the parse succeeds only
/// when nothing but empty lines followed the last record: a trailing
/// comment, an unterminated last line or any unparseable line is
/// trailing data.
pub open spec fn phase2(
    lines: Seq<Seq<char>>,
    vs: Seq<VendorModel>,
    cs: Seq<ClassModel>,
    pending: bool,
) -> ParseOutcome
    decreases lines.len(),
{
    if lines.len() == 0 {
        ParseOutcome::Failed
    } else if lines.len() == 1 {
        if lines[0].len() == 0 && !pending {
            ParseOutcome::Parsed(vs, cs)
        } else {
            ParseOutcome::Trailing
        }
    } else {
        match spec_classify(lines[0]) {
            LineKind::Blank => phase2(lines.skip(1), vs, cs, pending),
            LineKind::Comment => phase2(lines.skip(1), vs, cs, true),
            LineKind::ClassLine(id, name) => phase2(
                lines.skip(1),
                vs,
                cs.push(ClassModel { id, name, sub_classes: Seq::empty() }),
                false,
            ),
            LineKind::SubClassLine(id, name) => if cs.len() == 0 {
                ParseOutcome::Failed
            } else {
                phase2(lines.skip(1), vs, push_subclass_model(cs, id, name), false)
            },
            LineKind::ProgIfLine(id, name) => if cs.len() == 0 || cs.last().sub_classes.len()
                == 0 {
                ParseOutcome::Trailing
            } else {
                phase2(lines.skip(1), vs, push_progif_model(cs, id, name), false)
            },
            _ => ParseOutcome::Trailing,
        }
    }
}

/// What parsing the text yields: the vendor section, then the class
/// section, then nothing but empty lines.
pub open spec fn parse_spec(s: Seq<char>) -> ParseOutcome {
    phase1(spec_lines(s), Seq::empty())
}

proof fn lemma_map_view_push_vendor(s: Seq<Vendor>, x: Vendor)
    ensures
        s.push(x).map_values(|t: Vendor| t@) == s.map_values(|t: Vendor| t@).push(x@),
{
    assert(s.push(x).map_values(|t: Vendor| t@) =~= s.map_values(|t: Vendor| t@).push(x@));
}

proof fn lemma_map_view_set_last_vendor(s: Seq<Vendor>, x: Vendor)
    requires
        s.len() > 0,
    ensures
        s.drop_last().push(x).map_values(|t: Vendor| t@) == s.map_values(|t: Vendor| t@).update(
            s.len() - 1,
            x@,
        ),
{
    assert(s.drop_last().push(x).map_values(|t: Vendor| t@) =~= s.map_values(
        |t: Vendor| t@,
    ).update(s.len() - 1, x@));
}

proof fn lemma_map_view_push_class(s: Seq<BaseClass>, x: BaseClass)
    ensures
        s.push(x).map_values(|t: BaseClass| t@) == s.map_values(|t: BaseClass| t@).push(x@),
{
    assert(s.push(x).map_values(|t: BaseClass| t@) =~= s.map_values(|t: BaseClass| t@).push(x@));
}

proof fn lemma_map_view_set_last_class(s: Seq<BaseClass>, x: BaseClass)
    requires
        s.len() > 0,
    ensures
        s.drop_last().push(x).map_values(|t: BaseClass| t@) == s.map_values(
            |t: BaseClass| t@,
        ).update(s.len() - 1, x@),
{
    assert(s.drop_last().push(x).map_values(|t: BaseClass| t@) =~= s.map_values(
        |t: BaseClass| t@,
    ).update(s.len() - 1, x@));
}

/// Parses the whole database text: the vendor section, the class
/// section, and nothing but empty lines after them. A mid-record
/// failure reports `Parse`; text left over after both sections reports
/// `TrailingData`; otherwise every record of the text stands in the
/// returned lists, nested under its vendor, device, class or
/// sub-class, in text order.
pub fn parse(input: &str) -> (r: Result<(Vec<Vendor>, Vec<BaseClass>), Error>)
    ensures
        ({
            let out = parse_spec(input@);
            match r {
                Ok(p) => out == ParseOutcome::Parsed(
                    p.0@.map_values(|v: Vendor| v@),
                    p.1@.map_values(|c: BaseClass| c@),
                ),
                Err(e) => (e is Parse && out is Failed) || (e is TrailingData && out is Trailing),
            }
        }),
{
    let lines = split_on(input, '\n');
    let ghost lmodel = lines@.map_values(|x: String| x@);
    let n = lines.len();
    let mut vendors: Vec<Vendor> = Vec::new();
    let mut classes: Vec<BaseClass> = Vec::new();
    let mut in_classes = false;
    let mut pending = false;
    let mut idx: usize = 0;

    proof {
        assert(lmodel.skip(0) =~= lmodel);
        assert(vendors@.map_values(|v: Vendor| v@) =~= Seq::<VendorModel>::empty());
    }

    while idx < n - 1
        invariant
            n == lines@.len(),
            n >= 1,
            lines@.map_values(|x: String| x@) == lmodel,
            idx <= n - 1,
            in_classes ==> classes@.len() >= 1,
            !in_classes ==> classes@.len() == 0,
            !in_classes ==> parse_spec(input@) == phase1(
                lmodel.skip(idx as int),
                vendors@.map_values(|v: Vendor| v@),
            ),
            in_classes ==> parse_spec(input@) == phase2(
                lmodel.skip(idx as int),
                vendors@.map_values(|v: Vendor| v@),
                classes@.map_values(|c: BaseClass| c@),
                pending,
            ),
        decreases n - idx,
    {
        let ghost rem = lmodel.skip(idx as int);
        proof {
            assert(rem.len() == n - idx);
            assert(rem[0] == lmodel[idx as int]);
            assert(lmodel[idx as int] == lines@[idx as int]@);
            assert(rem.skip(1) =~= lmodel.skip(idx as int + 1));
        }
        let cls = classify(lines[idx].as_str());
        if !in_classes {
            match cls {
                LineClass::Blank => {},
                LineClass::Comment => {},
                LineClass::VendorLine(id, name) => {
                    let ghost nm = name@;
                    let fresh: Vec<Device> = Vec::new();
                    proof {
                        assert(fresh@.map_values(|d: Device| d@) =~= Seq::<DeviceModel>::empty());
                        lemma_map_view_push_vendor(
                            vendors@,
                            Vendor { id, name: name, devices: fresh },
                        );
                    }
                    vendors.push(Vendor { id, name, devices: fresh });
                },
                LineClass::DeviceLine(id, name) => {
                    if vendors.len() == 0 {
                        return Err(
                            Error::Parse(String::from_str("device record before any vendor")),
                        );
                    }
                    let ghost vs0 = vendors@;
                    let ghost vm0 = vendors@.map_values(|v: Vendor| v@);
                    let ghost nm = name@;
                    let mut v = vendors.pop().unwrap();
                    let ghost vold = v;
                    let fresh: Vec<SubSystem> = Vec::new();
                    proof {
                        assert(fresh@.map_values(|s: SubSystem| s@) =~= Seq::<
                            SubSystemModel,
                        >::empty());
                    }
                    v.devices.push(Device { id, name, subsystems: fresh });
                    proof {
                        assert(v.devices@ == vold.devices@.push(
                            Device { id, name: name, subsystems: fresh },
                        ));
                        assert(v@.devices =~= vold@.devices.push(
                            DeviceModel { id, name: nm, subsystems: Seq::empty() },
                        ));
                        assert(v@ == push_device_model(vm0, id, nm).last());
                        lemma_map_view_set_last_vendor(vs0, v);
                    }
                    vendors.push(v);
                    proof {
                        assert(vendors@ == vs0.drop_last().push(v));
                        assert(vendors@.map_values(|t: Vendor| t@) =~= push_device_model(
                            vm0,
                            id,
                            nm,
                        ));
                    }
                },
                LineClass::SubSystemLine(sv, sd, name) => {
                    if vendors.len() == 0 {
                        return Err(
                            Error::Parse(String::from_str("subsystem record before any vendor")),
                        );
                    }
                    let last_i = vendors.len() - 1;
                    if vendors[last_i].devices.len() == 0 {
                        return Err(
                            Error::Parse(String::from_str("subsystem record before any device")),
                        );
                    }
                    let ghost vs0 = vendors@;
                    let ghost vm0 = vendors@.map_values(|v: Vendor| v@);
                    let ghost nm = name@;
                    let mut v = vendors.pop().unwrap();
                    let ghost vold = v;
                    let mut d = v.devices.pop().unwrap();
                    let ghost dold = d;
                    d.subsystems.push(SubSystem { sub_vendor: sv, sub_device: sd, name });
                    proof {
                        assert(d@.subsystems =~= dold@.subsystems.push(
                            SubSystemModel { sub_vendor: sv, sub_device: sd, name: nm },
                        ));
                    }
                    v.devices.push(d);
                    proof {
                        assert(v.devices@ == vold.devices@.drop_last().push(d));
                        assert(v@.devices =~= vold@.devices.update(
                            vold.devices@.len() - 1,
                            d@,
                        ));
                        assert(v@ == push_subsystem_model(vm0, sv, sd, nm).last());
                        lemma_map_view_set_last_vendor(vs0, v);
                    }
                    vendors.push(v);
                    proof {
                        assert(vendors@ == vs0.drop_last().push(v));
                        assert(vendors@.map_values(|t: Vendor| t@) =~= push_subsystem_model(
                            vm0,
                            sv,
                            sd,
                            nm,
                        ));
                    }
                },
                LineClass::ClassLine(id, name) => {
                    if vendors.len() == 0 {
                        return Err(
                            Error::Parse(String::from_str("class record before any vendor")),
                        );
                    }
                    let ghost nm = name@;
                    let fresh: Vec<SubClass> = Vec::new();
                    proof {
                        assert(fresh@.map_values(|s: SubClass| s@) =~= Seq::<
                            SubClassModel,
                        >::empty());
                        lemma_map_view_push_class(
                            classes@,
                            BaseClass { id, name: name, sub_classes: fresh },
                        );
                        assert(classes@.map_values(|c: BaseClass| c@) =~= Seq::<
                            ClassModel,
                        >::empty());
                    }
                    classes.push(BaseClass { id, name, sub_classes: fresh });
                    proof {
                        assert(classes@.map_values(|c: BaseClass| c@) =~= seq![
                            ClassModel { id, name: nm, sub_classes: Seq::empty() },
                        ]);
                    }
                    in_classes = true;
                    pending = false;
                },
                LineClass::SubClassLine(_, _) => {
                    return Err(
                        Error::Parse(String::from_str("malformed record in the vendor section")),
                    );
                },
                LineClass::ProgIfLine(_, _) => {
                    return Err(
                        Error::Parse(String::from_str("malformed record in the vendor section")),
                    );
                },
                LineClass::Bad => {
                    return Err(
                        Error::Parse(String::from_str("malformed record in the vendor section")),
                    );
                },
            }
        } else {
            match cls {
                LineClass::Blank => {},
                LineClass::Comment => {
                    pending = true;
                },
                LineClass::ClassLine(id, name) => {
                    let ghost nm = name@;
                    let fresh: Vec<SubClass> = Vec::new();
                    proof {
                        assert(fresh@.map_values(|s: SubClass| s@) =~= Seq::<
                            SubClassModel,
                        >::empty());
                        lemma_map_view_push_class(
                            classes@,
                            BaseClass { id, name: name, sub_classes: fresh },
                        );
                    }
                    classes.push(BaseClass { id, name, sub_classes: fresh });
                    pending = false;
                },
                LineClass::SubClassLine(id, name) => {
                    let ghost cs0 = classes@;
                    let ghost cm0 = classes@.map_values(|c: BaseClass| c@);
                    let ghost nm = name@;
                    let mut c = classes.pop().unwrap();
                    let ghost cold = c;
                    let fresh: Vec<ProgIf> = Vec::new();
                    proof {
                        assert(fresh@.map_values(|p: ProgIf| p@) =~= Seq::<ProgIfModel>::empty());
                    }
                    c.sub_classes.push(SubClass { id, name, prog_ifs: fresh });
                    proof {
                        assert(c@.sub_classes =~= cold@.sub_classes.push(
                            SubClassModel { id, name: nm, prog_ifs: Seq::empty() },
                        ));
                        assert(c@ == push_subclass_model(cm0, id, nm).last());
                        lemma_map_view_set_last_class(cs0, c);
                    }
                    classes.push(c);
                    proof {
                        assert(classes@ == cs0.drop_last().push(c));
                        assert(classes@.map_values(|t: BaseClass| t@) =~= push_subclass_model(
                            cm0,
                            id,
                            nm,
                        ));
                    }
                    pending = false;
                },
                LineClass::ProgIfLine(id, name) => {
                    let last_i = classes.len() - 1;
                    if classes[last_i].sub_classes.len() == 0 {
                        return Err(Error::TrailingData);
                    }
                    let ghost cs0 = classes@;
                    let ghost cm0 = classes@.map_values(|c: BaseClass| c@);
                    let ghost nm = name@;
                    let mut c = classes.pop().unwrap();
                    let ghost cold = c;
                    let mut sc = c.sub_classes.pop().unwrap();
                    let ghost scold = sc;
                    sc.prog_ifs.push(ProgIf { id, name });
                    proof {
                        assert(sc@.prog_ifs =~= scold@.prog_ifs.push(ProgIfModel { id, name: nm }));
                    }
                    c.sub_classes.push(sc);
                    proof {
                        assert(c.sub_classes@ == cold.sub_classes@.drop_last().push(sc));
                        assert(c@.sub_classes =~= cold@.sub_classes.update(
                            cold.sub_classes@.len() - 1,
                            sc@,
                        ));
                        assert(c@ == push_progif_model(cm0, id, nm).last());
                        lemma_map_view_set_last_class(cs0, c);
                    }
                    classes.push(c);
                    proof {
                        assert(classes@ == cs0.drop_last().push(c));
                        assert(classes@.map_values(|t: BaseClass| t@) =~= push_progif_model(
                            cm0,
                            id,
                            nm,
                        ));
                    }
                    pending = false;
                },
                LineClass::VendorLine(_, _) => {
                    return Err(Error::TrailingData);
                },
                LineClass::DeviceLine(_, _) => {
                    return Err(Error::TrailingData);
                },
                LineClass::SubSystemLine(_, _, _) => {
                    return Err(Error::TrailingData);
                },
                LineClass::Bad => {
                    return Err(Error::TrailingData);
                },
            }
        }
        idx = idx + 1;
    }

    proof {
        assert(lmodel.skip(idx as int).len() == 1);
        assert(lmodel.skip(idx as int)[0] == lmodel[idx as int]);
        assert(lmodel[idx as int] == lines@[idx as int]@);
    }

    if !in_classes {
        return Err(Error::Parse(String::from_str("the class section is missing")));
    }

    let tail_blank = lines[idx].as_str().unicode_len() == 0;
    if tail_blank && !pending {
        Ok((vendors, classes))
    } else {
        Err(Error::TrailingData)
    }
}

} // verus!
