//! The netboot inspector's decisions: reading the output of `lspci -mm` and
//! `lsblk`, choosing the block devices to wipe, and describing network
//! devices.
use vstd::prelude::*;
use vstd::string::*;
use crate::text::{
    chars_of, join, find_char, is_first_index, lemma_first_index_unique, parse_i64,
    parse_i64_spec, parse_u64, parse_u64_spec, same_text, starts_with, has_prefix, string_from_chars,
    trim, unicode_trim,
};

verus! {

// ---------------------------------------------------------------------------
// Lines, fields and quotes
// ---------------------------------------------------------------------------

/// A line without the `\r` of a `\r\n` ending.
pub open spec fn strip_cr(line: Seq<char>) -> Seq<char> {
    if line.len() > 0 && line.last() == '\r' {
        line.drop_last()
    } else {
        line
    }
}

/// The lines of a text as `str::lines` yields them: split at `\n`, a `\r`
/// before a `\n` dropped, and no empty line after a final `\n`.
pub open spec fn text_lines(s: Seq<char>) -> Seq<Seq<char>>
    decreases s.len(),
{
    if s.len() == 0 {
        seq![]
    } else if exists|i: int| is_first_index(s, '\n', i) {
        let i = choose|i: int| is_first_index(s, '\n', i);
        seq![strip_cr(s.subrange(0, i))] + text_lines(s.subrange(i + 1, s.len() as int))
    } else {
        seq![s]
    }
}

/// The texts that a vector of strings holds.
pub open spec fn texts(v: Seq<String>) -> Seq<Seq<char>> {
    v.map_values(|s: String| s@)
}

/// Splits a text into its lines (see `text_lines`).
pub fn split_lines(text: &str) -> (lines: Vec<String>)
    ensures
        texts(lines@) == text_lines(text@),
{
    let cs = chars_of(text);
    let n: usize = cs.len();
    let mut lines: Vec<String> = Vec::new();
    let mut pos: usize = 0;
    proof {
        assert(cs@.subrange(0, n as int) =~= cs@);
        assert(texts(lines@) =~= Seq::<Seq<char>>::empty());
        assert(texts(lines@) + text_lines(cs@) =~= text_lines(cs@));
    }
    while pos < n
        invariant
            pos <= n,
            n == cs@.len(),
            cs@ == text@,
            texts(lines@) + text_lines(cs@.subrange(pos as int, n as int)) == text_lines(text@),
        decreases n - pos,
    {
        let ghost rest = cs@.subrange(pos as int, n as int);
        let ghost before = texts(lines@);
        let nl: usize = find_char(&cs, '\n', pos, n);
        if nl == n {
            proof {
                assert(!exists|i: int| is_first_index(rest, '\n', i)) by {
                    if exists|i: int| is_first_index(rest, '\n', i) {
                        let i = choose|i: int| is_first_index(rest, '\n', i);
                        assert(cs@[pos + i] == '\n');
                    }
                }
                assert(cs@.subrange(n as int, n as int) =~= Seq::<char>::empty());
            }
            let line = string_from_chars(&cs, pos, n);
            lines.push(line);
            proof {
                assert(texts(lines@) =~= before.push(rest));
                assert(text_lines(rest) =~= seq![rest]);
                assert(texts(lines@) + text_lines(cs@.subrange(n as int, n as int)) =~= before + text_lines(rest));
            }
            pos = n;
        } else {
            let k: usize = nl - pos;
            proof {
                assert(is_first_index(rest, '\n', k as int));
                let i = choose|i: int| is_first_index(rest, '\n', i);
                lemma_first_index_unique(rest, '\n', i, k as int);
                assert(rest.subrange(k + 1, rest.len() as int) =~= cs@.subrange(nl + 1, n as int));
            }
            let end: usize = if nl > pos && cs[nl - 1] == '\r' {
                nl - 1
            } else {
                nl
            };
            let line = string_from_chars(&cs, pos, end);
            lines.push(line);
            proof {
                assert(line@ =~= strip_cr(rest.subrange(0, k as int)));
                assert(texts(lines@) =~= before.push(strip_cr(rest.subrange(0, k as int))));
                assert(text_lines(rest) =~= seq![strip_cr(rest.subrange(0, k as int))] + text_lines(
                    cs@.subrange(nl + 1, n as int),
                ));
                assert(texts(lines@) + text_lines(cs@.subrange(nl + 1, n as int)) =~= before
                    + text_lines(rest));
            }
            pos = nl + 1;
        }
    }
    proof {
        assert(cs@.subrange(n as int, n as int) =~= Seq::<char>::empty());
        assert(texts(lines@) + seq![] =~= texts(lines@));
    }
    lines
}

/// `sep` occurs in `s` at position `i`.
pub open spec fn occurs_at(s: Seq<char>, sep: Seq<char>, i: int) -> bool {
    0 <= i && i + sep.len() <= s.len() && s.subrange(i, i + sep.len()) == sep
}

/// `i` is the first position where `sep` occurs in `s`.
pub open spec fn is_first_occurrence(s: Seq<char>, sep: Seq<char>, i: int) -> bool {
    occurs_at(s, sep, i) && forall|j: int| 0 <= j < i ==> !occurs_at(s, sep, j)
}

/// The pieces of `s` between the occurrences of `sep`, found from the left
/// without overlap, as `str::split` with a string pattern yields them.
pub open spec fn split_on(s: Seq<char>, sep: Seq<char>) -> Seq<Seq<char>>
    decreases s.len(),
{
    if sep.len() > 0 && exists|i: int| is_first_occurrence(s, sep, i) {
        let i = choose|i: int| is_first_occurrence(s, sep, i);
        seq![s.subrange(0, i)] + split_on(s.subrange(i + sep.len(), s.len() as int), sep)
    } else {
        seq![s]
    }
}

proof fn lemma_first_occurrence_unique(s: Seq<char>, sep: Seq<char>, i: int, k: int)
    requires
        is_first_occurrence(s, sep, i),
        is_first_occurrence(s, sep, k),
    ensures
        i == k,
{
}

fn occurs_at_exec(cs: &Vec<char>, sep: &Vec<char>, i: usize) -> (b: bool)
    requires
        i + sep.len() <= cs.len(),
    ensures
        b == occurs_at(cs@, sep@, i as int),
{
    let m: usize = sep.len();
    let mut k: usize = 0;
    while k < m
        invariant
            k <= m,
            m == sep.len(),
            i + m <= cs.len(),
            cs@.subrange(i as int, i + k) =~= sep@.subrange(0, k as int),
        decreases m - k,
    {
        if cs[i + k] != sep[k] {
            proof {
                assert(cs@.subrange(i as int, i + m)[k as int] != sep@[k as int]);
            }
            return false;
        }
        k = k + 1;
    }
    proof {
        assert(sep@.subrange(0, m as int) =~= sep@);
    }
    true
}

/// Splits `s` at every occurrence of `sep` (see `split_on`).
pub fn split_text(s: &str, sep: &str) -> (parts: Vec<String>)
    requires
        sep@.len() > 0,
    ensures
        texts(parts@) == split_on(s@, sep@),
{
    let cs = chars_of(s);
    let sp = chars_of(sep);
    let n: usize = cs.len();
    let m: usize = sp.len();
    let mut parts: Vec<String> = Vec::new();
    let mut start: usize = 0;
    let mut i: usize = 0;
    proof {
        assert(cs@.subrange(0, n as int) =~= cs@);
        assert(texts(parts@) =~= Seq::<Seq<char>>::empty());
        assert(texts(parts@) + split_on(cs@, sp@) =~= split_on(cs@, sp@));
    }
    while m <= n && i <= n - m
        invariant
            start <= i <= n,
            n == cs@.len(),
            m == sp@.len(),
            m > 0,
            cs@ == s@,
            sp@ == sep@,
            texts(parts@) + split_on(cs@.subrange(start as int, n as int), sp@) == split_on(s@, sep@),
            forall|j: int| start <= j < i ==> !occurs_at(cs@, sp@, j),
        decreases n - i,
    {
        if occurs_at_exec(&cs, &sp, i) {
            let ghost rest = cs@.subrange(start as int, n as int);
            let ghost before = texts(parts@);
            let ghost k: int = i - start;
            proof {
                assert(rest.subrange(k, k + m) =~= cs@.subrange(i as int, i + m));
                assert(is_first_occurrence(rest, sp@, k)) by {
                    assert forall|j: int| 0 <= j < k implies !occurs_at(rest, sp@, j) by {
                        if occurs_at(rest, sp@, j) {
                            assert(rest.subrange(j, j + m) =~= cs@.subrange(start + j, start + j + m));
                            assert(occurs_at(cs@, sp@, start + j));
                        }
                    }
                }
                let c = choose|j: int| is_first_occurrence(rest, sp@, j);
                lemma_first_occurrence_unique(rest, sp@, c, k);
                assert(rest.subrange(k + m, rest.len() as int) =~= cs@.subrange(i + m, n as int));
                assert(rest.subrange(0, k) =~= cs@.subrange(start as int, i as int));
            }
            let piece = string_from_chars(&cs, start, i);
            parts.push(piece);
            proof {
                assert(texts(parts@) =~= before.push(rest.subrange(0, k)));
                assert(split_on(rest, sp@) =~= seq![rest.subrange(0, k)] + split_on(
                    cs@.subrange(i + m, n as int),
                    sp@,
                ));
                assert(texts(parts@) + split_on(cs@.subrange(i + m, n as int), sp@) =~= before
                    + split_on(rest, sp@));
            }
            start = i + m;
            i = i + m;
        } else {
            i = i + 1;
        }
    }
    let ghost rest = cs@.subrange(start as int, n as int);
    let ghost before = texts(parts@);
    proof {
        assert(!exists|j: int| is_first_occurrence(rest, sp@, j)) by {
            if exists|j: int| is_first_occurrence(rest, sp@, j) {
                let j = choose|j: int| is_first_occurrence(rest, sp@, j);
                assert(rest.subrange(j, j + m) =~= cs@.subrange(start + j, start + j + m));
                assert(occurs_at(cs@, sp@, start + j));
            }
        }
    }
    let piece = string_from_chars(&cs, start, n);
    parts.push(piece);
    proof {
        assert(texts(parts@) =~= before.push(rest));
        assert(split_on(rest, sp@) =~= seq![rest]);
    }
    parts
}

/// The number of copies of `c` that `s` starts with.
pub open spec fn leading(s: Seq<char>, c: char) -> nat
    decreases s.len(),
{
    if s.len() > 0 && s[0] == c {
        1 + leading(s.drop_first(), c)
    } else {
        0
    }
}

/// The number of copies of `c` that `s` ends with.
pub open spec fn trailing(s: Seq<char>, c: char) -> nat
    decreases s.len(),
{
    if s.len() > 0 && s.last() == c {
        1 + trailing(s.drop_last(), c)
    } else {
        0
    }
}

/// `s` without all leading and all trailing copies of `c`, as
/// `str::trim_matches` with a character yields it.
pub open spec fn trim_char(s: Seq<char>, c: char) -> Seq<char> {
    let t = s.subrange(leading(s, c) as int, s.len() as int);
    t.subrange(0, t.len() - trailing(t, c))
}

proof fn lemma_leading(s: Seq<char>, c: char, a: int)
    requires
        0 <= a <= s.len(),
        forall|j: int| 0 <= j < a ==> s[j] == c,
        a == s.len() || s[a] != c,
    ensures
        leading(s, c) == a,
    decreases a,
{
    if a > 0 {
        lemma_leading(s.drop_first(), c, a - 1);
    }
}

proof fn lemma_trailing(s: Seq<char>, c: char, b: int)
    requires
        0 <= b <= s.len(),
        forall|j: int| b <= j < s.len() ==> s[j] == c,
        b == 0 || s[b - 1] != c,
    ensures
        trailing(s, c) == s.len() - b,
    decreases s.len() - b,
{
    if b < s.len() {
        lemma_trailing(s.drop_last(), c, b);
    }
}

/// Removes all leading and trailing copies of `c` (see `trim_char`).
pub fn trim_matches(s: &str, c: char) -> (r: String)
    ensures
        r@ == trim_char(s@, c),
{
    let cs = chars_of(s);
    let n: usize = cs.len();
    let mut a: usize = 0;
    while a < n && cs[a] == c
        invariant
            a <= n,
            n == cs@.len(),
            forall|j: int| 0 <= j < a ==> cs@[j] == c,
        decreases n - a,
    {
        a = a + 1;
    }
    let mut b: usize = n;
    while b > a && cs[b - 1] == c
        invariant
            a <= b <= n,
            n == cs@.len(),
            forall|j: int| b <= j < n ==> cs@[j] == c,
        decreases b,
    {
        b = b - 1;
    }
    proof {
        lemma_leading(s@, c, a as int);
        let t = s@.subrange(a as int, n as int);
        lemma_trailing(t, c, b - a);
        assert(t.subrange(0, b - a) =~= cs@.subrange(a as int, b as int));
    }
    string_from_chars(&cs, a, b)
}

// ---------------------------------------------------------------------------
// PCI devices
// ---------------------------------------------------------------------------

/// A PCI device as `lspci -mm` lists it.
pub struct PciDevice {
    pub slot: String,
    pub class: String,
    pub vendor: String,
    pub device: String,
}

pub ghost struct PciDeviceView {
    pub slot: Seq<char>,
    pub class: Seq<char>,
    pub vendor: Seq<char>,
    pub device: Seq<char>,
}

impl View for PciDevice {
    type V = PciDeviceView;

    open spec fn view(&self) -> PciDeviceView {
        PciDeviceView {
            slot: self.slot@,
            class: self.class@,
            vendor: self.vendor@,
            device: self.device@,
        }
    }
}

/// The field separator of `lspci -mm`: a closing quote, a space, an opening
/// quote.
pub open spec fn lspci_separator() -> Seq<char> {
    seq!['"', ' ', '"']
}

/// The device on one line of `lspci -mm`: the line split at the separators,
/// where it has four fields or more, the first four with their quotes
/// trimmed.
pub open spec fn pci_device_of_line(line: Seq<char>) -> Option<PciDeviceView> {
    let parts = split_on(line, lspci_separator());
    if parts.len() >= 4 {
        Some(
            PciDeviceView {
                slot: trim_char(parts[0], '"'),
                class: trim_char(parts[1], '"'),
                vendor: trim_char(parts[2], '"'),
                device: trim_char(parts[3], '"'),
            },
        )
    } else {
        None
    }
}

/// The devices on the lines of `lspci -mm` output, in order.
pub open spec fn pci_devices_of_lines(lines: Seq<Seq<char>>) -> Seq<PciDeviceView>
    decreases lines.len(),
{
    if lines.len() == 0 {
        seq![]
    } else {
        let earlier = pci_devices_of_lines(lines.drop_last());
        match pci_device_of_line(lines.last()) {
            Some(d) => earlier.push(d),
            None => earlier,
        }
    }
}

/// The device on one line of `lspci -mm` output (see `pci_device_of_line`).
pub fn parse_pci_line(line: &str) -> (d: Option<PciDevice>)
    ensures
        match d {
            Some(dev) => pci_device_of_line(line@) == Some(dev@),
            None => pci_device_of_line(line@) is None,
        },
{
    let mut sep = String::new();
    crate::text::string_push(&mut sep, '"');
    crate::text::string_push(&mut sep, ' ');
    crate::text::string_push(&mut sep, '"');
    proof {
        assert(sep@ =~= lspci_separator());
    }
    let parts = split_text(line, sep.as_str());
    if parts.len() >= 4 {
        proof {
            assert(texts(parts@)[0] == parts@[0]@);
            assert(texts(parts@)[1] == parts@[1]@);
            assert(texts(parts@)[2] == parts@[2]@);
            assert(texts(parts@)[3] == parts@[3]@);
        }
        Some(
            PciDevice {
                slot: trim_matches(parts[0].as_str(), '"'),
                class: trim_matches(parts[1].as_str(), '"'),
                vendor: trim_matches(parts[2].as_str(), '"'),
                device: trim_matches(parts[3].as_str(), '"'),
            },
        )
    } else {
        None
    }
}

/// The devices that `lspci -mm` lists in `output`, in order.
pub fn parse_pci_devices(output: &str) -> (devices: Vec<PciDevice>)
    ensures
        devices@.map_values(|d: PciDevice| d@) == pci_devices_of_lines(text_lines(output@)),
{
    let lines = split_lines(output);
    let ghost ls = texts(lines@);
    let n: usize = lines.len();
    let mut devices: Vec<PciDevice> = Vec::new();
    let mut i: usize = 0;
    while i < n
        invariant
            i <= n,
            n == lines@.len(),
            ls == texts(lines@),
            devices@.map_values(|d: PciDevice| d@) == pci_devices_of_lines(ls.subrange(0, i as int)),
        decreases n - i,
    {
        let ghost before = devices@.map_values(|d: PciDevice| d@);
        proof {
            let sub = ls.subrange(0, i + 1);
            assert(sub.drop_last() =~= ls.subrange(0, i as int));
            assert(sub.last() == lines@[i as int]@);
        }
        match parse_pci_line(lines[i].as_str()) {
            Some(d) => {
                devices.push(d);
                proof {
                    assert(devices@.map_values(|d: PciDevice| d@) =~= before.push(d@));
                }
            },
            None => {},
        }
        i = i + 1;
    }
    proof {
        assert(ls.subrange(0, n as int) =~= ls);
    }
    devices
}

// ---------------------------------------------------------------------------
// Block devices
// ---------------------------------------------------------------------------

/// One device as `lsblk -J -b -o NAME,SIZE,MODEL,TRAN,SERIAL,TYPE,RO` lists
/// it.
pub struct LsblkDevice {
    pub name: String,
    pub size: u64,
    pub model: Option<String>,
    pub tran: Option<String>,
    pub serial: Option<String>,
    pub dev_type: String,
    pub ro: bool,
}

/// A physical disk.
pub struct BlockDevice {
    pub name: String,
    pub size_bytes: u64,
    pub model: Option<String>,
    pub transport: Option<String>,
    pub serial: Option<String>,
    pub read_only: bool,
}

/// A size as `lsblk` reports it in JSON.
pub enum SizeValue {
    /// A number that fits a `u64`.
    Unsigned(u64),
    /// A string.
    Text(String),
    /// Anything else.
    Other,
}

/// A flag as `lsblk` reports it in JSON.
pub enum FlagValue {
    Bool(bool),
    Text(String),
    /// A number, with its value where it fits a `u64`.
    Number(Option<u64>),
    Other,
}

/// The size in bytes: a number as it is, a string parsed as a `u64`
/// (`None` where that fails), anything else zero.
pub fn lsblk_size(v: &SizeValue) -> (r: Option<u64>)
    ensures
        match v {
            SizeValue::Unsigned(n) => r == Some(*n),
            SizeValue::Text(s) => r == parse_u64_spec(s@),
            SizeValue::Other => r == Some(0u64),
        },
{
    match v {
        SizeValue::Unsigned(n) => Some(*n),
        SizeValue::Text(s) => parse_u64(s.as_str()),
        SizeValue::Other => Some(0),
    }
}

/// The flag: a boolean as it is, the strings `true` and `1` as set, the
/// number 1 as set, anything else unset.
pub fn lsblk_flag(v: &FlagValue) -> (b: bool)
    ensures
        b == match v {
            FlagValue::Bool(x) => *x,
            FlagValue::Text(s) => s@ == "true"@ || s@ == "1"@,
            FlagValue::Number(n) => *n == Some(1u64),
            FlagValue::Other => false,
        },
{
    match v {
        FlagValue::Bool(x) => *x,
        FlagValue::Text(s) => same_text(s.as_str(), "true") || same_text(s.as_str(), "1"),
        FlagValue::Number(n) => match n {
            Some(k) => *k == 1,
            None => false,
        },
        FlagValue::Other => false,
    }
}

/// The disk that an `lsblk` entry describes.
pub open spec fn block_device_of(d: LsblkDevice) -> BlockDevice {
    BlockDevice {
        name: d.name,
        size_bytes: d.size,
        model: d.model,
        transport: d.tran,
        serial: d.serial,
        read_only: d.ro,
    }
}

pub open spec fn is_disk(d: LsblkDevice) -> bool {
    d.dev_type@ == "disk"@
}

/// The entries of type `disk`, in order.
pub open spec fn disk_entries(devices: Seq<LsblkDevice>) -> Seq<LsblkDevice> {
    devices.filter(|d: LsblkDevice| is_disk(d))
}

/// The block devices listed for the entries of type `disk`.
pub open spec fn disk_list(devices: Seq<LsblkDevice>) -> Seq<BlockDevice> {
    disk_entries(devices).map_values(|d: LsblkDevice| block_device_of(d))
}

/// The entries of type `disk`, in order, as block devices.
pub fn disks(devices: Vec<LsblkDevice>) -> (r: Vec<BlockDevice>)
    ensures
        r@ == devices@.filter(|d: LsblkDevice| is_disk(d)).map_values(
            |d: LsblkDevice| block_device_of(d),
        ),
        r@.len() == disk_entries(devices@).len(),
        forall|i: int|
            0 <= i < r@.len() ==> {
                let d = disk_entries(devices@)[i];
                &&& (#[trigger] r@[i]).read_only == d.ro
                &&& r@[i].name == d.name
                &&& r@[i].size_bytes == d.size
                &&& r@[i].model == d.model
                &&& r@[i].transport == d.tran
                &&& r@[i].serial == d.serial
            },
{
    let ghost all = devices@;
    let mut rest = devices;
    let mut r: Vec<BlockDevice> = Vec::new();
    let ghost mut k: int = 0;
    while rest.len() > 0
        invariant
            0 <= k <= all.len(),
            rest@ == all.subrange(k, all.len() as int),
            r@ == all.subrange(0, k).filter(|d: LsblkDevice| is_disk(d)).map_values(
                |d: LsblkDevice| block_device_of(d),
            ),
        decreases rest.len(),
    {
        let d = rest.remove(0);
        proof {
            let pred = |d: LsblkDevice| is_disk(d);
            assert(all.subrange(0, k + 1) =~= all.subrange(0, k).push(d));
            all.subrange(0, k).lemma_filter_push(d, pred);
        }
        if same_text(d.dev_type.as_str(), "disk") {
            let ghost before = r@;
            r.push(
                BlockDevice {
                    name: d.name,
                    size_bytes: d.size,
                    model: d.model,
                    transport: d.tran,
                    serial: d.serial,
                    read_only: d.ro,
                },
            );
            proof {
                let f = |d: LsblkDevice| block_device_of(d);
                let pred = |d: LsblkDevice| is_disk(d);
                let fl = all.subrange(0, k).filter(pred);
                assert(fl.push(d).map_values(f) =~= fl.map_values(f).push(f(d)));
            }
        }
        proof {
            k = k + 1;
            assert(rest@ =~= all.subrange(k, all.len() as int));
        }
    }
    proof {
        assert(all.subrange(0, k) =~= all);
        lemma_disk_fields_kept(all);
    }
    r
}

/// Each block device listed for an `lsblk` entry carries that entry's
/// fields as they are: its name, size, model, transport, serial and
/// read-only flag, so a write-protected disk stays read-only.
pub proof fn lemma_disk_fields_kept(devices: Seq<LsblkDevice>)
    ensures
        disk_list(devices).len() == disk_entries(devices).len(),
        forall|i: int|
            0 <= i < disk_entries(devices).len() ==> {
                let d = disk_entries(devices)[i];
                let b = #[trigger] disk_list(devices)[i];
                &&& b.read_only == d.ro
                &&& b.name == d.name
                &&& b.size_bytes == d.size
                &&& b.model == d.model
                &&& b.transport == d.tran
                &&& b.serial == d.serial
            },
{
}

/// What the wiper does with a device.
pub enum WipeAction {
    SkipReadOnly,
    SkipVirtual,
    Wipe,
}

/// Read-only devices are skipped, then loop, RAM and compressed-RAM
/// devices; every other device is wiped.
pub fn wipe_action(dev: &BlockDevice) -> (a: WipeAction)
    ensures
        dev.read_only ==> a is SkipReadOnly,
        !dev.read_only ==> if has_prefix(dev.name@, "loop"@) || has_prefix(dev.name@, "ram"@)
            || has_prefix(dev.name@, "zram"@) {
            a is SkipVirtual
        } else {
            a is Wipe
        },
{
    if dev.read_only {
        WipeAction::SkipReadOnly
    } else if starts_with(dev.name.as_str(), "loop") || starts_with(dev.name.as_str(), "ram")
        || starts_with(dev.name.as_str(), "zram") {
        WipeAction::SkipVirtual
    } else {
        WipeAction::Wipe
    }
}

/// The device file of a block device.
pub fn device_path(name: &str) -> (p: String)
    ensures
        p@ == "/dev/"@ + name@,
{
    join("/dev/", name)
}

// ---------------------------------------------------------------------------
// Network devices
// ---------------------------------------------------------------------------

/// A physical network interface.
pub struct NetworkDevice {
    pub name: String,
    pub mac_address: String,
    pub speed_mbps: Option<i64>,
    pub driver: Option<String>,
}

/// The description of the interface `name`: none for the loopback interface
/// or one without a backing device; otherwise the trimmed address (empty
/// where it could not be read), the trimmed speed parsed as a number where
/// it parses, and the driver.
pub fn network_device(
    name: String,
    has_device: bool,
    address: Option<String>,
    speed: Option<String>,
    driver: Option<String>,
) -> (d: Option<NetworkDevice>)
    ensures
        (name@ == "lo"@ || !has_device) ==> d is None,
        !(name@ == "lo"@ || !has_device) ==> (d matches Some(dev) && dev.name == name
            && dev.mac_address@ == unicode_trim(match address {
            Some(a) => a@,
            None => Seq::<char>::empty(),
        }) && dev.speed_mbps == match speed {
            Some(s) => parse_i64_spec(unicode_trim(s@)),
            None => None,
        } && dev.driver == driver),
{
    if same_text(name.as_str(), "lo") || !has_device {
        return None;
    }
    let raw = match address {
        Some(a) => a,
        None => String::new(),
    };
    let mac_address = trim(raw.as_str());
    let speed_mbps = match speed {
        Some(s) => {
            let t = trim(s.as_str());
            parse_i64(t.as_str())
        },
        None => None,
    };
    Some(NetworkDevice { name, mac_address, speed_mbps, driver })
}

} // verus!
