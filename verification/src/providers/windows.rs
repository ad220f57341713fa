//! The text that the Windows queries of this application print, read into
//! values: the system, disks, network adapters, memory modules, and the
//! instance names of performance counters.
use vstd::prelude::*;
use crate::commands::ports::opt_text;
use crate::disk_cleanup::ascii_alnum_only;
use crate::models::WindowsInfo;
use crate::text::{
    ascii_lower, before_first, before_first_chars, chars_of, concat_str, contains, contains_chars,
    contains_str, eq_ignore_ascii_case, eq_ignore_case, equals_str, find_first, find_first_chars,
    index_of, index_of_char, is_ascii_alnum, is_ascii_alphanumeric, is_digit, lines, lines_of,
    lower, lowercase, owned, parse_unsigned, parse_unsigned_chars, seqs_of, skip_chars,
    slice_chars, split, split_on, split_whitespace, string_of, to_ascii_lower, trim, trim_chars,
    words,
};

verus! {

/// The trimmed text, when it is not empty.
pub open spec fn nonblank(s: Seq<char>) -> Option<Seq<char>> {
    if trim(s).len() > 0 {
        Some(trim(s))
    } else {
        None
    }
}

/// The trimmed, non-empty pieces of a comma-separated list, in order.
pub open spec fn list_items(pieces: Seq<Seq<char>>) -> Seq<Seq<char>>
    decreases pieces.len(),
{
    if pieces.len() == 0 {
        Seq::empty()
    } else {
        let rest = list_items(pieces.drop_last());
        if trim(pieces.last()).len() > 0 {
            rest.push(trim(pieces.last()))
        } else {
            rest
        }
    }
}

pub open spec fn comma_list(s: Seq<char>) -> Seq<Seq<char>> {
    list_items(split(s, ','))
}

pub open spec fn texts(v: Seq<String>) -> Seq<Seq<char>> {
    v.map_values(|s: String| s@)
}

/// An unsigned integer field that is greater than zero.
pub open spec fn positive_field(s: Seq<char>, max: int) -> Option<int> {
    match parse_unsigned(s, max) {
        Some(v) => if v > 0 { Some(v) } else { None },
        None => None,
    }
}

/// The entries `key|value` of the lines that have a `|` and a value that is
/// not blank (both trimmed); for a key given twice, the last.
pub open spec fn keyed_value(ls: Seq<Seq<char>>, key: Seq<char>) -> Option<Seq<char>>
    decreases ls.len(),
{
    if ls.len() == 0 {
        None
    } else {
        let line = ls.last();
        match index_of(line, '|') {
            Some(i) => if trim(line.take(i)) == key && trim(line.skip(i + 1)).len() > 0 {
                Some(trim(line.skip(i + 1)))
            } else {
                keyed_value(ls.drop_last(), key)
            },
            None => keyed_value(ls.drop_last(), key),
        }
    }
}

/// `info` holds what the system query printed, one `key|value` line per item.
pub open spec fn is_windows_info(info: WindowsInfo, output: Seq<char>) -> bool {
    let ls = lines(output);
    &&& opt_text(info.device_name) == keyed_value(ls, "deviceName"@)
    &&& opt_text(info.manufacturer) == keyed_value(ls, "manufacturer"@)
    &&& opt_text(info.model) == keyed_value(ls, "model"@)
    &&& opt_text(info.system_type) == keyed_value(ls, "systemType"@)
    &&& opt_text(info.device_id) == keyed_value(ls, "deviceId"@)
    &&& opt_text(info.product_id) == keyed_value(ls, "productId"@)
    &&& opt_text(info.os_edition) == keyed_value(ls, "osEdition"@)
    &&& opt_text(info.os_version) == keyed_value(ls, "osVersion"@)
    &&& opt_text(info.installed_on) == keyed_value(ls, "installedOn"@)
    &&& opt_text(info.os_build) == keyed_value(ls, "osBuild"@)
    &&& opt_text(info.experience) == keyed_value(ls, "experience"@)
}

/// A physical disk as the disk query describes it.
#[derive(Clone, Debug)]
pub struct DiskDriveDetails {
    pub disk_index: usize,
    pub name: String,
    pub labels: Vec<String>,
    pub capacity_bytes: Option<u64>,
    pub formatted_bytes: Option<u64>,
    pub system_disk: bool,
    pub page_file: bool,
    pub disk_type: Option<String>,
}

/// The kind of a disk shown from its media and interface types.
pub open spec fn disk_type_of(media_type: Seq<char>, interface_type: Seq<char>) -> Seq<char> {
    let media = trim(media_type);
    let interface = trim(interface_type);
    let kind = if contains(lower(media), "ssd"@) {
        "SSD"@
    } else if contains(lower(media), "hdd"@) || contains(lower(media), "fixed"@) {
        "HDD"@
    } else if media.len() == 0 {
        "Disk"@
    } else {
        media
    };
    if interface.len() == 0 {
        kind
    } else {
        kind + " ("@ + interface + ")"@
    }
}

/// `d` is the disk a trimmed line `DISK|index|name|size|media|interface|formatted|system|pagefile|labels` describes.
pub open spec fn is_disk_of_line(d: DiskDriveDetails, line: Seq<char>) -> bool {
    let p = split(line, '|');
    &&& p.len() == 10
    &&& p[0] == "DISK"@
    &&& parse_unsigned(p[1], usize::MAX as int) == Some(d.disk_index as int)
    &&& d.name@ == if trim(p[2]).len() == 0 { "Disk "@ + p[1] } else { trim(p[2]) }
    &&& texts(d.labels@) == comma_list(p[9])
    &&& d.capacity_bytes == match positive_field(p[3], u64::MAX as int) { Some(v) => Some(v as u64), None => None }
    &&& d.formatted_bytes == match positive_field(p[6], u64::MAX as int) { Some(v) => Some(v as u64), None => None }
    &&& d.system_disk == eq_ignore_case(p[7], "true"@)
    &&& d.page_file == eq_ignore_case(p[8], "true"@)
    &&& opt_text(d.disk_type) == Some(disk_type_of(p[4], p[5]))
}

/// Whether a trimmed line describes a disk (see `is_disk_of_line`).
pub open spec fn describes_disk(line: Seq<char>) -> bool {
    let p = split(line, '|');
    p.len() == 10 && p[0] == "DISK"@ && parse_unsigned(p[1], usize::MAX as int) is Some
}

/// The non-blank lines, trimmed.
pub open spec fn nonblank_lines(ls: Seq<Seq<char>>) -> Seq<Seq<char>>
    decreases ls.len(),
{
    if ls.len() == 0 {
        Seq::empty()
    } else if trim(ls.last()).len() > 0 {
        nonblank_lines(ls.drop_last()).push(trim(ls.last()))
    } else {
        nonblank_lines(ls.drop_last())
    }
}

/// The lines among `ls` that describe a disk, in order.
pub open spec fn disk_lines(ls: Seq<Seq<char>>) -> Seq<Seq<char>>
    decreases ls.len(),
{
    if ls.len() == 0 {
        Seq::empty()
    } else if describes_disk(ls.last()) {
        disk_lines(ls.drop_last()).push(ls.last())
    } else {
        disk_lines(ls.drop_last())
    }
}

/// A network adapter as the adapter query describes it.
#[derive(Clone, Debug)]
pub struct NetworkAdapterDetails {
    pub adapter_index: Option<usize>,
    pub name: String,
    pub connection_name: Option<String>,
    pub mac_address: Option<String>,
    pub adapter_type: Option<String>,
    pub link_speed_bits_per_sec: Option<u64>,
    pub ipv4_addresses: Vec<String>,
    pub ipv6_addresses: Vec<String>,
}

/// Whether a trimmed line describes a network adapter.
pub open spec fn describes_adapter(line: Seq<char>) -> bool {
    let p = split(line, '|');
    p.len() == 9 && p[0] == "NIC"@
}

/// `a` is the adapter a trimmed line `NIC|index|name|connection|mac|type|speed|ipv4|ipv6` describes.
pub open spec fn is_adapter_of_line(a: NetworkAdapterDetails, line: Seq<char>) -> bool {
    let p = split(line, '|');
    &&& a.adapter_index == match parse_unsigned(p[1], usize::MAX as int) { Some(v) => Some(v as usize), None => None }
    &&& a.name@ == trim(p[2])
    &&& opt_text(a.connection_name) == nonblank(p[3])
    &&& opt_text(a.mac_address) == nonblank(p[4])
    &&& opt_text(a.adapter_type) == nonblank(p[5])
    &&& a.link_speed_bits_per_sec == match positive_field(p[6], u64::MAX as int) { Some(v) => Some(v as u64), None => None }
    &&& texts(a.ipv4_addresses@) == comma_list(p[7])
    &&& texts(a.ipv6_addresses@) == comma_list(p[8])
}

/// The lines among `ls` that describe an adapter, in order.
pub open spec fn adapter_lines(ls: Seq<Seq<char>>) -> Seq<Seq<char>>
    decreases ls.len(),
{
    if ls.len() == 0 {
        Seq::empty()
    } else if describes_adapter(ls.last()) {
        adapter_lines(ls.drop_last()).push(ls.last())
    } else {
        adapter_lines(ls.drop_last())
    }
}

/// A name reduced to its ASCII letters and digits, in lower case.
pub open spec fn normalized_name(s: Seq<char>) -> Seq<char> {
    lower(ascii_alnum_only(s))
}

/// Whether a counter instance name belongs to an adapter: its normalized name
/// or connection name and the instance's contain one another.
pub open spec fn instance_matches(instance: Seq<char>, name: Seq<char>, connection: Option<Seq<char>>) -> bool {
    let i = normalized_name(instance);
    let n = normalized_name(name);
    let c = match connection {
        Some(c) => normalized_name(c),
        None => Seq::empty(),
    };
    (n.len() > 0 && (contains(i, n) || contains(n, i))) || (c.len() > 0 && (contains(i, c) || contains(c, i)))
}

/// The digits at the start of `s`.
pub open spec fn leading_digits(s: Seq<char>) -> Seq<char>
    decreases s.len(),
{
    if s.len() > 0 && is_digit(s[0]) {
        seq![s[0]] + leading_digits(s.drop_first())
    } else {
        Seq::empty()
    }
}

/// The process id in a counter instance name: the digits after its first `pid_`.
pub open spec fn pid_of_instance(v: Seq<char>) -> Option<u32> {
    match find_first(v, "pid_"@) {
        Some(i) => match parse_unsigned(leading_digits(v.skip(i + 4)), u32::MAX as int) {
            Some(n) => Some(n as u32),
            None => None,
        },
        None => None,
    }
}

/// The engine type in a counter instance name: what follows its first
/// `engtype_`, up to the next `engtype_` and then to the first `_`.
pub open spec fn engine_of_instance(v: Seq<char>) -> Seq<char> {
    match find_first(v, "engtype_"@) {
        Some(i) => split(before_first(v.skip(i + 8), "engtype_"@), '_')[0],
        None => "unknown"@,
    }
}

/// The adapter in a counter instance name: from `luid_` to the following
/// `_phys_`, else `phys_` and what follows the first `phys_` up to `_`.
pub open spec fn adapter_of_instance(v: Seq<char>) -> Seq<char> {
    let luid = find_first(v, "luid_"@);
    if luid is Some && find_first(v.skip(luid->0), "_phys_"@) is Some {
        v.subrange(luid->0, luid->0 + find_first(v.skip(luid->0), "_phys_"@)->0)
    } else {
        match find_first(v, "phys_"@) {
            Some(i) => "phys_"@ + split(before_first(v.skip(i + 5), "phys_"@), '_')[0],
            None => "unknown"@,
        }
    }
}

/// The disk number at the start of a counter instance name (`0 C:`).
pub open spec fn disk_index_of(instance: Seq<char>) -> Option<usize> {
    let ws = words(instance);
    if ws.len() == 0 {
        None
    } else {
        match parse_unsigned(ws[0], usize::MAX as int) {
            Some(n) => Some(n as usize),
            None => None,
        }
    }
}

fn field_nonblank(s: &Vec<char>) -> (r: Option<String>)
    ensures
        opt_text(r) == nonblank(s@),
{
    let t = trim_chars(s);
    if t.len() > 0 {
        Some(string_of(&t))
    } else {
        None
    }
}

fn positive_u64(s: &Vec<char>) -> (r: Option<u64>)
    ensures
        r == match positive_field(s@, u64::MAX as int) { Some(v) => Some(v as u64), None => None },
{
    match parse_unsigned_chars(s, u64::MAX) {
        Some(v) => if v > 0 {
            Some(v)
        } else {
            None
        },
        None => None,
    }
}

fn parse_usize(s: &Vec<char>) -> (r: Option<usize>)
    ensures
        r == match parse_unsigned(s@, usize::MAX as int) { Some(v) => Some(v as usize), None => None },
        r matches Some(k) ==> parse_unsigned(s@, usize::MAX as int) == Some(k as int),
{
    match parse_unsigned_chars(s, usize::MAX as u64) {
        Some(v) => Some(v as usize),
        None => None,
    }
}

/// The trimmed, non-empty items of a comma-separated list.
pub fn comma_items(s: &Vec<char>) -> (r: Vec<String>)
    ensures
        texts(r@) == comma_list(s@),
{
    let pieces = split_on(s, ',');
    let ghost ps = seqs_of(pieces@);
    let mut out: Vec<String> = Vec::new();
    let mut k: usize = 0;
    while k < pieces.len()
        invariant
            k <= pieces.len(),
            ps == seqs_of(pieces@),
            ps == split(s@, ','),
            texts(out@) == list_items(ps.take(k as int)),
        decreases pieces.len() - k,
    {
        assert(ps.take(k + 1).drop_last() =~= ps.take(k as int));
        assert(ps.take(k + 1).last() == pieces@[k as int]@);
        let t = trim_chars(&pieces[k]);
        if t.len() > 0 {
            let ghost before = texts(out@);
            out.push(string_of(&t));
            assert(texts(out@) =~= before.push(t@));
        }
        k = k + 1;
    }
    assert(ps.take(ps.len() as int) =~= ps);
    out
}

/// The kind of a disk shown from its media and interface types (see `disk_type_of`).
pub fn disk_type(media_type: &Vec<char>, interface_type: &Vec<char>) -> (r: String)
    ensures
        r@ == disk_type_of(media_type@, interface_type@),
{
    let media = trim_chars(media_type);
    let interface = trim_chars(interface_type);
    let lower_media = lowercase(&media);
    let kind = if contains_str(&lower_media, "ssd") {
        owned("SSD")
    } else if contains_str(&lower_media, "hdd") || contains_str(&lower_media, "fixed") {
        owned("HDD")
    } else if media.len() == 0 {
        owned("Disk")
    } else {
        string_of(&media)
    };
    if interface.len() == 0 {
        kind
    } else {
        let a = concat_str(kind.as_str(), " (");
        let b = concat_str(a.as_str(), string_of(&interface).as_str());
        concat_str(b.as_str(), ")")
    }
}

fn disk_from_line(line: &Vec<char>) -> (r: Option<DiskDriveDetails>)
    ensures
        describes_disk(line@) ==> (r matches Some(d) && is_disk_of_line(d, line@)),
        !describes_disk(line@) ==> r is None,
{
    let p = split_on(line, '|');
    assert(forall|i: int| 0 <= i < p@.len() ==> p@[i]@ == #[trigger] split(line@, '|')[i]);
    assert(p@.len() == split(line@, '|').len());
    if p.len() != 10 || !equals_str(&p[0], "DISK") {
        return None;
    }
    let disk_index = match parse_usize(&p[1]) {
        Some(i) => i,
        None => {
            return None;
        },
    };
    let name_text = trim_chars(&p[2]);
    let name = if name_text.len() == 0 {
        concat_str("Disk ", string_of(&p[1]).as_str())
    } else {
        string_of(&name_text)
    };
    let chars_true = chars_of("true");
    Some(DiskDriveDetails {
        disk_index,
        name,
        labels: comma_items(&p[9]),
        capacity_bytes: positive_u64(&p[3]),
        formatted_bytes: positive_u64(&p[6]),
        system_disk: eq_ignore_ascii_case(&p[7], &chars_true),
        page_file: eq_ignore_ascii_case(&p[8], &chars_true),
        disk_type: Some(disk_type(&p[4], &p[5])),
    })
}

/// The non-blank lines of a text, trimmed.
fn nonblank_lines_of(output: &str) -> (r: Vec<Vec<char>>)
    ensures
        seqs_of(r@) == nonblank_lines(lines(output@)),
{
    let text = chars_of(output);
    let all = lines_of(&text);
    let mut out: Vec<Vec<char>> = Vec::new();
    let mut k: usize = 0;
    while k < all.len()
        invariant
            k <= all.len(),
            seqs_of(all@) == lines(output@),
            seqs_of(out@) == nonblank_lines(seqs_of(all@).take(k as int)),
        decreases all.len() - k,
    {
        assert(seqs_of(all@).take(k + 1).drop_last() =~= seqs_of(all@).take(k as int));
        assert(seqs_of(all@).take(k + 1).last() == all@[k as int]@);
        let t = trim_chars(&all[k]);
        if t.len() > 0 {
            let ghost before = seqs_of(out@);
            out.push(t);
            assert(seqs_of(out@) =~= before.push(trim(all@[k as int]@)));
        }
        k = k + 1;
    }
    assert(seqs_of(all@).take(all@.len() as int) =~= seqs_of(all@));
    out
}

/// The disks the disk query printed, in order.
pub fn parse_disk_details(output: &str) -> (r: Vec<DiskDriveDetails>)
    ensures
        r@.len() == disk_lines(nonblank_lines(lines(output@))).len(),
        forall|i: int| 0 <= i < r@.len() ==> is_disk_of_line(#[trigger] r@[i], disk_lines(nonblank_lines(lines(output@)))[i]),
{
    let ls = nonblank_lines_of(output);
    let ghost all = seqs_of(ls@);
    let mut out: Vec<DiskDriveDetails> = Vec::new();
    let mut k: usize = 0;
    while k < ls.len()
        invariant
            k <= ls.len(),
            all == seqs_of(ls@),
            out@.len() == disk_lines(all.take(k as int)).len(),
            forall|i: int| 0 <= i < out@.len() ==> is_disk_of_line(#[trigger] out@[i], disk_lines(all.take(k as int))[i]),
        decreases ls.len() - k,
    {
        assert(all.take(k + 1).drop_last() =~= all.take(k as int));
        assert(all.take(k + 1).last() == ls@[k as int]@);
        match disk_from_line(&ls[k]) {
            Some(d) => {
                out.push(d);
            },
            None => {},
        }
        k = k + 1;
    }
    assert(all.take(all.len() as int) =~= all);
    out
}

fn adapter_from_line(line: &Vec<char>) -> (r: Option<NetworkAdapterDetails>)
    ensures
        describes_adapter(line@) ==> (r matches Some(a) && is_adapter_of_line(a, line@)),
        !describes_adapter(line@) ==> r is None,
{
    let p = split_on(line, '|');
    assert(forall|i: int| 0 <= i < p@.len() ==> p@[i]@ == #[trigger] split(line@, '|')[i]);
    assert(p@.len() == split(line@, '|').len());
    if p.len() != 9 || !equals_str(&p[0], "NIC") {
        return None;
    }
    let name = trim_chars(&p[2]);
    Some(NetworkAdapterDetails {
        adapter_index: parse_usize(&p[1]),
        name: string_of(&name),
        connection_name: field_nonblank(&p[3]),
        mac_address: field_nonblank(&p[4]),
        adapter_type: field_nonblank(&p[5]),
        link_speed_bits_per_sec: positive_u64(&p[6]),
        ipv4_addresses: comma_items(&p[7]),
        ipv6_addresses: comma_items(&p[8]),
    })
}

/// The network adapters the adapter query printed, in order.
pub fn parse_adapter_details(output: &str) -> (r: Vec<NetworkAdapterDetails>)
    ensures
        r@.len() == adapter_lines(nonblank_lines(lines(output@))).len(),
        forall|i: int| 0 <= i < r@.len() ==> is_adapter_of_line(#[trigger] r@[i], adapter_lines(nonblank_lines(lines(output@)))[i]),
{
    let ls = nonblank_lines_of(output);
    let ghost all = seqs_of(ls@);
    let mut out: Vec<NetworkAdapterDetails> = Vec::new();
    let mut k: usize = 0;
    while k < ls.len()
        invariant
            k <= ls.len(),
            all == seqs_of(ls@),
            out@.len() == adapter_lines(all.take(k as int)).len(),
            forall|i: int| 0 <= i < out@.len() ==> is_adapter_of_line(#[trigger] out@[i], adapter_lines(all.take(k as int))[i]),
        decreases ls.len() - k,
    {
        assert(all.take(k + 1).drop_last() =~= all.take(k as int));
        assert(all.take(k + 1).last() == ls@[k as int]@);
        match adapter_from_line(&ls[k]) {
            Some(a) => {
                out.push(a);
            },
            None => {},
        }
        k = k + 1;
    }
    assert(all.take(all.len() as int) =~= all);
    out
}

/// The system information the system query printed (see `is_windows_info`).
pub fn parse_windows_info(output: &str) -> (r: WindowsInfo)
    ensures
        is_windows_info(r, output@),
{
    let text = chars_of(output);
    let all = lines_of(&text);
    let info = WindowsInfo {
        device_name: keyed(&all, "deviceName"),
        manufacturer: keyed(&all, "manufacturer"),
        model: keyed(&all, "model"),
        system_type: keyed(&all, "systemType"),
        device_id: keyed(&all, "deviceId"),
        product_id: keyed(&all, "productId"),
        os_edition: keyed(&all, "osEdition"),
        os_version: keyed(&all, "osVersion"),
        installed_on: keyed(&all, "installedOn"),
        os_build: keyed(&all, "osBuild"),
        experience: keyed(&all, "experience"),
    };
    info
}

fn keyed(all: &Vec<Vec<char>>, key: &str) -> (r: Option<String>)
    ensures
        opt_text(r) == keyed_value(seqs_of(all@), key@),
{
    let ghost ls = seqs_of(all@);
    let kv = chars_of(key);
    let mut k: usize = all.len();
    assert(ls.take(k as int) =~= ls);
    while k > 0
        invariant
            k <= all.len(),
            ls == seqs_of(all@),
            kv@ == key@,
            keyed_value(ls, key@) == keyed_value(ls.take(k as int), key@),
        decreases k,
    {
        assert(ls.take(k as int).last() == all@[k - 1]@);
        assert(ls.take(k as int).drop_last() =~= ls.take(k - 1));
        let line = &all[k - 1];
        let n = line.len();
        match index_of_char(line, '|') {
            Some(i) => {
                let name = slice_chars(line, 0, i);
                assert(name@ =~= line@.take(i as int));
                let name_t = trim_chars(&name);
                let value = skip_chars(line, i + 1);
                let value_t = trim_chars(&value);
                if crate::text::equal_chars(&name_t, &kv) && value_t.len() > 0 {
                    return Some(string_of(&value_t));
                }
            },
            None => {},
        }
        k = k - 1;
    }
    None
}

/// A name reduced to its ASCII letters and digits, in lower case.
pub fn normalized(value: &str) -> (r: Vec<char>)
    ensures
        r@ == normalized_name(value@),
{
    let v = chars_of(value);
    let mut out: Vec<char> = Vec::new();
    let mut k: usize = 0;
    while k < v.len()
        invariant
            k <= v.len(),
            out@ =~= ascii_alnum_only(v@.take(k as int)),
        decreases v.len() - k,
    {
        assert(v@.take(k + 1).drop_last() =~= v@.take(k as int));
        if is_ascii_alphanumeric(v[k]) {
            out.push(v[k]);
        }
        k = k + 1;
    }
    assert(v@.take(v@.len() as int) =~= v@);
    lowercase(&out)
}

/// Whether a counter instance name belongs to an adapter (see `instance_matches`).
pub fn matches_adapter(instance: &str, details: &NetworkAdapterDetails) -> (r: bool)
    ensures
        r == instance_matches(instance@, details.name@, opt_text(details.connection_name)),
{
    let i = normalized(instance);
    let n = normalized(details.name.as_str());
    let c = match &details.connection_name {
        Some(c) => normalized(c.as_str()),
        None => Vec::new(),
    };
    assert(details.connection_name is None ==> c@ =~= Seq::<char>::empty());
    (n.len() > 0 && (contains_chars(&i, &n) || contains_chars(&n, &i))) || (c.len() > 0 && (
    contains_chars(&i, &c) || contains_chars(&c, &i)))
}

/// The process id in a counter instance name (see `pid_of_instance`).
pub fn pid_from_instance(value: &str) -> (r: Option<u32>)
    ensures
        r == pid_of_instance(value@),
{
    let v = chars_of(value);
    let n = v.len();
    let pat = chars_of("pid_");
    proof {
        reveal_strlit("pid_");
    }
    let start = match find_first_chars(&v, &pat) {
        Some(i) => i,
        None => {
            return None;
        },
    };
    proof {
        crate::text::lemma_find_first_occurs(v@, pat@);
    }
    let rest = skip_chars(&v, start + 4);
    let mut digits: Vec<char> = Vec::new();
    let mut k: usize = 0;
    assert(rest@.skip(0) =~= rest@);
    assert(digits@ + rest@ =~= rest@);
    while k < rest.len() && '0' <= rest[k] && rest[k] <= '9'
        invariant
            k <= rest.len(),
            forall|i: int| 0 <= i < k ==> is_digit(#[trigger] rest@[i]),
            digits@ + leading_digits(rest@.skip(k as int)) == leading_digits(rest@),
        decreases rest.len() - k,
    {
        assert(rest@.skip(k as int)[0] == rest@[k as int]);
        assert(rest@.skip(k as int).drop_first() =~= rest@.skip(k + 1));
        digits.push(rest[k]);
        k = k + 1;
        assert(digits@ + leading_digits(rest@.skip(k as int)) =~= leading_digits(rest@));
    }
    assert(leading_digits(rest@.skip(k as int)) =~= Seq::<char>::empty());
    assert(digits@ =~= leading_digits(rest@));
    match parse_unsigned_chars(&digits, 4294967295) {
        Some(n) => Some(n as u32),
        None => None,
    }
}

/// The engine type in a counter instance name (see `engine_of_instance`).
pub fn engine_from_instance(value: &str) -> (r: String)
    ensures
        r@ == engine_of_instance(value@),
{
    let v = chars_of(value);
    let n = v.len();
    let pat = chars_of("engtype_");
    proof {
        reveal_strlit("engtype_");
    }
    match find_first_chars(&v, &pat) {
        Some(i) => {
            proof {
                crate::text::lemma_find_first_occurs(v@, pat@);
            }
            let rest = skip_chars(&v, i + 8);
            let piece = before_first_chars(&rest, &pat);
            let parts = split_on(&piece, '_');
            assert(parts@[0]@ == split(piece@, '_')[0]);
            string_of(&parts[0])
        },
        None => owned("unknown"),
    }
}

/// The adapter in a counter instance name (see `adapter_of_instance`).
pub fn adapter_key_from_instance(value: &str) -> (r: String)
    ensures
        r@ == adapter_of_instance(value@),
{
    let v = chars_of(value);
    let n = v.len();
    let luid = chars_of("luid_");
    let phys_mid = chars_of("_phys_");
    let phys = chars_of("phys_");
    proof {
        reveal_strlit("phys_");
    }
    if let Some(start) = find_first_chars(&v, &luid) {
        proof {
            crate::text::lemma_find_first_occurs(v@, luid@);
        }
        let rest = skip_chars(&v, start);
        if let Some(end) = find_first_chars(&rest, &phys_mid) {
            assert(end <= rest@.len());
            let key = slice_chars(&v, start, start + end);
            assert(key@ =~= v@.subrange(start as int, start + end));
            return string_of(&key);
        }
    }
    match find_first_chars(&v, &phys) {
        Some(i) => {
            proof {
                crate::text::lemma_find_first_occurs(v@, phys@);
            }
            let rest = skip_chars(&v, i + 5);
            let piece = before_first_chars(&rest, &phys);
            let parts = split_on(&piece, '_');
            assert(parts@[0]@ == split(piece@, '_')[0]);
            concat_str("phys_", string_of(&parts[0]).as_str())
        },
        None => owned("unknown"),
    }
}

/// The disk number at the start of a counter instance name (see `disk_index_of`).
pub fn disk_index(instance: &str) -> (r: Option<usize>)
    ensures
        r == disk_index_of(instance@),
{
    let v = chars_of(instance);
    let ws = split_whitespace(&v);
    if ws.len() == 0 {
        return None;
    }
    assert(ws@[0]@ == words(instance@)[0]);
    parse_usize(&ws[0])
}

} // verus!
