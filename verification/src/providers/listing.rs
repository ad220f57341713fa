//! The drives and network adapters shown to the user: which of them, in which
//! order, under which names and numbers. The caller measures the rates over
//! time and adds them to the entry each listing names as its source.
use vstd::prelude::*;
use crate::commands::ports::opt_text;
use crate::commands::system::{decimal, decimal_text};
use crate::providers::macos::{
    disk_visible, interface_kind, interface_visible, macos_disk_is_visible, macos_network_is_visible,
    macos_network_type, shown_mac_address,
};
use crate::providers::windows::{
    disk_index, disk_index_of, instance_matches, matches_adapter, DiskDriveDetails,
    NetworkAdapterDetails,
};
use crate::text::{chars_less, chars_lt, chars_of, concat_str, copy_strings, equals_str, owned, string_seqs};

verus! {

// Stable orderings. An entry carries its key and the position of what it stands for.

/// The view of keyed entries.
pub open spec fn keyed_view(v: Seq<(Vec<char>, usize)>) -> Seq<(Seq<char>, usize)> {
    v.map_values(|p: (Vec<char>, usize)| (p.0@, p.1))
}

/// Where an entry with key `k` goes among `t`: after every entry whose key is not greater.
pub open spec fn text_slot(t: Seq<(Seq<char>, usize)>, k: Seq<char>) -> int
    decreases t.len(),
{
    if t.len() == 0 {
        0
    } else if chars_lt(k, t[0].0) {
        0
    } else {
        1 + text_slot(t.drop_first(), k)
    }
}

/// The entries ordered by their keys (`str` order); entries with equal keys keep
/// their order, as in a stable sort.
pub open spec fn text_order(s: Seq<(Seq<char>, usize)>) -> Seq<(Seq<char>, usize)>
    decreases s.len(),
{
    if s.len() == 0 {
        s
    } else {
        let t = text_order(s.drop_last());
        t.insert(text_slot(t, s.last().0), s.last())
    }
}

pub proof fn lemma_text_slot(t: Seq<(Seq<char>, usize)>, k: Seq<char>)
    ensures
        0 <= text_slot(t, k) <= t.len(),
    decreases t.len(),
{
    if t.len() > 0 {
        lemma_text_slot(t.drop_first(), k);
    }
}

/// Ordering keeps the number of entries, and every position it hands out is one it was given.
pub proof fn lemma_text_order(s: Seq<(Seq<char>, usize)>, bound: usize)
    requires
        forall|i: int| 0 <= i < s.len() ==> (#[trigger] s[i]).1 < bound,
    ensures
        text_order(s).len() == s.len(),
        forall|j: int| 0 <= j < s.len() ==> (#[trigger] text_order(s)[j]).1 < bound,
    decreases s.len(),
{
    if s.len() > 0 {
        let t = text_order(s.drop_last());
        lemma_text_order(s.drop_last(), bound);
        lemma_text_slot(t, s.last().0);
        let u = t.insert(text_slot(t, s.last().0), s.last());
        assert forall|j: int| 0 <= j < s.len() implies (#[trigger] text_order(s)[j]).1 < bound by {
            let k = text_slot(t, s.last().0);
            if j < k {
                assert(u[j] == t[j]);
            } else if j > k {
                assert(u[j] == t[j - 1]);
            }
        }
    }
}

/// Every entry that ordering hands out is one it was given.
pub proof fn lemma_text_order_members(s: Seq<(Seq<char>, usize)>)
    ensures
        forall|j: int| 0 <= j < text_order(s).len() ==> s.contains(#[trigger] text_order(s)[j]),
    decreases s.len(),
{
    if s.len() > 0 {
        let t = text_order(s.drop_last());
        lemma_text_order_members(s.drop_last());
        lemma_text_slot(t, s.last().0);
        let k = text_slot(t, s.last().0);
        let u = t.insert(k, s.last());
        assert forall|j: int| 0 <= j < u.len() implies s.contains(#[trigger] u[j]) by {
            if j < k {
                assert(u[j] == t[j]);
                let i = choose|i: int| 0 <= i < s.drop_last().len() && s.drop_last()[i] == t[j];
                assert(s[i] == u[j]);
            } else if j > k {
                assert(u[j] == t[j - 1]);
                let i = choose|i: int| 0 <= i < s.drop_last().len() && s.drop_last()[i] == t[j - 1];
                assert(s[i] == u[j]);
            } else {
                assert(s[s.len() - 1] == u[j]);
            }
        }
    }
}

fn text_position(t: &Vec<(Vec<char>, usize)>, k: &Vec<char>) -> (r: usize)
    ensures
        r == text_slot(keyed_view(t@), k@),
{
    let ghost tv = keyed_view(t@);
    let mut i: usize = 0;
    assert(tv.skip(0) =~= tv);
    while i < t.len()
        invariant
            i <= t.len(),
            tv == keyed_view(t@),
            text_slot(tv, k@) == i + text_slot(tv.skip(i as int), k@),
        decreases t.len() - i,
    {
        let ghost rest = tv.skip(i as int);
        assert(rest[0] == (t@[i as int].0@, t@[i as int].1));
        assert(rest.drop_first() =~= tv.skip(i + 1));
        if chars_less(k, &t[i].0) {
            return i;
        }
        i = i + 1;
    }
    assert(tv.skip(i as int).len() == 0);
    i
}

/// Orders keyed entries by their keys, stably (see `text_order`).
pub fn order_by_text(items: Vec<(Vec<char>, usize)>) -> (r: Vec<(Vec<char>, usize)>)
    ensures
        keyed_view(r@) == text_order(keyed_view(items@)),
{
    let ghost s = keyed_view(items@);
    assert(s.len() == items.len());
    let mut rest = items;
    let mut out: Vec<(Vec<char>, usize)> = Vec::new();
    let mut n: usize = 0;
    assert(s.skip(0) =~= s);
    assert(keyed_view(out@) =~= text_order(s.take(0)));
    while rest.len() > 0
        invariant
            s.len() == n + rest.len(),
            s.len() <= usize::MAX,
            keyed_view(rest@) == s.skip(n as int),
            keyed_view(out@) == text_order(s.take(n as int)),
        decreases rest.len(),
    {
        let ghost before = keyed_view(out@);
        let ghost rv = keyed_view(rest@);
        let x = rest.remove(0);
        assert(rv[0] == s[n as int]);
        assert(keyed_view(rest@) =~= s.skip(n + 1)) by {
            assert(keyed_view(rest@) =~= rv.drop_first());
        }
        let pos = text_position(&out, &x.0);
        proof {
            lemma_text_slot(before, x.0@);
        }
        let ghost xv = (x.0@, x.1);
        out.insert(pos, x);
        assert(keyed_view(out@) =~= before.insert(pos as int, xv));
        assert(s.take(n + 1).drop_last() =~= s.take(n as int));
        assert(s.take(n + 1).last() == xv);
        n = n + 1;
    }
    assert(s.take(n as int) =~= s);
    out
}

/// Where an entry with number `k` goes among `t`: after every entry whose number is not greater.
pub open spec fn number_slot(t: Seq<(usize, usize)>, k: usize) -> int
    decreases t.len(),
{
    if t.len() == 0 {
        0
    } else if k < t[0].0 {
        0
    } else {
        1 + number_slot(t.drop_first(), k)
    }
}

/// The entries ordered by their numbers; entries with equal numbers keep their
/// order, as in a stable sort.
pub open spec fn number_order(s: Seq<(usize, usize)>) -> Seq<(usize, usize)>
    decreases s.len(),
{
    if s.len() == 0 {
        s
    } else {
        let t = number_order(s.drop_last());
        t.insert(number_slot(t, s.last().0), s.last())
    }
}

pub proof fn lemma_number_slot(t: Seq<(usize, usize)>, k: usize)
    ensures
        0 <= number_slot(t, k) <= t.len(),
    decreases t.len(),
{
    if t.len() > 0 {
        lemma_number_slot(t.drop_first(), k);
    }
}

/// Ordering keeps the number of entries, and every position it hands out is one it was given.
pub proof fn lemma_number_order(s: Seq<(usize, usize)>, bound: usize)
    requires
        forall|i: int| 0 <= i < s.len() ==> (#[trigger] s[i]).1 < bound,
    ensures
        number_order(s).len() == s.len(),
        forall|j: int| 0 <= j < s.len() ==> (#[trigger] number_order(s)[j]).1 < bound,
    decreases s.len(),
{
    if s.len() > 0 {
        let t = number_order(s.drop_last());
        lemma_number_order(s.drop_last(), bound);
        lemma_number_slot(t, s.last().0);
        let u = t.insert(number_slot(t, s.last().0), s.last());
        assert forall|j: int| 0 <= j < s.len() implies (#[trigger] number_order(s)[j]).1 < bound by {
            let k = number_slot(t, s.last().0);
            if j < k {
                assert(u[j] == t[j]);
            } else if j > k {
                assert(u[j] == t[j - 1]);
            }
        }
    }
}

fn number_position(t: &Vec<(usize, usize)>, k: usize) -> (r: usize)
    ensures
        r == number_slot(t@, k),
{
    let mut i: usize = 0;
    assert(t@.skip(0) =~= t@);
    while i < t.len()
        invariant
            i <= t.len(),
            number_slot(t@, k) == i + number_slot(t@.skip(i as int), k),
        decreases t.len() - i,
    {
        assert(t@.skip(i as int)[0] == t@[i as int]);
        assert(t@.skip(i as int).drop_first() =~= t@.skip(i + 1));
        if k < t[i].0 {
            return i;
        }
        i = i + 1;
    }
    assert(t@.skip(i as int).len() == 0);
    i
}

/// Orders numbered entries by their numbers, stably (see `number_order`).
pub fn order_by_number(items: Vec<(usize, usize)>) -> (r: Vec<(usize, usize)>)
    ensures
        r@ == number_order(items@),
{
    let ghost s = items@;
    let mut out: Vec<(usize, usize)> = Vec::new();
    let mut n: usize = 0;
    assert(out@ =~= number_order(s.take(0)));
    while n < items.len()
        invariant
            n <= items.len(),
            s == items@,
            out@ == number_order(s.take(n as int)),
        decreases items.len() - n,
    {
        let x = items[n];
        let pos = number_position(&out, x.0);
        proof {
            lemma_number_slot(out@, x.0);
        }
        out.insert(pos, x);
        assert(s.take(n + 1).drop_last() =~= s.take(n as int));
        assert(s.take(n + 1).last() == x);
        n = n + 1;
    }
    assert(s.take(n as int) =~= s);
    out
}


// Drives.

/// A disk as the system lists it (`sysinfo::Disk`): where it is mounted, its
/// name, its size and free space in bytes, its kind as text and its file system.
pub struct DiskSample {
    pub mount_point: String,
    pub name: String,
    pub total_space: u64,
    pub available_space: u64,
    pub kind: String,
    pub file_system: String,
}

/// A drive as shown. `source` is the position of the sample or counter
/// instance it comes from, whose rates the caller adds.
pub struct DriveListing {
    pub name: String,
    pub labels: Vec<String>,
    pub disk_index: usize,
    pub capacity_bytes: Option<u64>,
    pub formatted_bytes: Option<u64>,
    pub system_disk: Option<bool>,
    pub page_file: Option<bool>,
    pub disk_type: Option<String>,
    pub source: usize,
}

/// A drive as shown, but for its number.
pub struct DriveView {
    pub name: Seq<char>,
    pub labels: Seq<Seq<char>>,
    pub capacity_bytes: Option<u64>,
    pub formatted_bytes: Option<u64>,
    pub system_disk: Option<bool>,
    pub page_file: Option<bool>,
    pub disk_type: Option<Seq<char>>,
    pub source: usize,
}

pub open spec fn drive_view(d: DriveListing) -> DriveView {
    DriveView {
        name: d.name@,
        labels: string_seqs(d.labels@),
        capacity_bytes: d.capacity_bytes,
        formatted_bytes: d.formatted_bytes,
        system_disk: d.system_disk,
        page_file: d.page_file,
        disk_type: opt_text(d.disk_type),
        source: d.source,
    }
}

/// The name a disk is shown under: its name, or its mount point when it has none.
pub open spec fn shown_disk_name(d: DiskSample) -> Seq<char> {
    if d.name@.len() == 0 {
        d.mount_point@
    } else {
        d.name@
    }
}

/// The system disk is the one mounted at `/`.
pub open spec fn is_system_mount(d: DiskSample) -> bool {
    d.mount_point@ == "/"@
}

/// The key drives are ordered by: the system disk first (`0` before `1`), then by name.
pub open spec fn drive_key(d: DiskSample) -> Seq<char> {
    if is_system_mount(d) {
        seq!['0'] + shown_disk_name(d)
    } else {
        seq!['1'] + shown_disk_name(d)
    }
}

/// The disks that are shown (see `disk_visible`), keyed for ordering, with their positions.
pub open spec fn visible_disks(ds: Seq<DiskSample>) -> Seq<(Seq<char>, usize)>
    decreases ds.len(),
{
    if ds.len() == 0 {
        Seq::empty()
    } else {
        let prev = visible_disks(ds.drop_last());
        let d = ds.last();
        if disk_visible(d.mount_point@, d.total_space) {
            prev.push((drive_key(d), (ds.len() - 1) as usize))
        } else {
            prev
        }
    }
}

/// How a disk is shown: under its name, labelled by its mount point, with its
/// size when it has one, the space in use (size less free space, at least 0),
/// whether it is the system disk, and its kind with its file system.
pub open spec fn mac_drive(d: DiskSample, source: usize) -> DriveView {
    DriveView {
        name: shown_disk_name(d),
        labels: seq![d.mount_point@],
        capacity_bytes: if d.total_space > 0 {
            Some(d.total_space)
        } else {
            None
        },
        formatted_bytes: Some(
            if d.total_space >= d.available_space {
                (d.total_space - d.available_space) as u64
            } else {
                0u64
            },
        ),
        system_disk: Some(is_system_mount(d)),
        page_file: None,
        disk_type: Some(d.kind@ + " ("@ + d.file_system@ + ")"@),
        source,
    }
}

/// The drives of this Mac as shown: the visible disks, the system disk first,
/// then by name, numbered by their place in this order.
pub open spec fn sorted_drives(ds: Seq<DiskSample>) -> Seq<DriveView> {
    let o = text_order(visible_disks(ds));
    Seq::new(o.len(), |j: int| mac_drive(ds[o[j].1 as int], o[j].1))
}

proof fn lemma_visible_disks(ds: Seq<DiskSample>)
    ensures
        forall|i: int| 0 <= i < visible_disks(ds).len() ==> (#[trigger] visible_disks(ds)[i]).1 < ds.len(),
        visible_disks(ds).len() <= ds.len(),
    decreases ds.len(),
{
    if ds.len() > 0 {
        lemma_visible_disks(ds.drop_last());
    }
}

fn drive_key_chars(d: &DiskSample) -> (r: Vec<char>)
    ensures
        r@ == drive_key(*d),
{
    let m = chars_of(d.mount_point.as_str());
    let n = chars_of(d.name.as_str());
    let shown = if n.len() == 0 {
        chars_of(d.mount_point.as_str())
    } else {
        n
    };
    proof {
        reveal_strlit("/");
    }
    let mut key: Vec<char> = Vec::new();
    if equals_str(&m, "/") {
        key.push('0');
    } else {
        key.push('1');
    }
    let mut k: usize = 0;
    let ghost first = key@;
    while k < shown.len()
        invariant
            k <= shown.len(),
            key@ =~= first + shown@.take(k as int),
        decreases shown.len() - k,
    {
        key.push(shown[k]);
        k = k + 1;
    }
    assert(shown@.take(shown@.len() as int) =~= shown@);
    key
}

fn mac_drive_row(d: &DiskSample, source: usize, index: usize) -> (r: DriveListing)
    ensures
        drive_view(r) == mac_drive(*d, source),
        r.disk_index == index,
{
    let name = if chars_of(d.name.as_str()).len() == 0 {
        d.mount_point.clone()
    } else {
        d.name.clone()
    };
    let mut labels: Vec<String> = Vec::new();
    labels.push(d.mount_point.clone());
    let m = chars_of(d.mount_point.as_str());
    let system = equals_str(&m, "/");
    let used: u64 = if d.total_space >= d.available_space {
        d.total_space - d.available_space
    } else {
        0
    };
    let a = concat_str(d.kind.as_str(), " (");
    let b = concat_str(a.as_str(), d.file_system.as_str());
    let kind = concat_str(b.as_str(), ")");
    let r = DriveListing {
        name,
        labels,
        disk_index: index,
        capacity_bytes: if d.total_space > 0 {
            Some(d.total_space)
        } else {
            None
        },
        formatted_bytes: Some(used),
        system_disk: Some(system),
        page_file: None,
        disk_type: Some(kind),
        source,
    };
    assert(string_seqs(r.labels@) =~= seq![d.mount_point@]);
    r
}

/// The drives of this Mac as shown (see `sorted_drives`), each numbered by its place.
pub fn drive_listing(disks: &Vec<DiskSample>) -> (r: Vec<DriveListing>)
    ensures
        r@.len() == sorted_drives(disks@).len(),
        forall|i: int|
            0 <= i < r@.len() ==> (#[trigger] r@[i]).disk_index == i && drive_view(r@[i])
                == sorted_drives(disks@)[i],
{
    let ghost ds = disks@;
    let mut keys: Vec<(Vec<char>, usize)> = Vec::new();
    let mut i: usize = 0;
    assert(keyed_view(keys@) =~= visible_disks(ds.take(0)));
    while i < disks.len()
        invariant
            i <= disks.len(),
            ds == disks@,
            keyed_view(keys@) == visible_disks(ds.take(i as int)),
        decreases disks.len() - i,
    {
        let d = &disks[i];
        assert(ds.take(i + 1).drop_last() =~= ds.take(i as int));
        assert(ds.take(i + 1).last() == *d);
        if macos_disk_is_visible(d.mount_point.as_str(), d.total_space) {
            let key = drive_key_chars(d);
            let ghost before = keyed_view(keys@);
            keys.push((key, i));
            assert(keyed_view(keys@) =~= before.push((drive_key(*d), i)));
        }
        i = i + 1;
    }
    assert(ds.take(i as int) =~= ds);
    let order = order_by_text(keys);
    let ghost o = keyed_view(order@);
    proof {
        lemma_visible_disks(ds);
        lemma_text_order(visible_disks(ds), disks.len());
    }
    let mut out: Vec<DriveListing> = Vec::new();
    let mut j: usize = 0;
    while j < order.len()
        invariant
            j <= order.len(),
            ds == disks@,
            o == keyed_view(order@),
            o == text_order(visible_disks(ds)),
            o.len() == order.len(),
            forall|q: int| 0 <= q < o.len() ==> (#[trigger] o[q]).1 < ds.len(),
            out@.len() == j,
            forall|q: int|
                0 <= q < j ==> (#[trigger] out@[q]).disk_index == q && drive_view(out@[q])
                    == sorted_drives(ds)[q],
        decreases order.len() - j,
    {
        let source = order[j].1;
        assert(o[j as int].1 == source);
        let row = mac_drive_row(&disks[source], source, j);
        out.push(row);
        j = j + 1;
    }
    out
}


/// The details of disk number `n`: the first that names it.
pub open spec fn details_of_disk(ds: Seq<DiskDriveDetails>, n: usize) -> Option<DiskDriveDetails>
    decreases ds.len(),
{
    if ds.len() == 0 {
        None
    } else if ds[0].disk_index == n {
        Some(ds[0])
    } else {
        details_of_disk(ds.drop_first(), n)
    }
}

/// The counter instances that name a disk number (see `disk_index_of`), with
/// that number and their positions.
pub open spec fn numbered_instances(instances: Seq<String>) -> Seq<(usize, usize)>
    decreases instances.len(),
{
    if instances.len() == 0 {
        Seq::empty()
    } else {
        let prev = numbered_instances(instances.drop_last());
        match disk_index_of(instances.last()@) {
            Some(n) => prev.push((n, (instances.len() - 1) as usize)),
            None => prev,
        }
    }
}

/// How disk number `n` is shown: under the name of its details (else
/// `Disk n`), with their labels, sizes, flags and kind where there are details.
pub open spec fn windows_drive(n: usize, source: usize, d: Option<DiskDriveDetails>) -> DriveView {
    DriveView {
        name: match d {
            Some(x) => if x.name@.len() > 0 {
                x.name@
            } else {
                "Disk "@ + decimal(n as nat)
            },
            None => "Disk "@ + decimal(n as nat),
        },
        labels: match d {
            Some(x) => string_seqs(x.labels@),
            None => Seq::empty(),
        },
        capacity_bytes: match d {
            Some(x) => x.capacity_bytes,
            None => None,
        },
        formatted_bytes: match d {
            Some(x) => x.formatted_bytes,
            None => None,
        },
        system_disk: match d {
            Some(x) => Some(x.system_disk),
            None => None,
        },
        page_file: match d {
            Some(x) => Some(x.page_file),
            None => None,
        },
        disk_type: match d {
            Some(x) => opt_text(x.disk_type),
            None => None,
        },
        source,
    }
}

/// The drives of this Windows machine as shown: one for each counter instance
/// that names a disk number, ordered by that number.
pub open spec fn windows_drives(instances: Seq<String>) -> Seq<(usize, usize)> {
    number_order(numbered_instances(instances))
}

proof fn lemma_numbered_instances(instances: Seq<String>)
    ensures
        forall|i: int| 0 <= i < numbered_instances(instances).len() ==> (#[trigger] numbered_instances(instances)[i]).1 < instances.len(),
        numbered_instances(instances).len() <= instances.len(),
    decreases instances.len(),
{
    if instances.len() > 0 {
        lemma_numbered_instances(instances.drop_last());
    }
}

fn find_disk_details(details: &Vec<DiskDriveDetails>, n: usize) -> (r: Option<&DiskDriveDetails>)
    ensures
        match details_of_disk(details@, n) {
            Some(d) => r matches Some(x) && *x == d,
            None => r is None,
        },
{
    let mut k: usize = 0;
    assert(details@.skip(0) =~= details@);
    while k < details.len()
        invariant
            k <= details.len(),
            details_of_disk(details@, n) == details_of_disk(details@.skip(k as int), n),
        decreases details.len() - k,
    {
        assert(details@.skip(k as int)[0] == details@[k as int]);
        assert(details@.skip(k as int).drop_first() =~= details@.skip(k + 1));
        if details[k].disk_index == n {
            return Some(&details[k]);
        }
        k = k + 1;
    }
    None
}

fn copy_text(s: &Option<String>) -> (r: Option<String>)
    ensures
        opt_text(r) == opt_text(*s),
{
    match s {
        Some(t) => Some(t.clone()),
        None => None,
    }
}

fn windows_drive_row(n: usize, source: usize, d: Option<&DiskDriveDetails>) -> (r: DriveListing)
    ensures
        drive_view(r) == windows_drive(
            n,
            source,
            match d {
                Some(x) => Some(*x),
                None => None,
            },
        ),
        r.disk_index == n,
{
    let fallback = concat_str("Disk ", decimal_text(n as u64).as_str());
    match d {
        Some(x) => {
            let name = if chars_of(x.name.as_str()).len() > 0 {
                x.name.clone()
            } else {
                fallback
            };
            DriveListing {
                name,
                labels: copy_strings(&x.labels),
                disk_index: n,
                capacity_bytes: x.capacity_bytes,
                formatted_bytes: x.formatted_bytes,
                system_disk: Some(x.system_disk),
                page_file: Some(x.page_file),
                disk_type: copy_text(&x.disk_type),
                source,
            }
        },
        None => {
            let r = DriveListing {
                name: fallback,
                labels: Vec::new(),
                disk_index: n,
                capacity_bytes: None,
                formatted_bytes: None,
                system_disk: None,
                page_file: None,
                disk_type: None,
                source,
            };
            assert(string_seqs(r.labels@) =~= Seq::<Seq<char>>::empty());
            r
        },
    }
}

/// The drives of this Windows machine as shown (see `windows_drives`): each
/// drive's number is the disk number its counter instance names, and it is
/// described by the details of that disk (see `windows_drive`).
pub fn windows_drive_listing(instances: &Vec<String>, details: &Vec<DiskDriveDetails>) -> (r: Vec<DriveListing>)
    ensures
        r@.len() == windows_drives(instances@).len(),
        forall|i: int|
            0 <= i < r@.len() ==> {
                let e = #[trigger] windows_drives(instances@)[i];
                &&& r@[i].disk_index == e.0
                &&& drive_view(r@[i]) == windows_drive(e.0, e.1, details_of_disk(details@, e.0))
            },
{
    let ghost is = instances@;
    let mut numbered: Vec<(usize, usize)> = Vec::new();
    let mut i: usize = 0;
    assert(numbered@ =~= numbered_instances(is.take(0)));
    while i < instances.len()
        invariant
            i <= instances.len(),
            is == instances@,
            numbered@ == numbered_instances(is.take(i as int)),
        decreases instances.len() - i,
    {
        assert(is.take(i + 1).drop_last() =~= is.take(i as int));
        assert(is.take(i + 1).last() == instances@[i as int]);
        match disk_index(instances[i].as_str()) {
            Some(n) => {
                numbered.push((n, i));
            },
            None => {},
        }
        i = i + 1;
    }
    assert(is.take(i as int) =~= is);
    let order = order_by_number(numbered);
    proof {
        lemma_numbered_instances(is);
        lemma_number_order(numbered_instances(is), instances.len());
    }
    let mut out: Vec<DriveListing> = Vec::new();
    let mut j: usize = 0;
    while j < order.len()
        invariant
            j <= order.len(),
            is == instances@,
            order@ == windows_drives(is),
            out@.len() == j,
            forall|q: int|
                0 <= q < j ==> {
                    let e = #[trigger] windows_drives(is)[q];
                    &&& out@[q].disk_index == e.0
                    &&& drive_view(out@[q]) == windows_drive(e.0, e.1, details_of_disk(details@, e.0))
                },
        decreases order.len() - j,
    {
        let (n, source) = order[j];
        let d = find_disk_details(details, n);
        let row = windows_drive_row(n, source, d);
        out.push(row);
        j = j + 1;
    }
    out
}


// Network adapters.

/// A network interface as the system lists it (`sysinfo::NetworkData`): its
/// name, its hardware address as text and its addresses.
pub struct InterfaceSample {
    pub name: String,
    pub mac_address: String,
    pub ipv4_addresses: Vec<String>,
    pub ipv6_addresses: Vec<String>,
}

/// A network adapter as shown. `source` is the position of the sample or
/// counter instance it comes from, whose rates the caller adds.
pub struct AdapterListing {
    pub name: String,
    pub adapter_index: usize,
    pub link_speed_bits_per_sec: Option<u64>,
    pub connection_name: Option<String>,
    pub mac_address: Option<String>,
    pub adapter_type: Option<String>,
    pub ipv4_addresses: Vec<String>,
    pub ipv6_addresses: Vec<String>,
    pub source: usize,
}

pub struct AdapterView {
    pub name: Seq<char>,
    pub adapter_index: usize,
    pub link_speed_bits_per_sec: Option<u64>,
    pub connection_name: Option<Seq<char>>,
    pub mac_address: Option<Seq<char>>,
    pub adapter_type: Option<Seq<char>>,
    pub ipv4_addresses: Seq<Seq<char>>,
    pub ipv6_addresses: Seq<Seq<char>>,
    pub source: usize,
}

pub open spec fn adapter_view(a: AdapterListing) -> AdapterView {
    AdapterView {
        name: a.name@,
        adapter_index: a.adapter_index,
        link_speed_bits_per_sec: a.link_speed_bits_per_sec,
        connection_name: opt_text(a.connection_name),
        mac_address: opt_text(a.mac_address),
        adapter_type: opt_text(a.adapter_type),
        ipv4_addresses: string_seqs(a.ipv4_addresses@),
        ipv6_addresses: string_seqs(a.ipv6_addresses@),
        source: a.source,
    }
}

/// Entries of `texts`, keyed by themselves, with their positions.
pub open spec fn self_keyed(texts: Seq<Seq<char>>) -> Seq<(Seq<char>, usize)> {
    Seq::new(texts.len(), |i: int| (texts[i], i as usize))
}

pub open spec fn interface_names(ifs: Seq<InterfaceSample>) -> Seq<Seq<char>> {
    ifs.map_values(|i: InterfaceSample| i.name@)
}

/// The entries whose key names an interface that is shown (see `interface_visible`).
pub open spec fn shown_interfaces(o: Seq<(Seq<char>, usize)>) -> Seq<(Seq<char>, usize)>
    decreases o.len(),
{
    if o.len() == 0 {
        Seq::empty()
    } else {
        let prev = shown_interfaces(o.drop_last());
        if interface_visible(o.last().0) {
            prev.push(o.last())
        } else {
            prev
        }
    }
}

/// How an interface is shown as adapter number `index`: its name, which is
/// also its connection, its hardware address unless it is all zeros, the kind
/// its name tells and its addresses.
pub open spec fn mac_adapter(i: InterfaceSample, source: usize, index: usize) -> AdapterView {
    AdapterView {
        name: i.name@,
        adapter_index: index,
        link_speed_bits_per_sec: None,
        connection_name: Some(i.name@),
        mac_address: if i.mac_address@ == "00:00:00:00:00:00"@ {
            None
        } else {
            Some(i.mac_address@)
        },
        adapter_type: Some(interface_kind(i.name@)),
        ipv4_addresses: string_seqs(i.ipv4_addresses@),
        ipv6_addresses: string_seqs(i.ipv6_addresses@),
        source,
    }
}

/// The adapters of this Mac as shown: the interfaces ordered by name, those
/// that are shown kept, numbered by their place.
pub open spec fn mac_adapters(ifs: Seq<InterfaceSample>) -> Seq<AdapterView> {
    let v = shown_interfaces(text_order(self_keyed(interface_names(ifs))));
    Seq::new(v.len(), |j: int| mac_adapter(ifs[v[j].1 as int], v[j].1, j as usize))
}

proof fn lemma_shown_interfaces(o: Seq<(Seq<char>, usize)>, bound: usize)
    requires
        forall|i: int| 0 <= i < o.len() ==> (#[trigger] o[i]).1 < bound,
    ensures
        forall|i: int| 0 <= i < shown_interfaces(o).len() ==> (#[trigger] shown_interfaces(o)[i]).1 < bound,
        shown_interfaces(o).len() <= o.len(),
    decreases o.len(),
{
    if o.len() > 0 {
        lemma_shown_interfaces(o.drop_last(), bound);
    }
}

fn mac_adapter_row(i: &InterfaceSample, source: usize, index: usize) -> (r: AdapterListing)
    ensures
        adapter_view(r) == mac_adapter(*i, source, index),
{
    AdapterListing {
        name: i.name.clone(),
        adapter_index: index,
        link_speed_bits_per_sec: None,
        connection_name: Some(i.name.clone()),
        mac_address: shown_mac_address(i.mac_address.clone()),
        adapter_type: Some(owned(macos_network_type(i.name.as_str()))),
        ipv4_addresses: copy_strings(&i.ipv4_addresses),
        ipv6_addresses: copy_strings(&i.ipv6_addresses),
        source,
    }
}

/// The adapters of this Mac as shown (see `mac_adapters`).
pub fn adapter_listing(ifaces: &Vec<InterfaceSample>) -> (r: Vec<AdapterListing>)
    ensures
        r@.len() == mac_adapters(ifaces@).len(),
        forall|i: int| 0 <= i < r@.len() ==> adapter_view(#[trigger] r@[i]) == mac_adapters(ifaces@)[i],
{
    let ghost fs = ifaces@;
    let mut keys: Vec<(Vec<char>, usize)> = Vec::new();
    let mut i: usize = 0;
    while i < ifaces.len()
        invariant
            i <= ifaces.len(),
            fs == ifaces@,
            keyed_view(keys@) == self_keyed(interface_names(fs)).take(i as int),
        decreases ifaces.len() - i,
    {
        let ghost before = keyed_view(keys@);
        let name = chars_of(ifaces[i].name.as_str());
        assert(interface_names(fs)[i as int] == name@);
        keys.push((name, i));
        assert(keyed_view(keys@) =~= before.push((name@, i)));
        assert(self_keyed(interface_names(fs)).take(i + 1) =~= self_keyed(interface_names(fs)).take(
            i as int,
        ).push((name@, i)));
        i = i + 1;
    }
    assert(self_keyed(interface_names(fs)).take(i as int) =~= self_keyed(interface_names(fs)));
    let order = order_by_text(keys);
    let ghost o = keyed_view(order@);
    proof {
        lemma_text_order(self_keyed(interface_names(fs)), ifaces.len());
        lemma_text_order_members(self_keyed(interface_names(fs)));
        assert forall|q: int| 0 <= q < o.len() implies (#[trigger] o[q]).0 == fs[o[q].1 as int].name@ by {
            assert(self_keyed(interface_names(fs)).contains(o[q]));
        }
    }
    let mut out: Vec<AdapterListing> = Vec::new();
    let mut j: usize = 0;
    assert(shown_interfaces(o.take(0)) =~= Seq::<(Seq<char>, usize)>::empty());
    while j < order.len()
        invariant
            j <= order.len(),
            fs == ifaces@,
            o == keyed_view(order@),
            o == text_order(self_keyed(interface_names(fs))),
            forall|q: int| 0 <= q < o.len() ==> (#[trigger] o[q]).1 < fs.len(),
            forall|q: int| 0 <= q < o.len() ==> (#[trigger] o[q]).0 == fs[o[q].1 as int].name@,
            out@.len() == shown_interfaces(o.take(j as int)).len(),
            forall|q: int|
                0 <= q < out@.len() ==> adapter_view(#[trigger] out@[q]) == mac_adapter(
                    fs[shown_interfaces(o.take(j as int))[q].1 as int],
                    shown_interfaces(o.take(j as int))[q].1,
                    q as usize,
                ),
        decreases order.len() - j,
    {
        let source = order[j].1;
        assert(o[j as int].1 == source);
        assert(o.take(j + 1).drop_last() =~= o.take(j as int));
        assert(o.take(j + 1).last() == o[j as int]);
        let ghost prev = shown_interfaces(o.take(j as int));
        if macos_network_is_visible(ifaces[source].name.as_str()) {
            let row = mac_adapter_row(&ifaces[source], source, out.len());
            out.push(row);
            assert(shown_interfaces(o.take(j + 1)) == prev.push(o[j as int]));
        } else {
            assert(shown_interfaces(o.take(j + 1)) == prev);
        }
        j = j + 1;
    }
    assert(o.take(j as int) =~= o);
    out
}


/// The details of the adapter a counter instance belongs to: the first whose
/// name or connection matches it (see `instance_matches`).
pub open spec fn details_of_adapter(ds: Seq<NetworkAdapterDetails>, instance: Seq<char>) -> Option<NetworkAdapterDetails>
    decreases ds.len(),
{
    if ds.len() == 0 {
        None
    } else if instance_matches(instance, ds[0].name@, opt_text(ds[0].connection_name)) {
        Some(ds[0])
    } else {
        details_of_adapter(ds.drop_first(), instance)
    }
}

/// How the counter instance at `position` (in name order) is shown: under the
/// name of its details (else its own), numbered as its details say (else by
/// its position), with the connection, address, kind, link speed and addresses
/// of its details.
pub open spec fn windows_adapter(instance: Seq<char>, source: usize, position: usize, d: Option<NetworkAdapterDetails>) -> AdapterView {
    match d {
        Some(x) => AdapterView {
            name: if x.name@.len() > 0 {
                x.name@
            } else {
                instance
            },
            adapter_index: match x.adapter_index {
                Some(n) => n,
                None => position,
            },
            link_speed_bits_per_sec: x.link_speed_bits_per_sec,
            connection_name: opt_text(x.connection_name),
            mac_address: opt_text(x.mac_address),
            adapter_type: opt_text(x.adapter_type),
            ipv4_addresses: string_seqs(x.ipv4_addresses@),
            ipv6_addresses: string_seqs(x.ipv6_addresses@),
            source,
        },
        None => AdapterView {
            name: instance,
            adapter_index: position,
            link_speed_bits_per_sec: None,
            connection_name: None,
            mac_address: None,
            adapter_type: None,
            ipv4_addresses: Seq::empty(),
            ipv6_addresses: Seq::empty(),
            source,
        },
    }
}

/// The counter instances in name order, each shown as `windows_adapter` says.
pub open spec fn windows_adapter_rows(instances: Seq<String>, details: Seq<NetworkAdapterDetails>) -> Seq<AdapterView> {
    let o = text_order(self_keyed(string_seqs(instances)));
    Seq::new(
        o.len(),
        |j: int| windows_adapter(o[j].0, o[j].1, j as usize, details_of_adapter(details, o[j].0)),
    )
}

pub open spec fn adapter_names(rows: Seq<AdapterView>) -> Seq<Seq<char>> {
    rows.map_values(|a: AdapterView| a.name)
}

/// The adapters of this Windows machine as shown: the rows of
/// `windows_adapter_rows`, ordered by the names they are shown under.
pub open spec fn windows_adapters(instances: Seq<String>, details: Seq<NetworkAdapterDetails>) -> Seq<AdapterView> {
    let rows = windows_adapter_rows(instances, details);
    let o = text_order(self_keyed(adapter_names(rows)));
    Seq::new(o.len(), |j: int| rows[o[j].1 as int])
}

fn find_adapter_details<'a>(details: &'a Vec<NetworkAdapterDetails>, instance: &str) -> (r: Option<&'a NetworkAdapterDetails>)
    ensures
        match details_of_adapter(details@, instance@) {
            Some(d) => r matches Some(x) && *x == d,
            None => r is None,
        },
{
    let mut k: usize = 0;
    assert(details@.skip(0) =~= details@);
    while k < details.len()
        invariant
            k <= details.len(),
            details_of_adapter(details@, instance@) == details_of_adapter(details@.skip(k as int), instance@),
        decreases details.len() - k,
    {
        assert(details@.skip(k as int)[0] == details@[k as int]);
        assert(details@.skip(k as int).drop_first() =~= details@.skip(k + 1));
        if matches_adapter(instance, &details[k]) {
            return Some(&details[k]);
        }
        k = k + 1;
    }
    None
}

fn windows_adapter_row(instance: &String, source: usize, position: usize, d: Option<&NetworkAdapterDetails>) -> (r: AdapterListing)
    ensures
        adapter_view(r) == windows_adapter(
            instance@,
            source,
            position,
            match d {
                Some(x) => Some(*x),
                None => None,
            },
        ),
{
    match d {
        Some(x) => AdapterListing {
            name: if chars_of(x.name.as_str()).len() > 0 {
                x.name.clone()
            } else {
                instance.clone()
            },
            adapter_index: match x.adapter_index {
                Some(n) => n,
                None => position,
            },
            link_speed_bits_per_sec: x.link_speed_bits_per_sec,
            connection_name: copy_text(&x.connection_name),
            mac_address: copy_text(&x.mac_address),
            adapter_type: copy_text(&x.adapter_type),
            ipv4_addresses: copy_strings(&x.ipv4_addresses),
            ipv6_addresses: copy_strings(&x.ipv6_addresses),
            source,
        },
        None => {
            let r = AdapterListing {
                name: instance.clone(),
                adapter_index: position,
                link_speed_bits_per_sec: None,
                connection_name: None,
                mac_address: None,
                adapter_type: None,
                ipv4_addresses: Vec::new(),
                ipv6_addresses: Vec::new(),
                source,
            };
            assert(string_seqs(r.ipv4_addresses@) =~= Seq::<Seq<char>>::empty());
            assert(string_seqs(r.ipv6_addresses@) =~= Seq::<Seq<char>>::empty());
            r
        },
    }
}

fn copy_adapter(a: &AdapterListing) -> (r: AdapterListing)
    ensures
        adapter_view(r) == adapter_view(*a),
{
    AdapterListing {
        name: a.name.clone(),
        adapter_index: a.adapter_index,
        link_speed_bits_per_sec: a.link_speed_bits_per_sec,
        connection_name: copy_text(&a.connection_name),
        mac_address: copy_text(&a.mac_address),
        adapter_type: copy_text(&a.adapter_type),
        ipv4_addresses: copy_strings(&a.ipv4_addresses),
        ipv6_addresses: copy_strings(&a.ipv6_addresses),
        source: a.source,
    }
}

/// The adapters of this Windows machine as shown (see `windows_adapters`),
/// from the counter instances and the adapters' details.
pub fn windows_adapter_listing(instances: &Vec<String>, details: &Vec<NetworkAdapterDetails>) -> (r: Vec<AdapterListing>)
    ensures
        r@.len() == windows_adapters(instances@, details@).len(),
        forall|i: int|
            0 <= i < r@.len() ==> adapter_view(#[trigger] r@[i]) == windows_adapters(instances@, details@)[i],
{
    let ghost is = instances@;
    let ghost names = string_seqs(is);
    let mut keys: Vec<(Vec<char>, usize)> = Vec::new();
    let mut i: usize = 0;
    while i < instances.len()
        invariant
            i <= instances.len(),
            is == instances@,
            names == string_seqs(is),
            keyed_view(keys@) == self_keyed(names).take(i as int),
        decreases instances.len() - i,
    {
        let ghost before = keyed_view(keys@);
        let name = chars_of(instances[i].as_str());
        assert(names[i as int] == name@);
        keys.push((name, i));
        assert(keyed_view(keys@) =~= before.push((name@, i)));
        assert(self_keyed(names).take(i + 1) =~= self_keyed(names).take(i as int).push((name@, i)));
        i = i + 1;
    }
    assert(self_keyed(names).take(i as int) =~= self_keyed(names));
    let order = order_by_text(keys);
    let ghost o = keyed_view(order@);
    proof {
        lemma_text_order(self_keyed(names), instances.len());
        lemma_text_order_members(self_keyed(names));
        assert forall|q: int| 0 <= q < o.len() implies (#[trigger] o[q]).0 == is[o[q].1 as int]@ by {
            assert(self_keyed(names).contains(o[q]));
        }
    }
    let ghost rows_spec = windows_adapter_rows(is, details@);
    let mut rows: Vec<AdapterListing> = Vec::new();
    let mut j: usize = 0;
    while j < order.len()
        invariant
            j <= order.len(),
            is == instances@,
            o == keyed_view(order@),
            o == text_order(self_keyed(string_seqs(is))),
            rows_spec == windows_adapter_rows(is, details@),
            rows_spec.len() == o.len(),
            forall|q: int| 0 <= q < o.len() ==> (#[trigger] o[q]).1 < is.len(),
            forall|q: int| 0 <= q < o.len() ==> (#[trigger] o[q]).0 == is[o[q].1 as int]@,
            rows@.len() == j,
            forall|q: int| 0 <= q < j ==> adapter_view(#[trigger] rows@[q]) == rows_spec[q],
        decreases order.len() - j,
    {
        let source = order[j].1;
        assert(o[j as int].1 == source);
        let instance = &instances[source];
        let d = find_adapter_details(details, instance.as_str());
        let row = windows_adapter_row(instance, source, j, d);
        rows.push(row);
        j = j + 1;
    }
    let ghost rv = rows@.map_values(|a: AdapterListing| adapter_view(a));
    assert(rv =~= rows_spec);
    let mut keys2: Vec<(Vec<char>, usize)> = Vec::new();
    let mut k: usize = 0;
    let ghost rnames = adapter_names(rows_spec);
    while k < rows.len()
        invariant
            k <= rows.len(),
            rows@.len() == rows_spec.len(),
            rnames == adapter_names(rows_spec),
            forall|q: int| 0 <= q < rows@.len() ==> adapter_view(#[trigger] rows@[q]) == rows_spec[q],
            keyed_view(keys2@) == self_keyed(rnames).take(k as int),
        decreases rows.len() - k,
    {
        let ghost before = keyed_view(keys2@);
        let name = chars_of(rows[k].name.as_str());
        assert(adapter_view(rows@[k as int]) == rows_spec[k as int]);
        assert(rnames[k as int] == name@);
        keys2.push((name, k));
        assert(keyed_view(keys2@) =~= before.push((name@, k)));
        assert(self_keyed(rnames).take(k + 1) =~= self_keyed(rnames).take(k as int).push((name@, k)));
        k = k + 1;
    }
    assert(self_keyed(rnames).take(k as int) =~= self_keyed(rnames));
    let order2 = order_by_text(keys2);
    let ghost o2 = keyed_view(order2@);
    proof {
        lemma_text_order(self_keyed(rnames), rows.len());
    }
    let mut out: Vec<AdapterListing> = Vec::new();
    let mut m: usize = 0;
    while m < order2.len()
        invariant
            m <= order2.len(),
            o2 == keyed_view(order2@),
            o2 == text_order(self_keyed(rnames)),
            rnames == adapter_names(rows_spec),
            rows_spec == windows_adapter_rows(is, details@),
            is == instances@,
            rows@.len() == rows_spec.len(),
            forall|q: int| 0 <= q < o2.len() ==> (#[trigger] o2[q]).1 < rows@.len(),
            forall|q: int| 0 <= q < rows@.len() ==> adapter_view(#[trigger] rows@[q]) == rows_spec[q],
            out@.len() == m,
            forall|q: int| 0 <= q < m ==> adapter_view(#[trigger] out@[q]) == rows_spec[o2[q].1 as int],
        decreases order2.len() - m,
    {
        let at = order2[m].1;
        assert(o2[m as int].1 == at);
        let row = copy_adapter(&rows[at]);
        out.push(row);
        m = m + 1;
    }
    out
}

} // verus!
