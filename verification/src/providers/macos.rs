//! What macOS tools report, read into values: the system overview from
//! `system_profiler` and `sw_vers`, memory, and which disks and network
//! interfaces are shown.
use vstd::prelude::*;
use crate::commands::ports::opt_text;
use crate::models::WindowsInfo;
use crate::providers::macos_capacity_bytes;
use crate::providers::capacity_of;
use crate::text::{
    chars_of, concat_str, equals_str, index_of, index_of_char, lines, lines_of, owned, seqs_of,
    skip_chars, slice_chars, starts_with, starts_with_str, string_of, trim, trim_chars,
};

verus! {

/// Whether `system_profiler -json` output holds a `section` array whose first item is an object.
pub uninterp spec fn profiler_section(text: Seq<char>, section: Seq<char>) -> bool;

/// The string that item holds under `key`, if any.
pub uninterp spec fn profiler_text(text: Seq<char>, section: Seq<char>, key: Seq<char>) -> Option<Seq<char>>;

/// Reads `text` as JSON (`serde_json::from_str::<serde_json::Value>`) and says
/// whether its `section` member is an array whose first item is an object
/// (`Value::get`, `as_array`, `first`, `as_object`).
#[verifier::external_body]
fn has_profiler_section(text: &str, section: &str) -> (r: bool)
    ensures
        r == profiler_section(text@, section@),
{
    serde_json::from_str::<serde_json::Value>(text).ok().and_then(
        |value| value.get(section).and_then(|items| items.as_array()).and_then(|items| items.first()).and_then(|item| item.as_object()).map(|_| true),
    ).unwrap_or(false)
}

/// Reads `text` as JSON and the string under `key` in the first item of its
/// `section` array (`Value::get`, `as_array`, `first`, `as_object`, `as_str`).
#[verifier::external_body]
fn profiler_field(text: &str, section: &str, key: &str) -> (r: Option<String>)
    ensures
        opt_text(r) == profiler_text(text@, section@, key@),
{
    serde_json::from_str::<serde_json::Value>(text).ok().and_then(
        |value| value.get(section).and_then(|items| items.as_array()).and_then(|items| items.first()).and_then(|item| item.as_object()).and_then(|item| item.get(key)).and_then(|item| item.as_str()).map(|item| item.to_string()),
    )
}

/// The value of `key` in `sw_vers` output (`Key: value` lines, trimmed; for a key given twice, the last).
pub open spec fn version_value(ls: Seq<Seq<char>>, key: Seq<char>) -> Option<Seq<char>>
    decreases ls.len(),
{
    if ls.len() == 0 {
        None
    } else {
        let line = ls.last();
        match index_of(line, ':') {
            Some(i) => if trim(line.take(i)) == key {
                Some(trim(line.skip(i + 1)))
            } else {
                version_value(ls.drop_last(), key)
            },
            None => version_value(ls.drop_last(), key),
        }
    }
}

/// Whether any line of `sw_vers` output has a `:`.
pub open spec fn has_version_values(ls: Seq<Seq<char>>) -> bool {
    exists|i: int| 0 <= i < ls.len() && index_of(#[trigger] ls[i], ':') is Some
}

pub open spec fn hardware_value(hardware: Option<Seq<char>>, key: Seq<char>) -> Option<Seq<char>> {
    match hardware {
        Some(h) => profiler_text(h, "SPHardwareDataType"@, key),
        None => None,
    }
}

/// The model shown: `name (identifier)` when both are known, else whichever is.
pub open spec fn model_of(name: Option<Seq<char>>, identifier: Option<Seq<char>>) -> Option<Seq<char>> {
    match (name, identifier) {
        (Some(n), Some(i)) => Some(n + " ("@ + i + ")"@),
        (Some(n), None) => Some(n),
        (None, i) => i,
    }
}

/// `info` describes this Mac from the outputs of `system_profiler
/// SPHardwareDataType -json` and `sw_vers` and its host name; `arch` is the
/// processor architecture the application was built for.
pub open spec fn is_macos_info(
    info: WindowsInfo,
    hardware: Option<Seq<char>>,
    version: Option<Seq<char>>,
    device_name: Option<Seq<char>>,
    arch: Seq<char>,
) -> bool {
    let ls = match version {
        Some(v) => lines(v),
        None => Seq::empty(),
    };
    &&& opt_text(info.device_name) == device_name
    &&& opt_text(info.manufacturer) == Some("Apple Inc."@)
    &&& opt_text(info.model) == model_of(hardware_value(hardware, "machine_name"@), hardware_value(hardware, "machine_model"@))
    &&& opt_text(info.system_type) == Some(match hardware_value(hardware, "chip_type"@) {
        Some(c) => c,
        None => arch,
    })
    &&& info.device_id is None
    &&& opt_text(info.product_id) == hardware_value(hardware, "model_number"@)
    &&& opt_text(info.os_edition) == version_value(ls, "ProductName"@)
    &&& opt_text(info.os_version) == version_value(ls, "ProductVersion"@)
    &&& info.installed_on is None
    &&& opt_text(info.os_build) == version_value(ls, "BuildVersion"@)
    &&& opt_text(info.experience) == hardware_value(hardware, "boot_rom_version"@)
}

/// Whether a network interface is shown: not the loopback and not one of the
/// system's internal tunnels and links.
pub open spec fn interface_visible(name: Seq<char>) -> bool {
    name != "lo0"@ && !starts_with(name, "awdl"@) && !starts_with(name, "llw"@) && !starts_with(name, "utun"@)
        && !starts_with(name, "gif"@) && !starts_with(name, "stf"@)
}

/// The kind of a network interface, from its name.
pub open spec fn interface_kind(name: Seq<char>) -> Seq<char> {
    if starts_with(name, "en"@) {
        "Ethernet or Wi-Fi"@
    } else if starts_with(name, "bridge"@) {
        "Network bridge"@
    } else {
        "Network interface"@
    }
}

/// Whether a disk is shown: it has a size and is the root or mounted under
/// `/Volumes/` (but not under `/System/Volumes/`).
pub open spec fn disk_visible(mount_point: Seq<char>, total_space: u64) -> bool {
    total_space > 0 && (mount_point == "/"@ || starts_with(mount_point, "/Volumes/"@)) && !starts_with(
        mount_point,
        "/System/Volumes/"@,
    )
}

fn has_colon_line(ls: &Vec<Vec<char>>) -> (r: bool)
    ensures
        r == has_version_values(seqs_of(ls@)),
{
    let mut k: usize = 0;
    while k < ls.len()
        invariant
            k <= ls.len(),
            forall|i: int| 0 <= i < k ==> index_of(#[trigger] seqs_of(ls@)[i], ':') is None,
        decreases ls.len() - k,
    {
        assert(seqs_of(ls@)[k as int] == ls@[k as int]@);
        if index_of_char(&ls[k], ':').is_some() {
            return true;
        }
        k = k + 1;
    }
    false
}

fn version_field(ls: &Vec<Vec<char>>, key: &str) -> (r: Option<String>)
    ensures
        opt_text(r) == version_value(seqs_of(ls@), key@),
{
    let ghost all = seqs_of(ls@);
    let kv = chars_of(key);
    let mut k: usize = ls.len();
    assert(all.take(k as int) =~= all);
    while k > 0
        invariant
            k <= ls.len(),
            all == seqs_of(ls@),
            kv@ == key@,
            version_value(all, key@) == version_value(all.take(k as int), key@),
        decreases k,
    {
        assert(all.take(k as int).last() == ls@[k - 1]@);
        assert(all.take(k as int).drop_last() =~= all.take(k - 1));
        let line = &ls[k - 1];
        let n = line.len();
        match index_of_char(line, ':') {
            Some(i) => {
                let name = slice_chars(line, 0, i);
                assert(name@ =~= line@.take(i as int));
                let name_t = trim_chars(&name);
                if crate::text::equal_chars(&name_t, &kv) {
                    let value = skip_chars(line, i + 1);
                    return Some(string_of(&trim_chars(&value)));
                }
            },
            None => {},
        }
        k = k - 1;
    }
    None
}

fn hardware_field(hardware: Option<&str>, key: &str) -> (r: Option<String>)
    ensures
        opt_text(r) == hardware_value(
            match hardware {
                Some(h) => Some(h@),
                None => None,
            },
            key@,
        ),
{
    match hardware {
        Some(h) => profiler_field(h, "SPHardwareDataType", key),
        None => None,
    }
}

/// This Mac's description (see `is_macos_info`), or none when neither output
/// says anything and the host name is unknown.
pub fn macos_info_from_outputs(
    hardware_output: Option<&str>,
    version_output: Option<&str>,
    device_name: Option<String>,
    arch: &str,
) -> (r: Option<WindowsInfo>)
    ensures
        ({
            let hw = match hardware_output {
                Some(h) => Some(h@),
                None => None,
            };
            let ls = match version_output {
                Some(v) => lines(v@),
                None => Seq::empty(),
            };
            let present = match hardware_output {
                Some(h) => profiler_section(h@, "SPHardwareDataType"@),
                None => false,
            };
            &&& (!present && !has_version_values(ls) && device_name is None) ==> r is None
            &&& !(!present && !has_version_values(ls) && device_name is None) ==> (r matches Some(info)
                && is_macos_info(info, hw, match version_output {
                Some(v) => Some(v@),
                None => None,
            }, opt_text(device_name), arch@))
        }),
{
    let present = match hardware_output {
        Some(h) => has_profiler_section(h, "SPHardwareDataType"),
        None => false,
    };
    let ls: Vec<Vec<char>> = match version_output {
        Some(v) => lines_of(&chars_of(v)),
        None => Vec::new(),
    };
    assert(version_output is None ==> seqs_of(ls@) =~= Seq::<Seq<char>>::empty());
    if !present && !has_colon_line(&ls) && device_name.is_none() {
        return None;
    }
    let machine_name = hardware_field(hardware_output, "machine_name");
    let machine_model = hardware_field(hardware_output, "machine_model");
    let model = match (machine_name, machine_model) {
        (Some(name), Some(identifier)) => {
            let a = concat_str(name.as_str(), " (");
            let b = concat_str(a.as_str(), identifier.as_str());
            Some(concat_str(b.as_str(), ")"))
        },
        (Some(name), None) => Some(name),
        (None, identifier) => identifier,
    };
    let system_type = match hardware_field(hardware_output, "chip_type") {
        Some(c) => Some(c),
        None => Some(owned(arch)),
    };
    Some(WindowsInfo {
        device_name,
        manufacturer: Some(owned("Apple Inc.")),
        model,
        system_type,
        device_id: None,
        product_id: hardware_field(hardware_output, "model_number"),
        os_edition: version_field(&ls, "ProductName"),
        os_version: version_field(&ls, "ProductVersion"),
        installed_on: None,
        os_build: version_field(&ls, "BuildVersion"),
        experience: hardware_field(hardware_output, "boot_rom_version"),
    })
}

/// The memory of this Mac as `system_profiler SPMemoryDataType SPHardwareDataType -json`
/// reports it: its size (that of the memory section, else the hardware's
/// physical memory) and its kind.
pub fn macos_memory_hardware(profile: &str) -> (r: crate::providers::MemoryHardwareInfo)
    ensures
        r.installed_bytes == match profiler_text(profile@, "SPMemoryDataType"@, "SPMemoryDataType"@) {
            Some(c) => capacity_of(c),
            None => match profiler_text(profile@, "SPHardwareDataType"@, "physical_memory"@) {
                Some(c) => capacity_of(c),
                None => None,
            },
        },
        r.speed_mhz is None,
        r.slots_used is None,
        r.slots_total is None,
        opt_text(r.form_factor) == Some(match profiler_text(profile@, "SPMemoryDataType"@, "dimm_type"@) {
            Some(k) => k + " unified memory"@,
            None => "Unified memory"@,
        }),
{
    let capacity_text = match profiler_field(profile, "SPMemoryDataType", "SPMemoryDataType") {
        Some(c) => Some(c),
        None => profiler_field(profile, "SPHardwareDataType", "physical_memory"),
    };
    let installed_bytes = match capacity_text {
        Some(c) => macos_capacity_bytes(c.as_str()),
        None => None,
    };
    let form = match profiler_field(profile, "SPMemoryDataType", "dimm_type") {
        Some(kind) => concat_str(kind.as_str(), " unified memory"),
        None => owned("Unified memory"),
    };
    crate::providers::MemoryHardwareInfo {
        installed_bytes,
        speed_mhz: None,
        slots_used: None,
        slots_total: None,
        form_factor: Some(form),
    }
}

/// Whether a network interface is shown (see `interface_visible`).
pub fn macos_network_is_visible(name: &str) -> (r: bool)
    ensures
        r == interface_visible(name@),
{
    let n = chars_of(name);
    !equals_str(&n, "lo0") && !starts_with_str(&n, "awdl") && !starts_with_str(&n, "llw")
        && !starts_with_str(&n, "utun") && !starts_with_str(&n, "gif") && !starts_with_str(&n, "stf")
}

/// The kind of a network interface (see `interface_kind`).
pub fn macos_network_type(name: &str) -> (r: &'static str)
    ensures
        r@ == interface_kind(name@),
{
    let n = chars_of(name);
    if starts_with_str(&n, "en") {
        "Ethernet or Wi-Fi"
    } else if starts_with_str(&n, "bridge") {
        "Network bridge"
    } else {
        "Network interface"
    }
}

/// The hardware address shown for an interface: none for the all-zero address.
pub fn shown_mac_address(mac: String) -> (r: Option<String>)
    ensures
        mac@ == "00:00:00:00:00:00"@ ==> r is None,
        mac@ != "00:00:00:00:00:00"@ ==> (r matches Some(m) && m@ == mac@),
{
    let m = chars_of(mac.as_str());
    if equals_str(&m, "00:00:00:00:00:00") {
        None
    } else {
        Some(mac)
    }
}

/// Whether a disk is shown (see `disk_visible`).
pub fn macos_disk_is_visible(mount_point: &str, total_space: u64) -> (r: bool)
    ensures
        r == disk_visible(mount_point@, total_space),
{
    let m = chars_of(mount_point);
    total_space > 0 && (equals_str(&m, "/") || starts_with_str(&m, "/Volumes/")) && !starts_with_str(
        &m,
        "/System/Volumes/",
    )
}

/// Whether the processor supports virtualization, from `sysctl -n kern.hv_support`.
pub fn virtualization_status(output: &str) -> (r: Option<String>)
    ensures
        trim(output@) == "1"@ ==> (r matches Some(s) && s@ == "Supported"@),
        trim(output@) == "0"@ ==> (r matches Some(s) && s@ == "Unavailable"@),
        trim(output@) != "1"@ && trim(output@) != "0"@ ==> r is None,
{
    let t = trim_chars(&chars_of(output));
    proof {
        reveal_strlit("1");
        reveal_strlit("0");
        assert("1"@ =~= seq!['1']);
        assert("0"@ =~= seq!['0']);
        assert("1"@[0] != "0"@[0]);
        assert("1"@ != "0"@);
    }
    if equals_str(&t, "1") {
        Some(owned("Supported"))
    } else if equals_str(&t, "0") {
        Some(owned("Unavailable"))
    } else {
        None
    }
}

} // verus!
