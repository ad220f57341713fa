//! What the platform's tools report about the hardware, read from their text
//! output: processor caches, memory, disks, network adapters and the system.
pub mod icon;
pub mod listing;
pub mod macos;
pub mod windows;

use vstd::prelude::*;
use crate::commands::system::{decimal, decimal_text};
use crate::models::MemoryInfo;
use crate::text::{
    split, all_digits, digits_value, eq_ignore_ascii_case, eq_ignore_case, chars_of, concat_chars, concat_str, index_of, index_of_char, is_digit, lines, lines_of,
    lower, lowercase, owned, parse_unsigned, parse_unsigned_chars, seqs_of, skip_chars,
    slice_chars, string_of, trim, trim_chars, words, split_whitespace,
};

verus! {

/// The `key: value` entry of a `sysctl -a` line whose value is an unsigned integer.
pub open spec fn sysctl_entry(line: Seq<char>) -> Option<(Seq<char>, u64)> {
    match index_of(line, ':') {
        Some(i) => match parse_unsigned(trim(line.skip(i + 1)), u64::MAX as int) {
            Some(v) => Some((trim(line.take(i)), v as u64)),
            None => None,
        },
        None => None,
    }
}

/// The value `sysctl -a` gives for `key`: that of the last line with this key
/// and an unsigned integer value.
pub open spec fn sysctl_value(ls: Seq<Seq<char>>, key: Seq<char>) -> Option<u64>
    decreases ls.len(),
{
    if ls.len() == 0 {
        None
    } else {
        match sysctl_entry(ls.last()) {
            Some(e) => if e.0 == key {
                Some(e.1)
            } else {
                sysctl_value(ls.drop_last(), key)
            },
            None => sysctl_value(ls.drop_last(), key),
        }
    }
}

pub open spec fn or_zero(o: Option<u64>) -> u64 {
    match o {
        Some(v) => v,
        None => 0,
    }
}

pub open spec fn sat_add(a: u64, b: u64) -> u64 {
    if a + b > u64::MAX {
        u64::MAX
    } else {
        (a + b) as u64
    }
}

pub open spec fn sat_mul(a: u64, b: u64) -> u64 {
    if a * b > u64::MAX {
        u64::MAX
    } else {
        (a * b) as u64
    }
}

/// The name of a value of performance level `level` (`hw.perflevel<level><name>`).
pub open spec fn level_key(level: nat, name: Seq<char>) -> Seq<char> {
    "hw.perflevel"@ + decimal(level) + name
}

/// The level-1 cache of the first `n` performance levels: for each level with
/// cores, its data and instruction caches times its cores (sums held at `u64::MAX`).
pub open spec fn perf_l1(ls: Seq<Seq<char>>, n: nat) -> u64
    decreases n,
{
    if n == 0 {
        0
    } else {
        let prev = perf_l1(ls, (n - 1) as nat);
        let level = (n - 1) as nat;
        let cores = or_zero(sysctl_value(ls, level_key(level, ".physicalcpu"@)));
        if cores == 0 {
            prev
        } else {
            sat_add(prev, sat_mul(sat_add(
                or_zero(sysctl_value(ls, level_key(level, ".l1dcachesize"@))),
                or_zero(sysctl_value(ls, level_key(level, ".l1icachesize"@))),
            ), cores))
        }
    }
}

/// The level-2 cache of the first `n` performance levels that have cores.
pub open spec fn perf_l2(ls: Seq<Seq<char>>, n: nat) -> u64
    decreases n,
{
    if n == 0 {
        0
    } else {
        let prev = perf_l2(ls, (n - 1) as nat);
        let level = (n - 1) as nat;
        let cores = or_zero(sysctl_value(ls, level_key(level, ".physicalcpu"@)));
        if cores == 0 {
            prev
        } else {
            sat_add(prev, or_zero(sysctl_value(ls, level_key(level, ".l2cachesize"@))))
        }
    }
}

/// The processor's cache sizes in bytes, where known.
pub struct CpuCacheInfo {
    pub l1_bytes: Option<u64>,
    pub l2_bytes: Option<u64>,
    pub l3_bytes: Option<u64>,
}

pub open spec fn some_if_positive(v: u64) -> Option<u64> {
    if v > 0 {
        Some(v)
    } else {
        None
    }
}

/// The cache sizes `sysctl -a` reports: summed over the eight performance
/// levels, else from the machine-wide values (level 1 per core, times the
/// physical cores, one when unknown).
pub open spec fn cache_info_of(output: Seq<char>) -> (Option<u64>, Option<u64>, Option<u64>) {
    let ls = lines(output);
    let l1_levels = perf_l1(ls, 8);
    let l1 = if l1_levels == 0 {
        let cores = match sysctl_value(ls, "hw.physicalcpu"@) {
            Some(c) => c,
            None => 1,
        };
        sat_mul(sat_add(or_zero(sysctl_value(ls, "hw.l1dcachesize"@)), or_zero(sysctl_value(ls, "hw.l1icachesize"@))), cores)
    } else {
        l1_levels
    };
    let l2_levels = perf_l2(ls, 8);
    let l2 = if l2_levels == 0 {
        or_zero(sysctl_value(ls, "hw.l2cachesize"@))
    } else {
        l2_levels
    };
    (some_if_positive(l1), some_if_positive(l2), match sysctl_value(ls, "hw.l3cachesize"@) {
        Some(v) => some_if_positive(v),
        None => None,
    })
}

/// `a * b`, held at `u64::MAX`.
pub fn saturating_mul(a: u64, b: u64) -> (r: u64)
    ensures
        r == sat_mul(a, b),
{
    match a.checked_mul(b) {
        Some(v) => v,
        None => u64::MAX,
    }
}

/// The `key: value` entries of `sysctl -a` output with unsigned integer values, in order.
fn sysctl_entries(output: &str) -> (r: Vec<(Vec<char>, u64)>)
    ensures
        forall|key: Seq<char>| #[trigger] sysctl_value(lines(output@), key) == entry_value(r@, key),
{
    let text = chars_of(output);
    let all = lines_of(&text);
    let mut entries: Vec<(Vec<char>, u64)> = Vec::new();
    let mut k: usize = 0;
    while k < all.len()
        invariant
            k <= all.len(),
            seqs_of(all@) == lines(output@),
            forall|key: Seq<char>| #[trigger] sysctl_value(seqs_of(all@).take(k as int), key) == entry_value(entries@, key),
        decreases all.len() - k,
    {
        assert(seqs_of(all@).take(k + 1).drop_last() =~= seqs_of(all@).take(k as int));
        assert(seqs_of(all@).take(k + 1).last() == all@[k as int]@);
        let line = &all[k];
        match index_of_char(line, ':') {
            Some(i) => {
                let value_text = skip_chars(line, i + 1);
                let value_trimmed = trim_chars(&value_text);
                match parse_unsigned_chars(&value_trimmed, u64::MAX) {
                    Some(v) => {
                        let key_text = slice_chars(line, 0, i);
                        assert(key_text@ =~= line@.take(i as int));
                        let key = trim_chars(&key_text);
                        assert(value_text@ == line@.skip(i + 1));
                        assert(sysctl_entry(line@) == Some((key@, v)));
                        let ghost before = entries@;
                        let ghost kv = key@;
                        entries.push((key, v));
                        assert(entries@.last().0@ == kv);
                        assert(entries@.last().1 == v);
                        assert(entries@.drop_last() =~= before);
                        assert(seqs_of(all@).take(k + 1).last() == line@);
                        assert forall|q: Seq<char>| #[trigger] sysctl_value(seqs_of(all@).take(k + 1), q) == entry_value(entries@, q) by {
                            assert(sysctl_value(seqs_of(all@).take(k + 1).drop_last(), q) == entry_value(before, q));
                        }
                    },
                    None => {
                        assert forall|q: Seq<char>| #[trigger] sysctl_value(seqs_of(all@).take(k + 1), q) == entry_value(entries@, q) by {
                            assert(sysctl_value(seqs_of(all@).take(k + 1), q) == sysctl_value(seqs_of(all@).take(k as int), q));
                        }
                    },
                }
            },
            None => {
                assert forall|q: Seq<char>| #[trigger] sysctl_value(seqs_of(all@).take(k + 1), q) == entry_value(entries@, q) by {
                    assert(sysctl_value(seqs_of(all@).take(k + 1), q) == sysctl_value(seqs_of(all@).take(k as int), q));
                }
            },
        }
        k = k + 1;
    }
    assert(seqs_of(all@).take(all@.len() as int) =~= seqs_of(all@));
    entries
}

/// The value of the last entry with the given key.
pub open spec fn entry_value(es: Seq<(Vec<char>, u64)>, key: Seq<char>) -> Option<u64>
    decreases es.len(),
{
    if es.len() == 0 {
        None
    } else if es.last().0@ == key {
        Some(es.last().1)
    } else {
        entry_value(es.drop_last(), key)
    }
}

fn lookup_entry(entries: &Vec<(Vec<char>, u64)>, key: &Vec<char>) -> (r: Option<u64>)
    ensures
        r == entry_value(entries@, key@),
{
    let mut k: usize = entries.len();
    assert(entries@.take(k as int) =~= entries@);
    while k > 0
        invariant
            k <= entries.len(),
            entry_value(entries@, key@) == entry_value(entries@.take(k as int), key@),
        decreases k,
    {
        assert(entries@.take(k as int).last() == entries@[k - 1]);
        assert(entries@.take(k as int).drop_last() =~= entries@.take(k - 1));
        let (ek, ev) = (&entries[k - 1].0, entries[k - 1].1);
        if crate::text::equal_chars(ek, key) {
            return Some(ev);
        }
        k = k - 1;
    }
    None
}

fn lookup_str(entries: &Vec<(Vec<char>, u64)>, key: &str) -> (r: Option<u64>)
    ensures
        r == entry_value(entries@, key@),
{
    let k = chars_of(key);
    lookup_entry(entries, &k)
}

fn level_value(entries: &Vec<(Vec<char>, u64)>, level: u64, name: &str) -> (r: u64)
    ensures
        r == or_zero(entry_value(entries@, level_key(level as nat, name@))),
{
    let number = decimal_text(level);
    let prefix = concat_str("hw.perflevel", number.as_str());
    let key = concat_str(prefix.as_str(), name);
    match lookup_str(entries, key.as_str()) {
        Some(v) => v,
        None => 0,
    }
}

/// The processor's cache sizes from `sysctl -a` output (see `cache_info_of`).
pub fn macos_cpu_cache_info_from_sysctl(output: &str) -> (r: CpuCacheInfo)
    ensures
        (r.l1_bytes, r.l2_bytes, r.l3_bytes) == cache_info_of(output@),
{
    let entries = sysctl_entries(output);
    let ghost ls = lines(output@);
    let mut l1_bytes: u64 = 0;
    let mut l2_bytes: u64 = 0;
    let mut level: u64 = 0;
    while level < 8
        invariant
            level <= 8,
            forall|key: Seq<char>| #[trigger] sysctl_value(ls, key) == entry_value(entries@, key),
            l1_bytes == perf_l1(ls, level as nat),
            l2_bytes == perf_l2(ls, level as nat),
        decreases 8 - level,
    {
        let cores = level_value(&entries, level, ".physicalcpu");
        assert(cores == or_zero(sysctl_value(ls, level_key(level as nat, ".physicalcpu"@))));
        if cores != 0 {
            let l1d = level_value(&entries, level, ".l1dcachesize");
            let l1i = level_value(&entries, level, ".l1icachesize");
            let l2 = level_value(&entries, level, ".l2cachesize");
            assert(l1d == or_zero(sysctl_value(ls, level_key(level as nat, ".l1dcachesize"@))));
            assert(l1i == or_zero(sysctl_value(ls, level_key(level as nat, ".l1icachesize"@))));
            assert(l2 == or_zero(sysctl_value(ls, level_key(level as nat, ".l2cachesize"@))));
            l1_bytes = l1_bytes.saturating_add(saturating_mul(l1d.saturating_add(l1i), cores));
            l2_bytes = l2_bytes.saturating_add(l2);
        }
        level = level + 1;
    }
    proof {
        assert(sysctl_value(ls, "hw.physicalcpu"@) == entry_value(entries@, "hw.physicalcpu"@));
        assert(sysctl_value(ls, "hw.l1dcachesize"@) == entry_value(entries@, "hw.l1dcachesize"@));
        assert(sysctl_value(ls, "hw.l1icachesize"@) == entry_value(entries@, "hw.l1icachesize"@));
        assert(sysctl_value(ls, "hw.l2cachesize"@) == entry_value(entries@, "hw.l2cachesize"@));
        assert(sysctl_value(ls, "hw.l3cachesize"@) == entry_value(entries@, "hw.l3cachesize"@));
    }
    if l1_bytes == 0 {
        let cores = match lookup_str(&entries, "hw.physicalcpu") {
            Some(c) => c,
            None => 1,
        };
        let l1d = match lookup_str(&entries, "hw.l1dcachesize") {
            Some(v) => v,
            None => 0,
        };
        let l1i = match lookup_str(&entries, "hw.l1icachesize") {
            Some(v) => v,
            None => 0,
        };
        l1_bytes = saturating_mul(l1d.saturating_add(l1i), cores);
    }
    if l2_bytes == 0 {
        l2_bytes = match lookup_str(&entries, "hw.l2cachesize") {
            Some(v) => v,
            None => 0,
        };
    }
    let l3_bytes = match lookup_str(&entries, "hw.l3cachesize") {
        Some(v) => if v > 0 {
            Some(v)
        } else {
            None
        },
        None => None,
    };
    CpuCacheInfo {
        l1_bytes: if l1_bytes > 0 {
            Some(l1_bytes)
        } else {
            None
        },
        l2_bytes: if l2_bytes > 0 {
            Some(l2_bytes)
        } else {
            None
        },
        l3_bytes,
    }
}

/// `10` to the power `n`.
pub open spec fn pow10(n: nat) -> int
    decreases n,
{
    if n == 0 {
        1
    } else {
        10 * pow10((n - 1) as nat)
    }
}

/// An amount written `[sign]digits[.digits]`: whether it is negative, its
/// whole digits and its fraction digits (at least one digit in all).
pub open spec fn amount_parts(s: Seq<char>) -> Option<(bool, Seq<char>, Seq<char>)> {
    let negative = s.len() > 0 && s[0] == '-';
    let body = if s.len() > 0 && (s[0] == '-' || s[0] == '+') {
        s.drop_first()
    } else {
        s
    };
    let (whole, fraction) = match index_of(body, '.') {
        Some(i) => (body.take(i), body.skip(i + 1)),
        None => (body, Seq::<char>::empty()),
    };
    if all_digits(whole) && all_digits(fraction) && whole.len() + fraction.len() > 0 {
        Some((negative, whole, fraction))
    } else {
        None
    }
}

/// The bytes in a unit, written in any case.
pub open spec fn unit_bytes(u: Seq<char>) -> Option<int> {
    if eq_ignore_case(u, "TB"@) {
        Some(1099511627776)
    } else if eq_ignore_case(u, "GB"@) {
        Some(1073741824)
    } else if eq_ignore_case(u, "MB"@) {
        Some(1048576)
    } else if eq_ignore_case(u, "KB"@) {
        Some(1024)
    } else {
        None
    }
}

/// The most digits an amount may have.
pub const MAX_AMOUNT_DIGITS: usize = 25;

/// The bytes a memory size such as `16 GB` or `1.5 TB` stands for: the amount
/// times its unit, rounded down and held at `u64::MAX`; none for a negative
/// amount (which is read as zero). Amounts with more than `MAX_AMOUNT_DIGITS`
/// digits, or in other notations, are not read.
pub open spec fn capacity_of(value: Seq<char>) -> Option<u64> {
    let ws = words(value);
    if ws.len() < 2 {
        None
    } else {
        match (amount_parts(ws[0]), unit_bytes(ws[1])) {
            (Some(p), Some(m)) => if p.1.len() + p.2.len() > MAX_AMOUNT_DIGITS {
                None
            } else if p.0 {
                Some(0)
            } else {
                let n = digits_value(p.1 + p.2) * m / pow10(p.2.len());
                Some(if n > u64::MAX { u64::MAX } else { n as u64 })
            },
            _ => None,
        }
    }
}

pub proof fn lemma_digits_value_bound(s: Seq<char>)
    requires
        all_digits(s),
    ensures
        0 <= digits_value(s) < pow10(s.len()),
    decreases s.len(),
{
    if s.len() > 0 {
        assert(all_digits(s.drop_last()));
        assert(is_digit(s[s.len() - 1]));
        lemma_digits_value_bound(s.drop_last());
        let v = digits_value(s.drop_last());
        let p = pow10((s.len() - 1) as nat);
        let d = s.last() as int - '0' as int;
        assert(0 <= d <= 9);
        assert(v * 10 + d < p * 10) by (nonlinear_arith)
            requires
                0 <= v < p,
                0 <= d <= 9,
        ;
    }
}

proof fn lemma_pow10_positive(n: nat)
    ensures
        pow10(n) >= 1,
    decreases n,
{
    if n > 0 {
        lemma_pow10_positive((n - 1) as nat);
    }
}

proof fn lemma_pow10_monotone(a: nat, b: nat)
    requires
        a <= b,
    ensures
        pow10(a) <= pow10(b),
    decreases b,
{
    if a < b {
        lemma_pow10_monotone(a, (b - 1) as nat);
        lemma_pow10_positive((b - 1) as nat);
    }
}

proof fn lemma_pow10_25()
    ensures
        pow10(25) == 10000000000000000000000000,
{
    reveal_with_fuel(pow10, 26);
}

/// Powers of ten up to `10^k` fit in a `u128` for `k <= 25`.
proof fn lemma_pow10_small(k: nat)
    requires
        k <= 25,
    ensures
        1 <= pow10(k) <= 10000000000000000000000000,
{
    lemma_pow10_monotone(k, 25);
    lemma_pow10_positive(k);
    lemma_pow10_25();
}

/// The value of a run of digits as a `u128`.
fn digits_u128(v: &Vec<char>) -> (r: u128)
    requires
        all_digits(v@),
        v@.len() <= MAX_AMOUNT_DIGITS,
    ensures
        r == digits_value(v@),
        r < 10000000000000000000000000,
{
    let mut value: u128 = 0;
    let mut k: usize = 0;
    while k < v.len()
        invariant
            k <= v.len(),
            v@.len() <= MAX_AMOUNT_DIGITS,
            all_digits(v@),
            value == digits_value(v@.take(k as int)),
        decreases v.len() - k,
    {
        assert(v@.take(k + 1).drop_last() =~= v@.take(k as int));
        assert(all_digits(v@.take(k + 1)));
        proof {
            lemma_digits_value_bound(v@.take(k + 1));
            lemma_pow10_small((k + 1) as nat);
        }
        assert(is_digit(v@[k as int]));
        let d: u128 = ((v[k] as u32) - ('0' as u32)) as u128;
        value = value * 10 + d;
        k = k + 1;
    }
    assert(v@.take(v@.len() as int) =~= v@);
    proof {
        lemma_digits_value_bound(v@);
        lemma_pow10_small(v@.len());
    }
    value
}

/// `10^n` as a `u128`.
fn pow10_u128(n: usize) -> (r: u128)
    requires
        n <= 25,
    ensures
        r == pow10(n as nat),
        r >= 1,
{
    let mut scale: u128 = 1;
    let mut j: usize = 0;
    while j < n
        invariant
            j <= n <= 25,
            scale == pow10(j as nat),
        decreases n - j,
    {
        proof {
            lemma_pow10_small((j + 1) as nat);
        }
        scale = scale * 10;
        j = j + 1;
    }
    proof {
        lemma_pow10_positive(n as nat);
    }
    scale
}

fn all_digit_chars(v: &Vec<char>) -> (r: bool)
    ensures
        r == all_digits(v@),
{
    let mut k: usize = 0;
    while k < v.len()
        invariant
            k <= v.len(),
            forall|i: int| 0 <= i < k ==> is_digit(#[trigger] v@[i]),
        decreases v.len() - k,
    {
        if !('0' <= v[k] && v[k] <= '9') {
            assert(!is_digit(v@[k as int]));
            return false;
        }
        k = k + 1;
    }
    true
}

fn unit_multiplier(unit: &Vec<char>) -> (r: Option<u128>)
    ensures
        match unit_bytes(unit@) {
            Some(m) => r == Some(m as u128),
            None => r is None,
        },
{
    if eq_ignore_ascii_case(unit, &chars_of("TB")) {
        Some(1099511627776)
    } else if eq_ignore_ascii_case(unit, &chars_of("GB")) {
        Some(1073741824)
    } else if eq_ignore_ascii_case(unit, &chars_of("MB")) {
        Some(1048576)
    } else if eq_ignore_ascii_case(unit, &chars_of("KB")) {
        Some(1024)
    } else {
        None
    }
}

fn amount_of(amount: &Vec<char>) -> (r: Option<(bool, Vec<char>, Vec<char>)>)
    ensures
        match amount_parts(amount@) {
            Some(p) => r matches Some(q) && q.0 == p.0 && q.1@ == p.1 && q.2@ == p.2,
            None => r is None,
        },
{
    let negative = amount.len() > 0 && amount[0] == '-';
    let start: usize = if amount.len() > 0 && (amount[0] == '-' || amount[0] == '+') {
        1
    } else {
        0
    };
    let body = skip_chars(amount, start);
    assert(body@ =~= if amount@.len() > 0 && (amount@[0] == '-' || amount@[0] == '+') {
        amount@.drop_first()
    } else {
        amount@
    });
    let (whole, fraction) = match index_of_char(&body, '.') {
        Some(i) => {
            let w = slice_chars(&body, 0, i);
            let f = skip_chars(&body, i + 1);
            assert(w@ =~= body@.take(i as int));
            (w, f)
        },
        None => (body.clone(), Vec::new()),
    };
    assert(fraction@.len() == 0 ==> fraction@ =~= Seq::<char>::empty());
    if all_digit_chars(&whole) && all_digit_chars(&fraction) && whole.len() + fraction.len() > 0 {
        Some((negative, whole, fraction))
    } else {
        None
    }
}

/// `whole.fraction` times `multiplier`, rounded down and held at `u64::MAX`.
/// `whole.fraction` times `multiplier`, rounded down and held at `u64::MAX`.
fn scaled_amount(whole: &Vec<char>, fraction: &Vec<char>, multiplier: u128) -> (r: u64)
    requires
        all_digits(whole@),
        all_digits(fraction@),
        whole@.len() + fraction@.len() <= MAX_AMOUNT_DIGITS,
        multiplier <= 1099511627776,
    ensures
        r == ({
            let n = digits_value(whole@ + fraction@) * multiplier / pow10(fraction@.len());
            if n > u64::MAX { u64::MAX } else { n as u64 }
        }),
{
    let digits = concat_chars(whole, fraction);
    assert(all_digits(digits@));
    let n = digits_u128(&digits);
    let scale = pow10_u128(fraction.len());
    assert(n * multiplier <= 10000000000000000000000000 * 1099511627776) by (nonlinear_arith)
        requires
            n < 10000000000000000000000000,
            multiplier <= 1099511627776,
    ;
    let total = n * multiplier / scale;
    if total > 18446744073709551615u128 {
        u64::MAX
    } else {
        total as u64
    }
}

/// The bytes a memory size such as `16 GB` stands for (see `capacity_of`).
pub fn macos_capacity_bytes(value: &str) -> (r: Option<u64>)
    ensures
        r == capacity_of(value@),
{
    let text = chars_of(value);
    let ws = split_whitespace(&text);
    if ws.len() < 2 {
        return None;
    }
    assert(ws@[0]@ == words(value@)[0]);
    assert(ws@[1]@ == words(value@)[1]);
    let multiplier = match unit_multiplier(&ws[1]) {
        Some(m) => m,
        None => {
            return None;
        },
    };
    let (negative, whole, fraction) = match amount_of(&ws[0]) {
        Some(p) => p,
        None => {
            return None;
        },
    };
    if whole.len() > MAX_AMOUNT_DIGITS || fraction.len() > MAX_AMOUNT_DIGITS - whole.len() {
        return None;
    }
    if negative {
        return Some(0);
    }
    Some(scaled_amount(&whole, &fraction, multiplier))
}

/// What is known of the installed memory modules.
#[derive(Clone, Debug)]
pub struct MemoryHardwareInfo {
    pub installed_bytes: Option<u64>,
    pub speed_mhz: Option<u64>,
    pub slots_used: Option<usize>,
    pub slots_total: Option<usize>,
    pub form_factor: Option<String>,
}

/// The name of a memory module form factor code.
pub open spec fn form_factor_of(value: Seq<char>) -> Option<Seq<char>> {
    match parse_unsigned(value, u16::MAX as int) {
        Some(code) => if code == 8 {
            Some("DIMM"@)
        } else if code == 12 {
            Some("SODIMM"@)
        } else if code == 13 {
            Some("SRIMM"@)
        } else if code == 14 {
            Some("RIMM"@)
        } else if code == 15 {
            Some("FB-DIMM"@)
        } else {
            None
        },
        None => None,
    }
}

/// An unsigned integer field that is greater than zero.
pub open spec fn positive(s: Seq<char>) -> Option<u64> {
    match parse_unsigned(s, u64::MAX as int) {
        Some(v) => if v > 0 { Some(v as u64) } else { None },
        None => None,
    }
}

/// What the lines of the memory query add up to so far.
pub struct MemoryTally {
    pub installed: u64,
    pub speed_sum: u64,
    pub speed_count: nat,
    pub form_factor: Option<Seq<char>>,
    pub slots_used: nat,
    pub slots_total: Option<usize>,
}

/// The memory query's trimmed, non-blank lines added up: each
/// `MODULE|capacity|configured speed|speed|form factor` line adds a module
/// (its capacity, its configured speed or else its speed when known, and the
/// first form factor known); each `SLOTS|count` line sets the slot count.
/// Sums are held at `u64::MAX`.
pub open spec fn memory_tally(ls: Seq<Seq<char>>) -> MemoryTally
    decreases ls.len(),
{
    if ls.len() == 0 {
        MemoryTally { installed: 0, speed_sum: 0, speed_count: 0, form_factor: None, slots_used: 0, slots_total: None }
    } else {
        tally_step(memory_tally(ls.drop_last()), ls.last())
    }
}

/// What one line of the memory query adds to the tally.
pub open spec fn tally_step(t: MemoryTally, line: Seq<char>) -> MemoryTally {
    let p = split(line, '|');
    if p.len() == 5 && p[0] == "MODULE"@ {
        let speed = match positive(p[2]) {
            Some(s) => Some(s),
            None => positive(p[3]),
        };
        MemoryTally {
            installed: sat_add(t.installed, match parse_unsigned(p[1], u64::MAX as int) {
                Some(v) => v as u64,
                None => 0,
            }),
            speed_sum: match speed {
                Some(s) => sat_add(t.speed_sum, s),
                None => t.speed_sum,
            },
            speed_count: match speed {
                Some(s) => t.speed_count + 1,
                None => t.speed_count,
            },
            form_factor: match t.form_factor {
                Some(f) => Some(f),
                None => form_factor_of(p[4]),
            },
            slots_used: t.slots_used + 1,
            slots_total: t.slots_total,
        }
    } else if p.len() == 2 && p[0] == "SLOTS"@ {
        MemoryTally {
            slots_total: match parse_unsigned(p[1], usize::MAX as int) {
                Some(n) => if n > 0 { Some(n as usize) } else { None },
                None => None,
            },
            ..t
        }
    } else {
        t
    }
}

/// `m` is what the memory query's output says (see `memory_tally`): the
/// average speed of the modules whose speed is known.
pub open spec fn is_memory_hardware(m: MemoryHardwareInfo, output: Seq<char>) -> bool {
    let t = memory_tally(crate::providers::windows::nonblank_lines(lines(output)));
    &&& m.installed_bytes == some_if_positive(t.installed)
    &&& m.speed_mhz == if t.speed_count > 0 { Some(((t.speed_sum as int) / (t.speed_count as int)) as u64) } else { None }
    &&& m.slots_used == if t.slots_used > 0 { Some(t.slots_used as usize) } else { None }
    &&& m.slots_total == t.slots_total
    &&& crate::commands::ports::opt_text(m.form_factor) == t.form_factor
}

/// The name of a memory module form factor code (see `form_factor_of`).
pub fn form_factor(value: &Vec<char>) -> (r: Option<String>)
    ensures
        crate::commands::ports::opt_text(r) == form_factor_of(value@),
{
    match parse_unsigned_chars(value, 65535) {
        Some(code) => if code == 8 {
            Some(owned("DIMM"))
        } else if code == 12 {
            Some(owned("SODIMM"))
        } else if code == 13 {
            Some(owned("SRIMM"))
        } else if code == 14 {
            Some(owned("RIMM"))
        } else if code == 15 {
            Some(owned("FB-DIMM"))
        } else {
            None
        },
        None => None,
    }
}

fn positive_value(s: &Vec<char>) -> (r: Option<u64>)
    ensures
        r == positive(s@),
{
    match parse_unsigned_chars(s, u64::MAX) {
        Some(v) => if v > 0 {
            Some(v)
        } else {
            None
        },
        None => None,
    }
}

/// What the memory query printed about the modules (see `is_memory_hardware`).
pub fn parse_memory_hardware(output: &str) -> (r: MemoryHardwareInfo)
    ensures
        is_memory_hardware(r, output@),
{
    let text = chars_of(output);
    let all = lines_of(&text);
    let ghost raw = seqs_of(all@);
    let mut installed: u64 = 0;
    let mut speed_sum: u64 = 0;
    let mut speed_count: u64 = 0;
    let mut form: Option<String> = None;
    let mut slots_used: usize = 0;
    let mut slots_total: Option<usize> = None;
    let mut k: usize = 0;
    while k < all.len()
        invariant
            k <= all.len(),
            raw == seqs_of(all@),
            raw == lines(output@),
            ({
                let t = memory_tally(crate::providers::windows::nonblank_lines(raw.take(k as int)));
                &&& installed == t.installed
                &&& speed_sum == t.speed_sum
                &&& speed_count == t.speed_count
                &&& crate::commands::ports::opt_text(form) == t.form_factor
                &&& slots_used == t.slots_used
                &&& slots_total == t.slots_total
            }),
            slots_used <= k,
            speed_count <= k,
        decreases all.len() - k,
    {
        assert(raw.take(k + 1).drop_last() =~= raw.take(k as int));
        assert(raw.take(k + 1).last() == all@[k as int]@);
        let ghost prev = crate::providers::windows::nonblank_lines(raw.take(k as int));
        let ghost t0 = memory_tally(prev);
        let line = trim_chars(&all[k]);
        proof {
            if line@.len() > 0 {
                assert(crate::providers::windows::nonblank_lines(raw.take(k + 1)) == prev.push(line@));
                assert(prev.push(line@).drop_last() =~= prev);
                assert(memory_tally(prev.push(line@)) == tally_step(t0, line@));
            } else {
                assert(crate::providers::windows::nonblank_lines(raw.take(k + 1)) == prev);
            }
        }
        if line.len() > 0 {
            let p = crate::text::split_on(&line, '|');
            assert(forall|i: int| 0 <= i < p@.len() ==> p@[i]@ == #[trigger] split(line@, '|')[i]);
            assert(p@.len() == split(line@, '|').len());
            if p.len() == 5 && crate::text::equals_str(&p[0], "MODULE") {
                let capacity = match parse_unsigned_chars(&p[1], u64::MAX) {
                    Some(v) => v,
                    None => 0,
                };
                installed = installed.saturating_add(capacity);
                let speed = match positive_value(&p[2]) {
                    Some(s) => Some(s),
                    None => positive_value(&p[3]),
                };
                if let Some(s) = speed {
                    speed_sum = speed_sum.saturating_add(s);
                    speed_count = speed_count + 1;
                }
                if form.is_none() {
                    form = form_factor(&p[4]);
                }
                slots_used = slots_used + 1;
            } else if p.len() == 2 && crate::text::equals_str(&p[0], "SLOTS") {
                slots_total = match parse_unsigned_chars(&p[1], usize::MAX as u64) {
                    Some(n) => if n > 0 {
                        Some(n as usize)
                    } else {
                        None
                    },
                    None => None,
                };
            }
        }
        k = k + 1;
    }
    assert(raw.take(all@.len() as int) =~= raw);
    MemoryHardwareInfo {
        installed_bytes: if installed > 0 {
            Some(installed)
        } else {
            None
        },
        speed_mhz: if speed_count > 0 {
            Some(speed_sum / speed_count)
        } else {
            None
        },
        slots_used: if slots_used > 0 {
            Some(slots_used)
        } else {
            None
        },
        slots_total,
        form_factor: form,
    }
}

/// Memory as shown when nothing more than the totals is known.
pub fn memory_fallback(total_memory_bytes: u64, used_memory_bytes: u64) -> (r: MemoryInfo)
    ensures
        r.installed_bytes == Some(total_memory_bytes),
        r.in_use_bytes == used_memory_bytes,
        r.compressed_bytes is None,
        r.available_bytes == if total_memory_bytes >= used_memory_bytes { total_memory_bytes - used_memory_bytes } else { 0 },
        r.committed_bytes == used_memory_bytes,
        r.commit_limit_bytes == total_memory_bytes,
        r.cached_bytes == 0,
        r.paged_pool_bytes == 0,
        r.non_paged_pool_bytes == 0,
        r.speed_mhz is None,
        r.slots_used is None,
        r.slots_total is None,
        r.form_factor is None,
        r.hardware_reserved_bytes is None,
{
    MemoryInfo {
        installed_bytes: Some(total_memory_bytes),
        in_use_bytes: used_memory_bytes,
        compressed_bytes: None,
        available_bytes: total_memory_bytes.saturating_sub(used_memory_bytes),
        committed_bytes: used_memory_bytes,
        commit_limit_bytes: total_memory_bytes,
        cached_bytes: 0,
        paged_pool_bytes: 0,
        non_paged_pool_bytes: 0,
        speed_mhz: None,
        slots_used: None,
        slots_total: None,
        form_factor: None,
        hardware_reserved_bytes: None,
    }
}

/// Memory on macOS: the totals, the modules as known, and the compressed
/// bytes; what is installed beyond the usable total is reserved by the hardware.
pub fn macos_memory_info(
    total_memory_bytes: u64,
    used_memory_bytes: u64,
    hardware: &MemoryHardwareInfo,
    compressed_bytes: Option<u64>,
) -> (r: MemoryInfo)
    ensures
        r.installed_bytes == Some(match hardware.installed_bytes {
            Some(i) => i,
            None => total_memory_bytes,
        }),
        r.in_use_bytes == used_memory_bytes,
        r.compressed_bytes == compressed_bytes,
        r.available_bytes == if total_memory_bytes >= used_memory_bytes { total_memory_bytes - used_memory_bytes } else { 0 },
        r.committed_bytes == used_memory_bytes,
        r.commit_limit_bytes == total_memory_bytes,
        r.cached_bytes == 0 && r.paged_pool_bytes == 0 && r.non_paged_pool_bytes == 0,
        r.speed_mhz == hardware.speed_mhz,
        r.slots_used == hardware.slots_used,
        r.slots_total == hardware.slots_total,
        crate::commands::ports::opt_text(r.form_factor) == crate::commands::ports::opt_text(hardware.form_factor),
        r.hardware_reserved_bytes == ({
            let installed = match hardware.installed_bytes {
                Some(i) => i,
                None => total_memory_bytes,
            };
            if installed >= total_memory_bytes { Some((installed - total_memory_bytes) as u64) } else { None }
        }),
{
    let installed = match hardware.installed_bytes {
        Some(i) => i,
        None => total_memory_bytes,
    };
    MemoryInfo {
        installed_bytes: Some(installed),
        in_use_bytes: used_memory_bytes,
        compressed_bytes,
        available_bytes: total_memory_bytes.saturating_sub(used_memory_bytes),
        committed_bytes: used_memory_bytes,
        commit_limit_bytes: total_memory_bytes,
        cached_bytes: 0,
        paged_pool_bytes: 0,
        non_paged_pool_bytes: 0,
        speed_mhz: hardware.speed_mhz,
        slots_used: hardware.slots_used,
        slots_total: hardware.slots_total,
        form_factor: match &hardware.form_factor {
            Some(f) => Some(f.clone()),
            None => None,
        },
        hardware_reserved_bytes: installed.checked_sub(total_memory_bytes),
    }
}

/// The sum of the frequencies.
pub open spec fn total_frequency(fs: Seq<u64>) -> int
    decreases fs.len(),
{
    if fs.len() == 0 {
        0
    } else {
        total_frequency(fs.drop_last()) + fs.last()
    }
}

/// The average processor frequency, rounded down; zero when there are no processors.
pub fn average_cpu_frequency(frequencies: &Vec<u64>) -> (r: u64)
    requires
        total_frequency(frequencies@) <= u64::MAX,
    ensures
        frequencies@.len() == 0 ==> r == 0,
        frequencies@.len() > 0 ==> r == total_frequency(frequencies@) / (frequencies@.len() as int),
{
    if frequencies.len() == 0 {
        return 0;
    }
    let mut sum: u64 = 0;
    let mut k: usize = 0;
    while k < frequencies.len()
        invariant
            k <= frequencies.len(),
            total_frequency(frequencies@) <= u64::MAX,
            sum == total_frequency(frequencies@.take(k as int)),
        decreases frequencies.len() - k,
    {
        assert(frequencies@.take(k + 1).drop_last() =~= frequencies@.take(k as int));
        proof {
            lemma_total_frequency_prefix(frequencies@, k + 1);
        }
        sum = sum + frequencies[k];
        k = k + 1;
    }
    assert(frequencies@.take(frequencies@.len() as int) =~= frequencies@);
    sum / (frequencies.len() as u64)
}

proof fn lemma_total_frequency_prefix(fs: Seq<u64>, n: int)
    requires
        0 <= n <= fs.len(),
    ensures
        0 <= total_frequency(fs.take(n)) <= total_frequency(fs),
    decreases fs.len(),
{
    if n < fs.len() {
        assert(fs.drop_last().take(n) =~= fs.take(n));
        lemma_total_frequency_prefix(fs.drop_last(), n);
    } else {
        assert(fs.take(n) =~= fs);
        if fs.len() > 0 {
            lemma_total_frequency_prefix(fs.drop_last(), n - 1);
        }
    }
}

} // verus!
