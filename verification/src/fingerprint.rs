//! Device fingerprints, derived from the API key so that one key always shows the same device:
//! across restarts, across instances, and after any pause.

use vstd::prelude::*;
use crate::json;
use crate::json::{Json, JsonV};
use crate::text;
use crate::text::{cat, cat3, cat5, chars_of, decimal_u64, join, no_texts, push_text, text_between, to_lowercase, trim, upper};
use crate::util;
use crate::util::{hex_encode, sha256_bytes, sha256_hex};

verus! {

/// The salt of every hash in a fingerprint.
pub const FP_SALT: &'static str = "command-code:device-fingerprint:v1";

// ── what a device can be ───────────────────────────────────────

/// Processor models with their numbers of cores.
pub open spec fn cpu_table() -> Seq<(Seq<char>, u32)> {
    seq![
        ("12th Gen Intel(R) Core(TM) i7-12650H"@, 10u32),
        ("12th Gen Intel(R) Core(TM) i5-12400F"@, 6u32),
        ("12th Gen Intel(R) Core(TM) i9-12900K"@, 16u32),
        ("13th Gen Intel(R) Core(TM) i7-13700K"@, 16u32),
        ("13th Gen Intel(R) Core(TM) i5-13600K"@, 14u32),
        ("13th Gen Intel(R) Core(TM) i9-13900K"@, 24u32),
        ("Intel(R) Core(TM) Ultra 7 155H"@, 16u32),
        ("Intel(R) Core(TM) Ultra 9 285H"@, 16u32),
        ("Intel(R) Core(TM) i9-14900K"@, 24u32),
        ("Intel(R) Core(TM) i7-14700K"@, 20u32),
        ("AMD Ryzen 7 7800X3D"@, 8u32),
        ("AMD Ryzen 9 7950X"@, 16u32),
        ("AMD Ryzen 5 7600"@, 6u32),
        ("AMD Ryzen 9 7900X"@, 12u32),
        ("AMD Ryzen 7 5800X3D"@, 8u32),
    ]
}

pub open spec fn cpus_of(v: Seq<(&'static str, u32)>) -> Seq<(Seq<char>, u32)> {
    v.map_values(|e: (&'static str, u32)| (e.0@, e.1))
}

fn cpus() -> (r: Vec<(&'static str, u32)>)
    ensures
        cpus_of(r@) == cpu_table(),
{
    let r = vec![
        ("12th Gen Intel(R) Core(TM) i7-12650H", 10u32),
        ("12th Gen Intel(R) Core(TM) i5-12400F", 6u32),
        ("12th Gen Intel(R) Core(TM) i9-12900K", 16u32),
        ("13th Gen Intel(R) Core(TM) i7-13700K", 16u32),
        ("13th Gen Intel(R) Core(TM) i5-13600K", 14u32),
        ("13th Gen Intel(R) Core(TM) i9-13900K", 24u32),
        ("Intel(R) Core(TM) Ultra 7 155H", 16u32),
        ("Intel(R) Core(TM) Ultra 9 285H", 16u32),
        ("Intel(R) Core(TM) i9-14900K", 24u32),
        ("Intel(R) Core(TM) i7-14700K", 20u32),
        ("AMD Ryzen 7 7800X3D", 8u32),
        ("AMD Ryzen 9 7950X", 16u32),
        ("AMD Ryzen 5 7600", 6u32),
        ("AMD Ryzen 9 7900X", 12u32),
        ("AMD Ryzen 7 5800X3D", 8u32),
    ];
    assert(cpus_of(r@) =~= cpu_table());
    r
}

/// Memory sizes in GiB.
pub open spec fn mem_table() -> Seq<u32> {
    seq![8u32, 16u32, 24u32, 32u32, 48u32, 64u32]
}

fn mems() -> (r: Vec<u32>)
    ensures
        r@ == mem_table(),
{
    let r = vec![8u32, 16u32, 24u32, 32u32, 48u32, 64u32];
    assert(r@ =~= mem_table());
    r
}

/// How many network interfaces a device can have.
pub open spec fn mac_count_table() -> Seq<u32> {
    seq![2u32, 3u32, 4u32, 5u32]
}

fn mac_counts() -> (r: Vec<u32>)
    ensures
        r@ == mac_count_table(),
{
    let r = vec![2u32, 3u32, 4u32, 5u32];
    assert(r@ =~= mac_count_table());
    r
}

pub open spec fn strs_of(v: Seq<&'static str>) -> Seq<Seq<char>> {
    v.map_values(|e: &'static str| e@)
}

/// Time zones.
pub open spec fn tz_table() -> Seq<Seq<char>> {
    seq![
        "America/New_York"@,
        "America/Chicago"@,
        "America/Los_Angeles"@,
        "America/Toronto"@,
        "Europe/London"@,
        "Europe/Berlin"@,
        "Europe/Paris"@,
        "Europe/Moscow"@,
        "Asia/Shanghai"@,
        "Asia/Tokyo"@,
        "Asia/Singapore"@,
        "Asia/Seoul"@,
        "Asia/Hong_Kong"@,
        "Australia/Sydney"@,
        "Pacific/Auckland"@,
    ]
}

fn time_zones() -> (r: Vec<&'static str>)
    ensures
        strs_of(r@) == tz_table(),
{
    let r = vec![
        "America/New_York",
        "America/Chicago",
        "America/Los_Angeles",
        "America/Toronto",
        "Europe/London",
        "Europe/Berlin",
        "Europe/Paris",
        "Europe/Moscow",
        "Asia/Shanghai",
        "Asia/Tokyo",
        "Asia/Singapore",
        "Asia/Seoul",
        "Asia/Hong_Kong",
        "Australia/Sydney",
        "Pacific/Auckland",
    ];
    assert(strs_of(r@) =~= tz_table());
    r
}

/// User names.
pub open spec fn user_table() -> Seq<Seq<char>> {
    seq![
        "dev"@,
        "user"@,
        "admin"@,
        "coder"@,
        "engineer"@,
        "work"@,
    ]
}

fn os_users() -> (r: Vec<&'static str>)
    ensures
        strs_of(r@) == user_table(),
{
    let r = vec![
        "dev",
        "user",
        "admin",
        "coder",
        "engineer",
        "work",
    ];
    assert(strs_of(r@) =~= user_table());
    r
}

/// Domains of mail addresses.
pub open spec fn mail_table() -> Seq<Seq<char>> {
    seq![
        "gmail.com"@,
        "outlook.com"@,
        "qq.com"@,
        "163.com"@,
    ]
}

fn mail_domains() -> (r: Vec<&'static str>)
    ensures
        strs_of(r@) == mail_table(),
{
    let r = vec![
        "gmail.com",
        "outlook.com",
        "qq.com",
        "163.com",
    ];
    assert(strs_of(r@) =~= mail_table());
    r
}

// ── the profile of the device ──────────────────────────────────

/// The device that requests are said to come from. The fingerprint, the environment in a request
/// and the lifecycle event all read it here, so that they agree.
#[derive(Debug)]
pub struct DeviceProfile {
    pub platform: &'static str,
    pub arch: &'static str,
    pub os_release: &'static str,
    pub is_container: bool,
    pub project_dir: String,
}

/// The model of a device profile.
pub struct DeviceProfileV {
    pub platform: Seq<char>,
    pub arch: Seq<char>,
    pub os_release: Seq<char>,
    pub is_container: bool,
    pub project_dir: Seq<char>,
}

/// The profile with a project directory; an empty one stands for the built-in directory.
pub open spec fn profile_of(device_project_dir: Seq<char>) -> DeviceProfileV {
    DeviceProfileV {
        platform: "win32"@,
        arch: "x64"@,
        os_release: "10.0.22631"@,
        is_container: false,
        project_dir: if device_project_dir.len() == 0 {
            "C:\\Users\\dev\\projects\\app"@
        } else {
            device_project_dir
        },
    }
}

impl DeviceProfile {
    pub open spec fn view(&self) -> DeviceProfileV {
        DeviceProfileV {
            platform: self.platform@,
            arch: self.arch@,
            os_release: self.os_release@,
            is_container: self.is_container,
            project_dir: self.project_dir@,
        }
    }

    pub fn new(device_project_dir: &str) -> (r: Self)
        ensures
            r@ == profile_of(device_project_dir@),
    {
        DeviceProfile {
            platform: "win32",
            arch: "x64",
            os_release: "10.0.22631",
            is_container: false,
            project_dir: if device_project_dir.is_empty() {
                "C:\\Users\\dev\\projects\\app".to_owned()
            } else {
                device_project_dir.to_owned()
            },
        }
    }
}

impl Clone for DeviceProfile {
    fn clone(&self) -> (r: Self)
        ensures
            r@ == self@,
    {
        DeviceProfile {
            platform: self.platform,
            arch: self.arch,
            os_release: self.os_release,
            is_container: self.is_container,
            project_dir: self.project_dir.clone(),
        }
    }
}

// ── digests and choices ────────────────────────────────────────

/// The bytes from which a field of the device is made up.
pub open spec fn field_digest(salt: Seq<char>, api_key: Seq<char>, field: Seq<char>) -> Seq<u8> {
    util::sha256(vstd::utf8::encode_utf8(salt + "\0"@ + api_key + "\0"@ + field))
}

fn fp_digest(salt: &str, api_key: &str, field: &str) -> (r: [u8; 32])
    ensures
        r@ == field_digest(salt@, api_key@, field@),
{
    let s = cat5(salt, "\0", api_key, "\0", field);
    sha256_bytes(s.as_str().as_bytes())
}

/// Whether `a` comes after `b` in the order of bytes.
pub open spec fn bytes_after(a: Seq<u8>, b: Seq<u8>) -> bool
    decreases a.len(),
{
    if a.len() == 0 {
        false
    } else if b.len() == 0 {
        true
    } else if a[0] != b[0] {
        a[0] > b[0]
    } else {
        bytes_after(a.skip(1), b.skip(1))
    }
}

fn is_after(a: &[u8; 32], b: &[u8; 32]) -> (r: bool)
    ensures
        r == bytes_after(a@, b@),
{
    let mut i: usize = 0;
    assert(a@.skip(0) =~= a@);
    assert(b@.skip(0) =~= b@);
    while i < 32
        invariant
            i <= 32,
            bytes_after(a@.skip(i as int), b@.skip(i as int)) == bytes_after(a@, b@),
        decreases 32 - i,
    {
        assert(a@.skip(i as int).skip(1) =~= a@.skip(i + 1));
        assert(b@.skip(i as int).skip(1) =~= b@.skip(i + 1));
        if a[i] != b[i] {
            return a[i] > b[i];
        }
        i = i + 1;
    }
    false
}

/// The score of a candidate for a field.
pub open spec fn score_of(salt: Seq<char>, api_key: Seq<char>, field: Seq<char>, label: Seq<char>) -> Seq<u8> {
    field_digest(salt, api_key, field + "\0"@ + label)
}

/// The candidate with the highest score, the first of them where several have it.
pub open spec fn pick(salt: Seq<char>, api_key: Seq<char>, field: Seq<char>, labels: Seq<Seq<char>>) -> int
    decreases labels.len(),
{
    if labels.len() <= 1 {
        0
    } else {
        let best = pick(salt, api_key, field, labels.drop_last());
        if bytes_after(
            score_of(salt, api_key, field, labels.last()),
            score_of(salt, api_key, field, labels[best]),
        ) {
            labels.len() - 1
        } else {
            best
        }
    }
}

proof fn lemma_pick_range(salt: Seq<char>, api_key: Seq<char>, field: Seq<char>, labels: Seq<Seq<char>>)
    requires
        labels.len() > 0,
    ensures
        0 <= pick(salt, api_key, field, labels) < labels.len(),
    decreases labels.len(),
{
    if labels.len() > 1 {
        lemma_pick_range(salt, api_key, field, labels.drop_last());
    }
}

fn fp_pick_index(salt: &str, api_key: &str, field: &str, labels: &Vec<String>) -> (r: usize)
    requires
        labels@.len() > 0,
    ensures
        r < labels@.len(),
        r == pick(salt@, api_key@, field@, text::texts(labels@)),
{
    let ghost all = text::texts(labels@);
    let mut best_idx: usize = 0;
    let mut best = fp_digest(salt, api_key, cat3(field, "\0", labels[0].as_str()).as_str());
    let mut i: usize = 1;
    while i < labels.len()
        invariant
            1 <= i <= labels@.len(),
            best_idx < i,
            all == text::texts(labels@),
            best@ == score_of(salt@, api_key@, field@, all[best_idx as int]),
            best_idx == pick(salt@, api_key@, field@, all.take(i as int)),
        decreases labels.len() - i,
    {
        let score = fp_digest(salt, api_key, cat3(field, "\0", labels[i].as_str()).as_str());
        assert(all.take(i + 1).drop_last() =~= all.take(i as int));
        if is_after(&score, &best) {
            best = score;
            best_idx = i;
        }
        i = i + 1;
    }
    assert(all.take(i as int) =~= all);
    best_idx
}

/// The first `n` bytes of a field's digest in hexadecimal.
pub open spec fn field_hex(salt: Seq<char>, api_key: Seq<char>, field: Seq<char>, n: int) -> Seq<char> {
    util::hex_text(field_digest(salt, api_key, field).take(n))
}

fn first_bytes(d: &[u8; 32], n: usize) -> (r: Vec<u8>)
    requires
        n <= 32,
    ensures
        r@ == d@.take(n as int),
{
    let mut r: Vec<u8> = Vec::new();
    let mut i: usize = 0;
    assert(r@ =~= d@.take(0));
    while i < n
        invariant
            i <= n <= 32,
            r@ == d@.take(i as int),
        decreases n - i,
    {
        r.push(d[i]);
        i = i + 1;
        assert(d@.take(i as int) =~= d@.take(i - 1).push(d@[i - 1]));
    }
    r
}

fn hex_of(salt: &str, api_key: &str, field: &str, bytes: usize) -> (r: String)
    requires
        bytes <= 32,
    ensures
        r@ == field_hex(salt@, api_key@, field@, bytes as int),
        r@.len() == 2 * bytes,
{
    let d = fp_digest(salt, api_key, field);
    hex_encode(first_bytes(&d, bytes).as_slice())
}

/// The hash under which a signal is told: none where the signal is blank.
pub open spec fn signal_hash(value: Seq<char>) -> Option<Seq<char>> {
    let v = text::trimmed(value);
    if v.len() == 0 {
        None
    } else {
        Some(util::hex_text(util::sha256(vstd::utf8::encode_utf8(FP_SALT@ + "\0"@ + text::lowercase(v)))))
    }
}

fn fingerprint_hash(value: &str) -> (r: Option<String>)
    ensures
        text::text_opt(r) == signal_hash(value@),
        signal_hash(value@) matches Some(h) ==> util::is_hash(h),
{
    let v = trim(value);
    if v.as_str().is_empty() {
        return None;
    }
    let s = cat3(FP_SALT, "\0", to_lowercase(v.as_str()).as_str());
    Some(sha256_hex(s.as_str().as_bytes()))
}

// ── the signals ────────────────────────────────────────────────

pub open spec fn cpu_labels() -> Seq<Seq<char>> {
    cpu_table().map_values(|e: (Seq<char>, u32)| e.0 + "|"@ + text::decimal(e.1 as nat))
}

pub open spec fn number_labels(v: Seq<u32>) -> Seq<Seq<char>> {
    v.map_values(|n: u32| text::decimal(n as nat))
}

fn labels_of_cpus(v: &Vec<(&'static str, u32)>) -> (r: Vec<String>)
    ensures
        text::texts(r@) == cpus_of(v@).map_values(|e: (Seq<char>, u32)| e.0 + "|"@ + text::decimal(e.1 as nat)),
{
    let ghost all = cpus_of(v@).map_values(|e: (Seq<char>, u32)| e.0 + "|"@ + text::decimal(e.1 as nat));
    let mut r = no_texts();
    let mut i: usize = 0;
    assert(all.take(0) =~= Seq::<Seq<char>>::empty());
    while i < v.len()
        invariant
            i <= v@.len(),
            all == cpus_of(v@).map_values(|e: (Seq<char>, u32)| e.0 + "|"@ + text::decimal(e.1 as nat)),
            text::texts(r@) == all.take(i as int),
        decreases v.len() - i,
    {
        push_text(&mut r, cat3(v[i].0, "|", decimal_u64(v[i].1 as u64).as_str()));
        i = i + 1;
        assert(all.take(i as int) =~= all.take(i - 1).push(all[i - 1]));
    }
    assert(all.take(i as int) =~= all);
    r
}

fn labels_of_numbers(v: &Vec<u32>) -> (r: Vec<String>)
    ensures
        text::texts(r@) == number_labels(v@),
{
    let ghost all = number_labels(v@);
    let mut r = no_texts();
    let mut i: usize = 0;
    assert(all.take(0) =~= Seq::<Seq<char>>::empty());
    while i < v.len()
        invariant
            i <= v@.len(),
            all == number_labels(v@),
            text::texts(r@) == all.take(i as int),
        decreases v.len() - i,
    {
        push_text(&mut r, decimal_u64(v[i] as u64));
        i = i + 1;
        assert(all.take(i as int) =~= all.take(i - 1).push(all[i - 1]));
    }
    assert(all.take(i as int) =~= all);
    r
}

fn labels_of_strs(v: &Vec<&'static str>) -> (r: Vec<String>)
    ensures
        text::texts(r@) == strs_of(v@),
{
    let ghost all = strs_of(v@);
    let mut r = no_texts();
    let mut i: usize = 0;
    assert(all.take(0) =~= Seq::<Seq<char>>::empty());
    while i < v.len()
        invariant
            i <= v@.len(),
            all == strs_of(v@),
            text::texts(r@) == all.take(i as int),
        decreases v.len() - i,
    {
        push_text(&mut r, v[i].to_owned());
        i = i + 1;
        assert(all.take(i as int) =~= all.take(i - 1).push(all[i - 1]));
    }
    assert(all.take(i as int) =~= all);
    r
}

pub open spec fn picked_cpu(salt: Seq<char>, api_key: Seq<char>) -> (Seq<char>, u32) {
    cpu_table()[pick(salt, api_key, "cpu"@, cpu_labels())]
}

pub open spec fn picked_mem(salt: Seq<char>, api_key: Seq<char>) -> u32 {
    mem_table()[pick(salt, api_key, "mem"@, number_labels(mem_table()))]
}

pub open spec fn picked_mac_count(salt: Seq<char>, api_key: Seq<char>) -> u32 {
    mac_count_table()[pick(salt, api_key, "macCount"@, number_labels(mac_count_table()))]
}

pub open spec fn picked_text(salt: Seq<char>, api_key: Seq<char>, field: Seq<char>, table: Seq<Seq<char>>) -> Seq<char> {
    table[pick(salt, api_key, field, table)]
}

fn pick_text(salt: &str, api_key: &str, field: &str, table: Vec<&'static str>) -> (r: &'static str)
    requires
        table@.len() > 0,
    ensures
        r@ == picked_text(salt@, api_key@, field@, strs_of(table@)),
{
    let labels = labels_of_strs(&table);
    assert(labels@.len() == text::texts(labels@).len());
    table[fp_pick_index(salt, api_key, field, &labels)]
}

fn pick_number(salt: &str, api_key: &str, field: &str, table: Vec<u32>) -> (r: u32)
    requires
        table@.len() > 0,
    ensures
        r == table@[pick(salt@, api_key@, field@, number_labels(table@))],
{
    let labels = labels_of_numbers(&table);
    assert(labels@.len() == text::texts(labels@).len());
    table[fp_pick_index(salt, api_key, field, &labels)]
}

fn pick_cpu(salt: &str, api_key: &str) -> (r: (&'static str, u32))
    ensures
        (r.0@, r.1) == picked_cpu(salt@, api_key@),
{
    let table = cpus();
    let labels = labels_of_cpus(&table);
    assert(labels@.len() == text::texts(labels@).len());
    assert(cpus_of(table@).len() == table@.len());
    let i = fp_pick_index(salt, api_key, "cpu", &labels);
    assert(cpus_of(table@)[i as int] == (table@[i as int].0@, table@[i as int].1));
    table[i]
}

/// 32 hexadecimal digits in groups of 8, 4, 4, 4 and 12.
pub open spec fn guid_form(h: Seq<char>) -> Seq<char> {
    h.subrange(0, 8) + "-"@ + h.subrange(8, 12) + "-"@ + h.subrange(12, 16) + "-"@ + h.subrange(16, 20) + "-"@
        + h.subrange(20, 32)
}

pub open spec fn machine_id_of(salt: Seq<char>, api_key: Seq<char>) -> Seq<char> {
    guid_form(field_hex(salt, api_key, "machineId"@, 16))
}

fn machine_id(salt: &str, api_key: &str) -> (r: String)
    ensures
        r@ == machine_id_of(salt@, api_key@),
{
    let h = hex_of(salt, api_key, "machineId", 16);
    let cs = chars_of(h.as_str());
    let a = cat5(
        text_between(&cs, 0, 8).as_str(),
        "-",
        text_between(&cs, 8, 12).as_str(),
        "-",
        text_between(&cs, 12, 16).as_str(),
    );
    cat5(a.as_str(), "-", text_between(&cs, 16, 20).as_str(), "-", text_between(&cs, 20, 32).as_str())
}

/// The first six bytes in hexadecimal with colons between them.
pub open spec fn mac_form(d: Seq<u8>) -> Seq<char> {
    text::joined(Seq::new(6, |i: int| util::hex_text(d.subrange(i, i + 1))), ":"@)
}

fn mac_text(d: &[u8; 32]) -> (r: String)
    ensures
        r@ == mac_form(d@),
{
    let ghost all = Seq::new(6, |i: int| util::hex_text(d@.subrange(i, i + 1)));
    let mut parts = no_texts();
    let mut i: usize = 0;
    assert(all.take(0) =~= Seq::<Seq<char>>::empty());
    while i < 6
        invariant
            i <= 6,
            all == Seq::new(6, |i: int| util::hex_text(d@.subrange(i, i + 1))),
            text::texts(parts@) == all.take(i as int),
        decreases 6 - i,
    {
        let mut one: Vec<u8> = Vec::new();
        one.push(d[i]);
        assert(one@ =~= d@.subrange(i as int, i + 1));
        push_text(&mut parts, hex_encode(one.as_slice()));
        i = i + 1;
        assert(all.take(i as int) =~= all.take(i - 1).push(all[i - 1]));
    }
    assert(all.take(6) =~= all);
    join(&parts, ":")
}

/// The address of a network interface.
pub open spec fn mac_of(salt: Seq<char>, api_key: Seq<char>, i: nat) -> Seq<char> {
    mac_form(field_digest(salt, api_key, "mac"@ + text::decimal(i)))
}

/// Whether `a` comes after `b` in the order of characters.
pub open spec fn text_after(a: Seq<char>, b: Seq<char>) -> bool
    decreases a.len(),
{
    if a.len() == 0 {
        false
    } else if b.len() == 0 {
        true
    } else if a[0] != b[0] {
        a[0] > b[0]
    } else {
        text_after(a.skip(1), b.skip(1))
    }
}

fn text_is_after(a: &str, b: &str) -> (r: bool)
    ensures
        r == text_after(a@, b@),
{
    let x = chars_of(a);
    let y = chars_of(b);
    let mut i: usize = 0;
    assert(x@.skip(0) =~= a@);
    assert(y@.skip(0) =~= b@);
    while i < x.len() && i < y.len()
        invariant
            i <= x@.len(),
            i <= y@.len(),
            text_after(x@.skip(i as int), y@.skip(i as int)) == text_after(a@, b@),
        decreases x.len() - i,
    {
        assert(x@.skip(i as int).skip(1) =~= x@.skip(i + 1));
        assert(y@.skip(i as int).skip(1) =~= y@.skip(i + 1));
        if x[i] != y[i] {
            return x[i] > y[i];
        }
        i = i + 1;
    }
    i < x.len()
}

/// No text comes after a later one.
pub open spec fn in_order(v: Seq<Seq<char>>) -> bool {
    forall|i: int, j: int| 0 <= i < j < v.len() ==> !text_after(#[trigger] v[i], #[trigger] v[j])
}

/// Where `x` goes in a sorted list: behind all that do not come after it.
pub open spec fn place_for(v: Seq<Seq<char>>, x: Seq<char>) -> int
    decreases v.len(),
{
    if v.len() > 0 && text_after(v.last(), x) {
        place_for(v.drop_last(), x)
    } else {
        v.len() as int
    }
}

/// The texts in order.
pub open spec fn sorted(v: Seq<Seq<char>>) -> Seq<Seq<char>>
    decreases v.len(),
{
    if v.len() == 0 {
        v
    } else {
        let s = sorted(v.drop_last());
        s.insert(place_for(s, v.last()), v.last())
    }
}

/// The addresses of the network interfaces, in order.
pub open spec fn macs_of(salt: Seq<char>, api_key: Seq<char>) -> Seq<Seq<char>> {
    sorted(Seq::new(picked_mac_count(salt, api_key) as nat, |i: int| mac_of(salt, api_key, i as nat)))
}

proof fn lemma_place(v: Seq<Seq<char>>, x: Seq<char>)
    ensures
        0 <= place_for(v, x) <= v.len(),
    decreases v.len(),
{
    if v.len() > 0 && text_after(v.last(), x) {
        lemma_place(v.drop_last(), x);
    }
}

fn insert_sorted(v: &mut Vec<String>, x: String)
    ensures
        text::texts(final(v)@) == text::texts(old(v)@).insert(place_for(text::texts(old(v)@), x@), x@),
{
    let ghost all = text::texts(v@);
    let mut n: usize = v.len();
    assert(all.take(n as int) =~= all);
    while n > 0 && text_is_after(v[n - 1].as_str(), x.as_str())
        invariant
            n <= v@.len(),
            all == text::texts(v@),
            place_for(all.take(n as int), x@) == place_for(all, x@),
        decreases n,
    {
        assert(all.take(n as int).drop_last() =~= all.take(n - 1));
        n = n - 1;
    }
    let ghost before = v@;
    v.insert(n, x);
    assert(text::texts(v@) =~= all.insert(n as int, x@));
}

fn macs(salt: &str, api_key: &str) -> (r: Vec<String>)
    ensures
        text::texts(r@) == macs_of(salt@, api_key@),
{
    let count = pick_number(salt, api_key, "macCount", mac_counts());
    let ghost all = Seq::new(count as nat, |i: int| mac_of(salt@, api_key@, i as nat));
    let mut r = no_texts();
    let mut i: u32 = 0;
    assert(all.take(0) =~= Seq::<Seq<char>>::empty());
    while i < count
        invariant
            i <= count,
            all == Seq::new(count as nat, |i: int| mac_of(salt@, api_key@, i as nat)),
            text::texts(r@) == sorted(all.take(i as int)),
        decreases count - i,
    {
        let d = fp_digest(salt, api_key, cat("mac", decimal_u64(i as u64).as_str()).as_str());
        assert(all.take(i + 1).drop_last() =~= all.take(i as int));
        insert_sorted(&mut r, mac_text(&d));
        i = i + 1;
    }
    assert(all.take(count as int) =~= all);
    r
}

/// The hashes of those texts that are not blank.
pub open spec fn signal_hashes(v: Seq<Seq<char>>) -> Seq<Seq<char>>
    decreases v.len(),
{
    if v.len() == 0 {
        Seq::empty()
    } else {
        match signal_hash(v.last()) {
            Some(h) => signal_hashes(v.drop_last()).push(h),
            None => signal_hashes(v.drop_last()),
        }
    }
}

fn fingerprint_hashes(v: &Vec<String>) -> (r: Vec<String>)
    ensures
        text::texts(r@) == signal_hashes(text::texts(v@)),
        forall|i: int| 0 <= i < r@.len() ==> util::is_hash(#[trigger] text::texts(r@)[i]),
{
    let ghost all = text::texts(v@);
    let mut r = no_texts();
    let mut i: usize = 0;
    assert(all.take(0) =~= Seq::<Seq<char>>::empty());
    while i < v.len()
        invariant
            i <= v@.len(),
            all == text::texts(v@),
            text::texts(r@) == signal_hashes(all.take(i as int)),
            forall|k: int| 0 <= k < text::texts(r@).len() ==> util::is_hash(#[trigger] text::texts(r@)[k]),
        decreases v.len() - i,
    {
        assert(all.take(i + 1).drop_last() =~= all.take(i as int));
        assert(all.take(i + 1).last() == v@[i as int]@);
        if let Some(h) = fingerprint_hash(v[i].as_str()) {
            push_text(&mut r, h);
        }
        i = i + 1;
    }
    assert(all.take(i as int) =~= all);
    r
}

pub open spec fn os_user_of(salt: Seq<char>, api_key: Seq<char>) -> Seq<char> {
    picked_text(salt, api_key, "osUser"@, user_table())
}

pub open spec fn hostname_of(salt: Seq<char>, api_key: Seq<char>) -> Seq<char> {
    "DESKTOP-"@ + field_hex(salt, api_key, "hostname"@, 4).map_values(|c: char| text::ascii_upper(c))
}

pub open spec fn git_email_of(salt: Seq<char>, api_key: Seq<char>) -> Seq<char> {
    os_user_of(salt, api_key) + "."@ + field_hex(salt, api_key, "gitEmail"@, 3) + "@"@ + picked_text(
        salt,
        api_key,
        "mailDomain"@,
        mail_table(),
    )
}

/// The hash that stands for the device as a whole.
pub open spec fn thumbmark_of(machine_id: Seq<char>, macs: Seq<Seq<char>>) -> Seq<char> {
    util::hex_text(
        util::sha256(
            vstd::utf8::encode_utf8(FP_SALT@ + "\0machine\0"@ + (machine_id + "|"@ + text::joined(macs, ","@))),
        ),
    )
}

// ── the fingerprint ────────────────────────────────────────────

pub open spec fn opt_str_json(o: Option<Seq<char>>) -> Option<JsonV> {
    match o {
        Some(s) => Some(JsonV::Str(s)),
        None => None,
    }
}

fn opt_str_value(o: Option<String>) -> (r: Option<Json>)
    ensures
        json::owned_json(r) == opt_str_json(text::text_opt(o)),
{
    match o {
        Some(s) => Some(Json::Str(s)),
        None => None,
    }
}

pub open spec fn strs_json(v: Seq<Seq<char>>) -> JsonV {
    JsonV::Array(v.map_values(|s: Seq<char>| JsonV::Str(s)))
}

pub open spec fn components_of(salt: Seq<char>, api_key: Seq<char>, profile: DeviceProfileV) -> JsonV {
    let cpu = picked_cpu(salt, api_key);
    JsonV::obj().with_some("machineIdHash"@, opt_str_json(signal_hash(machine_id_of(salt, api_key)))).with(
        "macHashes"@,
        strs_json(signal_hashes(macs_of(salt, api_key))),
    ).with_some("osUserHash"@, opt_str_json(signal_hash(os_user_of(salt, api_key)))).with_some(
        "hostnameHash"@,
        opt_str_json(signal_hash(hostname_of(salt, api_key))),
    ).with_some("gitEmailHash"@, opt_str_json(signal_hash(git_email_of(salt, api_key)))).with(
        "platform"@,
        JsonV::Str(profile.platform),
    ).with("arch"@, JsonV::Str(profile.arch)).with("osRelease"@, JsonV::Str(profile.os_release)).with(
        "cpuModel"@,
        JsonV::Str(cpu.0),
    ).with("cpuCount"@, json::int_json(cpu.1 as int)).with(
        "memGiB"@,
        json::int_json(picked_mem(salt, api_key) as int),
    ).with("isContainer"@, JsonV::Bool(profile.is_container)).with(
        "timezone"@,
        JsonV::Str(picked_text(salt, api_key, "timezone"@, tz_table())),
    ).with("runtime"@, JsonV::Str("cli"@)).with("collectorVersion"@, json::int_json(1))
}

/// The fingerprint of the device that belongs to a key.
pub open spec fn fingerprint_of(salt: Seq<char>, api_key: Seq<char>, profile: DeviceProfileV) -> JsonV {
    JsonV::obj().with(
        "thumbmark"@,
        JsonV::Str(thumbmark_of(machine_id_of(salt, api_key), macs_of(salt, api_key))),
    ).with("components"@, components_of(salt, api_key, profile))
}

/// Whether a member is a hash.
pub open spec fn hash_member(j: JsonV, k: Seq<char>) -> bool {
    j.get_str(k) matches Some(h) && util::is_hash(h)
}

/// Whether a device has a processor of the table, with its number of cores.
pub open spec fn known_cpu(components: JsonV) -> bool {
    exists|i: int|
        0 <= i < cpu_table().len() && components.get("cpuModel"@) == Some(JsonV::Str((#[trigger] cpu_table()[i]).0))
            && components.get("cpuCount"@) == Some(json::int_json(cpu_table()[i].1 as int))
}

/// The form of a fingerprint: hashes for all that could tell a device from another, two to five
/// network interfaces, a known processor, and the system of the profile.
pub open spec fn has_form(fp: JsonV, profile: DeviceProfileV) -> bool {
    &&& hash_member(fp, "thumbmark"@)
    &&& fp.get("components"@) matches Some(c) && {
        &&& hash_member(c, "machineIdHash"@)
        &&& hash_member(c, "osUserHash"@)
        &&& hash_member(c, "hostnameHash"@)
        &&& hash_member(c, "gitEmailHash"@)
        &&& 2 <= c.items("macHashes"@).len() <= 5
        &&& forall|i: int|
            0 <= i < c.items("macHashes"@).len() ==> ((#[trigger] c.items("macHashes"@)[i]) matches JsonV::Str(h)
                && util::is_hash(h))
        &&& known_cpu(c)
        &&& c.get("platform"@) == Some(JsonV::Str(profile.platform))
        &&& c.get("arch"@) == Some(JsonV::Str(profile.arch))
        &&& c.get("osRelease"@) == Some(JsonV::Str(profile.os_release))
        &&& c.get("isContainer"@) == Some(JsonV::Bool(profile.is_container))
    }
}

/// The fingerprint of the device that belongs to a key: a function of the salt, the key and the
/// profile alone.
pub fn generate_fingerprint(salt: &str, api_key: &str, profile: &DeviceProfile) -> (r: Json)
    ensures
        r@ == fingerprint_of(salt@, api_key@, profile@),
        has_form(r@, profile@),
{
    let (cpu_model, cpu_count) = pick_cpu(salt, api_key);
    let mem_gib = pick_number(salt, api_key, "mem", mems());
    let zones = time_zones();
    assert(strs_of(zones@).len() == zones@.len());
    let timezone = pick_text(salt, api_key, "timezone", zones);
    let users = os_users();
    assert(strs_of(users@).len() == users@.len());
    let os_user = pick_text(salt, api_key, "osUser", users);
    let domains = mail_domains();
    assert(strs_of(domains@).len() == domains@.len());
    let mail_domain = pick_text(salt, api_key, "mailDomain", domains);

    let machine_id = machine_id(salt, api_key);
    let macs = macs(salt, api_key);
    let hostname = cat("DESKTOP-", upper(hex_of(salt, api_key, "hostname", 4).as_str()).as_str());
    let git_email = cat5(os_user, ".", hex_of(salt, api_key, "gitEmail", 3).as_str(), "@", mail_domain);

    let seed = cat3(machine_id.as_str(), "|", join(&macs, ",").as_str());
    let thumbmark = sha256_hex(cat3(FP_SALT, "\0machine\0", seed.as_str()).as_str().as_bytes());

    let mac_hashes = fingerprint_hashes(&macs);
    assert(mac_hashes@.len() == text::texts(mac_hashes@).len());
    let components = Json::obj().with_some("machineIdHash", opt_str_value(fingerprint_hash(machine_id.as_str()))).with(
        "macHashes",
        Json::of_strs(&mac_hashes),
    ).with_some("osUserHash", opt_str_value(fingerprint_hash(os_user))).with_some(
        "hostnameHash",
        opt_str_value(fingerprint_hash(hostname.as_str())),
    ).with_some("gitEmailHash", opt_str_value(fingerprint_hash(git_email.as_str()))).with_str(
        "platform",
        profile.platform,
    ).with_str("arch", profile.arch).with_str("osRelease", profile.os_release).with_str("cpuModel", cpu_model).with(
        "cpuCount",
        Json::of_uint(cpu_count as u64),
    ).with("memGiB", Json::of_uint(mem_gib as u64)).with("isContainer", Json::Bool(profile.is_container)).with_str(
        "timezone",
        timezone,
    ).with_str("runtime", "cli").with_int("collectorVersion", 1);
    proof {
        lemma_form(salt@, api_key@, profile@);
    }
    Json::obj().with_str("thumbmark", thumbmark.as_str()).with("components", components)
}

// ── laws ───────────────────────────────────────────────────────

proof fn lemma_after_trans(a: Seq<u8>, b: Seq<u8>, c: Seq<u8>)
    requires
        !bytes_after(a, b),
        bytes_after(c, b),
    ensures
        bytes_after(c, a),
    decreases a.len(),
{
    if a.len() > 0 && b.len() > 0 && c.len() > 0 && a[0] == b[0] && b[0] == c[0] {
        lemma_after_trans(a.skip(1), b.skip(1), c.skip(1));
    }
}

proof fn lemma_after_asym(a: Seq<u8>, b: Seq<u8>)
    requires
        bytes_after(a, b),
    ensures
        !bytes_after(b, a),
    decreases a.len(),
{
    if a.len() > 0 && b.len() > 0 && a[0] == b[0] {
        lemma_after_asym(a.skip(1), b.skip(1));
    }
}

/// The choice is the first candidate of the highest score: none scores higher, and every earlier
/// one scores lower.
pub proof fn pick_is_first_highest(
    salt: Seq<char>,
    api_key: Seq<char>,
    field: Seq<char>,
    labels: Seq<Seq<char>>,
    i: int,
)
    requires
        0 <= i < labels.len(),
    ensures
        0 <= pick(salt, api_key, field, labels) < labels.len(),
        !bytes_after(
            score_of(salt, api_key, field, labels[i]),
            score_of(salt, api_key, field, labels[pick(salt, api_key, field, labels)]),
        ),
        i < pick(salt, api_key, field, labels) ==> bytes_after(
            score_of(salt, api_key, field, labels[pick(salt, api_key, field, labels)]),
            score_of(salt, api_key, field, labels[i]),
        ),
    decreases labels.len(),
{
    lemma_pick_range(salt, api_key, field, labels);
    let r = pick(salt, api_key, field, labels);
    if labels.len() == 1 {
        lemma_irreflexive(score_of(salt, api_key, field, labels[0]));
    } else {
        let fewer = labels.drop_last();
        lemma_pick_range(salt, api_key, field, fewer);
        let b = pick(salt, api_key, field, fewer);
        let top = score_of(salt, api_key, field, labels.last());
        let best = score_of(salt, api_key, field, labels[b]);
        if i < fewer.len() {
            pick_is_first_highest(salt, api_key, field, fewer, i);
            let si = score_of(salt, api_key, field, labels[i]);
            assert(fewer[i] == labels[i]);
            assert(fewer[b] == labels[b]);
            if bytes_after(top, best) {
                lemma_after_trans(si, best, top);
                lemma_after_asym(top, si);
            }
        } else {
            lemma_irreflexive(top);
        }
    }
}

proof fn lemma_irreflexive(a: Seq<u8>)
    ensures
        !bytes_after(a, a),
    decreases a.len(),
{
    if a.len() > 0 {
        lemma_irreflexive(a.skip(1));
    }
}

/// A candidate added to the pool changes the choice of those keys alone for which it is the new
/// choice.
pub proof fn added_candidate_moves_no_other(
    salt: Seq<char>,
    api_key: Seq<char>,
    field: Seq<char>,
    labels: Seq<Seq<char>>,
    added: Seq<char>,
)
    requires
        labels.len() > 0,
    ensures
        pick(salt, api_key, field, labels.push(added)) == pick(salt, api_key, field, labels) || pick(
            salt,
            api_key,
            field,
            labels.push(added),
        ) == labels.len(),
{
    assert(labels.push(added).drop_last() =~= labels);
}

proof fn lemma_text_after_asym(a: Seq<char>, b: Seq<char>)
    requires
        text_after(a, b),
    ensures
        !text_after(b, a),
    decreases a.len(),
{
    if a.len() > 0 && b.len() > 0 && a[0] == b[0] {
        lemma_text_after_asym(a.skip(1), b.skip(1));
    }
}

proof fn lemma_text_not_after_trans(a: Seq<char>, b: Seq<char>, c: Seq<char>)
    requires
        !text_after(a, b),
        !text_after(b, c),
    ensures
        !text_after(a, c),
    decreases a.len(),
{
    if a.len() > 0 && b.len() > 0 && c.len() > 0 && a[0] == b[0] && b[0] == c[0] {
        lemma_text_not_after_trans(a.skip(1), b.skip(1), c.skip(1));
    }
}

proof fn lemma_insert_in_order(v: Seq<Seq<char>>, x: Seq<char>)
    requires
        in_order(v),
    ensures
        in_order(v.insert(place_for(v, x), x)),
        forall|i: int| 0 <= i < place_for(v, x) ==> !text_after(#[trigger] v[i], x),
        forall|i: int| place_for(v, x) <= i < v.len() ==> text_after(#[trigger] v[i], x),
    decreases v.len(),
{
    lemma_place(v, x);
    let p = place_for(v, x);
    if v.len() > 0 && text_after(v.last(), x) {
        lemma_insert_in_order(v.drop_last(), x);
        assert forall|i: int| 0 <= i < p implies !text_after(#[trigger] v[i], x) by {
            assert(v.drop_last()[i] == v[i]);
        }
        assert forall|i: int| p <= i < v.len() implies text_after(#[trigger] v[i], x) by {
            if i < v.len() - 1 {
                assert(v.drop_last()[i] == v[i]);
            }
        }
    } else {
        assert forall|i: int| 0 <= i < p implies !text_after(#[trigger] v[i], x) by {
            if i < v.len() - 1 {
                assert(!text_after(v[i], v[v.len() - 1]));
                lemma_text_not_after_trans(v[i], v.last(), x);
            }
        }
    }
    let w = v.insert(p, x);
    assert forall|i: int, j: int| 0 <= i < j < w.len() implies !text_after(#[trigger] w[i], #[trigger] w[j]) by {
        if i == p {
            assert(w[j] == v[j - 1]);
            lemma_text_after_asym(v[j - 1], x);
        } else if j == p {
            assert(w[i] == v[i]);
        } else {
            let i2 = if i < p { i } else { i - 1 };
            let j2 = if j < p { j } else { j - 1 };
            assert(w[i] == v[i2]);
            assert(w[j] == v[j2]);
        }
    }
}

proof fn lemma_sorted(v: Seq<Seq<char>>)
    ensures
        in_order(sorted(v)),
        sorted(v).to_multiset() == v.to_multiset(),
    decreases v.len(),
{
    broadcast use vstd::seq_lib::group_to_multiset_ensures;
    if v.len() > 0 {
        lemma_sorted(v.drop_last());
        let s = sorted(v.drop_last());
        lemma_insert_in_order(s, v.last());
        lemma_place(s, v.last());
        assert(v =~= v.drop_last().push(v.last()));
        vstd::seq_lib::to_multiset_insert(s, place_for(s, v.last()), v.last());
    }
}

/// The addresses of a device are its two to five made-up ones, in order.
pub proof fn macs_in_order(salt: Seq<char>, api_key: Seq<char>)
    ensures
        2 <= macs_of(salt, api_key).len() <= 5,
        in_order(macs_of(salt, api_key)),
        macs_of(salt, api_key).to_multiset() == Seq::new(
            picked_mac_count(salt, api_key) as nat,
            |i: int| mac_of(salt, api_key, i as nat),
        ).to_multiset(),
{
    broadcast use vstd::seq_lib::group_to_multiset_ensures;
    let all = Seq::new(picked_mac_count(salt, api_key) as nat, |i: int| mac_of(salt, api_key, i as nat));
    lemma_sorted(all);
    lemma_pick_range(salt, api_key, "macCount"@, number_labels(mac_count_table()));
    assert(sorted(all).len() == sorted(all).to_multiset().len());
    assert(all.len() == all.to_multiset().len());
}

proof fn lemma_not_blank(s: Seq<char>, i: int)
    requires
        0 <= i < s.len(),
        !text::is_space(s[i]),
    ensures
        text::trimmed(s).len() > 0,
{
    lemma_trim_front(s, i);
    let f = text::trim_front(s);
    let j = choose|j: int| 0 <= j < f.len() && !text::is_space(#[trigger] f[j]);
    lemma_trim_back(f, j);
}

proof fn lemma_trim_front(s: Seq<char>, i: int)
    requires
        0 <= i < s.len(),
        !text::is_space(s[i]),
    ensures
        exists|j: int| 0 <= j < text::trim_front(s).len() && !text::is_space(#[trigger] text::trim_front(s)[j]),
    decreases s.len(),
{
    if text::is_space(s[0]) {
        assert(s.skip(1)[i - 1] == s[i]);
        lemma_trim_front(s.skip(1), i - 1);
        assert(text::trim_front(s) == text::trim_front(s.skip(1)));
    } else {
        assert(text::trim_front(s)[i] == s[i]);
    }
}

proof fn lemma_trim_back(s: Seq<char>, i: int)
    requires
        0 <= i < s.len(),
        !text::is_space(s[i]),
    ensures
        text::trim_back(s).len() > 0,
    decreases s.len(),
{
    if text::is_space(s.last()) {
        assert(s.drop_last()[i] == s[i]);
        lemma_trim_back(s.drop_last(), i);
    }
}

proof fn lemma_mac_not_blank(d: Seq<u8>)
    ensures
        text::trimmed(mac_form(d)).len() > 0,
{
    reveal_strlit(":");
    let parts = Seq::new(6, |i: int| util::hex_text(d.subrange(i, i + 1)));
    let front = text::joined(parts.drop_last(), ":"@);
    assert(mac_form(d) == front + ":"@ + parts.last());
    assert(mac_form(d)[front.len() as int] == ':');
    lemma_not_blank(mac_form(d), front.len() as int);
}

proof fn lemma_sorted_from(v: Seq<Seq<char>>)
    ensures
        sorted(v).len() == v.len(),
        forall|i: int|
            0 <= i < sorted(v).len() ==> exists|j: int| 0 <= j < v.len() && #[trigger] sorted(v)[i] == #[trigger] v[j],
    decreases v.len(),
{
    if v.len() > 0 {
        let front = v.drop_last();
        lemma_sorted_from(front);
        let s = sorted(front);
        let p = place_for(s, v.last());
        lemma_place(s, v.last());
        assert forall|i: int| 0 <= i < sorted(v).len() implies exists|j: int|
            0 <= j < v.len() && #[trigger] sorted(v)[i] == #[trigger] v[j] by {
            if i == p {
                assert(sorted(v)[i] == v[v.len() - 1]);
            } else {
                let k = if i < p {
                    i
                } else {
                    i - 1
                };
                assert(sorted(v)[i] == s[k]);
                let j = choose|j: int| 0 <= j < front.len() && s[k] == #[trigger] front[j];
                assert(v[j] == front[j]);
            }
        }
    }
}

proof fn lemma_all_hashed(v: Seq<Seq<char>>)
    requires
        forall|i: int| 0 <= i < v.len() ==> text::trimmed(#[trigger] v[i]).len() > 0,
    ensures
        signal_hashes(v).len() == v.len(),
    decreases v.len(),
{
    if v.len() > 0 {
        let front = v.drop_last();
        assert forall|i: int| 0 <= i < front.len() implies text::trimmed(#[trigger] front[i]).len() > 0 by {
            assert(front[i] == v[i]);
        }
        lemma_all_hashed(front);
        assert(text::trimmed(v[v.len() - 1]).len() > 0);
    }
}

proof fn lemma_mac_hashes(salt: Seq<char>, api_key: Seq<char>)
    ensures
        2 <= signal_hashes(macs_of(salt, api_key)).len() <= 5,
{
    let all = Seq::new(picked_mac_count(salt, api_key) as nat, |i: int| mac_of(salt, api_key, i as nat));
    macs_in_order(salt, api_key);
    lemma_sorted_from(all);
    let macs = macs_of(salt, api_key);
    assert forall|i: int| 0 <= i < macs.len() implies text::trimmed(#[trigger] macs[i]).len() > 0 by {
        let j = choose|j: int| 0 <= j < all.len() && macs[i] == #[trigger] all[j];
        lemma_mac_not_blank(field_digest(salt, api_key, "mac"@ + text::decimal(j as nat)));
    }
    lemma_all_hashed(macs);
}

proof fn lemma_signals_not_blank(salt: Seq<char>, api_key: Seq<char>)
    ensures
        signal_hash(machine_id_of(salt, api_key)) is Some,
        signal_hash(os_user_of(salt, api_key)) is Some,
        signal_hash(hostname_of(salt, api_key)) is Some,
        signal_hash(git_email_of(salt, api_key)) is Some,
{
    reveal_strlit("-");
    reveal_strlit(".");
    reveal_strlit("DESKTOP-");
    let id = machine_id_of(salt, api_key);
    let h = field_hex(salt, api_key, "machineId"@, 16);
    let n = h.subrange(0, 8).len() as int;
    assert(id[n] == '-');
    lemma_not_blank(id, n);
    let host = hostname_of(salt, api_key);
    assert(host[0] == "DESKTOP-"@[0]);
    assert("DESKTOP-"@[0] == 'D');
    lemma_not_blank(host, 0);
    let user = os_user_of(salt, api_key);
    lemma_pick_range(salt, api_key, "osUser"@, user_table());
    reveal_strlit("dev");
    reveal_strlit("user");
    reveal_strlit("admin");
    reveal_strlit("coder");
    reveal_strlit("engineer");
    reveal_strlit("work");
    assert("dev"@[0] == 'd' && "user"@[0] == 'u' && "admin"@[0] == 'a' && "coder"@[0] == 'c' && "engineer"@[0] == 'e'
        && "work"@[0] == 'w');
    assert(user.len() > 0 && !text::is_space(user[0]));
    lemma_not_blank(user, 0);
    let mail = git_email_of(salt, api_key);
    assert(mail[user.len() as int] == '.');
    lemma_not_blank(mail, user.len() as int);
}

proof fn lemma_form(salt: Seq<char>, api_key: Seq<char>, profile: DeviceProfileV)
    requires
        util::is_hash(thumbmark_of(machine_id_of(salt, api_key), macs_of(salt, api_key))),
        signal_hash(machine_id_of(salt, api_key)) matches Some(h) ==> util::is_hash(h),
        signal_hash(os_user_of(salt, api_key)) matches Some(h) ==> util::is_hash(h),
        signal_hash(hostname_of(salt, api_key)) matches Some(h) ==> util::is_hash(h),
        signal_hash(git_email_of(salt, api_key)) matches Some(h) ==> util::is_hash(h),
        forall|i: int|
            0 <= i < signal_hashes(macs_of(salt, api_key)).len() ==> util::is_hash(
                #[trigger] signal_hashes(macs_of(salt, api_key))[i],
            ),
    ensures
        has_form(fingerprint_of(salt, api_key, profile), profile),
{
    broadcast use json::group_members;

    lemma_mac_hashes(salt, api_key);
    lemma_signals_not_blank(salt, api_key);
    lemma_pick_range(salt, api_key, "cpu"@, cpu_labels());
    reveal_strlit("thumbmark");
    reveal_strlit("components");
    reveal_strlit("machineIdHash");
    reveal_strlit("macHashes");
    reveal_strlit("osUserHash");
    reveal_strlit("hostnameHash");
    reveal_strlit("gitEmailHash");
    reveal_strlit("platform");
    reveal_strlit("arch");
    reveal_strlit("osRelease");
    reveal_strlit("cpuModel");
    reveal_strlit("cpuCount");
    reveal_strlit("memGiB");
    reveal_strlit("isContainer");
    reveal_strlit("timezone");
    reveal_strlit("runtime");
    reveal_strlit("collectorVersion");
    assert("thumbmark"@.len() == 9 && "components"@.len() == 10);
    assert("machineIdHash"@.len() == 13 && "macHashes"@.len() == 9 && "osUserHash"@.len() == 10);
    assert("hostnameHash"@.len() == 12 && "gitEmailHash"@.len() == 12 && "platform"@.len() == 8 && "arch"@.len() == 4);
    assert("osRelease"@.len() == 9 && "cpuModel"@.len() == 8 && "cpuCount"@.len() == 8 && "memGiB"@.len() == 6);
    assert("isContainer"@.len() == 11 && "timezone"@.len() == 8 && "runtime"@.len() == 7 && "collectorVersion"@.len()
        == 16);
    assert("macHashes"@[0] == 'm' && "osRelease"@[0] == 'o');
    assert("hostnameHash"@[0] == 'h' && "gitEmailHash"@[0] == 'g');
    assert("platform"@[0] == 'p' && "timezone"@[0] == 't' && "cpuModel"@[0] == 'c' && "cpuCount"@[0] == 'c');
    assert("cpuModel"@[3] == 'M' && "cpuCount"@[3] == 'C');
    let c = components_of(salt, api_key, profile);
    let fp = fingerprint_of(salt, api_key, profile);
    assert(c is Object);
    assert(fp.get("components"@) == Some(c));
    assert(hash_member(fp, "thumbmark"@));
    assert(hash_member(c, "machineIdHash"@));
    assert(hash_member(c, "osUserHash"@));
    assert(hash_member(c, "hostnameHash"@));
    assert(hash_member(c, "gitEmailHash"@));
    let hashes = signal_hashes(macs_of(salt, api_key));
    assert(c.get("macHashes"@) == Some(strs_json(hashes)));
    let cpu = picked_cpu(salt, api_key);
    assert(c.get("cpuModel"@) == Some(JsonV::Str(cpu.0)));
    assert(c.get("cpuCount"@) == Some(json::int_json(cpu.1 as int)));
    assert(cpu == cpu_table()[pick(salt, api_key, "cpu"@, cpu_labels())]);
}

/// The project directory is no part of a fingerprint.
pub proof fn directories_make_no_difference(
    salt: Seq<char>,
    api_key: Seq<char>,
    a: DeviceProfileV,
    b: DeviceProfileV,
)
    requires
        a.platform == b.platform,
        a.arch == b.arch,
        a.os_release == b.os_release,
        a.is_container == b.is_container,
    ensures
        fingerprint_of(salt, api_key, a) == fingerprint_of(salt, api_key, b),
{
}

} // verus!
