//! Record normalization: each OS-native record becomes one entry of a keyed
//! JSON object, with the key derived from the record (mount point, interface
//! name, username, sensor label) and the attributes copied verbatim.
//!
//! Collections are folded with map semantics: a repeated key overwrites the
//! earlier entry (last write wins), every other entry is untouched.

use vstd::prelude::*;

use crate::json::{
    arr_push, entry_value, has_key, jv_of, jv_of_entries, jv_of_seq, last_value,
    lemma_jv_of_entries, lemma_obj_insert_all_has_key, lemma_obj_insert_all_push,
    lemma_obj_insert_all_unique, lemma_obj_insert_all_value, obj_insert_all, obj_push, obj_set,
    unique_keys, Json, Jv,
};
use crate::records::{
    CpuCoreRecord, CpuSample, DiskRecord, GroupRecord, LoadAverage, MemoryStats, NetworkRecord,
    ProcessDetail, SensorRecord, SystemIdentity, UserRecord,
};

verus! {

/// An optional string renders as the string or as `null`.
pub open spec fn opt_str_jv(o: Option<String>) -> Jv {
    match o {
        Option::None => Jv::Null,
        Option::Some(s) => Jv::Str(s@),
    }
}

/// An optional counter renders as the number or as `null`.
pub open spec fn opt_uint_jv(o: Option<u64>) -> Jv {
    match o {
        Option::None => Jv::Null,
        Option::Some(n) => Jv::UInt(n),
    }
}

/// An optional id renders as the (widened) number or as `null`.
pub open spec fn opt_u32_jv(o: Option<u32>) -> Jv {
    match o {
        Option::None => Jv::Null,
        Option::Some(n) => Jv::UInt(n as u64),
    }
}

/// An optional double (carried as bits) renders as the number or as `null`.
pub open spec fn opt_float_jv(o: Option<u64>) -> Jv {
    match o {
        Option::None => Jv::Null,
        Option::Some(bits) => Jv::Float(bits),
    }
}

/// A list of strings, in source order.
pub open spec fn str_seq_jv(s: Seq<String>) -> Seq<Jv> {
    Seq::new(s.len(), |i: int| Jv::Str(s[i]@))
}

/// A list of 32-bit ids, in source order.
pub open spec fn u32_seq_jv(s: Seq<u32>) -> Seq<Jv> {
    Seq::new(s.len(), |i: int| Jv::UInt(s[i] as u64))
}

fn json_of_opt_str(o: &Option<String>) -> (r: Json)
    ensures
        jv_of(r) == opt_str_jv(*o),
{
    match o {
        Option::None => Json::Null,
        Option::Some(s) => Json::Str(s.clone()),
    }
}

fn json_of_opt_uint(o: &Option<u64>) -> (r: Json)
    ensures
        jv_of(r) == opt_uint_jv(*o),
{
    match o {
        Option::None => Json::Null,
        Option::Some(n) => Json::UInt(*n),
    }
}

fn json_of_opt_u32(o: &Option<u32>) -> (r: Json)
    ensures
        jv_of(r) == opt_u32_jv(*o),
{
    match o {
        Option::None => Json::Null,
        Option::Some(n) => Json::UInt(*n as u64),
    }
}

fn json_of_opt_float(o: &Option<u64>) -> (r: Json)
    ensures
        jv_of(r) == opt_float_jv(*o),
{
    match o {
        Option::None => Json::Null,
        Option::Some(bits) => Json::Float(*bits),
    }
}

/// An array of strings, order preserved.
fn str_array(xs: &Vec<String>) -> (r: Json)
    ensures
        jv_of(r) == Jv::Arr(str_seq_jv(xs@)),
{
    let mut items: Vec<Json> = Vec::new();
    proof {
        assert(jv_of_seq(items@) =~= str_seq_jv(xs@.subrange(0, 0)));
    }
    let mut i: usize = 0;
    while i < xs.len()
        invariant
            i <= xs@.len(),
            jv_of_seq(items@) == str_seq_jv(xs@.subrange(0, i as int)),
        decreases xs@.len() - i,
    {
        arr_push(&mut items, Json::Str(xs[i].clone()));
        proof {
            assert(str_seq_jv(xs@.subrange(0, i + 1)) =~= str_seq_jv(
                xs@.subrange(0, i as int),
            ).push(Jv::Str(xs@[i as int]@)));
        }
        i += 1;
    }
    proof {
        assert(xs@.subrange(0, xs@.len() as int) =~= xs@);
    }
    Json::Arr(items)
}

/// An array of numeric ids, order preserved.
fn u32_array(xs: &Vec<u32>) -> (r: Json)
    ensures
        jv_of(r) == Jv::Arr(u32_seq_jv(xs@)),
{
    let mut items: Vec<Json> = Vec::new();
    proof {
        assert(jv_of_seq(items@) =~= u32_seq_jv(xs@.subrange(0, 0)));
    }
    let mut i: usize = 0;
    while i < xs.len()
        invariant
            i <= xs@.len(),
            jv_of_seq(items@) == u32_seq_jv(xs@.subrange(0, i as int)),
        decreases xs@.len() - i,
    {
        arr_push(&mut items, Json::UInt(xs[i] as u64));
        proof {
            assert(u32_seq_jv(xs@.subrange(0, i + 1)) =~= u32_seq_jv(
                xs@.subrange(0, i as int),
            ).push(Jv::UInt(xs@[i as int] as u64)));
        }
        i += 1;
    }
    proof {
        assert(xs@.subrange(0, xs@.len() as int) =~= xs@);
    }
    Json::Arr(items)
}

/// Fold raw `(key, value)` entries into an object with map semantics: a
/// later entry overwrites an earlier one that carries the same key.
pub fn obj_from_entries(es: Vec<(String, Json)>) -> (r: Json)
    ensures
        jv_of(r) == Jv::Obj(obj_insert_all(Seq::empty(), jv_of_entries(es@))),
{
    let ghost target = jv_of_entries(es@);
    let mut rest = es;
    let mut pairs: Vec<(String, Json)> = Vec::new();
    let ghost mut k: int = 0;
    proof {
        lemma_jv_of_entries(rest@);
        assert(target.subrange(0, 0) =~= Seq::<(Seq<char>, Jv)>::empty());
        assert(jv_of_entries(pairs@) =~= Seq::<(Seq<char>, Jv)>::empty());
        assert(target.subrange(0, target.len() as int) =~= target);
    }
    while rest.len() > 0
        invariant
            0 <= k <= target.len(),
            k + rest@.len() == target.len(),
            jv_of_entries(rest@) == target.subrange(k, target.len() as int),
            jv_of_entries(pairs@) == obj_insert_all(Seq::empty(), target.subrange(0, k)),
        decreases rest@.len(),
    {
        let ghost rest0 = rest@;
        let e = rest.remove(0);
        proof {
            lemma_jv_of_entries(rest0);
            assert(jv_of_entries(rest0)[0] == (rest0[0].0@, jv_of(rest0[0].1)));
            assert(target.subrange(k, target.len() as int)[0] == target[k]);
            assert(target[k] == (e.0@, jv_of(e.1)));
        }
        obj_set(&mut pairs, e.0, e.1);
        proof {
            lemma_jv_of_entries(rest@);
            assert forall|m: int| 0 <= m < rest@.len() implies jv_of_entries(rest@)[m]
                == target[k + 1 + m] by {
                assert(rest@[m] == rest0[m + 1]);
                assert(jv_of_entries(rest0)[m + 1] == (rest0[m + 1].0@, jv_of(rest0[m + 1].1)));
                assert(target.subrange(k, target.len() as int)[m + 1] == target[k + 1 + m]);
            }
            assert(jv_of_entries(rest@) =~= target.subrange(k + 1, target.len() as int));
            lemma_obj_insert_all_push(Seq::empty(), target.subrange(0, k), target[k]);
            assert(target.subrange(0, k + 1) =~= target.subrange(0, k).push(target[k]));
            assert(jv_of_entries(pairs@) == obj_insert_all(
                Seq::empty(),
                target.subrange(0, k + 1),
            ));
            k = k + 1;
        }
    }
    proof {
        assert(k == target.len());
        assert(target.subrange(0, target.len() as int) =~= target);
    }
    Json::Obj(pairs)
}

/// The memory category: five byte counters.
pub open spec fn memory_value(m: MemoryStats) -> Jv {
    Jv::Obj(
        seq![
            ("total_memory"@, Jv::UInt(m.total_memory)),
            ("available_memory"@, Jv::UInt(m.available_memory)),
            ("used_memory"@, Jv::UInt(m.used_memory)),
            ("total_swap"@, Jv::UInt(m.total_swap)),
            ("used_swap"@, Jv::UInt(m.used_swap)),
        ],
    )
}

/// Build the memory category payload.
pub fn memory_object(m: &MemoryStats) -> (r: Json)
    ensures
        jv_of(r) == memory_value(*m),
{
    let mut pairs: Vec<(String, Json)> = Vec::new();
    proof {
        assert(jv_of_entries(pairs@) =~= Seq::<(Seq<char>, Jv)>::empty());
    }
    obj_push(&mut pairs, "total_memory", Json::UInt(m.total_memory));
    obj_push(&mut pairs, "available_memory", Json::UInt(m.available_memory));
    obj_push(&mut pairs, "used_memory", Json::UInt(m.used_memory));
    obj_push(&mut pairs, "total_swap", Json::UInt(m.total_swap));
    obj_push(&mut pairs, "used_swap", Json::UInt(m.used_swap));
    proof {
        assert(jv_of_entries(pairs@) =~= memory_value(*m)->Obj_0);
    }
    Json::Obj(pairs)
}

/// The load-average category: the three standard windows.
pub open spec fn load_avg_value(l: LoadAverage) -> Jv {
    Jv::Obj(
        seq![
            ("one"@, Jv::Float(l.one)),
            ("five"@, Jv::Float(l.five)),
            ("fifteen"@, Jv::Float(l.fifteen)),
        ],
    )
}

/// Build the load-average category payload.
pub fn load_avg_object(l: &LoadAverage) -> (r: Json)
    ensures
        jv_of(r) == load_avg_value(*l),
{
    let mut pairs: Vec<(String, Json)> = Vec::new();
    proof {
        assert(jv_of_entries(pairs@) =~= Seq::<(Seq<char>, Jv)>::empty());
    }
    obj_push(&mut pairs, "one", Json::Float(l.one));
    obj_push(&mut pairs, "five", Json::Float(l.five));
    obj_push(&mut pairs, "fifteen", Json::Float(l.fifteen));
    proof {
        assert(jv_of_entries(pairs@) =~= load_avg_value(*l)->Obj_0);
    }
    Json::Obj(pairs)
}

/// The system category: identity of machine and operating system.
pub open spec fn system_value(s: SystemIdentity) -> Jv {
    Jv::Obj(
        seq![
            ("name"@, opt_str_jv(s.name)),
            ("kernel_version"@, opt_str_jv(s.kernel_version)),
            ("os_version"@, opt_str_jv(s.os_version)),
            ("long_os_version"@, opt_str_jv(s.long_os_version)),
            ("host_name"@, opt_str_jv(s.host_name)),
            ("boot_time"@, Jv::UInt(s.boot_time)),
            ("cpu_arch"@, opt_str_jv(s.cpu_arch)),
            ("distribution_id"@, Jv::Str(s.distribution_id@)),
            ("uptime"@, Jv::UInt(s.uptime)),
        ],
    )
}

/// Build the system category payload.
pub fn system_object(s: &SystemIdentity) -> (r: Json)
    ensures
        jv_of(r) == system_value(*s),
{
    let mut pairs: Vec<(String, Json)> = Vec::new();
    proof {
        assert(jv_of_entries(pairs@) =~= Seq::<(Seq<char>, Jv)>::empty());
    }
    obj_push(&mut pairs, "name", json_of_opt_str(&s.name));
    obj_push(&mut pairs, "kernel_version", json_of_opt_str(&s.kernel_version));
    obj_push(&mut pairs, "os_version", json_of_opt_str(&s.os_version));
    obj_push(&mut pairs, "long_os_version", json_of_opt_str(&s.long_os_version));
    obj_push(&mut pairs, "host_name", json_of_opt_str(&s.host_name));
    obj_push(&mut pairs, "boot_time", Json::UInt(s.boot_time));
    obj_push(&mut pairs, "cpu_arch", json_of_opt_str(&s.cpu_arch));
    obj_push(&mut pairs, "distribution_id", Json::Str(s.distribution_id.clone()));
    obj_push(&mut pairs, "uptime", Json::UInt(s.uptime));
    proof {
        assert(jv_of_entries(pairs@) =~= system_value(*s)->Obj_0);
    }
    Json::Obj(pairs)
}

/// The attributes of one disk.
pub open spec fn disk_value(d: DiskRecord) -> Jv {
    Jv::Obj(
        seq![
            ("name"@, Jv::Str(d.name@)),
            ("kind"@, Jv::Str(d.kind@)),
            ("file_system"@, Jv::Str(d.file_system@)),
            ("total_space"@, Jv::UInt(d.total_space)),
            ("available_space"@, Jv::UInt(d.available_space)),
            ("is_removable"@, Jv::Bool(d.is_removable)),
        ],
    )
}

/// Normalize one disk: the key is its mount point, verbatim.
pub fn disk_entry(d: &DiskRecord) -> (r: (String, Json))
    ensures
        r.0@ == d.mount_point@,
        jv_of(r.1) == disk_value(*d),
{
    let mut pairs: Vec<(String, Json)> = Vec::new();
    proof {
        assert(jv_of_entries(pairs@) =~= Seq::<(Seq<char>, Jv)>::empty());
    }
    obj_push(&mut pairs, "name", Json::Str(d.name.clone()));
    obj_push(&mut pairs, "kind", Json::Str(d.kind.clone()));
    obj_push(&mut pairs, "file_system", Json::Str(d.file_system.clone()));
    obj_push(&mut pairs, "total_space", Json::UInt(d.total_space));
    obj_push(&mut pairs, "available_space", Json::UInt(d.available_space));
    obj_push(&mut pairs, "is_removable", Json::Bool(d.is_removable));
    proof {
        assert(jv_of_entries(pairs@) =~= disk_value(*d)->Obj_0);
    }
    (d.mount_point.clone(), Json::Obj(pairs))
}

/// The attributes of one network interface.
pub open spec fn network_value(n: NetworkRecord) -> Jv {
    Jv::Obj(
        seq![
            ("mac_address"@, Jv::Str(n.mac_address@)),
            ("ip_networks"@, Jv::Arr(str_seq_jv(n.ip_networks@))),
            ("received"@, Jv::UInt(n.received)),
            ("total_received"@, Jv::UInt(n.total_received)),
            ("transmitted"@, Jv::UInt(n.transmitted)),
            ("total_transmitted"@, Jv::UInt(n.total_transmitted)),
            ("packets_received"@, Jv::UInt(n.packets_received)),
            ("total_packets_received"@, Jv::UInt(n.total_packets_received)),
            ("packets_transmitted"@, Jv::UInt(n.packets_transmitted)),
            ("total_packets_transmitted"@, Jv::UInt(n.total_packets_transmitted)),
            ("errors_on_received"@, Jv::UInt(n.errors_on_received)),
            ("total_errors_on_received"@, Jv::UInt(n.total_errors_on_received)),
            ("errors_on_transmitted"@, Jv::UInt(n.errors_on_transmitted)),
            ("total_errors_on_transmitted"@, Jv::UInt(n.total_errors_on_transmitted)),
        ],
    )
}

/// Normalize one network interface: the key is the interface name, verbatim;
/// the IP network list keeps its source order.
pub fn network_entry(n: &NetworkRecord) -> (r: (String, Json))
    ensures
        r.0@ == n.interface_name@,
        jv_of(r.1) == network_value(*n),
{
    let mut pairs: Vec<(String, Json)> = Vec::new();
    proof {
        assert(jv_of_entries(pairs@) =~= Seq::<(Seq<char>, Jv)>::empty());
    }
    obj_push(&mut pairs, "mac_address", Json::Str(n.mac_address.clone()));
    obj_push(&mut pairs, "ip_networks", str_array(&n.ip_networks));
    obj_push(&mut pairs, "received", Json::UInt(n.received));
    obj_push(&mut pairs, "total_received", Json::UInt(n.total_received));
    obj_push(&mut pairs, "transmitted", Json::UInt(n.transmitted));
    obj_push(&mut pairs, "total_transmitted", Json::UInt(n.total_transmitted));
    obj_push(&mut pairs, "packets_received", Json::UInt(n.packets_received));
    obj_push(&mut pairs, "total_packets_received", Json::UInt(n.total_packets_received));
    obj_push(&mut pairs, "packets_transmitted", Json::UInt(n.packets_transmitted));
    obj_push(&mut pairs, "total_packets_transmitted", Json::UInt(n.total_packets_transmitted));
    obj_push(&mut pairs, "errors_on_received", Json::UInt(n.errors_on_received));
    obj_push(&mut pairs, "total_errors_on_received", Json::UInt(n.total_errors_on_received));
    obj_push(&mut pairs, "errors_on_transmitted", Json::UInt(n.errors_on_transmitted));
    obj_push(
        &mut pairs,
        "total_errors_on_transmitted",
        Json::UInt(n.total_errors_on_transmitted),
    );
    proof {
        assert(jv_of_entries(pairs@) =~= network_value(*n)->Obj_0);
    }
    (n.interface_name.clone(), Json::Obj(pairs))
}

/// The attributes of one thermal sensor: each temperature the sensor did
/// not report is `null`.
pub open spec fn sensor_value(s: SensorRecord) -> Jv {
    Jv::Obj(
        seq![
            ("temperature"@, opt_float_jv(s.temperature)),
            ("max"@, opt_float_jv(s.max)),
            ("critical"@, opt_float_jv(s.critical)),
        ],
    )
}

/// Normalize one thermal sensor: the key is its label, verbatim.
pub fn sensor_entry(s: &SensorRecord) -> (r: (String, Json))
    ensures
        r.0@ == s.label@,
        jv_of(r.1) == sensor_value(*s),
{
    let mut pairs: Vec<(String, Json)> = Vec::new();
    proof {
        assert(jv_of_entries(pairs@) =~= Seq::<(Seq<char>, Jv)>::empty());
    }
    obj_push(&mut pairs, "temperature", json_of_opt_float(&s.temperature));
    obj_push(&mut pairs, "max", json_of_opt_float(&s.max));
    obj_push(&mut pairs, "critical", json_of_opt_float(&s.critical));
    proof {
        assert(jv_of_entries(pairs@) =~= sensor_value(*s)->Obj_0);
    }
    (s.label.clone(), Json::Obj(pairs))
}

/// A user's group memberships as `(group name, group id)` entries, folded
/// with map semantics (a repeated group name keeps the last id).
pub open spec fn group_entries_jv(s: Seq<GroupRecord>) -> Seq<(Seq<char>, Jv)> {
    Seq::new(s.len(), |i: int| (s[i].name@, Jv::UInt(s[i].id as u64)))
}

/// The attributes of one user: the groups object.
pub open spec fn user_value(u: UserRecord) -> Jv {
    Jv::Obj(
        seq![("groups"@, Jv::Obj(obj_insert_all(Seq::empty(), group_entries_jv(u.groups@))))],
    )
}

/// Normalize one user: the key is the username, verbatim; the value maps
/// each group name to its id.
pub fn user_entry(u: &UserRecord) -> (r: (String, Json))
    ensures
        r.0@ == u.name@,
        jv_of(r.1) == user_value(*u),
{
    let mut raw: Vec<(String, Json)> = Vec::new();
    proof {
        assert(jv_of_entries(raw@) =~= group_entries_jv(u.groups@.subrange(0, 0)));
    }
    let mut i: usize = 0;
    while i < u.groups.len()
        invariant
            i <= u.groups@.len(),
            jv_of_entries(raw@) == group_entries_jv(u.groups@.subrange(0, i as int)),
        decreases u.groups@.len() - i,
    {
        let ghost raw0 = raw@;
        let g = &u.groups[i];
        raw.push((g.name.clone(), Json::UInt(g.id as u64)));
        proof {
            lemma_jv_of_entries(raw0);
            lemma_jv_of_entries(raw@);
            assert forall|m: int| 0 <= m < raw@.len() implies jv_of_entries(raw@)[m]
                == group_entries_jv(u.groups@.subrange(0, i + 1))[m] by {
                assert(u.groups@.subrange(0, i + 1)[m] == u.groups@[m]);
                if m < i as int {
                    assert(raw@[m] == raw0[m]);
                    assert(jv_of_entries(raw0)[m] == group_entries_jv(
                        u.groups@.subrange(0, i as int),
                    )[m]);
                    assert(u.groups@.subrange(0, i as int)[m] == u.groups@[m]);
                } else {
                    assert(raw@[m].0@ == u.groups@[i as int].name@);
                    assert(jv_of(raw@[m].1) == Jv::UInt(u.groups@[i as int].id as u64));
                }
            }
            assert(jv_of_entries(raw@) =~= group_entries_jv(u.groups@.subrange(0, i + 1)));
        }
        i += 1;
    }
    proof {
        assert(u.groups@.subrange(0, u.groups@.len() as int) =~= u.groups@);
    }
    let groups = obj_from_entries(raw);
    let mut pairs: Vec<(String, Json)> = Vec::new();
    proof {
        assert(jv_of_entries(pairs@) =~= Seq::<(Seq<char>, Jv)>::empty());
    }
    obj_push(&mut pairs, "groups", groups);
    proof {
        assert(jv_of_entries(pairs@) =~= user_value(*u)->Obj_0);
    }
    (u.name.clone(), Json::Obj(pairs))
}

/// One logical core of the CPU category.
pub open spec fn core_value(c: CpuCoreRecord) -> Jv {
    Jv::Obj(
        seq![
            ("name"@, Jv::Str(c.name@)),
            ("brand"@, Jv::Str(c.brand@)),
            ("vendor_id"@, Jv::Str(c.vendor_id@)),
            ("frequency"@, Jv::UInt(c.frequency)),
            ("cpu_usage"@, Jv::Float(c.usage)),
        ],
    )
}

/// The per-core list of the CPU category, in provider order.
pub open spec fn cores_jv(s: Seq<CpuCoreRecord>) -> Seq<Jv> {
    Seq::new(s.len(), |i: int| core_value(s[i]))
}

/// The CPU category: core count, global usage, and the ordered core list,
/// all taken from the post-wait reading.
pub open spec fn cpu_value(s: CpuSample) -> Jv {
    Jv::Obj(
        seq![
            ("physical_core_count"@, opt_uint_jv(s.physical_core_count)),
            ("global_cpu_usage"@, Jv::Float(s.reading.global_usage)),
            ("cpus"@, Jv::Arr(cores_jv(s.reading.cores@))),
        ],
    )
}

/// Build one core's object.
fn core_object(c: &CpuCoreRecord) -> (r: Json)
    ensures
        jv_of(r) == core_value(*c),
{
    let mut pairs: Vec<(String, Json)> = Vec::new();
    proof {
        assert(jv_of_entries(pairs@) =~= Seq::<(Seq<char>, Jv)>::empty());
    }
    obj_push(&mut pairs, "name", Json::Str(c.name.clone()));
    obj_push(&mut pairs, "brand", Json::Str(c.brand.clone()));
    obj_push(&mut pairs, "vendor_id", Json::Str(c.vendor_id.clone()));
    obj_push(&mut pairs, "frequency", Json::UInt(c.frequency));
    obj_push(&mut pairs, "cpu_usage", Json::Float(c.usage));
    proof {
        assert(jv_of_entries(pairs@) =~= core_value(*c)->Obj_0);
    }
    Json::Obj(pairs)
}

/// Build the CPU category payload.
pub fn cpu_object(s: &CpuSample) -> (r: Json)
    ensures
        jv_of(r) == cpu_value(*s),
{
    let mut items: Vec<Json> = Vec::new();
    proof {
        assert(jv_of_seq(items@) =~= cores_jv(s.reading.cores@.subrange(0, 0)));
    }
    let mut i: usize = 0;
    while i < s.reading.cores.len()
        invariant
            i <= s.reading.cores@.len(),
            jv_of_seq(items@) == cores_jv(s.reading.cores@.subrange(0, i as int)),
        decreases s.reading.cores@.len() - i,
    {
        arr_push(&mut items, core_object(&s.reading.cores[i]));
        proof {
            assert(cores_jv(s.reading.cores@.subrange(0, i + 1)) =~= cores_jv(
                s.reading.cores@.subrange(0, i as int),
            ).push(core_value(s.reading.cores@[i as int])));
        }
        i += 1;
    }
    proof {
        assert(s.reading.cores@.subrange(0, s.reading.cores@.len() as int) =~= s.reading.cores@);
    }
    let mut pairs: Vec<(String, Json)> = Vec::new();
    proof {
        assert(jv_of_entries(pairs@) =~= Seq::<(Seq<char>, Jv)>::empty());
    }
    obj_push(&mut pairs, "physical_core_count", json_of_opt_uint(&s.physical_core_count));
    obj_push(&mut pairs, "global_cpu_usage", Json::Float(s.reading.global_usage));
    obj_push(&mut pairs, "cpus", Json::Arr(items));
    proof {
        assert(jv_of_entries(pairs@) =~= cpu_value(*s)->Obj_0);
    }
    Json::Obj(pairs)
}

/// Disk I/O of one process.
pub open spec fn process_disk_usage_value(d: crate::records::ProcessDiskUsage) -> Jv {
    Jv::Obj(
        seq![
            ("total_written_bytes"@, Jv::UInt(d.total_written_bytes)),
            ("written_bytes"@, Jv::UInt(d.written_bytes)),
            ("total_read_bytes"@, Jv::UInt(d.total_read_bytes)),
            ("read_bytes"@, Jv::UInt(d.read_bytes)),
        ],
    )
}

/// The task list of one process: absent, or the ids in source order.
pub open spec fn tasks_jv(t: Option<Vec<u32>>) -> Jv {
    match t {
        Option::None => Jv::Null,
        Option::Some(ids) => Jv::Arr(u32_seq_jv(ids@)),
    }
}

/// Everything reported about one process, as one object. The command line
/// and environment keep their source order.
pub open spec fn process_value(p: ProcessDetail) -> Jv {
    Jv::Obj(
        seq![
            ("name"@, Jv::Str(p.name@)),
            ("cmd"@, Jv::Arr(str_seq_jv(p.cmd@))),
            ("exe"@, opt_str_jv(p.exe)),
            ("cwd"@, opt_str_jv(p.cwd)),
            ("root"@, opt_str_jv(p.root)),
            ("memory"@, Jv::UInt(p.memory)),
            ("virtual_memory"@, Jv::UInt(p.virtual_memory)),
            ("parent"@, opt_u32_jv(p.parent)),
            ("session_id"@, opt_u32_jv(p.session_id)),
            ("tasks"@, tasks_jv(p.tasks)),
            ("user_id"@, opt_u32_jv(p.user_id)),
            ("effective_user_id"@, opt_u32_jv(p.effective_user_id)),
            ("group_id"@, opt_u32_jv(p.group_id)),
            ("effective_group_id"@, opt_u32_jv(p.effective_group_id)),
            ("status"@, Jv::Str(p.status@)),
            ("start_time"@, Jv::UInt(p.start_time)),
            ("run_time"@, Jv::UInt(p.run_time)),
            ("cpu_usage"@, Jv::Float(p.cpu_usage)),
            ("disk_usage"@, process_disk_usage_value(p.disk_usage)),
            ("thread_kind"@, opt_str_jv(p.thread_kind)),
            ("environ"@, Jv::Arr(str_seq_jv(p.environ@))),
        ],
    )
}

/// Build the full object for one process.
pub fn process_object(p: &ProcessDetail) -> (r: Json)
    ensures
        jv_of(r) == process_value(*p),
{
    let mut du: Vec<(String, Json)> = Vec::new();
    proof {
        assert(jv_of_entries(du@) =~= Seq::<(Seq<char>, Jv)>::empty());
    }
    obj_push(&mut du, "total_written_bytes", Json::UInt(p.disk_usage.total_written_bytes));
    obj_push(&mut du, "written_bytes", Json::UInt(p.disk_usage.written_bytes));
    obj_push(&mut du, "total_read_bytes", Json::UInt(p.disk_usage.total_read_bytes));
    obj_push(&mut du, "read_bytes", Json::UInt(p.disk_usage.read_bytes));
    proof {
        assert(jv_of_entries(du@) =~= process_disk_usage_value(p.disk_usage)->Obj_0);
    }
    let disk_usage = Json::Obj(du);

    let tasks = match &p.tasks {
        Option::None => Json::Null,
        Option::Some(ids) => u32_array(ids),
    };

    let mut pairs: Vec<(String, Json)> = Vec::new();
    proof {
        assert(jv_of_entries(pairs@) =~= Seq::<(Seq<char>, Jv)>::empty());
    }
    obj_push(&mut pairs, "name", Json::Str(p.name.clone()));
    obj_push(&mut pairs, "cmd", str_array(&p.cmd));
    obj_push(&mut pairs, "exe", json_of_opt_str(&p.exe));
    obj_push(&mut pairs, "cwd", json_of_opt_str(&p.cwd));
    obj_push(&mut pairs, "root", json_of_opt_str(&p.root));
    obj_push(&mut pairs, "memory", Json::UInt(p.memory));
    obj_push(&mut pairs, "virtual_memory", Json::UInt(p.virtual_memory));
    obj_push(&mut pairs, "parent", json_of_opt_u32(&p.parent));
    obj_push(&mut pairs, "session_id", json_of_opt_u32(&p.session_id));
    obj_push(&mut pairs, "tasks", tasks);
    obj_push(&mut pairs, "user_id", json_of_opt_u32(&p.user_id));
    obj_push(&mut pairs, "effective_user_id", json_of_opt_u32(&p.effective_user_id));
    obj_push(&mut pairs, "group_id", json_of_opt_u32(&p.group_id));
    obj_push(&mut pairs, "effective_group_id", json_of_opt_u32(&p.effective_group_id));
    obj_push(&mut pairs, "status", Json::Str(p.status.clone()));
    obj_push(&mut pairs, "start_time", Json::UInt(p.start_time));
    obj_push(&mut pairs, "run_time", Json::UInt(p.run_time));
    obj_push(&mut pairs, "cpu_usage", Json::Float(p.cpu_usage));
    obj_push(&mut pairs, "disk_usage", disk_usage);
    obj_push(&mut pairs, "thread_kind", json_of_opt_str(&p.thread_kind));
    obj_push(&mut pairs, "environ", str_array(&p.environ));
    proof {
        assert(jv_of_entries(pairs@) =~= process_value(*p)->Obj_0);
    }
    Json::Obj(pairs)
}

/// The raw `(key, value)` entry sequence of a disk list.
pub open spec fn disk_entries_jv(s: Seq<DiskRecord>) -> Seq<(Seq<char>, Jv)> {
    Seq::new(s.len(), |i: int| (s[i].mount_point@, disk_value(s[i])))
}

/// The disk category: one entry per mount point, last write wins.
pub open spec fn disks_value(s: Seq<DiskRecord>) -> Jv {
    Jv::Obj(obj_insert_all(Seq::empty(), disk_entries_jv(s)))
}

/// Build the disk category payload.
pub fn disks_object(ds: &Vec<DiskRecord>) -> (r: Json)
    ensures
        jv_of(r) == disks_value(ds@),
{
    let mut raw: Vec<(String, Json)> = Vec::new();
    proof {
        assert(jv_of_entries(raw@) =~= disk_entries_jv(ds@.subrange(0, 0)));
    }
    let mut i: usize = 0;
    while i < ds.len()
        invariant
            i <= ds@.len(),
            jv_of_entries(raw@) == disk_entries_jv(ds@.subrange(0, i as int)),
        decreases ds@.len() - i,
    {
        let ghost raw0 = raw@;
        let e = disk_entry(&ds[i]);
        let ghost ekey = e.0@;
        let ghost evalue = jv_of(e.1);
        raw.push(e);
        proof {
            lemma_jv_of_entries(raw0);
            lemma_jv_of_entries(raw@);
            assert forall|m: int| 0 <= m < raw@.len() implies jv_of_entries(raw@)[m]
                == disk_entries_jv(ds@.subrange(0, i + 1))[m] by {
                assert(ds@.subrange(0, i + 1)[m] == ds@[m]);
                if m < i as int {
                    assert(raw@[m] == raw0[m]);
                    assert(jv_of_entries(raw0)[m] == disk_entries_jv(
                        ds@.subrange(0, i as int),
                    )[m]);
                    assert(ds@.subrange(0, i as int)[m] == ds@[m]);
                } else {
                    assert(raw@[m].0@ == ekey);
                    assert(jv_of(raw@[m].1) == evalue);
                    assert(ekey == ds@[i as int].mount_point@);
                    assert(evalue == disk_value(ds@[i as int]));
                }
            }
            assert(jv_of_entries(raw@) =~= disk_entries_jv(ds@.subrange(0, i + 1)));
        }
        i += 1;
    }
    proof {
        assert(ds@.subrange(0, ds@.len() as int) =~= ds@);
    }
    obj_from_entries(raw)
}

/// The raw `(key, value)` entry sequence of an interface list.
pub open spec fn network_entries_jv(s: Seq<NetworkRecord>) -> Seq<(Seq<char>, Jv)> {
    Seq::new(s.len(), |i: int| (s[i].interface_name@, network_value(s[i])))
}

/// The network category: one entry per interface name, last write wins.
pub open spec fn networks_value(s: Seq<NetworkRecord>) -> Jv {
    Jv::Obj(obj_insert_all(Seq::empty(), network_entries_jv(s)))
}

/// Build the network category payload.
pub fn networks_object(ns: &Vec<NetworkRecord>) -> (r: Json)
    ensures
        jv_of(r) == networks_value(ns@),
{
    let mut raw: Vec<(String, Json)> = Vec::new();
    proof {
        assert(jv_of_entries(raw@) =~= network_entries_jv(ns@.subrange(0, 0)));
    }
    let mut i: usize = 0;
    while i < ns.len()
        invariant
            i <= ns@.len(),
            jv_of_entries(raw@) == network_entries_jv(ns@.subrange(0, i as int)),
        decreases ns@.len() - i,
    {
        let ghost raw0 = raw@;
        let e = network_entry(&ns[i]);
        let ghost ekey = e.0@;
        let ghost evalue = jv_of(e.1);
        raw.push(e);
        proof {
            lemma_jv_of_entries(raw0);
            lemma_jv_of_entries(raw@);
            assert forall|m: int| 0 <= m < raw@.len() implies jv_of_entries(raw@)[m]
                == network_entries_jv(ns@.subrange(0, i + 1))[m] by {
                assert(ns@.subrange(0, i + 1)[m] == ns@[m]);
                if m < i as int {
                    assert(raw@[m] == raw0[m]);
                    assert(jv_of_entries(raw0)[m] == network_entries_jv(
                        ns@.subrange(0, i as int),
                    )[m]);
                    assert(ns@.subrange(0, i as int)[m] == ns@[m]);
                } else {
                    assert(raw@[m].0@ == ekey);
                    assert(jv_of(raw@[m].1) == evalue);
                    assert(ekey == ns@[i as int].interface_name@);
                    assert(evalue == network_value(ns@[i as int]));
                }
            }
            assert(jv_of_entries(raw@) =~= network_entries_jv(ns@.subrange(0, i + 1)));
        }
        i += 1;
    }
    proof {
        assert(ns@.subrange(0, ns@.len() as int) =~= ns@);
    }
    obj_from_entries(raw)
}

/// The raw `(key, value)` entry sequence of a sensor list.
pub open spec fn sensor_entries_jv(s: Seq<SensorRecord>) -> Seq<(Seq<char>, Jv)> {
    Seq::new(s.len(), |i: int| (s[i].label@, sensor_value(s[i])))
}

/// The temperature category: one entry per label; a repeated label is
/// overwritten by the later sensor (the source's map semantics, kept as-is).
pub open spec fn sensors_value(s: Seq<SensorRecord>) -> Jv {
    Jv::Obj(obj_insert_all(Seq::empty(), sensor_entries_jv(s)))
}

/// Build the temperature category payload.
pub fn sensors_object(ss: &Vec<SensorRecord>) -> (r: Json)
    ensures
        jv_of(r) == sensors_value(ss@),
{
    let mut raw: Vec<(String, Json)> = Vec::new();
    proof {
        assert(jv_of_entries(raw@) =~= sensor_entries_jv(ss@.subrange(0, 0)));
    }
    let mut i: usize = 0;
    while i < ss.len()
        invariant
            i <= ss@.len(),
            jv_of_entries(raw@) == sensor_entries_jv(ss@.subrange(0, i as int)),
        decreases ss@.len() - i,
    {
        let ghost raw0 = raw@;
        let e = sensor_entry(&ss[i]);
        let ghost ekey = e.0@;
        let ghost evalue = jv_of(e.1);
        raw.push(e);
        proof {
            lemma_jv_of_entries(raw0);
            lemma_jv_of_entries(raw@);
            assert forall|m: int| 0 <= m < raw@.len() implies jv_of_entries(raw@)[m]
                == sensor_entries_jv(ss@.subrange(0, i + 1))[m] by {
                assert(ss@.subrange(0, i + 1)[m] == ss@[m]);
                if m < i as int {
                    assert(raw@[m] == raw0[m]);
                    assert(jv_of_entries(raw0)[m] == sensor_entries_jv(
                        ss@.subrange(0, i as int),
                    )[m]);
                    assert(ss@.subrange(0, i as int)[m] == ss@[m]);
                } else {
                    assert(raw@[m].0@ == ekey);
                    assert(jv_of(raw@[m].1) == evalue);
                    assert(ekey == ss@[i as int].label@);
                    assert(evalue == sensor_value(ss@[i as int]));
                }
            }
            assert(jv_of_entries(raw@) =~= sensor_entries_jv(ss@.subrange(0, i + 1)));
        }
        i += 1;
    }
    proof {
        assert(ss@.subrange(0, ss@.len() as int) =~= ss@);
    }
    obj_from_entries(raw)
}

/// The raw `(key, value)` entry sequence of a user list.
pub open spec fn user_entries_jv(s: Seq<UserRecord>) -> Seq<(Seq<char>, Jv)> {
    Seq::new(s.len(), |i: int| (s[i].name@, user_value(s[i])))
}

/// The user category: one entry per username, last write wins.
pub open spec fn users_value(s: Seq<UserRecord>) -> Jv {
    Jv::Obj(obj_insert_all(Seq::empty(), user_entries_jv(s)))
}

/// Build the user category payload.
pub fn users_object(us: &Vec<UserRecord>) -> (r: Json)
    ensures
        jv_of(r) == users_value(us@),
{
    let mut raw: Vec<(String, Json)> = Vec::new();
    proof {
        assert(jv_of_entries(raw@) =~= user_entries_jv(us@.subrange(0, 0)));
    }
    let mut i: usize = 0;
    while i < us.len()
        invariant
            i <= us@.len(),
            jv_of_entries(raw@) == user_entries_jv(us@.subrange(0, i as int)),
        decreases us@.len() - i,
    {
        let ghost raw0 = raw@;
        let e = user_entry(&us[i]);
        let ghost ekey = e.0@;
        let ghost evalue = jv_of(e.1);
        raw.push(e);
        proof {
            lemma_jv_of_entries(raw0);
            lemma_jv_of_entries(raw@);
            assert forall|m: int| 0 <= m < raw@.len() implies jv_of_entries(raw@)[m]
                == user_entries_jv(us@.subrange(0, i + 1))[m] by {
                assert(us@.subrange(0, i + 1)[m] == us@[m]);
                if m < i as int {
                    assert(raw@[m] == raw0[m]);
                    assert(jv_of_entries(raw0)[m] == user_entries_jv(
                        us@.subrange(0, i as int),
                    )[m]);
                    assert(us@.subrange(0, i as int)[m] == us@[m]);
                } else {
                    assert(raw@[m].0@ == ekey);
                    assert(jv_of(raw@[m].1) == evalue);
                    assert(ekey == us@[i as int].name@);
                    assert(evalue == user_value(us@[i as int]));
                }
            }
            assert(jv_of_entries(raw@) =~= user_entries_jv(us@.subrange(0, i + 1)));
        }
        i += 1;
    }
    proof {
        assert(us@.subrange(0, us@.len() as int) =~= us@);
    }
    obj_from_entries(raw)
}

/// Law: a normalized collection is keyed by exactly the keys derived from
/// its records, with no duplicate entry. Instantiated for each record kind
/// below.
pub proof fn lemma_fold_keys(es: Seq<(Seq<char>, Jv)>, x: Seq<char>)
    ensures
        has_key(obj_insert_all(Seq::empty(), es), x) <==> has_key(es, x),
        unique_keys(obj_insert_all(Seq::empty(), es)),
{
    lemma_obj_insert_all_has_key(Seq::empty(), es, x);
    lemma_obj_insert_all_unique(Seq::empty(), es);
}

/// Law (disks): the derived keys are exactly the mount points, and when
/// every record names its mount point, every key is non-empty.
pub proof fn law_disk_keys(s: Seq<DiskRecord>, x: Seq<char>)
    ensures
        has_key(disks_value(s)->Obj_0, x) <==> (exists|i: int|
            0 <= i < s.len() && s[i].mount_point@ == x),
        unique_keys(disks_value(s)->Obj_0),
        ((forall|i: int| 0 <= i < s.len() ==> s[i].wf()) && has_key(disks_value(s)->Obj_0, x))
            ==> x.len() > 0,
{
    lemma_fold_keys(disk_entries_jv(s), x);
    if has_key(disk_entries_jv(s), x) {
        let i = choose|i: int| 0 <= i < disk_entries_jv(s).len() && disk_entries_jv(s)[i].0 == x;
        assert(s[i].mount_point@ == x);
    }
    if exists|i: int| 0 <= i < s.len() && s[i].mount_point@ == x {
        let i = choose|i: int| 0 <= i < s.len() && s[i].mount_point@ == x;
        assert(disk_entries_jv(s)[i].0 == x);
    }
}

/// Law (network): the derived keys are exactly the interface names.
pub proof fn law_network_keys(s: Seq<NetworkRecord>, x: Seq<char>)
    ensures
        has_key(networks_value(s)->Obj_0, x) <==> (exists|i: int|
            0 <= i < s.len() && s[i].interface_name@ == x),
        unique_keys(networks_value(s)->Obj_0),
        ((forall|i: int| 0 <= i < s.len() ==> s[i].wf()) && has_key(networks_value(s)->Obj_0, x))
            ==> x.len() > 0,
{
    lemma_fold_keys(network_entries_jv(s), x);
    if has_key(network_entries_jv(s), x) {
        let i = choose|i: int|
            0 <= i < network_entries_jv(s).len() && network_entries_jv(s)[i].0 == x;
        assert(s[i].interface_name@ == x);
    }
    if exists|i: int| 0 <= i < s.len() && s[i].interface_name@ == x {
        let i = choose|i: int| 0 <= i < s.len() && s[i].interface_name@ == x;
        assert(network_entries_jv(s)[i].0 == x);
    }
}

/// Law (sensors): the derived keys are exactly the labels; a repeated label
/// collapses to one entry rather than failing.
pub proof fn law_sensor_keys(s: Seq<SensorRecord>, x: Seq<char>)
    ensures
        has_key(sensors_value(s)->Obj_0, x) <==> (exists|i: int|
            0 <= i < s.len() && s[i].label@ == x),
        unique_keys(sensors_value(s)->Obj_0),
        ((forall|i: int| 0 <= i < s.len() ==> s[i].wf()) && has_key(sensors_value(s)->Obj_0, x))
            ==> x.len() > 0,
{
    lemma_fold_keys(sensor_entries_jv(s), x);
    if has_key(sensor_entries_jv(s), x) {
        let i = choose|i: int|
            0 <= i < sensor_entries_jv(s).len() && sensor_entries_jv(s)[i].0 == x;
        assert(s[i].label@ == x);
    }
    if exists|i: int| 0 <= i < s.len() && s[i].label@ == x {
        let i = choose|i: int| 0 <= i < s.len() && s[i].label@ == x;
        assert(sensor_entries_jv(s)[i].0 == x);
    }
}

/// Law (overwrite): when two records derive the same key, the later
/// record's attributes are the ones that stand in the object. For sensors
/// this is the label-collision rule: a repeated label silently overwrites,
/// it never fails the snapshot.
pub proof fn law_sensor_overwrite(s: Seq<SensorRecord>, x: Seq<char>)
    ensures
        has_key(sensor_entries_jv(s), x) ==> entry_value(sensors_value(s)->Obj_0, x)
            == last_value(sensor_entries_jv(s), x),
{
    lemma_obj_insert_all_value(Seq::empty(), sensor_entries_jv(s), x);
}

/// Law (users): the derived keys are exactly the usernames.
pub proof fn law_user_keys(s: Seq<UserRecord>, x: Seq<char>)
    ensures
        has_key(users_value(s)->Obj_0, x) <==> (exists|i: int|
            0 <= i < s.len() && s[i].name@ == x),
        unique_keys(users_value(s)->Obj_0),
        ((forall|i: int| 0 <= i < s.len() ==> s[i].wf()) && has_key(users_value(s)->Obj_0, x))
            ==> x.len() > 0,
{
    lemma_fold_keys(user_entries_jv(s), x);
    if has_key(user_entries_jv(s), x) {
        let i = choose|i: int| 0 <= i < user_entries_jv(s).len() && user_entries_jv(s)[i].0 == x;
        assert(s[i].name@ == x);
    }
    if exists|i: int| 0 <= i < s.len() && s[i].name@ == x {
        let i = choose|i: int| 0 <= i < s.len() && s[i].name@ == x;
        assert(user_entries_jv(s)[i].0 == x);
    }
}

} // verus!
