//! The aggregator: compose the selected category payloads into one JSON
//! document, and the process-mode path that reports one process or `null`.
//!
//! A selected category whose read failed (its snapshot slice is `None`)
//! renders as `null`; it never prevents the other categories from being
//! reported, and no category outside the selection appears at all.

use vstd::prelude::*;

use crate::category::{Category, Selection};
use crate::json::{
    entry_value, has_key, jv_of, jv_of_entries, lemma_entry_value_concat, lemma_has_key_concat,
    lemma_has_key_single, lemma_unique_concat, obj_prepend, obj_push, unique_keys, Json, Jv,
};
use crate::normalize::{
    cpu_object, cpu_value, disks_object, disks_value, load_avg_object, load_avg_value,
    memory_object, memory_value, networks_object, networks_value, process_object, process_value,
    sensors_object, sensors_value, system_object, system_value, users_object, users_value,
};
use crate::records::{MemoryStats, ProcessDetail, SnapshotData};

verus! {

/// The JSON object key under which each category reports.
pub open spec fn category_key(c: Category) -> Seq<char> {
    match c {
        Category::Cpu => "cpu"@,
        Category::Disk => "disk"@,
        Category::LoadAvg => "load-avg"@,
        Category::Memory => "memory"@,
        Category::Network => "network"@,
        Category::Process => "process"@,
        Category::System => "system"@,
        Category::Temperature => "temperature"@,
        Category::User => "user"@,
    }
}

/// The process category in system mode: only a count of live processes.
pub open spec fn process_count_value(n: u64) -> Jv {
    Jv::Obj(seq![("process_count"@, Jv::UInt(n))])
}

/// What one selected category renders to. Each category reads its own slice
/// of the snapshot and nothing else; a slice whose read failed renders as
/// `null` instead of aborting the document.
pub open spec fn category_payload(c: Category, snap: SnapshotData) -> Jv {
    match c {
        Category::Cpu => match snap.cpu {
            Option::None => Jv::Null,
            Option::Some(s) => cpu_value(s),
        },
        Category::Process => match snap.process_count {
            Option::None => Jv::Null,
            Option::Some(n) => process_count_value(n),
        },
        Category::Memory => match snap.memory {
            Option::None => Jv::Null,
            Option::Some(m) => memory_value(m),
        },
        Category::System => match snap.system {
            Option::None => Jv::Null,
            Option::Some(s) => system_value(s),
        },
        Category::User => match snap.users {
            Option::None => Jv::Null,
            Option::Some(us) => users_value(us@),
        },
        Category::Disk => match snap.disks {
            Option::None => Jv::Null,
            Option::Some(ds) => disks_value(ds@),
        },
        Category::Network => match snap.networks {
            Option::None => Jv::Null,
            Option::Some(ns) => networks_value(ns@),
        },
        Category::Temperature => match snap.sensors {
            Option::None => Jv::Null,
            Option::Some(ss) => sensors_value(ss@),
        },
        Category::LoadAvg => match snap.load_avg {
            Option::None => Jv::Null,
            Option::Some(l) => load_avg_value(l),
        },
    }
}

/// The (possibly empty) entry a category contributes to the document.
pub open spec fn maybe_entry(included: bool, k: Seq<char>, v: Jv) -> Seq<(Seq<char>, Jv)> {
    if included {
        seq![(k, v)]
    } else {
        Seq::empty()
    }
}

/// The order in which the categories stand in the document.
pub open spec fn category_order() -> Seq<Category> {
    seq![
        Category::Cpu,
        Category::Process,
        Category::Memory,
        Category::System,
        Category::User,
        Category::Disk,
        Category::Network,
        Category::Temperature,
        Category::LoadAvg,
    ]
}

/// The document entries contributed by the categories of `cats` from
/// position `t` on.
pub open spec fn entries_from(
    cats: Seq<Category>,
    t: int,
    sel: Selection,
    snap: SnapshotData,
) -> Seq<(Seq<char>, Jv)>
    decreases cats.len() - t,
{
    if t < 0 || t >= cats.len() {
        Seq::empty()
    } else {
        maybe_entry(sel.spec_selects(cats[t]), category_key(cats[t]), category_payload(cats[t], snap))
            + entries_from(cats, t + 1, sel, snap)
    }
}

/// The entries of one system-mode document: one entry per selected
/// category, in the fixed category order.
pub open spec fn doc_entries(sel: Selection, snap: SnapshotData) -> Seq<(Seq<char>, Jv)> {
    entries_from(category_order(), 0, sel, snap)
}

/// One system-mode document.
pub open spec fn system_document_jv(sel: Selection, snap: SnapshotData) -> Jv {
    Jv::Obj(doc_entries(sel, snap))
}

/// Different categories report under different keys.
pub proof fn lemma_category_key_injective(c1: Category, c2: Category)
    ensures
        c1 != c2 ==> category_key(c1) != category_key(c2),
{
    reveal_strlit("cpu");
    reveal_strlit("disk");
    reveal_strlit("load-avg");
    reveal_strlit("memory");
    reveal_strlit("network");
    reveal_strlit("process");
    reveal_strlit("system");
    reveal_strlit("temperature");
    reveal_strlit("user");
    if c1 != c2 && category_key(c1) == category_key(c2) {
        assert(category_key(c1)[0] == category_key(c2)[0]);
    }
}

/// A category's key is never empty.
pub proof fn lemma_category_key_nonempty(c: Category)
    ensures
        category_key(c).len() > 0,
{
    reveal_strlit("cpu");
    reveal_strlit("disk");
    reveal_strlit("load-avg");
    reveal_strlit("memory");
    reveal_strlit("network");
    reveal_strlit("process");
    reveal_strlit("system");
    reveal_strlit("temperature");
    reveal_strlit("user");
}

/// A key is present among the entries from `t` on exactly when it belongs to
/// a selected category listed there.
pub proof fn lemma_entries_from_has_key(
    cats: Seq<Category>,
    t: int,
    sel: Selection,
    snap: SnapshotData,
    x: Seq<char>,
)
    requires
        0 <= t,
    ensures
        has_key(entries_from(cats, t, sel, snap), x) <==> exists|u: int|
            t <= u < cats.len() && sel.spec_selects(cats[u]) && category_key(cats[u]) == x,
    decreases cats.len() - t,
{
    if t < 0 || t >= cats.len() {
        assert(!has_key(Seq::<(Seq<char>, Jv)>::empty(), x));
    } else {
        let head = maybe_entry(
            sel.spec_selects(cats[t]),
            category_key(cats[t]),
            category_payload(cats[t], snap),
        );
        let rest = entries_from(cats, t + 1, sel, snap);
        lemma_has_key_concat(head, rest, x);
        lemma_entries_from_has_key(cats, t + 1, sel, snap, x);
        if sel.spec_selects(cats[t]) {
            lemma_has_key_single((category_key(cats[t]), category_payload(cats[t], snap)), x);
        }
        if has_key(head + rest, x) {
            if has_key(head, x) {
                assert(sel.spec_selects(cats[t]) && category_key(cats[t]) == x);
            } else {
                let u = choose|u: int|
                    t + 1 <= u < cats.len() && sel.spec_selects(cats[u]) && category_key(cats[u])
                        == x;
                assert(t <= u < cats.len() && sel.spec_selects(cats[u]) && category_key(cats[u])
                    == x);
            }
        }
        if exists|u: int|
            t <= u < cats.len() && sel.spec_selects(cats[u]) && category_key(cats[u]) == x {
            let u = choose|u: int|
                t <= u < cats.len() && sel.spec_selects(cats[u]) && category_key(cats[u]) == x;
            if u == t {
                assert(has_key(head, x));
            } else {
                assert(t + 1 <= u < cats.len() && sel.spec_selects(cats[u]) && category_key(
                    cats[u],
                ) == x);
            }
        }
    }
}

/// The entries from `t` on never repeat a key, as long as the listed
/// categories are themselves distinct.
pub proof fn lemma_entries_from_unique(
    cats: Seq<Category>,
    t: int,
    sel: Selection,
    snap: SnapshotData,
)
    requires
        forall|u1: int, u2: int| 0 <= u1 < u2 < cats.len() ==> cats[u1] != cats[u2],
    ensures
        unique_keys(entries_from(cats, t, sel, snap)),
    decreases cats.len() - t,
{
    if t < 0 || t >= cats.len() {
    } else {
        let head = maybe_entry(
            sel.spec_selects(cats[t]),
            category_key(cats[t]),
            category_payload(cats[t], snap),
        );
        let rest = entries_from(cats, t + 1, sel, snap);
        lemma_entries_from_unique(cats, t + 1, sel, snap);
        assert(unique_keys(head));
        assert forall|x: Seq<char>| !(has_key(head, x) && has_key(rest, x)) by {
            if has_key(head, x) && has_key(rest, x) {
                lemma_has_key_single(
                    (category_key(cats[t]), category_payload(cats[t], snap)),
                    x,
                );
                lemma_entries_from_has_key(cats, t + 1, sel, snap, x);
                let u = choose|u: int|
                    t + 1 <= u < cats.len() && sel.spec_selects(cats[u]) && category_key(cats[u])
                        == x;
                lemma_category_key_injective(cats[t], cats[u]);
            }
        }
        lemma_unique_concat(head, rest);
    }
}

/// The value stored under a selected category's key is that category's own
/// payload.
pub proof fn lemma_entries_from_value(
    cats: Seq<Category>,
    t: int,
    sel: Selection,
    snap: SnapshotData,
    c: Category,
)
    requires
        0 <= t,
        exists|u: int| t <= u < cats.len() && cats[u] == c,
        sel.spec_selects(c),
    ensures
        entry_value(entries_from(cats, t, sel, snap), category_key(c)) == category_payload(
            c,
            snap,
        ),
    decreases cats.len() - t,
{
    let u0 = choose|u: int| t <= u < cats.len() && cats[u] == c;
    assert(t < cats.len());
    let head = maybe_entry(
        sel.spec_selects(cats[t]),
        category_key(cats[t]),
        category_payload(cats[t], snap),
    );
    let rest = entries_from(cats, t + 1, sel, snap);
    lemma_entry_value_concat(head, rest, category_key(c));
    if cats[t] == c {
        assert(has_key(head, category_key(c))) by {
            assert(head[0] == (category_key(c), category_payload(c, snap)));
        }
        assert(entry_value(head, category_key(c)) == category_payload(c, snap));
    } else {
        lemma_category_key_injective(cats[t], c);
        if sel.spec_selects(cats[t]) {
            lemma_has_key_single(
                (category_key(cats[t]), category_payload(cats[t], snap)),
                category_key(c),
            );
        }
        assert(!has_key(head, category_key(c)));
        assert(t + 1 <= u0 < cats.len() && cats[u0] == c);
        lemma_entries_from_value(cats, t + 1, sel, snap, c);
    }
}

/// Law: the document's key set is exactly the selected categories — a
/// category's key is present when and only when the category is selected,
/// and no key repeats. Together with how `Selection` is resolved this says:
/// the keys are the requested subset, or all nine when nothing was
/// requested.
pub proof fn law_document_keys(sel: Selection, snap: SnapshotData, c: Category)
    ensures
        has_key(doc_entries(sel, snap), category_key(c)) <==> sel.spec_selects(c),
        unique_keys(doc_entries(sel, snap)),
        category_key(c).len() > 0,
{
    lemma_category_key_nonempty(c);
    let cats = category_order();
    assert(cats[0] == Category::Cpu);
    assert(cats[1] == Category::Process);
    assert(cats[2] == Category::Memory);
    assert(cats[3] == Category::System);
    assert(cats[4] == Category::User);
    assert(cats[5] == Category::Disk);
    assert(cats[6] == Category::Network);
    assert(cats[7] == Category::Temperature);
    assert(cats[8] == Category::LoadAvg);
    assert forall|u1: int, u2: int| 0 <= u1 < u2 < cats.len() implies cats[u1] != cats[u2] by {}
    lemma_entries_from_has_key(cats, 0, sel, snap, category_key(c));
    lemma_entries_from_unique(cats, 0, sel, snap);
    if has_key(doc_entries(sel, snap), category_key(c)) {
        let u = choose|u: int|
            0 <= u < cats.len() && sel.spec_selects(cats[u]) && category_key(cats[u])
                == category_key(c);
        lemma_category_key_injective(cats[u], c);
    }
    if sel.spec_selects(c) {
        let u: int = match c {
            Category::Cpu => 0,
            Category::Process => 1,
            Category::Memory => 2,
            Category::System => 3,
            Category::User => 4,
            Category::Disk => 5,
            Category::Network => 6,
            Category::Temperature => 7,
            Category::LoadAvg => 8,
        };
        assert(cats[u] == c && sel.spec_selects(cats[u]) && category_key(cats[u])
            == category_key(c));
    }
}

/// Law: against the request list itself — for a selection resolved from a
/// request list (`Selection::from_requested`), a category's key stands in
/// the document exactly when the category was requested, or always when the
/// request list was empty.
pub proof fn law_document_keys_match_request(
    req: Seq<Category>,
    sel: Selection,
    snap: SnapshotData,
    c: Category,
)
    requires
        forall|d: Category| sel.spec_selects(d) <==> (req.len() == 0 || req.contains(d)),
    ensures
        has_key(doc_entries(sel, snap), category_key(c)) <==> (req.len() == 0 || req.contains(
            c,
        )),
{
    law_document_keys(sel, snap, c);
}

/// Law: each selected category's entry holds exactly that category's
/// payload, computed from that category's slice of the snapshot alone; a
/// slice whose read failed renders as `null` while every other category is
/// untouched.
pub proof fn law_category_isolation(sel: Selection, snap: SnapshotData, c: Category)
    requires
        sel.spec_selects(c),
    ensures
        entry_value(doc_entries(sel, snap), category_key(c)) == category_payload(c, snap),
{
    let cats = category_order();
    let u: int = match c {
        Category::Cpu => 0,
        Category::Process => 1,
        Category::Memory => 2,
        Category::System => 3,
        Category::User => 4,
        Category::Disk => 5,
        Category::Network => 6,
        Category::Temperature => 7,
        Category::LoadAvg => 8,
    };
    assert(cats[u] == c);
    lemma_entries_from_value(cats, 0, sel, snap, c);
}

/// Law: the memory-only document. For a selection that includes exactly the
/// memory category, and a snapshot whose memory read succeeded, the document
/// has the single key `"memory"`, whose value holds the five counters
/// verbatim in their fixed order (unsigned by type). A provider whose used
/// memory lies within its total keeps that bound in the document; the bound
/// itself belongs to the provider's value, which the shaping copies
/// unchanged, so it is assumed here rather than derived.
pub proof fn law_memory_only_document(sel: Selection, snap: SnapshotData, m: MemoryStats)
    requires
        forall|d: Category| sel.spec_selects(d) <==> d == Category::Memory,
        snap.memory == Some(m),
        m.used_memory <= m.total_memory,
    ensures
        doc_entries(sel, snap).len() == 1,
        doc_entries(sel, snap)[0].0 == "memory"@,
        doc_entries(sel, snap)[0].1 == memory_value(m),
        memory_value(m)->Obj_0.len() == 5,
        memory_value(m)->Obj_0[0] == ("total_memory"@, Jv::UInt(m.total_memory)),
        memory_value(m)->Obj_0[1] == ("available_memory"@, Jv::UInt(m.available_memory)),
        memory_value(m)->Obj_0[2] == ("used_memory"@, Jv::UInt(m.used_memory)),
        memory_value(m)->Obj_0[3] == ("total_swap"@, Jv::UInt(m.total_swap)),
        memory_value(m)->Obj_0[4] == ("used_swap"@, Jv::UInt(m.used_swap)),
        memory_value(m)->Obj_0[2].1->UInt_0 <= memory_value(m)->Obj_0[0].1->UInt_0,
{
    let cats = category_order();
    assert(cats[0] == Category::Cpu);
    assert(cats[1] == Category::Process);
    assert(cats[2] == Category::Memory);
    assert(cats[3] == Category::System);
    assert(cats[4] == Category::User);
    assert(cats[5] == Category::Disk);
    assert(cats[6] == Category::Network);
    assert(cats[7] == Category::Temperature);
    assert(cats[8] == Category::LoadAvg);
    assert(sel.spec_selects(Category::Memory));
    assert(!sel.spec_selects(Category::Cpu));
    assert(!sel.spec_selects(Category::Process));
    assert(!sel.spec_selects(Category::System));
    assert(!sel.spec_selects(Category::User));
    assert(!sel.spec_selects(Category::Disk));
    assert(!sel.spec_selects(Category::Network));
    assert(!sel.spec_selects(Category::Temperature));
    assert(!sel.spec_selects(Category::LoadAvg));
    assert(entries_from(cats, 9, sel, snap) =~= Seq::<(Seq<char>, Jv)>::empty());
    assert(entries_from(cats, 8, sel, snap) =~= Seq::<(Seq<char>, Jv)>::empty());
    assert(entries_from(cats, 7, sel, snap) =~= Seq::<(Seq<char>, Jv)>::empty());
    assert(entries_from(cats, 6, sel, snap) =~= Seq::<(Seq<char>, Jv)>::empty());
    assert(entries_from(cats, 5, sel, snap) =~= Seq::<(Seq<char>, Jv)>::empty());
    assert(entries_from(cats, 4, sel, snap) =~= Seq::<(Seq<char>, Jv)>::empty());
    assert(entries_from(cats, 3, sel, snap) =~= Seq::<(Seq<char>, Jv)>::empty());
    assert(category_payload(Category::Memory, snap) == memory_value(m));
    assert(entries_from(cats, 2, sel, snap) =~= seq![("memory"@, memory_value(m))]);
    assert(entries_from(cats, 1, sel, snap) =~= seq![("memory"@, memory_value(m))]);
    assert(entries_from(cats, 0, sel, snap) =~= seq![("memory"@, memory_value(m))]);
}

/// Build the process category payload of system mode.
fn process_count_object(n: u64) -> (r: Json)
    ensures
        jv_of(r) == process_count_value(n),
{
    let mut pairs: Vec<(String, Json)> = Vec::new();
    proof {
        assert(jv_of_entries(pairs@) =~= Seq::<(Seq<char>, Jv)>::empty());
    }
    obj_push(&mut pairs, "process_count", Json::UInt(n));
    proof {
        assert(jv_of_entries(pairs@) =~= process_count_value(n)->Obj_0);
    }
    Json::Obj(pairs)
}

/// Build one system-mode document: one entry per selected category, each
/// holding its payload or `null` where the read failed.
pub fn system_document(sel: &Selection, snap: &SnapshotData) -> (r: Json)
    ensures
        jv_of(r) == system_document_jv(*sel, *snap),
{
    let ghost cats = category_order();
    let mut pairs: Vec<(String, Json)> = Vec::new();
    proof {
        assert(jv_of_entries(pairs@) =~= Seq::<(Seq<char>, Jv)>::empty());
        assert(entries_from(cats, 9, *sel, *snap) =~= Seq::<(Seq<char>, Jv)>::empty());
    }
    if sel.selects(Category::LoadAvg) {
        let payload = match &snap.load_avg {
            Option::None => Json::Null,
            Option::Some(l) => load_avg_object(l),
        };
        obj_prepend(&mut pairs, "load-avg", payload);
    }
    proof {
        assert(cats[8] == Category::LoadAvg);
        assert(jv_of_entries(pairs@) =~= entries_from(cats, 8, *sel, *snap));
    }
    if sel.selects(Category::Temperature) {
        let payload = match &snap.sensors {
            Option::None => Json::Null,
            Option::Some(ss) => sensors_object(ss),
        };
        obj_prepend(&mut pairs, "temperature", payload);
    }
    proof {
        assert(cats[7] == Category::Temperature);
        assert(jv_of_entries(pairs@) =~= entries_from(cats, 7, *sel, *snap));
    }
    if sel.selects(Category::Network) {
        let payload = match &snap.networks {
            Option::None => Json::Null,
            Option::Some(ns) => networks_object(ns),
        };
        obj_prepend(&mut pairs, "network", payload);
    }
    proof {
        assert(cats[6] == Category::Network);
        assert(jv_of_entries(pairs@) =~= entries_from(cats, 6, *sel, *snap));
    }
    if sel.selects(Category::Disk) {
        let payload = match &snap.disks {
            Option::None => Json::Null,
            Option::Some(ds) => disks_object(ds),
        };
        obj_prepend(&mut pairs, "disk", payload);
    }
    proof {
        assert(cats[5] == Category::Disk);
        assert(jv_of_entries(pairs@) =~= entries_from(cats, 5, *sel, *snap));
    }
    if sel.selects(Category::User) {
        let payload = match &snap.users {
            Option::None => Json::Null,
            Option::Some(us) => users_object(us),
        };
        obj_prepend(&mut pairs, "user", payload);
    }
    proof {
        assert(cats[4] == Category::User);
        assert(jv_of_entries(pairs@) =~= entries_from(cats, 4, *sel, *snap));
    }
    if sel.selects(Category::System) {
        let payload = match &snap.system {
            Option::None => Json::Null,
            Option::Some(s) => system_object(s),
        };
        obj_prepend(&mut pairs, "system", payload);
    }
    proof {
        assert(cats[3] == Category::System);
        assert(jv_of_entries(pairs@) =~= entries_from(cats, 3, *sel, *snap));
    }
    if sel.selects(Category::Memory) {
        let payload = match &snap.memory {
            Option::None => Json::Null,
            Option::Some(m) => memory_object(m),
        };
        obj_prepend(&mut pairs, "memory", payload);
    }
    proof {
        assert(cats[2] == Category::Memory);
        assert(jv_of_entries(pairs@) =~= entries_from(cats, 2, *sel, *snap));
    }
    if sel.selects(Category::Process) {
        let payload = match &snap.process_count {
            Option::None => Json::Null,
            Option::Some(n) => process_count_object(*n),
        };
        obj_prepend(&mut pairs, "process", payload);
    }
    proof {
        assert(cats[1] == Category::Process);
        assert(jv_of_entries(pairs@) =~= entries_from(cats, 1, *sel, *snap));
    }
    if sel.selects(Category::Cpu) {
        let payload = match &snap.cpu {
            Option::None => Json::Null,
            Option::Some(s) => cpu_object(s),
        };
        obj_prepend(&mut pairs, "cpu", payload);
    }
    proof {
        assert(cats[0] == Category::Cpu);
        assert(jv_of_entries(pairs@) =~= entries_from(cats, 0, *sel, *snap));
    }
    Json::Obj(pairs)
}

/// The process-mode document: the process's full record, or `null` when no
/// process carries the requested id.
pub open spec fn process_document_jv(p: Option<ProcessDetail>) -> Jv {
    match p {
        Option::None => Jv::Null,
        Option::Some(d) => process_value(d),
    }
}

/// Build the process-mode document. A pid that matched no process renders
/// as the JSON literal `null`: absence is an expected race, not a fault.
pub fn process_document(p: &Option<ProcessDetail>) -> (r: Json)
    ensures
        jv_of(r) == process_document_jv(*p),
{
    match p {
        Option::None => Json::Null,
        Option::Some(d) => process_object(d),
    }
}

/// Law: an absent process renders as `null` — always, on every lookup that
/// found nothing, with nothing else in the document.
pub proof fn law_absent_process_is_null(p: Option<ProcessDetail>)
    requires
        p is None,
    ensures
        process_document_jv(p) == Jv::Null,
{
}

} // verus!
