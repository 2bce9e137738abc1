//! A small JSON value model.
//!
//! The library builds documents as values of [`Json`]; the embedding program
//! turns the finished value into text. Numbers that the operating system
//! reports as IEEE 754 doubles are carried through as their raw bit patterns
//! (`Float`), untouched: the shaping logic never computes with them.

use vstd::prelude::*;

verus! {

/// A JSON value as the library builds it.
///
/// `Float` holds the bit pattern of an IEEE 754 double-precision number; the
/// embedding program converts back and forth at the boundary, so the value
/// passes through the library verbatim.
#[derive(Debug, PartialEq, Eq)]
pub enum Json {
    Null,
    Bool(bool),
    UInt(u64),
    Float(u64),
    Str(String),
    Arr(Vec<Json>),
    Obj(Vec<(String, Json)>),
}

/// The mathematical model of a [`Json`] value: strings become character
/// sequences and vectors become sequences. Object entries keep their order
/// and may, in the raw form, repeat a key; the object-building functions in
/// this module are what establish unique keys.
pub enum Jv {
    Null,
    Bool(bool),
    UInt(u64),
    Float(u64),
    Str(Seq<char>),
    Arr(Seq<Jv>),
    Obj(Seq<(Seq<char>, Jv)>),
}

/// The model of a `Json` value.
pub open spec fn jv_of(j: Json) -> Jv
    decreases j,
{
    match j {
        Json::Null => Jv::Null,
        Json::Bool(b) => Jv::Bool(b),
        Json::UInt(n) => Jv::UInt(n),
        Json::Float(bits) => Jv::Float(bits),
        Json::Str(s) => Jv::Str(s@),
        Json::Arr(items) => Jv::Arr(jv_of_seq(items@)),
        Json::Obj(pairs) => Jv::Obj(jv_of_entries(pairs@)),
    }
}

/// The models of the elements of a sequence of `Json` values, in order.
pub open spec fn jv_of_seq(s: Seq<Json>) -> Seq<Jv>
    decreases s,
{
    if s.len() == 0 {
        Seq::empty()
    } else {
        jv_of_seq(s.subrange(0, s.len() - 1)).push(jv_of(s[s.len() - 1]))
    }
}

/// The models of a sequence of key/value pairs, in order.
pub open spec fn jv_of_entries(s: Seq<(String, Json)>) -> Seq<(Seq<char>, Jv)>
    decreases s,
{
    if s.len() == 0 {
        Seq::empty()
    } else {
        jv_of_entries(s.subrange(0, s.len() - 1)).push(
            (s[s.len() - 1].0@, jv_of(s[s.len() - 1].1)),
        )
    }
}

impl View for Json {
    type V = Jv;

    open spec fn view(&self) -> Jv {
        jv_of(*self)
    }
}

/// `jv_of_seq` is the pointwise model of the elements.
pub proof fn lemma_jv_of_seq(s: Seq<Json>)
    ensures
        jv_of_seq(s).len() == s.len(),
        forall|i: int| 0 <= i < s.len() ==> jv_of_seq(s)[i] == jv_of(s[i]),
    decreases s.len(),
{
    if s.len() > 0 {
        lemma_jv_of_seq(s.subrange(0, s.len() - 1));
        assert forall|i: int| 0 <= i < s.len() implies jv_of_seq(s)[i] == jv_of(s[i]) by {
            if i < s.len() - 1 {
                assert(s.subrange(0, s.len() - 1)[i] == s[i]);
            }
        }
    }
}

/// `jv_of_entries` is the pointwise model of the pairs.
pub proof fn lemma_jv_of_entries(s: Seq<(String, Json)>)
    ensures
        jv_of_entries(s).len() == s.len(),
        forall|i: int| 0 <= i < s.len() ==> jv_of_entries(s)[i] == (s[i].0@, jv_of(s[i].1)),
    decreases s.len(),
{
    if s.len() > 0 {
        lemma_jv_of_entries(s.subrange(0, s.len() - 1));
        assert forall|i: int| 0 <= i < s.len() implies jv_of_entries(s)[i] == (
            s[i].0@,
            jv_of(s[i].1),
        ) by {
            if i < s.len() - 1 {
                assert(s.subrange(0, s.len() - 1)[i] == s[i]);
            }
        }
    }
}

/// Whether some entry of `s` carries the key `k`.
pub open spec fn has_key(s: Seq<(Seq<char>, Jv)>, k: Seq<char>) -> bool {
    exists|i: int| 0 <= i < s.len() && s[i].0 == k
}

/// No two entries of `s` carry the same key.
pub open spec fn unique_keys(s: Seq<(Seq<char>, Jv)>) -> bool {
    forall|i: int, j: int| 0 <= i < j < s.len() ==> s[i].0 != s[j].0
}

/// The value at the first entry of `s` whose key is `k` (`Null` when absent).
pub open spec fn entry_value(s: Seq<(Seq<char>, Jv)>, k: Seq<char>) -> Jv
    decreases s.len(),
{
    if s.len() == 0 {
        Jv::Null
    } else if s[0].0 == k {
        s[0].1
    } else {
        entry_value(s.subrange(1, s.len() as int), k)
    }
}

/// Map-style insertion: overwrite the first entry keyed `k` in place, or
/// append a new entry when `k` is absent.
pub open spec fn obj_insert(s: Seq<(Seq<char>, Jv)>, k: Seq<char>, v: Jv) -> Seq<
    (Seq<char>, Jv),
>
    decreases s.len(),
{
    if s.len() == 0 {
        seq![(k, v)]
    } else if s[0].0 == k {
        seq![(k, v)] + s.subrange(1, s.len() as int)
    } else {
        seq![s[0]] + obj_insert(s.subrange(1, s.len() as int), k, v)
    }
}

/// Map-style insertion of every entry of `es` into `s`, in order.
pub open spec fn obj_insert_all(
    s: Seq<(Seq<char>, Jv)>,
    es: Seq<(Seq<char>, Jv)>,
) -> Seq<(Seq<char>, Jv)>
    decreases es.len(),
{
    if es.len() == 0 {
        s
    } else {
        obj_insert_all(obj_insert(s, es[0].0, es[0].1), es.subrange(1, es.len() as int))
    }
}

/// Keys found in a concatenation come from one part or the other.
pub proof fn lemma_has_key_concat(a: Seq<(Seq<char>, Jv)>, b: Seq<(Seq<char>, Jv)>, x: Seq<char>)
    ensures
        has_key(a + b, x) <==> (has_key(a, x) || has_key(b, x)),
{
    if has_key(a, x) {
        let i = choose|i: int| 0 <= i < a.len() && a[i].0 == x;
        assert((a + b)[i] == a[i]);
    }
    if has_key(b, x) {
        let i = choose|i: int| 0 <= i < b.len() && b[i].0 == x;
        assert((a + b)[a.len() + i] == b[i]);
    }
    if has_key(a + b, x) {
        let i = choose|i: int| 0 <= i < (a + b).len() && (a + b)[i].0 == x;
        if i < a.len() {
            assert(a[i] == (a + b)[i]);
        } else {
            assert(b[i - a.len()] == (a + b)[i]);
        }
    }
}

/// Looking a key up in a concatenation reads the left part first.
pub proof fn lemma_entry_value_concat(a: Seq<(Seq<char>, Jv)>, b: Seq<(Seq<char>, Jv)>, x: Seq<char>)
    ensures
        entry_value(a + b, x) == if has_key(a, x) {
            entry_value(a, x)
        } else {
            entry_value(b, x)
        },
    decreases a.len(),
{
    if a.len() == 0 {
        assert(a + b =~= b);
        assert(!has_key(a, x));
    } else {
        let r = a + b;
        assert(r[0] == a[0]);
        if a[0].0 == x {
            assert(has_key(a, x));
        } else {
            let asub = a.subrange(1, a.len() as int);
            assert(r.subrange(1, r.len() as int) =~= asub + b);
            lemma_entry_value_concat(asub, b, x);
            assert(a =~= seq![a[0]] + asub);
            lemma_has_key_concat(seq![a[0]], asub, x);
            lemma_has_key_single(a[0], x);
            assert(entry_value(r, x) == entry_value(asub + b, x));
            assert(entry_value(a, x) == entry_value(asub, x));
        }
    }
}

/// Concatenating two objects that share no key keeps keys unique.
pub proof fn lemma_unique_concat(a: Seq<(Seq<char>, Jv)>, b: Seq<(Seq<char>, Jv)>)
    requires
        unique_keys(a),
        unique_keys(b),
        forall|x: Seq<char>| !(has_key(a, x) && has_key(b, x)),
    ensures
        unique_keys(a + b),
{
    assert forall|i: int, j: int| 0 <= i < j < (a + b).len() implies (a + b)[i].0 != (a
        + b)[j].0 by {
        if j < a.len() {
            assert((a + b)[i] == a[i]);
            assert((a + b)[j] == a[j]);
        } else if i >= a.len() {
            assert((a + b)[i] == b[i - a.len()]);
            assert((a + b)[j] == b[j - a.len()]);
        } else {
            assert((a + b)[i] == a[i]);
            assert((a + b)[j] == b[j - a.len()]);
            if a[i].0 == b[j - a.len()].0 {
                assert(has_key(a, a[i].0));
                assert(has_key(b, a[i].0));
            }
        }
    }
}

/// When the first entry keyed `k` stands at position `i`, insertion is an
/// update in place.
pub proof fn lemma_obj_insert_at(s: Seq<(Seq<char>, Jv)>, k: Seq<char>, v: Jv, i: int)
    requires
        0 <= i < s.len(),
        s[i].0 == k,
        forall|j: int| 0 <= j < i ==> s[j].0 != k,
    ensures
        obj_insert(s, k, v) == s.update(i, (k, v)),
    decreases i,
{
    if i == 0 {
        assert(obj_insert(s, k, v) =~= s.update(0, (k, v)));
    } else {
        let sub = s.subrange(1, s.len() as int);
        assert(sub[i - 1] == s[i]);
        assert forall|j: int| 0 <= j < i - 1 implies sub[j].0 != k by {
            assert(sub[j] == s[j + 1]);
        }
        lemma_obj_insert_at(sub, k, v, i - 1);
        assert(obj_insert(s, k, v) =~= s.update(i, (k, v)));
    }
}

/// When `k` is absent, insertion appends.
pub proof fn lemma_obj_insert_absent(s: Seq<(Seq<char>, Jv)>, k: Seq<char>, v: Jv)
    requires
        !has_key(s, k),
    ensures
        obj_insert(s, k, v) == s.push((k, v)),
    decreases s.len(),
{
    if s.len() == 0 {
        assert(obj_insert(s, k, v) =~= s.push((k, v)));
    } else {
        let sub = s.subrange(1, s.len() as int);
        assert(s[0].0 != k);
        assert forall|j: int| 0 <= j < sub.len() implies sub[j].0 != k by {
            assert(sub[j] == s[j + 1]);
        }
        lemma_obj_insert_absent(sub, k, v);
        assert(obj_insert(s, k, v) =~= s.push((k, v)));
    }
}

/// A one-entry object holds exactly its own key.
pub proof fn lemma_has_key_single(e: (Seq<char>, Jv), x: Seq<char>)
    ensures
        has_key(seq![e], x) <==> x == e.0,
{
    assert(seq![e][0] == e);
    if has_key(seq![e], x) {
        let i = choose|i: int| 0 <= i < seq![e].len() && seq![e][i].0 == x;
        assert(i == 0);
    }
}

/// Insertion adds exactly the key `k` to the key set.
pub proof fn lemma_obj_insert_has_key(
    s: Seq<(Seq<char>, Jv)>,
    k: Seq<char>,
    v: Jv,
    x: Seq<char>,
)
    ensures
        has_key(obj_insert(s, k, v), x) <==> (has_key(s, x) || x == k),
    decreases s.len(),
{
    if s.len() == 0 {
        assert(obj_insert(s, k, v)[0] == (k, v));
        if has_key(obj_insert(s, k, v), x) {
            let i = choose|i: int| 0 <= i < 1 && obj_insert(s, k, v)[i].0 == x;
            assert(i == 0);
        }
    } else {
        let sub = s.subrange(1, s.len() as int);
        if s[0].0 == k {
            lemma_has_key_concat(seq![(k, v)], sub, x);
            lemma_has_key_concat(seq![s[0]], sub, x);
            assert(s =~= seq![s[0]] + sub);
            lemma_has_key_single((k, v), x);
            lemma_has_key_single(s[0], x);
        } else {
            lemma_obj_insert_has_key(sub, k, v, x);
            lemma_has_key_concat(seq![s[0]], obj_insert(sub, k, v), x);
            lemma_has_key_concat(seq![s[0]], sub, x);
            assert(s =~= seq![s[0]] + sub);
            lemma_has_key_single(s[0], x);
        }
    }
}

/// Insertion keeps keys unique.
pub proof fn lemma_obj_insert_unique(s: Seq<(Seq<char>, Jv)>, k: Seq<char>, v: Jv)
    requires
        unique_keys(s),
    ensures
        unique_keys(obj_insert(s, k, v)),
    decreases s.len(),
{
    if s.len() == 0 {
    } else {
        let sub = s.subrange(1, s.len() as int);
        assert forall|i: int, j: int| 0 <= i < j < sub.len() implies sub[i].0 != sub[j].0 by {
            assert(sub[i] == s[i + 1]);
            assert(sub[j] == s[j + 1]);
        }
        if s[0].0 == k {
            let r = seq![(k, v)] + sub;
            assert forall|i: int, j: int| 0 <= i < j < r.len() implies r[i].0 != r[j].0 by {
                if i == 0 {
                    assert(sub[j - 1] == s[j]);
                } else {
                    assert(r[i] == sub[i - 1] && r[j] == sub[j - 1]);
                }
            }
        } else {
            lemma_obj_insert_unique(sub, k, v);
            let r = seq![s[0]] + obj_insert(sub, k, v);
            assert forall|i: int, j: int| 0 <= i < j < r.len() implies r[i].0 != r[j].0 by {
                if i == 0 {
                    lemma_obj_insert_has_key(sub, k, v, r[j].0);
                    assert(r[j] == obj_insert(sub, k, v)[j - 1]);
                    if has_key(sub, r[j].0) {
                        let m = choose|m: int| 0 <= m < sub.len() && sub[m].0 == r[j].0;
                        assert(sub[m] == s[m + 1]);
                    }
                } else {
                    assert(r[i] == obj_insert(sub, k, v)[i - 1]);
                    assert(r[j] == obj_insert(sub, k, v)[j - 1]);
                }
            }
        }
    }
}

/// The value stored for `k` after inserting `(k, v)` is `v`; other keys keep
/// their value.
pub proof fn lemma_obj_insert_value(s: Seq<(Seq<char>, Jv)>, k: Seq<char>, v: Jv, x: Seq<char>)
    ensures
        entry_value(obj_insert(s, k, v), k) == v,
        x != k ==> entry_value(obj_insert(s, k, v), x) == entry_value(s, x),
    decreases s.len(),
{
    if s.len() == 0 {
        let r = obj_insert(s, k, v);
        assert(r[0] == (k, v));
        if x != k {
            assert(r.subrange(1, r.len() as int) =~= Seq::<(Seq<char>, Jv)>::empty());
            assert(entry_value(Seq::<(Seq<char>, Jv)>::empty(), x) == Jv::Null);
            assert(entry_value(r, x) == Jv::Null);
        }
    } else {
        let sub = s.subrange(1, s.len() as int);
        if s[0].0 == k {
            let r = seq![(k, v)] + sub;
            assert(obj_insert(s, k, v) == r);
            assert(r[0] == (k, v));
            assert(r.subrange(1, r.len() as int) =~= sub);
            if x != k {
                assert(entry_value(r, x) == entry_value(sub, x));
                assert(entry_value(s, x) == entry_value(sub, x));
            }
        } else {
            lemma_obj_insert_value(sub, k, v, x);
            let r = seq![s[0]] + obj_insert(sub, k, v);
            assert(obj_insert(s, k, v) == r);
            assert(r[0] == s[0]);
            assert(r.subrange(1, r.len() as int) =~= obj_insert(sub, k, v));
            assert(entry_value(r, k) == entry_value(obj_insert(sub, k, v), k));
            if x != k {
                if s[0].0 == x {
                    assert(entry_value(r, x) == s[0].1);
                    assert(entry_value(s, x) == s[0].1);
                } else {
                    assert(entry_value(r, x) == entry_value(obj_insert(sub, k, v), x));
                    assert(entry_value(s, x) == entry_value(sub, x));
                }
            }
        }
    }
}

/// The value that survives for key `x` after a batch of entries is folded
/// in: a later entry keyed `x` overrides an earlier one.
pub open spec fn last_value(es: Seq<(Seq<char>, Jv)>, x: Seq<char>) -> Jv
    decreases es.len(),
{
    if es.len() == 0 {
        Jv::Null
    } else if has_key(es.subrange(1, es.len() as int), x) {
        last_value(es.subrange(1, es.len() as int), x)
    } else if es[0].0 == x {
        es[0].1
    } else {
        Jv::Null
    }
}

/// Batch insertion stores, for each key of the batch, the value of the last
/// batch entry with that key; every other key keeps its previous value.
pub proof fn lemma_obj_insert_all_value(
    s: Seq<(Seq<char>, Jv)>,
    es: Seq<(Seq<char>, Jv)>,
    x: Seq<char>,
)
    ensures
        entry_value(obj_insert_all(s, es), x) == if has_key(es, x) {
            last_value(es, x)
        } else {
            entry_value(s, x)
        },
    decreases es.len(),
{
    if es.len() == 0 {
        assert(!has_key(es, x));
    } else {
        let tail = es.subrange(1, es.len() as int);
        lemma_obj_insert_all_value(obj_insert(s, es[0].0, es[0].1), tail, x);
        lemma_obj_insert_value(s, es[0].0, es[0].1, x);
        assert(es =~= seq![es[0]] + tail);
        lemma_has_key_concat(seq![es[0]], tail, x);
        lemma_has_key_single(es[0], x);
    }
}

/// Folding a batch of entries in from the right: the last entry is inserted
/// last.
pub proof fn lemma_obj_insert_all_push(
    s: Seq<(Seq<char>, Jv)>,
    es: Seq<(Seq<char>, Jv)>,
    e: (Seq<char>, Jv),
)
    ensures
        obj_insert_all(s, es.push(e)) == obj_insert(obj_insert_all(s, es), e.0, e.1),
    decreases es.len(),
{
    if es.len() == 0 {
        assert(es.push(e)[0] == e);
        assert(es.push(e).subrange(1, 1) =~= Seq::<(Seq<char>, Jv)>::empty());
        assert(obj_insert_all(s, es.push(e)) == obj_insert_all(
            obj_insert(s, e.0, e.1),
            es.push(e).subrange(1, 1),
        ));
        assert(obj_insert_all(obj_insert(s, e.0, e.1), Seq::<(Seq<char>, Jv)>::empty())
            == obj_insert(s, e.0, e.1));
    } else {
        assert(es.push(e)[0] == es[0]);
        assert(es.push(e).subrange(1, es.len() as int + 1) =~= es.subrange(
            1,
            es.len() as int,
        ).push(e));
        lemma_obj_insert_all_push(
            obj_insert(s, es[0].0, es[0].1),
            es.subrange(1, es.len() as int),
            e,
        );
    }
}

/// The key set after a batch insertion is the union of both key sets.
pub proof fn lemma_obj_insert_all_has_key(
    s: Seq<(Seq<char>, Jv)>,
    es: Seq<(Seq<char>, Jv)>,
    x: Seq<char>,
)
    ensures
        has_key(obj_insert_all(s, es), x) <==> (has_key(s, x) || has_key(es, x)),
    decreases es.len(),
{
    if es.len() == 0 {
        assert(!has_key(es, x));
    } else {
        let sub = es.subrange(1, es.len() as int);
        lemma_obj_insert_has_key(s, es[0].0, es[0].1, x);
        lemma_obj_insert_all_has_key(obj_insert(s, es[0].0, es[0].1), sub, x);
        assert(es =~= seq![es[0]] + sub);
        lemma_has_key_concat(seq![es[0]], sub, x);
        assert(has_key(seq![es[0]], x) <==> x == es[0].0);
    }
}

/// Batch insertion keeps keys unique.
pub proof fn lemma_obj_insert_all_unique(s: Seq<(Seq<char>, Jv)>, es: Seq<(Seq<char>, Jv)>)
    requires
        unique_keys(s),
    ensures
        unique_keys(obj_insert_all(s, es)),
    decreases es.len(),
{
    if es.len() > 0 {
        lemma_obj_insert_unique(s, es[0].0, es[0].1);
        lemma_obj_insert_all_unique(
            obj_insert(s, es[0].0, es[0].1),
            es.subrange(1, es.len() as int),
        );
    }
}

/// Position of the first entry of `pairs` whose key equals `key`, if any.
fn find_key(pairs: &Vec<(String, Json)>, key: &String) -> (r: Option<usize>)
    ensures
        match r {
            Some(i) => 0 <= i < pairs@.len() && pairs@[i as int].0@ == key@ && forall|j: int|
                0 <= j < i ==> pairs@[j].0@ != key@,
            None => forall|j: int| 0 <= j < pairs@.len() ==> pairs@[j].0@ != key@,
        },
{
    let mut i: usize = 0;
    while i < pairs.len()
        invariant
            i <= pairs@.len(),
            forall|j: int| 0 <= j < i ==> pairs@[j].0@ != key@,
        decreases pairs@.len() - i,
    {
        if pairs[i].0 == *key {
            return Some(i);
        }
        i += 1;
    }
    None
}

/// Insert `(key, value)` into an object under construction with map
/// semantics: an entry already keyed `key` is overwritten in place, any other
/// entry is untouched, a fresh key is appended.
pub fn obj_set(pairs: &mut Vec<(String, Json)>, key: String, value: Json)
    ensures
        jv_of_entries(final(pairs)@) == obj_insert(jv_of_entries(old(pairs)@), key@, jv_of(value)),
{
    let ghost s0 = old(pairs)@;
    proof {
        lemma_jv_of_entries(s0);
    }
    match find_key(pairs, &key) {
        Some(i) => {
            let _replaced = pairs.remove(i);
            pairs.insert(i, (key, value));
            proof {
                assert(pairs@ =~= s0.update(i as int, pairs@[i as int]));
                lemma_jv_of_entries(pairs@);
                assert forall|j: int| 0 <= j < i as int implies jv_of_entries(s0)[j].0
                    != pairs@[i as int].0@ by {}
                lemma_obj_insert_at(
                    jv_of_entries(s0),
                    pairs@[i as int].0@,
                    jv_of(pairs@[i as int].1),
                    i as int,
                );
                assert(jv_of_entries(pairs@) =~= obj_insert(
                    jv_of_entries(s0),
                    pairs@[i as int].0@,
                    jv_of(pairs@[i as int].1),
                ));
            }
        },
        None => {
            pairs.push((key, value));
            proof {
                let e = pairs@[pairs@.len() - 1];
                assert(pairs@ =~= s0.push(e));
                lemma_jv_of_entries(pairs@);
                assert forall|j: int| 0 <= j < jv_of_entries(s0).len() implies jv_of_entries(
                    s0,
                )[j].0 != e.0@ by {}
                lemma_obj_insert_absent(jv_of_entries(s0), e.0@, jv_of(e.1));
                assert(jv_of_entries(pairs@) =~= obj_insert(jv_of_entries(s0), e.0@, jv_of(e.1)));
            }
        },
    }
}

/// Append `(key, value)` to an object under construction whose keys are
/// statically known to be distinct.
pub fn obj_push(pairs: &mut Vec<(String, Json)>, key: &str, value: Json)
    ensures
        jv_of_entries(final(pairs)@) == jv_of_entries(old(pairs)@).push((key@, jv_of(value))),
{
    let ghost s0 = old(pairs)@;
    pairs.push((key.to_owned(), value));
    proof {
        let e = pairs@[pairs@.len() - 1];
        assert(pairs@ =~= s0.push(e));
        lemma_jv_of_entries(s0);
        lemma_jv_of_entries(pairs@);
        assert(jv_of_entries(pairs@) =~= jv_of_entries(s0).push((key@, jv_of(e.1))));
    }
}

/// Prepend `(key, value)` to an object under construction whose keys are
/// statically known to be distinct.
pub fn obj_prepend(pairs: &mut Vec<(String, Json)>, key: &str, value: Json)
    ensures
        jv_of_entries(final(pairs)@) == seq![(key@, jv_of(value))] + jv_of_entries(
            old(pairs)@,
        ),
{
    let ghost s0 = old(pairs)@;
    let ghost v0 = jv_of(value);
    pairs.insert(0, (key.to_owned(), value));
    proof {
        lemma_jv_of_entries(s0);
        lemma_jv_of_entries(pairs@);
        assert forall|m: int| 0 <= m < pairs@.len() implies jv_of_entries(pairs@)[m] == (seq![
            (key@, v0),
        ] + jv_of_entries(s0))[m] by {
            if m == 0 {
                assert(pairs@[0].0@ == key@);
                assert(jv_of(pairs@[0].1) == v0);
            } else {
                assert(pairs@[m] == s0[m - 1]);
            }
        }
        assert(jv_of_entries(pairs@) =~= seq![(key@, v0)] + jv_of_entries(s0));
    }
}

/// Append a value to an array under construction.
pub fn arr_push(items: &mut Vec<Json>, value: Json)
    ensures
        jv_of_seq(final(items)@) == jv_of_seq(old(items)@).push(jv_of(value)),
{
    let ghost s0 = old(items)@;
    items.push(value);
    proof {
        lemma_jv_of_seq(s0);
        lemma_jv_of_seq(items@);
        assert(jv_of_seq(items@) =~= jv_of_seq(s0).push(jv_of(items@[items@.len() - 1])));
    }
}

} // verus!

