//! A self-contained JSON document tree.
//!
//! The proxy configuration document is built, merged and rendered on this
//! type; its mathematical model is `JsonModel`, a ghost tree over `Seq`.

use vstd::prelude::*;
use vstd::string::StringExecFns;

verus! {

/// Executable JSON value.  Objects keep their entries in insertion order.
#[derive(Debug, PartialEq, Eq)]
pub enum Json {
    Null,
    Bool(bool),
    Int(i64),
    Str(String),
    Arr(Vec<Json>),
    Obj(Vec<(String, Json)>),
}

/// Mathematical model of a JSON value.
pub enum JsonModel {
    Null,
    Bool(bool),
    Int(int),
    Str(Seq<char>),
    Arr(Seq<JsonModel>),
    Obj(Seq<(Seq<char>, JsonModel)>),
}

/// The model of an executable JSON value.
pub open spec fn jmodel(j: Json) -> JsonModel
    decreases j,
{
    match j {
        Json::Null => JsonModel::Null,
        Json::Bool(b) => JsonModel::Bool(b),
        Json::Int(n) => JsonModel::Int(n as int),
        Json::Str(s) => JsonModel::Str(s@),
        Json::Arr(items) => JsonModel::Arr(jmodel_seq(items@)),
        Json::Obj(entries) => JsonModel::Obj(jmodel_entries(entries@)),
    }
}

/// Pointwise model of a sequence of JSON values.
pub open spec fn jmodel_seq(s: Seq<Json>) -> Seq<JsonModel>
    decreases s,
{
    if s.len() == 0 {
        Seq::empty()
    } else {
        seq![jmodel(s[0])] + jmodel_seq(s.drop_first())
    }
}

/// Pointwise model of a sequence of JSON object entries.
pub open spec fn jmodel_entries(s: Seq<(String, Json)>) -> Seq<(Seq<char>, JsonModel)>
    decreases s,
{
    if s.len() == 0 {
        Seq::empty()
    } else {
        seq![(s[0].0@, jmodel(s[0].1))] + jmodel_entries(s.drop_first())
    }
}

impl View for Json {
    type V = JsonModel;

    open spec fn view(&self) -> JsonModel {
        jmodel(*self)
    }
}

pub broadcast proof fn lemma_jmodel_seq_len(s: Seq<Json>)
    ensures
        #[trigger] jmodel_seq(s).len() == s.len(),
    decreases s.len(),
{
    if s.len() > 0 {
        lemma_jmodel_seq_len(s.drop_first());
    }
}

pub broadcast proof fn lemma_jmodel_seq_index(s: Seq<Json>, i: int)
    requires
        0 <= i < s.len(),
    ensures
        #[trigger] jmodel_seq(s)[i] == jmodel(s[i]),
    decreases s.len(),
{
    lemma_jmodel_seq_len(s);
    if i > 0 {
        lemma_jmodel_seq_index(s.drop_first(), i - 1);
    }
}

pub broadcast proof fn lemma_jmodel_entries_len(s: Seq<(String, Json)>)
    ensures
        #[trigger] jmodel_entries(s).len() == s.len(),
    decreases s.len(),
{
    if s.len() > 0 {
        lemma_jmodel_entries_len(s.drop_first());
    }
}

pub broadcast proof fn lemma_jmodel_entries_index(s: Seq<(String, Json)>, i: int)
    requires
        0 <= i < s.len(),
    ensures
        #[trigger] jmodel_entries(s)[i] == (s[i].0@, jmodel(s[i].1)),
    decreases s.len(),
{
    lemma_jmodel_entries_len(s);
    if i > 0 {
        lemma_jmodel_entries_index(s.drop_first(), i - 1);
    }
}

/// One model-level object entry.
pub type ModelEntry = (Seq<char>, JsonModel);

/// Whether some entry of `s` carries the key `k`.
pub open spec fn keys_has(s: Seq<ModelEntry>, k: Seq<char>) -> bool {
    exists|i: int| 0 <= i < s.len() && s[i].0 == k
}

/// Index of the first entry of `s` carrying the key `k`.
pub open spec fn key_index(s: Seq<ModelEntry>, k: Seq<char>) -> int
    decreases s,
{
    if s.len() == 0 {
        0
    } else if s[0].0 == k {
        0
    } else {
        1 + key_index(s.drop_first(), k)
    }
}

pub proof fn lemma_key_index(s: Seq<ModelEntry>, k: Seq<char>)
    requires
        keys_has(s, k),
    ensures
        0 <= key_index(s, k) < s.len(),
        s[key_index(s, k)].0 == k,
        forall|i: int| 0 <= i < key_index(s, k) ==> s[i].0 != k,
    decreases s,
{
    if s.len() > 0 && s[0].0 != k {
        assert forall|i: int| 0 <= i < s.drop_first().len() && s.drop_first()[i].0 == k implies
            keys_has(s.drop_first(), k) by {}
        let d = s.drop_first();
        let w = choose|i: int| 0 <= i < s.len() && s[i].0 == k;
        assert(d[w - 1].0 == k);
        lemma_key_index(d, k);
        assert forall|i: int| 0 <= i < key_index(s, k) implies s[i].0 != k by {
            if i > 0 {
                assert(d[i - 1].0 != k);
            }
        }
    }
}

/// The deep merge of override `b` onto base `a`: objects merge key by key,
/// every other value is replaced wholesale by the override.
pub open spec fn spec_merge(a: JsonModel, b: JsonModel) -> JsonModel
    decreases b, 0nat,
{
    match b {
        JsonModel::Obj(ys) => match a {
            JsonModel::Obj(xs) => JsonModel::Obj(
                merge_updated(xs, ys) + merge_added(xs, ys),
            ),
            _ => b,
        },
        _ => b,
    }
}

/// The base entries, each merged with the override entry of the same key
/// where one exists.
pub open spec fn merge_updated(xs: Seq<ModelEntry>, ys: Seq<ModelEntry>) -> Seq<ModelEntry>
    decreases ys, xs.len(),
    via merge_updated_dec
{
    if xs.len() == 0 {
        Seq::empty()
    } else {
        let e = if keys_has(ys, xs[0].0) {
            (xs[0].0, spec_merge(xs[0].1, ys[key_index(ys, xs[0].0)].1))
        } else {
            xs[0]
        };
        seq![e] + merge_updated(xs.drop_first(), ys)
    }
}

#[via_fn]
proof fn merge_updated_dec(xs: Seq<ModelEntry>, ys: Seq<ModelEntry>) {
    if xs.len() > 0 && keys_has(ys, xs[0].0) {
        lemma_key_index(ys, xs[0].0);
    }
}

/// The override entries whose keys are new to the base, in override order.
pub open spec fn merge_added(xs: Seq<ModelEntry>, ys: Seq<ModelEntry>) -> Seq<ModelEntry>
    decreases ys,
{
    if ys.len() == 0 {
        Seq::empty()
    } else {
        let rest = merge_added(xs, ys.drop_first());
        if keys_has(xs, ys[0].0) {
            rest
        } else {
            seq![ys[0]] + rest
        }
    }
}

pub proof fn lemma_merge_updated_empty(xs: Seq<ModelEntry>)
    ensures
        merge_updated(xs, Seq::empty()) == xs,
    decreases xs,
{
    if xs.len() > 0 {
        lemma_merge_updated_empty(xs.drop_first());
        assert(seq![xs[0]] + xs.drop_first() =~= xs);
    } else {
        assert(merge_updated(xs, Seq::empty()) =~= xs);
    }
}

/// Merging an empty override object onto any object leaves it unchanged:
/// the generated document survives a trivial operator override intact.
pub proof fn lemma_merge_empty_override(a: JsonModel)
    requires
        a matches JsonModel::Obj(_),
    ensures
        spec_merge(a, JsonModel::Obj(Seq::empty())) == a,
{
    let xs = a->Obj_0;
    lemma_merge_updated_empty(xs);
    assert(merge_added(xs, Seq::empty()) =~= Seq::<ModelEntry>::empty());
    assert(xs + Seq::<ModelEntry>::empty() =~= xs);
}

proof fn lemma_merge_updated_single(xs: Seq<ModelEntry>, k: Seq<char>, b1: JsonModel)
    ensures
        merge_updated(xs, seq![(k, b1)]).len() == xs.len(),
        forall|i: int|
            0 <= i < xs.len() ==> #[trigger] merge_updated(xs, seq![(k, b1)])[i] == (if xs[i].0
                == k {
                (k, spec_merge(xs[i].1, b1))
            } else {
                xs[i]
            }),
    decreases xs,
{
    let ys = seq![(k, b1)];
    if xs.len() > 0 {
        lemma_merge_updated_single(xs.drop_first(), k, b1);
        assert(keys_has(ys, xs[0].0) == (xs[0].0 == k));
        if xs[0].0 == k {
            assert(key_index(ys, k) == 0);
        }
        assert forall|i: int| 0 <= i < xs.len() implies #[trigger] merge_updated(xs, ys)[i] == (
        if xs[i].0 == k {
            (k, spec_merge(xs[i].1, b1))
        } else {
            xs[i]
        }) by {
            if i > 0 {
                assert(merge_updated(xs, ys)[i] == merge_updated(xs.drop_first(), ys)[i - 1]);
                assert(xs.drop_first()[i - 1] == xs[i]);
            }
        }
    }
}

/// A single-key override rewrites exactly that entry of the document and
/// leaves every sibling untouched: overriding one subtree never clobbers
/// the rest of the generated content.
pub proof fn lemma_merge_single_key_override(xs: Seq<ModelEntry>, k: Seq<char>, b1: JsonModel)
    requires
        keys_has(xs, k),
        forall|i: int, j: int| 0 <= i < j < xs.len() ==> xs[i].0 != xs[j].0,
    ensures
        spec_merge(JsonModel::Obj(xs), JsonModel::Obj(seq![(k, b1)])) == JsonModel::Obj(
            xs.update(key_index(xs, k), (k, spec_merge(xs[key_index(xs, k)].1, b1))),
        ),
{
    let ys = seq![(k, b1)];
    lemma_key_index(xs, k);
    let w = key_index(xs, k);
    lemma_merge_updated_single(xs, k, b1);
    assert(merge_added(xs, ys) =~= Seq::<ModelEntry>::empty()) by {
        assert(keys_has(xs, ys[0].0));
        assert(ys.drop_first() =~= Seq::<ModelEntry>::empty());
        assert(merge_added(xs, ys.drop_first()) =~= Seq::<ModelEntry>::empty());
    }
    assert forall|i: int| 0 <= i < xs.len() implies merge_updated(xs, ys)[i] == xs.update(
        w,
        (k, spec_merge(xs[w].1, b1)),
    )[i] by {
        if i != w {
            assert(xs[i].0 != xs[w].0);
        }
    }
    assert(merge_updated(xs, ys) + merge_added(xs, ys) =~= xs.update(
        w,
        (k, spec_merge(xs[w].1, b1)),
    ));
}

pub proof fn lemma_jmodel_seq_push(s: Seq<Json>, e: Json)
    ensures
        jmodel_seq(s.push(e)) == jmodel_seq(s).push(jmodel(e)),
{
    broadcast use lemma_jmodel_seq_len, lemma_jmodel_seq_index;

    assert(jmodel_seq(s.push(e)) =~= jmodel_seq(s).push(jmodel(e)));
}

pub proof fn lemma_jmodel_entries_push(s: Seq<(String, Json)>, e: (String, Json))
    ensures
        jmodel_entries(s.push(e)) == jmodel_entries(s).push((e.0@, jmodel(e.1))),
{
    broadcast use lemma_jmodel_entries_len, lemma_jmodel_entries_index;

    assert(jmodel_entries(s.push(e)) =~= jmodel_entries(s).push((e.0@, jmodel(e.1))));
}

pub proof fn lemma_merge_updated_skip(xs: Seq<ModelEntry>, ys: Seq<ModelEntry>, i: int)
    requires
        0 <= i < xs.len(),
    ensures
        merge_updated(xs.skip(i), ys) == seq![
            if keys_has(ys, xs[i].0) {
                (xs[i].0, spec_merge(xs[i].1, ys[key_index(ys, xs[i].0)].1))
            } else {
                xs[i]
            },
        ] + merge_updated(xs.skip(i + 1), ys),
{
    let t = xs.skip(i);
    assert(t[0] == xs[i]);
    assert(t.drop_first() =~= xs.skip(i + 1));
}

pub proof fn lemma_merge_added_skip(xs: Seq<ModelEntry>, ys: Seq<ModelEntry>, i: int)
    requires
        0 <= i < ys.len(),
    ensures
        merge_added(xs, ys.skip(i)) == if keys_has(xs, ys[i].0) {
            merge_added(xs, ys.skip(i + 1))
        } else {
            seq![ys[i]] + merge_added(xs, ys.skip(i + 1))
        },
{
    let t = ys.skip(i);
    assert(t[0] == ys[i]);
    assert(t.drop_first() =~= ys.skip(i + 1));
}

/// Deep copy of a JSON value.
pub fn clone_json(v: &Json) -> (r: Json)
    ensures
        r@ == v@,
    decreases *v,
{
    match v {
        Json::Null => Json::Null,
        Json::Bool(x) => Json::Bool(*x),
        Json::Int(x) => Json::Int(*x),
        Json::Str(s) => Json::Str(s.clone()),
        Json::Arr(items) => {
            let mut out: Vec<Json> = Vec::new();
            let mut i: usize = 0;
            while i < items.len()
                invariant
                    i <= items.len(),
                    *v == Json::Arr(*items),
                    jmodel_seq(out@) == jmodel_seq(items@.take(i as int)),
                decreases items.len() - i,
            {
                proof {
                    assert(*v == Json::Arr(*items));
                    assert(decreases_to!(*v => v->Arr_0));
                    assert(decreases_to!(*v => *items));
                    assert(decreases_to!(*items => items[i as int]));
                }
                let c = clone_json(&items[i]);
                proof {
                    lemma_jmodel_seq_push(out@, c);
                    lemma_jmodel_seq_push(items@.take(i as int), items@[i as int]);
                    assert(items@.take(i as int).push(items@[i as int]) =~= items@.take(
                        i as int + 1,
                    ));
                }
                out.push(c);
                i += 1;
            }
            proof {
                assert(items@.take(items@.len() as int) =~= items@);
            }
            Json::Arr(out)
        },
        Json::Obj(entries) => {
            let mut out: Vec<(String, Json)> = Vec::new();
            let mut i: usize = 0;
            while i < entries.len()
                invariant
                    i <= entries.len(),
                    *v == Json::Obj(*entries),
                    jmodel_entries(out@) == jmodel_entries(entries@.take(i as int)),
                decreases entries.len() - i,
            {
                proof {
                    assert(*v == Json::Obj(*entries));
                    assert(decreases_to!(*v => v->Obj_0));
                    assert(decreases_to!(*v => *entries));
                    assert(decreases_to!(*entries => entries[i as int]));
                    assert(decreases_to!(entries[i as int] => entries[i as int].1));
                }
                let k = entries[i].0.clone();
                let c = clone_json(&entries[i].1);
                proof {
                    lemma_jmodel_entries_push(out@, (k, c));
                    lemma_jmodel_entries_push(entries@.take(i as int), entries@[i as int]);
                    assert(entries@.take(i as int).push(entries@[i as int]) =~= entries@.take(
                        i as int + 1,
                    ));
                }
                out.push((k, c));
                i += 1;
            }
            proof {
                assert(entries@.take(entries@.len() as int) =~= entries@);
            }
            Json::Obj(out)
        },
    }
}

/// First entry of `entries` whose key equals `k`, if any.
pub fn find_key(entries: &Vec<(String, Json)>, k: &String) -> (r: Option<usize>)
    ensures
        match r {
            Some(j) => keys_has(jmodel_entries(entries@), k@) && j == key_index(
                jmodel_entries(entries@),
                k@,
            ) && j < entries@.len(),
            None => !keys_has(jmodel_entries(entries@), k@),
        },
{
    broadcast use lemma_jmodel_entries_len, lemma_jmodel_entries_index;

    let ghost em = jmodel_entries(entries@);
    proof {
        assert(em.len() == entries@.len());
    }
    let mut j: usize = 0;
    while j < entries.len()
        invariant
            j <= entries.len(),
            em == jmodel_entries(entries@),
            em.len() == entries@.len(),
            forall|i: int| 0 <= i < j ==> em[i].0 != k@,
        decreases entries.len() - j,
    {
        proof {
            lemma_jmodel_entries_index(entries@, j as int);
        }
        if entries[j].0 == *k {
            proof {
                lemma_key_index_converse(em, k@, j as int);
            }
            return Some(j);
        }
        j += 1;
    }
    None
}

proof fn lemma_key_index_converse(s: Seq<ModelEntry>, k: Seq<char>, j: int)
    requires
        0 <= j < s.len(),
        s[j].0 == k,
        forall|i: int| 0 <= i < j ==> s[i].0 != k,
    ensures
        keys_has(s, k),
        key_index(s, k) == j,
    decreases s,
{
    if j > 0 {
        let d = s.drop_first();
        assert forall|i: int| 0 <= i < j - 1 implies d[i].0 != k by {
            assert(s[i + 1].0 != k);
        }
        lemma_key_index_converse(d, k, j - 1);
    }
}

/// Deep merge of the override `b` onto the base `a` (spec at `spec_merge`):
/// object entries merge key by key, new override keys append in override
/// order, and any other override value replaces the base value wholesale.
pub fn merged(a: &Json, b: &Json) -> (r: Json)
    ensures
        r@ == spec_merge(a@, b@),
    decreases *b,
{
    broadcast use lemma_jmodel_entries_len, lemma_jmodel_entries_index;

    match b {
        Json::Obj(ys) => match a {
            Json::Obj(xs) => {
                let ghost xm = jmodel_entries(xs@);
                let ghost ym = jmodel_entries(ys@);
                proof {
                    assert(xm.len() == xs@.len());
                    assert(ym.len() == ys@.len());
                    assert(xm.skip(0) =~= xm);
                    assert(Seq::<ModelEntry>::empty() + merge_updated(xm, ym) =~= merge_updated(
                        xm,
                        ym,
                    ));
                }
                let mut out: Vec<(String, Json)> = Vec::new();
                let mut i: usize = 0;
                while i < xs.len()
                    invariant
                        i <= xs.len(),
                        *a == Json::Obj(*xs),
                        *b == Json::Obj(*ys),
                        xm == jmodel_entries(xs@),
                        ym == jmodel_entries(ys@),
                        xm.len() == xs@.len(),
                        ym.len() == ys@.len(),
                        jmodel_entries(out@) + merge_updated(xm.skip(i as int), ym)
                            == merge_updated(xm, ym),
                    decreases xs.len() - i,
                {
                    proof {
                        lemma_jmodel_entries_index(xs@, i as int);
                    }
                    let k = xs[i].0.clone();
                    let e = match find_key(ys, &k) {
                        Some(j) => {
                            proof {
                                lemma_key_index(ym, k@);
                                lemma_jmodel_entries_index(ys@, j as int);
                                assert(*b == Json::Obj(*ys));
                                assert(decreases_to!(*b => b->Obj_0));
                                assert(decreases_to!(*b => *ys));
                                assert(decreases_to!(*ys => ys[j as int]));
                                assert(decreases_to!(ys[j as int] => ys[j as int].1));
                            }
                            (k, merged(&xs[i].1, &ys[j].1))
                        },
                        None => (k, clone_json(&xs[i].1)),
                    };
                    proof {
                        lemma_jmodel_entries_push(out@, e);
                        lemma_merge_updated_skip(xm, ym, i as int);
                        assert((e.0@, jmodel(e.1)) == if keys_has(ym, xm[i as int].0) {
                            (xm[i as int].0, spec_merge(
                                xm[i as int].1,
                                ym[key_index(ym, xm[i as int].0)].1,
                            ))
                        } else {
                            xm[i as int]
                        });
                        assert(jmodel_entries(out@.push(e)) + merge_updated(
                            xm.skip(i as int + 1),
                            ym,
                        ) =~= jmodel_entries(out@) + merge_updated(xm.skip(i as int), ym));
                    }
                    out.push(e);
                    i += 1;
                }
                proof {
                    assert(xm.skip(xm.len() as int) =~= Seq::<ModelEntry>::empty());
                    assert(merge_updated(xm.skip(xm.len() as int), ym) =~= Seq::<
                        ModelEntry,
                    >::empty());
                    assert(jmodel_entries(out@) + Seq::<ModelEntry>::empty() =~= jmodel_entries(
                        out@,
                    ));
                    assert(jmodel_entries(out@) == merge_updated(xm, ym));
                    assert(ym.skip(0) =~= ym);
                }
                let mut j: usize = 0;
                while j < ys.len()
                    invariant
                        j <= ys.len(),
                        *a == Json::Obj(*xs),
                        *b == Json::Obj(*ys),
                        xm == jmodel_entries(xs@),
                        ym == jmodel_entries(ys@),
                        xm.len() == xs@.len(),
                        ym.len() == ys@.len(),
                        jmodel_entries(out@) + merge_added(xm, ym.skip(j as int))
                            == merge_updated(xm, ym) + merge_added(xm, ym),
                    decreases ys.len() - j,
                {
                    proof {
                        lemma_merge_added_skip(xm, ym, j as int);
                        lemma_jmodel_entries_index(ys@, j as int);
                    }
                    let k = ys[j].0.clone();
                    if find_key(xs, &k).is_none() {
                        proof {
                            assert(*b == Json::Obj(*ys));
                            assert(decreases_to!(*b => b->Obj_0));
                            assert(decreases_to!(*b => *ys));
                            assert(decreases_to!(*ys => ys[j as int]));
                            assert(decreases_to!(ys[j as int] => ys[j as int].1));
                        }
                        let e = (k, clone_json(&ys[j].1));
                        proof {
                            lemma_jmodel_entries_push(out@, e);
                            assert((e.0@, jmodel(e.1)) == ym[j as int]);
                            assert(jmodel_entries(out@.push(e)) + merge_added(
                                xm,
                                ym.skip(j as int + 1),
                            ) =~= jmodel_entries(out@) + merge_added(xm, ym.skip(j as int)));
                        }
                        out.push(e);
                    }
                    j += 1;
                }
                proof {
                    assert(ym.skip(ym.len() as int) =~= Seq::<ModelEntry>::empty());
                    assert(merge_added(xm, ym.skip(ym.len() as int)) =~= Seq::<
                        ModelEntry,
                    >::empty());
                    assert(jmodel_entries(out@) + Seq::<ModelEntry>::empty() =~= jmodel_entries(
                        out@,
                    ));
                }
                Json::Obj(out)
            },
            _ => clone_json(b),
        },
        _ => clone_json(b),
    }
}


/// Appends one object entry, tracking the object's model.
pub fn push_entry(entries: &mut Vec<(String, Json)>, k: &str, v: Json)
    ensures
        jmodel_entries(final(entries)@) == jmodel_entries(old(entries)@).push((k@, v@)),
{
    let ks = String::from_str(k);
    proof {
        lemma_jmodel_entries_push(entries@, (ks, v));
    }
    entries.push((ks, v));
}

/// Builds a JSON string value.
pub fn sstr(s: &str) -> (r: Json)
    ensures
        r@ == JsonModel::Str(s@),
{
    Json::Str(String::from_str(s))
}

/// Builds a one-element JSON array.
pub fn arr1(v: Json) -> (r: Json)
    ensures
        r@ == JsonModel::Arr(seq![v@]),
{
    let ghost vm = v@;
    let mut items: Vec<Json> = Vec::new();
    items.push(v);
    proof {
        reveal_with_fuel(jmodel_seq, 3);
        assert(jmodel_seq(items@) =~= seq![vm]);
    }
    Json::Arr(items)
}

/// Builds a one-entry JSON object.
pub fn obj1(k: &str, v: Json) -> (r: Json)
    ensures
        r@ == JsonModel::Obj(seq![(k@, v@)]),
{
    let ghost vm = v@;
    let mut entries: Vec<(String, Json)> = Vec::new();
    entries.push((String::from_str(k), v));
    proof {
        reveal_with_fuel(jmodel_entries, 3);
        assert(entries@.drop_first() =~= Seq::<(String, Json)>::empty());
        assert(jmodel_entries(entries@) =~= seq![(k@, vm)]);
    }
    Json::Obj(entries)
}

/// Builds a two-entry JSON object.
pub fn obj2(k1: &str, v1: Json, k2: &str, v2: Json) -> (r: Json)
    ensures
        r@ == JsonModel::Obj(seq![(k1@, v1@), (k2@, v2@)]),
{
    let ghost m1 = v1@;
    let ghost m2 = v2@;
    let mut entries: Vec<(String, Json)> = Vec::new();
    entries.push((String::from_str(k1), v1));
    entries.push((String::from_str(k2), v2));
    proof {
        reveal_with_fuel(jmodel_entries, 4);
        assert(entries@.len() == 2);
        assert(entries@.drop_first().drop_first() =~= Seq::<(String, Json)>::empty());
        assert(jmodel_entries(entries@) =~= seq![(k1@, m1), (k2@, m2)]);
    }
    Json::Obj(entries)
}

/// Builds a three-entry JSON object.
pub fn obj3(k1: &str, v1: Json, k2: &str, v2: Json, k3: &str, v3: Json) -> (r: Json)
    ensures
        r@ == JsonModel::Obj(seq![(k1@, v1@), (k2@, v2@), (k3@, v3@)]),
{
    let ghost m1 = v1@;
    let ghost m2 = v2@;
    let ghost m3 = v3@;
    let mut entries: Vec<(String, Json)> = Vec::new();
    entries.push((String::from_str(k1), v1));
    entries.push((String::from_str(k2), v2));
    entries.push((String::from_str(k3), v3));
    proof {
        reveal_with_fuel(jmodel_entries, 5);
        assert(entries@.len() == 3);
        assert(entries@.drop_first().drop_first().drop_first() =~= Seq::<
            (String, Json),
        >::empty());
        assert(jmodel_entries(entries@) =~= seq![(k1@, m1), (k2@, m2), (k3@, m3)]);
    }
    Json::Obj(entries)
}


} // verus!
