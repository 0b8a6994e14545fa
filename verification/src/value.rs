//! ExtensionValue: the structural data carried by extension intents and
//! Scheme expressions. Consumers read it structurally; maps are kept as
//! association lists sorted by key, each key once.

use vstd::prelude::*;
use crate::text::{seq_less, str_less, str_eq, owned};

verus! {

/// Reserved data key: filled by the Emit confirm action with a confirm shape.
pub const KEY_ITEM: &'static str = "item";
/// Reserved data key: marks an intent as a resolver plan executed by the kernel.
pub const KEY_RESOLVER: &'static str = "resolver";

#[derive(Debug, PartialEq)]
pub enum ExtensionValue {
    Nil,
    Bool(bool),
    Int(i64),
    String(String),
    Path(String),
    List(Vec<ExtensionValue>),
    /// Key/value pairs sorted by key, no key twice (`keys_ascending`, which
    /// `map` and `with` keep).
    Table(Vec<(String, ExtensionValue)>),
}

/// The mathematical value of an [`ExtensionValue`].
pub enum Ev {
    Nil,
    Bool(bool),
    Int(i64),
    Str(Seq<char>),
    Path(Seq<char>),
    List(Seq<Ev>),
    Table(Seq<(Seq<char>, Ev)>),
}

pub open spec fn ev(v: ExtensionValue) -> Ev
    decreases v,
{
    match v {
        ExtensionValue::Nil => Ev::Nil,
        ExtensionValue::Bool(b) => Ev::Bool(b),
        ExtensionValue::Int(i) => Ev::Int(i),
        ExtensionValue::String(s) => Ev::Str(s@),
        ExtensionValue::Path(p) => Ev::Path(p@),
        ExtensionValue::List(items) => Ev::List(
            Seq::new(items@.len(), |i: int| if 0 <= i < items@.len() { ev(items@[i]) } else { Ev::Nil }),
        ),
        ExtensionValue::Table(pairs) => Ev::Table(
            Seq::new(
                pairs@.len(),
                |i: int|
                    if 0 <= i < pairs@.len() {
                        (pairs@[i].0@, ev(pairs@[i].1))
                    } else {
                        (Seq::empty(), Ev::Nil)
                    },
            ),
        ),
    }
}

/// The models of a sequence of values.
pub open spec fn evs(items: Seq<ExtensionValue>) -> Seq<Ev> {
    Seq::new(items.len(), |i: int| ev(items[i]))
}

/// The association list `m` with `key` set to `value` (replacing an equal
/// key, else inserted at its sorted position).
pub open spec fn sorted_insert(m: Seq<(Seq<char>, Ev)>, key: Seq<char>, value: Ev) -> Seq<(Seq<char>, Ev)>
    decreases m.len(),
{
    if m.len() == 0 {
        seq![(key, value)]
    } else if m[0].0 == key {
        seq![(key, value)] + m.drop_first()
    } else if seq_less(key, m[0].0) {
        seq![(key, value)] + m
    } else {
        seq![m[0]] + sorted_insert(m.drop_first(), key, value)
    }
}

/// A table's keys strictly ascend: sorted, no key twice.
pub open spec fn keys_ascending(m: Seq<(Seq<char>, Ev)>) -> bool {
    forall|i: int, j: int| 0 <= i < j < m.len() ==> seq_less(#[trigger] m[i].0, #[trigger] m[j].0)
}

proof fn lemma_seq_less_total(a: Seq<char>, b: Seq<char>)
    requires
        a != b,
    ensures
        seq_less(a, b) || seq_less(b, a),
    decreases a.len(),
{
    if a.len() > 0 && b.len() > 0 && a[0] == b[0] {
        if a.drop_first() == b.drop_first() {
            assert(a =~= seq![a[0]] + a.drop_first());
            assert(b =~= seq![b[0]] + b.drop_first());
        }
        lemma_seq_less_total(a.drop_first(), b.drop_first());
    } else if a.len() == 0 && b.len() == 0 {
        assert(a =~= b);
    } else if a.len() > 0 && b.len() > 0 {
        vstd::utf8::char_u32_cast(a[0], a[0] as u32);
        vstd::utf8::char_u32_cast(b[0], b[0] as u32);
    }
}

proof fn lemma_insert_above(m: Seq<(Seq<char>, Ev)>, key: Seq<char>, value: Ev, lo: Seq<char>)
    requires
        forall|j: int| 0 <= j < m.len() ==> seq_less(lo, #[trigger] m[j].0),
        seq_less(lo, key),
    ensures
        forall|i: int| 0 <= i < sorted_insert(m, key, value).len() ==> seq_less(lo, #[trigger] sorted_insert(m, key, value)[i].0),
    decreases m.len(),
{
    if m.len() > 0 && m[0].0 != key && !seq_less(key, m[0].0) {
        let d = m.drop_first();
        assert forall|j: int| 0 <= j < d.len() implies seq_less(lo, #[trigger] d[j].0) by {
            assert(d[j] == m[j + 1]);
        }
        lemma_insert_above(d, key, value, lo);
        let r = sorted_insert(d, key, value);
        assert forall|i: int| 0 <= i < (seq![m[0]] + r).len() implies seq_less(lo, #[trigger] (seq![m[0]] + r)[i].0) by {
            if i > 0 {
                assert((seq![m[0]] + r)[i] == r[i - 1]);
            }
        }
    } else if m.len() > 0 {
        let r = sorted_insert(m, key, value);
        assert forall|i: int| 0 <= i < r.len() implies seq_less(lo, #[trigger] r[i].0) by {
            if m[0].0 == key {
                if i > 0 {
                    assert(r[i] == m[i]);
                }
            } else if i > 0 {
                assert(r[i] == m[i - 1]);
            }
        }
    }
}

/// Setting a key keeps a table's keys ascending.
pub proof fn law_insert_keeps_keys_ascending(m: Seq<(Seq<char>, Ev)>, key: Seq<char>, value: Ev)
    requires
        keys_ascending(m),
    ensures
        keys_ascending(sorted_insert(m, key, value)),
    decreases m.len(),
{
    let r = sorted_insert(m, key, value);
    if m.len() == 0 {
    } else if m[0].0 == key {
        assert forall|i: int, j: int| 0 <= i < j < r.len() implies seq_less(#[trigger] r[i].0, #[trigger] r[j].0) by {
            assert(r[j] == m[j]);
            if i > 0 {
                assert(r[i] == m[i]);
            }
        }
    } else if seq_less(key, m[0].0) {
        assert forall|i: int, j: int| 0 <= i < j < r.len() implies seq_less(#[trigger] r[i].0, #[trigger] r[j].0) by {
            assert(r[j] == m[j - 1]);
            if i > 0 {
                assert(r[i] == m[i - 1]);
            } else if j - 1 > 0 {
                crate::listing::lemma_seq_less_trans(key, m[0].0, m[j - 1].0);
            }
        }
    } else {
        lemma_seq_less_total(key, m[0].0);
        let d = m.drop_first();
        assert forall|i: int, j: int| 0 <= i < j < d.len() implies seq_less(#[trigger] d[i].0, #[trigger] d[j].0) by {
            assert(d[i] == m[i + 1] && d[j] == m[j + 1]);
        }
        assert forall|j: int| 0 <= j < d.len() implies seq_less(m[0].0, #[trigger] d[j].0) by {
            assert(d[j] == m[j + 1]);
        }
        law_insert_keeps_keys_ascending(d, key, value);
        lemma_insert_above(d, key, value, m[0].0);
        let t = sorted_insert(d, key, value);
        assert(r == seq![m[0]] + t);
        assert forall|i: int, j: int| 0 <= i < j < r.len() implies seq_less(#[trigger] r[i].0, #[trigger] r[j].0) by {
            assert(r[j] == t[j - 1]);
            if i > 0 {
                assert(r[i] == t[i - 1]);
            }
        }
    }
}

/// A table built from pairs has ascending keys.
pub proof fn law_build_map_keys_ascending(pairs: Seq<(Seq<char>, Ev)>)
    ensures
        keys_ascending(build_map(pairs)),
    decreases pairs.len(),
{
    if pairs.len() > 0 {
        law_build_map_keys_ascending(pairs.drop_last());
        law_insert_keeps_keys_ascending(build_map(pairs.drop_last()), pairs.last().0, pairs.last().1);
    }
}

/// Setting a key on a value gives a table with ascending keys, when the
/// value was a table with ascending keys or no table at all.
pub proof fn law_with_keeps_keys_ascending(v: Ev, key: Seq<char>, value: Ev)
    requires
        v matches Ev::Table(m) ==> keys_ascending(m),
    ensures
        ev_with(v, key, value) matches Ev::Table(r) && keys_ascending(r),
{
    match v {
        Ev::Table(m) => law_insert_keeps_keys_ascending(m, key, value),
        _ => {}
    }
}

/// The value stored under `key`, if any.
pub open spec fn assoc_get(m: Seq<(Seq<char>, Ev)>, key: Seq<char>) -> Option<Ev>
    decreases m.len(),
{
    if m.len() == 0 {
        None
    } else if m[0].0 == key {
        Some(m[0].1)
    } else {
        assoc_get(m.drop_first(), key)
    }
}

/// The map built from `pairs` in order, a later pair overriding an earlier one
/// with the same key.
pub open spec fn build_map(pairs: Seq<(Seq<char>, Ev)>) -> Seq<(Seq<char>, Ev)>
    decreases pairs.len(),
{
    if pairs.len() == 0 {
        Seq::empty()
    } else {
        sorted_insert(build_map(pairs.drop_last()), pairs.last().0, pairs.last().1)
    }
}

/// `ExtensionValue::with`: a map with `key` set (a non-map starts empty).
pub open spec fn ev_with(v: Ev, key: Seq<char>, value: Ev) -> Ev {
    match v {
        Ev::Table(m) => Ev::Table(sorted_insert(m, key, value)),
        _ => Ev::Table(seq![(key, value)]),
    }
}

/// `ExtensionValue::get`: the value under `key` of a map.
pub open spec fn ev_get(v: Ev, key: Seq<char>) -> Option<Ev> {
    match v {
        Ev::Table(m) => assoc_get(m, key),
        _ => None,
    }
}

proof fn lemma_get_after_insert(m: Seq<(Seq<char>, Ev)>, key: Seq<char>, value: Ev, other: Seq<char>)
    ensures
        assoc_get(sorted_insert(m, key, value), key) == Some(value),
        other != key ==> assoc_get(sorted_insert(m, key, value), other) == assoc_get(m, other),
    decreases m.len(),
{
    let r = sorted_insert(m, key, value);
    if m.len() == 0 {
        assert(r.drop_first() =~= m);
        assert(assoc_get(m, other) == None::<Ev>);
    } else if m[0].0 != key && !seq_less(key, m[0].0) {
        lemma_get_after_insert(m.drop_first(), key, value, other);
        assert(r[0] == m[0]);
        assert(r.drop_first() =~= sorted_insert(m.drop_first(), key, value));
    } else if m[0].0 == key {
        assert(r[0] == (key, value));
        assert(r.drop_first() =~= m.drop_first());
    } else {
        assert(r[0] == (key, value));
        assert(r.drop_first() =~= m);
    }
    if other != key {
        assert(assoc_get(r, other) == assoc_get(m, other));
    }
}

/// What a read gives back of a write: after `with(key, value)` the table
/// holds `value` under `key`, and every other key reads as before (a value
/// that was no table reads as an empty one).
pub proof fn law_read_after_write(v: Ev, key: Seq<char>, value: Ev, other: Seq<char>)
    ensures
        ev_get(ev_with(v, key, value), key) == Some(value),
        other != key ==> ev_get(ev_with(v, key, value), other) == ev_get(v, other),
{
    match v {
        Ev::Table(m) => lemma_get_after_insert(m, key, value, other),
        _ => lemma_get_after_insert(Seq::empty(), key, value, other),
    }
}

impl Clone for ExtensionValue {
    fn clone(&self) -> (r: ExtensionValue)
        ensures
            ev(r) == ev(*self),
    {
        self.dup()
    }
}

impl ExtensionValue {
    /// A copy with the same model.
    #[verifier::loop_isolation(false)]
    pub fn dup(&self) -> (r: ExtensionValue)
        ensures
            ev(r) == ev(*self),
        decreases self,
    {
        match self {
            ExtensionValue::Nil => ExtensionValue::Nil,
            ExtensionValue::Bool(b) => ExtensionValue::Bool(*b),
            ExtensionValue::Int(i) => ExtensionValue::Int(*i),
            ExtensionValue::String(s) => ExtensionValue::String(s.clone()),
            ExtensionValue::Path(p) => ExtensionValue::Path(p.clone()),
            ExtensionValue::List(items) => {
                let mut out: Vec<ExtensionValue> = Vec::new();
                let mut k: usize = 0;
                while k < items.len()
                    invariant
                        k <= items@.len(),
                        out@.len() == k,
                        forall|j: int| 0 <= j < k ==> ev(#[trigger] out@[j]) == ev(items@[j]),
                    decreases items@.len() - k,
                {
                    proof {
                        broadcast use vstd::std_specs::vec::axiom_vec_index_decreases;
                        assert(decreases_to!(*self => items@[k as int]));
                    }
                    let e = items[k].dup();
                    out.push(e);
                    k = k + 1;
                }
                let r = ExtensionValue::List(out);
                assert(ev(r)->List_0 =~= ev(*self)->List_0);
                r
            }
            ExtensionValue::Table(pairs) => {
                let mut out: Vec<(String, ExtensionValue)> = Vec::new();
                let mut k: usize = 0;
                while k < pairs.len()
                    invariant
                        k <= pairs@.len(),
                        out@.len() == k,
                        forall|j: int| 0 <= j < k ==> (#[trigger] out@[j]).0@ == pairs@[j].0@ && ev(out@[j].1) == ev(pairs@[j].1),
                    decreases pairs@.len() - k,
                {
                    proof {
                        broadcast use vstd::std_specs::vec::axiom_vec_index_decreases;
                        assert(decreases_to!(*self => pairs@[k as int]));
                        assert(decreases_to!(pairs@[k as int] => pairs@[k as int].1));
                    }
                    let e = pairs[k].1.dup();
                    out.push((pairs[k].0.clone(), e));
                    k = k + 1;
                }
                let r = ExtensionValue::Table(out);
                assert(ev(r)->Table_0 =~= ev(*self)->Table_0);
                r
            }
        }
    }

    pub fn as_bool(&self) -> (r: Option<bool>)
        ensures
            r == (match ev(*self) { Ev::Bool(b) => Some(b), _ => None }),
    {
        match self {
            ExtensionValue::Bool(b) => Some(*b),
            _ => None,
        }
    }

    pub fn as_int(&self) -> (r: Option<i64>)
        ensures
            r == (match ev(*self) { Ev::Int(i) => Some(i), _ => None }),
    {
        match self {
            ExtensionValue::Int(i) => Some(*i),
            _ => None,
        }
    }

    pub fn as_str(&self) -> (r: Option<&str>)
        ensures
            (r is Some) == (ev(*self) is Str),
            r matches Some(s) ==> ev(*self) == Ev::Str(s@),
    {
        match self {
            ExtensionValue::String(s) => Some(s.as_str()),
            _ => None,
        }
    }

    pub fn as_path(&self) -> (r: Option<&String>)
        ensures
            (r is Some) == (ev(*self) is Path),
            r matches Some(p) ==> ev(*self) == Ev::Path(p@),
    {
        match self {
            ExtensionValue::Path(p) => Some(p),
            _ => None,
        }
    }

    pub fn as_list(&self) -> (r: Option<&[ExtensionValue]>)
        ensures
            (r is Some) == (ev(*self) is List),
            r matches Some(l) ==> ev(*self) == Ev::List(evs(l@)),
    {
        match self {
            ExtensionValue::List(v) => {
                assert(ev(*self)->List_0 =~= evs(v@));
                Some(v.as_slice())
            }
            _ => None,
        }
    }

    /// Look up a key when this value is a Map.
    pub fn get(&self, key: &str) -> (r: Option<&ExtensionValue>)
        ensures
            match r {
                Some(x) => ev_get(ev(*self), key@) == Some(ev(*x)),
                None => ev_get(ev(*self), key@) is None,
            },
    {
        match self {
            ExtensionValue::Table(pairs) => {
                let ghost m = ev(*self)->Table_0;
                let mut i: usize = 0;
                assert(m.skip(0) =~= m);
                assert(ev_get(ev(*self), key@) == assoc_get(m, key@));
                while i < pairs.len()
                    invariant
                        i <= pairs@.len(),
                        ev_get(ev(*self), key@) == assoc_get(m, key@),
                        m.len() == pairs@.len(),
                        forall|j: int| 0 <= j < pairs@.len() ==> #[trigger] m[j] == (pairs@[j].0@, ev(pairs@[j].1)),
                        assoc_get(m, key@) == assoc_get(m.skip(i as int), key@),
                    decreases pairs@.len() - i,
                {
                    assert(m.skip(i as int).drop_first() =~= m.skip(i + 1));
                    if str_eq(pairs[i].0.as_str(), key) {
                        assert(m.skip(i as int)[0] == m[i as int]);
                        assert(m[i as int] == (pairs@[i as int].0@, ev(pairs@[i as int].1)));
                        assert(assoc_get(m.skip(i as int), key@) == Some(m[i as int].1));
                        return Some(&pairs[i].1);
                    }
                    i = i + 1;
                }
                None
            }
            _ => None,
        }
    }

    /// Build a table from key/value pairs (a later pair wins on a repeated key).
    pub fn map(pairs: Vec<(String, ExtensionValue)>) -> (r: ExtensionValue)
        ensures
            ev(r) == Ev::Table(build_map(pair_models(pairs@))),
            keys_ascending(build_map(pair_models(pairs@))),
    {
        proof { law_build_map_keys_ascending(pair_models(pairs@)); }
        let ghost ps = pair_models(pairs@);
        let mut acc: Vec<(String, ExtensionValue)> = Vec::new();
        let mut i: usize = 0;
        assert(ps.take(0) =~= Seq::<(Seq<char>, Ev)>::empty());
        assert(pair_models(acc@) =~= Seq::<(Seq<char>, Ev)>::empty());
        while i < pairs.len()
            invariant
                i <= pairs@.len(),
                ps == pair_models(pairs@),
                pair_models(acc@) == build_map(ps.take(i as int)),
            decreases pairs@.len() - i,
        {
            let k = pairs[i].0.clone();
            let v = pairs[i].1.dup();
            assert(ps.take(i + 1).drop_last() =~= ps.take(i as int));
            acc = insert_sorted(&acc, k, v);
            i = i + 1;
        }
        assert(ps.take(i as int) =~= ps);
        proof { lemma_table_model(acc); }
        ExtensionValue::Table(acc)
    }

    /// A copy with `key` set to `value` (tables only; otherwise a new table).
    pub fn with(&self, key: &str, value: ExtensionValue) -> (r: ExtensionValue)
        ensures
            ev(r) == ev_with(ev(*self), key@, ev(value)),
    {
        let empty: Vec<(String, ExtensionValue)> = Vec::new();
        let r = match self {
            ExtensionValue::Table(p) => {
                proof { lemma_table_model(*p); }
                insert_sorted(p, owned(key), value)
            }
            _ => {
                assert(pair_models(empty@) =~= Seq::<(Seq<char>, Ev)>::empty());
                assert(sorted_insert(Seq::empty(), key@, ev(value)) == seq![(key@, ev(value))]);
                insert_sorted(&empty, owned(key), value)
            }
        };
        proof { lemma_table_model(r); }
        ExtensionValue::Table(r)
    }
}

/// The models of key/value pairs.
pub open spec fn pair_models(ps: Seq<(String, ExtensionValue)>) -> Seq<(Seq<char>, Ev)> {
    Seq::new(ps.len(), |i: int| (ps[i].0@, ev(ps[i].1)))
}

/// The model of a table is the models of its pairs.
pub proof fn lemma_table_model(v: Vec<(String, ExtensionValue)>)
    ensures
        ev(ExtensionValue::Table(v)) == Ev::Table(pair_models(v@)),
{
    assert(ev(ExtensionValue::Table(v))->Table_0 =~= pair_models(v@));
}

proof fn lemma_sorted_insert_prefix(m: Seq<(Seq<char>, Ev)>, key: Seq<char>, value: Ev, i: int)
    requires
        0 <= i <= m.len(),
        forall|j: int| 0 <= j < i ==> m[j].0 != key && !seq_less(key, #[trigger] m[j].0),
    ensures
        sorted_insert(m, key, value) == m.take(i) + sorted_insert(m.skip(i), key, value),
    decreases i,
{
    if i == 0 {
        assert(m.skip(0) =~= m);
        assert(m.take(0) + sorted_insert(m, key, value) =~= sorted_insert(m, key, value));
    } else {
        lemma_sorted_insert_prefix(m.drop_first(), key, value, i - 1);
        assert(m.drop_first().skip(i - 1) =~= m.skip(i));
        assert(seq![m[0]] + m.drop_first().take(i - 1) =~= m.take(i));
        assert(m[0].0 != key && !seq_less(key, m[0].0));
        assert(sorted_insert(m, key, value) == seq![m[0]] + sorted_insert(m.drop_first(), key, value));
        assert(seq![m[0]] + (m.drop_first().take(i - 1) + sorted_insert(m.skip(i), key, value))
            =~= m.take(i) + sorted_insert(m.skip(i), key, value));
    }
}

/// Copies the pairs `pairs[from..]` onto the end of `out`.
fn copy_pairs_from(out: &mut Vec<(String, ExtensionValue)>, pairs: &Vec<(String, ExtensionValue)>, from: usize)
    requires
        from <= pairs@.len(),
    ensures
        pair_models(final(out)@) == pair_models(old(out)@) + pair_models(pairs@).skip(from as int),
{
    let ghost o = pair_models(out@);
    let mut i = from;
    while i < pairs.len()
        invariant
            from <= i <= pairs@.len(),
            pair_models(out@) =~= o + pair_models(pairs@).subrange(from as int, i as int),
        decreases pairs@.len() - i,
    {
        let ghost before = pair_models(out@);
        out.push((pairs[i].0.clone(), pairs[i].1.dup()));
        assert(pair_models(out@) =~= before.push(pair_models(pairs@)[i as int]));
        i = i + 1;
    }
    assert(pair_models(pairs@).subrange(from as int, i as int) =~= pair_models(pairs@).skip(from as int));
}

/// Sets `key` to `value` in a key-sorted association list.
#[verifier::loop_isolation(false)]
pub fn insert_sorted(pairs: &Vec<(String, ExtensionValue)>, key: String, value: ExtensionValue) -> (r: Vec<(String, ExtensionValue)>)
    ensures
        pair_models(r@) == sorted_insert(pair_models(pairs@), key@, ev(value)),
{
    let ghost m = pair_models(pairs@);
    let mut out: Vec<(String, ExtensionValue)> = Vec::new();
    let mut i: usize = 0;
    let mut same = false;
    while i < pairs.len()
        invariant
            i <= pairs@.len(),
            !same,
            pair_models(out@) =~= m.take(i as int),
            forall|j: int| 0 <= j < i ==> m[j].0 != key@ && !seq_less(key@, #[trigger] m[j].0),
        decreases pairs@.len() - i,
    {
        if str_eq(pairs[i].0.as_str(), key.as_str()) {
            same = true;
            break;
        }
        if str_less(key.as_str(), pairs[i].0.as_str()) {
            break;
        }
        let ghost before = pair_models(out@);
        out.push((pairs[i].0.clone(), pairs[i].1.dup()));
        assert(pair_models(out@) =~= before.push(m[i as int]));
        assert(m.take(i + 1) =~= m.take(i as int).push(m[i as int]));
        i = i + 1;
    }
    proof {
        lemma_sorted_insert_prefix(m, key@, ev(value), i as int);
    }
    let ghost o = pair_models(out@);
    let ghost kv = (key@, ev(value));
    out.push((key, value));
    assert(pair_models(out@) =~= o.push(kv));
    let from = if same { i + 1 } else { i };
    proof {
        if i == pairs@.len() {
            assert(m.skip(i as int) =~= Seq::<(Seq<char>, Ev)>::empty());
            assert(m.skip(from as int) =~= Seq::<(Seq<char>, Ev)>::empty());
        } else if same {
            assert(m.skip(i as int)[0].0 == key@);
            assert(m.skip(i as int).drop_first() =~= m.skip(from as int));
        } else {
            assert(m.skip(i as int)[0] == m[i as int]);
        }
    }
    copy_pairs_from(&mut out, pairs, from);
    assert(o.push(kv) + m.skip(from as int) =~= m.take(i as int) + (seq![kv] + m.skip(from as int)));
    out
}

} // verus!
