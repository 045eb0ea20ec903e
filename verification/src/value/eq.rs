//! Structural equality of values.
use vstd::prelude::*;

use crate::rb_types::rb_string::RbString;
use crate::rb_types::symbol::Symbol;
use vstd::utf8::{encode_utf8, encode_utf8_decode_utf8};
use crate::value::{
    field_models, lemma_field_models_index, lemma_models_index, lemma_pair_models_index, model,
    models, pair_models, FieldsModel, Object, RbArray, RbFields, RbHash, Userdata, Value, ValueModel,
};

verus! {

broadcast use vstd::std_specs::vec::group_vec_axioms, vstd::seq::group_seq_axioms;

/// Whether two byte strings are equal.
pub fn bytes_eq(a: &[u8], b: &[u8]) -> (r: bool)
    ensures
        r == (a@ == b@),
{
    if a.len() != b.len() {
        return false;
    }
    let mut i: usize = 0;
    while i < a.len()
        invariant
            a@.len() == b@.len(),
            i <= a@.len(),
            forall|j: int| 0 <= j < i ==> a@[j] == b@[j],
        decreases a@.len() - i,
    {
        if a[i] != b[i] {
            return false;
        }
        i = i + 1;
    }
    assert(a@ =~= b@);
    true
}

/// Two arrays of the same length whose elements are pairwise equal.
pub open spec fn same_items(x: Seq<ValueModel>, y: Seq<ValueModel>) -> bool
    decreases x,
{
    x.len() == y.len() && forall|i: int| 0 <= i < x.len() ==> same(#[trigger] x[i], y[i])
}

fn values_eq(x: &Vec<Value>, y: &Vec<Value>) -> (r: bool)
    ensures
        r == same_items(models(x@), models(y@)),
    decreases x,
{
    let ghost xs = models(x@);
    let ghost ys = models(y@);
    proof {
        lemma_models_index(x@);
        lemma_models_index(y@);
    }
    if x.len() != y.len() {
        return false;
    }
    let mut i: usize = 0;
    while i < x.len()
        invariant
            xs == models(x@),
            ys == models(y@),
            x@.len() == y@.len(),
            xs.len() == x@.len(),
            ys.len() == y@.len(),
            forall|j: int| 0 <= j < x@.len() ==> #[trigger] xs[j] == model(x@[j]),
            forall|j: int| 0 <= j < y@.len() ==> #[trigger] ys[j] == model(y@[j]),
            i <= x@.len(),
            forall|j: int| 0 <= j < i ==> same(#[trigger] xs[j], ys[j]),
        decreases x@.len() - i,
    {
        if !value_eq(&x[i], &y[i]) {
            assert(!same(xs[i as int], ys[i as int]));
            return false;
        }
        i = i + 1;
    }
    true
}

/// Whether two values are equal: the same kind with equal contents, where a
/// float is compared by its text, and where the entries of a hash and the
/// instance variables of an object are compared as maps, in any order.
pub open spec fn same(a: ValueModel, b: ValueModel) -> bool
    decreases a,
{
    match a {
        ValueModel::Array(x) => match b {
            ValueModel::Array(y) => same_items(x, y),
            _ => false,
        },
        ValueModel::Hash(x) => match b {
            ValueModel::Hash(y) => same_entries(x, y),
            _ => false,
        },
        ValueModel::Object(c, f) => match b {
            ValueModel::Object(c2, g) => c == c2 && same_fields(f, g),
            _ => false,
        },
        ValueModel::Struct(c, f) => match b {
            ValueModel::Struct(c2, g) => c == c2 && same_fields(f, g),
            _ => false,
        },
        ValueModel::Instance(v, f) => match b {
            ValueModel::Instance(v2, g) => same(*v, *v2) && same_fields(f, g),
            _ => false,
        },
        ValueModel::Extended(c, v) => match b {
            ValueModel::Extended(c2, v2) => c == c2 && same(*v, *v2),
            _ => false,
        },
        ValueModel::UserClass(c, v) => match b {
            ValueModel::UserClass(c2, v2) => c == c2 && same(*v, *v2),
            _ => false,
        },
        ValueModel::UserMarshal(c, v) => match b {
            ValueModel::UserMarshal(c2, v2) => c == c2 && same(*v, *v2),
            _ => false,
        },
        ValueModel::Data(c, v) => match b {
            ValueModel::Data(c2, v2) => c == c2 && same(*v, *v2),
            _ => false,
        },
        _ => a == b,
    }
}

/// Two hashes hold the same number of entries, and each entry of the first
/// has an equal entry in the second.
pub open spec fn same_entries(x: Seq<(ValueModel, ValueModel)>, y: Seq<(ValueModel, ValueModel)>) -> bool
    decreases x,
{
    x.len() == y.len() && forall|i: int| 0 <= i < x.len() ==> entry_in(#[trigger] x[i], y)
}

/// The hash `y` has an entry whose key and value equal those of `e`.
pub open spec fn entry_in(e: (ValueModel, ValueModel), y: Seq<(ValueModel, ValueModel)>) -> bool
    decreases e,
{
    exists|j: int| 0 <= j < y.len() && same(e.0, #[trigger] y[j].0) && same(e.1, y[j].1)
}

/// Two lists of instance variables hold as many entries, and each entry of
/// the first has an entry of the same name and an equal value in the second.
pub open spec fn same_fields(f: FieldsModel, g: FieldsModel) -> bool
    decreases f,
{
    f.len() == g.len() && forall|i: int| 0 <= i < f.len() ==> field_in(#[trigger] f[i], g)
}

/// The list `g` has an instance variable of the name of `e`, with a value
/// equal to that of `e`.
pub open spec fn field_in(e: (Seq<char>, ValueModel), g: FieldsModel) -> bool
    decreases e,
{
    exists|j: int| 0 <= j < g.len() && e.0 == g[j].0 && same(e.1, #[trigger] g[j].1)
}

fn entry_in_hash(e: &(Value, Value), y: &RbHash) -> (r: bool)
    ensures
        r == entry_in((model(e.0), model(e.1)), pair_models(y@)),
    decreases e,
{
    let ghost ys = pair_models(y@);
    proof {
        lemma_pair_models_index(y@);
    }
    let mut j: usize = 0;
    while j < y.len()
        invariant
            ys == pair_models(y@),
            ys.len() == y@.len(),
            forall|k: int| 0 <= k < y@.len() ==> #[trigger] ys[k] == (model(y@[k].0), model(y@[k].1)),
            j <= y@.len(),
            forall|k: int| 0 <= k < j ==> !(same(model(e.0), #[trigger] ys[k].0) && same(model(e.1), ys[k].1)),
        decreases y@.len() - j,
    {
        let ey = &y[j];
        if value_eq(&e.0, &ey.0) && value_eq(&e.1, &ey.1) {
            assert(same(model(e.0), ys[j as int].0) && same(model(e.1), ys[j as int].1));
            return true;
        }
        j = j + 1;
    }
    false
}

fn pairs_eq(x: &RbHash, y: &RbHash) -> (r: bool)
    ensures
        r == same_entries(pair_models(x@), pair_models(y@)),
    decreases x,
{
    let ghost xs = pair_models(x@);
    let ghost ys = pair_models(y@);
    proof {
        lemma_pair_models_index(x@);
        lemma_pair_models_index(y@);
    }
    if x.len() != y.len() {
        return false;
    }
    let mut i: usize = 0;
    while i < x.len()
        invariant
            xs == pair_models(x@),
            ys == pair_models(y@),
            x@.len() == y@.len(),
            xs.len() == x@.len(),
            ys.len() == y@.len(),
            forall|k: int| 0 <= k < x@.len() ==> #[trigger] xs[k] == (model(x@[k].0), model(x@[k].1)),
            i <= x@.len(),
            forall|k: int| 0 <= k < i ==> entry_in(#[trigger] xs[k], ys),
        decreases x@.len() - i,
    {
        if !entry_in_hash(&x[i], y) {
            assert(!entry_in(xs[i as int], ys));
            return false;
        }
        i = i + 1;
    }
    true
}

fn field_in_fields(e: &(Symbol, Value), g: &RbFields) -> (r: bool)
    ensures
        r == field_in((e.0@, model(e.1)), field_models(g@)),
    decreases e,
{
    let ghost gs = field_models(g@);
    proof {
        lemma_field_models_index(g@);
    }
    let mut j: usize = 0;
    while j < g.len()
        invariant
            gs == field_models(g@),
            gs.len() == g@.len(),
            forall|k: int| 0 <= k < g@.len() ==> #[trigger] gs[k] == (g@[k].0@, model(g@[k].1)),
            j <= g@.len(),
            forall|k: int| 0 <= k < j ==> !(e.0@ == #[trigger] gs[k].0 && same(model(e.1), gs[k].1)),
        decreases g@.len() - j,
    {
        let eg = &g[j];
        if e.0 == eg.0 && value_eq(&e.1, &eg.1) {
            assert(e.0@ == gs[j as int].0 && same(model(e.1), gs[j as int].1));
            return true;
        }
        j = j + 1;
    }
    false
}

fn fields_eq(x: &RbFields, y: &RbFields) -> (r: bool)
    ensures
        r == same_fields(field_models(x@), field_models(y@)),
    decreases x,
{
    let ghost xs = field_models(x@);
    let ghost ys = field_models(y@);
    proof {
        lemma_field_models_index(x@);
        lemma_field_models_index(y@);
    }
    if x.len() != y.len() {
        return false;
    }
    let mut i: usize = 0;
    while i < x.len()
        invariant
            xs == field_models(x@),
            ys == field_models(y@),
            x@.len() == y@.len(),
            xs.len() == x@.len(),
            ys.len() == y@.len(),
            forall|k: int| 0 <= k < x@.len() ==> #[trigger] xs[k] == (x@[k].0@, model(x@[k].1)),
            i <= x@.len(),
            forall|k: int| 0 <= k < i ==> field_in(#[trigger] xs[k], ys),
        decreases x@.len() - i,
    {
        if !field_in_fields(&x[i], y) {
            assert(!field_in(xs[i as int], ys));
            return false;
        }
        i = i + 1;
    }
    true
}

/// Whether two values are equal (see [`same`]).
#[verifier::rlimit(40)]
pub fn value_eq(a: &Value, b: &Value) -> (r: bool)
    ensures
        r == same(a@, b@),
    decreases a,
{
    match (a, b) {
        (Value::Nil, Value::Nil) => true,
        (Value::Bool(x), Value::Bool(y)) => *x == *y,
        (Value::Float(x), Value::Float(y)) => bytes_eq(x.as_slice(), y.as_slice()),
        (Value::Integer(x), Value::Integer(y)) => *x == *y,
        (Value::String(x), Value::String(y)) => bytes_eq(x.as_slice(), y.as_slice()),
        (Value::Symbol(x), Value::Symbol(y)) => *x == *y,
        (Value::Array(x), Value::Array(y)) => values_eq(x, y),
        (Value::Hash(x), Value::Hash(y)) => pairs_eq(x, y),
        (Value::Userdata(x), Value::Userdata(y)) => x.class == y.class && bytes_eq(
            x.data.as_slice(),
            y.data.as_slice(),
        ),
        (Value::Object(x), Value::Object(y)) => x.class == y.class && fields_eq(
            &x.fields,
            &y.fields,
        ),
        (Value::Instance(x), Value::Instance(y)) => value_eq(&x.value, &y.value) && fields_eq(
            &x.fields,
            &y.fields,
        ),
        (Value::Regex { data: d1, flags: f1 }, Value::Regex { data: d2, flags: f2 }) => *f1
            == *f2 && bytes_eq(d1.as_slice(), d2.as_slice()),
        (Value::RbStruct(x), Value::RbStruct(y)) => x.class == y.class && fields_eq(
            &x.fields,
            &y.fields,
        ),
        (Value::Class(x), Value::Class(y)) => *x == *y,
        (Value::Module(x), Value::Module(y)) => *x == *y,
        (
            Value::Extended { module: m1, value: v1 },
            Value::Extended { module: m2, value: v2 },
        ) => *m1 == *m2 && value_eq(v1, v2),
        (
            Value::UserClass { class: c1, value: v1 },
            Value::UserClass { class: c2, value: v2 },
        ) => *c1 == *c2 && value_eq(v1, v2),
        (
            Value::UserMarshal { class: c1, value: v1 },
            Value::UserMarshal { class: c2, value: v2 },
        ) => *c1 == *c2 && value_eq(v1, v2),
        (Value::Data { class: c1, value: v1 }, Value::Data { class: c2, value: v2 }) => *c1
            == *c2 && value_eq(v1, v2),
        _ => false,
    }
}

/// Every value equals itself.
pub proof fn lemma_same_refl(a: ValueModel)
    ensures
        same(a, a),
    decreases a,
{
    match a {
        ValueModel::Array(x) => {
            assert forall|i: int| 0 <= i < x.len() implies same(#[trigger] x[i], x[i]) by {
                lemma_same_refl(x[i]);
            }
            assert(same_items(x, x));
            assert(same(a, a));
        },
        ValueModel::Hash(x) => {
            assert forall|i: int| 0 <= i < x.len() implies entry_in(#[trigger] x[i], x) by {
                lemma_same_refl(x[i].0);
                lemma_same_refl(x[i].1);
                assert(same(x[i].0, x[i].0) && same(x[i].1, x[i].1));
            }
            assert(same_entries(x, x));
            assert(same(a, a));
        },
        ValueModel::Object(_, f) => {
            lemma_same_fields_refl(f);
            assert(same(a, a));
        },
        ValueModel::Struct(_, f) => {
            lemma_same_fields_refl(f);
            assert(same(a, a));
        },
        ValueModel::Instance(v, f) => {
            lemma_same_refl(*v);
            lemma_same_fields_refl(f);
            assert(same(a, a));
        },
        ValueModel::Extended(_, v) => {
            lemma_same_refl(*v);
            assert(same(a, a));
        },
        ValueModel::UserClass(_, v) => {
            lemma_same_refl(*v);
            assert(same(a, a));
        },
        ValueModel::UserMarshal(_, v) => {
            lemma_same_refl(*v);
            assert(same(a, a));
        },
        ValueModel::Data(_, v) => {
            lemma_same_refl(*v);
            assert(same(a, a));
        },
        _ => {
            assert(same(a, a));
        },
    }
}

/// Every list of instance variables equals itself.
pub proof fn lemma_same_fields_refl(f: FieldsModel)
    ensures
        same_fields(f, f),
    decreases f,
{
    assert forall|i: int| 0 <= i < f.len() implies field_in(#[trigger] f[i], f) by {
        lemma_same_refl(f[i].1);
        assert(f[i].0 == f[i].0 && same(f[i].1, f[i].1));
    }
}

/// Equality of values is transitive.
pub proof fn lemma_same_trans(a: ValueModel, b: ValueModel, c: ValueModel)
    requires
        same(a, b),
        same(b, c),
    ensures
        same(a, c),
    decreases a,
{
    match a {
        ValueModel::Array(x) => {
            let y = b->Array_0;
            let z = c->Array_0;
            assert(same_items(x, y) && same_items(y, z));
            assert forall|i: int| 0 <= i < x.len() implies same(#[trigger] x[i], z[i]) by {
                assert(same(x[i], y[i]) && same(y[i], z[i]));
                lemma_same_trans(x[i], y[i], z[i]);
            }
            assert(same_items(x, z));
        },
        ValueModel::Hash(x) => {
            let y = b->Hash_0;
            let z = c->Hash_0;
            assert(same_entries(x, y) && same_entries(y, z));
            assert forall|i: int| 0 <= i < x.len() implies entry_in(#[trigger] x[i], z) by {
                assert(entry_in(x[i], y));
                let j = choose|j: int| 0 <= j < y.len() && same(x[i].0, #[trigger] y[j].0) && same(x[i].1, y[j].1);
                assert(entry_in(y[j], z));
                let k = choose|k: int| 0 <= k < z.len() && same(y[j].0, #[trigger] z[k].0) && same(y[j].1, z[k].1);
                lemma_same_trans(x[i].0, y[j].0, z[k].0);
                lemma_same_trans(x[i].1, y[j].1, z[k].1);
                assert(same(x[i].0, z[k].0) && same(x[i].1, z[k].1));
            }
            assert(same_entries(x, z));
        },
        ValueModel::Object(_, f) => {
            lemma_same_fields_trans(f, b->Object_1, c->Object_1);
        },
        ValueModel::Struct(_, f) => {
            lemma_same_fields_trans(f, b->Struct_1, c->Struct_1);
        },
        ValueModel::Instance(v, f) => {
            lemma_same_trans(*v, *b->Instance_0, *c->Instance_0);
            lemma_same_fields_trans(f, b->Instance_1, c->Instance_1);
        },
        ValueModel::Extended(_, v) => lemma_same_trans(*v, *b->Extended_1, *c->Extended_1),
        ValueModel::UserClass(_, v) => lemma_same_trans(*v, *b->UserClass_1, *c->UserClass_1),
        ValueModel::UserMarshal(_, v) => lemma_same_trans(*v, *b->UserMarshal_1, *c->UserMarshal_1),
        ValueModel::Data(_, v) => lemma_same_trans(*v, *b->Data_1, *c->Data_1),
        _ => {},
    }
}

/// Equality of lists of instance variables is transitive.
pub proof fn lemma_same_fields_trans(f: FieldsModel, g: FieldsModel, h: FieldsModel)
    requires
        same_fields(f, g),
        same_fields(g, h),
    ensures
        same_fields(f, h),
    decreases f,
{
    assert forall|i: int| 0 <= i < f.len() implies field_in(#[trigger] f[i], h) by {
        assert(field_in(f[i], g));
        let j = choose|j: int| 0 <= j < g.len() && f[i].0 == g[j].0 && same(f[i].1, #[trigger] g[j].1);
        assert(field_in(g[j], h));
        let k = choose|k: int| 0 <= k < h.len() && g[j].0 == h[k].0 && same(g[j].1, #[trigger] h[k].1);
        lemma_same_trans(f[i].1, g[j].1, h[k].1);
        assert(f[i].0 == h[k].0 && same(f[i].1, h[k].1));
    }
}

/// Every hash within the value has pairwise unequal keys, and every list of
/// instance variables within it has distinct names, as in a map.
pub open spec fn well_keyed(v: ValueModel) -> bool
    decreases v,
{
    match v {
        ValueModel::Array(x) => forall|i: int| 0 <= i < x.len() ==> well_keyed(#[trigger] x[i]),
        ValueModel::Hash(x) => {
            &&& forall|i: int| 0 <= i < x.len() ==> well_keyed(#[trigger] x[i].0) && well_keyed(x[i].1)
            &&& forall|i: int, j: int|
                0 <= i < x.len() && 0 <= j < x.len() && i != j ==> !same(#[trigger] x[i].0, #[trigger] x[j].0)
        },
        ValueModel::Object(_, f) => fields_well_keyed(f),
        ValueModel::Struct(_, f) => fields_well_keyed(f),
        ValueModel::Instance(inner, f) => well_keyed(*inner) && fields_well_keyed(f),
        ValueModel::Extended(_, inner) => well_keyed(*inner),
        ValueModel::UserClass(_, inner) => well_keyed(*inner),
        ValueModel::UserMarshal(_, inner) => well_keyed(*inner),
        ValueModel::Data(_, inner) => well_keyed(*inner),
        _ => true,
    }
}

/// Instance variables with distinct names and well-keyed values.
pub open spec fn fields_well_keyed(f: FieldsModel) -> bool
    decreases f,
{
    &&& forall|i: int| 0 <= i < f.len() ==> well_keyed(#[trigger] f[i].1)
    &&& forall|i: int, j: int|
        0 <= i < f.len() && 0 <= j < f.len() && i != j ==> #[trigger] f[i].0 != #[trigger] f[j].0
}

/// Some place in `0..n` is mapped to `j`.
pub open spec fn reached(n: int, f: spec_fn(int) -> int, j: int) -> bool {
    exists|i: int| 0 <= i < n && #[trigger] f(i) == j
}

/// A one-to-one map from `0..n` into `0..n` reaches every place.
pub proof fn lemma_injection_onto(n: int, f: spec_fn(int) -> int)
    requires
        n >= 0,
        forall|i: int| 0 <= i < n ==> 0 <= #[trigger] f(i) < n,
        forall|i: int, k: int| 0 <= i < n && 0 <= k < n && i != k ==> #[trigger] f(i) != #[trigger] f(k),
    ensures
        forall|j: int| 0 <= j < n ==> #[trigger] reached(n, f, j),
{
    let s = vstd::set_lib::set_int_range(0, n);
    vstd::set_lib::lemma_int_range(0, n);
    let t = s.map(f);
    assert(vstd::relations::injective_on(f, s)) by {
        assert forall|x1: int, x2: int|
            s.contains(x1) && s.contains(x2) && #[trigger] f(x1) == #[trigger] f(x2) implies x1 == x2 by {
            if x1 != x2 {
                assert(f(x1) != f(x2));
            }
        }
    }
    vstd::set_lib::lemma_map_size(s, t, f);
    assert(t.subset_of(s)) by {
        assert forall|y: int| t.contains(y) implies s.contains(y) by {
            let x = choose|x: int| s.contains(x) && y == f(x);
            assert(0 <= f(x) < n);
        }
    }
    vstd::set_lib::lemma_subset_equality(t, s);
    assert forall|j: int| 0 <= j < n implies #[trigger] reached(n, f, j) by {
        assert(s.contains(j));
        assert(t.contains(j));
        let x = choose|x: int| s.contains(x) && j == f(x);
        assert(0 <= x < n && f(x) == j);
    }
}

/// Equality of well-keyed values is symmetric.
pub proof fn lemma_same_sym(a: ValueModel, b: ValueModel)
    requires
        well_keyed(a),
        well_keyed(b),
        same(a, b),
    ensures
        same(b, a),
    decreases a,
{
    match a {
        ValueModel::Array(x) => {
            let y = b->Array_0;
            assert(same_items(x, y));
            assert forall|i: int| 0 <= i < y.len() implies same(#[trigger] y[i], x[i]) by {
                assert(same(x[i], y[i]));
                assert(well_keyed(x[i]) && well_keyed(y[i]));
                lemma_same_sym(x[i], y[i]);
            }
            assert(same_items(y, x));
        },
        ValueModel::Hash(x) => {
            let y = b->Hash_0;
            let n = x.len() as int;
            assert(same_entries(x, y));
            let m = |i: int|
                choose|j: int| 0 <= j < n && same(x[i].0, #[trigger] y[j].0) && same(x[i].1, y[j].1);
            assert forall|i: int| 0 <= i < n implies 0 <= #[trigger] m(i) < n && same(x[i].0, y[m(i)].0)
                && same(x[i].1, y[m(i)].1) by {
                assert(entry_in(x[i], y));
            }
            assert forall|i: int, k: int| 0 <= i < n && 0 <= k < n && i != k implies #[trigger] m(i)
                != #[trigger] m(k) by {
                if m(i) == m(k) {
                    let j = m(i);
                    assert(same(x[i].0, y[j].0) && same(x[k].0, y[j].0));
                    assert(well_keyed(x[k].0) && well_keyed(y[j].0));
                    lemma_same_sym(x[k].0, y[j].0);
                    lemma_same_trans(x[i].0, y[j].0, x[k].0);
                    assert(!same(x[i].0, x[k].0));
                }
            }
            lemma_injection_onto(n, m);
            assert forall|j: int| 0 <= j < y.len() implies entry_in(#[trigger] y[j], x) by {
                assert(reached(n, m, j));
                let i = choose|i: int| 0 <= i < n && #[trigger] m(i) == j;
                assert(same(x[i].0, y[j].0) && same(x[i].1, y[j].1));
                assert(well_keyed(x[i].0) && well_keyed(x[i].1));
                assert(well_keyed(y[j].0) && well_keyed(y[j].1));
                lemma_same_sym(x[i].0, y[j].0);
                lemma_same_sym(x[i].1, y[j].1);
                assert(same(y[j].0, x[i].0) && same(y[j].1, x[i].1));
            }
            assert(same_entries(y, x));
        },
        ValueModel::Object(_, f) => {
            lemma_same_fields_sym(f, b->Object_1);
        },
        ValueModel::Struct(_, f) => {
            lemma_same_fields_sym(f, b->Struct_1);
        },
        ValueModel::Instance(v, f) => {
            lemma_same_sym(*v, *b->Instance_0);
            lemma_same_fields_sym(f, b->Instance_1);
        },
        ValueModel::Extended(_, v) => lemma_same_sym(*v, *b->Extended_1),
        ValueModel::UserClass(_, v) => lemma_same_sym(*v, *b->UserClass_1),
        ValueModel::UserMarshal(_, v) => lemma_same_sym(*v, *b->UserMarshal_1),
        ValueModel::Data(_, v) => lemma_same_sym(*v, *b->Data_1),
        _ => {},
    }
}

/// Equality of well-keyed lists of instance variables is symmetric.
pub proof fn lemma_same_fields_sym(f: FieldsModel, g: FieldsModel)
    requires
        fields_well_keyed(f),
        fields_well_keyed(g),
        same_fields(f, g),
    ensures
        same_fields(g, f),
    decreases f,
{
    let n = f.len() as int;
    let m = |i: int| choose|j: int| 0 <= j < n && f[i].0 == g[j].0 && same(f[i].1, #[trigger] g[j].1);
    assert forall|i: int| 0 <= i < n implies 0 <= #[trigger] m(i) < n && f[i].0 == g[m(i)].0 && same(
        f[i].1,
        g[m(i)].1,
    ) by {
        assert(field_in(f[i], g));
    }
    assert forall|i: int, k: int| 0 <= i < n && 0 <= k < n && i != k implies #[trigger] m(i)
        != #[trigger] m(k) by {
        if m(i) == m(k) {
            assert(f[i].0 == f[k].0);
        }
    }
    lemma_injection_onto(n, m);
    assert forall|j: int| 0 <= j < g.len() implies field_in(#[trigger] g[j], f) by {
        assert(reached(n, m, j));
        let i = choose|i: int| 0 <= i < n && #[trigger] m(i) == j;
        assert(f[i].0 == g[j].0 && same(f[i].1, g[j].1));
        assert(well_keyed(f[i].1) && well_keyed(g[j].1));
        lemma_same_sym(f[i].1, g[j].1);
        assert(g[j].0 == f[i].0 && same(g[j].1, f[i].1));
    }
}

/// Whether a value holds no other values: equality compares it as it is.
pub open spec fn holds_no_values(v: ValueModel) -> bool {
    !(v is Array || v is Hash || v is Object || v is Struct || v is Instance || v is Extended
        || v is UserClass || v is UserMarshal || v is Data)
}

/// Values that hold no other values are equal exactly when they are the same:
/// two strings are equal when their bytes are, two symbols when their texts
/// are, two integers when they are the same number, and so on.
pub proof fn lemma_same_plain_values(a: ValueModel, b: ValueModel)
    requires
        holds_no_values(a),
    ensures
        same(a, b) <==> a == b,
{
}

/// Two strings are equal exactly when they hold the same bytes.
pub proof fn lemma_same_strings(x: Seq<u8>, y: Seq<u8>)
    ensures
        same(ValueModel::String(x), ValueModel::String(y)) <==> x == y,
{
    lemma_same_plain_values(ValueModel::String(x), ValueModel::String(y));
}

/// Equal values are of the same kind: values of different kinds are never
/// equal.
pub proof fn lemma_same_kind(a: ValueModel, b: ValueModel)
    requires
        same(a, b),
    ensures
        a is Nil <==> b is Nil,
        a is Bool <==> b is Bool,
        a is Float <==> b is Float,
        a is Integer <==> b is Integer,
        a is String <==> b is String,
        a is Symbol <==> b is Symbol,
        a is Array <==> b is Array,
        a is Hash <==> b is Hash,
        a is Userdata <==> b is Userdata,
        a is Object <==> b is Object,
        a is Instance <==> b is Instance,
        a is Regex <==> b is Regex,
        a is Struct <==> b is Struct,
        a is Class <==> b is Class,
        a is Module <==> b is Module,
        a is Extended <==> b is Extended,
        a is UserClass <==> b is UserClass,
        a is UserMarshal <==> b is UserMarshal,
        a is Data <==> b is Data,
{
}

/// Two arrays of one value each are equal exactly when their values are.
pub proof fn lemma_same_single_arrays(a: ValueModel, b: ValueModel)
    ensures
        same(ValueModel::Array(seq![a]), ValueModel::Array(seq![b])) <==> same(a, b),
{
    let x = seq![a];
    let y = seq![b];
    assert(x[0] == a && y[0] == b);
    if same_items(x, y) {
        assert(same(x[0], y[0]));
    }
    if same(a, b) {
        assert forall|i: int| 0 <= i < x.len() implies same(#[trigger] x[i], y[i]) by {
            assert(i == 0);
        }
        assert(same_items(x, y));
    }
}

/// Equal arrays, and equal hashes, hold as many entries.
pub proof fn lemma_same_collections_same_size(a: ValueModel, b: ValueModel)
    requires
        same(a, b),
    ensures
        a is Array ==> b is Array && a->Array_0.len() == b->Array_0.len(),
        a is Hash ==> b is Hash && a->Hash_0.len() == b->Hash_0.len(),
{
    match a {
        ValueModel::Array(x) => {
            assert(same_items(x, b->Array_0));
        },
        ValueModel::Hash(x) => {
            assert(same_entries(x, b->Hash_0));
        },
        _ => {},
    }
}

/// Two hashes of one entry each, with equal keys, are equal exactly when
/// their values are.
pub proof fn lemma_same_single_entry_hashes(k: ValueModel, v: ValueModel, k2: ValueModel, w: ValueModel)
    requires
        same(k, k2),
    ensures
        same(ValueModel::Hash(seq![(k, v)]), ValueModel::Hash(seq![(k2, w)])) <==> same(v, w),
{
    let x = seq![(k, v)];
    let y = seq![(k2, w)];
    assert(x[0] == (k, v) && y[0] == (k2, w));
    if same(v, w) {
        assert(same(x[0].0, y[0].0) && same(x[0].1, y[0].1));
        assert(entry_in(x[0], y));
        assert(same_entries(x, y));
    }
    if same_entries(x, y) {
        assert(entry_in(x[0], y));
        let j = choose|j: int| 0 <= j < y.len() && same(x[0].0, #[trigger] y[j].0) && same(x[0].1, y[j].1);
        assert(j == 0);
    }
}

/// Values wrapped with the same module or class are equal exactly when the
/// wrapped values are.
pub proof fn lemma_same_wrapped(c: Seq<char>, a: ValueModel, b: ValueModel)
    ensures
        same(ValueModel::Extended(c, Box::new(a)), ValueModel::Extended(c, Box::new(b))) <==> same(a, b),
        same(ValueModel::UserClass(c, Box::new(a)), ValueModel::UserClass(c, Box::new(b))) <==> same(a, b),
        same(ValueModel::UserMarshal(c, Box::new(a)), ValueModel::UserMarshal(c, Box::new(b))) <==> same(a, b),
        same(ValueModel::Data(c, Box::new(a)), ValueModel::Data(c, Box::new(b))) <==> same(a, b),
{
}

impl PartialEq for Value {
    fn eq(&self, other: &Value) -> (r: bool) {
        value_eq(self, other)
    }
}

impl vstd::std_specs::cmp::PartialEqSpecImpl for Value {
    open spec fn obeys_eq_spec() -> bool {
        true
    }

    open spec fn eq_spec(&self, other: &Value) -> bool {
        same(self@, other@)
    }
}


impl Eq for Value {}

/// Whether two texts are equal, compared through their UTF-8 bytes.
fn text_eq(a: &str, b: &str) -> (r: bool)
    ensures
        r == (a@ == b@),
{
    let r = bytes_eq(a.as_bytes(), b.as_bytes());
    proof {
        encode_utf8_decode_utf8(a@);
        encode_utf8_decode_utf8(b@);
    }
    r
}

/// A value equals a text when it is a string with the text's UTF-8 bytes, a
/// symbol with that text, or an instance around such a value.
pub open spec fn same_text(v: ValueModel, t: Seq<char>) -> bool
    decreases v,
{
    match v {
        ValueModel::String(b) => b == encode_utf8(t),
        ValueModel::Symbol(s) => s == t,
        ValueModel::Instance(inner, _) => same_text(*inner, t),
        _ => false,
    }
}

/// Whether a value equals a text (see [`same_text`]).
pub fn value_eq_text(v: &Value, t: &str) -> (r: bool)
    ensures
        r == same_text(v@, t@),
    decreases v,
{
    match v {
        Value::String(s) => bytes_eq(s.as_slice(), t.as_bytes()),
        Value::Symbol(s) => text_eq(s.as_str(), t),
        Value::Instance(i) => value_eq_text(&i.value, t),
        _ => false,
    }
}

impl PartialEq<bool> for Value {
    fn eq(&self, other: &bool) -> (r: bool) {
        match self {
            Value::Bool(v) => *other == *v,
            _ => false,
        }
    }
}

impl vstd::std_specs::cmp::PartialEqSpecImpl<bool> for Value {
    open spec fn obeys_eq_spec() -> bool {
        true
    }

    open spec fn eq_spec(&self, other: &bool) -> bool {
        self@ == ValueModel::Bool(*other)
    }
}

impl PartialEq<i32> for Value {
    fn eq(&self, other: &i32) -> (r: bool) {
        match self {
            Value::Integer(v) => *other == *v,
            _ => false,
        }
    }
}

impl vstd::std_specs::cmp::PartialEqSpecImpl<i32> for Value {
    open spec fn obeys_eq_spec() -> bool {
        true
    }

    open spec fn eq_spec(&self, other: &i32) -> bool {
        self@ == ValueModel::Integer(*other)
    }
}

impl PartialEq<str> for Value {
    fn eq(&self, other: &str) -> (r: bool) {
        value_eq_text(self, other)
    }
}

impl vstd::std_specs::cmp::PartialEqSpecImpl<str> for Value {
    open spec fn obeys_eq_spec() -> bool {
        true
    }

    open spec fn eq_spec(&self, other: &str) -> bool {
        same_text(self@, other@)
    }
}

impl PartialEq<String> for Value {
    fn eq(&self, other: &String) -> (r: bool) {
        value_eq_text(self, other.as_str())
    }
}

impl vstd::std_specs::cmp::PartialEqSpecImpl<String> for Value {
    open spec fn obeys_eq_spec() -> bool {
        true
    }

    open spec fn eq_spec(&self, other: &String) -> bool {
        same_text(self@, other@)
    }
}

impl PartialEq<RbString> for Value {
    fn eq(&self, other: &RbString) -> (r: bool) {
        match self {
            Value::String(v) => bytes_eq(v.as_slice(), other.as_slice()),
            _ => false,
        }
    }
}

impl vstd::std_specs::cmp::PartialEqSpecImpl<RbString> for Value {
    open spec fn obeys_eq_spec() -> bool {
        true
    }

    open spec fn eq_spec(&self, other: &RbString) -> bool {
        self@ == ValueModel::String(other@)
    }
}

impl PartialEq<Symbol> for Value {
    fn eq(&self, other: &Symbol) -> (r: bool) {
        match self {
            Value::Symbol(v) => text_eq(v.as_str(), other.as_str()),
            _ => false,
        }
    }
}

impl vstd::std_specs::cmp::PartialEqSpecImpl<Symbol> for Value {
    open spec fn obeys_eq_spec() -> bool {
        true
    }

    open spec fn eq_spec(&self, other: &Symbol) -> bool {
        self@ == ValueModel::Symbol(other@)
    }
}

impl PartialEq<Userdata> for Value {
    fn eq(&self, other: &Userdata) -> (r: bool) {
        match self {
            Value::Userdata(u) => text_eq(u.class.as_str(), other.class.as_str()) && bytes_eq(
                u.data.as_slice(),
                other.data.as_slice(),
            ),
            _ => false,
        }
    }
}

impl vstd::std_specs::cmp::PartialEqSpecImpl<Userdata> for Value {
    open spec fn obeys_eq_spec() -> bool {
        true
    }

    open spec fn eq_spec(&self, other: &Userdata) -> bool {
        self@ == ValueModel::Userdata(other.class@, other.data@)
    }
}

impl PartialEq<Object> for Value {
    fn eq(&self, other: &Object) -> (r: bool) {
        match self {
            Value::Object(o) => text_eq(o.class.as_str(), other.class.as_str()) && fields_eq(
                &o.fields,
                &other.fields,
            ),
            _ => false,
        }
    }
}

impl vstd::std_specs::cmp::PartialEqSpecImpl<Object> for Value {
    open spec fn obeys_eq_spec() -> bool {
        true
    }

    open spec fn eq_spec(&self, other: &Object) -> bool {
        same(self@, ValueModel::Object(other.class@, field_models(other.fields@)))
    }
}

impl PartialEq<RbArray> for Value {
    fn eq(&self, other: &RbArray) -> (r: bool) {
        match self {
            Value::Array(v) => values_eq(v, other),
            _ => false,
        }
    }
}

impl vstd::std_specs::cmp::PartialEqSpecImpl<RbArray> for Value {
    open spec fn obeys_eq_spec() -> bool {
        true
    }

    open spec fn eq_spec(&self, other: &RbArray) -> bool {
        same(self@, ValueModel::Array(models(other@)))
    }
}

impl PartialEq<RbHash> for Value {
    fn eq(&self, other: &RbHash) -> (r: bool) {
        match self {
            Value::Hash(v) => pairs_eq(v, other),
            _ => false,
        }
    }
}

impl vstd::std_specs::cmp::PartialEqSpecImpl<RbHash> for Value {
    open spec fn obeys_eq_spec() -> bool {
        true
    }

    open spec fn eq_spec(&self, other: &RbHash) -> bool {
        same(self@, ValueModel::Hash(pair_models(other@)))
    }
}

} // verus!
