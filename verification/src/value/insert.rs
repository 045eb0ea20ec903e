//! Inserting into instance variables and hashes, as an insertion-ordered map
//! does: a new key goes at the end, an existing key keeps its place and takes
//! the new value.
use vstd::prelude::*;

use crate::rb_types::symbol::Symbol;
use crate::value::eq::{lemma_same_refl, same, value_eq};
use crate::value::{
    field_models, lemma_field_models_index, lemma_pair_models_index, model, pair_models,
    FieldsModel, RbFields, RbHash, Value, ValueModel,
};

verus! {

broadcast use vstd::std_specs::vec::group_vec_axioms, vstd::seq::group_seq_axioms;

/// The first place of the name `k` among the fields, or `-1`.
pub open spec fn field_index(f: FieldsModel, k: Seq<char>) -> int
    decreases f.len(),
{
    if f.len() == 0 {
        -1
    } else if f[0].0 == k {
        0
    } else {
        let r = field_index(f.drop_first(), k);
        if r < 0 {
            -1
        } else {
            r + 1
        }
    }
}

/// The fields after setting `k` to `v`.
pub open spec fn field_insert(f: FieldsModel, k: Seq<char>, v: ValueModel) -> FieldsModel {
    let i = field_index(f, k);
    if i >= 0 {
        f.update(i, (k, v))
    } else {
        f.push((k, v))
    }
}

/// The fields that result from setting each entry in turn, starting with none.
pub open spec fn fields_from(e: FieldsModel) -> FieldsModel
    decreases e.len(),
{
    if e.len() == 0 {
        Seq::empty()
    } else {
        field_insert(fields_from(e.drop_last()), e.last().0, e.last().1)
    }
}

/// The first place among the hash entries of a key that `k` equals, or `-1`.
pub open spec fn pair_index(h: Seq<(ValueModel, ValueModel)>, k: ValueModel) -> int
    decreases h.len(),
{
    if h.len() == 0 {
        -1
    } else if same(k, h[0].0) {
        0
    } else {
        let r = pair_index(h.drop_first(), k);
        if r < 0 {
            -1
        } else {
            r + 1
        }
    }
}

/// The hash after setting `k` to `v`: an entry whose key `k` equals keeps its
/// key and its place and takes the value `v`; otherwise the entry goes at the
/// end.
pub open spec fn pair_insert(h: Seq<(ValueModel, ValueModel)>, k: ValueModel, v: ValueModel) -> Seq<
    (ValueModel, ValueModel),
> {
    let i = pair_index(h, k);
    if i >= 0 {
        h.update(i, (h[i].0, v))
    } else {
        h.push((k, v))
    }
}

/// The hash that results from setting each entry in turn, starting with none.
pub open spec fn hash_from(e: Seq<(ValueModel, ValueModel)>) -> Seq<(ValueModel, ValueModel)>
    decreases e.len(),
{
    if e.len() == 0 {
        Seq::empty()
    } else {
        pair_insert(hash_from(e.drop_last()), e.last().0, e.last().1)
    }
}

/// `field_index` is the first place that holds the name.
pub proof fn lemma_field_index(f: FieldsModel, k: Seq<char>)
    ensures
        -1 <= field_index(f, k) < f.len(),
        field_index(f, k) >= 0 ==> f[field_index(f, k)].0 == k,
        forall|j: int| 0 <= j < f.len() && j < field_index(f, k) ==> f[j].0 != k,
        field_index(f, k) < 0 ==> forall|j: int| 0 <= j < f.len() ==> f[j].0 != k,
    decreases f.len(),
{
    if f.len() > 0 && f[0].0 != k {
        lemma_field_index(f.drop_first(), k);
        assert forall|j: int| 0 < j < f.len() implies f[j] == f.drop_first()[j - 1] by {}
    }
}

/// `pair_index` is the first place whose key `k` equals.
pub proof fn lemma_pair_index(h: Seq<(ValueModel, ValueModel)>, k: ValueModel)
    ensures
        -1 <= pair_index(h, k) < h.len(),
        pair_index(h, k) >= 0 ==> same(k, h[pair_index(h, k)].0),
        forall|j: int| 0 <= j < h.len() && j < pair_index(h, k) ==> !same(k, #[trigger] h[j].0),
        pair_index(h, k) < 0 ==> forall|j: int| 0 <= j < h.len() ==> !same(k, #[trigger] h[j].0),
    decreases h.len(),
{
    if h.len() > 0 && !same(k, h[0].0) {
        lemma_pair_index(h.drop_first(), k);
        assert forall|j: int| 0 < j < h.len() implies h[j] == h.drop_first()[j - 1] by {}
    }
}

/// Sets the instance variable `k` to `v`: an existing name keeps its place,
/// a new one goes at the end.
pub fn insert_field(f: &mut RbFields, k: Symbol, v: Value)
    ensures
        field_models(final(f)@) == field_insert(field_models(old(f)@), k@, v@),
{
    let ghost ms = field_models(f@);
    proof {
        lemma_field_models_index(f@);
        lemma_field_index(ms, k@);
    }
    let mut i: usize = 0;
    while i < f.len()
        invariant
            f@ == old(f)@,
            ms == field_models(f@),
            ms.len() == f@.len(),
            forall|j: int| 0 <= j < f@.len() ==> #[trigger] ms[j] == (f@[j].0@, model(f@[j].1)),
            i <= f@.len(),
            forall|j: int| 0 <= j < i ==> ms[j].0 != k@,
        decreases f@.len() - i,
    {
        if f[i].0 == k {
            proof {
                lemma_field_index(ms, k@);
                assert(ms[i as int].0 == k@);
            }
            assert(field_index(ms, k@) == i as int) by {
                if field_index(ms, k@) < i {
                    let fi = field_index(ms, k@);
                    if fi >= 0 {
                        assert(ms[fi].0 == k@);
                    }
                }
            }
            let ghost entry = (k@, model(v));
            f.set(i, (k, v));
            proof {
                lemma_field_models_index(f@);
                assert(field_models(f@) =~= ms.update(i as int, entry));
            }
            return;
        }
        i = i + 1;
    }
    proof {
        lemma_field_index(ms, k@);
    }
    let ghost entry = (k@, model(v));
    f.push((k, v));
    proof {
        lemma_field_models_index(f@);
        assert(field_models(f@) =~= ms.push(entry));
    }
}

/// Sets the hash key `k` to `v`: when `k` equals a key already there, that
/// entry keeps its key and its place and takes the value; otherwise the
/// entry goes at the end.
pub fn insert_pair(h: &mut RbHash, k: Value, v: Value)
    ensures
        pair_models(final(h)@) == pair_insert(pair_models(old(h)@), k@, v@),
{
    let ghost ms = pair_models(h@);
    proof {
        lemma_pair_models_index(h@);
        lemma_pair_index(ms, k@);
    }
    let mut i: usize = 0;
    while i < h.len()
        invariant
            h@ == old(h)@,
            ms == pair_models(h@),
            ms.len() == h@.len(),
            forall|j: int|
                0 <= j < h@.len() ==> #[trigger] ms[j] == (model(h@[j].0), model(h@[j].1)),
            i <= h@.len(),
            forall|j: int| 0 <= j < i ==> !same(k@, #[trigger] ms[j].0),
        decreases h@.len() - i,
    {
        if value_eq(&k, &h[i].0) {
            proof {
                lemma_pair_index(ms, k@);
                assert(same(k@, ms[i as int].0));
            }
            assert(pair_index(ms, k@) == i as int) by {
                if pair_index(ms, k@) < i {
                    let pi = pair_index(ms, k@);
                    if pi >= 0 {
                        assert(same(k@, ms[pi].0));
                    }
                }
            }
            let ghost entry = (ms[i as int].0, model(v));
            let (old_key, _old_value) = h.remove(i);
            h.insert(i, (old_key, v));
            proof {
                lemma_pair_models_index(h@);
                assert(pair_models(h@) =~= ms.update(i as int, entry));
            }
            return;
        }
        i = i + 1;
    }
    proof {
        lemma_pair_index(ms, k@);
    }
    let ghost entry = (model(k), model(v));
    h.push((k, v));
    proof {
        lemma_pair_models_index(h@);
        assert(pair_models(h@) =~= ms.push(entry));
    }
}

/// The value of the instance variable `k`, if there is one.
pub fn get_field<'a>(f: &'a RbFields, k: &Symbol) -> (r: Option<&'a Value>)
    ensures
        field_index(field_models(f@), k@) < 0 ==> r is None,
        field_index(field_models(f@), k@) >= 0 ==> (r matches Some(v) && *v == f@[field_index(
            field_models(f@),
            k@,
        )].1),
{
    let ghost ms = field_models(f@);
    proof {
        lemma_field_models_index(f@);
        lemma_field_index(ms, k@);
    }
    let mut i: usize = 0;
    while i < f.len()
        invariant
            ms == field_models(f@),
            ms.len() == f@.len(),
            forall|j: int| 0 <= j < f@.len() ==> #[trigger] ms[j] == (f@[j].0@, model(f@[j].1)),
            i <= f@.len(),
            forall|j: int| 0 <= j < i ==> ms[j].0 != k@,
        decreases f@.len() - i,
    {
        if f[i].0 == *k {
            proof {
                lemma_field_index(ms, k@);
                assert(ms[i as int].0 == k@);
            }
            assert(field_index(ms, k@) == i as int) by {
                if field_index(ms, k@) < i {
                    let fi = field_index(ms, k@);
                    if fi >= 0 {
                        assert(ms[fi].0 == k@);
                    }
                }
            }
            return Some(&f[i].1);
        }
        i = i + 1;
    }
    None
}

/// Setting an instance variable and then looking it up gives the value that
/// was set, at the name's old place or at the end; every other name keeps its
/// place and its value.
pub proof fn lemma_field_insert_then_index(f: FieldsModel, k: Seq<char>, v: ValueModel, k2: Seq<char>)
    ensures
        field_index(field_insert(f, k, v), k) >= 0,
        field_insert(f, k, v)[field_index(field_insert(f, k, v), k)] == (k, v),
        k2 != k ==> field_index(field_insert(f, k, v), k2) == field_index(f, k2),
        k2 != k && field_index(f, k2) >= 0 ==> field_insert(f, k, v)[field_index(f, k2)] == f[field_index(f, k2)],
{
    let g = field_insert(f, k, v);
    lemma_field_index(f, k);
    lemma_field_index(f, k2);
    lemma_field_index(g, k);
    lemma_field_index(g, k2);
    let i = field_index(f, k);
    if i >= 0 {
        assert(g[i].0 == k);
    } else {
        assert(g[f.len() as int].0 == k);
    }
    let gi = field_index(g, k);
    assert(g[gi].0 == k);
    if i >= 0 {
        assert(gi == i) by {
            if gi < i {
                assert(g[gi] == f[gi]);
            }
        }
    } else {
        assert(gi == f.len()) by {
            if gi < f.len() {
                assert(g[gi] == f[gi]);
            }
        }
    }
    if k2 != k {
        let j = field_index(f, k2);
        let gj = field_index(g, k2);
        if j >= 0 {
            assert(g[j] == f[j]);
            assert(gj == j) by {
                if gj < j && gj >= 0 {
                    assert(g[gj].0 == k2);
                    assert(g[gj] == f[gj]);
                }
            }
        } else {
            assert(gj < 0) by {
                if gj >= 0 {
                    assert(g[gj].0 == k2);
                    if gj < f.len() {
                        assert(g[gj] == f[gj]);
                    }
                }
            }
        }
    }
}

/// Setting an instance variable keeps the names distinct.
pub proof fn lemma_field_insert_distinct(f: FieldsModel, k: Seq<char>, v: ValueModel)
    requires
        forall|i: int, j: int| 0 <= i < j < f.len() ==> #[trigger] f[i].0 != #[trigger] f[j].0,
    ensures
        ({
            let g = field_insert(f, k, v);
            forall|i: int, j: int| 0 <= i < j < g.len() ==> #[trigger] g[i].0 != #[trigger] g[j].0
        }),
{
    let g = field_insert(f, k, v);
    lemma_field_index(f, k);
    let idx = field_index(f, k);
    assert forall|i: int, j: int| 0 <= i < j < g.len() implies #[trigger] g[i].0 != #[trigger] g[j].0 by {
        if idx >= 0 {
            if i != idx && j != idx {
                assert(g[i] == f[i] && g[j] == f[j]);
            } else if i == idx {
                assert(g[j] == f[j]);
                assert(f[i].0 == k);
            } else {
                assert(g[i] == f[i]);
                assert(f[j].0 == k);
            }
        } else {
            if j < f.len() {
                assert(g[i] == f[i] && g[j] == f[j]);
            } else {
                assert(g[i] == f[i]);
            }
        }
    }
}

/// The keys of a hash are distinct: no key equals a key before it.
pub open spec fn keys_distinct(h: Seq<(ValueModel, ValueModel)>) -> bool {
    forall|i: int, j: int| 0 <= i < j < h.len() ==> !same(#[trigger] h[j].0, #[trigger] h[i].0)
}

/// Setting a hash entry and then looking up its key finds the value that was
/// set; every other entry stays as it was, in its place.
pub proof fn lemma_pair_insert_then_index(h: Seq<(ValueModel, ValueModel)>, k: ValueModel, v: ValueModel)
    ensures
        pair_index(pair_insert(h, k, v), k) >= 0,
        pair_insert(h, k, v)[pair_index(pair_insert(h, k, v), k)].1 == v,
        forall|j: int|
            0 <= j < h.len() && j != pair_index(h, k) ==> #[trigger] pair_insert(h, k, v)[j] == h[j],
{
    let g = pair_insert(h, k, v);
    lemma_same_refl(k);
    lemma_pair_index(h, k);
    lemma_pair_index(g, k);
    let i = pair_index(h, k);
    if i >= 0 {
        assert(g[i].0 == h[i].0);
        assert(same(k, g[i].0));
        assert(pair_index(g, k) == i) by {
            let gi = pair_index(g, k);
            if gi < i {
                assert(g[gi] == h[gi]);
            }
        }
    } else {
        assert(g[h.len() as int].0 == k);
        assert(pair_index(g, k) == h.len()) by {
            let gi = pair_index(g, k);
            if 0 <= gi < h.len() {
                assert(g[gi] == h[gi]);
            }
        }
    }
}

/// Setting a hash entry keeps the keys distinct.
pub proof fn lemma_pair_insert_distinct(h: Seq<(ValueModel, ValueModel)>, k: ValueModel, v: ValueModel)
    requires
        keys_distinct(h),
    ensures
        keys_distinct(pair_insert(h, k, v)),
{
    let g = pair_insert(h, k, v);
    lemma_pair_index(h, k);
    let idx = pair_index(h, k);
    assert forall|i: int, j: int| 0 <= i < j < g.len() implies !same(#[trigger] g[j].0, #[trigger] g[i].0) by {
        if idx >= 0 {
            assert(g[i].0 == h[i].0 && g[j].0 == h[j].0);
        } else {
            if j < h.len() {
                assert(g[i] == h[i] && g[j] == h[j]);
            } else {
                assert(g[i] == h[i]);
                assert(g[j].0 == k);
            }
        }
    }
}

} // verus!
