//! Merging the fields of named tuples.
//!
//! A named tuple can be extended with new fields: new values override the old ones. Fields are
//! identified by their names, and both names and values by the addresses of the Julia objects
//! they refer to.
use vstd::prelude::*;

verus! {

/// The fields described by `pairs` of names and values: when a name occurs more than once, the
/// last value for it is kept.
pub open spec fn pairs_map(pairs: Seq<(usize, usize)>) -> Map<usize, usize>
    decreases pairs.len(),
{
    if pairs.len() == 0 {
        Map::empty()
    } else {
        pairs_map(pairs.drop_last()).insert(pairs.last().0, pairs.last().1)
    }
}

/// The fields described by `pairs` have exactly the names that occur in `pairs`.
pub proof fn lemma_pairs_map_names(pairs: Seq<(usize, usize)>, name: usize)
    ensures
        pairs_map(pairs).dom().contains(name) <==> exists|i: int|
            0 <= i < pairs.len() && #[trigger] pairs[i].0 == name,
    decreases pairs.len(),
{
    if pairs.len() > 0 {
        let init = pairs.drop_last();
        lemma_pairs_map_names(init, name);
        if exists|i: int| 0 <= i < init.len() && #[trigger] init[i].0 == name {
            let i = choose|i: int| 0 <= i < init.len() && #[trigger] init[i].0 == name;
            assert(pairs[i].0 == name);
        }
        if exists|i: int| 0 <= i < pairs.len() && #[trigger] pairs[i].0 == name {
            let i = choose|i: int| 0 <= i < pairs.len() && #[trigger] pairs[i].0 == name;
            if i < pairs.len() - 1 {
                assert(init[i].0 == name);
            }
        }
    }
}

/// Later pairs win: the value of a name is the value of its last occurrence in `pairs`.
pub proof fn lemma_pairs_map_last_wins(pairs: Seq<(usize, usize)>, i: int)
    requires
        0 <= i < pairs.len(),
        forall|j: int| i < j < pairs.len() ==> #[trigger] pairs[j].0 != pairs[i].0,
    ensures
        pairs_map(pairs).dom().contains(pairs[i].0),
        pairs_map(pairs)[pairs[i].0] == pairs[i].1,
    decreases pairs.len(),
{
    if i < pairs.len() - 1 {
        let init = pairs.drop_last();
        assert(pairs[pairs.len() - 1].0 != pairs[i].0);
        assert forall|j: int| i < j < init.len() implies #[trigger] init[j].0 != init[i].0 by {
            assert(pairs[j].0 != pairs[i].0);
        }
        lemma_pairs_map_last_wins(init, i);
    }
}

/// No name occurs twice in `pairs`.
pub open spec fn distinct_names(pairs: Seq<(usize, usize)>) -> bool {
    forall|i: int, j: int| 0 <= i < j < pairs.len() ==> #[trigger] pairs[i].0 != #[trigger] pairs[j].0
}

/// The hasher of the `fnv` crate.
#[verifier::external_type_specification]
#[verifier::external_body]
pub struct ExFnvHasher(fnv::FnvHasher);

/// The builder of hashers that makes each hasher with `Default`.
#[verifier::external_type_specification]
#[verifier::external_body]
#[verifier::reject_recursive_types(H)]
pub struct ExBuildHasherDefault<H>(core::hash::BuildHasherDefault<H>);

/// A map from field names to values that hashes with `fnv::FnvHasher`.
pub type FieldMap = fnv::FnvHashMap<usize, usize>;

/// The fields of a named tuple, held in an `fnv::FnvHashMap` from names to values.
pub uninterp spec fn fnv_map_contents(m: FieldMap) -> Map<usize, usize>;

/// `fnv::FnvHashMap::default`: an empty `std::collections::HashMap` that hashes with `FnvHasher`.
#[verifier::external_body]
fn fnv_map_new() -> (r: FieldMap)
    ensures
        fnv_map_contents(r) == pairs_map(Seq::empty()),
{
    fnv::FnvHashMap::default()
}

/// `HashMap::insert` on an `fnv::FnvHashMap`: afterwards the map holds `value` for `key` and
/// is otherwise unchanged. `FnvHasher` is deterministic, so `HashMap` behaves as a map.
#[verifier::external_body]
fn fnv_map_insert(m: &mut FieldMap, key: usize, value: usize)
    ensures
        fnv_map_contents(*final(m)) == fnv_map_contents(*old(m)).insert(key, value),
{
    m.insert(key, value);
}

/// `HashMap::iter` on an `fnv::FnvHashMap`, each entry copied out as a pair: every entry of
/// the map occurs exactly once, in an order that the contract leaves open.
#[verifier::external_body]
fn fnv_map_pairs(m: &FieldMap) -> (r: Vec<(usize, usize)>)
    ensures
        distinct_names(r@),
        pairs_map(r@) == fnv_map_contents(*m),
{
    m.iter().map(|(k, v)| (*k, *v)).collect()
}

/// Builds the fields of a named tuple that has `fields` and is extended with `items`: every
/// name occurs once, and the value of a name is its last value in `items`, or its value in
/// `fields` if `items` doesn't have it. The order of the fields is the order in which an
/// `FnvHashMap` holding them is walked.
pub fn extend_iter(fields: &[(usize, usize)], items: &[(usize, usize)]) -> (r: Vec<(usize, usize)>)
    ensures
        distinct_names(r@),
        pairs_map(r@) == pairs_map(fields@ + items@),
        pairs_map(r@) == pairs_map(fields@).union_prefer_right(pairs_map(items@)),
{
    proof {
        lemma_pairs_map_concat(fields@, items@);
    }
    let mut map = fnv_map_new();
    let n = fields.len();
    let mut i: usize = 0;
    assert(fields@.take(0) =~= Seq::<(usize, usize)>::empty());
    while i < n
        invariant
            0 <= i <= n,
            n == fields@.len(),
            fnv_map_contents(map) == pairs_map(fields@.take(i as int)),
        decreases n - i,
    {
        let (key, value) = fields[i];
        fnv_map_insert(&mut map, key, value);
        proof {
            assert(fields@.take(i + 1).drop_last() =~= fields@.take(i as int));
        }
        i = i + 1;
    }
    assert(fields@.take(n as int) =~= fields@);
    let m = items.len();
    let mut j: usize = 0;
    assert(fields@ + items@.take(0) =~= fields@);
    while j < m
        invariant
            0 <= j <= m,
            m == items@.len(),
            fnv_map_contents(map) == pairs_map(fields@ + items@.take(j as int)),
        decreases m - j,
    {
        let (key, value) = items[j];
        fnv_map_insert(&mut map, key, value);
        proof {
            assert((fields@ + items@.take(j + 1)).drop_last() =~= fields@ + items@.take(j as int));
        }
        j = j + 1;
    }
    assert(items@.take(m as int) =~= items@);
    fnv_map_pairs(&map)
}

/// Builds the fields of a named tuple with field names `names` and values `values`, extended
/// with new `keys` and `values`: new values override the old ones. There must be as many keys
/// as new values.
pub fn extend(
    names: &[usize],
    field_values: &[usize],
    keys: &[usize],
    values: &[usize],
) -> (r: Vec<(usize, usize)>)
    requires
        names@.len() == field_values@.len(),
        keys@.len() == values@.len(),
    ensures
        distinct_names(r@),
        pairs_map(r@) == pairs_map(zip_pairs(names@, field_values@) + zip_pairs(keys@, values@)),
{
    let fields = zip(names, field_values);
    let items = zip(keys, values);
    extend_iter(fields.as_slice(), items.as_slice())
}

/// The pairs of the elements of `a` and `b` at the same positions.
pub open spec fn zip_pairs(a: Seq<usize>, b: Seq<usize>) -> Seq<(usize, usize)> {
    Seq::new(a.len(), |i: int| (a[i], b[i]))
}

/// Returns the pairs of the elements of `a` and `b` at the same positions.
fn zip(a: &[usize], b: &[usize]) -> (r: Vec<(usize, usize)>)
    requires
        a@.len() == b@.len(),
    ensures
        r@ == zip_pairs(a@, b@),
{
    let n = a.len();
    let mut r: Vec<(usize, usize)> = Vec::new();
    let mut i: usize = 0;
    while i < n
        invariant
            0 <= i <= n,
            n == a@.len(),
            n == b@.len(),
            r@ == zip_pairs(a@, b@).take(i as int),
        decreases n - i,
    {
        r.push((a[i], b[i]));
        i = i + 1;
        assert(r@ =~= zip_pairs(a@, b@).take(i as int));
    }
    assert(r@ =~= zip_pairs(a@, b@));
    r
}

/// The fields of `fields` whose names are not in `remove`, in their order.
pub open spec fn retained(fields: Seq<(usize, usize)>, remove: Seq<usize>) -> Seq<(usize, usize)>
    decreases fields.len(),
{
    if fields.len() == 0 {
        Seq::empty()
    } else {
        let rest = retained(fields.drop_last(), remove);
        if remove.contains(fields.last().0) {
            rest
        } else {
            rest.push(fields.last())
        }
    }
}

/// Filtering keeps exactly the fields whose names are not removed.
pub proof fn lemma_retained_fields(fields: Seq<(usize, usize)>, remove: Seq<usize>)
    ensures
        forall|p: (usize, usize)|
            #[trigger] retained(fields, remove).contains(p) <==> (fields.contains(p)
                && !remove.contains(p.0)),
    decreases fields.len(),
{
    if fields.len() > 0 {
        let init = fields.drop_last();
        lemma_retained_fields(init, remove);
        assert forall|p: (usize, usize)| fields.contains(p) <==> (init.contains(p) || p
            == fields.last()) by {
            if fields.contains(p) {
                let k = choose|k: int| 0 <= k < fields.len() && fields[k] == p;
                if k < fields.len() - 1 {
                    assert(init[k] == p);
                }
            }
            if init.contains(p) {
                let k = choose|k: int| 0 <= k < init.len() && init[k] == p;
                assert(fields[k] == p);
            }
            if p == fields.last() {
                assert(fields[fields.len() - 1] == p);
            }
        }
        let rest = retained(init, remove);
        assert forall|p: (usize, usize)| #[trigger] rest.push(fields.last()).contains(p) <==> (
        rest.contains(p) || p == fields.last()) by {
            let pushed = rest.push(fields.last());
            if pushed.contains(p) {
                let k = choose|k: int| 0 <= k < pushed.len() && pushed[k] == p;
                if k < rest.len() {
                    assert(rest[k] == p);
                }
            }
            if rest.contains(p) {
                let k = choose|k: int| 0 <= k < rest.len() && rest[k] == p;
                assert(pushed[k] == p);
            }
            if p == fields.last() {
                assert(pushed[rest.len() as int] == p);
            }
        }
    }
}

/// Filtering keeps the fields in their order: the result is the subsequence of `fields` made of
/// exactly the fields whose names are not removed. `pos` gives, for each kept field, its
/// position in `fields`; the positions increase, and every position of a field whose name is not
/// removed is among them.
pub proof fn lemma_retained_in_order(fields: Seq<(usize, usize)>, remove: Seq<usize>) -> (pos:
    Seq<int>)
    ensures
        pos.len() == retained(fields, remove).len(),
        forall|i: int|
            0 <= i < pos.len() ==> 0 <= #[trigger] pos[i] < fields.len() && fields[pos[i]]
                == retained(fields, remove)[i] && !remove.contains(fields[pos[i]].0),
        forall|i: int, j: int| 0 <= i < j < pos.len() ==> #[trigger] pos[i] < #[trigger] pos[j],
        forall|k: int|
            0 <= k < fields.len() && !remove.contains(fields[k].0) ==> exists|i: int|
                0 <= i < pos.len() && #[trigger] pos[i] == k,
    decreases fields.len(),
{
    if fields.len() == 0 {
        Seq::empty()
    } else {
        let init = fields.drop_last();
        let p = lemma_retained_in_order(init, remove);
        let n = fields.len() - 1;
        assert forall|i: int| 0 <= i < p.len() implies fields[#[trigger] p[i]] == init[p[i]] by {}
        if remove.contains(fields.last().0) {
            assert forall|k: int|
                0 <= k < fields.len() && !remove.contains(fields[k].0) implies exists|i: int|
                0 <= i < p.len() && #[trigger] p[i] == k by {
                assert(init[k] == fields[k]);
            }
            p
        } else {
            let q = p.push(n);
            assert forall|i: int| 0 <= i < q.len() implies 0 <= #[trigger] q[i] < fields.len()
                && fields[q[i]] == retained(fields, remove)[i] && !remove.contains(
                fields[q[i]].0,
            ) by {
                if i < p.len() {
                    assert(q[i] == p[i]);
                }
            }
            assert forall|i: int, j: int| 0 <= i < j < q.len() implies #[trigger] q[i]
                < #[trigger] q[j] by {
                if j < p.len() {
                    assert(q[i] == p[i] && q[j] == p[j]);
                } else {
                    assert(q[i] == p[i]);
                }
            }
            assert forall|k: int|
                0 <= k < fields.len() && !remove.contains(fields[k].0) implies exists|i: int|
                0 <= i < q.len() && #[trigger] q[i] == k by {
                if k == n {
                    assert(q[p.len() as int] == k);
                } else {
                    assert(init[k] == fields[k]);
                    let i = choose|i: int| 0 <= i < p.len() && #[trigger] p[i] == k;
                    assert(q[i] == k);
                }
            }
            q
        }
    }
}

/// Returns whether `name` occurs in `names`.
fn contains_name(names: &[usize], name: usize) -> (r: bool)
    ensures
        r == names@.contains(name),
{
    let n = names.len();
    let mut i: usize = 0;
    while i < n
        invariant
            0 <= i <= n,
            n == names@.len(),
            forall|k: int| 0 <= k < i ==> names@[k] != name,
        decreases n - i,
    {
        if names[i] == name {
            assert(names@[i as int] == name);
            return true;
        }
        i = i + 1;
    }
    false
}

/// Builds the fields of a named tuple that has `fields`, without the fields whose names are in
/// `remove`; the remaining fields keep their order. Names in `remove` that are not field names
/// are ignored.
pub fn filter(fields: &[(usize, usize)], remove: &[usize]) -> (r: Vec<(usize, usize)>)
    ensures
        r@ == retained(fields@, remove@),
{
    let n = fields.len();
    let mut r: Vec<(usize, usize)> = Vec::new();
    let mut i: usize = 0;
    assert(fields@.take(0) =~= Seq::<(usize, usize)>::empty());
    while i < n
        invariant
            0 <= i <= n,
            n == fields@.len(),
            r@ == retained(fields@.take(i as int), remove@),
        decreases n - i,
    {
        let (key, value) = fields[i];
        assert(fields@.take(i + 1).drop_last() =~= fields@.take(i as int));
        if !contains_name(remove, key) {
            r.push((key, value));
        }
        i = i + 1;
    }
    assert(fields@.take(n as int) =~= fields@);
    r
}

/// Builds the fields of a named tuple with field names `names` and values `field_values`,
/// without the fields whose names are in `remove`, and extended with new `keys` and `values`:
/// new values override the old ones. There must be as many keys as new values.
pub fn filter_extend(
    names: &[usize],
    field_values: &[usize],
    remove: &[usize],
    keys: &[usize],
    values: &[usize],
) -> (r: Vec<(usize, usize)>)
    requires
        names@.len() == field_values@.len(),
        keys@.len() == values@.len(),
    ensures
        distinct_names(r@),
        pairs_map(r@) == pairs_map(
            retained(zip_pairs(names@, field_values@), remove@) + zip_pairs(keys@, values@),
        ),
{
    let fields = zip(names, field_values);
    let kept = filter(fields.as_slice(), remove);
    let items = zip(keys, values);
    extend_iter(kept.as_slice(), items.as_slice())
}

/// Builds the fields of a named tuple that has `fields`, without the fields whose names are in
/// `remove`, and extended with `items`: later pairs win.
pub fn filter_extend_iter(
    fields: &[(usize, usize)],
    remove: &[usize],
    items: &[(usize, usize)],
) -> (r: Vec<(usize, usize)>)
    ensures
        distinct_names(r@),
        pairs_map(r@) == pairs_map(retained(fields@, remove@) + items@),
{
    let kept = filter(fields, remove);
    extend_iter(kept.as_slice(), items)
}

/// New values override the old ones: the fields described by `old` followed by `new` are the
/// fields of `old`, with the fields of `new` taking precedence.
pub proof fn lemma_pairs_map_concat(old: Seq<(usize, usize)>, new: Seq<(usize, usize)>)
    ensures
        pairs_map(old + new) == pairs_map(old).union_prefer_right(pairs_map(new)),
    decreases new.len(),
{
    if new.len() == 0 {
        assert(old + new =~= old);
        assert(pairs_map(old).union_prefer_right(pairs_map(new)) =~= pairs_map(old));
    } else {
        assert((old + new).drop_last() =~= old + new.drop_last());
        lemma_pairs_map_concat(old, new.drop_last());
        assert(pairs_map(old + new) =~= pairs_map(old).union_prefer_right(pairs_map(new)));
    }
}

} // verus!
