//! Union types.
//!
//! A struct field can have a type that's a union of several types. Julia stores a union as a
//! binary tree: each `Union` has two branches, and the types of the union are its leaves.
use vstd::prelude::*;

verus! {

/// A type as far as unions are concerned: either a `Union` of two types, or any other type,
/// identified by the address of its type object.
pub enum UnionValue {
    /// A union of two types.
    Union(Union),
    /// Any type that is not a union, identified by the address of its type object.
    Other(usize),
}

/// A union of two types. Unions are stored as binary trees, the types they contain are its
/// leaves.
pub struct Union {
    a: Box<UnionValue>,
    b: Box<UnionValue>,
}

/// The types of a union in order: the leaves of the tree, from left to right.
pub open spec fn union_leaves(v: UnionValue) -> Seq<usize>
    decreases v,
{
    match v {
        UnionValue::Union(u) => union_leaves(*u.spec_a()) + union_leaves(*u.spec_b()),
        UnionValue::Other(t) => seq![t],
    }
}

/// The position of the first occurrence of `t` in `s`, or `s.len()` if `t` doesn't occur.
pub open spec fn first_position(s: Seq<usize>, t: usize) -> int
    decreases s.len(),
{
    if s.len() == 0 {
        0
    } else if s[0] == t {
        0
    } else {
        1 + first_position(s.drop_first(), t)
    }
}

/// A union has at least one type.
pub proof fn lemma_union_leaves_nonempty(v: UnionValue)
    ensures
        union_leaves(v).len() >= 1,
    decreases v,
{
    match v {
        UnionValue::Union(u) => {
            lemma_union_leaves_nonempty(*u.a);
            lemma_union_leaves_nonempty(*u.b);
        },
        UnionValue::Other(_) => {},
    }
}

/// `first_position` is at most the length, and it is smaller exactly when `t` occurs, in which
/// case it is the position of `t`, and `t` occurs nowhere before it.
pub proof fn lemma_first_position(s: Seq<usize>, t: usize)
    ensures
        0 <= first_position(s, t) <= s.len(),
        (first_position(s, t) < s.len()) == s.contains(t),
        first_position(s, t) < s.len() ==> s[first_position(s, t)] == t,
        forall|i: int| 0 <= i < first_position(s, t) ==> s[i] != t,
    decreases s.len(),
{
    if s.len() > 0 {
        lemma_first_position(s.drop_first(), t);
        if s[0] != t {
            assert forall|i: int| 0 <= i < first_position(s, t) implies s[i] != t by {
                if i > 0 {
                    assert(s[i] == s.drop_first()[i - 1]);
                }
            }
            if s.drop_first().contains(t) {
                let j = choose|j: int| 0 <= j < s.drop_first().len() && s.drop_first()[j] == t;
                assert(s[j + 1] == t);
            }
            if s.contains(t) {
                let j = choose|j: int| 0 <= j < s.len() && s[j] == t;
                assert(s.drop_first()[j - 1] == t);
            }
        } else {
            assert(s[0] == t);
        }
    }
}

/// The first position of `t` in `s + r` is its first position in `s` if it occurs there, and
/// otherwise the length of `s` plus its first position in `r`.
proof fn lemma_first_position_concat(s: Seq<usize>, r: Seq<usize>, t: usize)
    ensures
        first_position(s + r, t) == (if first_position(s, t) < s.len() {
            first_position(s, t)
        } else {
            s.len() + first_position(r, t)
        }),
    decreases s.len(),
{
    lemma_first_position(s, t);
    if s.len() == 0 {
        assert(s + r =~= r);
    } else {
        assert((s + r).drop_first() =~= s.drop_first() + r);
        lemma_first_position_concat(s.drop_first(), r, t);
        assert((s + r)[0] == s[0]);
    }
}

impl Union {
    /// Creates the union of two types.
    pub fn new(a: UnionValue, b: UnionValue) -> (r: Self)
        ensures
            *r.spec_a() == a,
            *r.spec_b() == b,
    {
        Union { a: Box::new(a), b: Box::new(b) }
    }

    /// The first branch of the union.
    pub closed spec fn spec_a(&self) -> Box<UnionValue> {
        self.a
    }

    /// The second branch of the union.
    pub closed spec fn spec_b(&self) -> Box<UnionValue> {
        self.b
    }

    /// Unions are stored as binary trees, the arguments are stored as its leaves. This method
    /// returns one of its branches.
    pub fn a(&self) -> (r: &UnionValue)
        ensures
            *r == *self.spec_a(),
    {
        &self.a
    }

    /// Unions are stored as binary trees, the arguments are stored as its leaves. This method
    /// returns one of its branches.
    pub fn b(&self) -> (r: &UnionValue)
        ensures
            *r == *self.spec_b(),
    {
        &self.b
    }

    /// Returns all types this union can have, in order.
    pub fn variants(&self) -> (r: Vec<usize>)
        ensures
            r@ == union_leaves(*self.spec_a()) + union_leaves(*self.spec_b()),
    {
        let mut comps: Vec<usize> = Vec::new();
        collect(&self.a, &mut comps);
        collect(&self.b, &mut comps);
        assert(comps@ =~= union_leaves(*self.spec_a()) + union_leaves(*self.spec_b()));
        comps
    }
}

/// Returns the `*pi`-th type of the union `v` (counting from 0), or `None` if there is no such
/// type. When the type is found `*pi` is left at 0; otherwise it has been decreased by one less
/// than the number of types in `v`.
pub fn nth_union_component(v: &UnionValue, pi: &mut i32) -> (r: Option<usize>)
    requires
        *old(pi) < 0 ==> *old(pi) - (union_leaves(*v).len() - 1) >= i32::MIN,
    ensures
        r == (if 0 <= *old(pi) < union_leaves(*v).len() {
            Some(union_leaves(*v)[*old(pi) as int])
        } else {
            None
        }),
        r is Some ==> *final(pi) == 0,
        r is None ==> *final(pi) == *old(pi) - (union_leaves(*v).len() - 1),
    decreases v,
{
    match v {
        UnionValue::Union(un) => {
            proof {
                lemma_union_leaves_nonempty(*un.a);
                lemma_union_leaves_nonempty(*un.b);
            }
            let a = nth_union_component(&un.a, pi);
            if a.is_some() {
                a
            } else {
                *pi -= 1;
                nth_union_component(&un.b, pi)
            }
        },
        UnionValue::Other(t) => {
            if *pi == 0 {
                Some(*t)
            } else {
                None
            }
        },
    }
}

/// Appends all types of the union `value` to `comps`, in order.
pub fn collect(value: &UnionValue, comps: &mut Vec<usize>)
    ensures
        final(comps)@ == old(comps)@ + union_leaves(*value),
    decreases value,
{
    match value {
        UnionValue::Union(u) => {
            collect(&u.a, comps);
            collect(&u.b, comps);
            assert(comps@ =~= old(comps)@ + union_leaves(*value));
        },
        UnionValue::Other(t) => {
            comps.push(*t);
            assert(comps@ =~= old(comps)@ + union_leaves(*value));
        },
    }
}

/// Returns `true` if `needle` is one of the types of the union `haystack`, and adds to `*nth`
/// the number of types that come before its first occurrence; if it isn't, `*nth` is increased
/// by the number of types.
pub fn find_union_component(haystack: &UnionValue, needle: usize, nth: &mut u32) -> (r: bool)
    requires
        *old(nth) + first_position(union_leaves(*haystack), needle) <= u32::MAX,
    ensures
        r == union_leaves(*haystack).contains(needle),
        *final(nth) == *old(nth) + first_position(union_leaves(*haystack), needle),
    decreases haystack,
{
    proof {
        lemma_first_position(union_leaves(*haystack), needle);
    }
    match haystack {
        UnionValue::Union(hs) => {
            proof {
                lemma_first_position_concat(union_leaves(*hs.a), union_leaves(*hs.b), needle);
                lemma_first_position(union_leaves(*hs.a), needle);
                lemma_first_position(union_leaves(*hs.b), needle);
            }
            if find_union_component(&hs.a, needle, nth) {
                true
            } else if find_union_component(&hs.b, needle, nth) {
                true
            } else {
                false
            }
        },
        UnionValue::Other(t) => {
            if needle == *t {
                true
            } else {
                *nth += 1;
                false
            }
        },
    }
}

/// Looking a type up in a union and asking for the type at the position found gives the
/// same type back: if `needle` is one of the types of `v`, the position that
/// [`find_union_component`] counts is one at which [`nth_union_component`] returns `needle`,
/// and no earlier position holds `needle`.
pub proof fn lemma_find_then_nth(v: UnionValue, needle: usize)
    requires
        union_leaves(v).contains(needle),
    ensures
        0 <= first_position(union_leaves(v), needle) < union_leaves(v).len(),
        union_leaves(v)[first_position(union_leaves(v), needle)] == needle,
        forall|k: int| 0 <= k < first_position(union_leaves(v), needle) ==> union_leaves(v)[k]
            != needle,
{
    lemma_first_position(union_leaves(v), needle);
}

/// Every type that [`nth_union_component`] returns is found by [`find_union_component`] at a
/// position no later than the one asked for.
pub proof fn lemma_nth_then_find(v: UnionValue, k: int)
    requires
        0 <= k < union_leaves(v).len(),
    ensures
        union_leaves(v).contains(union_leaves(v)[k]),
        first_position(union_leaves(v), union_leaves(v)[k]) <= k,
{
    let s = union_leaves(v);
    lemma_first_position(s, s[k]);
    assert(s[k] == s[k]);
}

} // verus!
