//! Symmetry groups of game states, and canonicalization of boards under a
//! game's symmetry group.

use vstd::prelude::*;

verus! {

/// A finite group of invertible transformations of a game state.
///
/// A game declares all elements of its group in a fixed enumeration order.
/// The group laws (closure, identity, inverses, associativity) are proof
/// obligations on every implementation.
pub trait Symmetry: Sized + Copy {
    /// All elements of the group, in the game's fixed enumeration order.
    spec fn all_spec() -> Seq<Self>;

    /// The identity element of the group.
    spec fn identity_spec() -> Self;

    /// The inverse of a group element.
    spec fn inverse_spec(self) -> Self;

    /// The composition `self` followed by `other`.
    spec fn compose_spec(self, other: Self) -> Self;

    /// Return all elements of the group, in the fixed enumeration order.
    fn all() -> (r: Vec<Self>)
        ensures
            r@ == Self::all_spec(),
    ;

    /// The group laws every implementation must establish.
    proof fn lemma_group_laws()
        ensures
            Self::all_spec().len() > 0,
            Self::all_spec().contains(Self::identity_spec()),
            forall|s: Self|
                Self::all_spec().contains(s) ==> Self::all_spec().contains(
                    #[trigger] s.inverse_spec(),
                ),
            forall|s: Self, t: Self|
                Self::all_spec().contains(s) && Self::all_spec().contains(t)
                    ==> Self::all_spec().contains(#[trigger] s.compose_spec(t)),
            forall|s: Self|
                Self::all_spec().contains(s) ==> #[trigger] s.compose_spec(Self::identity_spec())
                    == s,
            forall|s: Self|
                Self::all_spec().contains(s) ==> #[trigger] Self::identity_spec().compose_spec(s)
                    == s,
            forall|s: Self|
                Self::all_spec().contains(s) ==> #[trigger] s.compose_spec(s.inverse_spec())
                    == Self::identity_spec(),
            forall|s: Self|
                Self::all_spec().contains(s) ==> #[trigger] s.inverse_spec().compose_spec(s)
                    == Self::identity_spec(),
            forall|s: Self, t: Self, u: Self|
                Self::all_spec().contains(s) && Self::all_spec().contains(t)
                    && Self::all_spec().contains(u) ==> #[trigger] s.compose_spec(t).compose_spec(u)
                    == s.compose_spec(t.compose_spec(u)),
    ;
}

/// The trivial symmetry group, for games without any symmetry: its only
/// element is the identity.
#[derive(Debug, Copy, Clone, Eq, PartialEq, Hash, Structural)]
pub struct UnitSymmetry;

impl Symmetry for UnitSymmetry {
    open spec fn all_spec() -> Seq<UnitSymmetry> {
        seq![UnitSymmetry]
    }

    open spec fn identity_spec() -> UnitSymmetry {
        UnitSymmetry
    }

    open spec fn inverse_spec(self) -> UnitSymmetry {
        UnitSymmetry
    }

    open spec fn compose_spec(self, other: UnitSymmetry) -> UnitSymmetry {
        UnitSymmetry
    }

    fn all() -> (r: Vec<UnitSymmetry>) {
        vec![UnitSymmetry]
    }

    proof fn lemma_group_laws() {
        assert(Self::all_spec()[0] == UnitSymmetry);
        assert(Self::all_spec().contains(UnitSymmetry));
    }
}

/// The ways in which a game state is symmetric: how a symmetry element maps
/// a state, and the canonical key that orders the images of a state.
///
/// The canonical key must describe exactly the part of the observable state
/// that `map` can change: two images of one state with equal keys are equal
/// states (the `lemma_key_determines` obligation).
pub trait BoardSymmetry: Sized {
    /// The symmetry group of this game.
    type Symmetry: Symmetry;

    /// Well-formedness of a state.
    spec fn inv(&self) -> bool;

    /// The image of this state under the symmetry element `s`.
    spec fn map_spec(&self, s: Self::Symmetry) -> Self;

    /// The canonical key of this state: a totally ordered summary of exactly
    /// the part of the state that `map` can change.
    spec fn key_spec(&self) -> u64;

    /// Map this state under the symmetry element `s`.
    fn map(&self, s: Self::Symmetry) -> (r: Self)
        requires
            self.inv(),
            <Self::Symmetry as Symmetry>::all_spec().contains(s),
        ensures
            r == self.map_spec(s),
    ;

    /// Return the canonical key of this state.
    fn canonical_key(&self) -> (r: u64)
        requires
            self.inv(),
        ensures
            r == self.key_spec(),
    ;

    /// Obligation: mapping by the identity element changes nothing.
    proof fn lemma_map_identity(&self)
        requires
            self.inv(),
        ensures
            self.map_spec(<Self::Symmetry as Symmetry>::identity_spec()) == *self,
    ;

    /// Obligation: mapping by `s` and then by `t` equals mapping by their
    /// composition.
    proof fn lemma_map_compose(&self, s: Self::Symmetry, t: Self::Symmetry)
        requires
            self.inv(),
            <Self::Symmetry as Symmetry>::all_spec().contains(s),
            <Self::Symmetry as Symmetry>::all_spec().contains(t),
        ensures
            self.map_spec(s).map_spec(t) == self.map_spec(s.compose_spec(t)),
    ;

    /// Obligation: mapping preserves well-formedness.
    proof fn lemma_map_preserves_inv(&self, s: Self::Symmetry)
        requires
            self.inv(),
            <Self::Symmetry as Symmetry>::all_spec().contains(s),
        ensures
            self.map_spec(s).inv(),
    ;

    /// Obligation: among the images of one state, the canonical key
    /// determines the image.
    proof fn lemma_key_determines(&self, s: Self::Symmetry, t: Self::Symmetry)
        requires
            self.inv(),
            <Self::Symmetry as Symmetry>::all_spec().contains(s),
            <Self::Symmetry as Symmetry>::all_spec().contains(t),
            self.map_spec(s).key_spec() == self.map_spec(t).key_spec(),
        ensures
            self.map_spec(s) == self.map_spec(t),
    ;

}

/// Convert the state `b` to its canonical version, by mapping it with the
/// symmetry element that yields the smallest canonical key; ties go to the
/// first such element in the group's enumeration order.
///
/// Every symmetric variant of a state canonicalizes to the same state, which
/// makes the result usable as a key for deduplication, for example in a
/// transposition table.
pub fn canonicalize<B: BoardSymmetry>(b: &B) -> (r: B)
    requires
        b.inv(),
    ensures
        r == canonical_spec(*b),
        r.inv(),
{
    proof {
        <B::Symmetry as Symmetry>::lemma_group_laws();
    }
    let elems: Vec<B::Symmetry> = <B::Symmetry as Symmetry>::all();
    assert(elems@.contains(elems@[0]));
    let mut best = b.map(elems[0]);
    proof {
        b.lemma_map_preserves_inv(elems@[0]);
    }
    let mut best_key = best.canonical_key();
    let ghost mut best_i: int = 0;
    let mut idx: usize = 1;
    while idx < elems.len()
        invariant
            b.inv(),
            elems@ == <B::Symmetry as Symmetry>::all_spec(),
            1 <= idx <= elems@.len(),
            0 <= best_i < idx,
            best == b.map_spec(elems@[best_i]),
            best.inv(),
            best_key == best.key_spec(),
            forall|j: int| 0 <= j < idx ==> best_key <= b.map_spec(#[trigger] elems@[j]).key_spec(),
            forall|j: int| 0 <= j < best_i ==> b.map_spec(#[trigger] elems@[j]).key_spec() > best_key,
        decreases elems@.len() - idx,
    {
        assert(elems@.contains(elems@[idx as int]));
        let cand = b.map(elems[idx]);
        proof {
            b.lemma_map_preserves_inv(elems@[idx as int]);
        }
        let cand_key = cand.canonical_key();
        if cand_key < best_key {
            best = cand;
            best_key = cand_key;
            proof {
                best_i = idx as int;
            }
        }
        idx = idx + 1;
    }
    proof {
        assert(is_first_min_index(*b, best_i));
        lemma_canonical_index_is_first_min(*b);
        lemma_first_min_unique(*b, best_i, canonical_index(*b));
    }
    best
}

/// Whether `i` is the index, in the group's enumeration order, of the first
/// symmetry element that yields the minimal canonical key for `b`.
pub open spec fn is_first_min_index<B: BoardSymmetry>(b: B, i: int) -> bool {
    let g = <B::Symmetry as Symmetry>::all_spec();
    &&& 0 <= i < g.len()
    &&& forall|j: int|
        0 <= j < g.len() ==> b.map_spec(g[i]).key_spec() <= b.map_spec(#[trigger] g[j]).key_spec()
    &&& forall|j: int| 0 <= j < i ==> b.map_spec(#[trigger] g[j]).key_spec() > b.map_spec(g[i]).key_spec()
}

/// The index of the first symmetry element that yields the minimal canonical
/// key for `b`.
pub open spec fn canonical_index<B: BoardSymmetry>(b: B) -> int {
    choose|i: int| is_first_min_index(b, i)
}

/// The canonical version of the state `b`: its image under the first
/// symmetry element that yields the minimal canonical key.
pub open spec fn canonical_spec<B: BoardSymmetry>(b: B) -> B {
    b.map_spec(<B::Symmetry as Symmetry>::all_spec()[canonical_index(b)])
}

/// Within the first `n` group elements there is a first index achieving the
/// minimal canonical key for `b`.
proof fn lemma_first_min_prefix<B: BoardSymmetry>(b: B, n: int) -> (i: int)
    requires
        0 < n <= <B::Symmetry as Symmetry>::all_spec().len(),
    ensures
        0 <= i < n,
        forall|j: int|
            0 <= j < n ==> b.map_spec(
                <B::Symmetry as Symmetry>::all_spec()[i],
            ).key_spec() <= b.map_spec(
                #[trigger] <B::Symmetry as Symmetry>::all_spec()[j],
            ).key_spec(),
        forall|j: int|
            0 <= j < i ==> b.map_spec(
                #[trigger] <B::Symmetry as Symmetry>::all_spec()[j],
            ).key_spec() > b.map_spec(<B::Symmetry as Symmetry>::all_spec()[i]).key_spec(),
    decreases n,
{
    let g = <B::Symmetry as Symmetry>::all_spec();
    if n == 1 {
        0
    } else {
        let i0 = lemma_first_min_prefix(b, n - 1);
        if b.map_spec(g[n - 1]).key_spec() < b.map_spec(g[i0]).key_spec() {
            n - 1
        } else {
            i0
        }
    }
}

/// For every state there is a first-minimal index, and `canonical_index`
/// picks one.
pub proof fn lemma_canonical_index_is_first_min<B: BoardSymmetry>(b: B)
    ensures
        is_first_min_index(b, canonical_index(b)),
{
    <B::Symmetry as Symmetry>::lemma_group_laws();
    let g = <B::Symmetry as Symmetry>::all_spec();
    let i = lemma_first_min_prefix(b, g.len() as int);
    assert(is_first_min_index(b, i));
}

/// Law: mapping by the identity element changes nothing, and mapping by any
/// group element and then by its inverse restores the original state.
pub proof fn lemma_map_roundtrip<B: BoardSymmetry>(b: B, s: B::Symmetry)
    requires
        b.inv(),
        <B::Symmetry as Symmetry>::all_spec().contains(s),
    ensures
        b.map_spec(<B::Symmetry as Symmetry>::identity_spec()) == b,
        b.map_spec(s).map_spec(s.inverse_spec()) == b,
{
    <B::Symmetry as Symmetry>::lemma_group_laws();
    b.lemma_map_identity();
    b.lemma_map_compose(s, s.inverse_spec());
}

/// Law: canonicalization is invariant under symmetry. Mapping a state by any
/// group element does not change its canonical version, so all symmetric
/// variants of a state share one canonical representative.
pub proof fn lemma_canonicalize_invariant<B: BoardSymmetry>(b: B, s: B::Symmetry)
    requires
        b.inv(),
        <B::Symmetry as Symmetry>::all_spec().contains(s),
    ensures
        canonical_spec(b.map_spec(s)) == canonical_spec(b),
{
    <B::Symmetry as Symmetry>::lemma_group_laws();
    let g = <B::Symmetry as Symmetry>::all_spec();
    let bp = b.map_spec(s);
    b.lemma_map_preserves_inv(s);
    lemma_canonical_index_is_first_min(b);
    lemma_canonical_index_is_first_min(bp);
    let i = canonical_index(b);
    let ip = canonical_index(bp);
    let u = g[i];
    let t = g[ip];
    assert(g.contains(u));
    assert(g.contains(t));
    // The canonical version of `bp` is an image of `b`, namely under `s`
    // composed with `t`, so its key is at least the minimal key for `b`.
    b.lemma_map_compose(s, t);
    let w = s.compose_spec(t);
    assert(g.contains(w));
    assert(bp.map_spec(t) == b.map_spec(w));
    let jw = choose|j: int| 0 <= j < g.len() && g[j] == w;
    assert(b.map_spec(u).key_spec() <= b.map_spec(g[jw]).key_spec());
    // The canonical version of `b` is an image of `bp`, namely under the
    // inverse of `s` composed with `u`, so its key is at least the minimal
    // key for `bp`.
    let v = s.inverse_spec().compose_spec(u);
    assert(g.contains(s.inverse_spec()));
    assert(g.contains(v));
    b.lemma_map_compose(s, v);
    assert(s.compose_spec(s.inverse_spec()).compose_spec(u) == s.compose_spec(
        s.inverse_spec().compose_spec(u),
    ));
    assert(s.compose_spec(v) == u);
    assert(bp.map_spec(v) == b.map_spec(u));
    let jv = choose|j: int| 0 <= j < g.len() && g[j] == v;
    assert(bp.map_spec(t).key_spec() <= bp.map_spec(g[jv]).key_spec());
    // Both canonical versions therefore have the same, minimal key, and the
    // key determines the image.
    assert(b.map_spec(u).key_spec() == b.map_spec(w).key_spec());
    b.lemma_key_determines(u, w);
    assert(canonical_spec(b) == b.map_spec(u));
    assert(canonical_spec(bp) == bp.map_spec(t));
}

/// Law: canonicalization is a projection. The canonical version of a state
/// is its own canonical version.
pub proof fn lemma_canonicalize_projection<B: BoardSymmetry>(b: B)
    requires
        b.inv(),
    ensures
        canonical_spec(canonical_spec(b)) == canonical_spec(b),
{
    <B::Symmetry as Symmetry>::lemma_group_laws();
    lemma_canonical_index_is_first_min(b);
    let g = <B::Symmetry as Symmetry>::all_spec();
    let i = canonical_index(b);
    assert(g.contains(g[i]));
    lemma_canonicalize_invariant(b, g[i]);
}

/// The first-minimal index is unique.
pub proof fn lemma_first_min_unique<B: BoardSymmetry>(b: B, i: int, j: int)
    requires
        is_first_min_index(b, i),
        is_first_min_index(b, j),
    ensures
        i == j,
{
    let g = <B::Symmetry as Symmetry>::all_spec();
    if i < j {
        assert(b.map_spec(g[i]).key_spec() > b.map_spec(g[j]).key_spec());
        assert(b.map_spec(g[i]).key_spec() <= b.map_spec(g[j]).key_spec());
    } else if j < i {
        assert(b.map_spec(g[j]).key_spec() > b.map_spec(g[i]).key_spec());
        assert(b.map_spec(g[j]).key_spec() <= b.map_spec(g[i]).key_spec());
    }
}

} // verus!
