use std::collections::HashMap;
use std::hash::Hash;
use vstd::prelude::*;
use vstd::std_specs::hash::obeys_key_model;

verus! {

/// Whether `clone` on `T` always yields a value equal to the original.
pub open spec fn clones_exactly<T: Clone>() -> bool {
    forall|x: T, y: T| #[trigger] vstd::pervasive::strictly_cloned(x, y) ==> x == y
}

/// Whether `A` and `B` can serve as keys of the two maps: hashing and
/// equality agree with spec equality, and cloning is exact.
pub open spec fn valid_key_types<A: Clone, B: Clone>() -> bool {
    &&& obeys_key_model::<A>()
    &&& obeys_key_model::<B>()
    &&& clones_exactly::<A>()
    &&& clones_exactly::<B>()
}

/// Two associative maps, from inputs to outputs and from outputs to inputs,
/// that every insertion updates together.
pub struct TwoWayMap<A, B> {
    forward: HashMap<A, B>,
    backward: HashMap<B, A>,
}

impl<A: Eq + Hash + Clone, B: Eq + Hash + Clone> TwoWayMap<A, B> {
    /// The forward map, from inputs to outputs.
    pub closed spec fn forward(&self) -> Map<A, B> {
        self.forward@
    }

    /// The backward map, from outputs to inputs.
    pub closed spec fn backward(&self) -> Map<B, A> {
        self.backward@
    }

    /// `post` is `self` with `input` associated with `output` in both
    /// directions, the two maps being otherwise unchanged.
    pub open spec fn mapped(&self, input: A, output: B, post: &Self) -> bool {
        &&& post.forward() == self.forward().insert(input, output)
        &&& post.backward() == self.backward().insert(output, input)
    }

    /// A map with no entries in either direction.
    pub fn empty() -> (r: Self)
        ensures
            r.forward() == Map::<A, B>::empty(),
            r.backward() == Map::<B, A>::empty(),
    {
        TwoWayMap { forward: HashMap::new(), backward: HashMap::new() }
    }

    /// Associates `input` with `output` in both directions, replacing
    /// whatever either of them was associated with before.
    pub fn map(&mut self, input: A, output: B)
        requires
            valid_key_types::<A, B>(),
        ensures
            old(self).mapped(input, output, final(self)),
    {
        let key = input.clone();
        let value = output.clone();
        proof {
            assert(vstd::pervasive::strictly_cloned(input, key));
            assert(vstd::pervasive::strictly_cloned(output, value));
        }
        self.forward.insert(key, value);
        self.backward.insert(output, input);
    }

    /// The output associated with `input`, if any.
    pub fn input(&self, input: &A) -> (r: Option<&B>)
        requires
            valid_key_types::<A, B>(),
        ensures
            r == (if self.forward().contains_key(*input) {
                Some(&self.forward()[*input])
            } else {
                None
            }),
    {
        self.forward.get(input)
    }

    /// The input associated with `output`, if any.
    pub fn output(&self, output: &B) -> (r: Option<&A>)
        requires
            valid_key_types::<A, B>(),
        ensures
            r == (if self.backward().contains_key(*output) {
                Some(&self.backward()[*output])
            } else {
                None
            }),
    {
        self.backward.get(output)
    }
}

/// After an insertion of `(k, v)`, looking `k` up forward gives `v` and
/// looking `v` up backward gives `k`: both directions hold at once.
pub proof fn lemma_lookup_after_map<A: Eq + Hash + Clone, B: Eq + Hash + Clone>(
    pre: TwoWayMap<A, B>,
    k: A,
    v: B,
    post: TwoWayMap<A, B>,
)
    requires
        pre.mapped(k, v, &post),
    ensures
        post.forward().contains_key(k),
        post.forward()[k] == v,
        post.backward().contains_key(v),
        post.backward()[v] == k,
{
}

/// Inserting `(k2, v)` after `(k1, v)` rebinds `v` backward to `k2`, while
/// the forward entry of `k1` still gives `v`: the two maps need not stay
/// inverse to each other.
pub proof fn lemma_later_input_wins<A: Eq + Hash + Clone, B: Eq + Hash + Clone>(
    m0: TwoWayMap<A, B>,
    k1: A,
    k2: A,
    v: B,
    m1: TwoWayMap<A, B>,
    m2: TwoWayMap<A, B>,
)
    requires
        m0.mapped(k1, v, &m1),
        m1.mapped(k2, v, &m2),
    ensures
        m2.backward()[v] == k2,
        m2.forward()[k2] == v,
        m2.forward().contains_key(k1),
        m2.forward()[k1] == v,
{
}

} // verus!
