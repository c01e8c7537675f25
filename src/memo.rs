use std::hash::Hash;
use vstd::pervasive::strictly_cloned;
use vstd::prelude::*;

use crate::two_way_map::{valid_key_types, TwoWayMap};

verus! {

/// A memoizing wrapper around a computation from `A` to `B`.
///
/// Each input is handed to the computation at most once: the first result for
/// it is kept, together with the reverse association from the result back to
/// the input, and every later call with that input returns the kept result.
/// Calls take `&mut self`, so the check-compute-insert sequence of a call is
/// never interleaved with another call on the same instance, and a reentrant
/// call from inside the computation is refused at compile time. Sharing one
/// instance across threads needs a lock held around the whole call.
pub struct Bijection<A, B, F> {
    function: F,
    memo_table: TwoWayMap<A, B>,
    computed: Ghost<Seq<A>>,
}

impl<A: Eq + Hash + Clone, B: Eq + Hash + Clone, F> Bijection<A, B, F> {
    /// The wrapped computation.
    pub closed spec fn function(&self) -> F {
        self.function
    }

    /// The cached results, by input.
    pub closed spec fn forward(&self) -> Map<A, B> {
        self.memo_table.forward()
    }

    /// The reverse index, from each cached result to the input it was last
    /// recorded for.
    pub closed spec fn backward(&self) -> Map<B, A> {
        self.memo_table.backward()
    }

    /// The inputs on which the computation has run to a result, in order.
    pub closed spec fn computed(&self) -> Seq<A> {
        self.computed@
    }

    /// The cache holds exactly the inputs on which the computation has run,
    /// and it has run on none of them twice.
    pub open spec fn wf(&self) -> bool {
        &&& valid_key_types::<A, B>()
        &&& self.computed().no_duplicates()
        &&& forall|a: A| #[trigger] self.computed().contains(a) <==> self.forward().contains_key(a)
    }

    /// What one call with `arg` that returned `r` did, taking `self` to
    /// `post`: a cached input gives its cached result and changes nothing; a
    /// new input is computed once and recorded in both directions.
    pub open spec fn called(&self, arg: A, r: B, post: &Self) -> bool {
        &&& post.function() == self.function()
        &&& if self.forward().contains_key(arg) {
            &&& r == self.forward()[arg]
            &&& post.forward() == self.forward()
            &&& post.backward() == self.backward()
            &&& post.computed() == self.computed()
        } else {
            &&& post.forward() == self.forward().insert(arg, r)
            &&& post.backward() == self.backward().insert(r, arg)
            &&& post.computed() == self.computed().push(arg)
        }
    }

    /// What one fallible call with `arg` that returned `res` did, taking
    /// `self` to `post`: as `called` where a result comes back, while a
    /// failure leaves everything as it was.
    pub open spec fn try_called<E>(&self, arg: A, res: Result<B, E>, post: &Self) -> bool {
        match res {
            Ok(r) => self.called(arg, r, post),
            Err(_) => {
                &&& !self.forward().contains_key(arg)
                &&& post.function() == self.function()
                &&& post.forward() == self.forward()
                &&& post.backward() == self.backward()
                &&& post.computed() == self.computed()
            },
        }
    }

    /// Wraps `f` with an empty cache.
    pub fn new(f: F) -> (r: Self)
        requires
            valid_key_types::<A, B>(),
        ensures
            r.wf(),
            r.function() == f,
            r.forward() == Map::<A, B>::empty(),
            r.backward() == Map::<B, A>::empty(),
            r.computed() == Seq::<A>::empty(),
    {
        Bijection { function: f, memo_table: TwoWayMap::empty(), computed: Ghost(Seq::empty()) }
    }

    /// A clone of the cached result for `arg`, if there is one.
    fn cached(&self, arg: &A) -> (r: Option<B>)
        requires
            self.wf(),
        ensures
            r == (if self.forward().contains_key(*arg) {
                Some(self.forward()[*arg])
            } else {
                None
            }),
    {
        match self.memo_table.input(arg) {
            Some(b) => {
                let out = b.clone();
                proof {
                    assert(strictly_cloned(*b, out));
                }
                Some(out)
            },
            None => None,
        }
    }

    /// Records `r` as the result of `arg`, which has no cached result yet.
    fn record(&mut self, arg: A, r: B) -> (out: B)
        requires
            old(self).wf(),
            !old(self).forward().contains_key(arg),
        ensures
            final(self).wf(),
            out == r,
            old(self).called(arg, r, final(self)),
    {
        let value = r.clone();
        proof {
            assert(strictly_cloned(r, value));
        }
        self.memo_table.map(arg, value);
        self.computed = Ghost(self.computed@.push(arg));
        proof {
            let s = self.computed();
            assert(s.last() == arg);
            assert(!old(self).computed().contains(arg));
            assert forall|i: int, j: int| 0 <= i < j < s.len() implies s[i] != s[j] by {
                assert(s[i] == old(self).computed()[i]);
                if j < s.len() - 1 {
                    assert(s[j] == old(self).computed()[j]);
                }
            }
            assert forall|a: A| #[trigger] s.contains(a) <==> self.forward().contains_key(a) by {
                if s.contains(a) && a != arg {
                    let i = choose|i: int| 0 <= i < s.len() && s[i] == a;
                    assert(old(self).computed()[i] == a);
                }
                if old(self).computed().contains(a) {
                    let i = choose|i: int| 0 <= i < old(self).computed().len() && old(self).computed()[i] == a;
                    assert(s[i] == a);
                }
            }
        }
        r
    }

    /// The result of the computation on `arg`: the cached one if `arg` was
    /// seen before, else a fresh one, which is then cached.
    pub fn call(&mut self, arg: A) -> (r: B)
        where F: Fn(A) -> B,
        requires
            old(self).wf(),
            old(self).function().requires((arg,)),
        ensures
            final(self).wf(),
            old(self).called(arg, r, final(self)),
            !old(self).forward().contains_key(arg) ==> old(self).function().ensures((arg,), r),
    {
        if let Some(b) = self.cached(&arg) {
            return b;
        }
        let key = arg.clone();
        proof {
            assert(strictly_cloned(arg, key));
        }
        let r = (self.function)(arg);
        self.record(key, r)
    }

    /// As `call`, for a computation that may fail. A failure is handed back
    /// to the caller and nothing is cached for `arg`, so a later call with
    /// `arg` runs the computation again.
    pub fn try_call<E>(&mut self, arg: A) -> (r: Result<B, E>)
        where F: Fn(A) -> Result<B, E>,
        requires
            old(self).wf(),
            old(self).function().requires((arg,)),
        ensures
            final(self).wf(),
            old(self).try_called(arg, r, final(self)),
            !old(self).forward().contains_key(arg) ==> old(self).function().ensures((arg,), r),
    {
        if let Some(b) = self.cached(&arg) {
            return Ok(b);
        }
        let key = arg.clone();
        proof {
            assert(strictly_cloned(arg, key));
        }
        match (self.function)(arg) {
            Ok(r) => Ok(self.record(key, r)),
            Err(e) => Err(e),
        }
    }
}

/// Calling with the same input `a` on an instance that has no result for it
/// runs the computation once, on the first call, whatever the number of
/// calls: `states[i]` is the instance before call `i`, which returned
/// `results[i]`. Every call returns the first result.
pub proof fn lemma_computes_once<A: Eq + Hash + Clone, B: Eq + Hash + Clone, F>(
    states: Seq<Bijection<A, B, F>>,
    results: Seq<B>,
    a: A,
)
    requires
        results.len() >= 1,
        states.len() == results.len() + 1,
        !states[0].forward().contains_key(a),
        forall|i: int|
            #![trigger states[i]]
            0 <= i < results.len() ==> states[i].called(a, results[i], &states[i + 1]),
    ensures
        states.last().computed() == states[0].computed().push(a),
        forall|i: int| 0 <= i < results.len() ==> #[trigger] results[i] == results[0],
{
    lemma_computes_once_upto(states, results, a, results.len() as int);
}

proof fn lemma_computes_once_upto<A: Eq + Hash + Clone, B: Eq + Hash + Clone, F>(
    states: Seq<Bijection<A, B, F>>,
    results: Seq<B>,
    a: A,
    k: int,
)
    requires
        1 <= k <= results.len(),
        states.len() == results.len() + 1,
        !states[0].forward().contains_key(a),
        forall|i: int|
            #![trigger states[i]]
            0 <= i < results.len() ==> states[i].called(a, results[i], &states[i + 1]),
    ensures
        states[k].computed() == states[0].computed().push(a),
        states[k].forward().contains_key(a),
        states[k].forward()[a] == results[0],
        forall|i: int| 0 <= i < k ==> #[trigger] results[i] == results[0],
    decreases k,
{
    assert(states[0].called(a, results[0], &states[1]));
    if k > 1 {
        lemma_computes_once_upto(states, results, a, k - 1);
        assert(states[k - 1].called(a, results[k - 1], &states[k]));
    }
}

/// A call with `a1` leaves the cached result of every other input `a2`, and
/// whether it has one, as it was.
pub proof fn lemma_other_input_unaffected<A: Eq + Hash + Clone, B: Eq + Hash + Clone, F>(
    pre: Bijection<A, B, F>,
    a1: A,
    r: B,
    post: Bijection<A, B, F>,
    a2: A,
)
    requires
        pre.called(a1, r, &post),
        a1 != a2,
    ensures
        post.forward().contains_key(a2) == pre.forward().contains_key(a2),
        pre.forward().contains_key(a2) ==> post.forward()[a2] == pre.forward()[a2],
{
}

/// A call with `a` whose computation failed caches nothing, so the next call
/// with `a` runs the computation again: where it succeeds, `a` is then
/// recorded as computed.
pub proof fn lemma_failure_not_cached<A: Eq + Hash + Clone, B: Eq + Hash + Clone, E, F>(
    s0: Bijection<A, B, F>,
    a: A,
    e: E,
    s1: Bijection<A, B, F>,
    res: Result<B, E>,
    s2: Bijection<A, B, F>,
)
    requires
        s0.try_called(a, Err(e), &s1),
        s1.try_called(a, res, &s2),
    ensures
        !s1.forward().contains_key(a),
        s1.forward() == s0.forward(),
        s1.computed() == s0.computed(),
        res is Ok ==> s2.computed() == s1.computed().push(a),
{
}

} // verus!
