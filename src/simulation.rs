use vstd::prelude::*;

use crate::config::ConfigError;

verus! {

/// One step of the trace `p` for body `i`: the pair `(i, i)` adds nothing, and
/// for every other `j` the pull of `snap[j]` on `snap[i]` is applied to the
/// running state.
pub open spec fn pull_step<B, T, F: Fn(B, B) -> T, G: Fn(B, T) -> B>(
    pull: F,
    apply: G,
    snap: Seq<B>,
    i: int,
    j: int,
    p: Seq<B>,
) -> bool {
    if j == i {
        p[j + 1] == p[j]
    } else {
        exists|t: T| pull.ensures((snap[i], snap[j]), t) && apply.ensures((p[j], t), p[j + 1])
    }
}

/// `p` is the running state of body `i` while the pulls of all bodies of `snap`
/// are added to it in index order, starting from `snap[i]` itself.
pub open spec fn is_pull_trace<B, T, F: Fn(B, B) -> T, G: Fn(B, T) -> B>(
    pull: F,
    apply: G,
    snap: Seq<B>,
    i: int,
    p: Seq<B>,
) -> bool {
    &&& p.len() == snap.len() + 1
    &&& p[0] == snap[i]
    &&& forall|j: int| 0 <= j < snap.len() ==> #[trigger] pull_step(pull, apply, snap, i, j, p)
}

/// `v` is what body `i` becomes once the pull of every other body of `snap`
/// has been applied to it.
pub open spec fn accumulated<B, T, F: Fn(B, B) -> T, G: Fn(B, T) -> B>(
    pull: F,
    apply: G,
    snap: Seq<B>,
    i: int,
    v: B,
) -> bool {
    exists|p: Seq<B>| #[trigger] is_pull_trace(pull, apply, snap, i, p) && p[snap.len() as int] == v
}

/// Applies to every body the pulls of all the others, all read from the
/// snapshot `bodies`; a body is never pulled by itself.
pub fn accumulate<B: Copy, T, F: Fn(B, B) -> T, G: Fn(B, T) -> B>(
    bodies: &Vec<B>,
    pull: &F,
    apply: &G,
) -> (r: Vec<B>)
    requires
        forall|a: B, b: B| pull.requires((a, b)),
        forall|a: B, t: T| apply.requires((a, t)),
    ensures
        r.len() == bodies.len(),
        forall|i: int|
            0 <= i < bodies.len() ==> accumulated(*pull, *apply, bodies@, i, #[trigger] r[i]),
{
    let n = bodies.len();
    let mut r: Vec<B> = Vec::new();
    let mut i: usize = 0;
    while i < n
        invariant
            n == bodies.len(),
            i <= n,
            r.len() == i,
            forall|a: B, b: B| pull.requires((a, b)),
            forall|a: B, t: T| apply.requires((a, t)),
            forall|k: int| 0 <= k < i ==> accumulated(*pull, *apply, bodies@, k, #[trigger] r[k]),
        decreases n - i,
    {
        let own = bodies[i];
        let mut acc = own;
        let ghost mut p: Seq<B> = seq![own];
        let mut j: usize = 0;
        while j < n
            invariant
                n == bodies.len(),
                i < n,
                j <= n,
                own == bodies@[i as int],
                p.len() == j + 1,
                p[0] == own,
                acc == p[j as int],
                forall|a: B, b: B| pull.requires((a, b)),
                forall|a: B, t: T| apply.requires((a, t)),
                forall|k: int|
                    0 <= k < j ==> #[trigger] pull_step(*pull, *apply, bodies@, i as int, k, p),
            decreases n - j,
        {
            let ghost old_p = p;
            if j != i {
                let t = pull(own, bodies[j]);
                let next = apply(acc, t);
                proof {
                    p = p.push(next);
                    assert(pull_step(*pull, *apply, bodies@, i as int, j as int, p));
                }
                acc = next;
            } else {
                proof {
                    p = p.push(acc);
                }
            }
            assert forall|k: int| 0 <= k < j + 1 implies #[trigger] pull_step(
                *pull,
                *apply,
                bodies@,
                i as int,
                k,
                p,
            ) by {
                if k < j {
                    assert(pull_step(*pull, *apply, bodies@, i as int, k, old_p));
                    assert(p[k] == old_p[k] && p[k + 1] == old_p[k + 1]);
                }
            }
            j += 1;
        }
        assert(is_pull_trace(*pull, *apply, bodies@, i as int, p));
        r.push(acc);
        i += 1;
    }
    r
}

/// Advances every body by one integration step, each independently of the others.
pub fn advance<B: Copy, H: Fn(B) -> B>(bodies: &Vec<B>, step: &H) -> (r: Vec<B>)
    requires
        forall|a: B| step.requires((a,)),
    ensures
        r.len() == bodies.len(),
        forall|i: int| 0 <= i < bodies.len() ==> step.ensures((bodies[i],), #[trigger] r[i]),
{
    let n = bodies.len();
    let mut r: Vec<B> = Vec::new();
    let mut i: usize = 0;
    while i < n
        invariant
            n == bodies.len(),
            i <= n,
            r.len() == i,
            forall|a: B| step.requires((a,)),
            forall|k: int| 0 <= k < i ==> step.ensures((bodies[k],), #[trigger] r[k]),
        decreases n - i,
    {
        let moved = step(bodies[i]);
        r.push(moved);
        i += 1;
    }
    r
}

/// `b` is body `i` of `snap` after one full tick: first the pulls of all other
/// bodies of the snapshot, then one integration step.
pub open spec fn ticked<B, T, F: Fn(B, B) -> T, G: Fn(B, T) -> B, H: Fn(B) -> B>(
    pull: F,
    apply: G,
    step: H,
    snap: Seq<B>,
    i: int,
    b: B,
) -> bool {
    exists|v: B| #[trigger] accumulated(pull, apply, snap, i, v) && step.ensures((v,), b)
}

/// A fixed, non-empty set of bodies, and whether the simulation is paused.
pub struct Simulation<B> {
    bodies: Vec<B>,
    paused: bool,
}

impl<B: Copy> Simulation<B> {
    /// The bodies, in their stable order.
    pub closed spec fn body_seq(&self) -> Seq<B> {
        self.bodies@
    }

    /// Whether ticks are currently suspended.
    pub closed spec fn is_paused_spec(&self) -> bool {
        self.paused
    }

    /// Starts a running simulation over `bodies`; an empty set is refused.
    pub fn new(bodies: Vec<B>) -> (r: Result<Self, ConfigError>)
        ensures
            bodies@.len() == 0 <==> r == Err::<Self, ConfigError>(ConfigError::NoBodies),
            bodies@.len() > 0 ==> r is Ok,
            r is Ok ==> r->Ok_0.body_seq() == bodies@ && !r->Ok_0.is_paused_spec(),
    {
        if bodies.len() == 0 {
            Err(ConfigError::NoBodies)
        } else {
            Ok(Simulation { bodies, paused: false })
        }
    }

    /// The number of bodies, fixed for the simulation's lifetime.
    pub fn len(&self) -> (r: usize)
        ensures
            r == self.body_seq().len(),
    {
        self.bodies.len()
    }

    /// Body `i`.
    pub fn body(&self, i: usize) -> (r: B)
        requires
            i < self.body_seq().len(),
        ensures
            r == self.body_seq()[i as int],
    {
        self.bodies[i]
    }

    /// All bodies, read-only, in order.
    pub fn bodies(&self) -> (r: &Vec<B>)
        ensures
            r@ == self.body_seq(),
    {
        &self.bodies
    }

    /// Whether ticks are currently suspended.
    pub fn is_paused(&self) -> (r: bool)
        ensures
            r == self.is_paused_spec(),
    {
        self.paused
    }

    /// Switches between running and paused; the bodies are untouched.
    pub fn toggle_pause(&mut self)
        ensures
            final(self).is_paused_spec() == !old(self).is_paused_spec(),
            final(self).body_seq() == old(self).body_seq(),
    {
        self.paused = !self.paused;
    }

    /// The index of the first body that `valid` rejects (one whose state has
    /// stopped being a finite number, say), or `None` when it accepts them all.
    pub fn first_invalid<P: Fn(B) -> bool>(&self, valid: &P) -> (r: Option<usize>)
        requires
            forall|a: B| valid.requires((a,)),
        ensures
            r is None ==> forall|i: int|
                0 <= i < self.body_seq().len() ==> valid.ensures((#[trigger] self.body_seq()[i],), true),
            r is Some ==> {
                &&& r->0 < self.body_seq().len()
                &&& valid.ensures((self.body_seq()[r->0 as int],), false)
                &&& forall|i: int|
                    0 <= i < r->0 ==> valid.ensures((#[trigger] self.body_seq()[i],), true)
            },
    {
        let n = self.bodies.len();
        let mut i: usize = 0;
        while i < n
            invariant
                n == self.bodies.len(),
                i <= n,
                forall|a: B| valid.requires((a,)),
                forall|k: int| 0 <= k < i ==> valid.ensures((#[trigger] self.bodies@[k],), true),
            decreases n - i,
        {
            if !valid(self.bodies[i]) {
                return Some(i);
            }
            i += 1;
        }
        None
    }

    /// Runs one tick. While paused nothing changes. While running, every body
    /// first receives the pull of every other body, all computed from the
    /// bodies as they stood before the tick, and only then is each body moved
    /// by one integration step.
    pub fn tick<T, F: Fn(B, B) -> T, G: Fn(B, T) -> B, H: Fn(B) -> B>(
        &mut self,
        pull: &F,
        apply: &G,
        step: &H,
    )
        requires
            forall|a: B, b: B| pull.requires((a, b)),
            forall|a: B, t: T| apply.requires((a, t)),
            forall|a: B| step.requires((a,)),
        ensures
            final(self).is_paused_spec() == old(self).is_paused_spec(),
            final(self).body_seq().len() == old(self).body_seq().len(),
            old(self).is_paused_spec() ==> final(self).body_seq() == old(self).body_seq(),
            !old(self).is_paused_spec() ==> forall|i: int|
                0 <= i < old(self).body_seq().len() ==> ticked(
                    *pull,
                    *apply,
                    *step,
                    old(self).body_seq(),
                    i,
                    #[trigger] final(self).body_seq()[i],
                ),
    {
        if !self.paused {
            let pulled = accumulate(&self.bodies, pull, apply);
            let moved = advance(&pulled, step);
            assert forall|i: int| 0 <= i < self.bodies.len() implies ticked(
                *pull,
                *apply,
                *step,
                self.bodies@,
                i,
                #[trigger] moved[i],
            ) by {
                assert(accumulated(*pull, *apply, self.bodies@, i, pulled[i]));
            }
            self.bodies = moved;
        }
    }
}

/// A lone body is never pulled: accumulating over a one-body snapshot leaves
/// that body exactly as it was.
pub proof fn lemma_lone_body_unpulled<B, T, F: Fn(B, B) -> T, G: Fn(B, T) -> B>(
    pull: F,
    apply: G,
    snap: Seq<B>,
    v: B,
)
    requires
        snap.len() == 1,
        accumulated(pull, apply, snap, 0, v),
    ensures
        v == snap[0],
{
    let p = choose|p: Seq<B>| #[trigger] is_pull_trace(pull, apply, snap, 0, p) && p[1] == v;
    assert(pull_step(pull, apply, snap, 0, 0, p));
}

/// A lone body only drifts: one tick of a one-body simulation is exactly one
/// integration step of that body, with no pull applied before it.
pub proof fn lemma_lone_body_tick<B, T, F: Fn(B, B) -> T, G: Fn(B, T) -> B, H: Fn(B) -> B>(
    pull: F,
    apply: G,
    step: H,
    snap: Seq<B>,
    b: B,
)
    requires
        snap.len() == 1,
        ticked(pull, apply, step, snap, 0, b),
    ensures
        step.ensures((snap[0],), b),
{
    let v = choose|v: B| #[trigger] accumulated(pull, apply, snap, 0, v) && step.ensures((v,), b);
    lemma_lone_body_unpulled(pull, apply, snap, v);
}

/// The pair law gives one result for each pair of bodies.
pub open spec fn single_valued_pull<B, T, F: Fn(B, B) -> T>(pull: F) -> bool {
    forall|a: B, b: B, t1: T, t2: T|
        #[trigger] pull.ensures((a, b), t1) && #[trigger] pull.ensures((a, b), t2) ==> t1 == t2
}

/// Applying a pull gives one result for each body and pull.
pub open spec fn single_valued_apply<B, T, G: Fn(B, T) -> B>(apply: G) -> bool {
    forall|a: B, t: T, r1: B, r2: B|
        #[trigger] apply.ensures((a, t), r1) && #[trigger] apply.ensures((a, t), r2) ==> r1 == r2
}

/// The integration step gives one result for each body.
pub open spec fn single_valued_step<B, H: Fn(B) -> B>(step: H) -> bool {
    forall|a: B, r1: B, r2: B|
        #[trigger] step.ensures((a,), r1) && #[trigger] step.ensures((a,), r2) ==> r1 == r2
}

proof fn lemma_traces_agree<B, T, F: Fn(B, B) -> T, G: Fn(B, T) -> B>(
    pull: F,
    apply: G,
    snap: Seq<B>,
    i: int,
    p1: Seq<B>,
    p2: Seq<B>,
    j: int,
)
    requires
        single_valued_pull(pull),
        single_valued_apply(apply),
        is_pull_trace(pull, apply, snap, i, p1),
        is_pull_trace(pull, apply, snap, i, p2),
        0 <= j <= snap.len(),
    ensures
        p1[j] == p2[j],
    decreases j,
{
    if j > 0 {
        lemma_traces_agree(pull, apply, snap, i, p1, p2, j - 1);
        assert(pull_step(pull, apply, snap, i, j - 1, p1));
        assert(pull_step(pull, apply, snap, i, j - 1, p2));
        if j - 1 != i {
            let t1 = choose|t: T|
                #[trigger] pull.ensures((snap[i], snap[j - 1]), t) && apply.ensures(
                    (p1[j - 1], t),
                    p1[j],
                );
            let t2 = choose|t: T|
                #[trigger] pull.ensures((snap[i], snap[j - 1]), t) && apply.ensures(
                    (p2[j - 1], t),
                    p2[j],
                );
            assert(t1 == t2);
        }
    }
}

/// Ticks are deterministic: when the pair law, the pull application and the
/// integration step each give one result per input, two ticks of the same
/// store yield the same store, body for body and in the same order.
pub proof fn lemma_tick_deterministic<B, T, F: Fn(B, B) -> T, G: Fn(B, T) -> B, H: Fn(B) -> B>(
    pull: F,
    apply: G,
    step: H,
    snap: Seq<B>,
    s1: Seq<B>,
    s2: Seq<B>,
)
    requires
        single_valued_pull(pull),
        single_valued_apply(apply),
        single_valued_step(step),
        s1.len() == snap.len(),
        s2.len() == snap.len(),
        forall|i: int| 0 <= i < snap.len() ==> ticked(pull, apply, step, snap, i, #[trigger] s1[i]),
        forall|i: int| 0 <= i < snap.len() ==> ticked(pull, apply, step, snap, i, #[trigger] s2[i]),
    ensures
        s1 == s2,
{
    assert forall|i: int| 0 <= i < snap.len() implies s1[i] == s2[i] by {
        assert(ticked(pull, apply, step, snap, i, s1[i]));
        assert(ticked(pull, apply, step, snap, i, s2[i]));
        let v1 = choose|v: B| #[trigger] accumulated(pull, apply, snap, i, v) && step.ensures((v,), s1[i]);
        let v2 = choose|v: B| #[trigger] accumulated(pull, apply, snap, i, v) && step.ensures((v,), s2[i]);
        let p1 = choose|p: Seq<B>|
            #[trigger] is_pull_trace(pull, apply, snap, i, p) && p[snap.len() as int] == v1;
        let p2 = choose|p: Seq<B>|
            #[trigger] is_pull_trace(pull, apply, snap, i, p) && p[snap.len() as int] == v2;
        lemma_traces_agree(pull, apply, snap, i, p1, p2, snap.len() as int);
    }
    assert(s1 =~= s2);
}

} // verus!
