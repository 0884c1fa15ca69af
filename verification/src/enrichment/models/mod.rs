//! Sets of classification models and how workers share them.
use std::sync::Arc;

use vstd::arithmetic::div_mod::lemma_fundamental_div_mod_converse;
use vstd::prelude::*;

verus! {

pub const SESSIONS_PER_DEVICE: usize = 1;

/// One model of each kind, loaded on one device.
#[derive(Debug)]
pub struct SharedModels<A, B> {
    pub acai_h: A,
    pub acai_n: A,
    pub acai_v: A,
    pub acai_o: A,
    pub acai_b: A,
    pub btsbot: B,
}

pub const ACAI_H: &'static str = "data/models/acai_h.d1_dnn_20201130.onnx";

pub const ACAI_N: &'static str = "data/models/acai_n.d1_dnn_20201130.onnx";

pub const ACAI_V: &'static str = "data/models/acai_v.d1_dnn_20201130.onnx";

pub const ACAI_O: &'static str = "data/models/acai_o.d1_dnn_20201130.onnx";

pub const ACAI_B: &'static str = "data/models/acai_b.d1_dnn_20201130.onnx";

pub const BTSBOT: &'static str = "data/models/btsbot-v1.0.1.onnx";

impl<A, B> SharedModels<A, B> {
    /// Whether a set is what the two loaders gave for one device.
    pub open spec fn loaded_by<
        E,
        F: Fn(&'static str, Option<i32>) -> Result<A, E>,
        G: Fn(&'static str, Option<i32>) -> Result<B, E>,
    >(self, device_id: Option<i32>, acai: F, btsbot: G) -> bool {
        &&& call_ensures(acai, (ACAI_H, device_id), Ok::<A, E>(self.acai_h))
        &&& call_ensures(acai, (ACAI_N, device_id), Ok::<A, E>(self.acai_n))
        &&& call_ensures(acai, (ACAI_V, device_id), Ok::<A, E>(self.acai_v))
        &&& call_ensures(acai, (ACAI_O, device_id), Ok::<A, E>(self.acai_o))
        &&& call_ensures(acai, (ACAI_B, device_id), Ok::<A, E>(self.acai_b))
        &&& call_ensures(btsbot, (BTSBOT, device_id), Ok::<B, E>(self.btsbot))
    }

    /// Whether the loaders gave a whole set for a device.
    pub open spec fn loads<
        E,
        F: Fn(&'static str, Option<i32>) -> Result<A, E>,
        G: Fn(&'static str, Option<i32>) -> Result<B, E>,
    >(device_id: Option<i32>, acai: F, btsbot: G) -> bool {
        exists|models: Self| #[trigger] models.loaded_by(device_id, acai, btsbot)
    }

    /// Whether a loader gave some model for a device.
    pub open spec fn gave<E, M, F: Fn(&'static str, Option<i32>) -> Result<M, E>>(
        loader: F,
        path: &'static str,
        device_id: Option<i32>,
    ) -> bool {
        exists|model: M| #[trigger] call_ensures(loader, (path, device_id), Ok::<M, E>(model))
    }

    /// Whether loading on a device failed with `error`: one of the models was refused with
    /// it, and each before that one was given.
    pub open spec fn refused_by<
        E,
        F: Fn(&'static str, Option<i32>) -> Result<A, E>,
        G: Fn(&'static str, Option<i32>) -> Result<B, E>,
    >(device_id: Option<i32>, acai: F, btsbot: G, error: E) -> bool {
        let h = Self::gave::<E, A, F>(acai, ACAI_H, device_id);
        let n = Self::gave::<E, A, F>(acai, ACAI_N, device_id);
        let v = Self::gave::<E, A, F>(acai, ACAI_V, device_id);
        let o = Self::gave::<E, A, F>(acai, ACAI_O, device_id);
        let b = Self::gave::<E, A, F>(acai, ACAI_B, device_id);
        ||| call_ensures(acai, (ACAI_H, device_id), Err::<A, E>(error))
        ||| h && call_ensures(acai, (ACAI_N, device_id), Err::<A, E>(error))
        ||| h && n && call_ensures(acai, (ACAI_V, device_id), Err::<A, E>(error))
        ||| h && n && v && call_ensures(acai, (ACAI_O, device_id), Err::<A, E>(error))
        ||| h && n && v && o && call_ensures(acai, (ACAI_B, device_id), Err::<A, E>(error))
        ||| h && n && v && o && b && call_ensures(btsbot, (BTSBOT, device_id), Err::<B, E>(error))
    }

    /// Whether the loaders can be called for a device.
    pub open spec fn loadable<
        E,
        F: Fn(&'static str, Option<i32>) -> Result<A, E>,
        G: Fn(&'static str, Option<i32>) -> Result<B, E>,
    >(device_id: Option<i32>, acai: F, btsbot: G) -> bool {
        &&& call_requires(acai, (ACAI_H, device_id))
        &&& call_requires(acai, (ACAI_N, device_id))
        &&& call_requires(acai, (ACAI_V, device_id))
        &&& call_requires(acai, (ACAI_O, device_id))
        &&& call_requires(acai, (ACAI_B, device_id))
        &&& call_requires(btsbot, (BTSBOT, device_id))
    }

    /// Loads all models on one device, or on the CPU. The first failure ends it.
    pub fn load<
        E,
        F: Fn(&'static str, Option<i32>) -> Result<A, E>,
        G: Fn(&'static str, Option<i32>) -> Result<B, E>,
    >(device_id: Option<i32>, acai: &F, btsbot: &G) -> (models: Result<Arc<Self>, E>)
        requires
            Self::loadable(device_id, *acai, *btsbot),
        ensures
            match models {
                Ok(models) => models.loaded_by(device_id, *acai, *btsbot),
                Err(error) => Self::refused_by(device_id, *acai, *btsbot, error),
            },
    {
        let acai_h = match acai(ACAI_H, device_id) {
            Ok(model) => model,
            Err(error) => {
                return Err(error);
            },
        };
        let acai_n = match acai(ACAI_N, device_id) {
            Ok(model) => model,
            Err(error) => {
                return Err(error);
            },
        };
        let acai_v = match acai(ACAI_V, device_id) {
            Ok(model) => model,
            Err(error) => {
                return Err(error);
            },
        };
        let acai_o = match acai(ACAI_O, device_id) {
            Ok(model) => model,
            Err(error) => {
                return Err(error);
            },
        };
        let acai_b = match acai(ACAI_B, device_id) {
            Ok(model) => model,
            Err(error) => {
                return Err(error);
            },
        };
        let btsbot = match btsbot(BTSBOT, device_id) {
            Ok(model) => model,
            Err(error) => {
                return Err(error);
            },
        };
        Ok(Arc::new(SharedModels { acai_h, acai_n, acai_v, acai_o, acai_b, btsbot }))
    }
}

/// One set of models per device, or a single set on the CPU, given to workers in
/// turn.
#[derive(Debug)]
pub struct SharedModelPool<A, B> {
    pub model_sets: Vec<Arc<SharedModels<A, B>>>,
    pub next: usize,
}

/// The devices on which sets are loaded, in order: `None` is the CPU.
pub open spec fn targets(device_ids: Seq<i32>) -> Seq<Option<i32>> {
    if device_ids.len() == 0 {
        seq![None]
    } else {
        device_ids.map_values(|id: i32| Some(id))
    }
}

impl<A, B> SharedModelPool<A, B> {
    /// A pool has at least one set.
    pub open spec fn wf(self) -> bool {
        self.model_sets@.len() > 0
    }

    /// Whether a set was loaded on each of the first `n` devices.
    pub open spec fn loaded_before<
        E,
        F: Fn(&'static str, Option<i32>) -> Result<A, E>,
        G: Fn(&'static str, Option<i32>) -> Result<B, E>,
    >(device_ids: Seq<i32>, n: int, acai: F, btsbot: G) -> bool {
        forall|k: int|
            0 <= k < n ==> SharedModels::<A, B>::loads(
                #[trigger] targets(device_ids)[k],
                acai,
                btsbot,
            )
    }

    /// Loads a set on every device, or one on the CPU when there is none. The first
    /// failure ends it.
    pub fn load<
        E,
        F: Fn(&'static str, Option<i32>) -> Result<A, E>,
        G: Fn(&'static str, Option<i32>) -> Result<B, E>,
    >(device_ids: &[i32], acai: &F, btsbot: &G) -> (pool: Result<Self, E>)
        requires
            forall|i: int|
                0 <= i < targets(device_ids@).len() ==> SharedModels::<A, B>::loadable(
                    #[trigger] targets(device_ids@)[i],
                    *acai,
                    *btsbot,
                ),
        ensures
            match pool {
                Ok(pool) => {
                    &&& pool.wf()
                    &&& pool.next == 0
                    &&& pool.model_sets@.len() == targets(device_ids@).len() * SESSIONS_PER_DEVICE
                    &&& forall|i: int|
                        0 <= i < pool.model_sets@.len() ==> (#[trigger] pool.model_sets@[i]).loaded_by(
                            targets(device_ids@)[i],
                            *acai,
                            *btsbot,
                        )
                },
                Err(error) => exists|i: int|
                    0 <= i < targets(device_ids@).len() && SharedModels::<A, B>::refused_by(
                        #[trigger] targets(device_ids@)[i],
                        *acai,
                        *btsbot,
                        error,
                    ) && Self::loaded_before(device_ids@, i, *acai, *btsbot),
            },
    {
        let mut model_sets: Vec<Arc<SharedModels<A, B>>> = Vec::new();
        let ghost wanted = targets(device_ids@);
        if device_ids.len() == 0 {
            assert(wanted[0] == None::<i32>);
            match SharedModels::load(None, acai, btsbot) {
                Ok(models) => {
                    model_sets.push(models);
                },
                Err(error) => {
                    return Err(error);
                },
            }
        } else {
            let mut i: usize = 0;
            while i < device_ids.len()
                invariant
                    device_ids@.len() > 0,
                    wanted == targets(device_ids@),
                    i <= device_ids@.len(),
                    model_sets@.len() == i,
                    forall|k: int|
                        0 <= k < wanted.len() ==> SharedModels::<A, B>::loadable(
                            #[trigger] wanted[k],
                            *acai,
                            *btsbot,
                        ),
                    forall|k: int|
                        0 <= k < i ==> (#[trigger] model_sets@[k]).loaded_by(
                            wanted[k],
                            *acai,
                            *btsbot,
                        ),
                decreases device_ids.len() - i,
            {
                assert(wanted[i as int] == Some(device_ids@[i as int]));
                match SharedModels::load(Some(device_ids[i]), acai, btsbot) {
                    Ok(models) => {
                        model_sets.push(models);
                    },
                    Err(error) => {
                        assert(Self::loaded_before(device_ids@, i as int, *acai, *btsbot)) by {
                            assert forall|k: int| 0 <= k < i implies SharedModels::<A, B>::loads(
                                #[trigger] wanted[k],
                                *acai,
                                *btsbot,
                            ) by {
                                assert((*model_sets@[k]).loaded_by(wanted[k], *acai, *btsbot));
                            }
                        }
                        return Err(error);
                    },
                }
                i = i + 1;
            }
        }
        Ok(SharedModelPool { model_sets, next: 0 })
    }

    /// Gives the next set, in turn. The turn wraps round, as an atomic counter does.
    pub fn next_model_set(&mut self) -> (models: Arc<SharedModels<A, B>>)
        requires
            old(self).wf(),
        ensures
            models == old(self).model_sets@[old(self).next as int % old(
                self,
            ).model_sets@.len() as int],
            final(self).model_sets@ == old(self).model_sets@,
            final(self).next == if old(self).next == usize::MAX {
                0
            } else {
                old(self).next + 1
            },
    {
        let at: usize = self.next % self.model_sets.len();
        self.next = if self.next == usize::MAX {
            0
        } else {
            self.next + 1
        };
        Arc::clone(&self.model_sets[at])
    }

    /// Number of sets in the pool.
    pub fn len(&self) -> (n: usize)
        ensures
            n == self.model_sets@.len(),
    {
        self.model_sets.len()
    }

    /// Whether the pool has no sets.
    pub fn is_empty(&self) -> (empty: bool)
        ensures
            empty == (self.model_sets@.len() == 0),
    {
        self.model_sets.len() == 0
    }
}

/// How many of `workers` workers, the first of them at turn `start`, get set `d`
/// of `n`.
pub open spec fn served(start: int, workers: nat, n: int, d: int) -> int
    decreases workers,
{
    if workers == 0 {
        0
    } else {
        served(start, (workers - 1) as nat, n, d) + if (start + workers - 1) % n == d {
            1int
        } else {
            0int
        }
    }
}

/// How many of the turns below `end` are those of set `d` of `n`.
spec fn turns_below(end: int, n: int, d: int) -> int {
    (end + n - 1 - d) / n
}

proof fn lemma_one_turn(x: int, n: int, d: int)
    requires
        n > 0,
        0 <= d < n,
        0 <= x,
    ensures
        turns_below(x + 1, n, d) == turns_below(x, n, d) + if x % n == d {
            1int
        } else {
            0int
        },
{
    let q = x / n;
    let r = x % n;
    assert(x == q * n + r && 0 <= r < n) by (nonlinear_arith)
        requires
            q == x / n,
            r == x % n,
            n > 0,
    ;
    let before = r + n - 1 - d;
    if r > d {
        assert(x + n - 1 - d == (q + 1) * n + (before - n)) by (nonlinear_arith)
            requires
                x == q * n + r,
                before == r + n - 1 - d,
        ;
        lemma_fundamental_div_mod_converse(x + n - 1 - d, n, q + 1, before - n);
        assert(x + 1 + n - 1 - d == (q + 1) * n + (before - n + 1));
        lemma_fundamental_div_mod_converse(x + 1 + n - 1 - d, n, q + 1, before - n + 1);
    } else {
        assert(x + n - 1 - d == q * n + before);
        lemma_fundamental_div_mod_converse(x + n - 1 - d, n, q, before);
        if r == d {
            assert(x + 1 + n - 1 - d == (q + 1) * n + 0) by (nonlinear_arith)
                requires
                    x == q * n + r,
                    r == d,
            ;
            lemma_fundamental_div_mod_converse(x + 1 + n - 1 - d, n, q + 1, 0);
        } else {
            assert(x + 1 + n - 1 - d == q * n + (before + 1));
            lemma_fundamental_div_mod_converse(x + 1 + n - 1 - d, n, q, before + 1);
        }
    }
}

proof fn lemma_served_is_a_difference(start: int, workers: nat, n: int, d: int)
    requires
        n > 0,
        0 <= d < n,
        0 <= start,
    ensures
        served(start, workers, n, d) == turns_below(start + workers, n, d) - turns_below(
            start,
            n,
            d,
        ),
    decreases workers,
{
    if workers > 0 {
        lemma_served_is_a_difference(start, (workers - 1) as nat, n, d);
        lemma_one_turn(start + workers - 1, n, d);
    }
}

/// With `n` sets and `workers` workers, each set serves at most the quotient,
/// rounded up. The turn counter must not wrap round in between.
pub proof fn work_is_spread_evenly(start: int, workers: nat, n: int, d: int)
    requires
        n > 0,
        0 <= d < n,
        0 <= start,
        start + workers <= usize::MAX,
    ensures
        served(start, workers, n, d) <= (workers + n - 1) / n,
{
    lemma_served_is_a_difference(start, workers, n, d);
    let a = start + n - 1 - d;
    assert((a + workers) / n - a / n <= (workers + n - 1) / n) by (nonlinear_arith)
        requires
            n > 0,
            a >= 0,
            workers >= 0,
    ;
    assert(start + workers + n - 1 - d == a + workers);
}

}
