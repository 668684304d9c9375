use vstd::prelude::*;
use crate::filter::CollisionFilterPolicy;
use crate::scene::{collidable, collidable_primitives, SceneAsset, SceneError};
use crate::spawn::{
    count_failed, expected_bodies, lemma_walk_sources_present, spawn_fixed_bodies, FixedBody,
    SynthesisOutcome,
};

verus! {

/// Whether the scene asset has been consumed.
#[derive(Clone, Copy, PartialEq, Eq, Structural, Debug)]
pub enum LoadState {
    Pending,
    Loaded,
}

/// What the driver should do on this tick.
#[derive(Clone, Copy, PartialEq, Eq, Structural, Debug)]
pub enum PipelineAction {
    /// The asset is still streaming in: poll again next tick.
    Wait,
    /// The asset is available and not yet consumed: run the synthesis pass.
    Synthesize,
    /// The asset was consumed already: nothing to do.
    Idle,
}

/// Tracks one streamed asset. Its state goes from `Pending` to `Loaded` at
/// most once and never back.
pub struct AssetLoadTracker {
    state: LoadState,
}

impl AssetLoadTracker {
    pub closed spec fn is_loaded(&self) -> bool {
        self.state == LoadState::Loaded
    }

    pub fn new() -> (r: Self)
        ensures
            !r.is_loaded(),
    {
        AssetLoadTracker { state: LoadState::Pending }
    }

    /// The current state, without side effects.
    pub fn poll(&self) -> (r: LoadState)
        ensures
            r == (if self.is_loaded() {
                LoadState::Loaded
            } else {
                LoadState::Pending
            }),
    {
        self.state
    }

    /// Flags the asset as consumed.
    pub fn mark_loaded(&mut self)
        ensures
            final(self).is_loaded(),
    {
        self.state = LoadState::Loaded;
    }
}

/// The action owed in a given state when the asset is or is not available.
pub open spec fn action_for(loaded: bool, asset_available: bool) -> PipelineAction {
    if loaded {
        PipelineAction::Idle
    } else if asset_available {
        PipelineAction::Synthesize
    } else {
        PipelineAction::Wait
    }
}

pub open spec fn saturating(a: nat) -> nat {
    if a > usize::MAX {
        usize::MAX as nat
    } else {
        a
    }
}

/// The static collision world built from one scene asset, with the number of
/// errors reported while building it.
pub struct CollisionWorld<T, C> {
    tracker: AssetLoadTracker,
    fixed: Vec<FixedBody<T, C>>,
    errors: usize,
}

impl<T, C> CollisionWorld<T, C> {
    pub closed spec fn loaded(&self) -> bool {
        self.tracker.is_loaded()
    }

    pub closed spec fn bodies(&self) -> Seq<FixedBody<T, C>> {
        self.fixed@
    }

    pub closed spec fn errors(&self) -> nat {
        self.errors as nat
    }

    /// An empty world waiting for its asset.
    pub fn new() -> (r: Self)
        ensures
            !r.loaded(),
            r.bodies().len() == 0,
            r.errors() == 0,
    {
        CollisionWorld { tracker: AssetLoadTracker::new(), fixed: Vec::new(), errors: 0 }
    }

    pub fn load_state(&self) -> (r: LoadState)
        ensures
            r == (if self.loaded() {
                LoadState::Loaded
            } else {
                LoadState::Pending
            }),
    {
        self.tracker.poll()
    }

    pub fn fixed_bodies(&self) -> (r: &Vec<FixedBody<T, C>>)
        ensures
            r@ == self.bodies(),
    {
        &self.fixed
    }

    pub fn error_count(&self) -> (r: usize)
        ensures
            r == self.errors(),
    {
        self.errors
    }

    /// What to do on this tick, given whether the asset has become available.
    pub fn next_action(&self, asset_available: bool) -> (r: PipelineAction)
        ensures
            r == action_for(self.loaded(), asset_available),
    {
        match self.tracker.poll() {
            LoadState::Loaded => PipelineAction::Idle,
            LoadState::Pending => if asset_available {
                PipelineAction::Synthesize
            } else {
                PipelineAction::Wait
            },
        }
    }
}

/// `after` is `before` once a synthesis pass over `asset` has been applied,
/// with `outcomes` holding what became of each collidable primitive. A world
/// that consumed its asset already is left as it is.
pub open spec fn pass_applied<T, C>(
    before: &CollisionWorld<T, C>,
    after: &CollisionWorld<T, C>,
    asset: &SceneAsset<T>,
    policy: &CollisionFilterPolicy,
    outcomes: Seq<SynthesisOutcome<C>>,
) -> bool {
    let items = collidable(asset, policy);
    after.loaded() && if before.loaded() {
        after.bodies() == before.bodies() && after.errors() == before.errors()
    } else if asset.scene_count == 0 {
        after.bodies() == before.bodies() && after.errors() == saturating(before.errors() + 1)
    } else {
        after.bodies() == before.bodies() + expected_bodies(asset, items, outcomes, items.len())
            && after.errors() == saturating(
            before.errors() + count_failed(outcomes, items.len()),
        )
    }
}

impl<T: Copy, C> CollisionWorld<T, C> {
    /// Applies the synthesis pass of a loaded asset, once: walks the asset
    /// with `policy`, spawns a fixed body for each built shape, counts each
    /// failure, and counts one error for an asset without scenes. After that
    /// the asset is consumed, and further passes change nothing.
    ///
    /// `outcomes` holds, for each entry of the walk in order, what became of
    /// building that primitive's collision shape.
    pub fn apply_pass(
        &mut self,
        asset: &SceneAsset<T>,
        policy: &CollisionFilterPolicy,
        outcomes: Vec<SynthesisOutcome<C>>,
    )
        requires
            !old(self).loaded() && asset.scene_count > 0 ==> outcomes@.len() == collidable(
                asset,
                policy,
            ).len(),
        ensures
            pass_applied(old(self), final(self), asset, policy, outcomes@),
    {
        if self.tracker.poll() == LoadState::Loaded {
            return;
        }
        // Brings into the proof that the node count fits in a usize.
        let _ = asset.nodes.len();
        let walk = collidable_primitives(asset, policy);
        match walk {
            Err(SceneError::NoScenes) => {
                self.errors = self.errors.saturating_add(1);
            },
            Ok(items) => {
                proof {
                    lemma_walk_sources_present(asset, policy);
                }
                let report = spawn_fixed_bodies(asset, &items, outcomes);
                let mut bodies = report.bodies;
                self.fixed.append(&mut bodies);
                self.errors = self.errors.saturating_add(report.failures);
            },
        }
        self.tracker.mark_loaded();
    }
}

/// Applying the synthesis pass a second time to the same asset leaves the
/// world as the first pass left it: no body is spawned twice.
pub proof fn lemma_pass_idempotent<T, C>(
    w0: &CollisionWorld<T, C>,
    w1: &CollisionWorld<T, C>,
    w2: &CollisionWorld<T, C>,
    asset: &SceneAsset<T>,
    policy: &CollisionFilterPolicy,
    outcomes: Seq<SynthesisOutcome<C>>,
)
    requires
        pass_applied(w0, w1, asset, policy, outcomes),
        pass_applied(w1, w2, asset, policy, outcomes),
    ensures
        w2.bodies() == w1.bodies(),
        w2.errors() == w1.errors(),
        w2.loaded(),
{
}

/// A fresh world given an asset with no top-level scene spawns no body and
/// reports exactly one error.
pub proof fn lemma_empty_scene<T, C>(
    w0: &CollisionWorld<T, C>,
    w1: &CollisionWorld<T, C>,
    asset: &SceneAsset<T>,
    policy: &CollisionFilterPolicy,
    outcomes: Seq<SynthesisOutcome<C>>,
)
    requires
        !w0.loaded(),
        w0.bodies().len() == 0,
        w0.errors() == 0,
        asset.scene_count == 0,
        pass_applied(w0, w1, asset, policy, outcomes),
    ensures
        w1.bodies().len() == 0,
        w1.errors() == 1,
{
}

/// Over any number of ticks, a fresh world given an asset with no top-level
/// scene spawns no body and reports exactly one error: `worlds[t + 1]` is the
/// world after tick `t`, which applies the pass (`applied[t]`, with
/// `outcomes[t]`) or leaves the world as it was.
pub proof fn lemma_empty_scene_over_ticks<T, C>(
    worlds: Seq<CollisionWorld<T, C>>,
    applied: Seq<bool>,
    outcomes: Seq<Seq<SynthesisOutcome<C>>>,
    asset: &SceneAsset<T>,
    policy: &CollisionFilterPolicy,
)
    requires
        worlds.len() >= 1,
        applied.len() == worlds.len() - 1,
        outcomes.len() == worlds.len() - 1,
        !worlds[0].loaded(),
        worlds[0].bodies().len() == 0,
        worlds[0].errors() == 0,
        asset.scene_count == 0,
        forall|t: int|
            0 <= t < worlds.len() - 1 ==> if #[trigger] applied[t] {
                pass_applied(&worlds[t], &worlds[t + 1], asset, policy, outcomes[t])
            } else {
                worlds[t + 1] == worlds[t]
            },
    ensures
        forall|t: int| 0 <= t < worlds.len() ==> (#[trigger] worlds[t]).bodies().len() == 0,
        forall|t: int|
            0 <= t < worlds.len() ==> (#[trigger] worlds[t]).errors() == if worlds[t].loaded() {
                1nat
            } else {
                0nat
            },
    decreases worlds.len(),
{
    if worlds.len() > 1 {
        let n = worlds.len() - 1;
        let prefix = worlds.subrange(0, n);
        lemma_empty_scene_over_ticks(
            prefix,
            applied.subrange(0, n - 1),
            outcomes.subrange(0, n - 1),
            asset,
            policy,
        );
        assert forall|t: int| 0 <= t < worlds.len() implies (#[trigger] worlds[t]).bodies().len()
            == 0 && worlds[t].errors() == if worlds[t].loaded() {
            1nat
        } else {
            0nat
        } by {
            if t < n {
                assert(worlds[t] == prefix[t]);
            } else {
                assert(worlds[n - 1] == prefix[n - 1]);
                if applied[n - 1] {
                    assert(pass_applied(&worlds[n - 1], &worlds[n], asset, policy, outcomes[n - 1]));
                }
            }
        }
    }
}

} // verus!
