use vstd::prelude::*;
use crate::filter::CollisionFilterPolicy;
use crate::scene::{collidable, is_collidable, lemma_filter_correctness, CollidablePrimitive, SceneAsset};

verus! {

/// What became of one collidable primitive when a collision shape `C` was
/// built from its mesh.
pub enum SynthesisOutcome<C> {
    /// The primitive's mesh could not be looked up: skipped without a report.
    MeshMissing,
    /// The mesh did not give a collision shape: skipped, and reported.
    Failed,
    /// The shape was built.
    Built(C),
}

/// A fixed (immovable) body: the node it comes from, that node's transform,
/// and its collision shape.
pub struct FixedBody<T, C> {
    pub node: usize,
    pub transform: T,
    pub collider: C,
}

/// What one synthesis pass produced: the bodies to spawn, in walk order, and
/// how many primitives failed to give a shape.
pub struct SpawnReport<T, C> {
    pub bodies: Vec<FixedBody<T, C>>,
    pub failures: usize,
}

/// Each entry names a node of the asset whose data is present.
pub open spec fn sources_present<T>(asset: &SceneAsset<T>, items: Seq<CollidablePrimitive>) -> bool {
    forall|j: int|
        0 <= j < items.len() ==> items[j].node < asset.nodes@.len() && asset.nodes@[items[
            j
        ].node as int] is Some
}

/// The bodies of the first `k` outcomes: one for each built shape, placed at
/// its node's transform.
pub open spec fn expected_bodies<T, C>(
    asset: &SceneAsset<T>,
    items: Seq<CollidablePrimitive>,
    outcomes: Seq<SynthesisOutcome<C>>,
    k: nat,
) -> Seq<FixedBody<T, C>>
    decreases k,
{
    if k == 0 {
        seq![]
    } else {
        let prev = expected_bodies(asset, items, outcomes, (k - 1) as nat);
        let node = items[k - 1].node;
        match outcomes[k - 1] {
            SynthesisOutcome::Built(c) => match asset.nodes@[node as int] {
                Some(n) => prev.push(FixedBody { node, transform: n.transform, collider: c }),
                None => prev,
            },
            _ => prev,
        }
    }
}

/// How many of the first `k` outcomes are construction failures.
pub open spec fn count_failed<C>(outcomes: Seq<SynthesisOutcome<C>>, k: nat) -> nat
    decreases k,
{
    if k == 0 {
        0
    } else {
        count_failed(outcomes, (k - 1) as nat) + if outcomes[k - 1] is Failed {
            1nat
        } else {
            0nat
        }
    }
}

/// Turns the outcome of each collidable primitive into fixed bodies. A built
/// shape gives one body at its node's transform; a failed one is counted and
/// skipped; a missing mesh is skipped silently. A failure never stops the
/// primitives after it.
pub fn spawn_fixed_bodies<T: Copy, C>(
    asset: &SceneAsset<T>,
    items: &Vec<CollidablePrimitive>,
    outcomes: Vec<SynthesisOutcome<C>>,
) -> (r: SpawnReport<T, C>)
    requires
        outcomes@.len() == items@.len(),
        sources_present(asset, items@),
    ensures
        r.bodies@ == expected_bodies(asset, items@, outcomes@, items@.len()),
        r.failures == count_failed(outcomes@, items@.len()),
{
    let n = items.len();
    let ghost all = outcomes@;
    let mut rest = outcomes;
    let mut bodies: Vec<FixedBody<T, C>> = Vec::new();
    let mut failures: usize = 0;
    let mut i: usize = 0;
    while i < n
        invariant
            n == items@.len(),
            all.len() == n,
            i <= n,
            sources_present(asset, items@),
            rest@ == all.subrange(i as int, n as int),
            bodies@ == expected_bodies(asset, items@, all, i as nat),
            failures == count_failed(all, i as nat),
            failures <= i,
        decreases n - i,
    {
        let outcome = rest.remove(0);
        assert(outcome == all[i as int]);
        let node = items[i].node;
        match outcome {
            SynthesisOutcome::Built(c) => {
                if let Some(nd) = &asset.nodes[node] {
                    bodies.push(FixedBody { node, transform: nd.transform, collider: c });
                }
            },
            SynthesisOutcome::Failed => {
                failures += 1;
            },
            SynthesisOutcome::MeshMissing => {},
        }
        assert(rest@ =~= all.subrange(i + 1, n as int));
        i += 1;
    }
    SpawnReport { bodies, failures }
}

/// Body `b` stands at the transform of the node it comes from.
pub open spec fn placed_at_source<T, C>(asset: &SceneAsset<T>, b: FixedBody<T, C>) -> bool {
    b.node < asset.nodes@.len() && match asset.nodes@[b.node as int] {
        Some(n) => n.transform == b.transform,
        None => false,
    }
}

/// Every entry of a walk names a node of the asset whose data is present, so
/// a walk can be handed to `spawn_fixed_bodies`.
pub proof fn lemma_walk_sources_present<T>(asset: &SceneAsset<T>, policy: &CollisionFilterPolicy)
    requires
        asset.nodes@.len() <= usize::MAX,
    ensures
        sources_present(asset, collidable(asset, policy)),
{
    let items = collidable(asset, policy);
    assert forall|j: int| 0 <= j < items.len() implies items[j].node < asset.nodes@.len()
        && asset.nodes@[items[j].node as int] is Some by {
        if asset.nodes@.len() > 0 {
            lemma_filter_correctness(asset, policy, 0);
        }
        let i = items[j].node as int;
        lemma_filter_correctness(asset, policy, i);
        assert(is_collidable(asset, policy, i));
    }
}

/// Each body that a pass produces stands at the transform of its source
/// node.
pub proof fn lemma_transform_fidelity<T, C>(
    asset: &SceneAsset<T>,
    items: Seq<CollidablePrimitive>,
    outcomes: Seq<SynthesisOutcome<C>>,
    k: nat,
)
    requires
        k <= items.len(),
        k <= outcomes.len(),
        sources_present(asset, items),
    ensures
        forall|j: int|
            0 <= j < expected_bodies(asset, items, outcomes, k).len() ==> placed_at_source(
                asset,
                #[trigger] expected_bodies(asset, items, outcomes, k)[j],
            ),
    decreases k,
{
    if k > 0 {
        lemma_transform_fidelity(asset, items, outcomes, (k - 1) as nat);
        let prev = expected_bodies(asset, items, outcomes, (k - 1) as nat);
        let all = expected_bodies(asset, items, outcomes, k);
        assert forall|j: int| 0 <= j < all.len() implies placed_at_source(asset, all[j]) by {
            if j < prev.len() {
                assert(all[j] == prev[j]);
            }
        }
    }
}

proof fn lemma_one_failure_upto<T, C>(
    asset: &SceneAsset<T>,
    items: Seq<CollidablePrimitive>,
    outcomes: Seq<SynthesisOutcome<C>>,
    f: int,
    k: nat,
)
    requires
        k <= items.len(),
        k <= outcomes.len(),
        sources_present(asset, items),
        0 <= f < outcomes.len(),
        outcomes[f] is Failed,
        forall|j: int| 0 <= j < outcomes.len() && j != f ==> outcomes[j] is Built,
    ensures
        expected_bodies(asset, items, outcomes, k).len() == k - if f < k {
            1int
        } else {
            0int
        },
        count_failed(outcomes, k) == if 0 <= f < k {
            1int
        } else {
            0int
        },
    decreases k,
{
    if k > 0 {
        lemma_one_failure_upto(asset, items, outcomes, f, (k - 1) as nat);
        let node = items[k - 1].node;
        assert(node < asset.nodes@.len() && asset.nodes@[node as int] is Some);
    }
}

/// With exactly one failed primitive among `n` collidable ones, a pass
/// produces `n - 1` bodies and reports one failure: the failure does not stop
/// the primitives after it.
pub proof fn lemma_partial_failure_isolation<T, C>(
    asset: &SceneAsset<T>,
    items: Seq<CollidablePrimitive>,
    outcomes: Seq<SynthesisOutcome<C>>,
    f: int,
)
    requires
        outcomes.len() == items.len(),
        sources_present(asset, items),
        0 <= f < outcomes.len(),
        outcomes[f] is Failed,
        forall|j: int| 0 <= j < outcomes.len() && j != f ==> outcomes[j] is Built,
    ensures
        expected_bodies(asset, items, outcomes, items.len()).len() == items.len() - 1,
        count_failed(outcomes, items.len()) == 1,
{
    lemma_one_failure_upto(asset, items, outcomes, f, items.len());
}

proof fn lemma_bodies_follow_items<T, C>(
    asset: &SceneAsset<T>,
    items: Seq<CollidablePrimitive>,
    outcomes: Seq<SynthesisOutcome<C>>,
    k: nat,
)
    requires
        k <= items.len(),
        k <= outcomes.len(),
        sources_present(asset, items),
    ensures
        forall|j: int|
            0 <= j < expected_bodies(asset, items, outcomes, k).len() ==> exists|m: int|
                0 <= m < k && items[m].node == #[trigger] expected_bodies(
                    asset,
                    items,
                    outcomes,
                    k,
                )[j].node,
        (forall|m: int| 0 <= m < k ==> outcomes[m] is Built) ==> {
            &&& expected_bodies(asset, items, outcomes, k).len() == k
            &&& forall|j: int|
                0 <= j < k ==> #[trigger] expected_bodies(asset, items, outcomes, k)[j].node
                    == items[j].node
        },
    decreases k,
{
    if k > 0 {
        let k1 = (k - 1) as nat;
        lemma_bodies_follow_items(asset, items, outcomes, k1);
        let prev = expected_bodies(asset, items, outcomes, k1);
        let all = expected_bodies(asset, items, outcomes, k);
        let node = items[k1 as int].node;
        assert(node < asset.nodes@.len() && asset.nodes@[node as int] is Some);
        assert forall|j: int| 0 <= j < all.len() implies exists|m: int|
            0 <= m < k && items[m].node == #[trigger] all[j].node by {
            if j < prev.len() {
                assert(all[j] == prev[j]);
                let m = choose|m: int| 0 <= m < k1 && items[m].node == prev[j].node;
                assert(0 <= m < k && items[m].node == all[j].node);
            } else {
                assert(all[j].node == node);
                assert(items[k1 as int].node == all[j].node);
            }
        }
        if forall|m: int| 0 <= m < k ==> outcomes[m] is Built {
            assert(forall|m: int| 0 <= m < k1 ==> outcomes[m] is Built);
            assert forall|j: int| 0 <= j < k implies #[trigger] all[j].node == items[j].node by {
                if j < k1 {
                    assert(all[j] == prev[j]);
                }
            }
        }
    }
}

/// Every body of a pass comes from a node that has mesh data and passes the
/// policy; when every shape of the walk is built, each such node gives at
/// least one body and no other node gives any.
pub proof fn lemma_bodies_from_collidable_nodes<T, C>(
    asset: &SceneAsset<T>,
    policy: &CollisionFilterPolicy,
    outcomes: Seq<SynthesisOutcome<C>>,
)
    requires
        asset.nodes@.len() <= usize::MAX,
        outcomes.len() == collidable(asset, policy).len(),
    ensures
        forall|j: int|
            0 <= j < expected_bodies(
                asset,
                collidable(asset, policy),
                outcomes,
                outcomes.len(),
            ).len() ==> is_collidable(
                asset,
                policy,
                #[trigger] expected_bodies(
                    asset,
                    collidable(asset, policy),
                    outcomes,
                    outcomes.len(),
                )[j].node as int,
            ),
        (forall|m: int| 0 <= m < outcomes.len() ==> outcomes[m] is Built) ==> forall|i: int|
            0 <= i < asset.nodes@.len() ==> ((exists|j: int|
                0 <= j < expected_bodies(
                    asset,
                    collidable(asset, policy),
                    outcomes,
                    outcomes.len(),
                ).len() && #[trigger] expected_bodies(
                    asset,
                    collidable(asset, policy),
                    outcomes,
                    outcomes.len(),
                )[j].node == i) <==> is_collidable(asset, policy, i)),
{
    let items = collidable(asset, policy);
    let n = outcomes.len();
    lemma_walk_sources_present(asset, policy);
    lemma_bodies_follow_items(asset, items, outcomes, n);
    let bodies = expected_bodies(asset, items, outcomes, n);
    assert forall|j: int| 0 <= j < bodies.len() implies is_collidable(
        asset,
        policy,
        #[trigger] bodies[j].node as int,
    ) by {
        let m = choose|m: int| 0 <= m < n && items[m].node == bodies[j].node;
        lemma_filter_correctness(asset, policy, items[m].node as int);
    }
    if forall|m: int| 0 <= m < n ==> outcomes[m] is Built {
        assert forall|i: int| 0 <= i < asset.nodes@.len() implies ((exists|j: int|
            0 <= j < bodies.len() && #[trigger] bodies[j].node == i) <==> is_collidable(
            asset,
            policy,
            i,
        )) by {
            lemma_filter_correctness(asset, policy, i);
            if is_collidable(asset, policy, i) {
                let m = choose|m: int| 0 <= m < items.len() && items[m].node == i;
                assert(bodies[m].node == items[m].node);
            }
            if exists|j: int| 0 <= j < bodies.len() && #[trigger] bodies[j].node == i {
                let j = choose|j: int| 0 <= j < bodies.len() && #[trigger] bodies[j].node == i;
                assert(items[j].node == i);
            }
        }
    }
}

} // verus!
