use vstd::prelude::*;
use crate::filter::CollisionFilterPolicy;

verus! {

/// One node of a loaded scene: its name, its transform `T` as the asset
/// resolved it, and the index of its mesh, if it has one.
pub struct SceneNode<T> {
    pub name: String,
    pub transform: T,
    pub mesh: Option<usize>,
}

/// A loaded scene asset, reduced to what collision synthesis reads.
///
/// `nodes[i]` is `None` where the node's data could not be looked up;
/// `meshes[m]` is `None` where mesh `m` could not be looked up, and otherwise
/// lists the mesh-store ids of its primitives, in order.
pub struct SceneAsset<T> {
    pub scene_count: usize,
    pub nodes: Vec<Option<SceneNode<T>>>,
    pub meshes: Vec<Option<Vec<usize>>>,
}

/// A primitive chosen for collision: the node it belongs to and its
/// mesh-store id.
#[derive(Clone, Copy, PartialEq, Eq, Structural, Debug)]
pub struct CollidablePrimitive {
    pub node: usize,
    pub primitive: usize,
}

/// Why a loaded asset yields no collision geometry.
#[derive(Clone, Copy, PartialEq, Eq, Structural, Debug)]
pub enum SceneError {
    /// The asset holds no top-level scene.
    NoScenes,
}

/// The primitives of node `i` when its data and its mesh resolve, whatever
/// the policy says.
pub open spec fn node_mesh_primitives<T>(asset: &SceneAsset<T>, i: int) -> Option<Seq<usize>> {
    match asset.nodes@[i] {
        Some(n) => match n.mesh {
            Some(m) => if m < asset.meshes@.len() {
                match asset.meshes@[m as int] {
                    Some(p) => Some(p@),
                    None => None,
                }
            } else {
                None
            },
            None => None,
        },
        None => None,
    }
}

/// Node `i` passes the policy.
pub open spec fn node_accepted<T>(
    asset: &SceneAsset<T>,
    policy: &CollisionFilterPolicy,
    i: int,
) -> bool {
    match asset.nodes@[i] {
        Some(n) => policy.accepts_spec(n.name@),
        None => false,
    }
}

/// The primitives that node `i` contributes to the collision world.
pub open spec fn selected_primitives<T>(
    asset: &SceneAsset<T>,
    policy: &CollisionFilterPolicy,
    i: int,
) -> Seq<usize> {
    if node_accepted(asset, policy, i) {
        match node_mesh_primitives(asset, i) {
            Some(p) => p,
            None => seq![],
        }
    } else {
        seq![]
    }
}

/// Node `i` has mesh data with at least one primitive and passes the policy.
pub open spec fn is_collidable<T>(
    asset: &SceneAsset<T>,
    policy: &CollisionFilterPolicy,
    i: int,
) -> bool {
    node_accepted(asset, policy, i) && match node_mesh_primitives(asset, i) {
        Some(p) => p.len() > 0,
        None => false,
    }
}

pub open spec fn tag_node(i: int, prims: Seq<usize>) -> Seq<CollidablePrimitive> {
    prims.map_values(|p: usize| CollidablePrimitive { node: i as usize, primitive: p })
}

/// The collidable primitives of the first `k` nodes, node by node, each node's
/// primitives in their order.
pub open spec fn collidable_upto<T>(
    asset: &SceneAsset<T>,
    policy: &CollisionFilterPolicy,
    k: nat,
) -> Seq<CollidablePrimitive>
    decreases k,
{
    if k == 0 {
        seq![]
    } else {
        collidable_upto(asset, policy, (k - 1) as nat) + tag_node(
            k - 1,
            selected_primitives(asset, policy, k - 1),
        )
    }
}

/// All collidable primitives of the asset, in walk order.
pub open spec fn collidable<T>(
    asset: &SceneAsset<T>,
    policy: &CollisionFilterPolicy,
) -> Seq<CollidablePrimitive> {
    collidable_upto(asset, policy, asset.nodes@.len())
}

/// Walks the nodes of a loaded asset and lists the primitives that the policy
/// marks as collision geometry. Nodes without data, without a mesh that
/// resolves, or refused by the policy are left out. An asset without any
/// top-level scene is an error and yields nothing.
pub fn collidable_primitives<T>(
    asset: &SceneAsset<T>,
    policy: &CollisionFilterPolicy,
) -> (r: Result<Vec<CollidablePrimitive>, SceneError>)
    ensures
        asset.scene_count == 0 <==> r is Err,
        r matches Err(e) ==> e == SceneError::NoScenes,
        r matches Ok(v) ==> v@ == collidable(asset, policy),
{
    if asset.scene_count == 0 {
        return Err(SceneError::NoScenes);
    }
    let mut out: Vec<CollidablePrimitive> = Vec::new();
    let n = asset.nodes.len();
    let mut i: usize = 0;
    while i < n
        invariant
            n == asset.nodes@.len(),
            i <= n,
            out@ == collidable_upto(asset, policy, i as nat),
        decreases n - i,
    {
        let mut prims: Option<&Vec<usize>> = None;
        if let Some(node) = &asset.nodes[i] {
            if policy.accepts(node.name.as_str()) {
                if let Some(m) = node.mesh {
                    if m < asset.meshes.len() {
                        if let Some(p) = &asset.meshes[m] {
                            prims = Some(p);
                        }
                    }
                }
            }
        }
        proof {
            assert(selected_primitives(asset, policy, i as int) == match prims {
                Some(p) => p@,
                None => Seq::<usize>::empty(),
            });
        }
        if let Some(p) = prims {
            let ghost base = out@;
            let mut j: usize = 0;
            while j < p.len()
                invariant
                    i < n,
                    j <= p@.len(),
                    p@ == selected_primitives(asset, policy, i as int),
                    out@ == base + tag_node(i as int, p@.subrange(0, j as int)),
                decreases p@.len() - j,
            {
                out.push(CollidablePrimitive { node: i, primitive: p[j] });
                proof {
                    assert(tag_node(i as int, p@.subrange(0, j + 1)) =~= tag_node(
                        i as int,
                        p@.subrange(0, j as int),
                    ).push(CollidablePrimitive { node: i, primitive: p@[j as int] }));
                }
                j += 1;
            }
            assert(p@.subrange(0, p@.len() as int) =~= p@);
        } else {
            assert(tag_node(i as int, Seq::<usize>::empty()) =~= Seq::<CollidablePrimitive>::empty());
            assert(out@ + tag_node(i as int, Seq::<usize>::empty()) =~= out@);
        }
        i += 1;
    }
    Ok(out)
}

proof fn lemma_collidable_upto<T>(
    asset: &SceneAsset<T>,
    policy: &CollisionFilterPolicy,
    k: nat,
)
    requires
        k <= asset.nodes@.len(),
        asset.nodes@.len() <= usize::MAX,
    ensures
        forall|j: int|
            0 <= j < collidable_upto(asset, policy, k).len() ==> (collidable_upto(
                asset,
                policy,
                k,
            )[j].node as int) < k,
        forall|i: int|
            0 <= i < k ==> ((exists|j: int|
                0 <= j < collidable_upto(asset, policy, k).len() && collidable_upto(
                    asset,
                    policy,
                    k,
                )[j].node == i) <==> is_collidable(asset, policy, i)),
    decreases k,
{
    if k > 0 {
        let k1 = (k - 1) as nat;
        lemma_collidable_upto(asset, policy, k1);
        let prev = collidable_upto(asset, policy, k1);
        let tail = tag_node(k1 as int, selected_primitives(asset, policy, k1 as int));
        let all = collidable_upto(asset, policy, k);
        assert(all == prev + tail);
        assert(is_collidable(asset, policy, k1 as int) <==> tail.len() > 0);
        assert forall|j: int| 0 <= j < tail.len() implies tail[j].node as int == k1 by {}
        assert forall|j: int| 0 <= j < all.len() implies (all[j].node as int) < k by {
            if j >= prev.len() {
                assert(all[j] == tail[j - prev.len()]);
            }
        }
        assert forall|i: int| 0 <= i < k implies ((exists|j: int|
            0 <= j < all.len() && all[j].node == i) <==> is_collidable(asset, policy, i)) by {
            if i < k1 {
                if exists|j: int| 0 <= j < all.len() && all[j].node == i {
                    let j = choose|j: int| 0 <= j < all.len() && all[j].node == i;
                    if j >= prev.len() {
                        assert(all[j] == tail[j - prev.len()]);
                    } else {
                        assert(all[j] == prev[j]);
                    }
                }
                if is_collidable(asset, policy, i) {
                    let j = choose|j: int| 0 <= j < prev.len() && prev[j].node == i;
                    assert(all[j] == prev[j]);
                }
            } else {
                if exists|j: int| 0 <= j < all.len() && all[j].node == i {
                    let j = choose|j: int| 0 <= j < all.len() && all[j].node == i;
                    if j < prev.len() {
                        assert(all[j] == prev[j]);
                    }
                    assert(tail.len() > 0);
                }
                if is_collidable(asset, policy, i) {
                    assert(tail.len() > 0);
                    assert(all[prev.len() as int] == tail[0]);
                }
            }
        }
    }
}

/// A node contributes primitives to the collision world exactly when it has
/// mesh data with at least one primitive and passes the policy; every entry of
/// the walk names a node of the asset.
pub proof fn lemma_filter_correctness<T>(
    asset: &SceneAsset<T>,
    policy: &CollisionFilterPolicy,
    i: int,
)
    requires
        0 <= i < asset.nodes@.len(),
        asset.nodes@.len() <= usize::MAX,
    ensures
        (exists|j: int|
            0 <= j < collidable(asset, policy).len() && collidable(asset, policy)[j].node
                == i) <==> is_collidable(asset, policy, i),
        forall|j: int|
            0 <= j < collidable(asset, policy).len() ==> (collidable(
                asset,
                policy,
            )[j].node as int) < asset.nodes@.len(),
{
    lemma_collidable_upto(asset, policy, asset.nodes@.len());
    let all = collidable(asset, policy);
    assert(all == collidable_upto(asset, policy, asset.nodes@.len()));
    assert((exists|j: int| 0 <= j < all.len() && all[j].node == i) <==> is_collidable(
        asset,
        policy,
        i,
    ));
}

} // verus!
