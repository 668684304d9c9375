use vstd::prelude::*;
use bevy::render::mesh::{Mesh, VertexAttributeValues};
use bevy_rapier3d::geometry::{Collider, ComputedColliderShape, TriMeshFlags};
use crate::scene::CollidablePrimitive;
use crate::spawn::SynthesisOutcome;

verus! {

#[verifier::external_type_specification]
#[verifier::external_body]
pub struct ExMesh(Mesh);

#[verifier::external_type_specification]
#[verifier::external_body]
pub struct ExCollider(Collider);

/// The index buffer of a mesh, each index widened to `usize`; `None` when
/// the mesh has none.
pub uninterp spec fn index_buffer_of(m: Mesh) -> Option<Seq<usize>>;

/// The position buffer of a mesh: its length, and whether it is stored flat
/// (`Float32`, three entries per vertex) rather than as `Float32x3`; `None`
/// when positions are missing or stored in another layout.
pub uninterp spec fn position_buffer_of(m: Mesh) -> Option<(nat, bool)>;

/// Relies on bevy's `Mesh::indices` and `Indices::iter`: the index buffer,
/// as the mesh holds it.
#[verifier::external_body]
fn index_buffer(mesh: &Mesh) -> (r: Option<Vec<usize>>)
    ensures
        match r {
            Some(v) => index_buffer_of(*mesh) == Some(v@),
            None => index_buffer_of(*mesh) == None::<Seq<usize>>,
        },
{
    match mesh.indices() {
        Some(i) => Some(i.iter().collect()),
        None => None,
    }
}

/// Relies on bevy's `Mesh::attribute` for `Mesh::ATTRIBUTE_POSITION`: the
/// length of the position list and whether it is stored flat, for the two
/// layouts that hold positions as `f32`.
#[verifier::external_body]
fn position_buffer(mesh: &Mesh) -> (r: Option<(usize, bool)>)
    ensures
        match r {
            Some((n, flat)) => position_buffer_of(*mesh) == Some((n as nat, flat)),
            None => position_buffer_of(*mesh) == None::<(nat, bool)>,
        },
{
    match mesh.attribute(Mesh::ATTRIBUTE_POSITION) {
        Some(VertexAttributeValues::Float32x3(v)) => Some((v.len(), false)),
        Some(VertexAttributeValues::Float32(v)) => Some((v.len(), true)),
        _ => None,
    }
}

/// The index list holds at least one whole triangle, and every index of a
/// whole triangle names one of `vertex_count` vertices. A trailing partial
/// triangle is ignored.
pub open spec fn triangles_valid(indices: Seq<usize>, vertex_count: nat) -> bool {
    indices.len() >= 3 && forall|i: int|
        0 <= i < (indices.len() / 3) * 3 ==> (#[trigger] indices[i] as nat) < vertex_count
}

/// The number of vertices in a position buffer of length `len`: a flat
/// buffer holds three entries per vertex and must not end in a partial one.
pub open spec fn vertex_count(len: nat, flat: bool) -> Option<nat> {
    if !flat {
        Some(len)
    } else if len % 3 == 0 {
        Some(len / 3)
    } else {
        None
    }
}

/// The mesh is a triangle list that a collision shape can be built from
/// without tripping the geometry routine's own checks.
pub open spec fn mesh_buildable(m: Mesh) -> bool {
    match (index_buffer_of(m), position_buffer_of(m)) {
        (Some(i), Some((len, flat))) => match vertex_count(len, flat) {
            Some(n) => triangles_valid(i, n),
            None => false,
        },
        _ => false,
    }
}

/// Relies on bevy_rapier3d's `Collider::from_bevy_mesh` with a triangle-mesh
/// shape and every `TriMeshFlags` set (merge duplicate vertices, drop
/// degenerate and duplicate triangles, orient the triangles). That routine
/// panics on a mesh without a whole triangle, or with an index past the last
/// vertex, hence the `requires`; once positions and indices are present it
/// always builds a shape.
#[verifier::external_body]
fn collider_from_mesh(mesh: &Mesh) -> (r: Option<Collider>)
    requires
        mesh_buildable(*mesh),
    ensures
        r is Some,
{
    Collider::from_bevy_mesh(mesh, &ComputedColliderShape::TriMesh(TriMeshFlags::all()))
}

/// Whether `indices` holds a whole triangle and only indices below
/// `vertex_count` in its whole triangles.
pub fn triangle_list_valid(indices: &Vec<usize>, vertex_count: usize) -> (r: bool)
    ensures
        r == triangles_valid(indices@, vertex_count as nat),
{
    let n = indices.len();
    if n < 3 {
        return false;
    }
    let whole: usize = (n / 3) * 3;
    let mut i: usize = 0;
    while i < whole
        invariant
            n == indices@.len(),
            whole == (n / 3) * 3,
            whole <= n,
            i <= whole,
            forall|j: int| 0 <= j < i ==> (#[trigger] indices@[j] as nat) < vertex_count,
        decreases whole - i,
    {
        if indices[i] >= vertex_count {
            return false;
        }
        i += 1;
    }
    true
}

/// What one built-or-not shape means for the pass: a shape is built, its
/// absence is a construction failure.
pub fn outcome_of<C>(built: Option<C>) -> (r: SynthesisOutcome<C>)
    ensures
        match built {
            Some(c) => r == SynthesisOutcome::Built(c),
            None => r is Failed,
        },
{
    match built {
        Some(c) => SynthesisOutcome::Built(c),
        None => SynthesisOutcome::Failed,
    }
}

/// Builds the collision shape of one primitive. A primitive whose mesh could
/// not be looked up is `MeshMissing`; a mesh that is not a valid triangle
/// list is `Failed` without calling the geometry routine; any other mesh
/// gives `Built`.
pub fn synthesize_collider(mesh: Option<&Mesh>) -> (r: SynthesisOutcome<Collider>)
    ensures
        mesh is None <==> r is MeshMissing,
        mesh matches Some(m) && !mesh_buildable(*m) ==> r is Failed,
        mesh matches Some(m) && mesh_buildable(*m) ==> r is Built,
{
    match mesh {
        None => SynthesisOutcome::MeshMissing,
        Some(m) => {
            let buildable = match (index_buffer(m), position_buffer(m)) {
                (Some(indices), Some((len, flat))) => {
                    if !flat {
                        triangle_list_valid(&indices, len)
                    } else if len % 3 == 0 {
                        triangle_list_valid(&indices, len / 3)
                    } else {
                        false
                    }
                },
                _ => false,
            };
            if buildable {
                outcome_of(collider_from_mesh(m))
            } else {
                SynthesisOutcome::Failed
            }
        },
    }
}

/// The mesh of mesh-store id `p` could be looked up.
pub open spec fn mesh_present(meshes: Seq<Option<&Mesh>>, p: usize) -> bool {
    p < meshes.len() && meshes[p as int] is Some
}

/// Builds the shape of each entry of a walk, in order. `meshes[p]` is the
/// mesh of mesh-store id `p`, `None` where it could not be looked up. A
/// failed entry does not stop the entries after it.
pub fn synthesize_walk(
    items: &Vec<CollidablePrimitive>,
    meshes: &Vec<Option<&Mesh>>,
) -> (r: Vec<SynthesisOutcome<Collider>>)
    ensures
        r@.len() == items@.len(),
        forall|j: int|
            0 <= j < items@.len() ==> (#[trigger] r@[j] is MeshMissing <==> !mesh_present(
                meshes@,
                items@[j].primitive,
            )),
        forall|j: int|
            0 <= j < items@.len() && mesh_present(meshes@, items@[j].primitive) && !mesh_buildable(
                *meshes@[items@[j].primitive as int]->Some_0,
            ) ==> #[trigger] r@[j] is Failed,
        forall|j: int|
            0 <= j < items@.len() && mesh_present(meshes@, items@[j].primitive) && mesh_buildable(
                *meshes@[items@[j].primitive as int]->Some_0,
            ) ==> #[trigger] r@[j] is Built,
{
    let mut out: Vec<SynthesisOutcome<Collider>> = Vec::new();
    let n = items.len();
    let mut i: usize = 0;
    while i < n
        invariant
            n == items@.len(),
            i <= n,
            out@.len() == i,
            forall|j: int|
                0 <= j < i ==> (#[trigger] out@[j] is MeshMissing <==> !mesh_present(
                    meshes@,
                    items@[j].primitive,
                )),
            forall|j: int|
                0 <= j < i && mesh_present(meshes@, items@[j].primitive) && !mesh_buildable(
                    *meshes@[items@[j].primitive as int]->Some_0,
                ) ==> #[trigger] out@[j] is Failed,
            forall|j: int|
                0 <= j < i && mesh_present(meshes@, items@[j].primitive) && mesh_buildable(
                    *meshes@[items@[j].primitive as int]->Some_0,
                ) ==> #[trigger] out@[j] is Built,
        decreases n - i,
    {
        let p = items[i].primitive;
        let mesh: Option<&Mesh> = if p < meshes.len() {
            meshes[p]
        } else {
            None
        };
        out.push(synthesize_collider(mesh));
        i += 1;
    }
    out
}

} // verus!
