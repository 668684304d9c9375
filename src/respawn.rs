use vstd::prelude::*;

verus! {

/// A dynamic body as the respawn monitor sees it: a position `P` and a
/// velocity `V`.
#[derive(Clone, Copy, Debug)]
pub struct DynamicBody<P, V> {
    pub position: P,
    pub velocity: V,
}

/// The body after one tick of the monitor: back at the spawn point and at
/// rest if it had fallen below the floor, otherwise as it was.
pub open spec fn respawned<P, V>(
    body: DynamicBody<P, V>,
    fallen: bool,
    spawn_point: P,
    at_rest: V,
) -> DynamicBody<P, V> {
    if fallen {
        DynamicBody { position: spawn_point, velocity: at_rest }
    } else {
        body
    }
}

/// One tick of the respawn monitor. `fallen[i]` tells whether body `i` is at
/// or below the floor; each fallen body is put back at `spawn_point` with
/// velocity `at_rest`, and every other body is left untouched. No body's
/// result depends on another.
pub fn respawn_fallen<P: Copy, V: Copy>(
    bodies: &mut Vec<DynamicBody<P, V>>,
    fallen: &Vec<bool>,
    spawn_point: P,
    at_rest: V,
)
    requires
        old(bodies)@.len() == fallen@.len(),
    ensures
        final(bodies)@.len() == old(bodies)@.len(),
        forall|i: int|
            0 <= i < old(bodies)@.len() ==> final(bodies)@[i] == respawned(
                old(bodies)@[i],
                fallen@[i],
                spawn_point,
                at_rest,
            ),
{
    let n = bodies.len();
    let mut i: usize = 0;
    while i < n
        invariant
            n == old(bodies)@.len(),
            n == fallen@.len(),
            bodies@.len() == n,
            i <= n,
            forall|j: int|
                0 <= j < i ==> bodies@[j] == respawned(
                    old(bodies)@[j],
                    fallen@[j],
                    spawn_point,
                    at_rest,
                ),
            forall|j: int| i <= j < n ==> bodies@[j] == old(bodies)@[j],
        decreases n - i,
    {
        if fallen[i] {
            bodies.set(i, DynamicBody { position: spawn_point, velocity: at_rest });
        }
        i += 1;
    }
}

/// Over a tick, a fallen body ends at the spawn point and at rest, and a body
/// above the floor is unchanged.
pub proof fn lemma_respawn_correct<P, V>(
    body: DynamicBody<P, V>,
    fallen: bool,
    spawn_point: P,
    at_rest: V,
)
    ensures
        fallen ==> respawned(body, fallen, spawn_point, at_rest).position == spawn_point
            && respawned(body, fallen, spawn_point, at_rest).velocity == at_rest,
        !fallen ==> respawned(body, fallen, spawn_point, at_rest) == body,
{
}

} // verus!
