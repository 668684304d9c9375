use vstd::prelude::*;

verus! {

/// `name` ends with `suffix`.
pub open spec fn has_suffix(name: Seq<char>, suffix: Seq<char>) -> bool {
    suffix.len() <= name.len() && name.subrange(name.len() - suffix.len(), name.len() as int)
        == suffix
}

/// Which named nodes carry collision geometry.
pub enum CollisionFilterPolicy {
    /// Every node that has a mesh is collidable.
    AllMeshNodes,
    /// Only nodes whose name ends with the given marker are collidable.
    NameSuffix(String),
}

impl CollisionFilterPolicy {
    /// The policy of the naming convention: names ending in `_collision`.
    pub fn collision_marker() -> (r: Self)
        ensures
            r matches CollisionFilterPolicy::NameSuffix(s) && s@ == "_collision"@,
    {
        CollisionFilterPolicy::NameSuffix(String::from_str("_collision"))
    }

    pub open spec fn accepts_spec(&self, name: Seq<char>) -> bool {
        match self {
            CollisionFilterPolicy::AllMeshNodes => true,
            CollisionFilterPolicy::NameSuffix(s) => has_suffix(name, s@),
        }
    }

    /// Whether a node of this name passes the policy.
    pub fn accepts(&self, name: &str) -> (r: bool)
        ensures
            r == self.accepts_spec(name@),
    {
        match self {
            CollisionFilterPolicy::AllMeshNodes => true,
            CollisionFilterPolicy::NameSuffix(s) => ends_with(name, s.as_str()),
        }
    }
}

/// Whether `name` ends with `suffix`, compared character by character.
pub fn ends_with(name: &str, suffix: &str) -> (r: bool)
    ensures
        r == has_suffix(name@, suffix@),
{
    let n = name.unicode_len();
    let m = suffix.unicode_len();
    if m > n {
        return false;
    }
    let start: usize = n - m;
    let mut i: usize = 0;
    while i < m
        invariant
            n == name@.len(),
            m == suffix@.len(),
            m <= n,
            start == n - m,
            i <= m,
            forall|j: int| 0 <= j < i ==> name@[start + j] == suffix@[j],
        decreases m - i,
    {
        if name.get_char(start + i) != suffix.get_char(i) {
            assert(name@.subrange(start as int, n as int)[i as int] != suffix@[i as int]);
            return false;
        }
        i += 1;
    }
    assert(name@.subrange(start as int, n as int) =~= suffix@);
    true
}

} // verus!
