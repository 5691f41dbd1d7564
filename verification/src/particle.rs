//! The particle system's run state and its choice of the slot a new
//! particle is spawned into.
use vstd::prelude::*;

verus! {

/// Whether a particle system spawns particles.
#[derive(Clone, Copy, PartialEq, Eq, Structural, Debug)]
pub enum ParticleSystemState {
    Stopped,
    Running,
}

/// Whether slot `i` holds the first expired particle.
pub open spec fn is_first_expired(expired: Seq<bool>, i: int) -> bool {
    &&& 0 <= i < expired.len()
    &&& expired[i]
    &&& forall|j: int| 0 <= j < i ==> !expired[j]
}

/// The slot a new particle goes into, given which slots hold an expired
/// particle (one whose life ran out): the first such slot, or slot 0 when
/// every particle is alive, which then replaces the particle in slot 0.
pub fn first_unused_particle(expired: &Vec<bool>) -> (r: usize)
    ensures
        (exists|i: int| 0 <= i < expired@.len() && expired@[i]) ==> is_first_expired(expired@, r as int),
        (forall|i: int| 0 <= i < expired@.len() ==> !expired@[i]) ==> r == 0,
{
    let mut i: usize = 0;
    while i < expired.len()
        invariant
            i <= expired@.len(),
            forall|j: int| 0 <= j < i ==> !expired@[j],
        decreases expired@.len() - i,
    {
        if expired[i] {
            return i;
        }
        i = i + 1;
    }
    0
}

} // verus!
