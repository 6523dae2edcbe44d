//! Which schema upgrades a database still needs.
use vstd::prelude::*;

verus! {

/// The schema version this code writes.
pub const SCHEMA_VERSION: i32 = 2;

/// The upgrades a database at schema version `version` still needs, in
/// order: every step after its version, up to the current one.
pub open spec fn pending_steps(version: int) -> Seq<i32> {
    if version < 1 {
        seq![1i32, 2i32]
    } else if version < 2 {
        seq![2i32]
    } else {
        Seq::empty()
    }
}

/// The upgrades that a database at schema version `version` still needs.
pub fn migration_steps(version: i32) -> (r: Vec<i32>)
    ensures
        r@ == pending_steps(version as int),
        forall|k: int| 0 <= k < r@.len() ==> version < #[trigger] r@[k] <= SCHEMA_VERSION,
{
    let mut steps: Vec<i32> = Vec::new();
    if version < 1 {
        steps.push(1);
    }
    if version < 2 {
        steps.push(2);
    }
    proof {
        assert(steps@ =~= pending_steps(version as int));
    }
    steps
}

/// After the pending upgrades the schema is current: a database at any
/// version that runs them ends at the current version, and a current
/// database needs none.
pub proof fn lemma_migrations_reach_current(version: int)
    ensures
        pending_steps(version).len() > 0 ==> pending_steps(version).last() == SCHEMA_VERSION,
        version >= SCHEMA_VERSION ==> pending_steps(version).len() == 0,
        pending_steps(version).len() > 0 ==> pending_steps(
            pending_steps(version).last() as int,
        ).len() == 0,
{
}

} // verus!
