//! Which schema migrations a database needs.

use vstd::prelude::*;

verus! {

/// The schema version this build writes.
pub const SCHEMA_VERSION: i32 = 7;

/// The versions a database at `version` steps through to reach the current
/// schema, in order; none for a database newer than this build.
pub open spec fn spec_migration_plan(version: int) -> Option<Seq<i32>> {
    if version > SCHEMA_VERSION {
        None
    } else if version < 0 {
        Some(Seq::empty())
    } else {
        Some(Seq::new((SCHEMA_VERSION - version) as nat, |k: int| (version + 1 + k) as i32))
    }
}

/// The versions a database at `version` steps through, in order, or the
/// found and supported versions when the database is newer than this build.
pub fn migration_plan(version: i32) -> (r: Result<Vec<i32>, (i32, i32)>)
    ensures
        match spec_migration_plan(version as int) {
            Some(steps) => r matches Ok(v) && v@ == steps,
            None => r == Err::<Vec<i32>, (i32, i32)>((version, SCHEMA_VERSION)),
        },
{
    if version > SCHEMA_VERSION {
        return Err((version, SCHEMA_VERSION));
    }
    let mut steps: Vec<i32> = Vec::new();
    if version < 0 {
        assert(steps@ =~= Seq::<i32>::empty());
        return Ok(steps);
    }
    let mut next: i32 = version + 1;
    while next <= SCHEMA_VERSION
        invariant
            0 <= version <= SCHEMA_VERSION,
            version + 1 <= next <= SCHEMA_VERSION + 1,
            steps@ == Seq::new((next - version - 1) as nat, |k: int| (version + 1 + k) as i32),
        decreases SCHEMA_VERSION + 1 - next,
    {
        steps.push(next);
        next += 1;
        assert(steps@ =~= Seq::new((next - version - 1) as nat, |k: int| (version + 1 + k) as i32));
    }
    Ok(steps)
}

/// Migrating always ends at the current schema: the last step reached is
/// the current version, and every step raises the version by one.
pub proof fn lemma_migration_ends_current(version: int)
    requires
        0 <= version < SCHEMA_VERSION,
    ensures
        spec_migration_plan(version) matches Some(steps) && steps.len() > 0 && steps.last() == SCHEMA_VERSION
            && forall|k: int| 0 < k < steps.len() ==> #[trigger] steps[k] == steps[k - 1] + 1,
{
}

} // verus!
