//! The schema migrations and the form in which they are registered.

use vstd::prelude::*;

verus! {

/// A schema migration with its reversible counterpart.
#[derive(Debug, Clone, Copy)]
pub struct MigrationPair {
    pub version: i64,
    pub name: &'static str,
    pub up: &'static str,
    pub down: &'static str,
}

/// The direction of a registered migration.
#[derive(Debug, Clone, Copy, PartialEq, Eq)]
pub enum MigrationKind {
    Up,
    Down,
}

/// One registered migration: a version, its description, the SQL to run and its direction.
#[derive(Debug, Clone, Copy)]
pub struct MigrationStep {
    pub version: i64,
    pub description: &'static str,
    pub sql: &'static str,
    pub kind: MigrationKind,
}

/// The step that applies `pair`.
pub open spec fn up_step(pair: MigrationPair) -> MigrationStep {
    MigrationStep {
        version: pair.version,
        description: pair.name,
        sql: pair.up,
        kind: MigrationKind::Up,
    }
}

/// The step that reverts `pair`.
pub open spec fn down_step(pair: MigrationPair) -> MigrationStep {
    MigrationStep {
        version: pair.version,
        description: pair.name,
        sql: pair.down,
        kind: MigrationKind::Down,
    }
}

/// The registration of `pairs`: each pair's up step followed by its down step, in order.
pub open spec fn registered_steps(pairs: Seq<MigrationPair>) -> Seq<MigrationStep> {
    Seq::new(
        2 * pairs.len(),
        |i: int|
            if i % 2 == 0 {
                up_step(pairs[i / 2])
            } else {
                down_step(pairs[i / 2])
            },
    )
}

/// Each migration is registered as its own up step, carrying its version, name and up
/// SQL, immediately followed by its own down step with its down SQL.
pub proof fn law_each_migration_registers_its_own_sql(pairs: Seq<MigrationPair>, i: int)
    requires
        0 <= i < pairs.len(),
    ensures
        registered_steps(pairs).len() == 2 * pairs.len(),
        registered_steps(pairs)[2 * i].version == pairs[i].version,
        registered_steps(pairs)[2 * i].description == pairs[i].name,
        registered_steps(pairs)[2 * i].sql == pairs[i].up,
        registered_steps(pairs)[2 * i].kind == MigrationKind::Up,
        registered_steps(pairs)[2 * i + 1].version == pairs[i].version,
        registered_steps(pairs)[2 * i + 1].description == pairs[i].name,
        registered_steps(pairs)[2 * i + 1].sql == pairs[i].down,
        registered_steps(pairs)[2 * i + 1].kind == MigrationKind::Down,
{
    assert((2 * i) % 2 == 0 && (2 * i) / 2 == i);
    assert((2 * i + 1) % 2 == 1 && (2 * i + 1) / 2 == i);
}

/// The steps handed to the SQL plugin. Both kinds are registered; the plugin applies
/// only `Up` entries, so the `Down` SQL stays inert there and serves the undo command.
pub fn migration_steps(pairs: &[MigrationPair]) -> (res: Vec<MigrationStep>)
    ensures
        res@ == registered_steps(pairs@),
        res@.len() == 2 * pairs@.len(),
        forall|i: int|
            #![trigger pairs@[i]]
            0 <= i < pairs@.len() ==> {
                &&& res@[2 * i].version == pairs@[i].version
                &&& res@[2 * i].description == pairs@[i].name
                &&& res@[2 * i].sql == pairs@[i].up
                &&& res@[2 * i].kind == MigrationKind::Up
                &&& res@[2 * i + 1].version == pairs@[i].version
                &&& res@[2 * i + 1].description == pairs@[i].name
                &&& res@[2 * i + 1].sql == pairs@[i].down
                &&& res@[2 * i + 1].kind == MigrationKind::Down
            },
{
    let mut steps: Vec<MigrationStep> = Vec::new();
    let mut i: usize = 0;
    while i < pairs.len()
        invariant
            i <= pairs@.len(),
            steps@ == registered_steps(pairs@.take(i as int)),
        decreases pairs@.len() - i,
    {
        let pair = pairs[i];
        steps.push(
            MigrationStep {
                version: pair.version,
                description: pair.name,
                sql: pair.up,
                kind: MigrationKind::Up,
            },
        );
        steps.push(
            MigrationStep {
                version: pair.version,
                description: pair.name,
                sql: pair.down,
                kind: MigrationKind::Down,
            },
        );
        proof {
            let next = pairs@.take(i + 1);
            assert forall|k: int| 0 <= k < 2 * next.len() implies #[trigger] steps@[k]
                == registered_steps(next)[k] by {
                if k < 2 * i {
                    assert(next[k / 2] == pairs@.take(i as int)[k / 2]);
                } else {
                    assert(k / 2 == i);
                }
            }
            assert(steps@ =~= registered_steps(next));
        }
        i = i + 1;
    }
    assert(pairs@.take(pairs@.len() as int) =~= pairs@);
    assert forall|i: int| #![trigger pairs@[i]] 0 <= i < pairs@.len() implies {
        &&& steps@[2 * i].version == pairs@[i].version
        &&& steps@[2 * i].description == pairs@[i].name
        &&& steps@[2 * i].sql == pairs@[i].up
        &&& steps@[2 * i].kind == MigrationKind::Up
        &&& steps@[2 * i + 1].version == pairs@[i].version
        &&& steps@[2 * i + 1].description == pairs@[i].name
        &&& steps@[2 * i + 1].sql == pairs@[i].down
        &&& steps@[2 * i + 1].kind == MigrationKind::Down
    } by {
        law_each_migration_registers_its_own_sql(pairs@, i);
    }
    steps
}

} // verus!
