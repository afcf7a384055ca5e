//! Migration bookkeeping and the connection-pool lookup of the SQLite database.

pub mod migrations;
pub mod model_factory;

use crate::database::migrations::MigrationPair;
use crate::error::AppError;
use crate::text::contains_str;
use crate::text::contains_text;
use crate::text::decimal;
use crate::text::format_i64;
use vstd::prelude::*;
use vstd::string::*;

verus! {

/// Connection string handed to the SQL plugin; relative to the app config
/// directory (`com.vyshak.nila`).
pub const DB_URL: &'static str = "sqlite:nila.db";

/// Access to the SQLite connection pool owned by the SQL plugin.
///
/// The pool is created during plugin setup, which also applies pending
/// migrations before any command can run.
pub struct Database;

/// A registered migration and whether the database has applied it.
#[derive(Debug)]
pub struct MigrationInfo {
    pub version: i64,
    pub name: String,
    pub applied: bool,
}

/// The last applied migration and the SQL that reverts it.
#[derive(Debug, Clone, Copy)]
pub struct UndoStep {
    pub version: i64,
    pub down_sql: &'static str,
}

/// Message for the missing connection pool.
pub open spec fn pool_missing_message() -> Seq<char> {
    "connection pool for `"@ + DB_URL@ + "` is not initialized"@
}

/// `version` occurs among the applied `(version, description)` rows.
pub open spec fn is_applied(applied: Seq<(i64, String)>, version: i64) -> bool {
    exists|j: int| 0 <= j < applied.len() && (#[trigger] applied[j]).0 == version
}

/// `info` describes `pair` against the applied rows.
pub open spec fn describes(info: MigrationInfo, pair: MigrationPair, applied: Seq<(i64, String)>) -> bool {
    &&& info.version == pair.version
    &&& info.name@ == pair.name@
    &&& info.applied == is_applied(applied, pair.version)
}

/// `i` is the first registered migration with `version`.
pub open spec fn is_first_with_version(pairs: Seq<MigrationPair>, version: i64, i: int) -> bool {
    &&& 0 <= i < pairs.len()
    &&& pairs[i].version == version
    &&& forall|j: int| 0 <= j < i ==> (#[trigger] pairs[j]).version != version
}

/// Some migration is registered with `version`.
pub open spec fn is_registered(pairs: Seq<MigrationPair>, version: i64) -> bool {
    exists|i: int| 0 <= i < pairs.len() && (#[trigger] pairs[i]).version == version
}

/// Message for a version without a registered migration.
pub open spec fn unregistered_message(version: i64) -> Seq<char> {
    "version "@ + decimal(version as int) + " has no registered down migration"@
}

/// A listing entry says a migration is applied exactly when some row of the tracking
/// table, at any position, carries its version; it keeps the migration's version and name.
pub proof fn law_listing_marks_every_applied_version(
    info: MigrationInfo,
    pair: MigrationPair,
    applied: Seq<(i64, String)>,
)
    requires
        describes(info, pair, applied),
    ensures
        info.version == pair.version,
        info.name@ == pair.name@,
        forall|j: int| 0 <= j < applied.len() && (#[trigger] applied[j]).0 == pair.version ==> info.applied,
        info.applied ==> exists|j: int| 0 <= j < applied.len() && (#[trigger] applied[j]).0 == pair.version,
{
    assert forall|j: int| 0 <= j < applied.len() && (#[trigger] applied[j]).0 == pair.version implies info.applied by {
        assert(is_applied(applied, pair.version));
    }
}

/// Whenever a registered migration at any index carries `version`, there is a first one
/// carrying it, at or before that index; and `is_registered` holds exactly then.
pub proof fn law_every_registered_version_has_a_first(pairs: Seq<MigrationPair>, version: i64, i: int)
    requires
        0 <= i < pairs.len(),
        pairs[i].version == version,
    ensures
        is_registered(pairs, version),
        exists|k: int| k <= i && is_first_with_version(pairs, version, k),
    decreases i,
{
    assert(is_registered(pairs, version));
    if forall|j: int| 0 <= j < i ==> (#[trigger] pairs[j]).version != version {
        assert(is_first_with_version(pairs, version, i));
    } else {
        let j = choose|j: int| 0 <= j < i && (#[trigger] pairs[j]).version == version;
        law_every_registered_version_has_a_first(pairs, version, j);
    }
}

impl Database {
    /// The error reported when the plugin holds no SQLite pool for [`DB_URL`].
    pub fn pool_missing() -> (res: AppError)
        ensures
            res matches AppError::Sql(m) && m@ == pool_missing_message(),
    {
        let mut msg = String::from_str("connection pool for `");
        msg.append(DB_URL);
        msg.append("` is not initialized");
        AppError::Sql(msg)
    }
}

/// A database error that only says the migration tracking table does not exist
/// yet, which is the case until the first migration has run.
pub fn is_missing_table(message: &str) -> (res: bool)
    ensures
        res == contains_text(message@, "no such table"@),
{
    contains_str(message, "no such table")
}

/// Lists every registered migration, in registry order, with whether it has been applied.
pub fn migration_infos(pairs: &[MigrationPair], applied: &Vec<(i64, String)>) -> (res: Vec<
    MigrationInfo,
>)
    ensures
        res@.len() == pairs@.len(),
        forall|i: int| 0 <= i < pairs@.len() ==> describes(#[trigger] res@[i], pairs@[i], applied@),
        forall|i: int|
            0 <= i < pairs@.len() ==> (#[trigger] res@[i]).version == pairs@[i].version
                && res@[i].name@ == pairs@[i].name@,
        forall|i: int, j: int|
            #![trigger res@[i], applied@[j]]
            0 <= i < pairs@.len() && 0 <= j < applied@.len() && applied@[j].0 == pairs@[i].version
                ==> res@[i].applied,
        forall|i: int|
            0 <= i < pairs@.len() && (#[trigger] res@[i]).applied ==> exists|j: int|
                0 <= j < applied@.len() && (#[trigger] applied@[j]).0 == pairs@[i].version,
{
    let mut infos: Vec<MigrationInfo> = Vec::new();
    let mut i: usize = 0;
    while i < pairs.len()
        invariant
            i <= pairs@.len(),
            infos@.len() == i,
            forall|k: int| 0 <= k < i ==> describes(#[trigger] infos@[k], pairs@[k], applied@),
        decreases pairs@.len() - i,
    {
        let pair = pairs[i];
        let mut found = false;
        let mut j: usize = 0;
        while j < applied.len()
            invariant
                j <= applied@.len(),
                found == exists|k: int| 0 <= k < j && (#[trigger] applied@[k]).0 == pair.version,
            decreases applied@.len() - j,
        {
            if applied[j].0 == pair.version {
                found = true;
            }
            j = j + 1;
        }
        infos.push(MigrationInfo { version: pair.version, name: pair.name.to_owned(), applied: found });
        i = i + 1;
    }
    proof {
        assert forall|i: int| 0 <= i < pairs@.len() implies ({
            &&& infos@[i].version == pairs@[i].version
            &&& infos@[i].name@ == pairs@[i].name@
            &&& forall|j: int|
                0 <= j < applied@.len() && (#[trigger] applied@[j]).0 == pairs@[i].version
                    ==> infos@[i].applied
            &&& infos@[i].applied ==> exists|j: int|
                0 <= j < applied@.len() && (#[trigger] applied@[j]).0 == pairs@[i].version
        }) by {
            law_listing_marks_every_applied_version(infos@[i], pairs@[i], applied@);
        }
    }
    infos
}

/// Decides what undoing the last migration does, given the highest applied version
/// (`None` when nothing is applied): nothing, or the registered down SQL of that
/// version, or an error when that version has no registered migration.
pub fn undo_step(pairs: &[MigrationPair], last: Option<i64>) -> (res: Result<Option<UndoStep>, AppError>)
    ensures
        last is None ==> res == Ok::<Option<UndoStep>, AppError>(None),
        last is Some && !is_registered(pairs@, last.unwrap()) ==> (res matches Err(
            AppError::Sql(m),
        ) && m@ == unregistered_message(last.unwrap())),
        res matches Ok(Some(step)) ==> last == Some(step.version) && exists|i: int|
            is_first_with_version(pairs@, step.version, i) && step.down_sql == pairs@[i].down,
        last is Some && is_registered(pairs@, last.unwrap()) ==> res matches Ok(Some(_)),
        forall|i: int|
            0 <= i < pairs@.len() && last == Some((#[trigger] pairs@[i]).version) ==> (res matches Ok(
                Some(step),
            ) && step.version == pairs@[i].version),
        res matches Ok(Some(step)) ==> exists|i: int|
            {
                &&& 0 <= i < pairs@.len()
                &&& (#[trigger] pairs@[i]).version == step.version
                &&& step.down_sql == pairs@[i].down
                &&& forall|j: int| 0 <= j < i ==> (#[trigger] pairs@[j]).version != step.version
            },
        res is Err ==> last is Some && forall|i: int|
            0 <= i < pairs@.len() ==> (#[trigger] pairs@[i]).version != last.unwrap(),
{
    proof {
        assert forall|i: int|
            0 <= i < pairs@.len() && last == Some((#[trigger] pairs@[i]).version) implies is_registered(
            pairs@,
            last.unwrap(),
        ) by {
            law_every_registered_version_has_a_first(pairs@, pairs@[i].version, i);
        }
    }
    let version = match last {
        None => return Ok(None),
        Some(v) => v,
    };
    let mut i: usize = 0;
    while i < pairs.len()
        invariant
            i <= pairs@.len(),
            last == Some(version),
            forall|j: int| 0 <= j < i ==> (#[trigger] pairs@[j]).version != version,
        decreases pairs@.len() - i,
    {
        if pairs[i].version == version {
            assert(is_first_with_version(pairs@, version, i as int));
            return Ok(Some(UndoStep { version, down_sql: pairs[i].down }));
        }
        i = i + 1;
    }
    let mut msg = String::from_str("version ");
    let shown = format_i64(version);
    msg.append(shown.as_str());
    msg.append(" has no registered down migration");
    Err(AppError::Sql(msg))
}

} // verus!
