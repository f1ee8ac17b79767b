//! The schema versions of the damage database: which version this build
//! writes, when a database can be read, and which migrations bring an older
//! one up to date.
use crate::text::{chars_of, i64_text, int_text, push_str_chars, string_of};
use vstd::prelude::*;

verus! {

/// The schema version this build creates and reads.
pub const CURRENT_SCHEMA_VERSION: i32 = 5;

/// Refusal of a database written by a newer build.
pub const SCHEMA_NEWER_THAN_BINARY: &'static str = "Database schema newer than batrs; upgrade batrs.";

/// Refusal of a database without a schema version.
pub const CANNOT_OPEN_DATABASE: &'static str = "Cannot open combat damage database.";

/// Whether a database with this schema version can be read: one without a
/// version cannot be opened, one newer than this build is refused.
pub fn validate_readable_schema(version: Option<i32>) -> (r: Result<(), String>)
    ensures
        match version {
            None => r matches Err(m) && m@ == CANNOT_OPEN_DATABASE@,
            Some(v) => if v > CURRENT_SCHEMA_VERSION {
                r matches Err(m) && m@ == SCHEMA_NEWER_THAN_BINARY@
            } else {
                r is Ok
            },
        },
{
    match version {
        None => Err(CANNOT_OPEN_DATABASE.to_string()),
        Some(v) => if v > CURRENT_SCHEMA_VERSION {
            Err(SCHEMA_NEWER_THAN_BINARY.to_string())
        } else {
            Ok(())
        },
    }
}

/// What opening a database for writing does to its schema.
#[derive(Debug, PartialEq, Eq)]
pub enum SchemaPlan {
    /// No schema yet: create the current one.
    Create,
    /// Written by a newer build: refuse with this message.
    Refuse(String),
    /// Older: migrate from this version.
    Migrate(i32),
    /// Already current.
    UpToDate,
}

/// What opening a database for writing does to a schema of this version.
pub fn schema_plan(version: Option<i32>) -> (p: SchemaPlan)
    ensures
        match version {
            None => p is Create,
            Some(v) => if v > CURRENT_SCHEMA_VERSION {
                p matches SchemaPlan::Refuse(m) && m@ == SCHEMA_NEWER_THAN_BINARY@
            } else if v < CURRENT_SCHEMA_VERSION {
                p == SchemaPlan::Migrate(v)
            } else {
                p is UpToDate
            },
        },
{
    match version {
        None => SchemaPlan::Create,
        Some(v) => if v > CURRENT_SCHEMA_VERSION {
            SchemaPlan::Refuse(SCHEMA_NEWER_THAN_BINARY.to_string())
        } else if v < CURRENT_SCHEMA_VERSION {
            SchemaPlan::Migrate(v)
        } else {
            SchemaPlan::UpToDate
        },
    }
}

/// The migration steps from a version, each named by the version it starts
/// from: one step per version from `from` up to the current one, for versions
/// that have migrations (1 to 4).
pub open spec fn migration_steps_spec(from: int) -> Seq<i32>
    decreases 5 - from,
{
    if 1 <= from && from < CURRENT_SCHEMA_VERSION {
        seq![from as i32] + migration_steps_spec(from + 1)
    } else {
        seq![]
    }
}

/// The message when no migration leads from `v` to the current version.
pub open spec fn missing_migration_message(v: int) -> Seq<char> {
    "missing migration from schema version "@ + int_text(v) + " to "@ + int_text(
        CURRENT_SCHEMA_VERSION as int,
    )
}

/// The migrations that bring a schema of version `from` up to date, or the
/// refusal when none lead there.
pub fn migration_steps(from: i32) -> (r: Result<Vec<i32>, String>)
    ensures
        if from >= 1 {
            r matches Ok(steps) && steps@ == migration_steps_spec(from as int)
        } else {
            r matches Err(m) && m@ == missing_migration_message(from as int)
        },
{
    let mut steps: Vec<i32> = Vec::new();
    let mut version = from;
    if 1 <= version && version < CURRENT_SCHEMA_VERSION {
        while version < CURRENT_SCHEMA_VERSION
            invariant
                1 <= from <= version <= CURRENT_SCHEMA_VERSION,
                migration_steps_spec(from as int) == steps@ + migration_steps_spec(version as int),
            decreases CURRENT_SCHEMA_VERSION - version,
        {
            let ghost before = steps@;
            steps.push(version);
            assert(before + migration_steps_spec(version as int) =~= steps@ + migration_steps_spec(version + 1));
            version = version + 1;
        }
        assert(steps@ + migration_steps_spec(version as int) =~= steps@);
    }
    if version < CURRENT_SCHEMA_VERSION {
        let mut m = chars_of("missing migration from schema version ");
        let t = i64_text(version as i64);
        push_str_chars(&mut m, t.as_str());
        push_str_chars(&mut m, " to ");
        let c = i64_text(CURRENT_SCHEMA_VERSION as i64);
        push_str_chars(&mut m, c.as_str());
        return Err(string_of(m.as_slice()));
    }
    assert(from >= CURRENT_SCHEMA_VERSION ==> migration_steps_spec(from as int) =~= Seq::<i32>::empty());
    Ok(steps)
}

} // verus!
