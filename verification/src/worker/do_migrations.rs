//! Versioned schema migrations for the DurableObject's storage.
//!
//! Each migration is a single `(version, sql)` pair. `sql` may contain
//! multiple statements separated by `;`. On first request per isolate the
//! object reads the newest version that was applied, applies any newer
//! migrations in order, then stamps each new version.

use vstd::prelude::*;

use crate::text::{decimal_int, format_i64, join2, join3, texts};
use crate::worker::services::common::{split_sql_statements, sql_statements};

verus! {

/// A schema migration.
#[derive(Debug, PartialEq, Eq)]
pub struct Migration {
    pub version: i64,
    pub sql: &'static str,
}

/// The first schema: the version table and the pages.
pub const INITIAL_SCHEMA: &'static str = "
        CREATE TABLE IF NOT EXISTS schema_version (
            version INTEGER PRIMARY KEY,
            applied_at_ms INTEGER NOT NULL
        );
        CREATE TABLE IF NOT EXISTS pages (
            page_no INTEGER PRIMARY KEY,
            data BLOB NOT NULL,
            hash TEXT NOT NULL,
            updated_at_ms INTEGER NOT NULL
        );
    ";

/// The statement that stamps a version, bound to the version and the time.
pub const STAMP: &'static str =
    "INSERT OR REPLACE INTO schema_version (version, applied_at_ms) VALUES (?, ?)";

/// Every migration, oldest first.
pub open spec fn all_migrations() -> Seq<Migration> {
    seq![Migration { version: 1, sql: INITIAL_SCHEMA }]
}

/// Every migration, oldest first.
pub fn migrations() -> (r: Vec<Migration>)
    ensures
        r@ == all_migrations(),
{
    let mut out: Vec<Migration> = Vec::new();
    out.push(Migration { version: 1, sql: INITIAL_SCHEMA });
    assert(out@ =~= all_migrations());
    out
}

/// One statement of a migration run.
#[derive(Debug, PartialEq, Eq)]
pub enum MigrationStep {
    /// Run this statement of a version.
    Run { version: i64, statement: String },
    /// Stamp this version.
    Stamp { version: i64 },
}

/// [`MigrationStep`] over characters.
pub enum StepView {
    Run { version: i64, statement: Seq<char> },
    Stamp { version: i64 },
}

impl View for MigrationStep {
    type V = StepView;

    open spec fn view(&self) -> StepView {
        match self {
            MigrationStep::Run { version, statement } => StepView::Run {
                version: *version,
                statement: statement@,
            },
            MigrationStep::Stamp { version } => StepView::Stamp { version: *version },
        }
    }
}

/// A failed migration.
#[derive(Debug, PartialEq, Eq)]
pub struct MigrationError(pub String);

impl MigrationError {
    /// The message of the error.
    pub fn to_string(&self) -> (r: String)
        ensures
            r@ == self.0@,
    {
        self.0.clone()
    }
}

/// The statements of one version, then its stamp.
pub open spec fn steps_of(version: i64, sql: Seq<char>) -> Seq<StepView> {
    sql_statements(sql).map_values(
        |s: Seq<char>| StepView::Run { version, statement: s },
    ).push(StepView::Stamp { version })
}

/// The steps that bring a schema up to date: those of every newer version, in
/// order.
pub open spec fn pending_steps(ms: Seq<Migration>, current: i64) -> Seq<StepView>
    decreases ms.len(),
{
    if ms.len() == 0 {
        Seq::empty()
    } else {
        let before = pending_steps(ms.drop_last(), current);
        if ms.last().version > current {
            before + steps_of(ms.last().version, ms.last().sql@)
        } else {
            before
        }
    }
}

/// The steps of a list over characters.
pub open spec fn step_views(v: Seq<MigrationStep>) -> Seq<StepView> {
    v.map_values(|s: MigrationStep| s@)
}

/// The steps that bring a schema at version `current` up to date. A schema
/// whose version cannot be read has none yet.
pub fn plan(ms: &Vec<Migration>, current: Option<i64>) -> (r: Vec<MigrationStep>)
    ensures
        step_views(r@) == pending_steps(
            ms@,
            match current {
                Some(v) => v,
                None => 0,
            },
        ),
{
    let at: i64 = match current {
        Some(v) => v,
        None => 0,
    };
    let mut out: Vec<MigrationStep> = Vec::new();
    let mut i: usize = 0;
    assert(ms@.take(0) =~= Seq::<Migration>::empty());
    assert(step_views(out@) =~= Seq::<StepView>::empty());
    while i < ms.len()
        invariant
            i <= ms.len(),
            step_views(out@) == pending_steps(ms@.take(i as int), at),
        decreases ms.len() - i,
    {
        proof {
            assert(ms@.take(i + 1).drop_last() =~= ms@.take(i as int));
        }
        let version: i64 = ms[i].version;
        if version > at {
            let ghost before = step_views(out@);
            let sts: Vec<String> = split_sql_statements(ms[i].sql);
            let ghost runs = texts(sts@).map_values(
                |s: Seq<char>| StepView::Run { version, statement: s },
            );
            let mut j: usize = 0;
            assert(step_views(out@) =~= before + runs.take(0));
            while j < sts.len()
                invariant
                    j <= sts.len(),
                    runs == texts(sts@).map_values(
                        |s: Seq<char>| StepView::Run { version, statement: s },
                    ),
                    step_views(out@) == before + runs.take(j as int),
                decreases sts.len() - j,
            {
                let ghost prev = out@;
                let statement: String = sts[j].clone();
                out.push(MigrationStep::Run { version, statement });
                proof {
                    assert(step_views(out@) =~= step_views(prev).push(runs[j as int]));
                    assert(runs.take(j + 1) =~= runs.take(j as int).push(runs[j as int]));
                    assert(step_views(out@) =~= before + runs.take(j + 1));
                }
                j = j + 1;
            }
            let ghost prev = out@;
            out.push(MigrationStep::Stamp { version });
            proof {
                assert(runs.take(j as int) =~= runs);
                assert(step_views(out@) =~= step_views(prev).push(StepView::Stamp { version }));
                assert(step_views(out@) =~= before + steps_of(version, ms@[i as int].sql@));
            }
        }
        i = i + 1;
    }
    assert(ms@.take(i as int) =~= ms@);
    out
}

/// The steps that bring the object's schema up to date, from the version that
/// it is at; none where it cannot be read.
pub fn ensure_schema(current: Option<i64>) -> (r: Vec<MigrationStep>)
    ensures
        step_views(r@) == pending_steps(
            all_migrations(),
            match current {
                Some(v) => v,
                None => 0,
            },
        ),
{
    plan(&migrations(), current)
}

/// An up-to-date schema has nothing left to run.
pub proof fn law_up_to_date(ms: Seq<Migration>, current: i64)
    requires
        forall|i: int| 0 <= i < ms.len() ==> (#[trigger] ms[i]).version <= current,
    ensures
        pending_steps(ms, current).len() == 0,
    decreases ms.len(),
{
    if ms.len() > 0 {
        assert(ms.last() == ms[ms.len() - 1]);
        assert forall|i: int| 0 <= i < ms.drop_last().len() implies (
        #[trigger] ms.drop_last()[i]).version <= current by {
            assert(ms.drop_last()[i] == ms[i]);
        }
        law_up_to_date(ms.drop_last(), current);
    }
}

/// The error of a step that failed.
pub fn step_error(step: &MigrationStep, e: &str) -> (r: MigrationError)
    ensures
        r.0@ == match step@ {
            StepView::Run { version, statement } => "v"@ + decimal_int(version as int) + (": "@
                + e@ + (" ["@ + statement + "]"@)),
            StepView::Stamp { version } => "v"@ + decimal_int(version as int) + (" stamp: "@ + e@),
        },
{
    match step {
        MigrationStep::Run { version, statement } => MigrationError(
            join3(
                "v",
                format_i64(*version).as_str(),
                join3(": ", e, join3(" [", statement.as_str(), "]").as_str()).as_str(),
            ),
        ),
        MigrationStep::Stamp { version } => MigrationError(
            join3("v", format_i64(*version).as_str(), join2(" stamp: ", e).as_str()),
        ),
    }
}

} // verus!
