//! The model of one prepared statement and of the row cursor over it.

use vstd::prelude::*;
use crate::bind_collector::SqliteType;
use crate::error::{EngineError, Error};

verus! {

/// One prepared statement: the SQL text it was compiled from and the values
/// currently bound to its parameter slots, in position order (positions are
/// 1-based on the engine side; slot `i` here is position `i + 1`).
#[derive(Debug, PartialEq)]
pub struct Statement {
    pub sql: String,
    pub binds: Vec<(SqliteType, Option<Vec<u8>>)>,
}

impl Statement {
    /// Compiles `sql` against the engine; `compile` is the engine's answer.
    /// On success the statement starts with no bound values.
    pub fn prepare(sql: &str, compile: Result<(), EngineError>) -> (r: Result<Statement, Error>)
        ensures
            match compile {
                Ok(()) => match r {
                    Ok(s) => s.sql@ == sql@ && s.binds@.len() == 0,
                    Err(_) => false,
                },
                Err(e) => r == Err::<Statement, Error>(Error::DatabaseError(e)),
            },
    {
        match compile {
            Ok(()) => Ok(Statement { sql: sql.to_owned(), binds: Vec::new() }),
            Err(e) => Err(Error::DatabaseError(e)),
        }
    }

    /// Attaches one serialized parameter (or NULL, as `None`) at the next
    /// position.
    pub fn bind(&mut self, tpe: SqliteType, value: Option<Vec<u8>>)
        ensures
            final(self).sql@ == old(self).sql@,
            final(self).binds@ == old(self).binds@.push((tpe, value)),
    {
        self.binds.push((tpe, value));
    }

    /// Clears the bound values and cursor state so the statement can be
    /// reused.
    pub fn reset(&mut self)
        ensures
            final(self).sql@ == old(self).sql@,
            final(self).binds@.len() == 0,
    {
        self.binds.clear();
    }
}

/// The engine's answer to advancing a statement by one row.
#[derive(Debug, PartialEq)]
pub enum StepOutcome {
    /// One decoded row: its column values, `None` for NULL.
    Row(Vec<Option<Vec<u8>>>),
    /// The statement is finished.
    Done,
    /// The engine reported an error.
    Failed(EngineError),
}

/// The index of the first outcome that is not a row: where the cursor stops.
pub open spec fn first_stop(outcomes: Seq<StepOutcome>) -> int
    decreases outcomes.len(),
{
    if outcomes.len() == 0 {
        0
    } else if !(outcomes[0] is Row) {
        0
    } else {
        1 + first_stop(outcomes.skip(1))
    }
}

/// The row payloads of a prefix of step outcomes.
pub open spec fn rows_of(outcomes: Seq<StepOutcome>, n: int) -> Seq<Vec<Option<Vec<u8>>>> {
    outcomes.take(n).map(|i: int, o: StepOutcome| o->Row_0)
}

/// Drains a statement's cursor: takes the engine's step answers in order and
/// collects the rows that came before the first stop. A `Done` stop yields
/// the rows; a `Failed` stop surfaces the engine's error and discards the
/// rows read so far.
#[verifier::loop_isolation(false)]
pub fn collect_rows(outcomes: Vec<StepOutcome>) -> (r: Result<Vec<Vec<Option<Vec<u8>>>>, Error>)
    requires
        first_stop(outcomes@) < outcomes@.len(),
    ensures
        ({
            let stop = first_stop(outcomes@);
            match outcomes@[stop] {
                StepOutcome::Done => match r {
                    Ok(rows) => rows@ == rows_of(outcomes@, stop),
                    Err(_) => false,
                },
                StepOutcome::Failed(e) => r == Err::<Vec<Vec<Option<Vec<u8>>>>, Error>(
                    Error::DatabaseError(e),
                ),
                StepOutcome::Row(_) => false,
            }
        }),
{
    let ghost orig = outcomes@;
    let mut outcomes = outcomes;
    let total: usize = outcomes.len();
    let mut rows: Vec<Vec<Option<Vec<u8>>>> = Vec::new();
    let mut k: usize = 0;
    proof {
        lemma_first_stop_bounds(orig);
        assert(rows@ =~= rows_of(orig, 0));
    }
    loop
        invariant
            total == orig.len(),
            k + outcomes.len() == total,
            outcomes@ == orig.skip(k as int),
            k <= first_stop(orig),
            forall|i: int| 0 <= i < k ==> (#[trigger] orig[i]) is Row,
            rows@ == rows_of(orig, k as int),
        decreases outcomes@.len(),
    {
        let ghost pre = outcomes@;
        proof {
            lemma_first_stop_bounds(orig);
            assert(pre.len() > 0) by {
                assert(first_stop(orig) < orig.len());
                lemma_first_stop_skip(orig, k as int);
            }
        }
        let next = outcomes.remove(0);
        proof {
            assert(outcomes@ =~= pre.skip(1));
            assert(pre.skip(1) =~= orig.skip(k as int + 1));
            assert(next == orig[k as int]);
        }
        match next {
            StepOutcome::Row(row) => {
                rows.push(row);
                proof {
                    lemma_first_stop_skip(orig, k as int);
                    assert(first_stop(orig.skip(k as int)) != 0);
                    assert(rows@ =~= rows_of(orig, k as int + 1));
                }
                k = k + 1;
            },
            StepOutcome::Done => {
                proof {
                    lemma_first_stop_at(orig, k as int);
                }
                return Ok(rows);
            },
            StepOutcome::Failed(e) => {
                proof {
                    lemma_first_stop_at(orig, k as int);
                }
                return Err(Error::DatabaseError(e));
            },
        }
    }
}

/// The first stop never lies past the end.
proof fn lemma_first_stop_bounds(outcomes: Seq<StepOutcome>)
    ensures
        0 <= first_stop(outcomes) <= outcomes.len(),
        first_stop(outcomes) < outcomes.len() ==> !(outcomes[first_stop(outcomes)] is Row),
        forall|i: int| 0 <= i < first_stop(outcomes) ==> (#[trigger] outcomes[i]) is Row,
    decreases outcomes.len(),
{
    if outcomes.len() > 0 && outcomes[0] is Row {
        lemma_first_stop_bounds(outcomes.skip(1));
        let rest = outcomes.skip(1);
        assert forall|i: int| 0 <= i < first_stop(outcomes) implies (#[trigger] outcomes[i])
            is Row by {
            if i > 0 {
                assert(rest[i - 1] == outcomes[i]);
            }
        }
    }
}

/// Skipping `k` leading rows moves the first stop back by `k`.
proof fn lemma_first_stop_skip(outcomes: Seq<StepOutcome>, k: int)
    requires
        0 <= k <= first_stop(outcomes),
        forall|i: int| 0 <= i < k ==> (#[trigger] outcomes[i]) is Row,
    ensures
        first_stop(outcomes.skip(k)) == first_stop(outcomes) - k,
    decreases k,
{
    lemma_first_stop_bounds(outcomes);
    if k > 0 {
        assert(outcomes[0] is Row);
        assert(outcomes.len() > 0);
        assert(first_stop(outcomes) == 1 + first_stop(outcomes.skip(1)));
        assert(k <= outcomes.len());
        assert(outcomes.skip(1).skip(k - 1) =~= outcomes.skip(k));
        assert forall|i: int| 0 <= i < k - 1 implies (#[trigger] outcomes.skip(1)[i]) is Row by {
            assert(outcomes.skip(1)[i] == outcomes[i + 1]);
        }
        lemma_first_stop_skip(outcomes.skip(1), k - 1);
    } else {
        assert(outcomes.skip(0) =~= outcomes);
    }
}

/// When the first `k` outcomes are rows and outcome `k` is not, the first
/// stop is exactly `k`.
proof fn lemma_first_stop_at(outcomes: Seq<StepOutcome>, k: int)
    requires
        0 <= k < outcomes.len(),
        !(outcomes[k] is Row),
        forall|i: int| 0 <= i < k ==> (#[trigger] outcomes[i]) is Row,
    ensures
        first_stop(outcomes) == k,
    decreases k,
{
    if k == 0 {
    } else {
        assert(outcomes.skip(1)[k - 1] == outcomes[k]);
        assert forall|i: int| 0 <= i < k - 1 implies (#[trigger] outcomes.skip(1)[i]) is Row by {
            assert(outcomes.skip(1)[i] == outcomes[i + 1]);
        }
        lemma_first_stop_at(outcomes.skip(1), k - 1);
    }
}

} // verus!
