//! Transaction state: a depth counter and the SQL each transition issues.
//!
//! Depth 0 means no open transaction. The outermost level begins with a
//! `BEGIN` variant and ends with `COMMIT` or `ROLLBACK`; deeper levels are
//! emulated with savepoints, one per level, named after the depth at which
//! they were created.

use vstd::prelude::*;
use crate::error::{EngineError, Error};

verus! {

/// The decimal digit character for `d`.
pub open spec fn dec_digit(d: nat) -> char {
    if d == 0 {
        '0'
    } else if d == 1 {
        '1'
    } else if d == 2 {
        '2'
    } else if d == 3 {
        '3'
    } else if d == 4 {
        '4'
    } else if d == 5 {
        '5'
    } else if d == 6 {
        '6'
    } else if d == 7 {
        '7'
    } else if d == 8 {
        '8'
    } else {
        '9'
    }
}

/// The decimal rendering of `n`, most significant digit first.
pub open spec fn dec_str(n: nat) -> Seq<char>
    decreases n,
{
    if n < 10 {
        seq![dec_digit(n)]
    } else {
        dec_str(n / 10).push(dec_digit(n % 10))
    }
}

/// The statement that opens one more transaction level at depth `depth`.
pub open spec fn begin_sql_spec(depth: nat) -> Seq<char> {
    if depth == 0 {
        "BEGIN"@
    } else {
        "SAVEPOINT diesel_savepoint_"@ + dec_str(depth)
    }
}

/// The statement that commits the innermost level when the depth is `depth`.
pub open spec fn commit_sql_spec(depth: nat) -> Seq<char> {
    if depth <= 1 {
        "COMMIT"@
    } else {
        "RELEASE SAVEPOINT diesel_savepoint_"@ + dec_str((depth - 1) as nat)
    }
}

/// The statement that rolls back the innermost level when the depth is
/// `depth`.
pub open spec fn rollback_sql_spec(depth: nat) -> Seq<char> {
    if depth <= 1 {
        "ROLLBACK"@
    } else {
        "ROLLBACK TO SAVEPOINT diesel_savepoint_"@ + dec_str((depth - 1) as nat)
    }
}

/// The decimal digits of `d` as fixed text.
fn digit_str(d: u64) -> (r: &'static str)
    requires
        d < 10,
    ensures
        r@ == seq![dec_digit(d as nat)],
{
    proof {
        reveal_strlit("0");
        reveal_strlit("1");
        reveal_strlit("2");
        reveal_strlit("3");
        reveal_strlit("4");
        reveal_strlit("5");
        reveal_strlit("6");
        reveal_strlit("7");
        reveal_strlit("8");
        reveal_strlit("9");
    }
    if d == 0 {
        "0"
    } else if d == 1 {
        "1"
    } else if d == 2 {
        "2"
    } else if d == 3 {
        "3"
    } else if d == 4 {
        "4"
    } else if d == 5 {
        "5"
    } else if d == 6 {
        "6"
    } else if d == 7 {
        "7"
    } else if d == 8 {
        "8"
    } else {
        "9"
    }
}

/// Appends the decimal rendering of `n` to `out`.
fn push_dec(n: u64, out: &mut String)
    ensures
        final(out)@ == old(out)@ + dec_str(n as nat),
    decreases n,
{
    if n < 10 {
        out.append(digit_str(n));
        proof {
            assert(final(out)@ =~= old(out)@ + dec_str(n as nat));
        }
    } else {
        let ghost mid = old(out)@ + dec_str((n / 10) as nat);
        push_dec(n / 10, out);
        out.append(digit_str(n % 10));
        proof {
            assert(dec_str(n as nat) == dec_str((n as nat) / 10).push(dec_digit((n as nat) % 10)));
            assert((n / 10) as nat == (n as nat) / 10);
            assert((n % 10) as nat == (n as nat) % 10);
            assert(final(out)@ =~= old(out)@ + dec_str(n as nat));
        }
    }
}

/// Tracks how many transaction levels are open on one connection.
#[derive(Debug, PartialEq)]
pub struct AnsiTransactionManager {
    pub transaction_depth: u64,
}

impl AnsiTransactionManager {
    /// A manager with no open transaction.
    pub fn new() -> (r: AnsiTransactionManager)
        ensures
            r.transaction_depth == 0,
    {
        AnsiTransactionManager { transaction_depth: 0 }
    }

    /// The statement that opening one more level will issue: `BEGIN` at the
    /// outermost level, a savepoint below it.
    pub fn begin_transaction_sql_text(&self) -> (r: String)
        ensures
            r@ == begin_sql_spec(self.transaction_depth as nat),
    {
        if self.transaction_depth == 0 {
            "BEGIN".to_owned()
        } else {
            let mut s = "SAVEPOINT diesel_savepoint_".to_owned();
            push_dec(self.transaction_depth, &mut s);
            s
        }
    }

    /// The statement that committing the innermost level will issue, or an
    /// error when no transaction is open.
    pub fn commit_sql_text(&self) -> (r: Result<String, Error>)
        ensures
            self.transaction_depth == 0 ==> r == Err::<String, Error>(Error::NotInTransaction),
            self.transaction_depth > 0 ==> match r {
                Ok(s) => s@ == commit_sql_spec(self.transaction_depth as nat),
                Err(_) => false,
            },
    {
        if self.transaction_depth == 0 {
            Err(Error::NotInTransaction)
        } else if self.transaction_depth == 1 {
            Ok("COMMIT".to_owned())
        } else {
            let mut s = "RELEASE SAVEPOINT diesel_savepoint_".to_owned();
            push_dec(self.transaction_depth - 1, &mut s);
            Ok(s)
        }
    }

    /// The statement that rolling back the innermost level will issue, or an
    /// error when no transaction is open.
    pub fn rollback_sql_text(&self) -> (r: Result<String, Error>)
        ensures
            self.transaction_depth == 0 ==> r == Err::<String, Error>(Error::NotInTransaction),
            self.transaction_depth > 0 ==> match r {
                Ok(s) => s@ == rollback_sql_spec(self.transaction_depth as nat),
                Err(_) => false,
            },
    {
        if self.transaction_depth == 0 {
            Err(Error::NotInTransaction)
        } else if self.transaction_depth == 1 {
            Ok("ROLLBACK".to_owned())
        } else {
            let mut s = "ROLLBACK TO SAVEPOINT diesel_savepoint_".to_owned();
            push_dec(self.transaction_depth - 1, &mut s);
            Ok(s)
        }
    }

    /// Applies the engine's answer to the begin statement: one more level on
    /// success, no change on failure.
    pub fn begin_transaction(&mut self, exec_outcome: Result<(), EngineError>) -> (r: Result<
        (),
        Error,
    >)
        requires
            old(self).transaction_depth < u64::MAX,
        ensures
            match exec_outcome {
                Ok(()) => r is Ok && final(self).transaction_depth == old(self).transaction_depth
                    + 1,
                Err(e) => r == Err::<(), Error>(Error::DatabaseError(e)) && final(self).transaction_depth == old(self).transaction_depth,
            },
    {
        match exec_outcome {
            Ok(()) => {
                self.transaction_depth = self.transaction_depth + 1;
                Ok(())
            },
            Err(e) => Err(Error::DatabaseError(e)),
        }
    }

    /// Opens the outermost level with a caller-chosen `BEGIN` variant; it is
    /// an error when a transaction is already open, and then nothing changes.
    pub fn begin_transaction_sql(&mut self, exec_outcome: Result<(), EngineError>) -> (r: Result<
        (),
        Error,
    >)
        ensures
            old(self).transaction_depth > 0 ==> r == Err::<(), Error>(Error::AlreadyInTransaction)
                && final(self).transaction_depth == old(self).transaction_depth,
            old(self).transaction_depth == 0 ==> match exec_outcome {
                Ok(()) => r is Ok && final(self).transaction_depth == 1,
                Err(e) => r == Err::<(), Error>(Error::DatabaseError(e)) && final(self).transaction_depth == 0,
            },
    {
        if self.transaction_depth > 0 {
            Err(Error::AlreadyInTransaction)
        } else {
            match exec_outcome {
                Ok(()) => {
                    self.transaction_depth = 1;
                    Ok(())
                },
                Err(e) => Err(Error::DatabaseError(e)),
            }
        }
    }

    /// Applies the engine's answer to the commit statement: one level fewer
    /// on success, no change on failure (the transaction is then still open).
    pub fn commit_transaction(&mut self, exec_outcome: Result<(), EngineError>) -> (r: Result<
        (),
        Error,
    >)
        ensures
            old(self).transaction_depth == 0 ==> r == Err::<(), Error>(Error::NotInTransaction)
                && final(self).transaction_depth == 0,
            old(self).transaction_depth > 0 ==> match exec_outcome {
                Ok(()) => r is Ok && final(self).transaction_depth == old(self).transaction_depth
                    - 1,
                Err(e) => r == Err::<(), Error>(Error::DatabaseError(e)) && final(self).transaction_depth == old(self).transaction_depth,
            },
    {
        if self.transaction_depth == 0 {
            Err(Error::NotInTransaction)
        } else {
            match exec_outcome {
                Ok(()) => {
                    self.transaction_depth = self.transaction_depth - 1;
                    Ok(())
                },
                Err(e) => Err(Error::DatabaseError(e)),
            }
        }
    }

    /// Applies the engine's answer to the rollback statement, symmetrically
    /// to `commit_transaction`.
    pub fn rollback_transaction(&mut self, exec_outcome: Result<(), EngineError>) -> (r: Result<
        (),
        Error,
    >)
        ensures
            old(self).transaction_depth == 0 ==> r == Err::<(), Error>(Error::NotInTransaction)
                && final(self).transaction_depth == 0,
            old(self).transaction_depth > 0 ==> match exec_outcome {
                Ok(()) => r is Ok && final(self).transaction_depth == old(self).transaction_depth
                    - 1,
                Err(e) => r == Err::<(), Error>(Error::DatabaseError(e)) && final(self).transaction_depth == old(self).transaction_depth,
            },
    {
        if self.transaction_depth == 0 {
            Err(Error::NotInTransaction)
        } else {
            match exec_outcome {
                Ok(()) => {
                    self.transaction_depth = self.transaction_depth - 1;
                    Ok(())
                },
                Err(e) => Err(Error::DatabaseError(e)),
            }
        }
    }
}

} // verus!
