//! Caching prepared statements by their SQL text.
//!
//! The cache holds at most one prepared statement per distinct SQL text and
//! never evicts: it is bounded by the number of distinct query shapes, not by
//! data volume. Statements whose shape depends on the data (embedded literal
//! fragments, variable-length value lists) are prepared fresh every time and
//! never inserted.

use vstd::prelude::*;
use crate::error::{EngineError, Error};
use crate::statement::Statement;

verus! {

/// A statement handed out by the cache: either a fresh one the cache refused
/// to keep, or one backed by a cache entry.
#[derive(Debug, PartialEq)]
pub enum MaybeCached {
    CannotCache(Statement),
    Cached(Statement),
}

impl MaybeCached {
    /// The statement itself, however it is owned.
    pub open spec fn statement(self) -> Statement {
        match self {
            MaybeCached::CannotCache(s) => s,
            MaybeCached::Cached(s) => s,
        }
    }
}

/// The SQL texts of the cache entries, in insertion order.
pub open spec fn keys_of(entries: Seq<(String, Statement)>) -> Seq<Seq<char>> {
    entries.map(|i: int, e: (String, Statement)| e.0@)
}

/// How one lookup changes the set of cached keys: a cacheable statement that
/// was missing and compiled successfully is added; everything else leaves the
/// cache as it was.
pub open spec fn cache_keys_after(
    keys: Seq<Seq<char>>,
    sql: Seq<char>,
    safe: bool,
    prepare_ok: bool,
) -> Seq<Seq<char>> {
    if safe && prepare_ok && !keys.contains(sql) {
        keys.push(sql)
    } else {
        keys
    }
}

/// Maps normalized SQL text to a reusable prepared statement.
#[derive(Debug, PartialEq)]
pub struct StatementCache {
    pub entries: Vec<(String, Statement)>,
}

impl StatementCache {
    /// Keys are distinct, and every stored statement is the reset compiled
    /// form of its own key.
    pub open spec fn wf(self) -> bool {
        &&& forall|i: int, j: int|
            0 <= i < j < self.entries@.len() ==> (#[trigger] self.entries@[i]).0@ != (
            #[trigger] self.entries@[j]).0@
        &&& forall|i: int|
            0 <= i < self.entries@.len() ==> (#[trigger] self.entries@[i]).1.sql@
                == self.entries@[i].0@ && self.entries@[i].1.binds@.len() == 0
    }

    /// An empty cache.
    pub fn new() -> (r: StatementCache)
        ensures
            r.entries@.len() == 0,
            r.wf(),
    {
        StatementCache { entries: Vec::new() }
    }

    /// How many statements are cached.
    pub fn len(&self) -> (r: usize)
        ensures
            r == self.entries@.len(),
    {
        self.entries.len()
    }

    /// Whether a statement for this SQL text is cached.
    pub fn contains(&self, sql: &String) -> (r: bool)
        ensures
            r == keys_of(self.entries@).contains(sql@),
    {
        let mut i: usize = 0;
        while i < self.entries.len()
            invariant
                i <= self.entries@.len(),
                forall|j: int| 0 <= j < i ==> (#[trigger] self.entries@[j]).0@ != sql@,
            decreases self.entries@.len() - i,
        {
            if self.entries[i].0 == *sql {
                proof {
                    assert(keys_of(self.entries@)[i as int] == sql@);
                }
                return true;
            }
            i = i + 1;
        }
        proof {
            assert forall|j: int| 0 <= j < keys_of(self.entries@).len() implies keys_of(
                self.entries@,
            )[j] != sql@ by {
                assert(keys_of(self.entries@)[j] == self.entries@[j].0@);
            }
        }
        false
    }

    /// Resolves one statement: uncacheable shapes are compiled fresh and not
    /// kept; a cached statement comes back reset; a missing cacheable one is
    /// compiled (`prepare_outcome` is the engine's answer, consulted only
    /// then) and inserted. The statement handed out always starts with no
    /// bound values.
    #[verifier::loop_isolation(false)]
    pub fn cached_statement(
        &mut self,
        sql: String,
        safe: bool,
        prepare_outcome: Result<(), EngineError>,
    ) -> (r: Result<MaybeCached, Error>)
        requires
            old(self).wf(),
        ensures
            final(self).wf(),
            keys_of(final(self).entries@) == cache_keys_after(
                keys_of(old(self).entries@),
                sql@,
                safe,
                prepare_outcome is Ok,
            ),
            ({
                let hit = safe && keys_of(old(self).entries@).contains(sql@);
                if hit {
                    match r {
                        Ok(mc) => mc is Cached && mc.statement().sql@ == sql@
                            && mc.statement().binds@.len() == 0,
                        Err(_) => false,
                    }
                } else {
                    match prepare_outcome {
                        Ok(()) => match r {
                            Ok(mc) => (mc is Cached <==> safe) && mc.statement().sql@ == sql@
                                && mc.statement().binds@.len() == 0,
                            Err(_) => false,
                        },
                        Err(e) => r == Err::<MaybeCached, Error>(Error::DatabaseError(e)),
                    }
                }
            }),
    {
        let ghost old_keys = keys_of(self.entries@);
        if !safe {
            let st = Statement::prepare(sql.as_str(), prepare_outcome);
            match st {
                Ok(s) => Ok(MaybeCached::CannotCache(s)),
                Err(e) => Err(e),
            }
        } else {
            let mut i: usize = 0;
            while i < self.entries.len()
                invariant
                    i <= self.entries@.len(),
                    forall|j: int| 0 <= j < i ==> (#[trigger] self.entries@[j]).0@ != sql@,
                decreases self.entries@.len() - i,
            {
                if self.entries[i].0 == *(&sql) {
                    proof {
                        assert(keys_of(self.entries@)[i as int] == sql@);
                        assert(old_keys.contains(sql@));
                    }
                    let fresh = Statement {
                        sql: self.entries[i].0.clone(),
                        binds: Vec::new(),
                    };
                    return Ok(MaybeCached::Cached(fresh));
                }
                i = i + 1;
            }
            proof {
                assert forall|j: int| 0 <= j < old_keys.len() implies old_keys[j] != sql@ by {
                    assert(old_keys[j] == self.entries@[j].0@);
                }
                assert(!old_keys.contains(sql@));
            }
            match prepare_outcome {
                Ok(()) => {
                    let stored = Statement { sql: sql.clone(), binds: Vec::new() };
                    let handed = Statement { sql: sql.clone(), binds: Vec::new() };
                    self.entries.push((sql, stored));
                    proof {
                        assert(keys_of(self.entries@) =~= old_keys.push(
                            self.entries@.last().0@,
                        ));
                    }
                    Ok(MaybeCached::Cached(handed))
                },
                Err(e) => Err(Error::DatabaseError(e)),
            }
        }
    }
}

/// A cacheable statement, looked up twice, is compiled and inserted once and
/// found the second time: from an empty cache the size settles at one entry,
/// and a second lookup changes nothing.
pub proof fn lemma_statement_reuse(keys: Seq<Seq<char>>, sql: Seq<char>)
    ensures
        cache_keys_after(keys, sql, true, true).contains(sql),
        cache_keys_after(cache_keys_after(keys, sql, true, true), sql, true, true)
            == cache_keys_after(keys, sql, true, true),
        !keys.contains(sql) ==> cache_keys_after(keys, sql, true, true).len() == keys.len() + 1,
        keys.len() == 0 ==> cache_keys_after(cache_keys_after(keys, sql, true, true), sql, true, true).len()
            == 1,
{
    let once = cache_keys_after(keys, sql, true, true);
    if !keys.contains(sql) {
        assert(once == keys.push(sql));
        assert(once[keys.len() as int] == sql);
        assert(once.contains(sql));
    }
}

/// A statement whose shape is not fixed is never inserted: the cache stays
/// exactly as it was, however often such a statement runs.
pub proof fn lemma_uncacheable_statement_never_inserted(
    keys: Seq<Seq<char>>,
    sql: Seq<char>,
    prepare_ok: bool,
)
    ensures
        cache_keys_after(keys, sql, false, prepare_ok) == keys,
{
}

} // verus!
