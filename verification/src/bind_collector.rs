//! Collecting serialized bind parameters for one statement execution.

use vstd::prelude::*;
use crate::error::Error;

verus! {

/// The engine-side type of one bind parameter.
#[derive(Debug, Clone, Copy, PartialEq, Eq, Structural)]
pub enum SqliteType {
    Binary,
    Text,
    Float,
    Double,
    SmallInt,
    Integer,
    Long,
}

/// Whether a serialized value turned out to be SQL NULL.
#[derive(Debug, Clone, Copy, PartialEq, Eq, Structural)]
pub enum IsNull {
    No,
    Yes,
}

/// Accumulates serialized bind parameters as opaque byte blobs.
///
/// `metadata` and `binds` run in parallel and always have equal length; a
/// `None` bind stands for SQL NULL. `value_is_none` is a third, out-of-band
/// sequence used by statements that must choose between a collected value and
/// an explicit NULL-for-default per named column: an entry whose flag is true
/// consumes no collected value, one whose flag is false consumes the next
/// `metadata`/`binds` pair, in order.
#[derive(Debug)]
pub struct RawBytesBindCollector {
    /// The type of each collected bind parameter, parallel to `binds`.
    pub metadata: Vec<SqliteType>,
    /// The serialized bytes of each bind parameter, parallel to `metadata`.
    pub binds: Vec<Option<Vec<u8>>>,
    /// Per named column: its name, its type, and whether the caller omitted
    /// its value (true means bind NULL so the column default applies).
    pub value_is_none: Vec<(String, SqliteType, bool)>,
}

impl RawBytesBindCollector {
    /// Constructs an empty `RawBytesBindCollector`.
    pub fn new() -> (r: RawBytesBindCollector)
        ensures
            r.metadata@ == Seq::<SqliteType>::empty(),
            r.binds@ == Seq::<Option<Vec<u8>>>::empty(),
            r.value_is_none@ == Seq::<(String, SqliteType, bool)>::empty(),
    {
        RawBytesBindCollector { metadata: Vec::new(), binds: Vec::new(), value_is_none: Vec::new() }
    }

    /// Both parallel sequences have the same length.
    pub open spec fn wf(self) -> bool {
        self.metadata@.len() == self.binds@.len()
    }

    /// Takes the outcome of serializing one bind value (the serialization
    /// capability is the caller's) and collects it. On `Ok` the byte buffer
    /// is appended, as `None` when the value was NULL; on `Err` nothing is
    /// changed and the cause comes back wrapped as a serialization error.
    pub fn push_bound_value(
        &mut self,
        bind: Result<(Vec<u8>, IsNull), String>,
        metadata: SqliteType,
    ) -> (r: Result<(), Error>)
        ensures
            match bind {
                Ok((bytes, is_null)) => {
                    &&& r is Ok
                    &&& final(self).metadata@ == old(self).metadata@.push(metadata)
                    &&& final(self).binds@ == old(self).binds@.push(
                        if is_null is Yes { None } else { Some(bytes) },
                    )
                    &&& final(self).value_is_none@ == old(self).value_is_none@
                },
                Err(cause) => {
                    &&& r == Err::<(), Error>(Error::SerializationError(cause))
                    &&& *final(self) == *old(self)
                },
            },
    {
        match bind {
            Ok((bytes, is_null)) => {
                match is_null {
                    IsNull::No => self.binds.push(Some(bytes)),
                    IsNull::Yes => self.binds.push(None),
                }
                self.metadata.push(metadata);
                Ok(())
            },
            Err(cause) => Err(Error::SerializationError(cause)),
        }
    }

    /// Records whether the named column was explicitly left without a value,
    /// so that applying the collected binds can choose between the collected
    /// value and NULL-for-default.
    pub fn push_is_value_none(&mut self, column_name: String, sql_type: SqliteType, is_none: bool)
        ensures
            final(self).value_is_none@ == old(self).value_is_none@.push(
                (column_name, sql_type, is_none),
            ),
            final(self).metadata@ == old(self).metadata@,
            final(self).binds@ == old(self).binds@,
    {
        self.value_is_none.push((column_name, sql_type, is_none));
    }
}

/// How many entries of `flags` have their omitted-flag false, i.e. consume a
/// collected `metadata`/`binds` pair.
pub open spec fn flags_false_count(flags: Seq<(String, SqliteType, bool)>) -> nat
    decreases flags.len(),
{
    if flags.len() == 0 {
        0
    } else {
        (if flags[0].2 { 0nat } else { 1nat }) + flags_false_count(flags.skip(1))
    }
}

/// The bind list that the resolution walk produces: entries flagged omitted
/// become a NULL bind of the column's declared type, the rest take the
/// collected pairs in order.
pub open spec fn resolved_binds(
    flags: Seq<(String, SqliteType, bool)>,
    metadata: Seq<SqliteType>,
    binds: Seq<Option<Vec<u8>>>,
) -> Seq<(SqliteType, Option<Vec<u8>>)>
    decreases flags.len(),
{
    if flags.len() == 0 {
        Seq::empty()
    } else if flags[0].2 {
        seq![(flags[0].1, None::<Vec<u8>>)] + resolved_binds(flags.skip(1), metadata, binds)
    } else {
        seq![(metadata[0], binds[0])] + resolved_binds(
            flags.skip(1),
            metadata.skip(1),
            binds.skip(1),
        )
    }
}

/// Walks the `value_is_none` sequence in order and produces the bind list to
/// apply to a statement: NULL of the declared type at each omitted entry, the
/// next collected pair at each present entry. The walk must consume exactly
/// as many collected pairs as there are present entries; a mismatch is an
/// upstream query-construction bug, which the precondition rules out.
pub fn resolve_binds(
    flags: Vec<(String, SqliteType, bool)>,
    metadata: Vec<SqliteType>,
    binds: Vec<Option<Vec<u8>>>,
) -> (r: Vec<(SqliteType, Option<Vec<u8>>)>)
    requires
        metadata@.len() == binds@.len(),
        flags_false_count(flags@) == binds@.len(),
    ensures
        r@ == resolved_binds(flags@, metadata@, binds@),
{
    let mut flags = flags;
    let mut metadata = metadata;
    let mut binds = binds;
    let ghost orig_flags = flags@;
    let ghost orig_metadata = metadata@;
    let ghost orig_binds = binds@;
    let mut out: Vec<(SqliteType, Option<Vec<u8>>)> = Vec::new();
    while flags.len() > 0
        invariant
            metadata@.len() == binds@.len(),
            flags_false_count(flags@) == binds@.len(),
            resolved_binds(orig_flags, orig_metadata, orig_binds) == out@ + resolved_binds(
                flags@,
                metadata@,
                binds@,
            ),
        decreases flags.len(),
    {
        let ghost pre_flags = flags@;
        let ghost pre_metadata = metadata@;
        let ghost pre_binds = binds@;
        let (_column_name, tpe, is_none) = flags.remove(0);
        assert(flags@ == pre_flags.skip(1));
        if is_none {
            out.push((tpe, None));
        } else {
            let m = metadata.remove(0);
            let b = binds.remove(0);
            assert(metadata@ == pre_metadata.skip(1));
            assert(binds@ == pre_binds.skip(1));
            out.push((m, b));
        }
        proof {
            assert(resolved_binds(orig_flags, orig_metadata, orig_binds) == out@ + resolved_binds(
                flags@,
                metadata@,
                binds@,
            ));
        }
    }
    proof {
        assert(resolved_binds(flags@, metadata@, binds@) == Seq::<
            (SqliteType, Option<Vec<u8>>),
        >::empty());
        assert(out@ + Seq::<(SqliteType, Option<Vec<u8>>)>::empty() == out@);
    }
    out
}

/// The positions of the resolved bind list that came from omitted entries are
/// exactly the flagged positions, NULL stands at each of them, and the values
/// at the remaining positions are the collected pairs in their original
/// order: how many entries are flagged never reorders the present values.
pub proof fn lemma_resolution_order(
    flags: Seq<(String, SqliteType, bool)>,
    metadata: Seq<SqliteType>,
    binds: Seq<Option<Vec<u8>>>,
)
    requires
        metadata.len() == binds.len(),
        flags_false_count(flags) == binds.len(),
    ensures
        resolved_binds(flags, metadata, binds).len() == flags.len(),
        forall|i: int|
            0 <= i < flags.len() && flags[i].2 ==> #[trigger] resolved_binds(
                flags,
                metadata,
                binds,
            )[i] == (flags[i].1, None::<Vec<u8>>),
        forall|i: int|
            0 <= i < flags.len() && !flags[i].2 ==> #[trigger] resolved_binds(
                flags,
                metadata,
                binds,
            )[i] == (
                metadata[flags_false_count(flags.take(i)) as int],
                binds[flags_false_count(flags.take(i)) as int],
            ),
    decreases flags.len(),
{
    if flags.len() == 0 {
    } else {
        let rest = flags.skip(1);
        let whole = resolved_binds(flags, metadata, binds);
        assert(flags.take(0).len() == 0);
        assert(flags_false_count(flags.take(0)) == 0);
        if flags[0].2 {
            lemma_resolution_order(rest, metadata, binds);
            let sub = resolved_binds(rest, metadata, binds);
            assert(whole == seq![(flags[0].1, None::<Vec<u8>>)] + sub);
            assert(whole[0] == (flags[0].1, None::<Vec<u8>>));
            assert forall|i: int| 1 <= i < flags.len() implies flags_false_count(
                #[trigger] flags.take(i),
            ) == flags_false_count(rest.take(i - 1)) by {
                lemma_false_count_skip_take(flags, i);
            }
            assert forall|i: int| 1 <= i < flags.len() implies #[trigger] whole[i] == sub[i
                - 1] by {}
        } else {
            lemma_resolution_order(rest, metadata.skip(1), binds.skip(1));
            let sub = resolved_binds(rest, metadata.skip(1), binds.skip(1));
            assert(whole == seq![(metadata[0], binds[0])] + sub);
            assert(whole[0] == (metadata[0], binds[0]));
            assert forall|i: int| 1 <= i < flags.len() implies flags_false_count(
                #[trigger] flags.take(i),
            ) == flags_false_count(rest.take(i - 1)) + 1 by {
                lemma_false_count_skip_take(flags, i);
            }
            assert forall|i: int| 1 <= i < flags.len() implies #[trigger] whole[i] == sub[i
                - 1] by {}
            assert forall|i: int| 1 <= i < flags.len() && !flags[i].2 implies #[trigger] whole[i]
                == (
                metadata[flags_false_count(flags.take(i)) as int],
                binds[flags_false_count(flags.take(i)) as int],
            ) by {
                let c = flags_false_count(rest.take(i - 1)) as int;
                assert(rest[i - 1] == flags[i]);
                assert(sub[i - 1] == (metadata.skip(1)[c], binds.skip(1)[c]));
                lemma_false_count_take_bound(rest, i - 1);
                assert(metadata.skip(1)[c] == metadata[c + 1]);
                assert(binds.skip(1)[c] == binds[c + 1]);
            }
        }
    }
}

/// A prefix ending just before a present entry counts strictly fewer present
/// entries than the whole sequence.
proof fn lemma_false_count_take_bound(flags: Seq<(String, SqliteType, bool)>, i: int)
    requires
        0 <= i < flags.len(),
        !flags[i].2,
    ensures
        flags_false_count(flags.take(i)) < flags_false_count(flags),
    decreases flags.len(),
{
    if i == 0 {
        assert(flags.take(0).len() == 0);
        assert(flags_false_count(flags) == 1 + flags_false_count(flags.skip(1)));
    } else {
        lemma_false_count_take_bound(flags.skip(1), i - 1);
        lemma_false_count_skip_take(flags, i);
    }
}

/// Unfolds the present-entry count of a prefix at its first element.
proof fn lemma_false_count_skip_take(flags: Seq<(String, SqliteType, bool)>, i: int)
    requires
        1 <= i <= flags.len(),
    ensures
        flags_false_count(flags.take(i)) == (if flags[0].2 { 0nat } else { 1nat })
            + flags_false_count(flags.skip(1).take(i - 1)),
{
    assert(flags.take(i).len() == i);
    assert(flags.take(i)[0] == flags[0]);
    assert(flags.take(i).skip(1) =~= flags.skip(1).take(i - 1));
}

} // verus!
