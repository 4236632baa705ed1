//! A rendered view of one abstract query: the shape the query layer hands to
//! the connection.
//!
//! A fragment is an ordered list of parts. Fixed SQL text and fixed-shape
//! sub-selects leave a statement cacheable; embedded literal fragments and
//! variable-length value lists make its shape depend on the data, so such a
//! statement is never cached. Bind parts carry the outcome of serializing
//! their value, since serialization is the query layer's capability, not this
//! crate's.

use vstd::prelude::*;
use crate::bind_collector::{flags_false_count, IsNull, RawBytesBindCollector, SqliteType};
use crate::error::Error;

verus! {

/// Where the value of one named bind parameter comes from.
#[derive(Debug, PartialEq)]
pub enum BindSource {
    /// The caller supplied no value: bind NULL so the column default applies.
    Omitted,
    /// The caller supplied a value; this is the outcome of serializing it.
    Supplied(Result<(Vec<u8>, IsNull), String>),
}

/// One named bind parameter.
#[derive(Debug, PartialEq)]
pub struct BindParam {
    pub column_name: String,
    pub metadata: SqliteType,
    pub value: BindSource,
}

/// A value list of dynamic length, expanded into one placeholder per value.
#[derive(Debug, PartialEq)]
pub struct InListParam {
    pub column_name: String,
    pub metadata: SqliteType,
    pub values: Vec<Result<(Vec<u8>, IsNull), String>>,
}

/// One part of a rendered query.
#[derive(Debug, PartialEq)]
pub enum SqlPart {
    /// Fixed SQL text.
    Sql(String),
    /// An embedded literal SQL fragment: rendered as given, never cached.
    Literal(String),
    /// One bind parameter, rendered as a placeholder.
    Bind(BindParam),
    /// A value list of dynamic length: one placeholder per value, never
    /// cached because its shape changes with the list's length.
    InList(InListParam),
    /// A fixed-shape nested select, rendered in parentheses.
    Subselect(String),
}

/// An abstract query, rendered to its parts.
#[derive(Debug, PartialEq)]
pub struct QueryFragment {
    pub parts: Vec<SqlPart>,
}

/// `n` comma-separated placeholders.
pub open spec fn placeholders(n: nat) -> Seq<char>
    decreases n,
{
    if n == 0 {
        Seq::empty()
    } else if n == 1 {
        "?"@
    } else {
        placeholders((n - 1) as nat) + ", ?"@
    }
}

/// The SQL text one part renders to.
pub open spec fn sql_of_part(p: SqlPart) -> Seq<char> {
    match p {
        SqlPart::Sql(s) => s@,
        SqlPart::Literal(s) => s@,
        SqlPart::Bind(_) => "?"@,
        SqlPart::InList(il) => placeholders(il.values@.len()),
        SqlPart::Subselect(s) => "("@ + s@ + ")"@,
    }
}

/// The SQL text a part list renders to.
pub open spec fn sql_of(parts: Seq<SqlPart>) -> Seq<char>
    decreases parts.len(),
{
    if parts.len() == 0 {
        Seq::empty()
    } else {
        sql_of_part(parts[0]) + sql_of(parts.skip(1))
    }
}

/// A part leaves the statement cacheable unless it is an embedded literal or
/// a variable-length value list.
pub open spec fn part_safe(p: SqlPart) -> bool {
    !(p is Literal) && !(p is InList)
}

/// A statement is safe to cache when its shape is fixed: no part is an
/// embedded literal or a variable-length value list.
pub open spec fn safe_to_cache(parts: Seq<SqlPart>) -> bool {
    forall|i: int| 0 <= i < parts.len() ==> part_safe(#[trigger] parts[i])
}

/// All serialization outcomes in a value list succeeded.
pub open spec fn values_ok(vals: Seq<Result<(Vec<u8>, IsNull), String>>) -> bool {
    forall|i: int| 0 <= i < vals.len() ==> (#[trigger] vals[i]) is Ok
}

/// Every serialization outcome a part carries succeeded.
pub open spec fn part_ok(p: SqlPart) -> bool {
    match p {
        SqlPart::Bind(b) => match b.value {
            BindSource::Omitted => true,
            BindSource::Supplied(r) => r is Ok,
        },
        SqlPart::InList(il) => values_ok(il.values@),
        _ => true,
    }
}

/// Every serialization outcome the fragment carries succeeded.
pub open spec fn parts_ok(parts: Seq<SqlPart>) -> bool {
    forall|i: int| 0 <= i < parts.len() ==> part_ok(#[trigger] parts[i])
}

/// The collected byte buffer of one successful serialization outcome.
pub open spec fn bind_of_outcome(r: Result<(Vec<u8>, IsNull), String>) -> Option<Vec<u8>> {
    match r {
        Ok((bytes, is_null)) => if is_null is Yes {
            None
        } else {
            Some(bytes)
        },
        Err(_) => None,
    }
}

/// The type metadata one part contributes to the collector.
pub open spec fn part_metadata(p: SqlPart) -> Seq<SqliteType> {
    match p {
        SqlPart::Bind(b) => match b.value {
            BindSource::Omitted => Seq::empty(),
            BindSource::Supplied(_) => seq![b.metadata],
        },
        SqlPart::InList(il) => Seq::new(il.values@.len(), |i: int| il.metadata),
        _ => Seq::empty(),
    }
}

/// The serialized buffers one part contributes to the collector.
pub open spec fn part_binds(p: SqlPart) -> Seq<Option<Vec<u8>>> {
    match p {
        SqlPart::Bind(b) => match b.value {
            BindSource::Omitted => Seq::empty(),
            BindSource::Supplied(r) => seq![bind_of_outcome(r)],
        },
        SqlPart::InList(il) => Seq::new(il.values@.len(), |i: int| bind_of_outcome(il.values@[i])),
        _ => Seq::empty(),
    }
}

/// The omitted-value entries one part contributes to the collector.
pub open spec fn part_flags(p: SqlPart) -> Seq<(String, SqliteType, bool)> {
    match p {
        SqlPart::Bind(b) => seq![(b.column_name, b.metadata, b.value is Omitted)],
        SqlPart::InList(il) => Seq::new(
            il.values@.len(),
            |i: int| (il.column_name, il.metadata, false),
        ),
        _ => Seq::empty(),
    }
}

/// The type metadata the whole fragment contributes, in order.
pub open spec fn metadata_of(parts: Seq<SqlPart>) -> Seq<SqliteType>
    decreases parts.len(),
{
    if parts.len() == 0 {
        Seq::empty()
    } else {
        part_metadata(parts[0]) + metadata_of(parts.skip(1))
    }
}

/// The serialized buffers the whole fragment contributes, in order.
pub open spec fn binds_of(parts: Seq<SqlPart>) -> Seq<Option<Vec<u8>>>
    decreases parts.len(),
{
    if parts.len() == 0 {
        Seq::empty()
    } else {
        part_binds(parts[0]) + binds_of(parts.skip(1))
    }
}

/// The omitted-value entries the whole fragment contributes, in order.
pub open spec fn flags_of(parts: Seq<SqlPart>) -> Seq<(String, SqliteType, bool)>
    decreases parts.len(),
{
    if parts.len() == 0 {
        Seq::empty()
    } else {
        part_flags(parts[0]) + flags_of(parts.skip(1))
    }
}

/// The first serialization failure in a value list.
pub open spec fn first_error_of_values(vals: Seq<Result<(Vec<u8>, IsNull), String>>) -> Seq<char>
    decreases vals.len(),
{
    if vals.len() == 0 {
        Seq::empty()
    } else {
        match vals[0] {
            Err(cause) => cause@,
            Ok(_) => first_error_of_values(vals.skip(1)),
        }
    }
}

/// The serialization failure one part carries, if any.
pub open spec fn part_error(p: SqlPart) -> Seq<char> {
    match p {
        SqlPart::Bind(b) => match b.value {
            BindSource::Supplied(Err(cause)) => cause@,
            _ => Seq::empty(),
        },
        SqlPart::InList(il) => first_error_of_values(il.values@),
        _ => Seq::empty(),
    }
}

/// The first serialization failure the fragment carries, in collection order.
pub open spec fn first_error_of(parts: Seq<SqlPart>) -> Seq<char>
    decreases parts.len(),
{
    if parts.len() == 0 {
        Seq::empty()
    } else if !part_ok(parts[0]) {
        part_error(parts[0])
    } else {
        first_error_of(parts.skip(1))
    }
}


impl QueryFragment {
    /// Renders the fragment to the SQL text handed to the engine: parts in
    /// order, with one placeholder per bind parameter and per list value.
    pub fn to_sql(&self) -> (r: String)
        ensures
            r@ == sql_of(self.parts@),
    {
        let mut acc = String::new();
        let mut i: usize = 0;
        proof {
            assert(self.parts@.skip(0) =~= self.parts@);
            assert(acc@ + sql_of(self.parts@) =~= sql_of(self.parts@));
        }
        while i < self.parts.len()
            invariant
                i <= self.parts@.len(),
                acc@ + sql_of(self.parts@.skip(i as int)) == sql_of(self.parts@),
            decreases self.parts@.len() - i,
        {
            let ghost suffix = self.parts@.skip(i as int);
            let ghost before = acc@;
            proof {
                assert(suffix[0] == self.parts@[i as int]);
                assert(suffix.skip(1) =~= self.parts@.skip(i as int + 1));
            }
            match &self.parts[i] {
                SqlPart::Sql(s) => acc.append(s.as_str()),
                SqlPart::Literal(s) => acc.append(s.as_str()),
                SqlPart::Bind(_) => acc.append("?"),
                SqlPart::InList(il) => {
                    let ghost at_list = acc@;
                    let mut k: usize = 0;
                    proof {
                        assert(at_list + placeholders(0) =~= at_list);
                    }
                    while k < il.values.len()
                        invariant
                            k <= il.values@.len(),
                            acc@ == at_list + placeholders(k as nat),
                        decreases il.values@.len() - k,
                    {
                        if k == 0 {
                            acc.append("?");
                            proof {
                                assert(acc@ =~= at_list + placeholders(1));
                            }
                        } else {
                            let ghost pk = placeholders(k as nat);
                            acc.append(", ?");
                            proof {
                                assert(placeholders((k + 1) as nat) == pk + ", ?"@);
                                assert(acc@ =~= at_list + placeholders((k + 1) as nat));
                            }
                        }
                        k = k + 1;
                    }
                },
                SqlPart::Subselect(s) => {
                    acc.append("(");
                    acc.append(s.as_str());
                    acc.append(")");
                },
            }
            proof {
                assert(acc@ =~= before + sql_of_part(suffix[0]));
                assert((before + sql_of_part(suffix[0])) + sql_of(suffix.skip(1)) =~= before + (
                sql_of_part(suffix[0]) + sql_of(suffix.skip(1))));
            }
            i = i + 1;
        }
        proof {
            assert(self.parts@.skip(self.parts@.len() as int) =~= Seq::<SqlPart>::empty());
            assert(acc@ + Seq::<char>::empty() =~= acc@);
        }
        acc
    }

    /// Decides, from the shape of the parts alone, whether the prepared form
    /// of this fragment may be cached.
    pub fn is_safe_to_cache_prepared(&self) -> (r: bool)
        ensures
            r == safe_to_cache(self.parts@),
    {
        let mut i: usize = 0;
        while i < self.parts.len()
            invariant
                i <= self.parts@.len(),
                forall|j: int| 0 <= j < i ==> part_safe(#[trigger] self.parts@[j]),
            decreases self.parts@.len() - i,
        {
            match &self.parts[i] {
                SqlPart::Literal(_) => {
                    proof {
                        assert(!part_safe(self.parts@[i as int]));
                    }
                    return false;
                },
                SqlPart::InList(_) => {
                    proof {
                        assert(!part_safe(self.parts@[i as int]));
                    }
                    return false;
                },
                _ => {},
            }
            i = i + 1;
        }
        true
    }

    /// Drives the collector with every bind the fragment carries, in order:
    /// an omitted-value entry per named parameter, and the serialized buffer
    /// of each supplied value. Stops at the first serialization failure and
    /// hands its cause back wrapped as a serialization error; the entries
    /// collected before the failure remain, so the collector stays
    /// well-formed but is only meant to be applied after an `Ok`.
    #[verifier::loop_isolation(false)]
    pub fn collect_binds(self, collector: &mut RawBytesBindCollector) -> (r: Result<(), Error>)
        requires
            old(collector).wf(),
        ensures
            final(collector).wf(),
            parts_ok(self.parts@) ==> {
                &&& r is Ok
                &&& final(collector).metadata@ == old(collector).metadata@ + metadata_of(
                    self.parts@,
                )
                &&& final(collector).binds@ == old(collector).binds@ + binds_of(self.parts@)
                &&& final(collector).value_is_none@ == old(collector).value_is_none@ + flags_of(
                    self.parts@,
                )
            },
            !parts_ok(self.parts@) ==> match r {
                Err(Error::SerializationError(cause)) => cause@ == first_error_of(self.parts@),
                _ => false,
            },
    {
        let ghost orig = self.parts@;
        let ghost start_metadata = collector.metadata@;
        let ghost start_binds = collector.binds@;
        let ghost start_flags = collector.value_is_none@;
        let mut parts = self.parts;
        while parts.len() > 0
            invariant
                collector.wf(),
                collector.metadata@ + metadata_of(parts@) == start_metadata + metadata_of(orig),
                collector.binds@ + binds_of(parts@) == start_binds + binds_of(orig),
                collector.value_is_none@ + flags_of(parts@) == start_flags + flags_of(orig),
                parts_ok(orig) == parts_ok(parts@),
                first_error_of(orig) == first_error_of(parts@),
            decreases parts.len(),
        {
            let ghost pre = parts@;
            let ghost c_m = collector.metadata@;
            let ghost c_b = collector.binds@;
            let ghost c_f = collector.value_is_none@;
            let p = parts.remove(0);
            proof {
                assert(parts@ =~= pre.skip(1));
                assert(pre[0] == p);
                lemma_parts_ok_unfold(pre);
            }
            match p {
                SqlPart::Bind(b) => {
                    proof {
                        assert(pre[0] == SqlPart::Bind(b));
                    }
                    match b.value {
                        BindSource::Omitted => {
                            collector.push_is_value_none(b.column_name, b.metadata, true);
                        },
                        BindSource::Supplied(outcome) => {
                            collector.push_is_value_none(b.column_name, b.metadata, false);
                            let pushed = collector.push_bound_value(outcome, b.metadata);
                            if let Err(e) = pushed {
                                proof {
                                    assert(!part_ok(pre[0]));
                                    assert(!parts_ok(pre));
                                    assert(first_error_of(pre) == part_error(pre[0]));
                                }
                                return Err(e);
                            }
                        },
                    }
                },
                SqlPart::InList(il) => {
                    proof {
                        assert(pre[0] == SqlPart::InList(il));
                    }
                    let collected = collect_in_list(il, collector);
                    if let Err(e) = collected {
                        proof {
                            assert(!part_ok(pre[0]));
                            assert(!parts_ok(pre));
                            assert(first_error_of(pre) == part_error(pre[0]));
                        }
                        return Err(e);
                    }
                },
                _ => {},
            }
            proof {
                assert(part_ok(pre[0]));
                assert(collector.metadata@ =~= c_m + part_metadata(pre[0]));
                assert(collector.binds@ =~= c_b + part_binds(pre[0]));
                assert(collector.value_is_none@ =~= c_f + part_flags(pre[0]));
                assert((c_m + part_metadata(pre[0])) + metadata_of(pre.skip(1)) =~= c_m + (
                part_metadata(pre[0]) + metadata_of(pre.skip(1))));
                assert((c_b + part_binds(pre[0])) + binds_of(pre.skip(1)) =~= c_b + (part_binds(
                    pre[0],
                ) + binds_of(pre.skip(1))));
                assert((c_f + part_flags(pre[0])) + flags_of(pre.skip(1)) =~= c_f + (part_flags(
                    pre[0],
                ) + flags_of(pre.skip(1))));
            }
        }
        proof {
            assert(parts_ok(parts@));
            assert(metadata_of(parts@) =~= Seq::<SqliteType>::empty());
            assert(binds_of(parts@) =~= Seq::<Option<Vec<u8>>>::empty());
            assert(flags_of(parts@) =~= Seq::<(String, SqliteType, bool)>::empty());
            assert(collector.metadata@ + metadata_of(parts@) =~= collector.metadata@);
            assert(collector.binds@ + binds_of(parts@) =~= collector.binds@);
            assert(collector.value_is_none@ + flags_of(parts@) =~= collector.value_is_none@);
        }
        Ok(())
    }
}

/// Unfolding lemma: success and first-failure of a part list, read off at its
/// first element.
proof fn lemma_parts_ok_unfold(parts: Seq<SqlPart>)
    requires
        parts.len() > 0,
    ensures
        parts_ok(parts) == (part_ok(parts[0]) && parts_ok(parts.skip(1))),
        part_ok(parts[0]) ==> first_error_of(parts) == first_error_of(parts.skip(1)),
{
    if part_ok(parts[0]) && parts_ok(parts.skip(1)) {
        assert forall|i: int| 0 <= i < parts.len() implies part_ok(#[trigger] parts[i]) by {
            if i > 0 {
                assert(parts.skip(1)[i - 1] == parts[i]);
            }
        }
    }
    if parts_ok(parts) {
        assert forall|i: int| 0 <= i < parts.skip(1).len() implies part_ok(
            #[trigger] parts.skip(1)[i],
        ) by {
            assert(parts.skip(1)[i] == parts[i + 1]);
        }
    }
}

/// Collects one value list: an omitted-value entry with flag false plus the
/// serialized buffer, per value, stopping at the first failure.
#[verifier::loop_isolation(false)]
fn collect_in_list(il: InListParam, collector: &mut RawBytesBindCollector) -> (r: Result<(), Error>)
    requires
        old(collector).wf(),
    ensures
        final(collector).wf(),
        values_ok(il.values@) ==> {
            &&& r is Ok
            &&& final(collector).metadata@ == old(collector).metadata@ + part_metadata(
                SqlPart::InList(il),
            )
            &&& final(collector).binds@ == old(collector).binds@ + part_binds(SqlPart::InList(il))
            &&& final(collector).value_is_none@ == old(collector).value_is_none@ + part_flags(
                SqlPart::InList(il),
            )
        },
        !values_ok(il.values@) ==> match r {
            Err(Error::SerializationError(cause)) => cause@ == first_error_of_values(il.values@),
            _ => false,
        },
{
    let ghost orig_vals = il.values@;
    let ghost start_metadata = collector.metadata@;
    let ghost start_binds = collector.binds@;
    let ghost start_flags = collector.value_is_none@;
    let column_name = il.column_name;
    let metadata = il.metadata;
    let mut vals = il.values;
    let total: usize = vals.len();
    let mut k: usize = 0;
    proof {
        assert(start_metadata + Seq::new(0, |i: int| metadata) =~= start_metadata);
        assert(start_binds + Seq::new(0, |i: int| bind_of_outcome(orig_vals[i])) =~= start_binds);
        assert(start_flags + Seq::new(0, |i: int| (column_name, metadata, false)) =~= start_flags);
    }
    while vals.len() > 0
        invariant
            collector.wf(),
            total == orig_vals.len(),
            k + vals.len() == total,
            vals@ == orig_vals.skip(k as int),
            collector.metadata@ == start_metadata + Seq::new(k as nat, |i: int| metadata),
            collector.binds@ == start_binds + Seq::new(
                k as nat,
                |i: int| bind_of_outcome(orig_vals[i]),
            ),
            collector.value_is_none@ == start_flags + Seq::new(
                k as nat,
                |i: int| (column_name, metadata, false),
            ),
            forall|i: int| 0 <= i < k ==> (#[trigger] orig_vals[i]) is Ok,
        decreases vals.len(),
    {
        let ghost pre = vals@;
        let v = vals.remove(0);
        proof {
            assert(vals@ =~= pre.skip(1));
            assert(pre.skip(1) =~= orig_vals.skip(k as int + 1));
            assert(v == orig_vals[k as int]);
        }
        collector.push_is_value_none(column_name.clone(), metadata, false);
        let pushed = collector.push_bound_value(v, metadata);
        match pushed {
            Ok(_) => {
                proof {
                    assert(collector.metadata@ =~= start_metadata + Seq::new(
                        (k + 1) as nat,
                        |i: int| metadata,
                    ));
                    assert(collector.binds@ =~= start_binds + Seq::new(
                        (k + 1) as nat,
                        |i: int| bind_of_outcome(orig_vals[i]),
                    ));
                    assert(collector.value_is_none@ =~= start_flags + Seq::new(
                        (k + 1) as nat,
                        |i: int| (column_name, metadata, false),
                    ));
                }
                k = k + 1;
            },
            Err(e) => {
                proof {
                    assert(orig_vals[k as int] is Err);
                    assert(!values_ok(orig_vals));
                    lemma_first_error_at(orig_vals, k as int);
                }
                return Err(e);
            },
        }
    }
    proof {
        assert(k as int == orig_vals.len());
        assert(values_ok(orig_vals));
        assert(Seq::new(k as nat, |i: int| metadata) =~= part_metadata(SqlPart::InList(il)));
        assert(Seq::new(k as nat, |i: int| bind_of_outcome(orig_vals[i])) =~= part_binds(
            SqlPart::InList(il),
        ));
        assert(Seq::new(k as nat, |i: int| (column_name, metadata, false)) =~= part_flags(
            SqlPart::InList(il),
        ));
    }
    Ok(())
}

/// When everything before position `k` succeeded and position `k` failed, the
/// first failure of the whole list is the one at `k`.
proof fn lemma_first_error_at(vals: Seq<Result<(Vec<u8>, IsNull), String>>, k: int)
    requires
        0 <= k < vals.len(),
        vals[k] is Err,
        forall|i: int| 0 <= i < k ==> (#[trigger] vals[i]) is Ok,
    ensures
        first_error_of_values(vals) == vals[k]->Err_0@,
    decreases k,
{
    if k == 0 {
    } else {
        assert(vals.skip(1)[k - 1] == vals[k]);
        assert forall|i: int| 0 <= i < k - 1 implies (#[trigger] vals.skip(1)[i]) is Ok by {
            assert(vals.skip(1)[i] == vals[i + 1]);
        }
        lemma_first_error_at(vals.skip(1), k - 1);
    }
}

/// Counting present entries distributes over concatenation.
proof fn lemma_false_count_append(
    a: Seq<(String, SqliteType, bool)>,
    b: Seq<(String, SqliteType, bool)>,
)
    ensures
        flags_false_count(a + b) == flags_false_count(a) + flags_false_count(b),
    decreases a.len(),
{
    if a.len() == 0 {
        assert(a + b =~= b);
    } else {
        assert((a + b).skip(1) =~= a.skip(1) + b);
        assert((a + b)[0] == a[0]);
        lemma_false_count_append(a.skip(1), b);
    }
}

/// A sequence of entries that are all present counts its own length.
proof fn lemma_false_count_all_present(s: Seq<(String, SqliteType, bool)>)
    requires
        forall|i: int| 0 <= i < s.len() ==> !(#[trigger] s[i]).2,
    ensures
        flags_false_count(s) == s.len(),
    decreases s.len(),
{
    if s.len() > 0 {
        assert forall|i: int| 0 <= i < s.skip(1).len() implies !(#[trigger] s.skip(1)[i]).2 by {
            assert(s.skip(1)[i] == s[i + 1]);
        }
        lemma_false_count_all_present(s.skip(1));
    }
}

/// What a fragment collects is consistent by construction: the two parallel
/// sequences have equal length, and the omitted-value entries flagged present
/// are exactly as many as the collected pairs, so the resolution walk always
/// consumes both completely.
pub proof fn lemma_fragment_consistent(parts: Seq<SqlPart>)
    ensures
        metadata_of(parts).len() == binds_of(parts).len(),
        flags_false_count(flags_of(parts)) == binds_of(parts).len(),
    decreases parts.len(),
{
    if parts.len() > 0 {
        lemma_fragment_consistent(parts.skip(1));
        lemma_false_count_append(part_flags(parts[0]), flags_of(parts.skip(1)));
        let fl = part_flags(parts[0]);
        match parts[0] {
            SqlPart::Bind(b) => {
                assert(fl.len() == 1);
                assert(fl.skip(1) =~= Seq::<(String, SqliteType, bool)>::empty());
                assert(flags_false_count(fl.skip(1)) == 0);
                assert(fl[0].2 == (b.value is Omitted));
                assert(flags_false_count(fl) == part_binds(parts[0]).len());
            },
            SqlPart::InList(il) => {
                assert forall|i: int| 0 <= i < fl.len() implies !(#[trigger] fl[i]).2 by {}
                lemma_false_count_all_present(fl);
                assert(flags_false_count(fl) == part_binds(parts[0]).len());
            },
            _ => {
                assert(fl =~= Seq::<(String, SqliteType, bool)>::empty());
                assert(flags_false_count(fl) == 0);
                assert(part_binds(parts[0]).len() == 0);
            },
        }
        assert(flags_of(parts) == fl + flags_of(parts.skip(1)));
        assert(binds_of(parts) == part_binds(parts[0]) + binds_of(parts.skip(1)));
        assert(flags_false_count(flags_of(parts)) == flags_false_count(fl) + flags_false_count(
            flags_of(parts.skip(1)),
        ));
    }
}

/// Cacheability is decided by shape alone: one embedded literal or one
/// variable-length value list anywhere in the fragment rules caching out,
/// and a fragment of fixed parts (plain text, binds, sub-selects) is always
/// cacheable, whatever data it carries.
pub proof fn lemma_cacheability_is_structural(parts: Seq<SqlPart>)
    ensures
        forall|i: int|
            0 <= i < parts.len() && !part_safe(#[trigger] parts[i]) ==> !safe_to_cache(parts),
        (forall|i: int| 0 <= i < parts.len() ==> part_safe(#[trigger] parts[i])) ==> safe_to_cache(
            parts,
        ),
{
}

} // verus!
