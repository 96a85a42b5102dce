//! Keys and records of the measurement store.
use vstd::prelude::*;

use crate::binary64::Binary64;
use crate::text::{decimal, law_decimal_is_digits, law_decimal_is_injective, push_decimal};

verus! {

/// A key of the form `prefix` `id` `:` `field`.
pub open spec fn key_chars(prefix: Seq<char>, id: u32, field: Seq<char>) -> Seq<char> {
    prefix + decimal(id as nat) + ":"@ + field
}

fn build_key(prefix: &str, id: u32, field: &str) -> (key: String)
    ensures
        key@ == key_chars(prefix@, id, field@),
{
    let mut key = String::new();
    key.append(prefix);
    push_decimal(&mut key, id as u64);
    key.append(":");
    key.append(field);
    assert(key@ =~= key_chars(prefix@, id, field@));
    key
}

/// See [`peer_series_key`].
pub open spec fn peer_series(id: u32, field: Seq<char>) -> Seq<char> {
    key_chars("ts:peer:"@, id, field)
}

/// See [`ntp_series_key`].
pub open spec fn ntp_series(id: u32, field: Seq<char>) -> Seq<char> {
    key_chars("ts:ntp:"@, id, field)
}

/// See [`peer_hash_key`].
pub open spec fn peer_hash(id: u32, field: Seq<char>) -> Seq<char> {
    key_chars("hash:peer:"@, id, field)
}

/// See [`ntp_hash_key`].
pub open spec fn ntp_hash(id: u32, field: Seq<char>) -> Seq<char> {
    key_chars("hash:ntp:"@, id, field)
}

/// The key of a peer's time series.
pub fn peer_series_key(id: u32, field: &str) -> (key: String)
    ensures
        key@ == peer_series(id, field@),
{
    build_key("ts:peer:", id, field)
}

/// The key of an NTP source's time series.
pub fn ntp_series_key(id: u32, field: &str) -> (key: String)
    ensures
        key@ == ntp_series(id, field@),
{
    build_key("ts:ntp:", id, field)
}

/// The key of a peer's record.
pub fn peer_hash_key(id: u32, field: &str) -> (key: String)
    ensures
        key@ == peer_hash(id, field@),
{
    build_key("hash:peer:", id, field)
}

/// The key of an NTP source's record.
pub fn ntp_hash_key(id: u32, field: &str) -> (key: String)
    ensures
        key@ == ntp_hash(id, field@),
{
    build_key("hash:ntp:", id, field)
}

/// One write to the store.
#[derive(Debug)]
pub enum StoreOp {
    /// Appends a point to a time series and trims the series to its window.
    TsAdd { key: String, ts_ns: u64, val: Binary64, window_ns: u64 },
    /// Sets fields of a record.
    HmSet { key: String, fields: Vec<(&'static str, Binary64)> },
}

/// The contents of a [`StoreOp`].
pub enum StoreOpView {
    TsAdd { key: Seq<char>, ts_ns: u64, val: Binary64, window_ns: u64 },
    HmSet { key: Seq<char>, fields: Seq<(Seq<char>, Binary64)> },
}

/// Field names and values of a record.
pub open spec fn field_views(fields: Seq<(&'static str, Binary64)>) -> Seq<(Seq<char>, Binary64)> {
    fields.map_values(|f: (&'static str, Binary64)| (f.0@, f.1))
}

impl View for StoreOp {
    type V = StoreOpView;

    open spec fn view(&self) -> StoreOpView {
        match self {
            StoreOp::TsAdd { key, ts_ns, val, window_ns } => StoreOpView::TsAdd {
                key: key@,
                ts_ns: *ts_ns,
                val: *val,
                window_ns: *window_ns,
            },
            StoreOp::HmSet { key, fields } => StoreOpView::HmSet {
                key: key@,
                fields: field_views(fields@),
            },
        }
    }
}

/// The contents of a list of writes.
pub open spec fn op_views(ops: Seq<StoreOp>) -> Seq<StoreOpView> {
    ops.map_values(|op: StoreOp| op@)
}

/// Two keys of one kind are the same only for the same source and field, so no two sources share
/// a series or a record.
pub proof fn law_keys_are_distinct(
    prefix: Seq<char>,
    id_a: u32,
    field_a: Seq<char>,
    id_b: u32,
    field_b: Seq<char>,
)
    requires
        key_chars(prefix, id_a, field_a) == key_chars(prefix, id_b, field_b),
    ensures
        id_a == id_b,
        field_a == field_b,
{
    reveal_strlit(":");
    let (da, db) = (decimal(id_a as nat), decimal(id_b as nat));
    let (ka, kb) = (key_chars(prefix, id_a, field_a), key_chars(prefix, id_b, field_b));
    let p = prefix.len() as int;
    law_decimal_is_digits(id_a as nat);
    law_decimal_is_digits(id_b as nat);
    assert(ka[p + da.len()] == ':');
    assert(kb[p + db.len()] == ':');
    if da.len() < db.len() {
        assert(kb[p + da.len()] == db[da.len() as int]);
    }
    if db.len() < da.len() {
        assert(ka[p + db.len()] == da[db.len() as int]);
    }
    assert(da =~= ka.subrange(p, p + da.len()));
    assert(db =~= kb.subrange(p, p + db.len()));
    law_decimal_is_injective(id_a as nat, id_b as nat);
    assert(field_a =~= ka.skip(p + da.len() + 1));
    assert(field_b =~= kb.skip(p + db.len() + 1));
}

/// Peers and NTP sources never share a series or a record, even where they share an identifier;
/// nor does a series share its key with a record.
pub proof fn law_kinds_of_keys_are_distinct(
    id_a: u32,
    field_a: Seq<char>,
    id_b: u32,
    field_b: Seq<char>,
)
    ensures
        peer_series(id_a, field_a) != ntp_series(id_b, field_b),
        peer_hash(id_a, field_a) != ntp_hash(id_b, field_b),
        peer_series(id_a, field_a) != peer_hash(id_b, field_b),
        peer_series(id_a, field_a) != ntp_hash(id_b, field_b),
        ntp_series(id_a, field_a) != peer_hash(id_b, field_b),
        ntp_series(id_a, field_a) != ntp_hash(id_b, field_b),
{
    reveal_strlit("ts:peer:");
    reveal_strlit("ts:ntp:");
    reveal_strlit("hash:peer:");
    reveal_strlit("hash:ntp:");
    assert(peer_series(id_a, field_a)[3] == 'p');
    assert(ntp_series(id_b, field_b)[3] == 'n');
    assert(peer_hash(id_a, field_a)[5] == 'p');
    assert(ntp_hash(id_b, field_b)[5] == 'n');
    assert(peer_series(id_a, field_a)[0] == 't');
    assert(ntp_series(id_a, field_a)[0] == 't');
    assert(peer_hash(id_b, field_b)[0] == 'h');
    assert(ntp_hash(id_b, field_b)[0] == 'h');
}

/// A key spells out the kind of its source, whether it is a series or a record, the identifier in
/// decimal, and the field.
pub proof fn law_keys_spell_out_their_source(id: u32, field: Seq<char>)
    ensures
        peer_series(id, field) == "ts:peer:"@ + decimal(id as nat) + ":"@ + field,
        ntp_series(id, field) == "ts:ntp:"@ + decimal(id as nat) + ":"@ + field,
        peer_hash(id, field) == "hash:peer:"@ + decimal(id as nat) + ":"@ + field,
        ntp_hash(id, field) == "hash:ntp:"@ + decimal(id as nat) + ":"@ + field,
{
}

/// Writes are seen whole, one by one, and records field by field.
pub proof fn law_writes_are_seen_whole(
    ops: Seq<StoreOp>,
    fields: Seq<(&'static str, Binary64)>,
    i: int,
)
    ensures
        op_views(ops).len() == ops.len(),
        0 <= i < ops.len() ==> op_views(ops)[i] == ops[i]@,
        0 <= i < ops.len() ==> (ops[i] matches StoreOp::TsAdd { key, ts_ns, val, window_ns }
            ==> op_views(ops)[i] == (StoreOpView::TsAdd { key: key@, ts_ns, val, window_ns })),
        0 <= i < ops.len() ==> (ops[i] matches StoreOp::HmSet { key, fields: set } ==> op_views(
            ops,
        )[i] == (StoreOpView::HmSet { key: key@, fields: field_views(set@) })),
        field_views(fields).len() == fields.len(),
        0 <= i < fields.len() ==> field_views(fields)[i] == (fields[i].0@, fields[i].1),
{
}

} // verus!
