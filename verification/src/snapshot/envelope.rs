//! The snapshot envelope: identity and versioning metadata around one fully
//! materialized aggregate state, with a verified text codec.
use vstd::prelude::*;
use vstd::string::*;

use crate::aggregate::Aggregate;
use crate::codec::{
    append_field, dec_rep, dec_to_i64, dec_to_u128, dec_val_of, field_text, i64_to_dec, int_rep,
    int_val_of, lemma_dec_val_of_rep, lemma_int_val_of_rep, lemma_parse_named, parse_named,
    parse_named_spec, u128_to_dec,
};
use crate::Error;

verus! {

/// Mathematical view of a snapshot envelope.
pub ghost struct SnapshotEnvelopeView<A> {
    pub id: u128,
    pub aggregate_id: Seq<char>,
    pub aggregate_type: Seq<char>,
    pub data: A,
    pub version: i64,
    pub timestamp: i64,
}

/// Immutable wrapper carrying one materialized aggregate state, the
/// identity of its stream, the aggregate version the snapshot was taken at,
/// and the creation time. A snapshot is a derived cache: losing one costs
/// replay time, never correctness.
#[derive(Debug)]
pub struct SnapshotEnvelope<A> {
    /// Unique identifier of the envelope, generated at construction.
    pub id: u128,
    /// Identity of the aggregate stream the snapshot belongs to.
    pub aggregate_id: String,
    /// Discriminator of the aggregate's schema or family.
    pub aggregate_type: String,
    /// The materialized aggregate state.
    pub data: A,
    /// Version of the aggregate the snapshot was taken at.
    pub version: i64,
    /// Creation wall-clock time, in milliseconds since the Unix epoch (UTC).
    pub timestamp: i64,
}

impl<A> View for SnapshotEnvelope<A> {
    type V = SnapshotEnvelopeView<A>;

    open spec fn view(&self) -> SnapshotEnvelopeView<A> {
        SnapshotEnvelopeView {
            id: self.id,
            aggregate_id: self.aggregate_id@,
            aggregate_type: self.aggregate_type@,
            data: self.data,
            version: self.version,
            timestamp: self.timestamp,
        }
    }
}

impl<A: Aggregate> SnapshotEnvelope<A> {
    /// Builds an envelope around one aggregate state; the identifier is
    /// generated and the timestamp is taken from the clock at construction.
    pub fn new(aggregate_id: String, aggregate_type: String, data: A, version: i64) -> (e: Self)
        ensures
            e@.aggregate_id == aggregate_id@,
            e@.aggregate_type == aggregate_type@,
            e@.data == data,
            e@.version == version,
    {
        SnapshotEnvelope {
            id: crate::fresh_envelope_id(),
            aggregate_id,
            aggregate_type,
            data,
            version,
            timestamp: crate::current_timestamp_millis(),
        }
    }

    /// A field-for-field copy of the envelope.
    pub fn duplicate(&self) -> (e: Self)
        ensures
            e@ == self@,
    {
        SnapshotEnvelope {
            id: self.id,
            aggregate_id: self.aggregate_id.clone(),
            aggregate_type: self.aggregate_type.clone(),
            data: self.data.duplicate(),
            version: self.version,
            timestamp: self.timestamp,
        }
    }
}

/// The snapshot's wire text: every field named and length-prefixed, the
/// state included as the text its own codec writes.
pub open spec fn snapshot_text<A: Aggregate>(v: SnapshotEnvelopeView<A>) -> Seq<char> {
    field_text("id"@, dec_rep(v.id as nat)) + field_text("aggregate_id"@, v.aggregate_id)
        + field_text("aggregate_type"@, v.aggregate_type) + field_text("data"@, v.data.encoded())
        + field_text("version"@, int_rep(v.version as int)) + field_text(
        "timestamp"@,
        int_rep(v.timestamp as int),
    )
}

/// The six field texts of a snapshot's wire text, when the whole text is
/// exactly those fields in order.
pub open spec fn snapshot_fields(s: Seq<char>) -> Option<
    (Seq<char>, Seq<char>, Seq<char>, Seq<char>, Seq<char>, Seq<char>),
> {
    match parse_named_spec(s, 0, "id"@) {
        None => None,
        Some((id_text, p1)) => match parse_named_spec(s, p1, "aggregate_id"@) {
            None => None,
            Some((aggregate_id, p2)) => match parse_named_spec(s, p2, "aggregate_type"@) {
                None => None,
                Some((aggregate_type, p3)) => match parse_named_spec(s, p3, "data"@) {
                    None => None,
                    Some((data_text, p4)) => match parse_named_spec(s, p4, "version"@) {
                        None => None,
                        Some((version_text, p5)) => match parse_named_spec(s, p5, "timestamp"@) {
                            None => None,
                            Some((timestamp_text, p6)) => {
                                if p6 == s.len() {
                                    Some(
                                        (
                                            id_text,
                                            aggregate_id,
                                            aggregate_type,
                                            data_text,
                                            version_text,
                                            timestamp_text,
                                        ),
                                    )
                                } else {
                                    None
                                }
                            },
                        },
                    },
                },
            },
        },
    }
}

/// What an arbitrary text parses to: the snapshot whose wire text it is, or
/// nothing.
pub open spec fn parse_snapshot_text<A: Aggregate>(s: Seq<char>) -> Option<SnapshotEnvelopeView<A>> {
    match snapshot_fields(s) {
        None => None,
        Some((id_text, aggregate_id, aggregate_type, data_text, version_text, timestamp_text)) => match dec_val_of(
            id_text,
        ) {
            None => None,
            Some(id) => match A::decoded(data_text) {
                None => None,
                Some(data) => match int_val_of(version_text) {
                    None => None,
                    Some(version) => match int_val_of(timestamp_text) {
                        None => None,
                        Some(timestamp) => {
                            if id <= u128::MAX && i64::MIN <= version <= i64::MAX && i64::MIN
                                <= timestamp <= i64::MAX {
                                Some(
                                    SnapshotEnvelopeView {
                                        id: id as u128,
                                        aggregate_id,
                                        aggregate_type,
                                        data,
                                        version: version as i64,
                                        timestamp: timestamp as i64,
                                    },
                                )
                            } else {
                                None
                            }
                        },
                    },
                },
            },
        },
    }
}

/// Writes the snapshot as text. Writing never fails: any character may
/// stand in a field, so no input is rejected.
pub fn serialize<A: Aggregate>(snapshot_envelope: &SnapshotEnvelope<A>) -> (r: Result<
    String,
    Error,
>)
    ensures
        r matches Ok(s) && s@ == snapshot_text(snapshot_envelope@),
{
    let mut out = String::new();
    append_field(&mut out, "id", u128_to_dec(snapshot_envelope.id).as_str());
    append_field(&mut out, "aggregate_id", snapshot_envelope.aggregate_id.as_str());
    append_field(&mut out, "aggregate_type", snapshot_envelope.aggregate_type.as_str());
    append_field(&mut out, "data", snapshot_envelope.data.encode().as_str());
    append_field(&mut out, "version", i64_to_dec(snapshot_envelope.version).as_str());
    append_field(&mut out, "timestamp", i64_to_dec(snapshot_envelope.timestamp).as_str());
    proof {
        assert(out@ =~= snapshot_text(snapshot_envelope@));
    }
    Ok(out)
}

/// Reads the six field texts of a snapshot's wire text.
fn parse_snapshot_fields(s: &str) -> (r: Option<(String, String, String, String, String, String)>)
    ensures
        match snapshot_fields(s@) {
            None => r is None,
            Some(t) => r matches Some(rt) && rt.0@ == t.0 && rt.1@ == t.1 && rt.2@ == t.2
                && rt.3@ == t.3 && rt.4@ == t.4 && rt.5@ == t.5,
        },
{
    let len: usize = s.unicode_len();
    let (id_text, p1) = match parse_named(s, 0, "id") {
        Some(x) => x,
        None => {
            return None;
        },
    };
    let (aggregate_id, p2) = match parse_named(s, p1, "aggregate_id") {
        Some(x) => x,
        None => {
            return None;
        },
    };
    let (aggregate_type, p3) = match parse_named(s, p2, "aggregate_type") {
        Some(x) => x,
        None => {
            return None;
        },
    };
    let (data_text, p4) = match parse_named(s, p3, "data") {
        Some(x) => x,
        None => {
            return None;
        },
    };
    let (version_text, p5) = match parse_named(s, p4, "version") {
        Some(x) => x,
        None => {
            return None;
        },
    };
    let (timestamp_text, p6) = match parse_named(s, p5, "timestamp") {
        Some(x) => x,
        None => {
            return None;
        },
    };
    if p6 != len {
        return None;
    }
    Some((id_text, aggregate_id, aggregate_type, data_text, version_text, timestamp_text))
}

/// Reads a snapshot back from text; a text that is not the wire text of any
/// snapshot is rejected as a serialization error.
pub fn deserialize<A: Aggregate>(snapshot_envelope: String) -> (r: Result<
    SnapshotEnvelope<A>,
    Error,
>)
    ensures
        match parse_snapshot_text::<A>(snapshot_envelope@) {
            None => r == Err::<SnapshotEnvelope<A>, Error>(Error::Serialization),
            Some(v) => r matches Ok(e) && e@ == v,
        },
{
    let fields = match parse_snapshot_fields(snapshot_envelope.as_str()) {
        Some(x) => x,
        None => {
            return Err(Error::Serialization);
        },
    };
    let (id_text, aggregate_id, aggregate_type, data_text, version_text, timestamp_text) = fields;
    let id = match dec_to_u128(id_text.as_str()) {
        Some(v) => v,
        None => {
            return Err(Error::Serialization);
        },
    };
    let data = match A::decode(data_text.as_str()) {
        Some(v) => v,
        None => {
            return Err(Error::Serialization);
        },
    };
    let version = match dec_to_i64(version_text.as_str()) {
        Some(v) => v,
        None => {
            return Err(Error::Serialization);
        },
    };
    let timestamp = match dec_to_i64(timestamp_text.as_str()) {
        Some(v) => v,
        None => {
            return Err(Error::Serialization);
        },
    };
    Ok(
        SnapshotEnvelope {
            id,
            aggregate_id,
            aggregate_type,
            data,
            version,
            timestamp,
        },
    )
}

/// Reading back a snapshot's wire text yields its six field texts.
#[verifier::rlimit(100)]
#[verifier::spinoff_prover]
pub proof fn lemma_snapshot_fields_round_trip<A: Aggregate>(v: SnapshotEnvelopeView<A>)
    requires
        snapshot_text(v).len() <= usize::MAX,
    ensures
        snapshot_fields(snapshot_text(v)) == Some(
            (
                dec_rep(v.id as nat),
                v.aggregate_id,
                v.aggregate_type,
                v.data.encoded(),
                int_rep(v.version as int),
                int_rep(v.timestamp as int),
            ),
        ),
{
    let s = snapshot_text(v);
    let f1 = field_text("id"@, dec_rep(v.id as nat));
    let f2 = field_text("aggregate_id"@, v.aggregate_id);
    let f3 = field_text("aggregate_type"@, v.aggregate_type);
    let f4 = field_text("data"@, v.data.encoded());
    let f5 = field_text("version"@, int_rep(v.version as int));
    let f6 = field_text("timestamp"@, int_rep(v.timestamp as int));

    let a1 = Seq::<char>::empty();
    assert(s =~= a1 + f1 + (f2 + f3 + f4 + f5 + f6));
    lemma_parse_named(a1, "id"@, dec_rep(v.id as nat), f2 + f3 + f4 + f5 + f6);

    let a2 = a1 + f1;
    assert(s =~= a2 + f2 + (f3 + f4 + f5 + f6));
    lemma_parse_named(a2, "aggregate_id"@, v.aggregate_id, f3 + f4 + f5 + f6);

    let a3 = a2 + f2;
    assert(s =~= a3 + f3 + (f4 + f5 + f6));
    lemma_parse_named(a3, "aggregate_type"@, v.aggregate_type, f4 + f5 + f6);

    let a4 = a3 + f3;
    assert(s =~= a4 + f4 + (f5 + f6));
    lemma_parse_named(a4, "data"@, v.data.encoded(), f5 + f6);

    let a5 = a4 + f4;
    assert(s =~= a5 + f5 + f6);
    lemma_parse_named(a5, "version"@, int_rep(v.version as int), f6);

    let a6 = a5 + f5;
    assert(s =~= a6 + f6 + Seq::<char>::empty());
    lemma_parse_named(a6, "timestamp"@, int_rep(v.timestamp as int), Seq::<char>::empty());
}

/// Reading back a snapshot's wire text reproduces every field of the
/// snapshot: identifier, aggregate identity and type, state, version and
/// timestamp.
pub proof fn lemma_snapshot_round_trip<A: Aggregate>(v: SnapshotEnvelopeView<A>)
    requires
        snapshot_text(v).len() <= usize::MAX,
    ensures
        parse_snapshot_text::<A>(snapshot_text(v)) == Some(v),
{
    lemma_snapshot_fields_round_trip(v);
    lemma_dec_val_of_rep(v.id as nat);
    v.data.lemma_codec_round_trip();
    lemma_int_val_of_rep(v.version as int);
    lemma_int_val_of_rep(v.timestamp as int);
}

} // verus!
