//! The value codec: bidirectional conversion between the generic [`Value`]
//! model and native database column values, recursing into collections.
//!
//! Decoding turns a native column value into a `Value`: 64-bit integers become
//! decimal strings, timestamps become RFC 3339 UTC strings, blobs become UTF-8
//! text, absent columns and unknown native types become `Null`.

use vstd::prelude::*;
use vstd::utf8::{decode_utf8, valid_utf8};

use crate::decimal::spec_idec;
use crate::value::{
    lemma_native_models, lemma_native_pair_models, lemma_value_models, lemma_value_pair_models,
    native_model, native_models, native_pair_models, value_model, value_models,
    value_pair_models, Native, NativeModel, Value, ValueModel,
};

verus! {

broadcast use vstd::std_specs::vec::group_vec_axioms, vstd::seq::group_seq_axioms;

/// The RFC 3339 UTC rendering of an epoch-millisecond timestamp, for
/// timestamps chrono can represent. The rendering depends on the milliseconds
/// alone.
pub uninterp spec fn rfc3339_utc(ms: i64) -> Seq<char>;

/// Whether chrono can represent an epoch-millisecond timestamp as a datetime.
/// Depends on the milliseconds alone.
pub uninterp spec fn ts_representable(ms: i64) -> bool;

/// The epoch milliseconds an RFC 3339 string denotes, or `None` when the
/// string does not parse. Depends on the characters alone.
pub uninterp spec fn rfc3339_millis(s: Seq<char>) -> Option<i64>;

/// Relies on chrono's `DateTime::<Utc>::from_timestamp_millis` (returns `None`
/// exactly on an out-of-range number of milliseconds) and
/// `DateTime::to_rfc3339`; both depend on the milliseconds alone.
#[verifier::external_body]
fn timestamp_to_rfc3339(ms: i64) -> (r: Option<String>)
    ensures
        r is Some <==> ts_representable(ms),
        r matches Some(s) ==> s@ == rfc3339_utc(ms),
{
    chrono::DateTime::<chrono::Utc>::from_timestamp_millis(ms).map(|dt| dt.to_rfc3339())
}

/// Relies on chrono's `DateTime::parse_from_rfc3339` (fails exactly on input
/// that is not a valid RFC 3339 datetime) and `DateTime::timestamp_millis`;
/// both depend on the characters alone.
#[verifier::external_body]
pub(crate) fn rfc3339_to_millis(s: &str) -> (r: Option<i64>)
    ensures
        r == rfc3339_millis(s@),
{
    chrono::DateTime::parse_from_rfc3339(s).ok().map(|dt| dt.timestamp_millis())
}

/// Relies on `String::from_utf8`: `Ok` exactly on valid UTF-8, yielding its
/// decoding.
#[verifier::external_body]
fn bytes_to_string(bytes: &Vec<u8>) -> (r: Option<String>)
    ensures
        r is Some <==> valid_utf8(bytes@),
        r matches Some(s) ==> s@ == decode_utf8(bytes@),
{
    String::from_utf8(bytes.clone()).ok()
}

/// A value-codec decoding failure: an invalid-UTF-8 blob or an
/// unrepresentable timestamp.
#[derive(Debug, PartialEq)]
pub struct DecodeError {
    pub message: String,
}

/// The decoding of one native column value, or `None` when a blob is not
/// valid UTF-8 or a timestamp cannot be represented as a datetime.
pub open spec fn decode_model(n: NativeModel) -> Option<ValueModel>
    decreases n,
{
    match n {
        NativeModel::Int(v) => Some(ValueModel::Num(v)),
        NativeModel::Text(s) => Some(ValueModel::Str(s)),
        NativeModel::Boolean(b) => Some(ValueModel::Bool(b)),
        NativeModel::BigInt(v) => Some(ValueModel::Str(spec_idec(v as int))),
        NativeModel::List(items) => match decode_models(items) {
            Some(vs) => Some(ValueModel::Array(vs)),
            None => None,
        },
        NativeModel::Blob(bytes) => if valid_utf8(bytes) {
            Some(ValueModel::Str(decode_utf8(bytes)))
        } else {
            None
        },
        NativeModel::Mapping(pairs) => match decode_pair_models(pairs) {
            Some(ps) => Some(ValueModel::Mapping(ps)),
            None => None,
        },
        NativeModel::Timestamp(ms) => if ts_representable(ms) {
            Some(ValueModel::Date(rfc3339_utc(ms)))
        } else {
            None
        },
        NativeModel::Empty => Some(ValueModel::Null),
        NativeModel::Other => Some(ValueModel::Null),
    }
}

/// The decodings of a sequence of native values, or `None` when any fails.
pub open spec fn decode_models(s: Seq<NativeModel>) -> Option<Seq<ValueModel>>
    decreases s,
{
    if s.len() == 0 {
        Some(Seq::empty())
    } else {
        match (decode_model(s[0]), decode_models(s.subrange(1, s.len() as int))) {
            (Some(v), Some(rest)) => Some(seq![v] + rest),
            _ => None,
        }
    }
}

/// The decodings of a sequence of native key/value pairs, or `None` when any
/// component fails.
pub open spec fn decode_pair_models(s: Seq<(NativeModel, NativeModel)>) -> Option<
    Seq<(ValueModel, ValueModel)>,
>
    decreases s,
{
    if s.len() == 0 {
        Some(Seq::empty())
    } else {
        match (
            decode_model(s[0].0),
            decode_model(s[0].1),
            decode_pair_models(s.subrange(1, s.len() as int)),
        ) {
            (Some(k), Some(v), Some(rest)) => Some(seq![(k, v)] + rest),
            _ => None,
        }
    }
}

/// A sequence decodes exactly when each element does, element by element.
pub proof fn lemma_decode_models(s: Seq<NativeModel>)
    ensures
        decode_models(s) is Some <==> (forall|i: int|
            0 <= i < s.len() ==> decode_model(#[trigger] s[i]) is Some),
        decode_models(s) matches Some(r) ==> r.len() == s.len() && (forall|i: int|
            0 <= i < s.len() ==> Some(#[trigger] r[i]) == decode_model(s[i])),
    decreases s,
{
    if s.len() > 0 {
        let tail = s.subrange(1, s.len() as int);
        lemma_decode_models(tail);
        if forall|i: int| 0 <= i < s.len() ==> decode_model(#[trigger] s[i]) is Some {
            assert forall|i: int|
                0 <= i < tail.len() implies decode_model(#[trigger] tail[i]) is Some by {
                assert(tail[i] == s[i + 1]);
            }
            assert(decode_models(tail) is Some);
        }
        if decode_models(s) is Some {
            let r = decode_models(s)->Some_0;
            let rt = decode_models(tail)->Some_0;
            assert(r == seq![decode_model(s[0])->Some_0] + rt);
            assert forall|i: int|
                0 <= i < s.len() implies decode_model(#[trigger] s[i]) is Some by {
                if i > 0 {
                    assert(tail[i - 1] == s[i]);
                    assert(decode_model(tail[i - 1]) is Some);
                }
            }
            assert forall|i: int|
                0 <= i < s.len() implies Some(#[trigger] r[i]) == decode_model(s[i]) by {
                if i > 0 {
                    assert(r[i] == rt[i - 1]);
                    assert(tail[i - 1] == s[i]);
                }
            }
        }
    }
}

/// A pair sequence decodes exactly when each component does.
pub proof fn lemma_decode_pair_models(s: Seq<(NativeModel, NativeModel)>)
    ensures
        decode_pair_models(s) is Some <==> (forall|i: int|
            0 <= i < s.len() ==> decode_model(#[trigger] s[i].0) is Some && decode_model(
                s[i].1,
            ) is Some),
        decode_pair_models(s) matches Some(r) ==> r.len() == s.len() && (forall|i: int|
            0 <= i < s.len() ==> Some(#[trigger] r[i].0) == decode_model(s[i].0) && Some(
                r[i].1,
            ) == decode_model(s[i].1)),
    decreases s,
{
    if s.len() > 0 {
        let tail = s.subrange(1, s.len() as int);
        lemma_decode_pair_models(tail);
        if forall|i: int|
            0 <= i < s.len() ==> decode_model(#[trigger] s[i].0) is Some && decode_model(
                s[i].1,
            ) is Some {
            assert forall|i: int|
                0 <= i < tail.len() implies decode_model(#[trigger] tail[i].0) is Some
                && decode_model(tail[i].1) is Some by {
                assert(tail[i] == s[i + 1]);
            }
            assert(decode_pair_models(tail) is Some);
        }
        if decode_pair_models(s) is Some {
            let r = decode_pair_models(s)->Some_0;
            let rt = decode_pair_models(tail)->Some_0;
            assert(r == seq![(decode_model(s[0].0)->Some_0, decode_model(s[0].1)->Some_0)] + rt);
            assert forall|i: int|
                0 <= i < s.len() implies decode_model(#[trigger] s[i].0) is Some && decode_model(
                s[i].1,
            ) is Some by {
                if i > 0 {
                    assert(tail[i - 1] == s[i]);
                    assert(decode_model(tail[i - 1].0) is Some);
                    assert(decode_model(tail[i - 1].1) is Some);
                }
            }
            assert forall|i: int|
                0 <= i < s.len() implies Some(#[trigger] r[i].0) == decode_model(s[i].0) && Some(
                r[i].1,
            ) == decode_model(s[i].1) by {
                if i > 0 {
                    assert(r[i] == rt[i - 1]);
                    assert(tail[i - 1] == s[i]);
                }
            }
        }
    }
}

/// Decodes one native column value into a [`Value`].
#[verifier::loop_isolation(false)]
pub fn decode_native(n: &Native) -> (r: Result<Value, DecodeError>)
    ensures
        r is Ok <==> decode_model(n@) is Some,
        r matches Ok(v) ==> Some(v@) == decode_model(n@),
    decreases n,
{
    match n {
        Native::Int(v) => Ok(Value::Num(*v)),
        Native::Text(s) => Ok(Value::Str(s.clone())),
        Native::Boolean(b) => Ok(Value::Bool(*b)),
        Native::BigInt(v) => Ok(Value::Str(crate::decimal::i64_to_dec(*v))),
        Native::Empty => Ok(Value::Null),
        Native::Other => Ok(Value::Null),
        Native::Timestamp(ms) => match timestamp_to_rfc3339(*ms) {
            Some(s) => Ok(Value::Date(s)),
            None => Err(DecodeError { message: "timestamp out of range".to_owned() }),
        },
        Native::Blob(bytes) => match bytes_to_string(bytes) {
            Some(s) => Ok(Value::Str(s)),
            None => Err(DecodeError { message: "blob is not valid UTF-8".to_owned() }),
        },
        Native::List(items) => {
            let mut out: Vec<Value> = Vec::new();
            let mut i: usize = 0;
            while i < items.len()
                invariant
                    0 <= i <= items@.len(),
                    out@.len() == i,
                    forall|j: int|
                        0 <= j < i ==> decode_model(native_model(items@[j])) == Some(
                            value_model(#[trigger] out@[j]),
                        ),
                decreases items@.len() - i,
            {
                match decode_native(&items[i]) {
                    Ok(v) => out.push(v),
                    Err(e) => {
                        proof {
                            lemma_native_models(items@);
                            lemma_decode_models(native_models(items@));
                            assert(decode_model(native_models(items@)[i as int]) is None);
                        }
                        return Err(e);
                    },
                }
                i = i + 1;
            }
            proof {
                lemma_native_models(items@);
                lemma_decode_models(native_models(items@));
                lemma_value_models(out@);
                let nm = native_models(items@);
                assert forall|j: int| 0 <= j < nm.len() implies decode_model(
                    #[trigger] nm[j],
                ) is Some by {
                    assert(nm[j] == native_model(items@[j]));
                    assert(decode_model(native_model(items@[j])) == Some(value_model(out@[j])));
                }
                assert(decode_models(nm) is Some);
                assert(decode_models(nm)->Some_0 =~= value_models(out@));
            }
            Ok(Value::Array(out))
        },
        Native::Mapping(pairs) => {
            let mut out: Vec<(Value, Value)> = Vec::new();
            let mut i: usize = 0;
            while i < pairs.len()
                invariant
                    0 <= i <= pairs@.len(),
                    out@.len() == i,
                    forall|j: int|
                        0 <= j < i ==> decode_model(native_model(pairs@[j].0)) == Some(
                            value_model(#[trigger] out@[j].0),
                        ) && decode_model(native_model(pairs@[j].1)) == Some(
                            value_model(out@[j].1),
                        ),
                decreases pairs@.len() - i,
            {
                let k = match decode_native(&pairs[i].0) {
                    Ok(v) => v,
                    Err(e) => {
                        proof {
                            lemma_native_pair_models(pairs@);
                            lemma_decode_pair_models(native_pair_models(pairs@));
                            assert(decode_model(
                                native_pair_models(pairs@)[i as int].0,
                            ) is None);
                        }
                        return Err(e);
                    },
                };
                let v = match decode_native(&pairs[i].1) {
                    Ok(v) => v,
                    Err(e) => {
                        proof {
                            lemma_native_pair_models(pairs@);
                            lemma_decode_pair_models(native_pair_models(pairs@));
                            assert(decode_model(
                                native_pair_models(pairs@)[i as int].1,
                            ) is None);
                        }
                        return Err(e);
                    },
                };
                out.push((k, v));
                i = i + 1;
            }
            proof {
                lemma_native_pair_models(pairs@);
                lemma_decode_pair_models(native_pair_models(pairs@));
                lemma_value_pair_models(out@);
                let nm = native_pair_models(pairs@);
                assert forall|j: int| 0 <= j < nm.len() implies decode_model(
                    #[trigger] nm[j].0,
                ) is Some && decode_model(nm[j].1) is Some by {
                    assert(nm[j] == (native_model(pairs@[j].0), native_model(pairs@[j].1)));
                    assert(decode_model(native_model(pairs@[j].0)) == Some(
                        value_model(out@[j].0),
                    ));
                    assert(decode_model(native_model(pairs@[j].1)) == Some(
                        value_model(out@[j].1),
                    ));
                }
                assert(decode_pair_models(nm) is Some);
                let r = decode_pair_models(nm)->Some_0;
                assert forall|j: int|
                    0 <= j < nm.len() implies r[j] == value_pair_models(out@)[j] by {
                    assert(nm[j] == (native_model(pairs@[j].0), native_model(pairs@[j].1)));
                    assert(decode_model(native_model(pairs@[j].0)) == Some(
                        value_model(out@[j].0),
                    ));
                    assert(decode_model(native_model(pairs@[j].1)) == Some(
                        value_model(out@[j].1),
                    ));
                    assert(Some(r[j].0) == decode_model(nm[j].0));
                    assert(Some(r[j].1) == decode_model(nm[j].1));
                    assert(r[j] == (r[j].0, r[j].1));
                    assert(value_pair_models(out@)[j] == (
                        value_model(out@[j].0),
                        value_model(out@[j].1),
                    ));
                }
                assert(r =~= value_pair_models(out@));
            }
            Ok(Value::Mapping(out))
        },
    }
}

/// Decodes a column as handed back by the driver: an absent column decodes to
/// `Null`.
pub fn parse_cql_value(column: Option<&Native>) -> (r: Result<Value, DecodeError>)
    ensures
        r is Ok <==> (column matches Some(n) ==> decode_model(n@) is Some),
        r matches Ok(v) ==> Some(v@) == (match column {
            Some(n) => decode_model(n@),
            None => Some(ValueModel::Null),
        }),
{
    match column {
        Some(n) => decode_native(n),
        None => Ok(Value::Null),
    }
}

/// A target column type an encoded value must fit.
#[derive(Debug, PartialEq)]
pub enum ColumnKind {
    Int,
    Text,
    Boolean,
    BigInt,
    Timestamp,
    List(Box<ColumnKind>),
    Mapping(Box<ColumnKind>, Box<ColumnKind>),
}

/// A value-codec encoding failure: a value whose shape does not fit the
/// target column type, or a date string that does not parse as RFC 3339.
#[derive(Debug, PartialEq)]
pub enum EncodeError {
    Incompatible { value_kind: String, target_kind: String },
    BadDate { text: String },
}

/// Whether a value's shape fits a target column type: strings against text,
/// numbers against int, booleans against boolean, dates against timestamp,
/// null against anything, collections element by element.
pub open spec fn compat(m: ValueModel, t: ColumnKind) -> bool
    decreases m,
{
    match m {
        ValueModel::Str(_) => t is Text,
        ValueModel::Bool(_) => t is Boolean,
        ValueModel::Num(_) => t is Int,
        ValueModel::Null => true,
        ValueModel::Date(_) => t is Timestamp,
        ValueModel::Array(items) => match t {
            ColumnKind::List(e) => compat_seq(items, *e),
            _ => false,
        },
        ValueModel::Mapping(pairs) => match t {
            ColumnKind::Mapping(k, v) => compat_pairs(pairs, *k, *v),
            _ => false,
        },
    }
}

/// Whether every element of a sequence fits a target element type.
pub open spec fn compat_seq(s: Seq<ValueModel>, t: ColumnKind) -> bool
    decreases s,
{
    s.len() == 0 || (compat(s[0], t) && compat_seq(s.subrange(1, s.len() as int), t))
}

/// Whether every pair of a sequence fits target key and value types.
pub open spec fn compat_pairs(s: Seq<(ValueModel, ValueModel)>, k: ColumnKind, v: ColumnKind) -> bool
    decreases s,
{
    s.len() == 0 || (compat(s[0].0, k) && compat(s[0].1, v) && compat_pairs(
        s.subrange(1, s.len() as int),
        k,
        v,
    ))
}

/// A sequence fits exactly when each element does.
pub proof fn lemma_compat_seq(s: Seq<ValueModel>, t: ColumnKind)
    ensures
        compat_seq(s, t) <==> (forall|i: int| 0 <= i < s.len() ==> compat(#[trigger] s[i], t)),
    decreases s,
{
    if s.len() > 0 {
        let tail = s.subrange(1, s.len() as int);
        lemma_compat_seq(tail, t);
        if compat_seq(s, t) {
            assert forall|i: int| 0 <= i < s.len() implies compat(#[trigger] s[i], t) by {
                if i > 0 {
                    assert(tail[i - 1] == s[i]);
                    assert(compat(tail[i - 1], t));
                }
            }
        }
        if forall|i: int| 0 <= i < s.len() ==> compat(#[trigger] s[i], t) {
            assert forall|i: int| 0 <= i < tail.len() implies compat(#[trigger] tail[i], t) by {
                assert(tail[i] == s[i + 1]);
            }
        }
    }
}

/// A pair sequence fits exactly when each component does.
pub proof fn lemma_compat_pairs(s: Seq<(ValueModel, ValueModel)>, k: ColumnKind, v: ColumnKind)
    ensures
        compat_pairs(s, k, v) <==> (forall|i: int|
            #![trigger s[i]]
            0 <= i < s.len() ==> compat(s[i].0, k) && compat(s[i].1, v)),
    decreases s,
{
    if s.len() > 0 {
        let tail = s.subrange(1, s.len() as int);
        lemma_compat_pairs(tail, k, v);
        if compat_pairs(s, k, v) {
            assert forall|i: int| #![trigger s[i]]
                0 <= i < s.len() implies compat(s[i].0, k) && compat(s[i].1, v) by {
                if i > 0 {
                    assert(tail[i - 1] == s[i]);
                }
            }
        }
        if forall|i: int| #![trigger s[i]] 0 <= i < s.len() ==> compat(s[i].0, k) && compat(
            s[i].1,
            v,
        ) {
            assert forall|i: int| #![trigger tail[i]]
                0 <= i < tail.len() implies compat(tail[i].0, k) && compat(tail[i].1, v) by {
                assert(tail[i] == s[i + 1]);
            }
        }
    }
}

/// The encoding of one value, independent of the target type, or `None` when
/// a date string does not parse as RFC 3339.
pub open spec fn encode_model(m: ValueModel) -> Option<NativeModel>
    decreases m,
{
    match m {
        ValueModel::Str(s) => Some(NativeModel::Text(s)),
        ValueModel::Bool(b) => Some(NativeModel::Boolean(b)),
        ValueModel::Num(n) => Some(NativeModel::Int(n)),
        ValueModel::Null => Some(NativeModel::Empty),
        ValueModel::Date(s) => match rfc3339_millis(s) {
            Some(ms) => Some(NativeModel::Timestamp(ms)),
            None => None,
        },
        ValueModel::Array(items) => match encode_models(items) {
            Some(ns) => Some(NativeModel::List(ns)),
            None => None,
        },
        ValueModel::Mapping(pairs) => match encode_pair_models(pairs) {
            Some(ps) => Some(NativeModel::Mapping(ps)),
            None => None,
        },
    }
}

/// The encodings of a sequence of values, or `None` when any fails.
pub open spec fn encode_models(s: Seq<ValueModel>) -> Option<Seq<NativeModel>>
    decreases s,
{
    if s.len() == 0 {
        Some(Seq::empty())
    } else {
        match (encode_model(s[0]), encode_models(s.subrange(1, s.len() as int))) {
            (Some(n), Some(rest)) => Some(seq![n] + rest),
            _ => None,
        }
    }
}

/// The encodings of a sequence of pairs, or `None` when any component fails.
pub open spec fn encode_pair_models(s: Seq<(ValueModel, ValueModel)>) -> Option<
    Seq<(NativeModel, NativeModel)>,
>
    decreases s,
{
    if s.len() == 0 {
        Some(Seq::empty())
    } else {
        match (
            encode_model(s[0].0),
            encode_model(s[0].1),
            encode_pair_models(s.subrange(1, s.len() as int)),
        ) {
            (Some(k), Some(v), Some(rest)) => Some(seq![(k, v)] + rest),
            _ => None,
        }
    }
}

/// A sequence encodes exactly when each element does, element by element.
pub proof fn lemma_encode_models(s: Seq<ValueModel>)
    ensures
        encode_models(s) is Some <==> (forall|i: int|
            0 <= i < s.len() ==> encode_model(#[trigger] s[i]) is Some),
        encode_models(s) matches Some(r) ==> r.len() == s.len() && (forall|i: int|
            0 <= i < s.len() ==> Some(#[trigger] r[i]) == encode_model(s[i])),
    decreases s,
{
    if s.len() > 0 {
        let tail = s.subrange(1, s.len() as int);
        lemma_encode_models(tail);
        if forall|i: int| 0 <= i < s.len() ==> encode_model(#[trigger] s[i]) is Some {
            assert forall|i: int|
                0 <= i < tail.len() implies encode_model(#[trigger] tail[i]) is Some by {
                assert(tail[i] == s[i + 1]);
            }
            assert(encode_models(tail) is Some);
        }
        if encode_models(s) is Some {
            let r = encode_models(s)->Some_0;
            let rt = encode_models(tail)->Some_0;
            assert(r == seq![encode_model(s[0])->Some_0] + rt);
            assert forall|i: int|
                0 <= i < s.len() implies encode_model(#[trigger] s[i]) is Some by {
                if i > 0 {
                    assert(tail[i - 1] == s[i]);
                    assert(encode_model(tail[i - 1]) is Some);
                }
            }
            assert forall|i: int|
                0 <= i < s.len() implies Some(#[trigger] r[i]) == encode_model(s[i]) by {
                if i > 0 {
                    assert(r[i] == rt[i - 1]);
                    assert(tail[i - 1] == s[i]);
                }
            }
        }
    }
}

/// A pair sequence encodes exactly when each component does.
pub proof fn lemma_encode_pair_models(s: Seq<(ValueModel, ValueModel)>)
    ensures
        encode_pair_models(s) is Some <==> (forall|i: int|
            0 <= i < s.len() ==> encode_model(#[trigger] s[i].0) is Some && encode_model(
                s[i].1,
            ) is Some),
        encode_pair_models(s) matches Some(r) ==> r.len() == s.len() && (forall|i: int|
            0 <= i < s.len() ==> Some(#[trigger] r[i].0) == encode_model(s[i].0) && Some(
                r[i].1,
            ) == encode_model(s[i].1)),
    decreases s,
{
    if s.len() > 0 {
        let tail = s.subrange(1, s.len() as int);
        lemma_encode_pair_models(tail);
        if forall|i: int|
            0 <= i < s.len() ==> encode_model(#[trigger] s[i].0) is Some && encode_model(
                s[i].1,
            ) is Some {
            assert forall|i: int|
                0 <= i < tail.len() implies encode_model(#[trigger] tail[i].0) is Some
                && encode_model(tail[i].1) is Some by {
                assert(tail[i] == s[i + 1]);
            }
            assert(encode_pair_models(tail) is Some);
        }
        if encode_pair_models(s) is Some {
            let r = encode_pair_models(s)->Some_0;
            let rt = encode_pair_models(tail)->Some_0;
            assert(r == seq![(encode_model(s[0].0)->Some_0, encode_model(s[0].1)->Some_0)] + rt);
            assert forall|i: int|
                0 <= i < s.len() implies encode_model(#[trigger] s[i].0) is Some && encode_model(
                s[i].1,
            ) is Some by {
                if i > 0 {
                    assert(tail[i - 1] == s[i]);
                    assert(encode_model(tail[i - 1].0) is Some);
                    assert(encode_model(tail[i - 1].1) is Some);
                }
            }
            assert forall|i: int|
                0 <= i < s.len() implies Some(#[trigger] r[i].0) == encode_model(s[i].0) && Some(
                r[i].1,
            ) == encode_model(s[i].1) by {
                if i > 0 {
                    assert(r[i] == rt[i - 1]);
                    assert(tail[i - 1] == s[i]);
                }
            }
        }
    }
}

/// Whether a value holds no date anywhere.
pub open spec fn date_free(m: ValueModel) -> bool
    decreases m,
{
    match m {
        ValueModel::Date(_) => false,
        ValueModel::Array(items) => date_free_seq(items),
        ValueModel::Mapping(pairs) => date_free_pairs(pairs),
        _ => true,
    }
}

/// Whether a sequence of values holds no date anywhere.
pub open spec fn date_free_seq(s: Seq<ValueModel>) -> bool
    decreases s,
{
    s.len() == 0 || (date_free(s[0]) && date_free_seq(s.subrange(1, s.len() as int)))
}

/// Whether a pair sequence holds no date anywhere.
pub open spec fn date_free_pairs(s: Seq<(ValueModel, ValueModel)>) -> bool
    decreases s,
{
    s.len() == 0 || (date_free(s[0].0) && date_free(s[0].1) && date_free_pairs(
        s.subrange(1, s.len() as int),
    ))
}

/// A sequence is date-free exactly when each element is.
pub proof fn lemma_date_free_seq(s: Seq<ValueModel>)
    ensures
        date_free_seq(s) <==> (forall|i: int| 0 <= i < s.len() ==> date_free(#[trigger] s[i])),
    decreases s,
{
    if s.len() > 0 {
        let tail = s.subrange(1, s.len() as int);
        lemma_date_free_seq(tail);
        if date_free_seq(s) {
            assert forall|i: int| 0 <= i < s.len() implies date_free(#[trigger] s[i]) by {
                if i > 0 {
                    assert(tail[i - 1] == s[i]);
                    assert(date_free(tail[i - 1]));
                }
            }
        }
        if forall|i: int| 0 <= i < s.len() ==> date_free(#[trigger] s[i]) {
            assert forall|i: int| 0 <= i < tail.len() implies date_free(#[trigger] tail[i]) by {
                assert(tail[i] == s[i + 1]);
            }
        }
    }
}

/// A pair sequence is date-free exactly when each component is.
pub proof fn lemma_date_free_pairs(s: Seq<(ValueModel, ValueModel)>)
    ensures
        date_free_pairs(s) <==> (forall|i: int|
            #![trigger s[i]]
            0 <= i < s.len() ==> date_free(s[i].0) && date_free(s[i].1)),
    decreases s,
{
    if s.len() > 0 {
        let tail = s.subrange(1, s.len() as int);
        lemma_date_free_pairs(tail);
        if date_free_pairs(s) {
            assert forall|i: int| #![trigger s[i]]
                0 <= i < s.len() implies date_free(s[i].0) && date_free(s[i].1) by {
                if i > 0 {
                    assert(tail[i - 1] == s[i]);
                }
            }
        }
        if forall|i: int| #![trigger s[i]] 0 <= i < s.len() ==> date_free(s[i].0) && date_free(
            s[i].1,
        ) {
            assert forall|i: int| #![trigger tail[i]]
                0 <= i < tail.len() implies date_free(tail[i].0) && date_free(tail[i].1) by {
                assert(tail[i] == s[i + 1]);
            }
        }
    }
}

/// Round trip: encoding any date-free value and decoding the result gives the
/// value back unchanged. Date strings are excluded because decoding always
/// renders UTC, so a date written with a non-zero offset comes back as a
/// different string for the same instant.
pub proof fn lemma_codec_round_trip(m: ValueModel)
    requires
        date_free(m),
    ensures
        encode_model(m) is Some,
        decode_model(encode_model(m)->Some_0) == Some(m),
    decreases m,
{
    match m {
        ValueModel::Array(items) => {
            lemma_date_free_seq(items);
            assert forall|i: int|
                0 <= i < items.len() implies encode_model(#[trigger] items[i]) is Some
                && decode_model(encode_model(items[i])->Some_0) == Some(items[i]) by {
                lemma_codec_round_trip(items[i]);
            }
            lemma_encode_models(items);
            let ns = encode_models(items)->Some_0;
            lemma_decode_models(ns);
            assert forall|i: int| 0 <= i < ns.len() implies decode_model(
                #[trigger] ns[i],
            ) is Some by {
                assert(Some(ns[i]) == encode_model(items[i]));
            }
            assert(decode_models(ns) is Some);
            assert forall|i: int|
                0 <= i < ns.len() implies decode_models(ns)->Some_0[i] == items[i] by {
                assert(Some(ns[i]) == encode_model(items[i]));
                assert(Some(decode_models(ns)->Some_0[i]) == decode_model(ns[i]));
            }
            assert(decode_models(ns)->Some_0 =~= items);
        },
        ValueModel::Mapping(pairs) => {
            lemma_date_free_pairs(pairs);
            assert forall|i: int|
                0 <= i < pairs.len() implies encode_model(#[trigger] pairs[i].0) is Some
                && encode_model(pairs[i].1) is Some && decode_model(
                encode_model(pairs[i].0)->Some_0,
            ) == Some(pairs[i].0) && decode_model(encode_model(pairs[i].1)->Some_0) == Some(
                pairs[i].1,
            ) by {
                lemma_codec_round_trip(pairs[i].0);
                lemma_codec_round_trip(pairs[i].1);
            }
            lemma_encode_pair_models(pairs);
            let ps = encode_pair_models(pairs)->Some_0;
            lemma_decode_pair_models(ps);
            assert forall|i: int|
                0 <= i < ps.len() implies decode_model(#[trigger] ps[i].0) is Some && decode_model(
                ps[i].1,
            ) is Some by {
                assert(Some(ps[i].0) == encode_model(pairs[i].0));
                assert(Some(ps[i].1) == encode_model(pairs[i].1));
            }
            assert(decode_pair_models(ps) is Some);
            let r = decode_pair_models(ps)->Some_0;
            assert forall|i: int| 0 <= i < ps.len() implies r[i] == pairs[i] by {
                assert(Some(ps[i].0) == encode_model(pairs[i].0));
                assert(Some(ps[i].1) == encode_model(pairs[i].1));
                assert(Some(r[i].0) == decode_model(ps[i].0));
                assert(Some(r[i].1) == decode_model(ps[i].1));
                assert(r[i] == (r[i].0, r[i].1));
                assert(pairs[i] == (pairs[i].0, pairs[i].1));
            }
            assert(r =~= pairs);
        },
        _ => {},
    }
}

/// The short name of a value's shape, as encode errors report it.
pub open spec fn value_label(m: ValueModel) -> Seq<char> {
    match m {
        ValueModel::Str(_) => "string"@,
        ValueModel::Bool(_) => "bool"@,
        ValueModel::Num(_) => "number"@,
        ValueModel::Null => "null"@,
        ValueModel::Array(_) => "array"@,
        ValueModel::Mapping(_) => "map"@,
        ValueModel::Date(_) => "date"@,
    }
}

/// The short name of a target column type, as encode errors report it.
pub open spec fn column_label(t: ColumnKind) -> Seq<char> {
    match t {
        ColumnKind::Int => "int"@,
        ColumnKind::Text => "text"@,
        ColumnKind::Boolean => "boolean"@,
        ColumnKind::BigInt => "bigint"@,
        ColumnKind::Timestamp => "timestamp"@,
        ColumnKind::List(_) => "list"@,
        ColumnKind::Mapping(_, _) => "map"@,
    }
}

/// Whether a value's outermost shape fits a target's outermost shape.
pub open spec fn shallow_compat(m: ValueModel, t: ColumnKind) -> bool {
    match m {
        ValueModel::Str(_) => t is Text,
        ValueModel::Bool(_) => t is Boolean,
        ValueModel::Num(_) => t is Int,
        ValueModel::Null => true,
        ValueModel::Date(_) => t is Timestamp,
        ValueModel::Array(_) => t is List,
        ValueModel::Mapping(_) => t is Mapping,
    }
}

/// A short name for the shape of a value, for encode errors.
fn value_kind_label(v: &Value) -> (r: String)
    ensures
        r@ == value_label(v@),
{
    let s = match v {
        Value::Str(_) => "string",
        Value::Bool(_) => "bool",
        Value::Num(_) => "number",
        Value::Null => "null",
        Value::Array(_) => "array",
        Value::Mapping(_) => "map",
        Value::Date(_) => "date",
    };
    s.to_owned()
}

/// A short name for a target column type, for encode errors.
fn target_kind_label(t: &ColumnKind) -> (r: String)
    ensures
        r@ == column_label(*t),
{
    let s = match t {
        ColumnKind::Int => "int",
        ColumnKind::Text => "text",
        ColumnKind::Boolean => "boolean",
        ColumnKind::BigInt => "bigint",
        ColumnKind::Timestamp => "timestamp",
        ColumnKind::List(_) => "list",
        ColumnKind::Mapping(_, _) => "map",
    };
    s.to_owned()
}

/// Encodes a value against a target column type. Succeeds exactly when the
/// value's shape fits the target and every date inside parses as RFC 3339;
/// an ill-shaped value is reported with the kinds that clashed, never by
/// panicking.
#[verifier::loop_isolation(false)]
pub fn encode_value(v: &Value, target: &ColumnKind) -> (r: Result<Native, EncodeError>)
    ensures
        r is Ok <==> compat(v@, *target) && encode_model(v@) is Some,
        r matches Ok(n) ==> Some(n@) == encode_model(v@),
        r matches Err(EncodeError::Incompatible { .. }) ==> !compat(v@, *target),
        r matches Err(EncodeError::Incompatible { value_kind, target_kind }) ==> (exists|
            m: ValueModel,
            t: ColumnKind,
        |
            #![trigger value_label(m), column_label(t)]
            !shallow_compat(m, t) && !(m is Null) && value_kind@ == value_label(m) && target_kind@
                == column_label(t)),
        r matches Err(EncodeError::BadDate { text }) ==> rfc3339_millis(text@) is None,
    decreases v,
{
    match (v, target) {
        (Value::Str(s), ColumnKind::Text) => Ok(Native::Text(s.clone())),
        (Value::Bool(b), ColumnKind::Boolean) => Ok(Native::Boolean(*b)),
        (Value::Num(n), ColumnKind::Int) => Ok(Native::Int(*n)),
        (Value::Null, _) => Ok(Native::Empty),
        (Value::Date(s), ColumnKind::Timestamp) => match rfc3339_to_millis(s.as_str()) {
            Some(ms) => Ok(Native::Timestamp(ms)),
            None => Err(EncodeError::BadDate { text: s.clone() }),
        },
        (Value::Array(items), ColumnKind::List(elem)) => {
            let mut out: Vec<Native> = Vec::new();
            let mut i: usize = 0;
            while i < items.len()
                invariant
                    0 <= i <= items@.len(),
                    out@.len() == i,
                    forall|j: int|
                        0 <= j < i ==> compat(value_model(items@[j]), **elem) && encode_model(
                            value_model(#[trigger] items@[j]),
                        ) == Some(native_model(out@[j])),
                decreases items@.len() - i,
            {
                match encode_value(&items[i], elem) {
                    Ok(n) => out.push(n),
                    Err(e) => {
                        proof {
                            lemma_value_models(items@);
                            lemma_compat_seq(value_models(items@), **elem);
                            lemma_encode_models(value_models(items@));
                            assert(value_models(items@)[i as int] == value_model(
                                items@[i as int],
                            ));
                        }
                        return Err(e);
                    },
                }
                i = i + 1;
            }
            proof {
                lemma_value_models(items@);
                lemma_native_models(out@);
                lemma_compat_seq(value_models(items@), **elem);
                lemma_encode_models(value_models(items@));
                let vm = value_models(items@);
                assert forall|j: int| 0 <= j < vm.len() implies compat(#[trigger] vm[j], **elem)
                    && encode_model(vm[j]) is Some by {
                    assert(vm[j] == value_model(items@[j]));
                    assert(encode_model(value_model(items@[j])) == Some(native_model(out@[j])));
                }
                assert(compat_seq(vm, **elem));
                assert(encode_models(vm) is Some);
                assert forall|j: int|
                    0 <= j < vm.len() implies encode_models(vm)->Some_0[j] == native_models(
                    out@,
                )[j] by {
                    assert(vm[j] == value_model(items@[j]));
                    assert(encode_model(value_model(items@[j])) == Some(native_model(out@[j])));
                    assert(Some(encode_models(vm)->Some_0[j]) == encode_model(vm[j]));
                    assert(native_models(out@)[j] == native_model(out@[j]));
                }
                assert(encode_models(vm)->Some_0 =~= native_models(out@));
            }
            Ok(Native::List(out))
        },
        (Value::Mapping(pairs), ColumnKind::Mapping(kk, vk)) => {
            let mut out: Vec<(Native, Native)> = Vec::new();
            let mut i: usize = 0;
            while i < pairs.len()
                invariant
                    0 <= i <= pairs@.len(),
                    out@.len() == i,
                    forall|j: int|
                        0 <= j < i ==> compat(value_model(#[trigger] pairs@[j].0), **kk) && compat(
                            value_model(pairs@[j].1),
                            **vk,
                        ) && encode_model(value_model(pairs@[j].0)) == Some(
                            native_model(out@[j].0),
                        ) && encode_model(value_model(pairs@[j].1)) == Some(
                            native_model(out@[j].1),
                        ),
                decreases pairs@.len() - i,
            {
                let ek = match encode_value(&pairs[i].0, kk) {
                    Ok(n) => n,
                    Err(e) => {
                        proof {
                            lemma_value_pair_models(pairs@);
                            lemma_compat_pairs(value_pair_models(pairs@), **kk, **vk);
                            lemma_encode_pair_models(value_pair_models(pairs@));
                            assert(value_pair_models(pairs@)[i as int] == (
                                value_model(pairs@[i as int].0),
                                value_model(pairs@[i as int].1),
                            ));
                            assert(value_pair_models(pairs@)[i as int].0 == value_model(
                                pairs@[i as int].0,
                            ));
                        }
                        return Err(e);
                    },
                };
                let ev = match encode_value(&pairs[i].1, vk) {
                    Ok(n) => n,
                    Err(e) => {
                        proof {
                            lemma_value_pair_models(pairs@);
                            lemma_compat_pairs(value_pair_models(pairs@), **kk, **vk);
                            lemma_encode_pair_models(value_pair_models(pairs@));
                            assert(value_pair_models(pairs@)[i as int] == (
                                value_model(pairs@[i as int].0),
                                value_model(pairs@[i as int].1),
                            ));
                            assert(value_pair_models(pairs@)[i as int].1 == value_model(
                                pairs@[i as int].1,
                            ));
                        }
                        return Err(e);
                    },
                };
                out.push((ek, ev));
                i = i + 1;
            }
            proof {
                lemma_value_pair_models(pairs@);
                lemma_native_pair_models(out@);
                lemma_compat_pairs(value_pair_models(pairs@), **kk, **vk);
                lemma_encode_pair_models(value_pair_models(pairs@));
                let vm = value_pair_models(pairs@);
                assert forall|j: int| #![trigger vm[j]]
                    0 <= j < vm.len() implies compat(vm[j].0, **kk) && compat(vm[j].1, **vk)
                    && encode_model(vm[j].0) is Some && encode_model(vm[j].1) is Some by {
                    assert(vm[j] == (value_model(pairs@[j].0), value_model(pairs@[j].1)));
                    assert(compat(value_model(pairs@[j].0), **kk));
                    assert(encode_model(value_model(pairs@[j].0)) == Some(
                        native_model(out@[j].0),
                    ));
                    assert(encode_model(value_model(pairs@[j].1)) == Some(
                        native_model(out@[j].1),
                    ));
                }
                assert(compat_pairs(vm, **kk, **vk));
                assert(encode_pair_models(vm) is Some);
                let r = encode_pair_models(vm)->Some_0;
                assert forall|j: int|
                    0 <= j < vm.len() implies r[j] == native_pair_models(out@)[j] by {
                    assert(vm[j] == (value_model(pairs@[j].0), value_model(pairs@[j].1)));
                    assert(encode_model(value_model(pairs@[j].0)) == Some(
                        native_model(out@[j].0),
                    ));
                    assert(encode_model(value_model(pairs@[j].1)) == Some(
                        native_model(out@[j].1),
                    ));
                    assert(Some(r[j].0) == encode_model(vm[j].0));
                    assert(Some(r[j].1) == encode_model(vm[j].1));
                    assert(r[j] == (r[j].0, r[j].1));
                    assert(native_pair_models(out@)[j] == (
                        native_model(out@[j].0),
                        native_model(out@[j].1),
                    ));
                }
                assert(r =~= native_pair_models(out@));
            }
            Ok(Native::Mapping(out))
        },
        (vv, t) => {
            proof {
                assert(!shallow_compat(vv@, *t));
            }
            Err(
                EncodeError::Incompatible {
                    value_kind: value_kind_label(vv),
                    target_kind: target_kind_label(t),
                },
            )
        },
    }
}

/// Encodes a value by its own shape, with no target type to fit: the path a
/// statement's bound values take. Succeeds exactly when every date inside
/// parses as RFC 3339.
#[verifier::loop_isolation(false)]
pub fn encode_untyped(v: &Value) -> (r: Result<Native, EncodeError>)
    ensures
        r is Ok <==> encode_model(v@) is Some,
        r matches Ok(n) ==> Some(n@) == encode_model(v@),
        r matches Err(EncodeError::BadDate { text }) ==> rfc3339_millis(text@) is None,
        r matches Err(e) ==> e matches EncodeError::BadDate { .. },
    decreases v,
{
    match v {
        Value::Str(s) => Ok(Native::Text(s.clone())),
        Value::Bool(b) => Ok(Native::Boolean(*b)),
        Value::Num(n) => Ok(Native::Int(*n)),
        Value::Null => Ok(Native::Empty),
        Value::Date(s) => match rfc3339_to_millis(s.as_str()) {
            Some(ms) => Ok(Native::Timestamp(ms)),
            None => Err(EncodeError::BadDate { text: s.clone() }),
        },
        Value::Array(items) => {
            let mut out: Vec<Native> = Vec::new();
            let mut i: usize = 0;
            while i < items.len()
                invariant
                    0 <= i <= items@.len(),
                    out@.len() == i,
                    forall|j: int|
                        0 <= j < i ==> encode_model(value_model(#[trigger] items@[j])) == Some(
                            native_model(out@[j]),
                        ),
                decreases items@.len() - i,
            {
                match encode_untyped(&items[i]) {
                    Ok(n) => out.push(n),
                    Err(e) => {
                        proof {
                            lemma_value_models(items@);
                            lemma_encode_models(value_models(items@));
                            assert(value_models(items@)[i as int] == value_model(
                                items@[i as int],
                            ));
                        }
                        return Err(e);
                    },
                }
                i = i + 1;
            }
            proof {
                lemma_value_models(items@);
                lemma_native_models(out@);
                lemma_encode_models(value_models(items@));
                let vm = value_models(items@);
                assert forall|j: int| 0 <= j < vm.len() implies encode_model(
                    #[trigger] vm[j],
                ) is Some by {
                    assert(vm[j] == value_model(items@[j]));
                    assert(encode_model(value_model(items@[j])) == Some(native_model(out@[j])));
                }
                assert(encode_models(vm) is Some);
                assert forall|j: int|
                    0 <= j < vm.len() implies encode_models(vm)->Some_0[j] == native_models(
                    out@,
                )[j] by {
                    assert(vm[j] == value_model(items@[j]));
                    assert(encode_model(value_model(items@[j])) == Some(native_model(out@[j])));
                    assert(Some(encode_models(vm)->Some_0[j]) == encode_model(vm[j]));
                    assert(native_models(out@)[j] == native_model(out@[j]));
                }
                assert(encode_models(vm)->Some_0 =~= native_models(out@));
            }
            Ok(Native::List(out))
        },
        Value::Mapping(pairs) => {
            let mut out: Vec<(Native, Native)> = Vec::new();
            let mut i: usize = 0;
            while i < pairs.len()
                invariant
                    0 <= i <= pairs@.len(),
                    out@.len() == i,
                    forall|j: int|
                        0 <= j < i ==> encode_model(value_model(#[trigger] pairs@[j].0)) == Some(
                            native_model(out@[j].0),
                        ) && encode_model(value_model(pairs@[j].1)) == Some(
                            native_model(out@[j].1),
                        ),
                decreases pairs@.len() - i,
            {
                let ek = match encode_untyped(&pairs[i].0) {
                    Ok(n) => n,
                    Err(e) => {
                        proof {
                            lemma_value_pair_models(pairs@);
                            lemma_encode_pair_models(value_pair_models(pairs@));
                            assert(value_pair_models(pairs@)[i as int] == (
                                value_model(pairs@[i as int].0),
                                value_model(pairs@[i as int].1),
                            ));
                            assert(value_pair_models(pairs@)[i as int].0 == value_model(
                                pairs@[i as int].0,
                            ));
                        }
                        return Err(e);
                    },
                };
                let ev = match encode_untyped(&pairs[i].1) {
                    Ok(n) => n,
                    Err(e) => {
                        proof {
                            lemma_value_pair_models(pairs@);
                            lemma_encode_pair_models(value_pair_models(pairs@));
                            assert(value_pair_models(pairs@)[i as int] == (
                                value_model(pairs@[i as int].0),
                                value_model(pairs@[i as int].1),
                            ));
                            assert(value_pair_models(pairs@)[i as int].1 == value_model(
                                pairs@[i as int].1,
                            ));
                        }
                        return Err(e);
                    },
                };
                out.push((ek, ev));
                i = i + 1;
            }
            proof {
                lemma_value_pair_models(pairs@);
                lemma_native_pair_models(out@);
                lemma_encode_pair_models(value_pair_models(pairs@));
                let vm = value_pair_models(pairs@);
                assert forall|j: int| #![trigger vm[j]]
                    0 <= j < vm.len() implies encode_model(vm[j].0) is Some && encode_model(
                    vm[j].1,
                ) is Some by {
                    assert(vm[j] == (value_model(pairs@[j].0), value_model(pairs@[j].1)));
                    assert(encode_model(value_model(pairs@[j].0)) == Some(
                        native_model(out@[j].0),
                    ));
                    assert(encode_model(value_model(pairs@[j].1)) == Some(
                        native_model(out@[j].1),
                    ));
                }
                assert(encode_pair_models(vm) is Some);
                let r = encode_pair_models(vm)->Some_0;
                assert forall|j: int|
                    0 <= j < vm.len() implies r[j] == native_pair_models(out@)[j] by {
                    assert(vm[j] == (value_model(pairs@[j].0), value_model(pairs@[j].1)));
                    assert(encode_model(value_model(pairs@[j].0)) == Some(
                        native_model(out@[j].0),
                    ));
                    assert(encode_model(value_model(pairs@[j].1)) == Some(
                        native_model(out@[j].1),
                    ));
                    assert(Some(r[j].0) == encode_model(vm[j].0));
                    assert(Some(r[j].1) == encode_model(vm[j].1));
                    assert(r[j] == (r[j].0, r[j].1));
                    assert(native_pair_models(out@)[j] == (
                        native_model(out@[j].0),
                        native_model(out@[j].1),
                    ));
                }
                assert(r =~= native_pair_models(out@));
            }
            Ok(Native::Mapping(out))
        },
    }
}

} // verus!
