//! The generic value model: a recursive tagged union for every value
//! exchangeable with a client or with the database, and a model of the native
//! column values the driver hands back.

use vstd::prelude::*;

verus! {

broadcast use vstd::std_specs::vec::group_vec_axioms, vstd::seq::group_seq_axioms;

/// A value exchanged with a client or bound into a statement.
///
/// Trees only: a value never contains itself. Maps are ordered key/value pair
/// lists, so non-string keys and insertion order survive the wire. Dates are
/// RFC 3339 strings.
#[derive(Debug, PartialEq)]
pub enum Value {
    Str(String),
    Bool(bool),
    Num(i32),
    Null,
    Array(Vec<Value>),
    Mapping(Vec<(Value, Value)>),
    Date(String),
}

/// The mathematical shape of a [`Value`]: strings become character sequences,
/// vectors become sequences.
pub enum ValueModel {
    Str(Seq<char>),
    Bool(bool),
    Num(i32),
    Null,
    Array(Seq<ValueModel>),
    Mapping(Seq<(ValueModel, ValueModel)>),
    Date(Seq<char>),
}

/// The model of one value.
pub open spec fn value_model(v: Value) -> ValueModel
    decreases v,
{
    match v {
        Value::Str(s) => ValueModel::Str(s@),
        Value::Bool(b) => ValueModel::Bool(b),
        Value::Num(n) => ValueModel::Num(n),
        Value::Null => ValueModel::Null,
        Value::Array(items) => ValueModel::Array(value_models(items@)),
        Value::Mapping(pairs) => ValueModel::Mapping(value_pair_models(pairs@)),
        Value::Date(s) => ValueModel::Date(s@),
    }
}

/// The models of a sequence of values, in order.
pub open spec fn value_models(s: Seq<Value>) -> Seq<ValueModel>
    decreases s,
{
    if s.len() == 0 {
        Seq::empty()
    } else {
        seq![value_model(s[0])] + value_models(s.subrange(1, s.len() as int))
    }
}

/// The models of a sequence of key/value pairs, in order.
pub open spec fn value_pair_models(s: Seq<(Value, Value)>) -> Seq<(ValueModel, ValueModel)>
    decreases s,
{
    if s.len() == 0 {
        Seq::empty()
    } else {
        seq![(value_model(s[0].0), value_model(s[0].1))] + value_pair_models(
            s.subrange(1, s.len() as int),
        )
    }
}

impl View for Value {
    type V = ValueModel;

    open spec fn view(&self) -> ValueModel {
        value_model(*self)
    }
}

/// A native column value as the database driver presents it, modelled with
/// plain data: timestamps as epoch milliseconds, blobs as bytes. `Other`
/// stands for any native type the codec does not understand.
#[derive(Debug, PartialEq)]
pub enum Native {
    Int(i32),
    Text(String),
    Boolean(bool),
    BigInt(i64),
    List(Vec<Native>),
    Blob(Vec<u8>),
    Mapping(Vec<(Native, Native)>),
    Timestamp(i64),
    Empty,
    Other,
}

/// The mathematical shape of a [`Native`].
pub enum NativeModel {
    Int(i32),
    Text(Seq<char>),
    Boolean(bool),
    BigInt(i64),
    List(Seq<NativeModel>),
    Blob(Seq<u8>),
    Mapping(Seq<(NativeModel, NativeModel)>),
    Timestamp(i64),
    Empty,
    Other,
}

/// The model of one native column value.
pub open spec fn native_model(n: Native) -> NativeModel
    decreases n,
{
    match n {
        Native::Int(v) => NativeModel::Int(v),
        Native::Text(s) => NativeModel::Text(s@),
        Native::Boolean(b) => NativeModel::Boolean(b),
        Native::BigInt(v) => NativeModel::BigInt(v),
        Native::List(items) => NativeModel::List(native_models(items@)),
        Native::Blob(bytes) => NativeModel::Blob(bytes@),
        Native::Mapping(pairs) => NativeModel::Mapping(native_pair_models(pairs@)),
        Native::Timestamp(ms) => NativeModel::Timestamp(ms),
        Native::Empty => NativeModel::Empty,
        Native::Other => NativeModel::Other,
    }
}

/// The models of a sequence of native values, in order.
pub open spec fn native_models(s: Seq<Native>) -> Seq<NativeModel>
    decreases s,
{
    if s.len() == 0 {
        Seq::empty()
    } else {
        seq![native_model(s[0])] + native_models(s.subrange(1, s.len() as int))
    }
}

/// The models of a sequence of native key/value pairs, in order.
pub open spec fn native_pair_models(s: Seq<(Native, Native)>) -> Seq<(NativeModel, NativeModel)>
    decreases s,
{
    if s.len() == 0 {
        Seq::empty()
    } else {
        seq![(native_model(s[0].0), native_model(s[0].1))] + native_pair_models(
            s.subrange(1, s.len() as int),
        )
    }
}

impl View for Native {
    type V = NativeModel;

    open spec fn view(&self) -> NativeModel {
        native_model(*self)
    }
}

/// The models of a sequence of values are the values' models, index by index.
pub proof fn lemma_value_models(s: Seq<Value>)
    ensures
        value_models(s).len() == s.len(),
        forall|i: int| 0 <= i < s.len() ==> value_models(s)[i] == value_model(s[i]),
    decreases s,
{
    if s.len() > 0 {
        lemma_value_models(s.subrange(1, s.len() as int));
        assert forall|i: int| 0 <= i < s.len() implies value_models(s)[i] == value_model(
            s[i],
        ) by {
            if i > 0 {
                assert(s.subrange(1, s.len() as int)[i - 1] == s[i]);
            }
        }
    }
}

/// The models of a pair sequence are the pairs' models, index by index.
pub proof fn lemma_value_pair_models(s: Seq<(Value, Value)>)
    ensures
        value_pair_models(s).len() == s.len(),
        forall|i: int|
            0 <= i < s.len() ==> value_pair_models(s)[i] == (
            value_model(s[i].0),
            value_model(s[i].1),
            ),
    decreases s,
{
    if s.len() > 0 {
        lemma_value_pair_models(s.subrange(1, s.len() as int));
        assert forall|i: int|
            0 <= i < s.len() implies value_pair_models(s)[i] == (
            value_model(s[i].0),
            value_model(s[i].1),
        ) by {
            if i > 0 {
                assert(s.subrange(1, s.len() as int)[i - 1] == s[i]);
            }
        }
    }
}

/// The models of a sequence of native values, index by index.
pub proof fn lemma_native_models(s: Seq<Native>)
    ensures
        native_models(s).len() == s.len(),
        forall|i: int| 0 <= i < s.len() ==> native_models(s)[i] == native_model(s[i]),
    decreases s,
{
    if s.len() > 0 {
        lemma_native_models(s.subrange(1, s.len() as int));
        assert forall|i: int| 0 <= i < s.len() implies native_models(s)[i] == native_model(
            s[i],
        ) by {
            if i > 0 {
                assert(s.subrange(1, s.len() as int)[i - 1] == s[i]);
            }
        }
    }
}

/// The models of a native pair sequence, index by index.
pub proof fn lemma_native_pair_models(s: Seq<(Native, Native)>)
    ensures
        native_pair_models(s).len() == s.len(),
        forall|i: int|
            0 <= i < s.len() ==> native_pair_models(s)[i] == (
            native_model(s[i].0),
            native_model(s[i].1),
            ),
    decreases s,
{
    if s.len() > 0 {
        lemma_native_pair_models(s.subrange(1, s.len() as int));
        assert forall|i: int|
            0 <= i < s.len() implies native_pair_models(s)[i] == (
            native_model(s[i].0),
            native_model(s[i].1),
        ) by {
            if i > 0 {
                assert(s.subrange(1, s.len() as int)[i - 1] == s[i]);
            }
        }
    }
}

impl Value {
    /// A deep copy with the same model.
    #[verifier::loop_isolation(false)]
    pub fn duplicate(&self) -> (r: Value)
        ensures
            r@ == self@,
        decreases self,
    {
        match self {
            Value::Str(s) => Value::Str(s.clone()),
            Value::Bool(b) => Value::Bool(*b),
            Value::Num(n) => Value::Num(*n),
            Value::Null => Value::Null,
            Value::Date(s) => Value::Date(s.clone()),
            Value::Array(items) => {
                let mut out: Vec<Value> = Vec::new();
                let mut i: usize = 0;
                while i < items.len()
                    invariant
                        0 <= i <= items@.len(),
                        out@.len() == i,
                        forall|j: int|
                            0 <= j < i ==> value_model(#[trigger] out@[j]) == value_model(
                                items@[j],
                            ),
                    decreases items@.len() - i,
                {
                    out.push(items[i].duplicate());
                    i = i + 1;
                }
                proof {
                    lemma_value_models(out@);
                    lemma_value_models(items@);
                    assert(value_models(out@) =~= value_models(items@));
                }
                Value::Array(out)
            },
            Value::Mapping(pairs) => {
                let mut out: Vec<(Value, Value)> = Vec::new();
                let mut i: usize = 0;
                while i < pairs.len()
                    invariant
                        0 <= i <= pairs@.len(),
                        out@.len() == i,
                        forall|j: int|
                            0 <= j < i ==> value_model(#[trigger] out@[j].0) == value_model(
                                pairs@[j].0,
                            ) && value_model(out@[j].1) == value_model(pairs@[j].1),
                    decreases pairs@.len() - i,
                {
                    let k = pairs[i].0.duplicate();
                    let v = pairs[i].1.duplicate();
                    out.push((k, v));
                    i = i + 1;
                }
                proof {
                    lemma_value_pair_models(out@);
                    lemma_value_pair_models(pairs@);
                    assert(value_pair_models(out@) =~= value_pair_models(pairs@));
                }
                Value::Mapping(out)
            },
        }
    }
}

} // verus!
