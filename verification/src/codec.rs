//! Wire normalization rules for the container: the canonical encoded shape is
//! always a sequence, while decoding accepts a sequence, a bare scalar
//! (textual, numeric, or boolean), or a keyed (structured) value and
//! collapses them all into the same non-empty in-memory representation. Any
//! other wire shape is rejected.

use vstd::prelude::*;
use crate::container::OneOrMany;

verus! {

broadcast use vstd::std_specs::vec::group_vec_axioms;

/// A wire value as a serialization framework hands it over after parsing: a
/// bare scalar (textual, numeric, or boolean), an ordered sequence, a keyed
/// (structured) value, or an absent value, which the decoder does not
/// accept.
#[derive(Debug)]
pub enum WireValue {
    /// A bare textual scalar.
    Scalar(String),
    /// A bare numeric scalar, held losslessly as its literal text.
    Number(String),
    /// A bare boolean scalar.
    Bool(bool),
    /// An ordered sequence of values.
    Sequence(Vec<WireValue>),
    /// A keyed value: field names paired with values, in order.
    Keyed(Vec<(String, WireValue)>),
    /// An absent value; not an accepted shape.
    Null,
}

/// Deep copy of a wire value, for [`Clone`]. Two rebuilt vectors with equal
/// views are not provably equal values to the verifier, so the copy carries
/// no contract; it is verified only to terminate and not panic.
fn clone_wire(v: &WireValue) -> WireValue
    decreases *v,
{
    match v {
        WireValue::Scalar(text) => WireValue::Scalar(text.clone()),
        WireValue::Number(text) => WireValue::Number(text.clone()),
        WireValue::Bool(b) => WireValue::Bool(*b),
        WireValue::Null => WireValue::Null,
        WireValue::Sequence(items) => {
            let mut out: Vec<WireValue> = Vec::new();
            let mut i: usize = 0;
            while i < items.len()
                invariant
                    i <= items@.len(),
                    *v == WireValue::Sequence(*items),
                decreases items@.len() - i,
            {
                proof {
                    assert(decreases_to!(*v => (*v)->Sequence_0));
                    assert(decreases_to!((*v)->Sequence_0 => (*v)->Sequence_0@));
                    assert(decreases_to!((*v)->Sequence_0@ => (*v)->Sequence_0@[i as int]));
                }
                let x = clone_wire(&items[i]);
                out.push(x);
                i = i + 1;
            }
            WireValue::Sequence(out)
        },
        WireValue::Keyed(fields) => {
            let mut out: Vec<(String, WireValue)> = Vec::new();
            let mut i: usize = 0;
            while i < fields.len()
                invariant
                    i <= fields@.len(),
                    *v == WireValue::Keyed(*fields),
                decreases fields@.len() - i,
            {
                proof {
                    assert(decreases_to!(*v => (*v)->Keyed_0));
                    assert(decreases_to!((*v)->Keyed_0 => (*v)->Keyed_0@));
                    assert(decreases_to!((*v)->Keyed_0@ => (*v)->Keyed_0@[i as int]));
                    assert(decreases_to!((*v)->Keyed_0@[i as int] => (*v)->Keyed_0@[i as int].1));
                }
                let name = fields[i].0.clone();
                let value = clone_wire(&fields[i].1);
                out.push((name, value));
                i = i + 1;
            }
            WireValue::Keyed(out)
        },
    }
}

impl Clone for WireValue {
    /// Structural deep copy; see [`clone_wire`] for why it carries no
    /// contract.
    fn clone(&self) -> Self {
        clone_wire(self)
    }
}

/// Why a wire value was rejected by the decoder.
#[derive(Debug, PartialEq, Eq, Clone, Copy)]
pub enum DecodeError {
    /// A sequence shape was seen, but it held zero elements where at least
    /// one was expected.
    InvalidLength,
    /// The wire value was neither a sequence, nor a bare scalar, nor a
    /// keyed value.
    UnsupportedShape,
}

impl DecodeError {
    /// The message carried by this error.
    pub fn message(&self) -> (r: String)
        ensures
            *self is InvalidLength ==> r@ == invalid_length_message(),
            *self is UnsupportedShape ==> r@ == unsupported_shape_message(),
    {
        match self {
            DecodeError::InvalidLength => "invalid length 0, expected a sequence of at least one element or a single element".to_string(),
            DecodeError::UnsupportedShape => "invalid type, expected a sequence of at least one element or a single element".to_string(),
        }
    }
}

/// The message reported when a sequence shape holds zero elements.
pub open spec fn invalid_length_message() -> Seq<char> {
    "invalid length 0, expected a sequence of at least one element or a single element"@
}

/// The message reported when the wire shape is not accepted at all.
pub open spec fn unsupported_shape_message() -> Seq<char> {
    "invalid type, expected a sequence of at least one element or a single element"@
}

/// What decoding a wire value must produce: the logical sequence of elements
/// of the container, or the error rejecting the value.
///
/// A sequence shape yields its own elements and must hold at least one; any
/// bare scalar (textual, numeric, or boolean) and any keyed shape yields
/// itself as the sole element; nothing else is accepted.
pub open spec fn decode_spec(v: WireValue) -> Result<Seq<WireValue>, DecodeError> {
    match v {
        WireValue::Sequence(elems) => if elems@.len() == 0 {
            Err(DecodeError::InvalidLength)
        } else {
            Ok(elems@)
        },
        WireValue::Null => Err(DecodeError::UnsupportedShape),
        _ => Ok(seq![v]),
    }
}

/// Whether `w` is the canonical encoding of the logical sequence `s`: always
/// a sequence shape holding exactly the elements of `s`, never a bare scalar
/// or keyed value.
pub open spec fn encodes(s: Seq<WireValue>, w: WireValue) -> bool {
    w matches WireValue::Sequence(elems) && elems@ == s
}

/// Decode a wire value into a container, accepting a non-empty sequence, a
/// bare scalar, or a keyed value, exactly as [`decode_spec`] says.
pub fn decode(v: WireValue) -> (r: Result<OneOrMany<WireValue>, DecodeError>)
    ensures
        r matches Ok(c) ==> decode_spec(v) matches Ok(s) && c@ == s,
        r matches Err(e) ==> decode_spec(v) == Err::<Seq<WireValue>, DecodeError>(e),
        r is Ok <==> decode_spec(v) is Ok,
{
    match v {
        WireValue::Sequence(elems) => match OneOrMany::many(elems) {
            Ok(c) => Ok(c),
            Err(_) => Err(DecodeError::InvalidLength),
        },
        WireValue::Scalar(text) => Ok(OneOrMany::one(WireValue::Scalar(text))),
        WireValue::Number(text) => Ok(OneOrMany::one(WireValue::Number(text))),
        WireValue::Bool(b) => Ok(OneOrMany::one(WireValue::Bool(b))),
        WireValue::Keyed(fields) => Ok(OneOrMany::one(WireValue::Keyed(fields))),
        WireValue::Null => Err(DecodeError::UnsupportedShape),
    }
}

/// Encode a container into its canonical wire shape: always a sequence
/// holding the head followed by the tail, regardless of how the container
/// was constructed or decoded.
pub fn encode(c: OneOrMany<WireValue>) -> (r: WireValue)
    ensures
        encodes(c@, r),
{
    let ghost orig = c@;
    let mut it = c.into_iter();
    let mut elems: Vec<WireValue> = Vec::new();
    loop
        invariant
            elems@ + it@ == orig,
        ensures
            elems@ + it@ == orig,
            it@.len() == 0,
        decreases it@.len(),
    {
        match it.next() {
            Some(x) => {
                elems.push(x);
                proof {
                    assert(elems@ + it@ =~= orig);
                }
            },
            None => {
                break ;
            },
        }
    }
    proof {
        assert(elems@ =~= orig);
    }
    WireValue::Sequence(elems)
}

/// Law: re-encoding a decoded non-empty sequence shape reproduces the same
/// sequence of elements. Decoding a wire sequence of at least one element
/// succeeds with exactly those elements, and encoding any container holding
/// them emits a sequence shape with exactly those elements again.
pub proof fn lemma_decode_encode_round_trip(v: WireValue, w: WireValue)
    requires
        v matches WireValue::Sequence(elems) && elems@.len() > 0,
        decode_spec(v) matches Ok(s) && encodes(s, w),
    ensures
        w matches WireValue::Sequence(out) && out@ == v->Sequence_0@,
{
}

/// Law: the canonical encoding of any non-empty sequence decodes back to
/// exactly that sequence, so the normalization is lossless.
pub proof fn lemma_encode_decode_round_trip(s: Seq<WireValue>, w: WireValue)
    requires
        s.len() > 0,
        encodes(s, w),
    ensures
        decode_spec(w) == Ok::<Seq<WireValue>, DecodeError>(s),
{
}

/// Law: any bare scalar (textual, numeric, or boolean) or keyed wire value
/// decodes to the one-element sequence holding exactly that value.
pub proof fn lemma_decode_single(v: WireValue)
    requires
        v is Scalar || v is Number || v is Bool || v is Keyed,
    ensures
        decode_spec(v) == Ok::<Seq<WireValue>, DecodeError>(seq![v]),
{
}

/// Law: an empty sequence shape is rejected with the length-validation
/// error, and no other wire value is.
pub proof fn lemma_decode_empty_sequence(v: WireValue)
    ensures
        decode_spec(v) == Err::<Seq<WireValue>, DecodeError>(DecodeError::InvalidLength) <==> (
        v matches WireValue::Sequence(elems) && elems@.len() == 0),
{
}

} // verus!
