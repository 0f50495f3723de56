//! Turning the raw value of a variable into a typed value and back.

use vstd::prelude::*;
use vstd::utf8::{decode_utf8, encode_utf8, valid_utf8};

verus! {

broadcast use vstd::utf8::group_utf8_lib;

/// A type that can be stored in the environment, with `Repr` as its raw form.
///
/// Implementations are written by the users of the library. One that declares
/// `obeys_parse_spec` promises that both directions are functions of their input:
/// `env_serialize` gives `spec_serialize(self)` and `env_deserialize` gives
/// `spec_deserialize(raw@)`. One that does not declare it promises nothing.
pub trait EnvironmentParse<Repr: View>: Sized {
    type Error;

    /// Whether `spec_serialize` and `spec_deserialize` describe this type's conversions.
    open spec fn obeys_parse_spec() -> bool {
        false
    }

    /// The raw form that `env_serialize` produces for a value.
    open spec fn spec_serialize(self) -> Repr::V {
        arbitrary()
    }

    /// What `env_deserialize` returns for a raw form.
    open spec fn spec_deserialize(raw: Repr::V) -> Result<Self, Self::Error> {
        arbitrary()
    }

    /// What every raw form that `env_serialize` produces satisfies, whether or not
    /// the type obeys its parse specification.
    open spec fn serialize_always(raw: Repr::V) -> bool {
        true
    }

    /// What every outcome of `env_deserialize` satisfies, whether or not the type
    /// obeys its parse specification.
    open spec fn deserialize_always(raw: Repr::V, parsed: Result<Self, Self::Error>) -> bool {
        true
    }

    fn env_serialize(self) -> (raw: Repr)
        ensures
            Self::serialize_always(raw@),
            Self::obeys_parse_spec() ==> raw@ == Self::spec_serialize(self),
    ;

    fn env_deserialize(raw: Repr) -> (parsed: Result<Self, Self::Error>)
        ensures
            Self::deserialize_always(raw@, parsed),
            Self::obeys_parse_spec() ==> parsed == Self::spec_deserialize(raw@),
    ;
}

/// Why the bytes of a variable could not be read as a value that parses from text.
#[derive(Debug)]
pub enum StringParseError<E> {
    /// The bytes are not UTF-8.
    InvalidEncoding,
    /// The bytes are text, and parsing that text failed with `source`.
    InvalidContent { source: E },
}

/// `String::from_utf8` (std): `Ok` exactly when the bytes are valid UTF-8, and then
/// the string whose characters those bytes encode. Here the error is dropped.
#[verifier::external_body]
pub(crate) fn string_from_utf8(bytes: Vec<u8>) -> (text: Option<String>)
    ensures
        text is Some <==> valid_utf8(bytes@),
        text matches Some(s) ==> s@ == decode_utf8(bytes@),
{
    String::from_utf8(bytes).ok()
}

/// What the byte form of a text-parsed type gives back for the bytes `raw`.
pub open spec fn deserialize_bytes<T: EnvironmentParse<String>>(raw: Seq<u8>) -> Result<
    T,
    StringParseError<<T as EnvironmentParse<String>>::Error>,
> {
    if !valid_utf8(raw) {
        Err(StringParseError::InvalidEncoding)
    } else {
        lifted(<T as EnvironmentParse<String>>::spec_deserialize(decode_utf8(raw)))
    }
}

/// The outcome of parsing valid text, as an outcome of parsing bytes.
pub open spec fn lifted<T, E>(parsed: Result<T, E>) -> Result<T, StringParseError<E>> {
    match parsed {
        Ok(v) => Ok(v),
        Err(e) => Err(StringParseError::InvalidContent { source: e }),
    }
}

/// `parsed` is `InvalidEncoding` exactly when `raw` is not UTF-8.
pub open spec fn encoding_refused<T: EnvironmentParse<String>>(
    raw: Seq<u8>,
    parsed: Result<T, StringParseError<<T as EnvironmentParse<String>>::Error>>,
) -> bool {
    (parsed matches Err(StringParseError::InvalidEncoding)) <==> !valid_utf8(raw)
}

/// Turns the outcome of parsing the text of some bytes into the outcome of parsing
/// the bytes: a value stays, an error becomes `InvalidContent`.
pub fn lift_text_parse<T, E>(parsed: Result<T, E>) -> (lifted_parse: Result<T, StringParseError<E>>)
    ensures
        lifted_parse == lifted(parsed),
{
    match parsed {
        Ok(v) => Ok(v),
        Err(e) => Err(StringParseError::InvalidContent { source: e }),
    }
}

/// Every type that parses from text parses from bytes: the bytes are the UTF-8
/// encoding of the text. Bytes that are not UTF-8 are refused before the text
/// parser sees them.
impl<T: EnvironmentParse<String>> EnvironmentParse<Vec<u8>> for T {
    type Error = StringParseError<<T as EnvironmentParse<String>>::Error>;

    open spec fn obeys_parse_spec() -> bool {
        <T as EnvironmentParse<String>>::obeys_parse_spec()
    }

    open spec fn spec_serialize(self) -> Seq<u8> {
        encode_utf8(<T as EnvironmentParse<String>>::spec_serialize(self))
    }

    open spec fn spec_deserialize(raw: Seq<u8>) -> Result<
        T,
        StringParseError<<T as EnvironmentParse<String>>::Error>,
    > {
        deserialize_bytes::<T>(raw)
    }

    /// The bytes are always UTF-8.
    open spec fn serialize_always(raw: Seq<u8>) -> bool {
        valid_utf8(raw)
    }

    /// Bytes give `InvalidEncoding` exactly when they are not UTF-8.
    open spec fn deserialize_always(
        raw: Seq<u8>,
        parsed: Result<T, StringParseError<<T as EnvironmentParse<String>>::Error>>,
    ) -> bool {
        encoding_refused::<T>(raw, parsed)
    }

    fn env_serialize(self) -> (raw: Vec<u8>) {
        serialize_text(self)
    }

    fn env_deserialize(raw: Vec<u8>) -> (parsed: Result<
        T,
        StringParseError<<T as EnvironmentParse<String>>::Error>,
    >) {
        deserialize_text(raw)
    }
}

/// The byte form of a value that is written as text: the UTF-8 encoding of its text,
/// so always valid UTF-8.
pub fn serialize_text<T: EnvironmentParse<String>>(value: T) -> (raw: Vec<u8>)
    ensures
        valid_utf8(raw@),
        <T as EnvironmentParse<String>>::obeys_parse_spec() ==> raw@ == encode_utf8(
            <T as EnvironmentParse<String>>::spec_serialize(value),
        ),
{
    let text: String = <T as EnvironmentParse<String>>::env_serialize(value);
    text.as_str().as_bytes_vec()
}

/// Parses bytes as a value that is read from text: bytes that are not UTF-8 give
/// `InvalidEncoding`; otherwise the text is parsed and a failure is `InvalidContent`.
pub fn deserialize_text<T: EnvironmentParse<String>>(raw: Vec<u8>) -> (parsed: Result<
    T,
    StringParseError<<T as EnvironmentParse<String>>::Error>,
>)
    ensures
        !valid_utf8(raw@) ==> parsed matches Err(StringParseError::InvalidEncoding),
        valid_utf8(raw@) ==> !(parsed matches Err(StringParseError::InvalidEncoding)),
        <T as EnvironmentParse<String>>::obeys_parse_spec() ==> parsed == deserialize_bytes::<T>(
            raw@,
        ),
{
    match string_from_utf8(raw) {
        None => Err(StringParseError::InvalidEncoding),
        Some(text) => lift_text_parse(<T as EnvironmentParse<String>>::env_deserialize(text)),
    }
}

/// A value whose text form parses back to itself also does so through bytes:
/// the byte form of a value is always valid UTF-8 and decodes to its text form.
pub proof fn law_bytes_round_trip<T: EnvironmentParse<String>>(value: T)
    requires
        <T as EnvironmentParse<String>>::spec_deserialize(
            <T as EnvironmentParse<String>>::spec_serialize(value),
        ) == Ok::<T, <T as EnvironmentParse<String>>::Error>(value),
    ensures
        <T as EnvironmentParse<Vec<u8>>>::spec_deserialize(
            <T as EnvironmentParse<Vec<u8>>>::spec_serialize(value),
        ) == Ok::<T, StringParseError<<T as EnvironmentParse<String>>::Error>>(value),
{
    let text = <T as EnvironmentParse<String>>::spec_serialize(value);
    assert(valid_utf8(encode_utf8(text)));
    assert(decode_utf8(encode_utf8(text)) == text);
}

} // verus!
