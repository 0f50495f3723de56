//! Typed access to environment variables, and changes to environments taken as values.

pub mod container;
pub mod diff;
pub mod laws;
pub mod parse;

pub use container::OsEnv;
pub use diff::{unset, Diff, Unset};

use vstd::prelude::*;

use crate::container::{EnvContainer, MutableEnvContainer};
use crate::diff::{describes, merge_entries, sets_values, shape, EntryView};
use crate::parse::EnvironmentParse;

verus! {

/// A typed environment variable: its name, and how its value is read and written.
pub trait EnvVariable: EnvironmentParse<Vec<u8>> {
    const KEY: &'static str;
}

/// Why a variable could not be read.
#[derive(Debug)]
pub enum Error<E> {
    /// The variable `key` exists, but its value did not parse; `source` says why.
    ParseError { key: &'static str, source: E },
    /// The variable `key` does not exist.
    NoneError { key: &'static str },
}

/// The error of reading the variable `T`.
pub type ReadError<T> = Error<<T as EnvironmentParse<Vec<u8>>>::Error>;

/// What reading the variable `T` gives when parsing its raw value gave `parsed`
/// (`None`: the variable has no value).
pub open spec fn read_from<T: EnvVariable>(parsed: Option<Result<T, T::Error>>) -> Result<
    Option<T>,
    ReadError<T>,
> {
    match parsed {
        None => Ok(None),
        Some(Ok(value)) => Ok(Some(value)),
        Some(Err(e)) => Err(Error::ParseError { key: T::KEY, source: e }),
    }
}

/// What requiring the variable `T` gives when parsing its raw value gave `parsed`.
pub open spec fn require_from<T: EnvVariable>(parsed: Option<Result<T, T::Error>>) -> Result<
    T,
    ReadError<T>,
> {
    match read_from::<T>(parsed) {
        Ok(Some(value)) => Ok(value),
        Ok(None) => Err(Error::NoneError { key: T::KEY }),
        Err(e) => Err(e),
    }
}

/// What parsing the raw value `raw` of the variable `T` gives, for a type that obeys
/// its parse specification.
pub open spec fn spec_parse<T: EnvVariable>(raw: Option<Seq<u8>>) -> Option<Result<T, T::Error>> {
    match raw {
        None => None,
        Some(bytes) => Some(T::spec_deserialize(bytes)),
    }
}

/// `read` is what reading the variable `T` can give when its raw value is `raw`:
/// nothing when there is no value; when there is one, a value or a parse error of
/// `T`, where the value or the error's source is an outcome that parsing the raw value
/// can give (`deserialize_always`); exactly the parse of the value when `T` obeys its
/// parse specification.
pub open spec fn read_agrees<T: EnvVariable>(raw: Option<Seq<u8>>, read: Result<Option<T>, ReadError<T>>) -> bool {
    &&& raw is None ==> read == Ok::<Option<T>, ReadError<T>>(None)
    &&& raw matches Some(bytes) ==> match read {
        Ok(Some(value)) => T::deserialize_always(bytes, Ok::<T, T::Error>(value)),
        Ok(None) => false,
        Err(Error::ParseError { key, source }) => key@ == T::KEY@ && T::deserialize_always(
            bytes,
            Err::<T, T::Error>(source),
        ),
        Err(Error::NoneError { .. }) => false,
    }
    &&& T::obeys_parse_spec() ==> read == read_from::<T>(spec_parse::<T>(raw))
}

/// `read` is what requiring the variable `T` can give when its raw value is `raw`:
/// `NoneError` when there is no value; when there is one, a value or a parse error of
/// `T`, where the value or the error's source is an outcome that parsing the raw value
/// can give (`deserialize_always`); exactly the parse of the value when `T` obeys its
/// parse specification.
pub open spec fn require_agrees<T: EnvVariable>(raw: Option<Seq<u8>>, read: Result<T, ReadError<T>>) -> bool {
    &&& raw is None ==> read == Err::<T, ReadError<T>>(Error::NoneError { key: T::KEY })
    &&& raw matches Some(bytes) ==> match read {
        Ok(value) => T::deserialize_always(bytes, Ok::<T, T::Error>(value)),
        Err(Error::ParseError { key, source }) => key@ == T::KEY@ && T::deserialize_always(
            bytes,
            Err::<T, T::Error>(source),
        ),
        Err(Error::NoneError { .. }) => false,
    }
    &&& T::obeys_parse_spec() ==> read == require_from::<T>(spec_parse::<T>(raw))
}

/// Turns the outcome of parsing the raw value of the variable `T` into the outcome
/// of reading it: no value stays absent, a parse error becomes a `ParseError` of `T`.
pub fn read_parsed<T: EnvVariable>(parsed: Option<Result<T, T::Error>>) -> (read: Result<
    Option<T>,
    ReadError<T>,
>)
    ensures
        read == read_from::<T>(parsed),
{
    match parsed {
        None => Ok(None),
        Some(Ok(value)) => Ok(Some(value)),
        Some(Err(e)) => Err(Error::ParseError { key: T::KEY, source: e }),
    }
}

/// Reads the variable `T` from its raw value: absent stays absent, present is parsed.
pub fn read_raw<T: EnvVariable>(raw: Option<Vec<u8>>) -> (read: Result<Option<T>, ReadError<T>>)
    ensures
        read_agrees::<T>(raw.deep_view(), read),
{
    let parsed = match raw {
        None => None,
        Some(bytes) => {
            proof {
                assert(bytes.deep_view() =~= bytes@);
            }
            Some(T::env_deserialize(bytes))
        },
    };
    read_parsed::<T>(parsed)
}

/// Unsets the variable `T`.
pub(crate) fn unset_var<T: EnvVariable, C: MutableEnvContainer + ?Sized>(container: &mut C)
    ensures
        final(container).spec_vars() == old(container).spec_vars().insert(T::KEY@, None),
{
    let removal = unset::<T>();
    let ghost expected = removal.spec_entries();
    container.raw_merge(removal);
    proof {
        let entries = choose|entries: Seq<EntryView>|
            #[trigger] describes(expected, true, entries) && final(container).spec_vars()
                == merge_entries(old(container).spec_vars(), entries);
        assert(entries.len() == 1);
        assert(entries.drop_last() =~= Seq::<EntryView>::empty());
        assert(merge_entries(old(container).spec_vars(), entries.drop_last()) == old(container).spec_vars());
    }
}

/// Typed reads from a container.
pub trait Get: EnvContainer {
    fn maybe_get<T: EnvVariable>(&self) -> (read: Result<Option<T>, ReadError<T>>)
        ensures
            read_agrees::<T>(self.spec_raw_get(T::KEY@), read),
    {
        read_raw::<T>(self.raw_get(T::KEY))
    }

    fn get<T: EnvVariable>(&self) -> (read: Result<T, ReadError<T>>)
        ensures
            require_agrees::<T>(self.spec_raw_get(T::KEY@), read),
    {
        match self.maybe_get::<T>()? {
            Some(value) => Ok(value),
            None => Err(Error::NoneError { key: T::KEY }),
        }
    }
}

/// Typed changes to a container.
pub trait Modify: MutableEnvContainer {
    /// Sets the variable `T` to `e` (a diff of one entry): its key gets a value that
    /// every serialized value of `T` satisfies (for a type written as text: valid
    /// UTF-8), and that is the serialized `e` where `T` obeys its parse specification.
    fn set<T: EnvVariable>(&mut self, e: T)
        ensures
            exists|value: Seq<u8>|
                final(self).spec_vars() == #[trigger] old(self).spec_vars().insert(
                    T::KEY@,
                    Some(value),
                ) && T::serialize_always(value) && (T::obeys_parse_spec() ==> value
                    == T::spec_serialize(e)),
    {
        let ghost expected = e.spec_entries();
        let ghost exact = e.obeys_diff_spec();
        self.raw_merge(e);
        proof {
            let entries = choose|entries: Seq<EntryView>|
                #[trigger] describes(expected, exact, entries) && sets_values(
                    entries,
                    |v: Seq<u8>| e.sets_only(v),
                ) && final(self).spec_vars() == merge_entries(old(self).spec_vars(), entries);
            assert(shape(entries).len() == 1);
            assert(shape(entries)[0] == shape(expected)[0]);
            assert(entries.len() == 1);
            assert(entries.drop_last() =~= Seq::<EntryView>::empty());
            assert(merge_entries(old(self).spec_vars(), entries.drop_last()) == old(self).spec_vars());
            assert(entries.last() == entries[0]);
            assert(entries[0].0 == T::KEY@);
            assert(entries[0].1 is Some);
            let value = entries[0].1.unwrap();
            assert(entries[0].1 matches Some(v) ==> (|v: Seq<u8>| e.sets_only(v))(v));
            assert(final(self).spec_vars() == old(self).spec_vars().insert(T::KEY@, Some(value)));
        }
    }

    fn apply<T: Diff>(&mut self, e: T)
        requires
            e.is_valid_diff(),
        ensures
            exists|entries: Seq<EntryView>|
                #[trigger] describes(e.spec_entries(), e.obeys_diff_spec(), entries)
                    && sets_values(entries, |v: Seq<u8>| e.sets_only(v))
                    && final(self).spec_vars() == merge_entries(old(self).spec_vars(), entries),
    {
        self.raw_merge(e);
    }

    /// Reads the variable `T`, then unsets it; on an error nothing changes.
    fn maybe_pull<T: EnvVariable>(&mut self) -> (read: Result<Option<T>, ReadError<T>>) where
        Self: Get + Sized,

        ensures
            read_agrees::<T>(old(self).spec_raw_get(T::KEY@), read),
            read is Ok ==> final(self).spec_vars() == old(self).spec_vars().insert(T::KEY@, None),
            read is Err ==> *final(self) == *old(self),
    {
        let read = self.maybe_get::<T>()?;
        unset_var::<T, Self>(self);
        Ok(read)
    }

    /// Requires the variable `T`, then unsets it; on an error nothing changes.
    fn pull<T: EnvVariable>(&mut self) -> (read: Result<T, ReadError<T>>) where Self: Get + Sized
        ensures
            require_agrees::<T>(old(self).spec_raw_get(T::KEY@), read),
            read is Ok ==> final(self).spec_vars() == old(self).spec_vars().insert(T::KEY@, None),
            read is Err ==> *final(self) == *old(self),
    {
        let read = self.get::<T>()?;
        unset_var::<T, Self>(self);
        Ok(read)
    }
}

impl<T: EnvContainer> Get for T {

}

impl<T: MutableEnvContainer> Modify for T {

}

/// A container that can be read and is itself a diff.
pub trait Env: Get + Diff {

}

impl<T: Get + Diff> Env for T {

}

} // verus!
