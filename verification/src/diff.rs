//! Changes to an environment: which variables are set to what, and which are unset.

use core::marker::PhantomData;
use vstd::prelude::*;
use vstd::utf8::{encode_utf8, valid_utf8};

use crate::parse::EnvironmentParse;
use crate::EnvVariable;

verus! {

broadcast use vstd::utf8::group_utf8_lib;

/// An entry as the model sees it: the key, and `Some` value to set or `None` to unset.
pub type EntryView = (Seq<char>, Option<Seq<u8>>);

/// An environment as the model sees it: each key that the environment knows,
/// mapped to its value, or to `None` where the key is known to be unset.
pub type EnvMap = Map<Seq<char>, Option<Seq<u8>>>;

/// The value of `key` in `env`, where an unset key and an unknown key both have none.
pub open spec fn lookup(env: EnvMap, key: Seq<char>) -> Option<Seq<u8>> {
    if env.dom().contains(key) {
        env[key]
    } else {
        None
    }
}

/// `env` after applying `entries` in order: each entry overrides what came before it.
pub open spec fn merge_entries(env: EnvMap, entries: Seq<EntryView>) -> EnvMap
    decreases entries.len(),
{
    if entries.len() == 0 {
        env
    } else {
        merge_entries(env, entries.drop_last()).insert(entries.last().0, entries.last().1)
    }
}

/// No key occurs twice in `entries`.
pub open spec fn distinct_keys(entries: Seq<EntryView>) -> bool {
    forall|i: int, j: int|
        0 <= i < entries.len() && 0 <= j < entries.len() && i != j ==> #[trigger] entries[i].0
            != #[trigger] entries[j].0
}

/// The model of a list of entries.
pub open spec fn entries_view(entries: Seq<Entry>) -> Seq<EntryView> {
    entries.map_values(|e: Entry| e@)
}

/// Applying `a` then `b` is applying their concatenation.
pub proof fn lemma_merge_concat(env: EnvMap, a: Seq<EntryView>, b: Seq<EntryView>)
    ensures
        merge_entries(env, a + b) == merge_entries(merge_entries(env, a), b),
    decreases b.len(),
{
    if b.len() == 0 {
        assert(a + b =~= a);
    } else {
        assert((a + b).drop_last() =~= a + b.drop_last());
        lemma_merge_concat(env, a, b.drop_last());
    }
}

/// With distinct keys, merging into an empty environment holds exactly the listed entries.
pub proof fn lemma_merge_distinct(entries: Seq<EntryView>, key: Seq<char>)
    requires
        distinct_keys(entries),
    ensures
        forall|i: int|
            0 <= i < entries.len() && #[trigger] entries[i].0 == key ==> merge_entries(
                Map::empty(),
                entries,
            ).dom().contains(key) && merge_entries(Map::empty(), entries)[key] == entries[i].1,
        (forall|i: int| 0 <= i < entries.len() ==> #[trigger] entries[i].0 != key) ==> !merge_entries(
            Map::empty(),
            entries,
        ).dom().contains(key),
    decreases entries.len(),
{
    if entries.len() > 0 {
        let init = entries.drop_last();
        assert(distinct_keys(init)) by {
            assert forall|i: int, j: int|
                0 <= i < init.len() && 0 <= j < init.len() && i != j implies #[trigger] init[i].0
                != #[trigger] init[j].0 by {
                assert(init[i] == entries[i]);
                assert(init[j] == entries[j]);
            }
        }
        lemma_merge_distinct(init, key);
        assert forall|i: int| 0 <= i < entries.len() && #[trigger] entries[i].0 == key implies merge_entries(
            Map::empty(),
            entries,
        ).dom().contains(key) && merge_entries(Map::empty(), entries)[key] == entries[i].1 by {
            if i < entries.len() - 1 {
                assert(init[i] == entries[i]);
                assert(entries[entries.len() - 1].0 != entries[i].0);
            }
        }
        if forall|i: int| 0 <= i < entries.len() ==> #[trigger] entries[i].0 != key {
            assert forall|i: int| 0 <= i < init.len() implies #[trigger] init[i].0 != key by {
                assert(init[i] == entries[i]);
            }
            assert(entries[entries.len() - 1].0 != key);
        }
    }
}

/// A change to one variable.
#[derive(Debug)]
pub enum Entry {
    /// Set `key` to `value`.
    Assign { key: String, value: Vec<u8> },
    /// Remove `key`.
    Unset { key: String },
}

impl View for Entry {
    type V = EntryView;

    open spec fn view(&self) -> EntryView {
        match self {
            Entry::Assign { key, value } => (key@, Some(value@)),
            Entry::Unset { key } => (key@, None),
        }
    }
}

/// The `KEY=VALUE` form of an entry, as bytes; an unset entry is its key alone.
pub open spec fn entry_bytes(entry: EntryView) -> Seq<u8> {
    match entry.1 {
        Some(value) => encode_utf8(entry.0) + seq![61u8] + value,
        None => encode_utf8(entry.0),
    }
}

impl Entry {
    pub fn key(&self) -> (key: &str)
        ensures
            key@ == self@.0,
    {
        match self {
            Entry::Assign { key, .. } => key.as_str(),
            Entry::Unset { key } => key.as_str(),
        }
    }

    pub fn to_tuple(self) -> (pair: (String, Option<Vec<u8>>))
        ensures
            pair.deep_view() == self@,
    {
        match self {
            Entry::Assign { key, value } => (key, Some(value)),
            Entry::Unset { key } => (key, None),
        }
    }

    pub fn to_os_string(self) -> (bytes: Vec<u8>)
        ensures
            bytes@ == entry_bytes(self@),
    {
        match self {
            Entry::Assign { key, mut value } => {
                let mut bytes = key.as_str().as_bytes_vec();
                bytes.push(61u8);
                bytes.append(&mut value);
                bytes
            },
            Entry::Unset { key } => key.as_str().as_bytes_vec(),
        }
    }
}

/// Concatenating lists of entries concatenates their models.
pub proof fn lemma_entries_view_concat(a: Seq<Entry>, b: Seq<Entry>)
    ensures
        entries_view(a + b) == entries_view(a) + entries_view(b),
{
    assert(entries_view(a + b) =~= entries_view(a) + entries_view(b));
}

/// Appending an entry appends its model.
pub proof fn lemma_entries_push(entries: Seq<Entry>, entry: Entry)
    ensures
        entries_view(entries.push(entry)) == entries_view(entries).push(entry@),
{
    assert(entries_view(entries.push(entry)) =~= entries_view(entries).push(entry@));
}

/// What an entry says, leaving out the value it sets: its key, and whether it sets.
pub open spec fn entry_shape(entry: EntryView) -> (Seq<char>, bool) {
    (entry.0, entry.1 is Some)
}

/// The shapes of a list of entries.
pub open spec fn shape(entries: Seq<EntryView>) -> Seq<(Seq<char>, bool)> {
    entries.map_values(|e: EntryView| entry_shape(e))
}

/// `actual` has the keys of `spec`, in its order, set or unset as there; where
/// `exact`, it is `spec`.
pub open spec fn describes(spec: Seq<EntryView>, exact: bool, actual: Seq<EntryView>) -> bool {
    &&& shape(actual) == shape(spec)
    &&& exact ==> actual == spec
}

/// Descriptions of two lists describe their concatenation.
pub proof fn lemma_describes_concat(
    spec_a: Seq<EntryView>,
    exact_a: bool,
    a: Seq<EntryView>,
    spec_b: Seq<EntryView>,
    exact_b: bool,
    b: Seq<EntryView>,
)
    requires
        describes(spec_a, exact_a, a),
        describes(spec_b, exact_b, b),
    ensures
        describes(spec_a + spec_b, exact_a && exact_b, a + b),
{
    assert(shape(a + b) =~= shape(a) + shape(b));
    assert(shape(spec_a + spec_b) =~= shape(spec_a) + shape(spec_b));
}

/// `j` is the last position of its key in `entries`.
pub open spec fn is_last_for_key(entries: Seq<EntryView>, j: int) -> bool {
    &&& 0 <= j < entries.len()
    &&& forall|later: int| j < later < entries.len() ==> #[trigger] entries[later].0 != entries[j].0
}

/// Merging into an empty environment keeps, for each key that the entries mention,
/// the entry at its last position, and nothing else.
pub proof fn lemma_merge_last(entries: Seq<EntryView>, key: Seq<char>)
    ensures
        merge_entries(Map::empty(), entries).dom().contains(key) <==> exists|j: int|
            0 <= j < entries.len() && #[trigger] entries[j].0 == key,
        merge_entries(Map::empty(), entries).dom().contains(key) ==> exists|j: int|
            #[trigger] is_last_for_key(entries, j) && entries[j].0 == key && merge_entries(
                Map::empty(),
                entries,
            )[key] == entries[j].1,
        forall|j: int|
            #[trigger] is_last_for_key(entries, j) && entries[j].0 == key ==> merge_entries(
                Map::empty(),
                entries,
            )[key] == entries[j].1,
    decreases entries.len(),
{
    if entries.len() > 0 {
        let init = entries.drop_last();
        let n = entries.len() - 1;
        lemma_merge_last(init, key);
        if entries[n].0 == key {
            assert(is_last_for_key(entries, n));
            assert forall|j: int| #[trigger] is_last_for_key(entries, j) && entries[j].0 == key implies j == n by {
                if j < n {
                    assert(entries[n].0 != entries[j].0);
                }
            }
        } else {
            if exists|j: int| 0 <= j < entries.len() && #[trigger] entries[j].0 == key {
                let j = choose|j: int| 0 <= j < entries.len() && #[trigger] entries[j].0 == key;
                assert(init[j].0 == key);
            }
            if exists|j: int| 0 <= j < init.len() && #[trigger] init[j].0 == key {
                let j = choose|j: int| 0 <= j < init.len() && #[trigger] init[j].0 == key;
                assert(entries[j].0 == key);
                let k = choose|k: int|
                    #[trigger] is_last_for_key(init, k) && init[k].0 == key && merge_entries(
                        Map::empty(),
                        init,
                    )[key] == init[k].1;
                assert(init[k] == entries[k]);
                assert forall|later: int| k < later < entries.len() implies #[trigger] entries[later].0
                    != entries[k].0 by {
                    if later < n {
                        assert(init[later] == entries[later]);
                    }
                }
                assert(is_last_for_key(entries, k));
            }
            assert forall|j: int| #[trigger] is_last_for_key(entries, j) && entries[j].0 == key implies merge_entries(
                Map::empty(),
                entries,
            )[key] == entries[j].1 by {
                assert(j < n);
                assert(init[j] == entries[j]);
                assert forall|later: int| j < later < init.len() implies #[trigger] init[later].0
                    != init[j].0 by {
                    assert(init[later] == entries[later]);
                }
                assert(is_last_for_key(init, j));
            }
        }
    }
}

/// Every value that `entries` set satisfies `allowed`.
pub open spec fn sets_values(entries: Seq<EntryView>, allowed: spec_fn(Seq<u8>) -> bool) -> bool {
    forall|i: int|
        0 <= i < entries.len() ==> ((#[trigger] entries[i]).1 matches Some(value) ==> allowed(value))
}

/// Appending lists whose values satisfy `first` and `second` gives a list whose
/// values satisfy one of them.
pub proof fn lemma_sets_values_concat(
    a: Seq<EntryView>,
    first: spec_fn(Seq<u8>) -> bool,
    b: Seq<EntryView>,
    second: spec_fn(Seq<u8>) -> bool,
)
    requires
        sets_values(a, first),
        sets_values(b, second),
    ensures
        sets_values(a + b, |v: Seq<u8>| first(v) || second(v)),
{
    assert forall|i: int| 0 <= i < (a + b).len() implies ((#[trigger] (a + b)[i]).1 matches Some(
        value,
    ) ==> (|v: Seq<u8>| first(v) || second(v))(value)) by {
        if i < a.len() {
            assert((a + b)[i] == a[i]);
        } else {
            assert((a + b)[i] == b[i - a.len()]);
        }
    }
}

/// Values that satisfy `weaker` also satisfy `stronger`.
pub proof fn lemma_sets_values_weaken(
    entries: Seq<EntryView>,
    weaker: spec_fn(Seq<u8>) -> bool,
    stronger: spec_fn(Seq<u8>) -> bool,
)
    requires
        sets_values(entries, weaker),
        forall|v: Seq<u8>| #[trigger] weaker(v) ==> stronger(v),
    ensures
        sets_values(entries, stronger),
{
}

/// Something that can be turned into a list of changes to an environment.
///
/// `to_env_diff` is only called where `is_valid_diff` holds. It lists the keys of
/// `spec_entries(self)` in their order, each set or unset as there; where
/// `obeys_diff_spec` holds, the values too are those of `spec_entries(self)`.
pub trait Diff: Sized {
    /// The value can be turned into entries (otherwise the conversion has no result).
    spec fn is_valid_diff(&self) -> bool;

    /// The values that the entries set are those of `spec_entries`.
    spec fn obeys_diff_spec(&self) -> bool;

    /// The entries, in the order in which they apply.
    spec fn spec_entries(self) -> Seq<EntryView>;

    /// What every value that the entries set satisfies, whether or not the diff obeys
    /// its specification.
    spec fn sets_only(&self, value: Seq<u8>) -> bool;

    fn to_env_diff(self) -> (entries: Vec<Entry>)
        requires
            self.is_valid_diff(),
        ensures
            describes(self.spec_entries(), self.obeys_diff_spec(), entries_view(entries@)),
            sets_values(entries_view(entries@), |v: Seq<u8>| self.sets_only(v)),
    ;
}

/// A typed variable sets its key to its serialized value.
impl<T: EnvVariable> Diff for T {
    open spec fn is_valid_diff(&self) -> bool {
        true
    }

    open spec fn obeys_diff_spec(&self) -> bool {
        T::obeys_parse_spec()
    }

    open spec fn spec_entries(self) -> Seq<EntryView> {
        seq![(T::KEY@, Some(T::spec_serialize(self)))]
    }

    open spec fn sets_only(&self, value: Seq<u8>) -> bool {
        T::serialize_always(value)
    }

    fn to_env_diff(self) -> (entries: Vec<Entry>) {
        let ghost expected = self.spec_entries();
        let entries = vec![Entry::Assign { key: T::KEY.to_owned(), value: self.env_serialize() }];
        assert(shape(entries_view(entries@)) =~= shape(expected));
        proof {
            if T::obeys_parse_spec() {
                assert(entries_view(entries@) =~= expected);
            }
        }
        entries
    }
}

/// An absent diff changes nothing.
impl<T: Diff> Diff for Option<T> {
    open spec fn is_valid_diff(&self) -> bool {
        match self {
            Some(diff) => diff.is_valid_diff(),
            None => true,
        }
    }

    open spec fn obeys_diff_spec(&self) -> bool {
        match self {
            Some(diff) => diff.obeys_diff_spec(),
            None => true,
        }
    }

    open spec fn spec_entries(self) -> Seq<EntryView> {
        match self {
            Some(diff) => diff.spec_entries(),
            None => Seq::empty(),
        }
    }

    open spec fn sets_only(&self, value: Seq<u8>) -> bool {
        match self {
            Some(diff) => diff.sets_only(value),
            None => false,
        }
    }

    fn to_env_diff(self) -> (entries: Vec<Entry>) {
        match self {
            Some(diff) => diff.to_env_diff(),
            None => {
                let entries = Vec::new();
                assert(entries_view(entries@) =~= Seq::empty());
                entries
            },
        }
    }
}

/// The removal of the variable `T`.
#[derive(Debug)]
pub struct Unset<T>(pub PhantomData<T>);

impl<T> Clone for Unset<T> {
    fn clone(&self) -> (copy: Self)
        ensures
            copy == *self,
    {
        Unset(PhantomData)
    }
}

pub fn unset<T>() -> (removal: Unset<T>)
    ensures
        removal == Unset::<T>(PhantomData),
{
    Unset(PhantomData)
}

impl<T: EnvVariable> Diff for Unset<T> {
    open spec fn is_valid_diff(&self) -> bool {
        true
    }

    open spec fn obeys_diff_spec(&self) -> bool {
        true
    }

    open spec fn spec_entries(self) -> Seq<EntryView> {
        seq![(T::KEY@, None)]
    }

    open spec fn sets_only(&self, value: Seq<u8>) -> bool {
        false
    }

    fn to_env_diff(self) -> (entries: Vec<Entry>) {
        let entries = vec![Entry::Unset { key: T::KEY.to_owned() }];
        assert(entries_view(entries@) =~= self.spec_entries());
        entries
    }
}

/// `text` holds exactly one `=`.
pub open spec fn is_assignment(text: Seq<char>) -> bool {
    exists|i: int|
        0 <= i < text.len() && #[trigger] text[i] == '=' && (forall|j: int|
            0 <= j < text.len() && #[trigger] text[j] == '=' ==> j == i)
}

/// The position of the `=` in an assignment.
pub open spec fn separator_index(text: Seq<char>) -> int {
    choose|i: int| 0 <= i < text.len() && #[trigger] text[i] == '='
}

/// The entry that the assignment `KEY=VALUE` stands for.
pub open spec fn assignment_entry(text: Seq<char>) -> EntryView {
    let i = separator_index(text);
    (text.take(i), Some(encode_utf8(text.skip(i + 1))))
}

/// Whether `text` has the form `KEY=VALUE` that an untyped assignment needs.
pub fn is_env_assignment(text: &str) -> (ok: bool)
    ensures
        ok == is_assignment(text@),
{
    let n = text.unicode_len();
    let mut found: Option<usize> = None;
    let mut i: usize = 0;
    while i < n
        invariant
            n == text@.len(),
            i <= n,
            match found {
                None => forall|j: int| 0 <= j < i ==> #[trigger] text@[j] != '=',
                Some(p) => p < i && text@[p as int] == '=' && forall|j: int|
                    0 <= j < i && #[trigger] text@[j] == '=' ==> j == p,
            },
        decreases n - i,
    {
        if text.get_char(i) == '=' {
            if found.is_some() {
                proof {
                    let p = found.unwrap();
                    assert(text@[p as int] == '=');
                    assert(text@[i as int] == '=');
                }
                return false;
            }
            found = Some(i);
        }
        i = i + 1;
    }
    match found {
        None => false,
        Some(p) => {
            assert(text@[p as int] == '=');
            true
        },
    }
}

/// An untyped assignment `KEY=VALUE` sets `KEY` to the bytes of `VALUE`.
impl<'a> Diff for &'a str {
    open spec fn is_valid_diff(&self) -> bool {
        is_assignment(self@)
    }

    open spec fn obeys_diff_spec(&self) -> bool {
        true
    }

    open spec fn spec_entries(self) -> Seq<EntryView> {
        seq![assignment_entry(self@)]
    }

    open spec fn sets_only(&self, value: Seq<u8>) -> bool {
        valid_utf8(value)
    }

    fn to_env_diff(self) -> (entries: Vec<Entry>) {
        let n = self.unicode_len();
        let mut i: usize = 0;
        while i < n
            invariant
                n == self@.len(),
                i <= n,
                is_assignment(self@),
                forall|j: int| 0 <= j < i ==> #[trigger] self@[j] != '=',
            ensures
                i < n,
                self@[i as int] == '=',
            decreases n - i,
        {
            if self.get_char(i) == '=' {
                break;
            }
            i = i + 1;
        }
        proof {
            let p = separator_index(self@);
            assert(self@[p] == '=');
            assert(p == i);
        }
        let key = self.substring_char(0, i).to_owned();
        let value = self.substring_char(i + 1, n).as_bytes_vec();
        let entries = vec![Entry::Assign { key, value }];
        assert(entries_view(entries@) =~= self.spec_entries());
        entries
    }
}

/// Appends the entries of `diff` to `entries`, which `spec` and `exact` describe.
fn push_diff<D: Diff>(
    entries: &mut Vec<Entry>,
    diff: D,
    Ghost(spec): Ghost<Seq<EntryView>>,
    Ghost(exact): Ghost<bool>,
    Ghost(held): Ghost<spec_fn(Seq<u8>) -> bool>,
)
    requires
        diff.is_valid_diff(),
        describes(spec, exact, entries_view(old(entries)@)),
        sets_values(entries_view(old(entries)@), held),
    ensures
        describes(
            spec + diff.spec_entries(),
            exact && diff.obeys_diff_spec(),
            entries_view(final(entries)@),
        ),
        sets_values(entries_view(final(entries)@), |v: Seq<u8>| held(v) || diff.sets_only(v)),
{
    let ghost next_spec = diff.spec_entries();
    let ghost next_exact = diff.obeys_diff_spec();
    let ghost next_held = |v: Seq<u8>| diff.sets_only(v);
    let mut more = diff.to_env_diff();
    proof {
        lemma_entries_view_concat(entries@, more@);
        lemma_describes_concat(
            spec,
            exact,
            entries_view(entries@),
            next_spec,
            next_exact,
            entries_view(more@),
        );
        lemma_sets_values_concat(entries_view(entries@), held, entries_view(more@), next_held);
    }
    entries.append(&mut more);
}

/// A tuple of diffs applies its parts in order.
impl<A: Diff, B: Diff> Diff for (A, B) {
    open spec fn is_valid_diff(&self) -> bool {
        self.0.is_valid_diff() && self.1.is_valid_diff()
    }

    open spec fn obeys_diff_spec(&self) -> bool {
        self.0.obeys_diff_spec() && self.1.obeys_diff_spec()
    }

    open spec fn spec_entries(self) -> Seq<EntryView> {
        self.0.spec_entries() + self.1.spec_entries()
    }

    open spec fn sets_only(&self, value: Seq<u8>) -> bool {
        self.0.sets_only(value) || self.1.sets_only(value)
    }

    fn to_env_diff(self) -> (entries: Vec<Entry>) {
        let ghost whole = self;
        let (a, b) = self;
        let mut entries = a.to_env_diff();
        let ghost mut spec = whole.0.spec_entries();
        let ghost mut exact = whole.0.obeys_diff_spec();
        let ghost mut held = |v: Seq<u8>| whole.0.sets_only(v);
        push_diff(&mut entries, b, Ghost(spec), Ghost(exact), Ghost(held));
        proof {
            held = |v: Seq<u8>| held(v) || whole.1.sets_only(v);
        }
        proof {
            lemma_sets_values_weaken(entries_view(entries@), held, |v: Seq<u8>| whole.sets_only(v));
        }
        entries
    }
}

impl<A: Diff, B: Diff, C: Diff> Diff for (A, B, C) {
    open spec fn is_valid_diff(&self) -> bool {
        self.0.is_valid_diff() && self.1.is_valid_diff() && self.2.is_valid_diff()
    }

    open spec fn obeys_diff_spec(&self) -> bool {
        self.0.obeys_diff_spec() && self.1.obeys_diff_spec() && self.2.obeys_diff_spec()
    }

    open spec fn spec_entries(self) -> Seq<EntryView> {
        self.0.spec_entries() + self.1.spec_entries() + self.2.spec_entries()
    }

    open spec fn sets_only(&self, value: Seq<u8>) -> bool {
        self.0.sets_only(value) || self.1.sets_only(value) || self.2.sets_only(value)
    }

    fn to_env_diff(self) -> (entries: Vec<Entry>) {
        let ghost whole = self;
        let (a, b, c) = self;
        let mut entries = a.to_env_diff();
        let ghost mut spec = whole.0.spec_entries();
        let ghost mut exact = whole.0.obeys_diff_spec();
        let ghost mut held = |v: Seq<u8>| whole.0.sets_only(v);
        push_diff(&mut entries, b, Ghost(spec), Ghost(exact), Ghost(held));
        proof {
            spec = spec + whole.1.spec_entries();
            exact = exact && whole.1.obeys_diff_spec();
            held = |v: Seq<u8>| held(v) || whole.1.sets_only(v);
        }
        push_diff(&mut entries, c, Ghost(spec), Ghost(exact), Ghost(held));
        proof {
            held = |v: Seq<u8>| held(v) || whole.2.sets_only(v);
        }
        proof {
            lemma_sets_values_weaken(entries_view(entries@), held, |v: Seq<u8>| whole.sets_only(v));
        }
        entries
    }
}

impl<A: Diff, B: Diff, C: Diff, D: Diff> Diff for (A, B, C, D) {
    open spec fn is_valid_diff(&self) -> bool {
        self.0.is_valid_diff()
            && self.1.is_valid_diff()
            && self.2.is_valid_diff()
            && self.3.is_valid_diff()
    }

    open spec fn obeys_diff_spec(&self) -> bool {
        self.0.obeys_diff_spec()
            && self.1.obeys_diff_spec()
            && self.2.obeys_diff_spec()
            && self.3.obeys_diff_spec()
    }

    open spec fn spec_entries(self) -> Seq<EntryView> {
        self.0.spec_entries()
            + self.1.spec_entries()
            + self.2.spec_entries()
            + self.3.spec_entries()
    }

    open spec fn sets_only(&self, value: Seq<u8>) -> bool {
        self.0.sets_only(value)
            || self.1.sets_only(value)
            || self.2.sets_only(value)
            || self.3.sets_only(value)
    }

    fn to_env_diff(self) -> (entries: Vec<Entry>) {
        let ghost whole = self;
        let (a, b, c, d) = self;
        let mut entries = a.to_env_diff();
        let ghost mut spec = whole.0.spec_entries();
        let ghost mut exact = whole.0.obeys_diff_spec();
        let ghost mut held = |v: Seq<u8>| whole.0.sets_only(v);
        push_diff(&mut entries, b, Ghost(spec), Ghost(exact), Ghost(held));
        proof {
            spec = spec + whole.1.spec_entries();
            exact = exact && whole.1.obeys_diff_spec();
            held = |v: Seq<u8>| held(v) || whole.1.sets_only(v);
        }
        push_diff(&mut entries, c, Ghost(spec), Ghost(exact), Ghost(held));
        proof {
            spec = spec + whole.2.spec_entries();
            exact = exact && whole.2.obeys_diff_spec();
            held = |v: Seq<u8>| held(v) || whole.2.sets_only(v);
        }
        push_diff(&mut entries, d, Ghost(spec), Ghost(exact), Ghost(held));
        proof {
            held = |v: Seq<u8>| held(v) || whole.3.sets_only(v);
        }
        proof {
            lemma_sets_values_weaken(entries_view(entries@), held, |v: Seq<u8>| whole.sets_only(v));
        }
        entries
    }
}

impl<A: Diff, B: Diff, C: Diff, D: Diff, E: Diff> Diff for (A, B, C, D, E) {
    open spec fn is_valid_diff(&self) -> bool {
        self.0.is_valid_diff()
            && self.1.is_valid_diff()
            && self.2.is_valid_diff()
            && self.3.is_valid_diff()
            && self.4.is_valid_diff()
    }

    open spec fn obeys_diff_spec(&self) -> bool {
        self.0.obeys_diff_spec()
            && self.1.obeys_diff_spec()
            && self.2.obeys_diff_spec()
            && self.3.obeys_diff_spec()
            && self.4.obeys_diff_spec()
    }

    open spec fn spec_entries(self) -> Seq<EntryView> {
        self.0.spec_entries()
            + self.1.spec_entries()
            + self.2.spec_entries()
            + self.3.spec_entries()
            + self.4.spec_entries()
    }

    open spec fn sets_only(&self, value: Seq<u8>) -> bool {
        self.0.sets_only(value)
            || self.1.sets_only(value)
            || self.2.sets_only(value)
            || self.3.sets_only(value)
            || self.4.sets_only(value)
    }

    fn to_env_diff(self) -> (entries: Vec<Entry>) {
        let ghost whole = self;
        let (a, b, c, d, e) = self;
        let mut entries = a.to_env_diff();
        let ghost mut spec = whole.0.spec_entries();
        let ghost mut exact = whole.0.obeys_diff_spec();
        let ghost mut held = |v: Seq<u8>| whole.0.sets_only(v);
        push_diff(&mut entries, b, Ghost(spec), Ghost(exact), Ghost(held));
        proof {
            spec = spec + whole.1.spec_entries();
            exact = exact && whole.1.obeys_diff_spec();
            held = |v: Seq<u8>| held(v) || whole.1.sets_only(v);
        }
        push_diff(&mut entries, c, Ghost(spec), Ghost(exact), Ghost(held));
        proof {
            spec = spec + whole.2.spec_entries();
            exact = exact && whole.2.obeys_diff_spec();
            held = |v: Seq<u8>| held(v) || whole.2.sets_only(v);
        }
        push_diff(&mut entries, d, Ghost(spec), Ghost(exact), Ghost(held));
        proof {
            spec = spec + whole.3.spec_entries();
            exact = exact && whole.3.obeys_diff_spec();
            held = |v: Seq<u8>| held(v) || whole.3.sets_only(v);
        }
        push_diff(&mut entries, e, Ghost(spec), Ghost(exact), Ghost(held));
        proof {
            held = |v: Seq<u8>| held(v) || whole.4.sets_only(v);
        }
        proof {
            lemma_sets_values_weaken(entries_view(entries@), held, |v: Seq<u8>| whole.sets_only(v));
        }
        entries
    }
}

impl<A: Diff, B: Diff, C: Diff, D: Diff, E: Diff, F: Diff> Diff for (A, B, C, D, E, F) {
    open spec fn is_valid_diff(&self) -> bool {
        self.0.is_valid_diff()
            && self.1.is_valid_diff()
            && self.2.is_valid_diff()
            && self.3.is_valid_diff()
            && self.4.is_valid_diff()
            && self.5.is_valid_diff()
    }

    open spec fn obeys_diff_spec(&self) -> bool {
        self.0.obeys_diff_spec()
            && self.1.obeys_diff_spec()
            && self.2.obeys_diff_spec()
            && self.3.obeys_diff_spec()
            && self.4.obeys_diff_spec()
            && self.5.obeys_diff_spec()
    }

    open spec fn spec_entries(self) -> Seq<EntryView> {
        self.0.spec_entries()
            + self.1.spec_entries()
            + self.2.spec_entries()
            + self.3.spec_entries()
            + self.4.spec_entries()
            + self.5.spec_entries()
    }

    open spec fn sets_only(&self, value: Seq<u8>) -> bool {
        self.0.sets_only(value)
            || self.1.sets_only(value)
            || self.2.sets_only(value)
            || self.3.sets_only(value)
            || self.4.sets_only(value)
            || self.5.sets_only(value)
    }

    fn to_env_diff(self) -> (entries: Vec<Entry>) {
        let ghost whole = self;
        let (a, b, c, d, e, f) = self;
        let mut entries = a.to_env_diff();
        let ghost mut spec = whole.0.spec_entries();
        let ghost mut exact = whole.0.obeys_diff_spec();
        let ghost mut held = |v: Seq<u8>| whole.0.sets_only(v);
        push_diff(&mut entries, b, Ghost(spec), Ghost(exact), Ghost(held));
        proof {
            spec = spec + whole.1.spec_entries();
            exact = exact && whole.1.obeys_diff_spec();
            held = |v: Seq<u8>| held(v) || whole.1.sets_only(v);
        }
        push_diff(&mut entries, c, Ghost(spec), Ghost(exact), Ghost(held));
        proof {
            spec = spec + whole.2.spec_entries();
            exact = exact && whole.2.obeys_diff_spec();
            held = |v: Seq<u8>| held(v) || whole.2.sets_only(v);
        }
        push_diff(&mut entries, d, Ghost(spec), Ghost(exact), Ghost(held));
        proof {
            spec = spec + whole.3.spec_entries();
            exact = exact && whole.3.obeys_diff_spec();
            held = |v: Seq<u8>| held(v) || whole.3.sets_only(v);
        }
        push_diff(&mut entries, e, Ghost(spec), Ghost(exact), Ghost(held));
        proof {
            spec = spec + whole.4.spec_entries();
            exact = exact && whole.4.obeys_diff_spec();
            held = |v: Seq<u8>| held(v) || whole.4.sets_only(v);
        }
        push_diff(&mut entries, f, Ghost(spec), Ghost(exact), Ghost(held));
        proof {
            held = |v: Seq<u8>| held(v) || whole.5.sets_only(v);
        }
        proof {
            lemma_sets_values_weaken(entries_view(entries@), held, |v: Seq<u8>| whole.sets_only(v));
        }
        entries
    }
}

impl<A: Diff, B: Diff, C: Diff, D: Diff, E: Diff, F: Diff, G: Diff> Diff for (A, B, C, D, E, F, G) {
    open spec fn is_valid_diff(&self) -> bool {
        self.0.is_valid_diff()
            && self.1.is_valid_diff()
            && self.2.is_valid_diff()
            && self.3.is_valid_diff()
            && self.4.is_valid_diff()
            && self.5.is_valid_diff()
            && self.6.is_valid_diff()
    }

    open spec fn obeys_diff_spec(&self) -> bool {
        self.0.obeys_diff_spec()
            && self.1.obeys_diff_spec()
            && self.2.obeys_diff_spec()
            && self.3.obeys_diff_spec()
            && self.4.obeys_diff_spec()
            && self.5.obeys_diff_spec()
            && self.6.obeys_diff_spec()
    }

    open spec fn spec_entries(self) -> Seq<EntryView> {
        self.0.spec_entries()
            + self.1.spec_entries()
            + self.2.spec_entries()
            + self.3.spec_entries()
            + self.4.spec_entries()
            + self.5.spec_entries()
            + self.6.spec_entries()
    }

    open spec fn sets_only(&self, value: Seq<u8>) -> bool {
        self.0.sets_only(value)
            || self.1.sets_only(value)
            || self.2.sets_only(value)
            || self.3.sets_only(value)
            || self.4.sets_only(value)
            || self.5.sets_only(value)
            || self.6.sets_only(value)
    }

    fn to_env_diff(self) -> (entries: Vec<Entry>) {
        let ghost whole = self;
        let (a, b, c, d, e, f, g) = self;
        let mut entries = a.to_env_diff();
        let ghost mut spec = whole.0.spec_entries();
        let ghost mut exact = whole.0.obeys_diff_spec();
        let ghost mut held = |v: Seq<u8>| whole.0.sets_only(v);
        push_diff(&mut entries, b, Ghost(spec), Ghost(exact), Ghost(held));
        proof {
            spec = spec + whole.1.spec_entries();
            exact = exact && whole.1.obeys_diff_spec();
            held = |v: Seq<u8>| held(v) || whole.1.sets_only(v);
        }
        push_diff(&mut entries, c, Ghost(spec), Ghost(exact), Ghost(held));
        proof {
            spec = spec + whole.2.spec_entries();
            exact = exact && whole.2.obeys_diff_spec();
            held = |v: Seq<u8>| held(v) || whole.2.sets_only(v);
        }
        push_diff(&mut entries, d, Ghost(spec), Ghost(exact), Ghost(held));
        proof {
            spec = spec + whole.3.spec_entries();
            exact = exact && whole.3.obeys_diff_spec();
            held = |v: Seq<u8>| held(v) || whole.3.sets_only(v);
        }
        push_diff(&mut entries, e, Ghost(spec), Ghost(exact), Ghost(held));
        proof {
            spec = spec + whole.4.spec_entries();
            exact = exact && whole.4.obeys_diff_spec();
            held = |v: Seq<u8>| held(v) || whole.4.sets_only(v);
        }
        push_diff(&mut entries, f, Ghost(spec), Ghost(exact), Ghost(held));
        proof {
            spec = spec + whole.5.spec_entries();
            exact = exact && whole.5.obeys_diff_spec();
            held = |v: Seq<u8>| held(v) || whole.5.sets_only(v);
        }
        push_diff(&mut entries, g, Ghost(spec), Ghost(exact), Ghost(held));
        proof {
            held = |v: Seq<u8>| held(v) || whole.6.sets_only(v);
        }
        proof {
            lemma_sets_values_weaken(entries_view(entries@), held, |v: Seq<u8>| whole.sets_only(v));
        }
        entries
    }
}

impl<
    A: Diff,
    B: Diff,
    C: Diff,
    D: Diff,
    E: Diff,
    F: Diff,
    G: Diff,
    H: Diff,
> Diff for (A, B, C, D, E, F, G, H) {
    open spec fn is_valid_diff(&self) -> bool {
        self.0.is_valid_diff()
            && self.1.is_valid_diff()
            && self.2.is_valid_diff()
            && self.3.is_valid_diff()
            && self.4.is_valid_diff()
            && self.5.is_valid_diff()
            && self.6.is_valid_diff()
            && self.7.is_valid_diff()
    }

    open spec fn obeys_diff_spec(&self) -> bool {
        self.0.obeys_diff_spec()
            && self.1.obeys_diff_spec()
            && self.2.obeys_diff_spec()
            && self.3.obeys_diff_spec()
            && self.4.obeys_diff_spec()
            && self.5.obeys_diff_spec()
            && self.6.obeys_diff_spec()
            && self.7.obeys_diff_spec()
    }

    open spec fn spec_entries(self) -> Seq<EntryView> {
        self.0.spec_entries()
            + self.1.spec_entries()
            + self.2.spec_entries()
            + self.3.spec_entries()
            + self.4.spec_entries()
            + self.5.spec_entries()
            + self.6.spec_entries()
            + self.7.spec_entries()
    }

    open spec fn sets_only(&self, value: Seq<u8>) -> bool {
        self.0.sets_only(value)
            || self.1.sets_only(value)
            || self.2.sets_only(value)
            || self.3.sets_only(value)
            || self.4.sets_only(value)
            || self.5.sets_only(value)
            || self.6.sets_only(value)
            || self.7.sets_only(value)
    }

    fn to_env_diff(self) -> (entries: Vec<Entry>) {
        let ghost whole = self;
        let (a, b, c, d, e, f, g, h) = self;
        let mut entries = a.to_env_diff();
        let ghost mut spec = whole.0.spec_entries();
        let ghost mut exact = whole.0.obeys_diff_spec();
        let ghost mut held = |v: Seq<u8>| whole.0.sets_only(v);
        push_diff(&mut entries, b, Ghost(spec), Ghost(exact), Ghost(held));
        proof {
            spec = spec + whole.1.spec_entries();
            exact = exact && whole.1.obeys_diff_spec();
            held = |v: Seq<u8>| held(v) || whole.1.sets_only(v);
        }
        push_diff(&mut entries, c, Ghost(spec), Ghost(exact), Ghost(held));
        proof {
            spec = spec + whole.2.spec_entries();
            exact = exact && whole.2.obeys_diff_spec();
            held = |v: Seq<u8>| held(v) || whole.2.sets_only(v);
        }
        push_diff(&mut entries, d, Ghost(spec), Ghost(exact), Ghost(held));
        proof {
            spec = spec + whole.3.spec_entries();
            exact = exact && whole.3.obeys_diff_spec();
            held = |v: Seq<u8>| held(v) || whole.3.sets_only(v);
        }
        push_diff(&mut entries, e, Ghost(spec), Ghost(exact), Ghost(held));
        proof {
            spec = spec + whole.4.spec_entries();
            exact = exact && whole.4.obeys_diff_spec();
            held = |v: Seq<u8>| held(v) || whole.4.sets_only(v);
        }
        push_diff(&mut entries, f, Ghost(spec), Ghost(exact), Ghost(held));
        proof {
            spec = spec + whole.5.spec_entries();
            exact = exact && whole.5.obeys_diff_spec();
            held = |v: Seq<u8>| held(v) || whole.5.sets_only(v);
        }
        push_diff(&mut entries, g, Ghost(spec), Ghost(exact), Ghost(held));
        proof {
            spec = spec + whole.6.spec_entries();
            exact = exact && whole.6.obeys_diff_spec();
            held = |v: Seq<u8>| held(v) || whole.6.sets_only(v);
        }
        push_diff(&mut entries, h, Ghost(spec), Ghost(exact), Ghost(held));
        proof {
            held = |v: Seq<u8>| held(v) || whole.7.sets_only(v);
        }
        proof {
            lemma_sets_values_weaken(entries_view(entries@), held, |v: Seq<u8>| whole.sets_only(v));
        }
        entries
    }
}

impl<
    A: Diff,
    B: Diff,
    C: Diff,
    D: Diff,
    E: Diff,
    F: Diff,
    G: Diff,
    H: Diff,
    I: Diff,
> Diff for (A, B, C, D, E, F, G, H, I) {
    open spec fn is_valid_diff(&self) -> bool {
        self.0.is_valid_diff()
            && self.1.is_valid_diff()
            && self.2.is_valid_diff()
            && self.3.is_valid_diff()
            && self.4.is_valid_diff()
            && self.5.is_valid_diff()
            && self.6.is_valid_diff()
            && self.7.is_valid_diff()
            && self.8.is_valid_diff()
    }

    open spec fn obeys_diff_spec(&self) -> bool {
        self.0.obeys_diff_spec()
            && self.1.obeys_diff_spec()
            && self.2.obeys_diff_spec()
            && self.3.obeys_diff_spec()
            && self.4.obeys_diff_spec()
            && self.5.obeys_diff_spec()
            && self.6.obeys_diff_spec()
            && self.7.obeys_diff_spec()
            && self.8.obeys_diff_spec()
    }

    open spec fn spec_entries(self) -> Seq<EntryView> {
        self.0.spec_entries()
            + self.1.spec_entries()
            + self.2.spec_entries()
            + self.3.spec_entries()
            + self.4.spec_entries()
            + self.5.spec_entries()
            + self.6.spec_entries()
            + self.7.spec_entries()
            + self.8.spec_entries()
    }

    open spec fn sets_only(&self, value: Seq<u8>) -> bool {
        self.0.sets_only(value)
            || self.1.sets_only(value)
            || self.2.sets_only(value)
            || self.3.sets_only(value)
            || self.4.sets_only(value)
            || self.5.sets_only(value)
            || self.6.sets_only(value)
            || self.7.sets_only(value)
            || self.8.sets_only(value)
    }

    fn to_env_diff(self) -> (entries: Vec<Entry>) {
        let ghost whole = self;
        let (a, b, c, d, e, f, g, h, i) = self;
        let mut entries = a.to_env_diff();
        let ghost mut spec = whole.0.spec_entries();
        let ghost mut exact = whole.0.obeys_diff_spec();
        let ghost mut held = |v: Seq<u8>| whole.0.sets_only(v);
        push_diff(&mut entries, b, Ghost(spec), Ghost(exact), Ghost(held));
        proof {
            spec = spec + whole.1.spec_entries();
            exact = exact && whole.1.obeys_diff_spec();
            held = |v: Seq<u8>| held(v) || whole.1.sets_only(v);
        }
        push_diff(&mut entries, c, Ghost(spec), Ghost(exact), Ghost(held));
        proof {
            spec = spec + whole.2.spec_entries();
            exact = exact && whole.2.obeys_diff_spec();
            held = |v: Seq<u8>| held(v) || whole.2.sets_only(v);
        }
        push_diff(&mut entries, d, Ghost(spec), Ghost(exact), Ghost(held));
        proof {
            spec = spec + whole.3.spec_entries();
            exact = exact && whole.3.obeys_diff_spec();
            held = |v: Seq<u8>| held(v) || whole.3.sets_only(v);
        }
        push_diff(&mut entries, e, Ghost(spec), Ghost(exact), Ghost(held));
        proof {
            spec = spec + whole.4.spec_entries();
            exact = exact && whole.4.obeys_diff_spec();
            held = |v: Seq<u8>| held(v) || whole.4.sets_only(v);
        }
        push_diff(&mut entries, f, Ghost(spec), Ghost(exact), Ghost(held));
        proof {
            spec = spec + whole.5.spec_entries();
            exact = exact && whole.5.obeys_diff_spec();
            held = |v: Seq<u8>| held(v) || whole.5.sets_only(v);
        }
        push_diff(&mut entries, g, Ghost(spec), Ghost(exact), Ghost(held));
        proof {
            spec = spec + whole.6.spec_entries();
            exact = exact && whole.6.obeys_diff_spec();
            held = |v: Seq<u8>| held(v) || whole.6.sets_only(v);
        }
        push_diff(&mut entries, h, Ghost(spec), Ghost(exact), Ghost(held));
        proof {
            spec = spec + whole.7.spec_entries();
            exact = exact && whole.7.obeys_diff_spec();
            held = |v: Seq<u8>| held(v) || whole.7.sets_only(v);
        }
        push_diff(&mut entries, i, Ghost(spec), Ghost(exact), Ghost(held));
        proof {
            held = |v: Seq<u8>| held(v) || whole.8.sets_only(v);
        }
        proof {
            lemma_sets_values_weaken(entries_view(entries@), held, |v: Seq<u8>| whole.sets_only(v));
        }
        entries
    }
}

impl<
    A: Diff,
    B: Diff,
    C: Diff,
    D: Diff,
    E: Diff,
    F: Diff,
    G: Diff,
    H: Diff,
    I: Diff,
    J: Diff,
> Diff for (A, B, C, D, E, F, G, H, I, J) {
    open spec fn is_valid_diff(&self) -> bool {
        self.0.is_valid_diff()
            && self.1.is_valid_diff()
            && self.2.is_valid_diff()
            && self.3.is_valid_diff()
            && self.4.is_valid_diff()
            && self.5.is_valid_diff()
            && self.6.is_valid_diff()
            && self.7.is_valid_diff()
            && self.8.is_valid_diff()
            && self.9.is_valid_diff()
    }

    open spec fn obeys_diff_spec(&self) -> bool {
        self.0.obeys_diff_spec()
            && self.1.obeys_diff_spec()
            && self.2.obeys_diff_spec()
            && self.3.obeys_diff_spec()
            && self.4.obeys_diff_spec()
            && self.5.obeys_diff_spec()
            && self.6.obeys_diff_spec()
            && self.7.obeys_diff_spec()
            && self.8.obeys_diff_spec()
            && self.9.obeys_diff_spec()
    }

    open spec fn spec_entries(self) -> Seq<EntryView> {
        self.0.spec_entries()
            + self.1.spec_entries()
            + self.2.spec_entries()
            + self.3.spec_entries()
            + self.4.spec_entries()
            + self.5.spec_entries()
            + self.6.spec_entries()
            + self.7.spec_entries()
            + self.8.spec_entries()
            + self.9.spec_entries()
    }

    open spec fn sets_only(&self, value: Seq<u8>) -> bool {
        self.0.sets_only(value)
            || self.1.sets_only(value)
            || self.2.sets_only(value)
            || self.3.sets_only(value)
            || self.4.sets_only(value)
            || self.5.sets_only(value)
            || self.6.sets_only(value)
            || self.7.sets_only(value)
            || self.8.sets_only(value)
            || self.9.sets_only(value)
    }

    fn to_env_diff(self) -> (entries: Vec<Entry>) {
        let ghost whole = self;
        let (a, b, c, d, e, f, g, h, i, j) = self;
        let mut entries = a.to_env_diff();
        let ghost mut spec = whole.0.spec_entries();
        let ghost mut exact = whole.0.obeys_diff_spec();
        let ghost mut held = |v: Seq<u8>| whole.0.sets_only(v);
        push_diff(&mut entries, b, Ghost(spec), Ghost(exact), Ghost(held));
        proof {
            spec = spec + whole.1.spec_entries();
            exact = exact && whole.1.obeys_diff_spec();
            held = |v: Seq<u8>| held(v) || whole.1.sets_only(v);
        }
        push_diff(&mut entries, c, Ghost(spec), Ghost(exact), Ghost(held));
        proof {
            spec = spec + whole.2.spec_entries();
            exact = exact && whole.2.obeys_diff_spec();
            held = |v: Seq<u8>| held(v) || whole.2.sets_only(v);
        }
        push_diff(&mut entries, d, Ghost(spec), Ghost(exact), Ghost(held));
        proof {
            spec = spec + whole.3.spec_entries();
            exact = exact && whole.3.obeys_diff_spec();
            held = |v: Seq<u8>| held(v) || whole.3.sets_only(v);
        }
        push_diff(&mut entries, e, Ghost(spec), Ghost(exact), Ghost(held));
        proof {
            spec = spec + whole.4.spec_entries();
            exact = exact && whole.4.obeys_diff_spec();
            held = |v: Seq<u8>| held(v) || whole.4.sets_only(v);
        }
        push_diff(&mut entries, f, Ghost(spec), Ghost(exact), Ghost(held));
        proof {
            spec = spec + whole.5.spec_entries();
            exact = exact && whole.5.obeys_diff_spec();
            held = |v: Seq<u8>| held(v) || whole.5.sets_only(v);
        }
        push_diff(&mut entries, g, Ghost(spec), Ghost(exact), Ghost(held));
        proof {
            spec = spec + whole.6.spec_entries();
            exact = exact && whole.6.obeys_diff_spec();
            held = |v: Seq<u8>| held(v) || whole.6.sets_only(v);
        }
        push_diff(&mut entries, h, Ghost(spec), Ghost(exact), Ghost(held));
        proof {
            spec = spec + whole.7.spec_entries();
            exact = exact && whole.7.obeys_diff_spec();
            held = |v: Seq<u8>| held(v) || whole.7.sets_only(v);
        }
        push_diff(&mut entries, i, Ghost(spec), Ghost(exact), Ghost(held));
        proof {
            spec = spec + whole.8.spec_entries();
            exact = exact && whole.8.obeys_diff_spec();
            held = |v: Seq<u8>| held(v) || whole.8.sets_only(v);
        }
        push_diff(&mut entries, j, Ghost(spec), Ghost(exact), Ghost(held));
        proof {
            held = |v: Seq<u8>| held(v) || whole.9.sets_only(v);
        }
        proof {
            lemma_sets_values_weaken(entries_view(entries@), held, |v: Seq<u8>| whole.sets_only(v));
        }
        entries
    }
}

impl<
    A: Diff,
    B: Diff,
    C: Diff,
    D: Diff,
    E: Diff,
    F: Diff,
    G: Diff,
    H: Diff,
    I: Diff,
    J: Diff,
    K: Diff,
> Diff for (A, B, C, D, E, F, G, H, I, J, K) {
    open spec fn is_valid_diff(&self) -> bool {
        self.0.is_valid_diff()
            && self.1.is_valid_diff()
            && self.2.is_valid_diff()
            && self.3.is_valid_diff()
            && self.4.is_valid_diff()
            && self.5.is_valid_diff()
            && self.6.is_valid_diff()
            && self.7.is_valid_diff()
            && self.8.is_valid_diff()
            && self.9.is_valid_diff()
            && self.10.is_valid_diff()
    }

    open spec fn obeys_diff_spec(&self) -> bool {
        self.0.obeys_diff_spec()
            && self.1.obeys_diff_spec()
            && self.2.obeys_diff_spec()
            && self.3.obeys_diff_spec()
            && self.4.obeys_diff_spec()
            && self.5.obeys_diff_spec()
            && self.6.obeys_diff_spec()
            && self.7.obeys_diff_spec()
            && self.8.obeys_diff_spec()
            && self.9.obeys_diff_spec()
            && self.10.obeys_diff_spec()
    }

    open spec fn spec_entries(self) -> Seq<EntryView> {
        self.0.spec_entries()
            + self.1.spec_entries()
            + self.2.spec_entries()
            + self.3.spec_entries()
            + self.4.spec_entries()
            + self.5.spec_entries()
            + self.6.spec_entries()
            + self.7.spec_entries()
            + self.8.spec_entries()
            + self.9.spec_entries()
            + self.10.spec_entries()
    }

    open spec fn sets_only(&self, value: Seq<u8>) -> bool {
        self.0.sets_only(value)
            || self.1.sets_only(value)
            || self.2.sets_only(value)
            || self.3.sets_only(value)
            || self.4.sets_only(value)
            || self.5.sets_only(value)
            || self.6.sets_only(value)
            || self.7.sets_only(value)
            || self.8.sets_only(value)
            || self.9.sets_only(value)
            || self.10.sets_only(value)
    }

    fn to_env_diff(self) -> (entries: Vec<Entry>) {
        let ghost whole = self;
        let (a, b, c, d, e, f, g, h, i, j, k) = self;
        let mut entries = a.to_env_diff();
        let ghost mut spec = whole.0.spec_entries();
        let ghost mut exact = whole.0.obeys_diff_spec();
        let ghost mut held = |v: Seq<u8>| whole.0.sets_only(v);
        push_diff(&mut entries, b, Ghost(spec), Ghost(exact), Ghost(held));
        proof {
            spec = spec + whole.1.spec_entries();
            exact = exact && whole.1.obeys_diff_spec();
            held = |v: Seq<u8>| held(v) || whole.1.sets_only(v);
        }
        push_diff(&mut entries, c, Ghost(spec), Ghost(exact), Ghost(held));
        proof {
            spec = spec + whole.2.spec_entries();
            exact = exact && whole.2.obeys_diff_spec();
            held = |v: Seq<u8>| held(v) || whole.2.sets_only(v);
        }
        push_diff(&mut entries, d, Ghost(spec), Ghost(exact), Ghost(held));
        proof {
            spec = spec + whole.3.spec_entries();
            exact = exact && whole.3.obeys_diff_spec();
            held = |v: Seq<u8>| held(v) || whole.3.sets_only(v);
        }
        push_diff(&mut entries, e, Ghost(spec), Ghost(exact), Ghost(held));
        proof {
            spec = spec + whole.4.spec_entries();
            exact = exact && whole.4.obeys_diff_spec();
            held = |v: Seq<u8>| held(v) || whole.4.sets_only(v);
        }
        push_diff(&mut entries, f, Ghost(spec), Ghost(exact), Ghost(held));
        proof {
            spec = spec + whole.5.spec_entries();
            exact = exact && whole.5.obeys_diff_spec();
            held = |v: Seq<u8>| held(v) || whole.5.sets_only(v);
        }
        push_diff(&mut entries, g, Ghost(spec), Ghost(exact), Ghost(held));
        proof {
            spec = spec + whole.6.spec_entries();
            exact = exact && whole.6.obeys_diff_spec();
            held = |v: Seq<u8>| held(v) || whole.6.sets_only(v);
        }
        push_diff(&mut entries, h, Ghost(spec), Ghost(exact), Ghost(held));
        proof {
            spec = spec + whole.7.spec_entries();
            exact = exact && whole.7.obeys_diff_spec();
            held = |v: Seq<u8>| held(v) || whole.7.sets_only(v);
        }
        push_diff(&mut entries, i, Ghost(spec), Ghost(exact), Ghost(held));
        proof {
            spec = spec + whole.8.spec_entries();
            exact = exact && whole.8.obeys_diff_spec();
            held = |v: Seq<u8>| held(v) || whole.8.sets_only(v);
        }
        push_diff(&mut entries, j, Ghost(spec), Ghost(exact), Ghost(held));
        proof {
            spec = spec + whole.9.spec_entries();
            exact = exact && whole.9.obeys_diff_spec();
            held = |v: Seq<u8>| held(v) || whole.9.sets_only(v);
        }
        push_diff(&mut entries, k, Ghost(spec), Ghost(exact), Ghost(held));
        proof {
            held = |v: Seq<u8>| held(v) || whole.10.sets_only(v);
        }
        proof {
            lemma_sets_values_weaken(entries_view(entries@), held, |v: Seq<u8>| whole.sets_only(v));
        }
        entries
    }
}

impl<
    A: Diff,
    B: Diff,
    C: Diff,
    D: Diff,
    E: Diff,
    F: Diff,
    G: Diff,
    H: Diff,
    I: Diff,
    J: Diff,
    K: Diff,
    L: Diff,
> Diff for (A, B, C, D, E, F, G, H, I, J, K, L) {
    open spec fn is_valid_diff(&self) -> bool {
        self.0.is_valid_diff()
            && self.1.is_valid_diff()
            && self.2.is_valid_diff()
            && self.3.is_valid_diff()
            && self.4.is_valid_diff()
            && self.5.is_valid_diff()
            && self.6.is_valid_diff()
            && self.7.is_valid_diff()
            && self.8.is_valid_diff()
            && self.9.is_valid_diff()
            && self.10.is_valid_diff()
            && self.11.is_valid_diff()
    }

    open spec fn obeys_diff_spec(&self) -> bool {
        self.0.obeys_diff_spec()
            && self.1.obeys_diff_spec()
            && self.2.obeys_diff_spec()
            && self.3.obeys_diff_spec()
            && self.4.obeys_diff_spec()
            && self.5.obeys_diff_spec()
            && self.6.obeys_diff_spec()
            && self.7.obeys_diff_spec()
            && self.8.obeys_diff_spec()
            && self.9.obeys_diff_spec()
            && self.10.obeys_diff_spec()
            && self.11.obeys_diff_spec()
    }

    open spec fn spec_entries(self) -> Seq<EntryView> {
        self.0.spec_entries()
            + self.1.spec_entries()
            + self.2.spec_entries()
            + self.3.spec_entries()
            + self.4.spec_entries()
            + self.5.spec_entries()
            + self.6.spec_entries()
            + self.7.spec_entries()
            + self.8.spec_entries()
            + self.9.spec_entries()
            + self.10.spec_entries()
            + self.11.spec_entries()
    }

    open spec fn sets_only(&self, value: Seq<u8>) -> bool {
        self.0.sets_only(value)
            || self.1.sets_only(value)
            || self.2.sets_only(value)
            || self.3.sets_only(value)
            || self.4.sets_only(value)
            || self.5.sets_only(value)
            || self.6.sets_only(value)
            || self.7.sets_only(value)
            || self.8.sets_only(value)
            || self.9.sets_only(value)
            || self.10.sets_only(value)
            || self.11.sets_only(value)
    }

    fn to_env_diff(self) -> (entries: Vec<Entry>) {
        let ghost whole = self;
        let (a, b, c, d, e, f, g, h, i, j, k, l) = self;
        let mut entries = a.to_env_diff();
        let ghost mut spec = whole.0.spec_entries();
        let ghost mut exact = whole.0.obeys_diff_spec();
        let ghost mut held = |v: Seq<u8>| whole.0.sets_only(v);
        push_diff(&mut entries, b, Ghost(spec), Ghost(exact), Ghost(held));
        proof {
            spec = spec + whole.1.spec_entries();
            exact = exact && whole.1.obeys_diff_spec();
            held = |v: Seq<u8>| held(v) || whole.1.sets_only(v);
        }
        push_diff(&mut entries, c, Ghost(spec), Ghost(exact), Ghost(held));
        proof {
            spec = spec + whole.2.spec_entries();
            exact = exact && whole.2.obeys_diff_spec();
            held = |v: Seq<u8>| held(v) || whole.2.sets_only(v);
        }
        push_diff(&mut entries, d, Ghost(spec), Ghost(exact), Ghost(held));
        proof {
            spec = spec + whole.3.spec_entries();
            exact = exact && whole.3.obeys_diff_spec();
            held = |v: Seq<u8>| held(v) || whole.3.sets_only(v);
        }
        push_diff(&mut entries, e, Ghost(spec), Ghost(exact), Ghost(held));
        proof {
            spec = spec + whole.4.spec_entries();
            exact = exact && whole.4.obeys_diff_spec();
            held = |v: Seq<u8>| held(v) || whole.4.sets_only(v);
        }
        push_diff(&mut entries, f, Ghost(spec), Ghost(exact), Ghost(held));
        proof {
            spec = spec + whole.5.spec_entries();
            exact = exact && whole.5.obeys_diff_spec();
            held = |v: Seq<u8>| held(v) || whole.5.sets_only(v);
        }
        push_diff(&mut entries, g, Ghost(spec), Ghost(exact), Ghost(held));
        proof {
            spec = spec + whole.6.spec_entries();
            exact = exact && whole.6.obeys_diff_spec();
            held = |v: Seq<u8>| held(v) || whole.6.sets_only(v);
        }
        push_diff(&mut entries, h, Ghost(spec), Ghost(exact), Ghost(held));
        proof {
            spec = spec + whole.7.spec_entries();
            exact = exact && whole.7.obeys_diff_spec();
            held = |v: Seq<u8>| held(v) || whole.7.sets_only(v);
        }
        push_diff(&mut entries, i, Ghost(spec), Ghost(exact), Ghost(held));
        proof {
            spec = spec + whole.8.spec_entries();
            exact = exact && whole.8.obeys_diff_spec();
            held = |v: Seq<u8>| held(v) || whole.8.sets_only(v);
        }
        push_diff(&mut entries, j, Ghost(spec), Ghost(exact), Ghost(held));
        proof {
            spec = spec + whole.9.spec_entries();
            exact = exact && whole.9.obeys_diff_spec();
            held = |v: Seq<u8>| held(v) || whole.9.sets_only(v);
        }
        push_diff(&mut entries, k, Ghost(spec), Ghost(exact), Ghost(held));
        proof {
            spec = spec + whole.10.spec_entries();
            exact = exact && whole.10.obeys_diff_spec();
            held = |v: Seq<u8>| held(v) || whole.10.sets_only(v);
        }
        push_diff(&mut entries, l, Ghost(spec), Ghost(exact), Ghost(held));
        proof {
            held = |v: Seq<u8>| held(v) || whole.11.sets_only(v);
        }
        proof {
            lemma_sets_values_weaken(entries_view(entries@), held, |v: Seq<u8>| whole.sets_only(v));
        }
        entries
    }
}

} // verus!
