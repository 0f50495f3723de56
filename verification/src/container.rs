//! Containers of environment variables: a plain buffer, and a view of the
//! process environment with local changes on top.

use vstd::prelude::*;
use vstd::std_specs::iter::IteratorSpec;
use vstd::utf8::{decode_utf8, valid_utf8};

use crate::diff::{
    describes, distinct_keys, entries_view, lemma_entries_push, lemma_merge_distinct, lookup,
    merge_entries, sets_values, Diff, Entry, EntryView, EnvMap,
};
use crate::laws::law_merge_is_overlay;
use crate::{read_agrees, read_raw, require_agrees, unset_var, EnvVariable, Error, ReadError};
use crate::parse::string_from_utf8;

verus! {

broadcast use vstd::utf8::group_utf8_lib;

/// Something that variables can be read from.
pub trait EnvContainer {
    /// The raw value of `key`, if it has one.
    spec fn spec_raw_get(&self, key: Seq<char>) -> Option<Seq<u8>>;

    fn raw_get(&self, key: &str) -> (value: Option<Vec<u8>>)
        ensures
            value.deep_view() == self.spec_raw_get(key@),
    ;
}

/// Something that changes can be applied to.
pub trait MutableEnvContainer {
    /// The assignments and removals that the container holds.
    spec fn spec_vars(&self) -> EnvMap;

    fn raw_merge<D: Diff>(&mut self, diff: D)
        requires
            diff.is_valid_diff(),
        ensures
            exists|entries: Seq<EntryView>|
                #[trigger] describes(diff.spec_entries(), diff.obeys_diff_spec(), entries)
                    && sets_values(entries, |v: Seq<u8>| diff.sets_only(v))
                    && final(self).spec_vars() == merge_entries(old(self).spec_vars(), entries),
    ;
}

/// A copy of `bytes`.
fn copy_bytes(bytes: &Vec<u8>) -> (copy: Vec<u8>)
    ensures
        copy@ == bytes@,
{
    let mut copy: Vec<u8> = Vec::new();
    let mut i: usize = 0;
    while i < bytes.len()
        invariant
            i <= bytes.len(),
            copy@ == bytes@.take(i as int),
        decreases bytes.len() - i,
    {
        copy.push(bytes[i]);
        i = i + 1;
        assert(copy@ =~= bytes@.take(i as int));
    }
    assert(bytes@.take(bytes.len() as int) =~= bytes@);
    copy
}

/// A buffer of variables: each key at most once, with a value or marked unset.
pub struct EnvBuf(Vec<(String, Option<Vec<u8>>)>);

impl View for EnvBuf {
    type V = EnvMap;

    closed spec fn view(&self) -> EnvMap {
        merge_entries(Map::empty(), self.0.deep_view())
    }
}

impl EnvBuf {
    #[verifier::type_invariant]
    spec fn keys_are_distinct(self) -> bool {
        distinct_keys(self.0.deep_view())
    }

    /// The position of `key` in the buffer, if it is there.
    fn find(&self, key: &String) -> (pos: Option<usize>)
        ensures
            match pos {
                Some(i) => i < self.0.len() && self.0.deep_view()[i as int].0 == key@,
                None => forall|i: int|
                    0 <= i < self.0.len() ==> #[trigger] self.0.deep_view()[i].0 != key@,
            },
    {
        let mut i: usize = 0;
        while i < self.0.len()
            invariant
                i <= self.0.len(),
                forall|j: int| 0 <= j < i ==> #[trigger] self.0.deep_view()[j].0 != key@,
            decreases self.0.len() - i,
        {
            if self.0[i].0 == *key {
                return Some(i);
            }
            i = i + 1;
        }
        None
    }
}

/// Changing the value of a key that a list holds changes only that key's entry.
proof fn lemma_merge_update(entries: Seq<EntryView>, i: int, entry: EntryView)
    requires
        distinct_keys(entries),
        0 <= i < entries.len(),
        entries[i].0 == entry.0,
    ensures
        distinct_keys(entries.update(i, entry)),
        merge_entries(Map::empty(), entries.update(i, entry)) == merge_entries(
            Map::empty(),
            entries,
        ).insert(entry.0, entry.1),
{
    let updated = entries.update(i, entry);
    assert(distinct_keys(updated)) by {
        assert forall|a: int, b: int|
            0 <= a < updated.len() && 0 <= b < updated.len() && a != b implies #[trigger] updated[a].0
            != #[trigger] updated[b].0 by {
            assert(entries[a].0 != entries[b].0);
        }
    }
    let before = merge_entries(Map::empty(), entries);
    let after = merge_entries(Map::empty(), updated);
    assert forall|k: Seq<char>| #[trigger] after.dom().contains(k) == before.insert(
        entry.0,
        entry.1,
    ).dom().contains(k) && (after.dom().contains(k) ==> after[k] == before.insert(
        entry.0,
        entry.1,
    )[k]) by {
        lemma_merge_distinct(entries, k);
        lemma_merge_distinct(updated, k);
        if k == entry.0 {
            assert(updated[i].0 == k);
        } else {
            if exists|j: int| 0 <= j < entries.len() && #[trigger] entries[j].0 == k {
                let j = choose|j: int| 0 <= j < entries.len() && #[trigger] entries[j].0 == k;
                assert(updated[j] == entries[j]);
            } else {
                assert forall|j: int| 0 <= j < updated.len() implies #[trigger] updated[j].0
                    != k by {
                    if j != i {
                        assert(updated[j] == entries[j]);
                    }
                }
            }
        }
    }
    assert(after =~= before.insert(entry.0, entry.1));
}

/// Adding an entry for a key that a list does not hold.
proof fn lemma_merge_push(entries: Seq<EntryView>, entry: EntryView)
    requires
        distinct_keys(entries),
        forall|i: int| 0 <= i < entries.len() ==> #[trigger] entries[i].0 != entry.0,
    ensures
        distinct_keys(entries.push(entry)),
        merge_entries(Map::empty(), entries.push(entry)) == merge_entries(
            Map::empty(),
            entries,
        ).insert(entry.0, entry.1),
{
    let pushed = entries.push(entry);
    assert(pushed.drop_last() =~= entries);
    assert(distinct_keys(pushed)) by {
        assert forall|a: int, b: int|
            0 <= a < pushed.len() && 0 <= b < pushed.len() && a != b implies #[trigger] pushed[a].0
            != #[trigger] pushed[b].0 by {
            if a < entries.len() && b < entries.len() {
                assert(entries[a].0 != entries[b].0);
            } else if a < entries.len() {
                assert(entries[a].0 != entry.0);
            } else {
                assert(entries[b].0 != entry.0);
            }
        }
    }
}

impl EnvBuf {
    /// The entries of the buffer, one per key, in the order in which the buffer holds them.
    pub closed spec fn entries(self) -> Seq<EntryView> {
        self.0.deep_view()
    }

    /// The buffer is its entries applied to an empty environment.
    pub proof fn lemma_view_is_entries(self)
        ensures
            merge_entries(Map::empty(), self.entries()) == self@,
    {
    }

    pub fn new() -> (buf: Self)
        ensures
            buf@ == Map::<Seq<char>, Option<Seq<u8>>>::empty(),
    {
        let buf = EnvBuf(Vec::new());
        assert(buf.0.deep_view() =~= Seq::<EntryView>::empty());
        buf
    }

    /// Sets `key` to `value` (`None`: marks it unset).
    fn put(&mut self, key: String, value: Option<Vec<u8>>)
        ensures
            final(self)@ == old(self)@.insert(key@, value.deep_view()),
    {
        proof {
            use_type_invariant(&*self);
        }
        let ghost entry: EntryView = (key@, value.deep_view());
        let ghost before = self.0.deep_view();
        let found = self.find(&key);
        let mut pairs = Vec::new();
        std::mem::swap(&mut pairs, &mut self.0);
        match found {
            Some(i) => {
                proof {
                    lemma_merge_update(before, i as int, entry);
                }
                pairs.set(i, (key, value));
                assert(pairs.deep_view() =~= before.update(i as int, entry));
            },
            None => {
                proof {
                    lemma_merge_push(before, entry);
                }
                pairs.push((key, value));
                assert(pairs.deep_view() =~= before.push(entry));
            },
        }
        self.0 = pairs;
    }

    /// Applies `entries` in order.
    fn extend(&mut self, entries: Vec<Entry>)
        ensures
            final(self)@ == merge_entries(old(self)@, entries_view(entries@)),
    {
        let ghost start = self@;
        let ghost all = entries@;
        let mut rest = entries;
        let mut done: Ghost<Seq<Entry>> = Ghost(Seq::empty());
        while rest.len() > 0
            invariant
                all == done@ + rest@,
                self@ == merge_entries(start, entries_view(done@)),
            decreases rest.len(),
        {
            let entry = rest.remove(0);
            proof {
                assert(entries_view(done@.push(entry)).drop_last() =~= entries_view(done@));
                assert(all =~= done@.push(entry) + rest@);
            }
            let (key, value) = entry.to_tuple();
            self.put(key, value);
            proof {
                done@ = done@.push(entry);
            }
        }
        assert(done@ =~= all);
    }

    pub fn from_entries(entries: Vec<Entry>) -> (buf: Self)
        ensures
            buf@ == merge_entries(Map::empty(), entries_view(entries@)),
    {
        let mut buf = EnvBuf::new();
        buf.extend(entries);
        buf
    }

    pub fn from_diff<D: Diff>(diff: D) -> (buf: Self)
        requires
            diff.is_valid_diff(),
        ensures
            exists|entries: Seq<EntryView>|
                #[trigger] describes(diff.spec_entries(), diff.obeys_diff_spec(), entries)
                    && sets_values(entries, |v: Seq<u8>| diff.sets_only(v)) && buf@
                    == merge_entries(Map::empty(), entries),
    {
        let entries = diff.to_env_diff();
        let ghost listed = entries_view(entries@);
        let buf = EnvBuf::from_entries(entries);
        assert(describes(diff.spec_entries(), diff.obeys_diff_spec(), listed));
        buf
    }

    pub fn into_diff(self) -> (diff: EnvBufDiff)
        ensures
            diff@ == self@,
            diff.spec_entries() == self.entries(),
            distinct_keys(diff.spec_entries()),
    {
        proof {
            use_type_invariant(&self);
        }
        EnvBufDiff { inner: self }
    }
}

/// The keys of `env` that have a value, with those values.
pub open spec fn assigned(env: EnvMap) -> Map<Seq<char>, Seq<u8>> {
    Map::new(
        |k: Seq<char>| env.dom().contains(k) && env[k] is Some,
        |k: Seq<char>| env[k].unwrap(),
    )
}

/// `pairs` lists each key of `map` once, with its value, and nothing else.
pub open spec fn lists_exactly(pairs: Seq<(Seq<char>, Seq<u8>)>, map: Map<Seq<char>, Seq<u8>>) -> bool {
    &&& forall|i: int, j: int|
        0 <= i < pairs.len() && 0 <= j < pairs.len() && i != j ==> #[trigger] pairs[i].0
            != #[trigger] pairs[j].0
    &&& forall|i: int|
        0 <= i < pairs.len() ==> map.dom().contains(#[trigger] pairs[i].0) && map[pairs[i].0]
            == pairs[i].1
    &&& forall|k: Seq<char>|
        #[trigger] map.dom().contains(k) ==> exists|i: int| 0 <= i < pairs.len() && #[trigger] pairs[i].0 == k
}

impl EnvBuf {
    /// The variables that have a value, each once, by reference.
    pub fn as_hashmap(&self) -> (pairs: Vec<(&String, &Vec<u8>)>)
        ensures
            lists_exactly(pairs@.map_values(|p: (&String, &Vec<u8>)| (p.0@, p.1@)), assigned(self@)),
    {
        proof {
            use_type_invariant(self);
        }
        let ghost src = self.0.deep_view();
        let mut pairs: Vec<(&String, &Vec<u8>)> = Vec::new();
        let ghost mut from: Seq<int> = Seq::empty();
        let mut i: usize = 0;
        while i < self.0.len()
            invariant
                src == self.0.deep_view(),
                distinct_keys(src),
                i <= self.0.len(),
                from.len() == pairs.len(),
                forall|m: int, n: int| 0 <= m < n < from.len() ==> from[m] < from[n],
                forall|m: int|
                    0 <= m < from.len() ==> 0 <= #[trigger] from[m] < i && src[from[m]].0
                        == pairs@[m].0@ && src[from[m]].1 == Some(pairs@[m].1@),
                forall|j: int|
                    0 <= j < i && (#[trigger] src[j]).1 is Some ==> exists|m: int|
                        0 <= m < from.len() && from[m] == j,
            decreases self.0.len() - i,
        {
            let pair = &self.0[i];
            let ghost old_from = from;
            match &pair.1 {
                Some(value) => {
                    pairs.push((&pair.0, value));
                    proof {
                        from = from.push(i as int);
                        assert(from[from.len() - 1] == i);
                    }
                },
                None => {},
            }
            proof {
                assert forall|j: int|
                    0 <= j < i + 1 && (#[trigger] src[j]).1 is Some implies exists|m: int|
                        0 <= m < from.len() && from[m] == j by {
                    if j < i {
                        let m = choose|m: int| 0 <= m < old_from.len() && old_from[m] == j;
                        assert(from[m] == j);
                    } else {
                        assert(from[from.len() - 1] == j);
                    }
                }
            }
            i = i + 1;
        }
        let ghost listed = pairs@.map_values(|p: (&String, &Vec<u8>)| (p.0@, p.1@));
        let ghost map = assigned(self@);
        assert forall|a: int, b: int|
            0 <= a < listed.len() && 0 <= b < listed.len() && a != b implies #[trigger] listed[a].0
            != #[trigger] listed[b].0 by {
            assert(src[from[a]].0 == listed[a].0);
            assert(src[from[b]].0 == listed[b].0);
            if a < b {
                assert(from[a] < from[b]);
            } else {
                assert(from[b] < from[a]);
            }
        }
        assert forall|a: int| 0 <= a < listed.len() implies map.dom().contains(#[trigger] listed[a].0)
            && map[listed[a].0] == listed[a].1 by {
            lemma_merge_distinct(src, listed[a].0);
            assert(src[from[a]].0 == listed[a].0);
        }
        assert forall|k: Seq<char>| #[trigger] map.dom().contains(k) implies exists|a: int|
            0 <= a < listed.len() && #[trigger] listed[a].0 == k by {
            lemma_merge_distinct(src, k);
            let j = choose|j: int| 0 <= j < src.len() && #[trigger] src[j].0 == k;
            assert(src[j].1 is Some);
            let m = choose|m: int| 0 <= m < from.len() && from[m] == j;
            assert(listed[m].0 == k);
        }
        pairs
    }
}

impl EnvBuf {
    /// The change that the buffer holds for `key`: `None` where it does not hold the
    /// key, otherwise `Some` of its value, or `Some(None)` where the key is unset.
    fn change_of(&self, key: &str) -> (change: Option<Option<Vec<u8>>>)
        ensures
            match change {
                None => !self@.dom().contains(key@),
                Some(value) => self@.dom().contains(key@) && value.deep_view() == self@[key@],
            },
    {
        proof {
            use_type_invariant(self);
            lemma_merge_distinct(self.0.deep_view(), key@);
        }
        let key = key.to_owned();
        match self.find(&key) {
            Some(i) => match &self.0[i].1 {
                Some(bytes) => Some(Some(copy_bytes(bytes))),
                None => Some(None),
            },
            None => None,
        }
    }
}

impl EnvContainer for EnvBuf {
    open spec fn spec_raw_get(&self, key: Seq<char>) -> Option<Seq<u8>> {
        lookup(self@, key)
    }

    fn raw_get(&self, key: &str) -> (value: Option<Vec<u8>>) {
        proof {
            use_type_invariant(self);
            lemma_merge_distinct(self.0.deep_view(), key@);
        }
        let key = key.to_owned();
        match self.find(&key) {
            Some(i) => match &self.0[i].1 {
                Some(bytes) => Some(copy_bytes(bytes)),
                None => None,
            },
            None => None,
        }
    }
}

impl MutableEnvContainer for EnvBuf {
    open spec fn spec_vars(&self) -> EnvMap {
        self@
    }

    fn raw_merge<D: Diff>(&mut self, diff: D) {
        let entries = diff.to_env_diff();
        let ghost listed = entries_view(entries@);
        self.extend(entries);
        assert(describes(diff.spec_entries(), diff.obeys_diff_spec(), listed));
    }
}

/// A buffer taken as a diff: each of its keys is set to its value or unset.
pub struct EnvBufDiff {
    inner: EnvBuf,
}

impl View for EnvBufDiff {
    type V = EnvMap;

    closed spec fn view(&self) -> EnvMap {
        self.inner@
    }
}

impl Diff for EnvBufDiff {
    open spec fn is_valid_diff(&self) -> bool {
        true
    }

    /// The entries always set exactly the values of the buffer.
    open spec fn sets_only(&self, value: Seq<u8>) -> bool {
        true
    }

    open spec fn obeys_diff_spec(&self) -> bool {
        true
    }

    closed spec fn spec_entries(self) -> Seq<EntryView> {
        self.inner.entries()
    }

    /// One entry per key of the buffer.
    fn to_env_diff(self) -> (entries: Vec<Entry>)
        ensures
            distinct_keys(entries_view(entries@)),
    {
        proof {
            use_type_invariant(&self.inner);
        }
        let EnvBufDiff { inner } = self;
        let EnvBuf(mut pairs) = inner;
        let ghost all = pairs.deep_view();
        let mut entries: Vec<Entry> = Vec::new();
        while pairs.len() > 0
            invariant
                all == entries_view(entries@) + pairs.deep_view(),
            decreases pairs.len(),
        {
            let ghost before = pairs.deep_view();
            let pair = pairs.remove(0);
            assert(pair.deep_view() == before[0]);
            let (key, value) = pair;
            let entry = match value {
                Some(value) => Entry::Assign { key, value },
                None => Entry::Unset { key },
            };
            proof {
                assert(pairs.deep_view() =~= before.drop_first());
                assert(entry@ == before[0]);
                lemma_entries_push(entries@, entry);
            }
            entries.push(entry);
        }
        assert(all =~= entries_view(entries@));
        entries
    }
}

/// Iterating a buffer's diff goes over its entries.
impl IntoIterator for EnvBufDiff {
    type IntoIter = std::vec::IntoIter<Entry>;
    type Item = Entry;

    fn into_iter(self) -> (iter: Self::IntoIter)
        ensures
            entries_view(iter.remaining()) == self.spec_entries(),
            distinct_keys(entries_view(iter.remaining())),
    {
        let entries = self.to_env_diff();
        proof {
            broadcast use vstd::std_specs::vec::axiom_spec_into_iter;
        }
        entries.into_iter()
    }
}

/// The variables of the process environment that have a text key, as entries that set
/// them, in the order given; a key that is not UTF-8 is left out.
pub open spec fn system_entries(vars: Seq<(Seq<u8>, Seq<u8>)>) -> Seq<EntryView>
    decreases vars.len(),
{
    if vars.len() == 0 {
        Seq::empty()
    } else {
        let rest = system_entries(vars.drop_last());
        let (key, value) = vars.last();
        if valid_utf8(key) {
            rest.push((decode_utf8(key), Some(value)))
        } else {
            rest
        }
    }
}

/// What a view of the process environment gives for a key: where the view has
/// changed the key, its own value (none where it unset the key); otherwise what the
/// process environment holds (`system`).
pub open spec fn overlay_get(changes: EnvMap, key: Seq<char>, system: Option<Seq<u8>>) -> Option<
    Seq<u8>,
> {
    if changes.dom().contains(key) {
        changes[key]
    } else {
        system
    }
}

/// A view of the process environment: the changes made through it are kept here
/// and never touch the process environment itself.
pub struct OsEnv {
    append_buf: EnvBuf,
}

impl View for OsEnv {
    type V = EnvMap;

    /// The changes made through this view.
    closed spec fn view(&self) -> EnvMap {
        self.append_buf@
    }
}

impl OsEnv {
    /// A new view, with no changes of its own.
    pub fn new_view() -> (env: Self)
        ensures
            env@ == Map::<Seq<char>, Option<Seq<u8>>>::empty(),
    {
        OsEnv { append_buf: EnvBuf::new() }
    }

    /// The entries of the changes made through this view.
    pub closed spec fn entries(self) -> Seq<EntryView> {
        self.append_buf.entries()
    }

    /// The changes are their entries applied to an empty environment.
    pub proof fn lemma_view_is_entries(self)
        ensures
            merge_entries(Map::empty(), self.entries()) == self@,
    {
    }

    /// The value of `key` in this view, where `system` is its value in the process
    /// environment.
    pub fn raw_get(&self, key: &str, system: Option<Vec<u8>>) -> (value: Option<Vec<u8>>)
        ensures
            value.deep_view() == overlay_get(self@, key@, system.deep_view()),
    {
        match self.append_buf.change_of(key) {
            Some(change) => change,
            None => system,
        }
    }

    /// Reads the variable `T` in this view, where `system` is its value in the process
    /// environment: the view's own change where it has one, otherwise `system`.
    pub fn maybe_get<T: EnvVariable>(&self, system: Option<Vec<u8>>) -> (read: Result<
        Option<T>,
        ReadError<T>,
    >)
        ensures
            read_agrees::<T>(overlay_get(self@, T::KEY@, system.deep_view()), read),
    {
        read_raw::<T>(self.raw_get(T::KEY, system))
    }

    /// Requires the variable `T` in this view, where `system` is its value in the
    /// process environment.
    pub fn get<T: EnvVariable>(&self, system: Option<Vec<u8>>) -> (read: Result<T, ReadError<T>>)
        ensures
            require_agrees::<T>(overlay_get(self@, T::KEY@, system.deep_view()), read),
    {
        match self.maybe_get::<T>(system)? {
            Some(value) => Ok(value),
            None => Err(Error::NoneError { key: T::KEY }),
        }
    }

    /// Reads the variable `T` in this view (`system`: its value in the process
    /// environment), then unsets it in the view; on an error nothing changes.
    pub fn maybe_pull<T: EnvVariable>(&mut self, system: Option<Vec<u8>>) -> (read: Result<
        Option<T>,
        ReadError<T>,
    >)
        ensures
            read_agrees::<T>(overlay_get(old(self)@, T::KEY@, system.deep_view()), read),
            read is Ok ==> final(self)@ == old(self)@.insert(T::KEY@, None),
            read is Err ==> *final(self) == *old(self),
    {
        let read = self.maybe_get::<T>(system)?;
        unset_var::<T, EnvBuf>(&mut self.append_buf);
        Ok(read)
    }

    /// Requires the variable `T` in this view (`system`: its value in the process
    /// environment), then unsets it in the view; on an error nothing changes.
    pub fn pull<T: EnvVariable>(&mut self, system: Option<Vec<u8>>) -> (read: Result<
        T,
        ReadError<T>,
    >)
        ensures
            require_agrees::<T>(overlay_get(old(self)@, T::KEY@, system.deep_view()), read),
            read is Ok ==> final(self)@ == old(self)@.insert(T::KEY@, None),
            read is Err ==> *final(self) == *old(self),
    {
        let read = self.get::<T>(system)?;
        unset_var::<T, EnvBuf>(&mut self.append_buf);
        Ok(read)
    }

    /// A full copy of the environment: the variables `system` of the process
    /// environment, with the changes of this view over them.
    pub fn dump(self, system: Vec<(Vec<u8>, Vec<u8>)>) -> (buf: EnvBuf)
        ensures
            buf@ == merge_entries(Map::empty(), system_entries(system.deep_view())).union_prefer_right(
                self@,
            ),
    {
        let ghost start: EnvMap = Map::empty();
        let ghost all = system.deep_view();
        let ghost changes = self.entries();
        proof {
            self.lemma_view_is_entries();
        }
        let mut buf = EnvBuf::new();
        let mut rest = system;
        let ghost mut done: Seq<(Seq<u8>, Seq<u8>)> = Seq::empty();
        while rest.len() > 0
            invariant
                all == done + rest.deep_view(),
                buf@ == merge_entries(start, system_entries(done)),
            decreases rest.len(),
        {
            let ghost before = rest.deep_view();
            let var = rest.remove(0);
            assert(var.deep_view() == before[0]);
            let (key, value) = var;
            proof {
                assert(key.deep_view() =~= key@);
                assert(value.deep_view() =~= value@);
                assert(rest.deep_view() =~= before.drop_first());
                assert(done.push(before[0]).drop_last() =~= done);
                assert(all =~= done.push(before[0]) + rest.deep_view());
            }
            let ghost listed = system_entries(done);
            let ghost extended = done.push(before[0]);
            assert(extended.drop_last() =~= done);
            assert(extended.last() == before[0]);
            match string_from_utf8(key) {
                Some(key) => {
                    let ghost entry: EntryView = (key@, Some(value@));
                    buf.put(key, Some(value));
                    assert(system_entries(extended) == listed.push(entry));
                    assert(listed.push(entry).drop_last() =~= listed);
                },
                None => {},
            }
            proof {
                done = extended;
            }
        }
        assert(done =~= all);
        let ghost base = buf@;
        let listed = self.append_buf.into_diff().to_env_diff();
        assert(entries_view(listed@) == changes);
        buf.extend(listed);
        proof {
            law_merge_is_overlay(base, changes);
        }
        buf
    }
}

impl MutableEnvContainer for OsEnv {
    open spec fn spec_vars(&self) -> EnvMap {
        self@
    }

    fn raw_merge<D: Diff>(&mut self, diff: D) {
        self.append_buf.raw_merge(diff);
    }
}

impl Diff for OsEnv {
    open spec fn is_valid_diff(&self) -> bool {
        true
    }

    /// The entries always set exactly the values of the buffer.
    open spec fn sets_only(&self, value: Seq<u8>) -> bool {
        true
    }

    open spec fn obeys_diff_spec(&self) -> bool {
        true
    }

    open spec fn spec_entries(self) -> Seq<EntryView> {
        self.entries()
    }

    /// One entry per key that the view changed.
    fn to_env_diff(self) -> (entries: Vec<Entry>)
        ensures
            distinct_keys(entries_view(entries@)),
    {
        self.append_buf.into_diff().to_env_diff()
    }
}

} // verus!
