//! Properties that relate several operations of the library.

use vstd::prelude::*;
use vstd::utf8::{decode_utf8, encode_scalar, encode_utf8, valid_utf8};

use crate::container::{
    assigned, lists_exactly, overlay_get, system_entries, EnvBuf, EnvContainer, MutableEnvContainer,
};
use crate::diff::{
    assignment_entry, describes, distinct_keys, entry_bytes, is_assignment, is_last_for_key,
    lemma_merge_concat, lemma_merge_distinct, lemma_merge_last, lookup, merge_entries,
    separator_index,
    Diff, EntryView, EnvMap,
};
use crate::{read_agrees, require_agrees, EnvVariable, Error, ReadError};

verus! {


/// Applying entries to an environment overlays the environment that the entries
/// make on their own: every key they mention takes its last value from them, every
/// other key keeps its value.
pub proof fn law_merge_is_overlay(env: EnvMap, entries: Seq<EntryView>)
    ensures
        merge_entries(env, entries) == env.union_prefer_right(
            merge_entries(Map::empty(), entries),
        ),
    decreases entries.len(),
{
    if entries.len() == 0 {
        assert(env.union_prefer_right(Map::empty()) =~= env);
    } else {
        law_merge_is_overlay(env, entries.drop_last());
        let last = entries.last();
        assert(env.union_prefer_right(merge_entries(Map::empty(), entries.drop_last())).insert(
            last.0,
            last.1,
        ) =~= env.union_prefer_right(
            merge_entries(Map::empty(), entries.drop_last()).insert(last.0, last.1),
        ));
    }
}

/// A buffer taken as a diff overlays itself on the environment it is applied to:
/// its keys take its values (or become unset), every other key is kept.
pub proof fn law_buffer_diff_overlays(env: EnvMap, buf: EnvBuf)
    ensures
        merge_entries(env, buf.entries()) == env.union_prefer_right(buf@),
{
    law_merge_is_overlay(env, buf.entries());
    buf.lemma_view_is_entries();
}

/// A buffer built from entries lists, as a diff, for each key that the entries
/// mention exactly the last entry for that key, and nothing else. `listed` is what
/// such a buffer's diff gives: entries with distinct keys that merge to the same
/// environment as `entries`.
pub proof fn law_buffer_keeps_last_entry(entries: Seq<EntryView>, listed: Seq<EntryView>)
    requires
        distinct_keys(listed),
        merge_entries(Map::empty(), listed) == merge_entries(Map::empty(), entries),
    ensures
        forall|j: int| #[trigger] is_last_for_key(entries, j) ==> listed.contains(entries[j]),
        forall|i: int|
            #![trigger listed[i]]
            0 <= i < listed.len() ==> exists|j: int|
                #[trigger] is_last_for_key(entries, j) && entries[j] == listed[i],
{
    let merged = merge_entries(Map::empty(), entries);
    assert forall|j: int| #[trigger] is_last_for_key(entries, j) implies listed.contains(
        entries[j],
    ) by {
        let key = entries[j].0;
        lemma_merge_last(entries, key);
        lemma_merge_distinct(listed, key);
        let i = choose|i: int| 0 <= i < listed.len() && #[trigger] listed[i].0 == key;
        assert(listed[i] == entries[j]);
    }
    assert forall|i: int| #![trigger listed[i]] 0 <= i < listed.len() implies exists|j: int|
        #[trigger] is_last_for_key(entries, j) && entries[j] == listed[i] by {
        let key = listed[i].0;
        lemma_merge_distinct(listed, key);
        lemma_merge_last(entries, key);
        let j = choose|j: int|
            #[trigger] is_last_for_key(entries, j) && entries[j].0 == key && merged[key]
                == entries[j].1;
        assert(entries[j] == listed[i]);
    }
}

/// Two buffers with the same contents list, as diffs, the same entries (in some
/// order): lists with distinct keys that merge to the same environment hold the
/// same entries, each once.
pub proof fn law_equal_buffers_list_same_entries(a: Seq<EntryView>, b: Seq<EntryView>)
    requires
        distinct_keys(a),
        distinct_keys(b),
        merge_entries(Map::empty(), a) == merge_entries(Map::empty(), b),
    ensures
        a.to_multiset() == b.to_multiset(),
{
    broadcast use vstd::seq_lib::group_to_multiset_ensures;

    let merged = merge_entries(Map::empty(), a);
    assert forall|e: EntryView| a.contains(e) implies b.contains(e) by {
        let i = choose|i: int| 0 <= i < a.len() && a[i] == e;
        lemma_merge_distinct(a, e.0);
        lemma_merge_distinct(b, e.0);
        let j = choose|j: int| 0 <= j < b.len() && #[trigger] b[j].0 == e.0;
        assert(b[j] == e);
    }
    assert forall|e: EntryView| b.contains(e) implies a.contains(e) by {
        let j = choose|j: int| 0 <= j < b.len() && b[j] == e;
        lemma_merge_distinct(a, e.0);
        lemma_merge_distinct(b, e.0);
        let i = choose|i: int| 0 <= i < a.len() && #[trigger] a[i].0 == e.0;
        assert(a[i] == e);
    }
    assert(a.no_duplicates()) by {
        assert forall|i: int, j: int| 0 <= i < a.len() && 0 <= j < a.len() && i != j implies a[i]
            != a[j] by {
            assert(a[i].0 != a[j].0);
        }
    }
    assert(b.no_duplicates()) by {
        assert forall|i: int, j: int| 0 <= i < b.len() && 0 <= j < b.len() && i != j implies b[i]
            != b[j] by {
            assert(b[i].0 != b[j].0);
        }
    }
    a.lemma_multiset_has_no_duplicates();
    b.lemma_multiset_has_no_duplicates();
    assert forall|e: EntryView| a.to_multiset().count(e) == b.to_multiset().count(e) by {
        if a.contains(e) {
            assert(a.to_multiset().contains(e));
            assert(b.to_multiset().contains(e));
        } else {
            assert(!b.contains(e));
        }
    }
    assert(a.to_multiset() =~= b.to_multiset());
}

/// For a diff that obeys its specification, every conversion gives the same
/// entries, its `spec_entries`; so building a buffer from it, merging it into an
/// empty buffer, and building a buffer from its entries all give the same buffer.
pub proof fn law_obeying_diff_is_determined<D: Diff>(
    diff: D,
    env: EnvMap,
    first: Seq<EntryView>,
    second: Seq<EntryView>,
)
    requires
        diff.obeys_diff_spec(),
        describes(diff.spec_entries(), diff.obeys_diff_spec(), first),
        describes(diff.spec_entries(), diff.obeys_diff_spec(), second),
    ensures
        first == second,
        merge_entries(env, first) == merge_entries(env, diff.spec_entries()),
{
}

/// A tuple of diffs does what its parts do one after the other.
pub proof fn law_tuple_applies_in_order<A: Diff, B: Diff>(env: EnvMap, a: A, b: B)
    ensures
        merge_entries(env, (a, b).spec_entries()) == merge_entries(
            merge_entries(env, a.spec_entries()),
            b.spec_entries(),
        ),
{
    lemma_merge_concat(env, a.spec_entries(), b.spec_entries());
}

/// A present diff is its content: applying `Some(diff)` does what applying `diff`
/// does, and it can be applied exactly when `diff` can.
pub proof fn law_present_diff_is_its_content<D: Diff>(env: EnvMap, diff: D)
    ensures
        merge_entries(env, Some(diff).spec_entries()) == merge_entries(env, diff.spec_entries()),
        Some(diff).spec_entries().len() == diff.spec_entries().len(),
        Some(diff).is_valid_diff() == diff.is_valid_diff(),
        Some(diff).obeys_diff_spec() == diff.obeys_diff_spec(),
{
}

/// A tuple of 3 diffs does what its parts do one after the other, and can be
/// applied exactly when each part can.
pub proof fn law_tuple_of_3_applies_in_order<A: Diff, B: Diff, C: Diff>(
    env: EnvMap,
    a: A,
    b: B,
    c: C,
)
    ensures
        merge_entries(env, (a, b, c).spec_entries()) == merge_entries(
            merge_entries(
                merge_entries(
                    env,
                    a.spec_entries(),
                ),
                b.spec_entries(),
            ),
            c.spec_entries(),
        ),
        (a, b, c).is_valid_diff() == (a.is_valid_diff() && b.is_valid_diff() && c.is_valid_diff()),
        (a, b, c).obeys_diff_spec() == (a.obeys_diff_spec() && b.obeys_diff_spec() && c.obeys_diff_spec()),
{
    lemma_merge_concat(env, a.spec_entries() + b.spec_entries(), c.spec_entries());
    lemma_merge_concat(env, a.spec_entries(), b.spec_entries());
}

/// A tuple of 4 diffs does what its parts do one after the other, and can be
/// applied exactly when each part can.
pub proof fn law_tuple_of_4_applies_in_order<A: Diff, B: Diff, C: Diff, D: Diff>(
    env: EnvMap,
    a: A,
    b: B,
    c: C,
    d: D,
)
    ensures
        merge_entries(env, (a, b, c, d).spec_entries()) == merge_entries(
            merge_entries(
                merge_entries(
                    merge_entries(
                        env,
                        a.spec_entries(),
                    ),
                    b.spec_entries(),
                ),
                c.spec_entries(),
            ),
            d.spec_entries(),
        ),
        (a, b, c, d).is_valid_diff() == (a.is_valid_diff() && b.is_valid_diff() && c.is_valid_diff() && d.is_valid_diff()),
        (a, b, c, d).obeys_diff_spec() == (a.obeys_diff_spec() && b.obeys_diff_spec() && c.obeys_diff_spec() && d.obeys_diff_spec()),
{
    lemma_merge_concat(env, a.spec_entries() + b.spec_entries() + c.spec_entries(), d.spec_entries());
    lemma_merge_concat(env, a.spec_entries() + b.spec_entries(), c.spec_entries());
    lemma_merge_concat(env, a.spec_entries(), b.spec_entries());
}

/// A tuple of 5 diffs does what its parts do one after the other, and can be
/// applied exactly when each part can.
pub proof fn law_tuple_of_5_applies_in_order<A: Diff, B: Diff, C: Diff, D: Diff, E: Diff>(
    env: EnvMap,
    a: A,
    b: B,
    c: C,
    d: D,
    e: E,
)
    ensures
        merge_entries(env, (a, b, c, d, e).spec_entries()) == merge_entries(
            merge_entries(
                merge_entries(
                    merge_entries(
                        merge_entries(
                            env,
                            a.spec_entries(),
                        ),
                        b.spec_entries(),
                    ),
                    c.spec_entries(),
                ),
                d.spec_entries(),
            ),
            e.spec_entries(),
        ),
        (a, b, c, d, e).is_valid_diff() == (a.is_valid_diff() && b.is_valid_diff() && c.is_valid_diff() && d.is_valid_diff() && e.is_valid_diff()),
        (a, b, c, d, e).obeys_diff_spec() == (a.obeys_diff_spec() && b.obeys_diff_spec() && c.obeys_diff_spec() && d.obeys_diff_spec() && e.obeys_diff_spec()),
{
    lemma_merge_concat(env, a.spec_entries() + b.spec_entries() + c.spec_entries() + d.spec_entries(), e.spec_entries());
    lemma_merge_concat(env, a.spec_entries() + b.spec_entries() + c.spec_entries(), d.spec_entries());
    lemma_merge_concat(env, a.spec_entries() + b.spec_entries(), c.spec_entries());
    lemma_merge_concat(env, a.spec_entries(), b.spec_entries());
}

/// A tuple of 6 diffs does what its parts do one after the other, and can be
/// applied exactly when each part can.
pub proof fn law_tuple_of_6_applies_in_order<A: Diff, B: Diff, C: Diff, D: Diff, E: Diff, F: Diff>(
    env: EnvMap,
    a: A,
    b: B,
    c: C,
    d: D,
    e: E,
    f: F,
)
    ensures
        merge_entries(env, (a, b, c, d, e, f).spec_entries()) == merge_entries(
            merge_entries(
                merge_entries(
                    merge_entries(
                        merge_entries(
                            merge_entries(
                                env,
                                a.spec_entries(),
                            ),
                            b.spec_entries(),
                        ),
                        c.spec_entries(),
                    ),
                    d.spec_entries(),
                ),
                e.spec_entries(),
            ),
            f.spec_entries(),
        ),
        (a, b, c, d, e, f).is_valid_diff() == (a.is_valid_diff() && b.is_valid_diff() && c.is_valid_diff() && d.is_valid_diff() && e.is_valid_diff() && f.is_valid_diff()),
        (a, b, c, d, e, f).obeys_diff_spec() == (a.obeys_diff_spec() && b.obeys_diff_spec() && c.obeys_diff_spec() && d.obeys_diff_spec() && e.obeys_diff_spec() && f.obeys_diff_spec()),
{
    lemma_merge_concat(env, a.spec_entries() + b.spec_entries() + c.spec_entries() + d.spec_entries() + e.spec_entries(), f.spec_entries());
    lemma_merge_concat(env, a.spec_entries() + b.spec_entries() + c.spec_entries() + d.spec_entries(), e.spec_entries());
    lemma_merge_concat(env, a.spec_entries() + b.spec_entries() + c.spec_entries(), d.spec_entries());
    lemma_merge_concat(env, a.spec_entries() + b.spec_entries(), c.spec_entries());
    lemma_merge_concat(env, a.spec_entries(), b.spec_entries());
}

/// A tuple of 7 diffs does what its parts do one after the other, and can be
/// applied exactly when each part can.
pub proof fn law_tuple_of_7_applies_in_order<A: Diff, B: Diff, C: Diff, D: Diff, E: Diff, F: Diff, G: Diff>(
    env: EnvMap,
    a: A,
    b: B,
    c: C,
    d: D,
    e: E,
    f: F,
    g: G,
)
    ensures
        merge_entries(env, (a, b, c, d, e, f, g).spec_entries()) == merge_entries(
            merge_entries(
                merge_entries(
                    merge_entries(
                        merge_entries(
                            merge_entries(
                                merge_entries(
                                    env,
                                    a.spec_entries(),
                                ),
                                b.spec_entries(),
                            ),
                            c.spec_entries(),
                        ),
                        d.spec_entries(),
                    ),
                    e.spec_entries(),
                ),
                f.spec_entries(),
            ),
            g.spec_entries(),
        ),
        (a, b, c, d, e, f, g).is_valid_diff() == (a.is_valid_diff() && b.is_valid_diff() && c.is_valid_diff() && d.is_valid_diff() && e.is_valid_diff() && f.is_valid_diff() && g.is_valid_diff()),
        (a, b, c, d, e, f, g).obeys_diff_spec() == (a.obeys_diff_spec() && b.obeys_diff_spec() && c.obeys_diff_spec() && d.obeys_diff_spec() && e.obeys_diff_spec() && f.obeys_diff_spec() && g.obeys_diff_spec()),
{
    lemma_merge_concat(env, a.spec_entries() + b.spec_entries() + c.spec_entries() + d.spec_entries() + e.spec_entries() + f.spec_entries(), g.spec_entries());
    lemma_merge_concat(env, a.spec_entries() + b.spec_entries() + c.spec_entries() + d.spec_entries() + e.spec_entries(), f.spec_entries());
    lemma_merge_concat(env, a.spec_entries() + b.spec_entries() + c.spec_entries() + d.spec_entries(), e.spec_entries());
    lemma_merge_concat(env, a.spec_entries() + b.spec_entries() + c.spec_entries(), d.spec_entries());
    lemma_merge_concat(env, a.spec_entries() + b.spec_entries(), c.spec_entries());
    lemma_merge_concat(env, a.spec_entries(), b.spec_entries());
}

/// A tuple of 8 diffs does what its parts do one after the other, and can be
/// applied exactly when each part can.
pub proof fn law_tuple_of_8_applies_in_order<A: Diff, B: Diff, C: Diff, D: Diff, E: Diff, F: Diff, G: Diff, H: Diff>(
    env: EnvMap,
    a: A,
    b: B,
    c: C,
    d: D,
    e: E,
    f: F,
    g: G,
    h: H,
)
    ensures
        merge_entries(env, (a, b, c, d, e, f, g, h).spec_entries()) == merge_entries(
            merge_entries(
                merge_entries(
                    merge_entries(
                        merge_entries(
                            merge_entries(
                                merge_entries(
                                    merge_entries(
                                        env,
                                        a.spec_entries(),
                                    ),
                                    b.spec_entries(),
                                ),
                                c.spec_entries(),
                            ),
                            d.spec_entries(),
                        ),
                        e.spec_entries(),
                    ),
                    f.spec_entries(),
                ),
                g.spec_entries(),
            ),
            h.spec_entries(),
        ),
        (a, b, c, d, e, f, g, h).is_valid_diff() == (a.is_valid_diff() && b.is_valid_diff() && c.is_valid_diff() && d.is_valid_diff() && e.is_valid_diff() && f.is_valid_diff() && g.is_valid_diff() && h.is_valid_diff()),
        (a, b, c, d, e, f, g, h).obeys_diff_spec() == (a.obeys_diff_spec() && b.obeys_diff_spec() && c.obeys_diff_spec() && d.obeys_diff_spec() && e.obeys_diff_spec() && f.obeys_diff_spec() && g.obeys_diff_spec() && h.obeys_diff_spec()),
{
    lemma_merge_concat(env, a.spec_entries() + b.spec_entries() + c.spec_entries() + d.spec_entries() + e.spec_entries() + f.spec_entries() + g.spec_entries(), h.spec_entries());
    lemma_merge_concat(env, a.spec_entries() + b.spec_entries() + c.spec_entries() + d.spec_entries() + e.spec_entries() + f.spec_entries(), g.spec_entries());
    lemma_merge_concat(env, a.spec_entries() + b.spec_entries() + c.spec_entries() + d.spec_entries() + e.spec_entries(), f.spec_entries());
    lemma_merge_concat(env, a.spec_entries() + b.spec_entries() + c.spec_entries() + d.spec_entries(), e.spec_entries());
    lemma_merge_concat(env, a.spec_entries() + b.spec_entries() + c.spec_entries(), d.spec_entries());
    lemma_merge_concat(env, a.spec_entries() + b.spec_entries(), c.spec_entries());
    lemma_merge_concat(env, a.spec_entries(), b.spec_entries());
}

/// A tuple of 9 diffs does what its parts do one after the other, and can be
/// applied exactly when each part can.
pub proof fn law_tuple_of_9_applies_in_order<A: Diff, B: Diff, C: Diff, D: Diff, E: Diff, F: Diff, G: Diff, H: Diff, I: Diff>(
    env: EnvMap,
    a: A,
    b: B,
    c: C,
    d: D,
    e: E,
    f: F,
    g: G,
    h: H,
    i: I,
)
    ensures
        merge_entries(env, (a, b, c, d, e, f, g, h, i).spec_entries()) == merge_entries(
            merge_entries(
                merge_entries(
                    merge_entries(
                        merge_entries(
                            merge_entries(
                                merge_entries(
                                    merge_entries(
                                        merge_entries(
                                            env,
                                            a.spec_entries(),
                                        ),
                                        b.spec_entries(),
                                    ),
                                    c.spec_entries(),
                                ),
                                d.spec_entries(),
                            ),
                            e.spec_entries(),
                        ),
                        f.spec_entries(),
                    ),
                    g.spec_entries(),
                ),
                h.spec_entries(),
            ),
            i.spec_entries(),
        ),
        (a, b, c, d, e, f, g, h, i).is_valid_diff() == (a.is_valid_diff() && b.is_valid_diff() && c.is_valid_diff() && d.is_valid_diff() && e.is_valid_diff() && f.is_valid_diff() && g.is_valid_diff() && h.is_valid_diff() && i.is_valid_diff()),
        (a, b, c, d, e, f, g, h, i).obeys_diff_spec() == (a.obeys_diff_spec() && b.obeys_diff_spec() && c.obeys_diff_spec() && d.obeys_diff_spec() && e.obeys_diff_spec() && f.obeys_diff_spec() && g.obeys_diff_spec() && h.obeys_diff_spec() && i.obeys_diff_spec()),
{
    lemma_merge_concat(env, a.spec_entries() + b.spec_entries() + c.spec_entries() + d.spec_entries() + e.spec_entries() + f.spec_entries() + g.spec_entries() + h.spec_entries(), i.spec_entries());
    lemma_merge_concat(env, a.spec_entries() + b.spec_entries() + c.spec_entries() + d.spec_entries() + e.spec_entries() + f.spec_entries() + g.spec_entries(), h.spec_entries());
    lemma_merge_concat(env, a.spec_entries() + b.spec_entries() + c.spec_entries() + d.spec_entries() + e.spec_entries() + f.spec_entries(), g.spec_entries());
    lemma_merge_concat(env, a.spec_entries() + b.spec_entries() + c.spec_entries() + d.spec_entries() + e.spec_entries(), f.spec_entries());
    lemma_merge_concat(env, a.spec_entries() + b.spec_entries() + c.spec_entries() + d.spec_entries(), e.spec_entries());
    lemma_merge_concat(env, a.spec_entries() + b.spec_entries() + c.spec_entries(), d.spec_entries());
    lemma_merge_concat(env, a.spec_entries() + b.spec_entries(), c.spec_entries());
    lemma_merge_concat(env, a.spec_entries(), b.spec_entries());
}

/// A tuple of 10 diffs does what its parts do one after the other, and can be
/// applied exactly when each part can.
pub proof fn law_tuple_of_10_applies_in_order<A: Diff, B: Diff, C: Diff, D: Diff, E: Diff, F: Diff, G: Diff, H: Diff, I: Diff, J: Diff>(
    env: EnvMap,
    a: A,
    b: B,
    c: C,
    d: D,
    e: E,
    f: F,
    g: G,
    h: H,
    i: I,
    j: J,
)
    ensures
        merge_entries(env, (a, b, c, d, e, f, g, h, i, j).spec_entries()) == merge_entries(
            merge_entries(
                merge_entries(
                    merge_entries(
                        merge_entries(
                            merge_entries(
                                merge_entries(
                                    merge_entries(
                                        merge_entries(
                                            merge_entries(
                                                env,
                                                a.spec_entries(),
                                            ),
                                            b.spec_entries(),
                                        ),
                                        c.spec_entries(),
                                    ),
                                    d.spec_entries(),
                                ),
                                e.spec_entries(),
                            ),
                            f.spec_entries(),
                        ),
                        g.spec_entries(),
                    ),
                    h.spec_entries(),
                ),
                i.spec_entries(),
            ),
            j.spec_entries(),
        ),
        (a, b, c, d, e, f, g, h, i, j).is_valid_diff() == (a.is_valid_diff() && b.is_valid_diff() && c.is_valid_diff() && d.is_valid_diff() && e.is_valid_diff() && f.is_valid_diff() && g.is_valid_diff() && h.is_valid_diff() && i.is_valid_diff() && j.is_valid_diff()),
        (a, b, c, d, e, f, g, h, i, j).obeys_diff_spec() == (a.obeys_diff_spec() && b.obeys_diff_spec() && c.obeys_diff_spec() && d.obeys_diff_spec() && e.obeys_diff_spec() && f.obeys_diff_spec() && g.obeys_diff_spec() && h.obeys_diff_spec() && i.obeys_diff_spec() && j.obeys_diff_spec()),
{
    lemma_merge_concat(env, a.spec_entries() + b.spec_entries() + c.spec_entries() + d.spec_entries() + e.spec_entries() + f.spec_entries() + g.spec_entries() + h.spec_entries() + i.spec_entries(), j.spec_entries());
    lemma_merge_concat(env, a.spec_entries() + b.spec_entries() + c.spec_entries() + d.spec_entries() + e.spec_entries() + f.spec_entries() + g.spec_entries() + h.spec_entries(), i.spec_entries());
    lemma_merge_concat(env, a.spec_entries() + b.spec_entries() + c.spec_entries() + d.spec_entries() + e.spec_entries() + f.spec_entries() + g.spec_entries(), h.spec_entries());
    lemma_merge_concat(env, a.spec_entries() + b.spec_entries() + c.spec_entries() + d.spec_entries() + e.spec_entries() + f.spec_entries(), g.spec_entries());
    lemma_merge_concat(env, a.spec_entries() + b.spec_entries() + c.spec_entries() + d.spec_entries() + e.spec_entries(), f.spec_entries());
    lemma_merge_concat(env, a.spec_entries() + b.spec_entries() + c.spec_entries() + d.spec_entries(), e.spec_entries());
    lemma_merge_concat(env, a.spec_entries() + b.spec_entries() + c.spec_entries(), d.spec_entries());
    lemma_merge_concat(env, a.spec_entries() + b.spec_entries(), c.spec_entries());
    lemma_merge_concat(env, a.spec_entries(), b.spec_entries());
}

/// A tuple of 11 diffs does what its parts do one after the other, and can be
/// applied exactly when each part can.
pub proof fn law_tuple_of_11_applies_in_order<A: Diff, B: Diff, C: Diff, D: Diff, E: Diff, F: Diff, G: Diff, H: Diff, I: Diff, J: Diff, K: Diff>(
    env: EnvMap,
    a: A,
    b: B,
    c: C,
    d: D,
    e: E,
    f: F,
    g: G,
    h: H,
    i: I,
    j: J,
    k: K,
)
    ensures
        merge_entries(env, (a, b, c, d, e, f, g, h, i, j, k).spec_entries()) == merge_entries(
            merge_entries(
                merge_entries(
                    merge_entries(
                        merge_entries(
                            merge_entries(
                                merge_entries(
                                    merge_entries(
                                        merge_entries(
                                            merge_entries(
                                                merge_entries(
                                                    env,
                                                    a.spec_entries(),
                                                ),
                                                b.spec_entries(),
                                            ),
                                            c.spec_entries(),
                                        ),
                                        d.spec_entries(),
                                    ),
                                    e.spec_entries(),
                                ),
                                f.spec_entries(),
                            ),
                            g.spec_entries(),
                        ),
                        h.spec_entries(),
                    ),
                    i.spec_entries(),
                ),
                j.spec_entries(),
            ),
            k.spec_entries(),
        ),
        (a, b, c, d, e, f, g, h, i, j, k).is_valid_diff() == (a.is_valid_diff() && b.is_valid_diff() && c.is_valid_diff() && d.is_valid_diff() && e.is_valid_diff() && f.is_valid_diff() && g.is_valid_diff() && h.is_valid_diff() && i.is_valid_diff() && j.is_valid_diff() && k.is_valid_diff()),
        (a, b, c, d, e, f, g, h, i, j, k).obeys_diff_spec() == (a.obeys_diff_spec() && b.obeys_diff_spec() && c.obeys_diff_spec() && d.obeys_diff_spec() && e.obeys_diff_spec() && f.obeys_diff_spec() && g.obeys_diff_spec() && h.obeys_diff_spec() && i.obeys_diff_spec() && j.obeys_diff_spec() && k.obeys_diff_spec()),
{
    lemma_merge_concat(env, a.spec_entries() + b.spec_entries() + c.spec_entries() + d.spec_entries() + e.spec_entries() + f.spec_entries() + g.spec_entries() + h.spec_entries() + i.spec_entries() + j.spec_entries(), k.spec_entries());
    lemma_merge_concat(env, a.spec_entries() + b.spec_entries() + c.spec_entries() + d.spec_entries() + e.spec_entries() + f.spec_entries() + g.spec_entries() + h.spec_entries() + i.spec_entries(), j.spec_entries());
    lemma_merge_concat(env, a.spec_entries() + b.spec_entries() + c.spec_entries() + d.spec_entries() + e.spec_entries() + f.spec_entries() + g.spec_entries() + h.spec_entries(), i.spec_entries());
    lemma_merge_concat(env, a.spec_entries() + b.spec_entries() + c.spec_entries() + d.spec_entries() + e.spec_entries() + f.spec_entries() + g.spec_entries(), h.spec_entries());
    lemma_merge_concat(env, a.spec_entries() + b.spec_entries() + c.spec_entries() + d.spec_entries() + e.spec_entries() + f.spec_entries(), g.spec_entries());
    lemma_merge_concat(env, a.spec_entries() + b.spec_entries() + c.spec_entries() + d.spec_entries() + e.spec_entries(), f.spec_entries());
    lemma_merge_concat(env, a.spec_entries() + b.spec_entries() + c.spec_entries() + d.spec_entries(), e.spec_entries());
    lemma_merge_concat(env, a.spec_entries() + b.spec_entries() + c.spec_entries(), d.spec_entries());
    lemma_merge_concat(env, a.spec_entries() + b.spec_entries(), c.spec_entries());
    lemma_merge_concat(env, a.spec_entries(), b.spec_entries());
}

/// A tuple of 12 diffs does what its parts do one after the other, and can be
/// applied exactly when each part can.
pub proof fn law_tuple_of_12_applies_in_order<A: Diff, B: Diff, C: Diff, D: Diff, E: Diff, F: Diff, G: Diff, H: Diff, I: Diff, J: Diff, K: Diff, L: Diff>(
    env: EnvMap,
    a: A,
    b: B,
    c: C,
    d: D,
    e: E,
    f: F,
    g: G,
    h: H,
    i: I,
    j: J,
    k: K,
    l: L,
)
    ensures
        merge_entries(env, (a, b, c, d, e, f, g, h, i, j, k, l).spec_entries()) == merge_entries(
            merge_entries(
                merge_entries(
                    merge_entries(
                        merge_entries(
                            merge_entries(
                                merge_entries(
                                    merge_entries(
                                        merge_entries(
                                            merge_entries(
                                                merge_entries(
                                                    merge_entries(
                                                        env,
                                                        a.spec_entries(),
                                                    ),
                                                    b.spec_entries(),
                                                ),
                                                c.spec_entries(),
                                            ),
                                            d.spec_entries(),
                                        ),
                                        e.spec_entries(),
                                    ),
                                    f.spec_entries(),
                                ),
                                g.spec_entries(),
                            ),
                            h.spec_entries(),
                        ),
                        i.spec_entries(),
                    ),
                    j.spec_entries(),
                ),
                k.spec_entries(),
            ),
            l.spec_entries(),
        ),
        (a, b, c, d, e, f, g, h, i, j, k, l).is_valid_diff() == (a.is_valid_diff() && b.is_valid_diff() && c.is_valid_diff() && d.is_valid_diff() && e.is_valid_diff() && f.is_valid_diff() && g.is_valid_diff() && h.is_valid_diff() && i.is_valid_diff() && j.is_valid_diff() && k.is_valid_diff() && l.is_valid_diff()),
        (a, b, c, d, e, f, g, h, i, j, k, l).obeys_diff_spec() == (a.obeys_diff_spec() && b.obeys_diff_spec() && c.obeys_diff_spec() && d.obeys_diff_spec() && e.obeys_diff_spec() && f.obeys_diff_spec() && g.obeys_diff_spec() && h.obeys_diff_spec() && i.obeys_diff_spec() && j.obeys_diff_spec() && k.obeys_diff_spec() && l.obeys_diff_spec()),
{
    lemma_merge_concat(env, a.spec_entries() + b.spec_entries() + c.spec_entries() + d.spec_entries() + e.spec_entries() + f.spec_entries() + g.spec_entries() + h.spec_entries() + i.spec_entries() + j.spec_entries() + k.spec_entries(), l.spec_entries());
    lemma_merge_concat(env, a.spec_entries() + b.spec_entries() + c.spec_entries() + d.spec_entries() + e.spec_entries() + f.spec_entries() + g.spec_entries() + h.spec_entries() + i.spec_entries() + j.spec_entries(), k.spec_entries());
    lemma_merge_concat(env, a.spec_entries() + b.spec_entries() + c.spec_entries() + d.spec_entries() + e.spec_entries() + f.spec_entries() + g.spec_entries() + h.spec_entries() + i.spec_entries(), j.spec_entries());
    lemma_merge_concat(env, a.spec_entries() + b.spec_entries() + c.spec_entries() + d.spec_entries() + e.spec_entries() + f.spec_entries() + g.spec_entries() + h.spec_entries(), i.spec_entries());
    lemma_merge_concat(env, a.spec_entries() + b.spec_entries() + c.spec_entries() + d.spec_entries() + e.spec_entries() + f.spec_entries() + g.spec_entries(), h.spec_entries());
    lemma_merge_concat(env, a.spec_entries() + b.spec_entries() + c.spec_entries() + d.spec_entries() + e.spec_entries() + f.spec_entries(), g.spec_entries());
    lemma_merge_concat(env, a.spec_entries() + b.spec_entries() + c.spec_entries() + d.spec_entries() + e.spec_entries(), f.spec_entries());
    lemma_merge_concat(env, a.spec_entries() + b.spec_entries() + c.spec_entries() + d.spec_entries(), e.spec_entries());
    lemma_merge_concat(env, a.spec_entries() + b.spec_entries() + c.spec_entries(), d.spec_entries());
    lemma_merge_concat(env, a.spec_entries() + b.spec_entries(), c.spec_entries());
    lemma_merge_concat(env, a.spec_entries(), b.spec_entries());
}

/// An absent diff changes nothing.
pub proof fn law_absent_diff_changes_nothing<D: Diff>(env: EnvMap)
    ensures
        merge_entries(env, None::<D>.spec_entries()) == env,
{
}

/// After a variable is set in a buffer, it has a value: reading it never finds it
/// absent, and requiring it never fails with `NoneError`.
pub proof fn law_get_after_set_finds_value<T: EnvVariable>(
    before: EnvBuf,
    after: EnvBuf,
    value: Seq<u8>,
)
    requires
        after.spec_vars() == before.spec_vars().insert(T::KEY@, Some(value)),
    ensures
        after.spec_raw_get(T::KEY@) == Some(value),
        forall|read: Result<Option<T>, ReadError<T>>|
            #[trigger] read_agrees::<T>(after.spec_raw_get(T::KEY@), read) ==> read
                != Ok::<Option<T>, ReadError<T>>(None),
        forall|read: Result<T, ReadError<T>>|
            #[trigger] require_agrees::<T>(after.spec_raw_get(T::KEY@), read) ==> !(read matches Err(
                Error::NoneError { .. },
            )),
{
}

/// A value whose written form parses back to itself, once set in a buffer, is what
/// reading and requiring the variable give back (for a type that obeys its parse
/// specification).
pub proof fn law_get_after_set<T: EnvVariable>(before: EnvBuf, after: EnvBuf, value: T)
    requires
        T::obeys_parse_spec(),
        T::spec_deserialize(T::spec_serialize(value)) == Ok::<T, T::Error>(value),
        after.spec_vars() == before.spec_vars().insert(T::KEY@, Some(T::spec_serialize(value))),
    ensures
        forall|read: Result<Option<T>, ReadError<T>>|
            #[trigger] read_agrees::<T>(after.spec_raw_get(T::KEY@), read) ==> read == Ok::<
                Option<T>,
                ReadError<T>,
            >(Some(value)),
        forall|read: Result<T, ReadError<T>>|
            #[trigger] require_agrees::<T>(after.spec_raw_get(T::KEY@), read) ==> read == Ok::<
                T,
                ReadError<T>,
            >(value),
{
}

/// After a variable is unset in a buffer, it is absent: reading it gives nothing,
/// and requiring it fails with `NoneError`.
pub proof fn law_get_after_unset<T: EnvVariable>(before: EnvBuf, after: EnvBuf)
    requires
        after.spec_vars() == before.spec_vars().insert(T::KEY@, None),
    ensures
        after.spec_raw_get(T::KEY@) == None::<Seq<u8>>,
        forall|read: Result<Option<T>, ReadError<T>>|
            #[trigger] read_agrees::<T>(after.spec_raw_get(T::KEY@), read) ==> read == Ok::<
                Option<T>,
                ReadError<T>,
            >(None),
        forall|read: Result<T, ReadError<T>>|
            #[trigger] require_agrees::<T>(after.spec_raw_get(T::KEY@), read) ==> read == Err::<
                T,
                ReadError<T>,
            >(Error::NoneError { key: T::KEY }),
{
}

/// Setting one variable in a buffer leaves every other key as it was.
pub proof fn law_set_leaves_other_keys(
    before: EnvBuf,
    after: EnvBuf,
    set_key: Seq<char>,
    value: Seq<u8>,
    key: Seq<char>,
)
    requires
        after.spec_vars() == before.spec_vars().insert(set_key, Some(value)),
        key != set_key,
    ensures
        after.spec_raw_get(key) == before.spec_raw_get(key),
{
}

/// A view of the process environment that has made no change of its own reads
/// exactly what the process environment holds.
pub proof fn law_fresh_view_reads_system(key: Seq<char>, system: Option<Seq<u8>>)
    ensures
        overlay_get(Map::empty(), key, system) == system,
{
}

/// A value set through a view of the process environment is what the view reads,
/// whatever the process environment holds.
pub proof fn law_view_reads_own_value(
    changes: EnvMap,
    key: Seq<char>,
    value: Seq<u8>,
    system: Option<Seq<u8>>,
)
    ensures
        overlay_get(changes.insert(key, Some(value)), key, system) == Some(value),
{
}

/// A variable unset through a view of the process environment is absent in the
/// view, whatever the process environment holds; reading it gives nothing, and
/// requiring it fails with `NoneError` (so a pull through a view removes the variable
/// from the view).
pub proof fn law_view_unset_hides_system<T: EnvVariable>(
    changes: EnvMap,
    system: Option<Seq<u8>>,
)
    ensures
        overlay_get(changes.insert(T::KEY@, None), T::KEY@, system) == None::<Seq<u8>>,
        forall|read: Result<Option<T>, ReadError<T>>|
            #[trigger] read_agrees::<T>(overlay_get(changes.insert(T::KEY@, None), T::KEY@, system), read)
                ==> read == Ok::<Option<T>, ReadError<T>>(None),
        forall|read: Result<T, ReadError<T>>|
            #[trigger] require_agrees::<T>(overlay_get(changes.insert(T::KEY@, None), T::KEY@, system), read)
                ==> read == Err::<T, ReadError<T>>(Error::NoneError { key: T::KEY }),
{
}

/// The UTF-8 encoding of a concatenation is the concatenation of the encodings.
pub proof fn lemma_encode_concat(a: Seq<char>, b: Seq<char>)
    ensures
        encode_utf8(a + b) == encode_utf8(a) + encode_utf8(b),
    decreases a.len(),
{
    if a.len() == 0 {
        assert(a + b =~= b);
    } else {
        assert((a + b).drop_first() =~= a.drop_first() + b);
        lemma_encode_concat(a.drop_first(), b);
    }
}

/// An untyped assignment `KEY=VALUE`, turned into its entry and written back out,
/// gives the bytes of the assignment.
pub proof fn law_assignment_round_trip(text: Seq<char>)
    requires
        is_assignment(text),
    ensures
        entry_bytes(assignment_entry(text)) == encode_utf8(text),
{
    let i = separator_index(text);
    assert(text[i] == '=');
    let key = text.take(i);
    let value = text.skip(i + 1);
    assert(text =~= key + seq!['='] + value);
    lemma_encode_concat(key + seq!['='], value);
    lemma_encode_concat(key, seq!['=']);
    assert(('=' as u32) == 61u32);
    assert(61u32 & 0x7F == 61u32) by (bit_vector);
    assert(encode_scalar(61u32) =~= seq![61u8]);
    let sep = seq!['='];
    assert(sep[0] == '=');
    assert(sep.drop_first() =~= Seq::<char>::empty());
    assert(encode_utf8(sep.drop_first()) =~= Seq::<u8>::empty());
    assert(encode_utf8(sep) =~= encode_scalar(61u32) + Seq::<u8>::empty());
    assert(encode_utf8(sep) =~= seq![61u8]);
}

/// Two UTF-8 byte strings that decode to the same text are the same bytes.
proof fn lemma_decode_injective(a: Seq<u8>, b: Seq<u8>)
    requires
        valid_utf8(a),
        valid_utf8(b),
        decode_utf8(a) == decode_utf8(b),
    ensures
        a == b,
{
    vstd::utf8::decode_utf8_encode_utf8(a);
    vstd::utf8::decode_utf8_encode_utf8(b);
}

/// The variable at `j` has UTF-8 bytes as its key, and they spell `key`.
pub open spec fn spells(vars: Seq<(Seq<u8>, Seq<u8>)>, j: int, key: Seq<char>) -> bool {
    0 <= j < vars.len() && valid_utf8(vars[j].0) && decode_utf8(vars[j].0) == key
}

/// The variable at `j` is the last one with its key.
pub open spec fn last_of_its_key(vars: Seq<(Seq<u8>, Seq<u8>)>, j: int) -> bool {
    forall|later: int| j < later < vars.len() ==> #[trigger] vars[later].0 != vars[j].0
}

/// One step of reading the process environment's variables.
proof fn lemma_system_step(vars: Seq<(Seq<u8>, Seq<u8>)>)
    requires
        vars.len() > 0,
    ensures
        merge_entries(Map::empty(), system_entries(vars)) == if valid_utf8(vars.last().0) {
            merge_entries(Map::empty(), system_entries(vars.drop_last())).insert(
                decode_utf8(vars.last().0),
                Some(vars.last().1),
            )
        } else {
            merge_entries(Map::empty(), system_entries(vars.drop_last()))
        },
{
    let rest = system_entries(vars.drop_last());
    if valid_utf8(vars.last().0) {
        let entry: EntryView = (decode_utf8(vars.last().0), Some(vars.last().1));
        assert(system_entries(vars) == rest.push(entry));
        assert(rest.push(entry).drop_last() =~= rest);
        assert(rest.push(entry).last() == entry);
    }
}

/// The variables of the process environment, read as an environment: a key is there
/// exactly when some variable has UTF-8 bytes that spell it; its value is that of the
/// last such variable.
pub proof fn law_system_variables_read_back(vars: Seq<(Seq<u8>, Seq<u8>)>, key: Seq<char>)
    ensures
        merge_entries(Map::empty(), system_entries(vars)).dom().contains(key) <==> exists|j: int|
            #[trigger] spells(vars, j, key),
        forall|j: int|
            #[trigger] spells(vars, j, key) && last_of_its_key(vars, j) ==> merge_entries(
                Map::empty(),
                system_entries(vars),
            )[key] == Some(vars[j].1),
    decreases vars.len(),
{
    if vars.len() > 0 {
        let init = vars.drop_last();
        let n = vars.len() - 1;
        let last = vars[n];
        law_system_variables_read_back(init, key);
        lemma_system_step(vars);
        assert(vars.last() == last);
        let here = valid_utf8(last.0) && decode_utf8(last.0) == key;
        assert(here == spells(vars, n, key));
        assert forall|j: int| #[trigger] spells(init, j, key) implies spells(vars, j, key) by {
            assert(init[j] == vars[j]);
        }
        assert forall|j: int| j < n && #[trigger] spells(vars, j, key) implies spells(init, j, key) by {
            assert(init[j] == vars[j]);
        }
        assert forall|j: int| #[trigger] spells(vars, j, key) && last_of_its_key(vars, j) implies merge_entries(
            Map::empty(),
            system_entries(vars),
        )[key] == Some(vars[j].1) by {
            if j < n {
                assert(vars[n].0 != vars[j].0);
                if here {
                    lemma_decode_injective(last.0, vars[j].0);
                }
                assert(spells(init, j, key));
                assert forall|later: int| j < later < init.len() implies #[trigger] init[later].0
                    != init[j].0 by {
                    assert(init[later] == vars[later]);
                    assert(vars[later].0 != vars[j].0);
                }
                assert(last_of_its_key(init, j));
            }
        }
    }
}

/// A dump holds every variable of the process environment that has a UTF-8 key and
/// that the view did not change, with the value of the last variable of that key;
/// every key the view changed has the view's change.
pub proof fn law_dump_keeps_system_and_changes(
    changes: EnvMap,
    vars: Seq<(Seq<u8>, Seq<u8>)>,
    key: Seq<char>,
)
    ensures
        changes.dom().contains(key) ==> merge_entries(
            Map::empty(),
            system_entries(vars),
        ).union_prefer_right(changes).dom().contains(key) && merge_entries(
            Map::empty(),
            system_entries(vars),
        ).union_prefer_right(changes)[key] == changes[key],
        forall|j: int|
            #[trigger] spells(vars, j, key) && last_of_its_key(vars, j) && !changes.dom().contains(
                key,
            ) ==> merge_entries(Map::empty(), system_entries(vars)).union_prefer_right(
                changes,
            ).dom().contains(key) && merge_entries(
                Map::empty(),
                system_entries(vars),
            ).union_prefer_right(changes)[key] == Some(vars[j].1),
        (!changes.dom().contains(key) && forall|j: int| !#[trigger] spells(vars, j, key))
            ==> !merge_entries(Map::empty(), system_entries(vars)).union_prefer_right(
            changes,
        ).dom().contains(key),
{
    law_system_variables_read_back(vars, key);
}

/// A listing of the variables that have a value holds exactly the pairs that reading
/// gives: `(key, value)` is listed when and only when reading `key` gives `value`
/// (the empty value included), and each key is listed once.
pub proof fn law_listing_is_what_reads_give(pairs: Seq<(Seq<char>, Seq<u8>)>, env: EnvMap)
    requires
        lists_exactly(pairs, assigned(env)),
    ensures
        forall|i: int|
            0 <= i < pairs.len() ==> lookup(env, (#[trigger] pairs[i]).0) == Some(pairs[i].1),
        forall|key: Seq<char>|
            (#[trigger] lookup(env, key)) is Some ==> exists|i: int|
                0 <= i < pairs.len() && #[trigger] pairs[i] == (key, lookup(env, key)->Some_0),
        forall|i: int, j: int|
            0 <= i < pairs.len() && 0 <= j < pairs.len() && i != j ==> #[trigger] pairs[i].0
                != #[trigger] pairs[j].0,
{
    assert forall|i: int| 0 <= i < pairs.len() implies lookup(env, (#[trigger] pairs[i]).0) == Some(
        pairs[i].1,
    ) by {
        assert(assigned(env).dom().contains(pairs[i].0));
    }
    assert forall|key: Seq<char>| (#[trigger] lookup(env, key)) is Some implies exists|i: int|
        0 <= i < pairs.len() && #[trigger] pairs[i] == (key, lookup(env, key)->Some_0) by {
        assert(assigned(env).dom().contains(key));
        let i = choose|i: int| 0 <= i < pairs.len() && #[trigger] pairs[i].0 == key;
        assert(pairs[i] == (key, lookup(env, key)->Some_0));
    }
}

/// Any key and value that hold no `=` make, joined by `=`, an untyped assignment of
/// that key to the UTF-8 bytes of that value, whatever else they hold.
pub proof fn law_joined_assignment(key: Seq<char>, value: Seq<char>)
    requires
        forall|i: int| 0 <= i < key.len() ==> #[trigger] key[i] != '=',
        forall|i: int| 0 <= i < value.len() ==> #[trigger] value[i] != '=',
    ensures
        is_assignment(key + seq!['='] + value),
        assignment_entry(key + seq!['='] + value) == (key, Some(encode_utf8(value))),
{
    let text = key + seq!['='] + value;
    let n = key.len() as int;
    assert(text[n] == '=');
    assert forall|j: int| 0 <= j < text.len() && #[trigger] text[j] == '=' implies j == n by {
        if j < n {
            assert(text[j] == key[j]);
        } else if j > n {
            assert(text[j] == value[j - n - 1]);
        }
    }
    assert(is_assignment(text));
    let i = separator_index(text);
    assert(text[i] == '=');
    assert(i == n);
    assert(text.take(n) =~= key);
    assert(text.skip(n + 1) =~= value);
}

/// Every untyped assignment is such a join: the text before its `=` and the text
/// after it hold no `=`.
pub proof fn law_assignment_splits(text: Seq<char>)
    requires
        is_assignment(text),
    ensures
        text == text.take(separator_index(text)) + seq!['='] + text.skip(separator_index(text) + 1),
        forall|i: int|
            0 <= i < separator_index(text) ==> #[trigger] text.take(separator_index(text))[i]
                != '=',
        forall|i: int|
            0 <= i < text.len() - separator_index(text) - 1 ==> #[trigger] text.skip(
                separator_index(text) + 1,
            )[i] != '=',
{
    let p = separator_index(text);
    assert(text[p] == '=');
    assert(text =~= text.take(p) + seq!['='] + text.skip(p + 1));
    assert forall|i: int| 0 <= i < p implies #[trigger] text.take(p)[i] != '=' by {
        assert(text.take(p)[i] == text[i]);
    }
    assert forall|i: int| 0 <= i < text.len() - p - 1 implies #[trigger] text.skip(p + 1)[i]
        != '=' by {
        assert(text.skip(p + 1)[i] == text[p + 1 + i]);
    }
}

} // verus!
