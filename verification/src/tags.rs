//! Tag lists as sets of short strings.
//!
//! A volume group or logical volume carries a list of tags.  The engine
//! keeps the list free of duplicates and hands it back in insertion order;
//! the order carries no meaning.  This module gives the two mutations their
//! mathematical form — adding a tag is a no-op when it is present, removing
//! a tag drops every occurrence — and proves the round-trip laws: after an
//! add the tag is listed exactly once, and after a remove it is not listed
//! at all.

use vstd::prelude::*;

verus! {

/// No two entries are the same string.
pub open spec fn distinct_seqs(s: Seq<Seq<char>>) -> bool {
    forall|i: int, j: int| 0 <= i < j < s.len() ==> s[i] != s[j]
}

/// What adding a tag yields: the list unchanged when the tag is already
/// present, the tag appended when it is not.
pub open spec fn spec_add_tag(tags: Seq<Seq<char>>, t: Seq<char>) -> Seq<Seq<char>> {
    if tags.contains(t) {
        tags
    } else {
        tags.push(t)
    }
}

/// What removing a tag yields: every entry but `t`, in their old order.
pub open spec fn spec_remove_tag(tags: Seq<Seq<char>>, t: Seq<char>) -> Seq<Seq<char>>
    decreases tags.len(),
{
    if tags.len() == 0 {
        tags
    } else {
        spec_remove_tag(tags.drop_last(), t) + (if tags.last() == t {
            Seq::empty()
        } else {
            seq![tags.last()]
        })
    }
}

/// How many entries equal `t`.
pub open spec fn count_of(tags: Seq<Seq<char>>, t: Seq<char>) -> nat
    decreases tags.len(),
{
    if tags.len() == 0 {
        0nat
    } else {
        count_of(tags.drop_last(), t) + (if tags.last() == t {
            1nat
        } else {
            0nat
        })
    }
}

/// A non-empty list holds `t` exactly when its front part does or its last
/// entry is `t`.
proof fn lemma_contains_split(s: Seq<Seq<char>>, t: Seq<char>)
    requires
        s.len() > 0,
    ensures
        s.contains(t) <==> (s.drop_last().contains(t) || s.last() == t),
{
    if s.contains(t) {
        let i = choose|i: int| 0 <= i < s.len() && s[i] == t;
        if i < s.len() - 1 {
            assert(s.drop_last()[i] == t);
        }
    }
    if s.drop_last().contains(t) {
        let i = choose|i: int| 0 <= i < s.drop_last().len() && s.drop_last()[i] == t;
        assert(s[i] == t);
    }
}

/// A list holds `t` exactly when `t` is counted at least once.
proof fn lemma_count_contains(s: Seq<Seq<char>>, t: Seq<char>)
    ensures
        s.contains(t) <==> count_of(s, t) > 0,
    decreases s.len(),
{
    if s.len() > 0 {
        lemma_contains_split(s, t);
        lemma_count_contains(s.drop_last(), t);
    } else {
        if s.contains(t) {
            let i = choose|i: int| 0 <= i < s.len() && s[i] == t;
        }
    }
}

/// A duplicate-free list counts no string more than once.
proof fn lemma_distinct_count_at_most_one(s: Seq<Seq<char>>, t: Seq<char>)
    requires
        distinct_seqs(s),
    ensures
        count_of(s, t) <= 1,
    decreases s.len(),
{
    if s.len() > 0 {
        let front = s.drop_last();
        assert(distinct_seqs(front)) by {
            assert(forall|i: int, j: int|
                0 <= i < j < front.len() ==> front[i] == s[i] && front[j] == s[j]);
        }
        lemma_distinct_count_at_most_one(front, t);
        if s.last() == t {
            assert(!front.contains(t)) by {
                if front.contains(t) {
                    let i = choose|i: int| 0 <= i < front.len() && front[i] == t;
                    assert(s[i] == s[s.len() - 1]);
                }
            }
            lemma_count_contains(front, t);
        }
    }
}

/// Adding a tag keeps the list duplicate-free and lists the tag exactly
/// once: the round-trip law of `add_tag` followed by `get_tags`.
pub proof fn lemma_tag_add_round_trip(tags: Seq<Seq<char>>, t: Seq<char>)
    requires
        distinct_seqs(tags),
    ensures
        spec_add_tag(tags, t).contains(t),
        count_of(spec_add_tag(tags, t), t) == 1,
        distinct_seqs(spec_add_tag(tags, t)),
    decreases tags.len(),
{
    let added = spec_add_tag(tags, t);
    if tags.contains(t) {
        lemma_count_contains(tags, t);
        lemma_distinct_count_at_most_one(tags, t);
    } else {
        assert(added[added.len() - 1] == t);
        assert(added.contains(t));
        assert(added.drop_last() =~= tags);
        lemma_count_contains(tags, t);
        assert(count_of(added, t) == count_of(tags, t) + 1);
        assert(distinct_seqs(added)) by {
            assert(forall|i: int| 0 <= i < tags.len() ==> added[i] == tags[i]);
            assert(forall|i: int| #![trigger added[i]]
                0 <= i < tags.len() ==> added[i] != t) by {
                assert(forall|i: int|
                    0 <= i < tags.len() && tags[i] == t ==> tags.contains(t));
            }
        }
    }
}

/// Removing a tag keeps the list duplicate-free, drops that tag entirely,
/// and keeps every other tag: the round-trip law of `remove_tag` followed
/// by `get_tags`.
pub proof fn lemma_tag_remove_round_trip(tags: Seq<Seq<char>>, t: Seq<char>)
    requires
        distinct_seqs(tags),
    ensures
        !spec_remove_tag(tags, t).contains(t),
        distinct_seqs(spec_remove_tag(tags, t)),
        forall|x: Seq<char>|
            #[trigger] spec_remove_tag(tags, t).contains(x) <==> (tags.contains(x) && x != t),
    decreases tags.len(),
{
    lemma_remove_membership(tags, t);
    lemma_remove_distinct(tags, t);
}

/// Membership after a removal: exactly the old members other than `t`.
proof fn lemma_remove_membership(tags: Seq<Seq<char>>, t: Seq<char>)
    ensures
        forall|x: Seq<char>|
            #[trigger] spec_remove_tag(tags, t).contains(x) <==> (tags.contains(x) && x != t),
    decreases tags.len(),
{
    let removed = spec_remove_tag(tags, t);
    if tags.len() == 0 {
        assert(forall|x: Seq<char>| !tags.contains(x));
    } else {
        let front = tags.drop_last();
        lemma_remove_membership(front, t);
        assert forall|x: Seq<char>| #[trigger] removed.contains(x) implies (tags.contains(x) && x
            != t) by {
            let i = choose|i: int| 0 <= i < removed.len() && removed[i] == x;
            let front_removed = spec_remove_tag(front, t);
            if i < front_removed.len() {
                assert(front_removed.contains(x));
                lemma_contains_split(tags, x);
            } else {
                assert(tags.last() != t && x == tags.last());
                lemma_contains_split(tags, x);
            }
        }
        assert forall|x: Seq<char>| tags.contains(x) && x != t implies #[trigger] removed.contains(
            x,
        ) by {
            lemma_contains_split(tags, x);
            let front_removed = spec_remove_tag(front, t);
            if front.contains(x) {
                assert(front_removed.contains(x));
                let i = choose|i: int| 0 <= i < front_removed.len() && front_removed[i] == x;
                assert(removed[i] == x);
            } else {
                assert(tags.last() == x);
                assert(removed[removed.len() - 1] == x);
            }
        }
    }
}

/// A removal never introduces a duplicate.
proof fn lemma_remove_distinct(tags: Seq<Seq<char>>, t: Seq<char>)
    requires
        distinct_seqs(tags),
    ensures
        distinct_seqs(spec_remove_tag(tags, t)),
    decreases tags.len(),
{
    if tags.len() > 0 {
        let front = tags.drop_last();
        assert(distinct_seqs(front)) by {
            assert(forall|i: int, j: int|
                0 <= i < j < front.len() ==> front[i] == tags[i] && front[j] == tags[j]);
        }
        lemma_remove_distinct(front, t);
        let removed = spec_remove_tag(tags, t);
        let front_removed = spec_remove_tag(front, t);
        if tags.last() == t {
            assert(removed =~= front_removed);
        } else {
            lemma_remove_membership(front, t);
            assert(!front.contains(tags.last())) by {
                if front.contains(tags.last()) {
                    let i = choose|i: int| 0 <= i < front.len() && front[i] == tags.last();
                    assert(tags[i] == tags[tags.len() - 1]);
                }
            }
            assert(removed =~= front_removed.push(tags.last()));
            assert(!front_removed.contains(tags.last()));
            assert(distinct_seqs(removed)) by {
                assert(forall|i: int|
                    0 <= i < front_removed.len() ==> removed[i] == front_removed[i]);
                assert(forall|i: int| #![trigger removed[i]]
                    0 <= i < front_removed.len() ==> removed[i] != tags.last()) by {
                    assert(forall|i: int|
                        0 <= i < front_removed.len() && front_removed[i] == tags.last()
                            ==> front_removed.contains(tags.last()));
                }
            }
        }
    }
}

} // verus!
