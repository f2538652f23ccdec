//! The quest index: quests by name, longest first, so that matching an item's `DropLocation`
//! prefers the most specific name.

use vstd::prelude::*;
use vstd::utf8::encode_utf8;
use crate::model::LootType;
use crate::text::{
    chars_of, compare_chars, contains, contains_exec, replace_all, replace_chars, seq_less, to_lowercase, unicode_lower,
    Order,
};

verus! {

/// `(name, quests.id, is raid)` with the name as characters.
pub type QuestEntryView = (Seq<char>, i64, bool);

pub open spec fn entry_views(v: Seq<(String, i64, bool)>) -> Seq<QuestEntryView> {
    v.map_values(|e: (String, i64, bool)| (e.0@, e.1, e.2))
}

/// The length of a name in bytes, as `str::len` reports it.
pub open spec fn byte_len(name: Seq<char>) -> usize {
    encode_utf8(name).len() as usize
}

/// `a` goes before `b`: a longer name (in bytes) first, then by name.
pub open spec fn goes_before(a: QuestEntryView, b: QuestEntryView) -> bool {
    byte_len(a.0) > byte_len(b.0) || (byte_len(a.0) == byte_len(b.0) && seq_less(a.0, b.0))
}

/// No entry goes before one that precedes it.
pub open spec fn index_order(s: Seq<QuestEntryView>) -> bool {
    forall|i: int, j: int| 0 <= i < j < s.len() ==> !goes_before(#[trigger] s[j], #[trigger] s[i])
}

/// Quests by name, longest first.
pub struct QuestIndex {
    by_length: Vec<(String, i64, bool)>,
}

/// The entries named `name`, in order.
pub open spec fn named(s: Seq<QuestEntryView>, name: Seq<char>) -> Seq<QuestEntryView>
    decreases s.len(),
{
    if s.len() == 0 {
        Seq::empty()
    } else if s.last().0 == name {
        named(s.drop_last(), name).push(s.last())
    } else {
        named(s.drop_last(), name)
    }
}

/// Inserting an entry after every entry of its name appends it to its name's entries and
/// leaves every other name's entries as they were.
proof fn lemma_named_insert(o: Seq<QuestEntryView>, p: int, ev: QuestEntryView, x: Seq<char>)
    requires
        0 <= p <= o.len(),
        forall|i: int| p <= i < o.len() ==> (#[trigger] o[i]).0 != ev.0,
    ensures
        named(o.insert(p, ev), x) == if ev.0 == x {
            named(o, x).push(ev)
        } else {
            named(o, x)
        },
    decreases o.len(),
{
    let t = o.insert(p, ev);
    if p == o.len() {
        assert(t =~= o.push(ev));
        assert(t.drop_last() =~= o);
    } else {
        let d = o.drop_last();
        assert(t.drop_last() =~= d.insert(p, ev));
        assert(t.last() == o.last());
        assert(o.last() == o[o.len() - 1]);
        assert forall|i: int| p <= i < d.len() implies (#[trigger] d[i]).0 != ev.0 by {
            assert(d[i] == o[i]);
        }
        lemma_named_insert(d, p, ev, x);
        assert(o.drop_last() == d);
    }
}

proof fn lemma_named_push(s: Seq<QuestEntryView>, ev: QuestEntryView, x: Seq<char>)
    ensures
        named(s.push(ev), x) == if ev.0 == x {
            named(s, x).push(ev)
        } else {
            named(s, x)
        },
{
    assert(s.push(ev).drop_last() =~= s);
}

/// `a` goes before `b`.
fn goes_before_exec(a: &(String, i64, bool), b: &(String, i64, bool)) -> (r: bool)
    ensures
        r == goes_before((a.0@, a.1, a.2), (b.0@, b.1, b.2)),
{
    let la = a.0.as_str().len();
    let lb = b.0.as_str().len();
    if la != lb {
        return la > lb;
    }
    let ca = chars_of(a.0.as_str());
    let cb = chars_of(b.0.as_str());
    match compare_chars(ca.as_slice(), cb.as_slice()) {
        Order::Less => true,
        _ => false,
    }
}

proof fn lemma_before_transitive(a: QuestEntryView, b: QuestEntryView, c: QuestEntryView)
    requires
        goes_before(a, b),
        goes_before(b, c),
    ensures
        goes_before(a, c),
{
    if byte_len(a.0) == byte_len(b.0) && byte_len(b.0) == byte_len(c.0) {
        crate::text::lemma_less_transitive(a.0, b.0, c.0);
    }
}

proof fn lemma_before_asymmetric(a: QuestEntryView, b: QuestEntryView)
    requires
        goes_before(a, b),
    ensures
        !goes_before(b, a),
{
    if byte_len(a.0) == byte_len(b.0) {
        crate::text::lemma_less_asymmetric(a.0, b.0);
    }
}

impl QuestIndex {
    /// The entries, in index order.
    pub closed spec fn entries(&self) -> Seq<QuestEntryView> {
        entry_views(self.by_length@)
    }

    /// Index the quests: the same entries, longest name first, ties by name, equal names in the
    /// order given.
    pub fn new(quests: Vec<(String, i64, bool)>) -> (r: QuestIndex)
        ensures
            index_order(r.entries()),
            r.entries().to_multiset() == entry_views(quests@).to_multiset(),
            forall|name: Seq<char>| #[trigger] named(r.entries(), name) == named(entry_views(quests@), name),
    {
        let mut out: Vec<(String, i64, bool)> = Vec::new();
        let mut rest = quests;
        let ghost all = rest@;
        let n = rest.len();
        let mut k: usize = 0;
        assert(entry_views(out@) =~= Seq::<QuestEntryView>::empty());
        assert(entry_views(all.subrange(0, 0)) =~= Seq::<QuestEntryView>::empty());
        while rest.len() > 0
            invariant
                k + rest@.len() == all.len(),
                n == all.len(),
                rest@ == all.subrange(k as int, all.len() as int),
                index_order(entry_views(out@)),
                entry_views(out@).to_multiset() == entry_views(all.subrange(0, k as int)).to_multiset(),
                forall|name: Seq<char>| #[trigger] named(entry_views(out@), name) == named(
                    entry_views(all.subrange(0, k as int)),
                    name,
                ),
            decreases rest@.len(),
        {
            let e = rest.remove(0);
            assert(e == all[k as int]);
            let ghost o = entry_views(out@);
            let ghost ev = (e.0@, e.1, e.2);
            let mut p: usize = 0;
            while p < out.len() && !goes_before_exec(&e, &out[p])
                invariant
                    p <= out@.len(),
                    o == entry_views(out@),
                    ev == (e.0@, e.1, e.2),
                    forall|i: int| 0 <= i < p ==> !goes_before(ev, #[trigger] o[i]),
                decreases out@.len() - p,
            {
                p += 1;
            }
            proof {
                assert forall|i: int| p <= i < o.len() implies (#[trigger] o[i]).0 != ev.0 by {
                    if o[i].0 == ev.0 {
                        if i == p {
                            crate::text::lemma_less_irreflexive(ev.0);
                        } else {
                            assert(goes_before(o[i], o[p as int]) == goes_before(ev, o[p as int]));
                        }
                    }
                }
            }
            out.insert(p, e);
            proof {
                let t = entry_views(out@);
                assert(t =~= o.insert(p as int, ev));
                assert(entry_views(all.subrange(0, k + 1)) =~= entry_views(all.subrange(0, k as int)).push(ev));
                assert forall|name: Seq<char>| #[trigger] named(t, name) == named(entry_views(all.subrange(0, k + 1)), name) by {
                    lemma_named_insert(o, p as int, ev, name);
                    lemma_named_push(entry_views(all.subrange(0, k as int)), ev, name);
                }
                vstd::seq_lib::to_multiset_insert(o, p as int, ev);
                assert(entry_views(all.subrange(0, k + 1)) =~= entry_views(all.subrange(0, k as int)).push(ev));
                vstd::seq_lib::to_multiset_build(entry_views(all.subrange(0, k as int)), ev);
                assert forall|i: int, j: int| 0 <= i < j < t.len() implies !goes_before(#[trigger] t[j], #[trigger] t[i]) by {
                    if j < p {
                        assert(t[i] == o[i] && t[j] == o[j]);
                    } else if j == p {
                        assert(t[i] == o[i]);
                    } else if i < p {
                        assert(t[i] == o[i] && t[j] == o[j - 1]);
                    } else if i == p {
                        assert(t[j] == o[j - 1]);
                        assert(goes_before(ev, o[p as int]));
                        if j - 1 > p {
                            assert(!goes_before(o[j - 1], o[p as int]));
                            if goes_before(o[j - 1], ev) {
                                lemma_before_transitive(o[j - 1], ev, o[p as int]);
                            }
                        } else {
                            lemma_before_asymmetric(ev, o[p as int]);
                        }
                    } else {
                        assert(t[i] == o[i - 1] && t[j] == o[j - 1]);
                    }
                }
            }
            k += 1;
            assert(rest@ =~= all.subrange(k as int, all.len() as int));
        }
        assert(all.subrange(0, k as int) =~= all);
        QuestIndex { by_length: out }
    }

    /// How many quests the index holds.
    pub fn len(&self) -> (r: usize)
        ensures
            r == self.entries().len(),
    {
        self.by_length.len()
    }
}

/// `n` spaces.
pub open spec fn spaces(n: nat) -> Seq<char> {
    Seq::new(n, |i: int| ' ')
}

/// The loot type of a link to a quest: a raid's drops are raid loot, otherwise a drop text
/// mentioning a reward is reward loot, and anything else a chest.
pub open spec fn loot_type_of(is_raid: bool, reward: bool) -> LootType {
    if is_raid {
        LootType::Raid
    } else if reward {
        LootType::Reward
    } else {
        LootType::Chest
    }
}

/// One quest against the remaining drop text: a non-empty name found in it is linked and then
/// blanked out (replaced by as many spaces as it has bytes), so a shorter name nested inside it
/// does not also match.
pub open spec fn link_step(
    st: (Seq<char>, Seq<(i64, LootType)>),
    e: QuestEntryView,
    reward: bool,
) -> (Seq<char>, Seq<(i64, LootType)>) {
    let (text, links) = st;
    if e.0.len() == 0 || !contains(text, e.0) {
        st
    } else {
        (replace_all(text, e.0, spaces(byte_len(e.0) as nat)), links.push((e.1, loot_type_of(e.2, reward))))
    }
}

/// The remaining text and the links after the first entries of the index.
pub open spec fn quest_links(entries: Seq<QuestEntryView>, drop: Seq<char>) -> (Seq<char>, Seq<(i64, LootType)>)
    decreases entries.len(),
{
    if entries.len() == 0 {
        (drop, Seq::empty())
    } else {
        link_step(
            quest_links(entries.drop_last(), drop),
            entries.last(),
            contains(unicode_lower(drop), "reward"@),
        )
    }
}

fn spaces_exec(n: usize) -> (r: Vec<char>)
    ensures
        r@ == spaces(n as nat),
{
    let mut r: Vec<char> = Vec::new();
    let mut k: usize = 0;
    while k < n
        invariant
            k <= n,
            r@ =~= spaces(k as nat),
        decreases n - k,
    {
        r.push(' ');
        k += 1;
    }
    r
}

impl QuestIndex {
    /// The quests an item's drop text names, as `(quests.id, loot type)`, longest name first.
    pub fn links(&self, drop: &str) -> (r: Vec<(i64, LootType)>)
        ensures
            r@ == quest_links(self.entries(), drop@).1,
    {
        let dc = chars_of(drop);
        let lower = to_lowercase(dc.as_slice());
        let rw = chars_of("reward");
        let reward = contains_exec(lower.as_slice(), rw.as_slice());
        let mut text = chars_of(drop);
        let mut out: Vec<(i64, LootType)> = Vec::new();
        let ghost es = self.entries();
        let mut k: usize = 0;
        assert(es.subrange(0, 0) =~= Seq::<QuestEntryView>::empty());
        while k < self.by_length.len()
            invariant
                k <= es.len(),
                es == self.entries(),
                reward == contains(unicode_lower(drop@), "reward"@),
                (text@, out@) == quest_links(es.subrange(0, k as int), drop@),
            decreases es.len() - k,
        {
            assert(es.subrange(0, k + 1).drop_last() =~= es.subrange(0, k as int));
            assert(es.subrange(0, k + 1).last() == es[k as int]);
            let e = &self.by_length[k];
            let name = chars_of(e.0.as_str());
            if name.len() > 0 && contains_exec(text.as_slice(), name.as_slice()) {
                let blank = spaces_exec(e.0.as_str().len());
                text = replace_chars(text.as_slice(), name.as_slice(), blank.as_slice());
                let loot = if e.2 {
                    LootType::Raid
                } else if reward {
                    LootType::Reward
                } else {
                    LootType::Chest
                };
                out.push((e.1, loot));
            }
            k += 1;
        }
        assert(es.subrange(0, es.len() as int) =~= es);
        out
    }
}

/// Every link names a quest of the index with the loot type its kind gives: a raid's drops are
/// raid loot whatever the text says; a non-raid quest's drops are reward loot when the drop text
/// mentions a reward (in any case), chest loot otherwise.
pub proof fn links_follow_the_quest_kind(entries: Seq<QuestEntryView>, drop: Seq<char>)
    ensures
        forall|k: int|
            0 <= k < quest_links(entries, drop).1.len() ==> exists|i: int|
                0 <= i < entries.len() && (#[trigger] entries[i]).1 == (#[trigger] quest_links(entries, drop).1[k]).0
                    && quest_links(entries, drop).1[k].1 == if entries[i].2 {
                    LootType::Raid
                } else if contains(unicode_lower(drop), "reward"@) {
                    LootType::Reward
                } else {
                    LootType::Chest
                },
    decreases entries.len(),
{
    if entries.len() > 0 {
        let rest = entries.drop_last();
        links_follow_the_quest_kind(rest, drop);
        let before = quest_links(rest, drop).1;
        let after = quest_links(entries, drop).1;
        assert forall|k: int| 0 <= k < after.len() implies exists|i: int|
            0 <= i < entries.len() && (#[trigger] entries[i]).1 == (#[trigger] after[k]).0 && after[k].1 == if entries[i].2 {
                LootType::Raid
            } else if contains(unicode_lower(drop), "reward"@) {
                LootType::Reward
            } else {
                LootType::Chest
            } by {
            if k < before.len() {
                assert(after[k] == before[k]);
                let i = choose|i: int|
                    0 <= i < rest.len() && (#[trigger] rest[i]).1 == (#[trigger] before[k]).0 && before[k].1 == if rest[i].2 {
                        LootType::Raid
                    } else if contains(unicode_lower(drop), "reward"@) {
                        LootType::Reward
                    } else {
                        LootType::Chest
                    };
                assert(entries[i] == rest[i]);
            } else {
                let i = entries.len() - 1;
                assert(entries[i] == entries.last());
            }
        }
    }
}

} // verus!
