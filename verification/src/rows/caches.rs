//! Ids of rows already written, by name, so that a name met again reuses its row. The first
//! definition of a name wins: a later one is reported as a duplicate and changes nothing.

use vstd::prelude::*;
use crate::model::FeatSource;
use crate::text::{chars_eq, chars_of, trim, trim_str};

verus! {

/// `(name, id)` pairs with the name as characters.
pub open spec fn name_views(v: Seq<(String, i64)>) -> Seq<(Seq<char>, i64)> {
    v.map_values(|e: (String, i64)| (e.0@, e.1))
}

/// No name occurs twice.
pub open spec fn distinct_names(s: Seq<(Seq<char>, i64)>) -> bool {
    forall|i: int, j: int| 0 <= i < j < s.len() ==> (#[trigger] s[i]).0 != (#[trigger] s[j]).0
}

/// Some entry carries `name`.
pub open spec fn has_name(s: Seq<(Seq<char>, i64)>, name: Seq<char>) -> bool {
    exists|i: int| 0 <= i < s.len() && (#[trigger] s[i]).0 == name
}

/// The id of the first entry carrying `name`.
pub open spec fn id_of(s: Seq<(Seq<char>, i64)>, name: Seq<char>) -> Option<i64>
    decreases s.len(),
{
    if s.len() == 0 {
        None
    } else if s[0].0 == name {
        Some(s[0].1)
    } else {
        id_of(s.drop_first(), name)
    }
}

/// The entries after storing `id` under `name`: unchanged when the name is known.
pub open spec fn stored(s: Seq<(Seq<char>, i64)>, name: Seq<char>, id: i64) -> Seq<(Seq<char>, i64)> {
    if has_name(s, name) {
        s
    } else {
        s.push((name, id))
    }
}

/// A name has an id exactly when some entry carries it.
pub proof fn lemma_id_of_has_name(s: Seq<(Seq<char>, i64)>, name: Seq<char>)
    ensures
        (id_of(s, name) is Some) == has_name(s, name),
        id_of(s, name) matches Some(id) ==> exists|i: int| 0 <= i < s.len() && s[i] == (name, id),
    decreases s.len(),
{
    if s.len() > 0 {
        lemma_id_of_has_name(s.drop_first(), name);
        if s[0].0 != name {
            if has_name(s, name) {
                let i = choose|i: int| 0 <= i < s.len() && (#[trigger] s[i]).0 == name;
                assert(s.drop_first()[i - 1].0 == name);
            }
            if has_name(s.drop_first(), name) {
                let i = choose|i: int| 0 <= i < s.len() - 1 && (#[trigger] s.drop_first()[i]).0 == name;
                assert(s[i + 1].0 == name);
            }
            if id_of(s, name) is Some {
                let id = id_of(s, name)->0;
                let i = choose|i: int| 0 <= i < s.len() - 1 && #[trigger] s.drop_first()[i] == (name, id);
                assert(s[i + 1] == (name, id));
            }
        } else {
            assert(s[0] == (name, s[0].1));
        }
    }
}

/// Appending an entry changes no id already found.
pub proof fn lemma_id_of_push(s: Seq<(Seq<char>, i64)>, e: (Seq<char>, i64), name: Seq<char>)
    ensures
        id_of(s.push(e), name) == (match id_of(s, name) {
            Some(id) => Some(id),
            None => if e.0 == name {
                Some(e.1)
            } else {
                None
            },
        }),
    decreases s.len(),
{
    if s.len() > 0 {
        let t = s.push(e);
        assert(t[0] == s[0]);
        assert(t.drop_first() =~= s.drop_first().push(e));
        lemma_id_of_push(s.drop_first(), e, name);
        if s[0].0 == name {
            assert(id_of(t, name) == Some(s[0].1));
            assert(id_of(s, name) == Some(s[0].1));
        } else {
            assert(id_of(t, name) == id_of(t.drop_first(), name));
            assert(id_of(s, name) == id_of(s.drop_first(), name));
        }
    } else {
        let t = s.push(e);
        assert(t[0] == e);
        assert(t.drop_first() =~= Seq::<(Seq<char>, i64)>::empty());
        assert(id_of(t.drop_first(), name) is None);
        assert(id_of(s, name) is None);
    }
}

/// A name met again keeps the id it was first stored with; a new name gets the id stored with
/// it; no other name's id changes.
pub proof fn stored_name_keeps_first_id(s: Seq<(Seq<char>, i64)>, name: Seq<char>, id: i64, other: Seq<char>)
    ensures
        id_of(stored(s, name, id), other) == (if other == name {
            match id_of(s, name) {
                Some(first) => Some(first),
                None => Some(id),
            }
        } else {
            id_of(s, other)
        }),
{
    lemma_id_of_has_name(s, name);
    if !has_name(s, name) {
        lemma_id_of_push(s, (name, id), other);
    }
}

/// Row ids by name, in the order the names were first met.
pub struct NameIndex {
    entries: Vec<(String, i64)>,
}

impl View for NameIndex {
    type V = Seq<(Seq<char>, i64)>;

    closed spec fn view(&self) -> Seq<(Seq<char>, i64)> {
        name_views(self.entries@)
    }
}

impl NameIndex {
    /// Each name occurs once.
    pub closed spec fn wf(&self) -> bool {
        distinct_names(self@)
    }

    pub fn new() -> (r: NameIndex)
        ensures
            r.wf(),
            r@ == Seq::<(Seq<char>, i64)>::empty(),
    {
        let r = NameIndex { entries: Vec::new() };
        assert(r@ =~= Seq::<(Seq<char>, i64)>::empty());
        r
    }

    /// How many names are known.
    pub fn len(&self) -> (r: usize)
        ensures
            r == self@.len(),
    {
        self.entries.len()
    }

    /// The id stored under `name`, if any.
    pub fn get(&self, name: &str) -> (r: Option<i64>)
        ensures
            r == id_of(self@, name@),
    {
        let key = chars_of(name);
        let mut i: usize = 0;
        assert(self@.skip(0) =~= self@);
        while i < self.entries.len()
            invariant
                i <= self.entries@.len(),
                key@ == name@,
                self@ == name_views(self.entries@),
                id_of(self@, name@) == id_of(self@.skip(i as int), name@),
            decreases self.entries.len() - i,
        {
            let ghost rest = self@.skip(i as int);
            assert(rest[0] == self@[i as int]);
            assert(rest.drop_first() =~= self@.skip(i + 1));
            let ek = chars_of(self.entries[i].0.as_str());
            if chars_eq(ek.as_slice(), key.as_slice()) {
                return Some(self.entries[i].1);
            }
            i = i + 1;
        }
        assert(self@.skip(i as int) =~= Seq::<(Seq<char>, i64)>::empty());
        None
    }

    /// Store `id` under `name` unless the name is already known. True when it was new; a known
    /// name keeps its first id.
    pub fn insert(&mut self, name: &str, id: i64) -> (r: bool)
        requires
            old(self).wf(),
        ensures
            final(self).wf(),
            r == !has_name(old(self)@, name@),
            final(self)@ == stored(old(self)@, name@, id),
    {
        proof {
            lemma_id_of_has_name(self@, name@);
        }
        match self.get(name) {
            Some(_) => false,
            None => {
                let ghost before = self@;
                self.entries.push((name.to_string(), id));
                assert(self@ =~= before.push((name@, id)));
                true
            },
        }
    }
}

/// `(name, source, source id, feats.id)` with the name as characters.
pub type FeatKeyView = (Seq<char>, FeatSource, Option<i64>, i64);

pub open spec fn feat_views(v: Seq<(String, FeatSource, Option<i64>, i64)>) -> Seq<FeatKeyView> {
    v.map_values(|e: (String, FeatSource, Option<i64>, i64)| (e.0@, e.1, e.2, e.3))
}

/// The id of the first entry with this name, source and source id.
pub open spec fn feat_lookup(s: Seq<FeatKeyView>, name: Seq<char>, source: FeatSource, source_id: Option<i64>) -> Option<i64>
    decreases s.len(),
{
    if s.len() == 0 {
        None
    } else if s[0].0 == name && s[0].1 == source && s[0].2 == source_id {
        Some(s[0].3)
    } else {
        feat_lookup(s.drop_first(), name, source, source_id)
    }
}

/// A name referenced by a race or class: that source's own feat first, then the standard one.
pub open spec fn feat_resolution(s: Seq<FeatKeyView>, name: Seq<char>, source: FeatSource, source_id: i64) -> Option<i64> {
    match feat_lookup(s, trim(name), source, Some(source_id)) {
        Some(id) => Some(id),
        None => feat_lookup(s, trim(name), FeatSource::Standard, None),
    }
}

/// Recording a feat keeps any earlier feat with the same name, source and source id: a lookup
/// finds the first recorded, and finds the new one when there was none.
pub proof fn recorded_feat_is_found_first(
    s: Seq<FeatKeyView>,
    e: FeatKeyView,
    name: Seq<char>,
    source: FeatSource,
    source_id: Option<i64>,
)
    ensures
        feat_lookup(s.push(e), name, source, source_id) == (match feat_lookup(s, name, source, source_id) {
            Some(id) => Some(id),
            None => if e.0 == name && e.1 == source && e.2 == source_id {
                Some(e.3)
            } else {
                None
            },
        }),
    decreases s.len(),
{
    let t = s.push(e);
    if s.len() > 0 {
        assert(t[0] == s[0]);
        assert(t.drop_first() =~= s.drop_first().push(e));
        recorded_feat_is_found_first(s.drop_first(), e, name, source, source_id);
    } else {
        assert(t[0] == e);
        assert(t.drop_first() =~= Seq::<FeatKeyView>::empty());
        assert(feat_lookup(t.drop_first(), name, source, source_id) is None);
    }
}

/// Feat ids by name and where the feat is defined.
pub struct FeatIndex {
    entries: Vec<(String, FeatSource, Option<i64>, i64)>,
}

impl View for FeatIndex {
    type V = Seq<FeatKeyView>;

    closed spec fn view(&self) -> Seq<FeatKeyView> {
        feat_views(self.entries@)
    }
}

impl FeatIndex {
    pub fn new() -> (r: FeatIndex)
        ensures
            r@ == Seq::<FeatKeyView>::empty(),
    {
        let r = FeatIndex { entries: Vec::new() };
        assert(r@ =~= Seq::<FeatKeyView>::empty());
        r
    }

    /// The id of the first feat recorded with this name, source and source id.
    fn lookup(&self, name: &[char], source: FeatSource, source_id: Option<i64>) -> (r: Option<i64>)
        ensures
            r == feat_lookup(self@, name@, source, source_id),
    {
        let mut i: usize = 0;
        assert(self@.skip(0) =~= self@);
        while i < self.entries.len()
            invariant
                i <= self.entries@.len(),
                self@ == feat_views(self.entries@),
                feat_lookup(self@, name@, source, source_id) == feat_lookup(self@.skip(i as int), name@, source, source_id),
            decreases self.entries.len() - i,
        {
            let ghost rest = self@.skip(i as int);
            assert(rest[0] == self@[i as int]);
            assert(rest.drop_first() =~= self@.skip(i + 1));
            let e = &self.entries[i];
            let ek = chars_of(e.0.as_str());
            if chars_eq(ek.as_slice(), name) && e.1 == source && e.2 == source_id {
                return Some(e.3);
            }
            i = i + 1;
        }
        proof {
            assert(self@.skip(i as int) =~= Seq::<FeatKeyView>::empty());
        }
        None
    }

    /// Record a feat's id. A feat already recorded under the same name, source and source id
    /// keeps its id: lookups find the first.
    pub fn insert(&mut self, name: &str, source: FeatSource, source_id: Option<i64>, id: i64)
        ensures
            final(self)@ == old(self)@.push((name@, source, source_id, id)),
    {
        let ghost before = self@;
        self.entries.push((name.to_string(), source, source_id, id));
        assert(self@ =~= before.push((name@, source, source_id, id)));
    }

    /// A feat named by a race or class: the source's own definition first, then the standard
    /// list. The name is trimmed.
    pub fn resolve(&self, name: &str, source: FeatSource, source_id: i64) -> (r: Option<i64>)
        ensures
            r == feat_resolution(self@, name@, source, source_id),
    {
        let t = chars_of(trim_str(name).as_str());
        match self.lookup(t.as_slice(), source, Some(source_id)) {
            Some(id) => Some(id),
            None => self.lookup(t.as_slice(), FeatSource::Standard, None),
        }
    }
}

/// What a `bonuses` row is found again by: stat id, bonus type id, value, second value.
pub type BonusKey = (i64, Option<i64>, Option<i64>, Option<i64>);

/// The id of the first entry with this key.
pub open spec fn bonus_lookup(s: Seq<(BonusKey, i64)>, key: BonusKey) -> Option<i64>
    decreases s.len(),
{
    if s.len() == 0 {
        None
    } else if s[0].0 == key {
        Some(s[0].1)
    } else {
        bonus_lookup(s.drop_first(), key)
    }
}

/// Storing a bonus row keeps any earlier row with the same key: a lookup finds the first
/// stored, and finds the new one when there was none.
pub proof fn stored_bonus_is_found_first(s: Seq<(BonusKey, i64)>, e: (BonusKey, i64), key: BonusKey)
    ensures
        bonus_lookup(s.push(e), key) == (match bonus_lookup(s, key) {
            Some(id) => Some(id),
            None => if e.0 == key {
                Some(e.1)
            } else {
                None
            },
        }),
    decreases s.len(),
{
    let t = s.push(e);
    if s.len() > 0 {
        assert(t[0] == s[0]);
        assert(t.drop_first() =~= s.drop_first().push(e));
        stored_bonus_is_found_first(s.drop_first(), e, key);
    } else {
        assert(t[0] == e);
        assert(t.drop_first() =~= Seq::<(BonusKey, i64)>::empty());
        assert(bonus_lookup(t.drop_first(), key) is None);
    }
}

fn same_opt(a: Option<i64>, b: Option<i64>) -> (r: bool)
    ensures
        r == (a == b),
{
    match (a, b) {
        (Some(x), Some(y)) => x == y,
        (None, None) => true,
        _ => false,
    }
}

fn same_key(a: &BonusKey, b: &BonusKey) -> (r: bool)
    ensures
        r == (*a == *b),
{
    a.0 == b.0 && same_opt(a.1, b.1) && same_opt(a.2, b.2) && same_opt(a.3, b.3)
}

/// `bonuses` row ids by (stat, bonus type, value, value2), so that equal bonuses share a row.
pub struct BonusIndex {
    entries: Vec<(BonusKey, i64)>,
}

impl View for BonusIndex {
    type V = Seq<(BonusKey, i64)>;

    closed spec fn view(&self) -> Seq<(BonusKey, i64)> {
        self.entries@
    }
}

impl BonusIndex {
    pub fn new() -> (r: BonusIndex)
        ensures
            r@ == Seq::<(BonusKey, i64)>::empty(),
    {
        BonusIndex { entries: Vec::new() }
    }

    /// How many bonus rows are known.
    pub fn len(&self) -> (r: usize)
        ensures
            r == self@.len(),
    {
        self.entries.len()
    }

    /// The id of the row stored under `key`, if any.
    pub fn get(&self, key: &BonusKey) -> (r: Option<i64>)
        ensures
            r == bonus_lookup(self@, *key),
    {
        let mut i: usize = 0;
        assert(self@.skip(0) =~= self@);
        while i < self.entries.len()
            invariant
                i <= self.entries@.len(),
                bonus_lookup(self@, *key) == bonus_lookup(self@.skip(i as int), *key),
            decreases self.entries.len() - i,
        {
            let ghost rest = self@.skip(i as int);
            assert(rest[0] == self@[i as int]);
            assert(rest.drop_first() =~= self@.skip(i + 1));
            if same_key(&self.entries[i].0, key) {
                return Some(self.entries[i].1);
            }
            i = i + 1;
        }
        assert(self@.skip(i as int) =~= Seq::<(BonusKey, i64)>::empty());
        None
    }

    /// Store `id` under `key` unless the key is already known. True when it was new; a known key
    /// keeps its first id.
    pub fn insert(&mut self, key: BonusKey, id: i64) -> (r: bool)
        ensures
            r == (bonus_lookup(old(self)@, key) is None),
            final(self)@ == if r {
                old(self)@.push((key, id))
            } else {
                old(self)@
            },
    {
        match self.get(&key) {
            Some(_) => false,
            None => {
                self.entries.push((key, id));
                true
            },
        }
    }
}

} // verus!
