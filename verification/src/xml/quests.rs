//! `Quests.xml`: every quest and adventure zone with its patron, pack, favor and levels.

use vstd::prelude::*;
use crate::text::{trim, trim_str, words};
use crate::xml::{ints_of, Empty, Vector};

verus! {

/// A `<Quest>` element as written.
#[derive(Debug, Clone, PartialEq, Eq)]
pub struct RawQuest {
    pub name: String,
    pub patron: Option<String>,
    pub adventure_pack: Option<String>,
    pub favor: Option<i64>,
    /// `<Levels size="2">6 21</Levels>`: heroic level, then epic level if the quest has one.
    pub levels: Option<Vector>,
    pub is_raid: Option<Empty>,
    pub do_not_show: Option<Empty>,
}

#[derive(Debug, Clone, PartialEq, Eq)]
pub struct Quest {
    pub name: String,
    pub patron: Option<String>,
    pub adventure_pack: Option<String>,
    pub favor: Option<i64>,
    pub levels: Vec<i64>,
    pub is_raid: bool,
    /// Adventure zones and other entries upstream hides from its own quest list.
    pub do_not_show: bool,
}

/// A quest whose `<Levels>` holds a word that is not an integer.
#[derive(Debug, Clone, PartialEq, Eq)]
pub struct QuestError {
    /// The quest's name as written.
    pub quest: String,
    /// The offending word.
    pub level: String,
}

/// The levels a raw quest lists, or the first word that is not an integer.
pub open spec fn levels_of(raw: RawQuest) -> Result<Seq<i64>, Seq<char>> {
    match raw.levels {
        Some(v) => ints_of(words(v.text@)),
        None => Ok(Seq::empty()),
    }
}

/// The quest a raw quest with these levels reads as: the name trimmed, a patron of `None`
/// dropped, the flags set by presence.
pub open spec fn quest_of(raw: RawQuest, levels: Seq<i64>, q: Quest) -> bool {
    &&& q.name@ == trim(raw.name@)
    &&& q.patron == match raw.patron {
        Some(p) => if p@ == "None"@ {
            None
        } else {
            Some(p)
        },
        None => None,
    }
    &&& q.adventure_pack == raw.adventure_pack
    &&& q.favor == raw.favor
    &&& q.levels@ == levels
    &&& q.is_raid == raw.is_raid is Some
    &&& q.do_not_show == raw.do_not_show is Some
}

/// The first quest of the list whose levels do not read, with the offending word.
pub open spec fn first_bad_quest(raws: Seq<RawQuest>) -> Option<(Seq<char>, Seq<char>)>
    decreases raws.len(),
{
    if raws.len() == 0 {
        None
    } else {
        match first_bad_quest(raws.drop_last()) {
            Some(e) => Some(e),
            None => match levels_of(raws.last()) {
                Err(w) => Some((raws.last().name@, w)),
                Ok(_) => None,
            },
        }
    }
}

impl Quest {
    /// Read a raw quest. Rejected when a level is not an integer.
    pub fn try_from(raw: RawQuest) -> (r: Result<Quest, QuestError>)
        ensures
            match r {
                Ok(q) => levels_of(raw) is Ok && quest_of(raw, levels_of(raw)->Ok_0, q),
                Err(e) => levels_of(raw) == Err::<Seq<i64>, Seq<char>>(e.level@) && e.quest@ == raw.name@,
            },
    {
        let levels = match &raw.levels {
            Some(v) => match v.integers() {
                Ok(l) => l,
                Err(w) => return Err(QuestError { quest: raw.name.clone(), level: w }),
            },
            None => Vec::new(),
        };
        proof {
            reveal_strlit("None");
        }
        let patron = match raw.patron {
            Some(p) => if crate::text::eq_str(crate::text::chars_of(p.as_str()).as_slice(), "None") {
                None
            } else {
                Some(p)
            },
            None => None,
        };
        let q = Quest {
            name: trim_str(raw.name.as_str()),
            patron,
            adventure_pack: raw.adventure_pack,
            favor: raw.favor,
            levels,
            is_raid: raw.is_raid.is_some(),
            do_not_show: raw.do_not_show.is_some(),
        };
        assert(raw.levels is None ==> q.levels@ =~= Seq::<i64>::empty());
        Ok(q)
    }
}

/// Read every quest of `Quests.xml`, in order. Rejected at the first quest whose levels do not
/// read.
pub fn parse(raws: Vec<RawQuest>) -> (r: Result<Vec<Quest>, QuestError>)
    ensures
        match r {
            Ok(qs) => first_bad_quest(raws@) is None && qs@.len() == raws@.len() && forall|i: int|
                0 <= i < qs@.len() ==> quest_of(raws@[i], levels_of(raws@[i])->Ok_0, #[trigger] qs@[i]),
            Err(e) => first_bad_quest(raws@) == Some((e.quest@, e.level@)),
        },
{
    let mut out: Vec<Quest> = Vec::new();
    let mut rest = raws;
    let ghost all = rest@;
    let n = rest.len();
    let mut k: usize = 0;
    while rest.len() > 0
        invariant
            k + rest@.len() == all.len(),
            n == all.len(),
            all == raws@,
            rest@ == all.subrange(k as int, all.len() as int),
            first_bad_quest(all.subrange(0, k as int)) is None,
            out@.len() == k,
            forall|i: int| 0 <= i < k ==> levels_of(all[i]) is Ok,
            forall|i: int| 0 <= i < k ==> quest_of(all[i], levels_of(all[i])->Ok_0, #[trigger] out@[i]),
        decreases rest@.len(),
    {
        let raw = rest.remove(0);
        assert(raw == all[k as int]);
        assert(all.subrange(0, k + 1).drop_last() =~= all.subrange(0, k as int));
        match Quest::try_from(raw) {
            Ok(q) => out.push(q),
            Err(e) => {
                proof {
                    assert(all.subrange(0, k + 1).last() == all[k as int]);
                    assert(first_bad_quest(all.subrange(0, k + 1)) == Some((e.quest@, e.level@)));
                    lemma_bad_quest_extends(all, k as int + 1);
                }
                return Err(e);
            },
        }
        k += 1;
        assert(rest@ =~= all.subrange(k as int, all.len() as int));
    }
    assert(all.subrange(0, k as int) =~= all);
    Ok(out)
}

/// A bad quest in a prefix is the first bad quest of the whole list.
proof fn lemma_bad_quest_extends(raws: Seq<RawQuest>, k: int)
    requires
        0 <= k <= raws.len(),
        first_bad_quest(raws.subrange(0, k)) is Some,
    ensures
        first_bad_quest(raws) == first_bad_quest(raws.subrange(0, k)),
    decreases raws.len() - k,
{
    if k < raws.len() {
        assert(raws.subrange(0, k + 1).drop_last() =~= raws.subrange(0, k));
        lemma_bad_quest_extends(raws, k + 1);
    } else {
        assert(raws.subrange(0, k) =~= raws);
    }
}

} // verus!
