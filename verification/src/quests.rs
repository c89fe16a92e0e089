use vstd::prelude::*;
use crate::app::App;
use crate::model::{PlayerState, PlayerView, Quest, QuestView};

verus! {

pub open spec fn quests_view(quests: Seq<Quest>) -> Seq<QuestView> {
    quests.map_values(|q: Quest| q@)
}

/// Some quest of `qs` has the id `id`.
pub open spec fn has_quest_id(qs: Seq<QuestView>, id: Seq<char>) -> bool {
    exists|j: int| 0 <= j < qs.len() && #[trigger] qs[j].id == id
}

/// Quest `i` repeats the id of an earlier quest.
pub open spec fn duplicate_before(qs: Seq<QuestView>, i: int) -> bool {
    exists|j: int| 0 <= j < i && #[trigger] qs[j].id == qs[i].id
}

/// Quest `i` names a prerequisite that no quest of `qs` has as its id.
pub open spec fn missing_prerequisite(qs: Seq<QuestView>, i: int) -> bool {
    match qs[i].prerequisite {
        Some(r) => !has_quest_id(qs, r),
        None => false,
    }
}

/// A quest catalogue the plugin accepts: every objective asks for a positive amount,
/// no two quests share an id, and every prerequisite is a quest of the catalogue.
pub open spec fn catalogue_valid(qs: Seq<QuestView>) -> bool {
    forall|i: int|
        0 <= i < qs.len() ==> {
            &&& #[trigger] qs[i].amount > 0
            &&& !duplicate_before(qs, i)
            &&& !missing_prerequisite(qs, i)
        }
}

/// The first error of the pass that checks amounts and ids, from quest `k` on.
pub open spec fn amount_or_id_error(qs: Seq<QuestView>, k: int) -> Option<Seq<char>>
    decreases qs.len() - k,
{
    if k < 0 || k >= qs.len() {
        None
    } else if qs[k].amount == 0 {
        Some("quest "@ + qs[k].id + " has zero objective amount"@)
    } else if duplicate_before(qs, k) {
        Some("duplicate quest id: "@ + qs[k].id)
    } else {
        amount_or_id_error(qs, k + 1)
    }
}

/// The first error of the pass that checks prerequisites, from quest `k` on.
pub open spec fn prerequisite_error(qs: Seq<QuestView>, k: int) -> Option<Seq<char>>
    decreases qs.len() - k,
{
    if k < 0 || k >= qs.len() {
        None
    } else if missing_prerequisite(qs, k) {
        Some(
            "quest "@ + qs[k].id + " references missing prerequisite "@
                + qs[k].prerequisite.unwrap(),
        )
    } else {
        prerequisite_error(qs, k + 1)
    }
}

/// The error a catalogue is refused with: amounts and ids are checked first, quest
/// by quest, then prerequisites.
pub open spec fn catalogue_error(qs: Seq<QuestView>) -> Option<Seq<char>> {
    match amount_or_id_error(qs, 0) {
        Some(e) => Some(e),
        None => prerequisite_error(qs, 0),
    }
}

proof fn lemma_amount_or_id_error(qs: Seq<QuestView>, k: int)
    requires
        0 <= k <= qs.len(),
    ensures
        amount_or_id_error(qs, k) is None <==> forall|i: int|
            k <= i < qs.len() ==> #[trigger] qs[i].amount > 0 && !duplicate_before(qs, i),
    decreases qs.len() - k,
{
    if k < qs.len() {
        lemma_amount_or_id_error(qs, k + 1);
    }
}

proof fn lemma_prerequisite_error(qs: Seq<QuestView>, k: int)
    requires
        0 <= k <= qs.len(),
    ensures
        prerequisite_error(qs, k) is None <==> forall|i: int|
            k <= i < qs.len() ==> !#[trigger] missing_prerequisite(qs, i),
    decreases qs.len() - k,
{
    if k < qs.len() {
        lemma_prerequisite_error(qs, k + 1);
    }
}

/// A catalogue is refused exactly when it is not valid.
pub proof fn lemma_catalogue_error_iff_invalid(qs: Seq<QuestView>)
    ensures
        catalogue_error(qs) is None <==> catalogue_valid(qs),
{
    lemma_amount_or_id_error(qs, 0);
    lemma_prerequisite_error(qs, 0);
    if catalogue_error(qs) is None {
        assert forall|i: int| 0 <= i < qs.len() implies {
            &&& #[trigger] qs[i].amount > 0
            &&& !duplicate_before(qs, i)
            &&& !missing_prerequisite(qs, i)
        } by {
            assert(qs[i].amount > 0 && !duplicate_before(qs, i));
            assert(!missing_prerequisite(qs, i));
        }
    } else if catalogue_valid(qs) {
        assert forall|i: int| 0 <= i < qs.len() implies #[trigger] qs[i].amount > 0
            && !duplicate_before(qs, i) by {
            assert(qs[i].amount > 0);
        }
        assert forall|i: int| 0 <= i < qs.len() implies !#[trigger] missing_prerequisite(
            qs,
            i,
        ) by {
            assert(qs[i].amount > 0);
        }
    }
}

/// Whether some quest of `quests` has the id `id`.
fn catalogue_has_id(quests: &Vec<Quest>, id: &String, end: usize) -> (r: bool)
    requires
        end <= quests.len(),
    ensures
        r == exists|j: int| 0 <= j < end && #[trigger] quests_view(quests@)[j].id == id@,
{
    let ghost qs = quests_view(quests@);
    let mut j: usize = 0;
    while j < end
        invariant
            qs == quests_view(quests@),
            end <= quests.len(),
            j <= end,
            forall|k: int| 0 <= k < j ==> #[trigger] qs[k].id != id@,
        decreases end - j,
    {
        if quests[j].id == *id {
            assert(qs[j as int].id == id@);
            return true;
        }
        j = j + 1;
    }
    false
}

fn concat3(a: &str, b: &str, c: &str) -> (r: String)
    ensures
        r@ == a@ + b@ + c@,
{
    let mut r = String::from_str(a);
    r.append(b);
    r.append(c);
    r
}

impl App {
    /// Checks a quest catalogue before it is used: every objective must ask for a
    /// positive amount, ids must be unique and prerequisites must exist. The error
    /// names the first offending quest.
    pub fn validate_quests(quests: &Vec<Quest>) -> (r: Result<(), String>)
        ensures
            match r {
                Ok(()) => catalogue_error(quests_view(quests@)) is None,
                Err(e) => catalogue_error(quests_view(quests@)) == Some(e@),
            },
            r is Ok <==> catalogue_valid(quests_view(quests@)),
    {
        let ghost qs = quests_view(quests@);
        proof {
            lemma_catalogue_error_iff_invalid(qs);
        }
        let n = quests.len();
        let mut i: usize = 0;
        while i < n
            invariant
                qs == quests_view(quests@),
                n == quests.len(),
                i <= n,
                catalogue_error(qs) is None <==> catalogue_valid(qs),
                amount_or_id_error(qs, 0) == amount_or_id_error(qs, i as int),
            decreases n - i,
        {
            let q = &quests[i];
            if q.objective.amount == 0 {
                return Err(concat3("quest ", q.id.as_str(), " has zero objective amount"));
            }
            if catalogue_has_id(quests, &q.id, i) {
                let mut e = String::from_str("duplicate quest id: ");
                e.append(q.id.as_str());
                return Err(e);
            }
            i = i + 1;
        }
        let mut i: usize = 0;
        while i < n
            invariant
                qs == quests_view(quests@),
                n == quests.len(),
                i <= n,
                catalogue_error(qs) is None <==> catalogue_valid(qs),
                amount_or_id_error(qs, 0) is None,
                prerequisite_error(qs, 0) == prerequisite_error(qs, i as int),
            decreases n - i,
        {
            let q = &quests[i];
            match &q.prerequisite {
                Some(required) => {
                    if !catalogue_has_id(quests, required, n) {
                        let mut e = concat3(
                            "quest ",
                            q.id.as_str(),
                            " references missing prerequisite ",
                        );
                        e.append(required.as_str());
                        assert(prerequisite_error(qs, i as int) == Some(e@));
                        assert(catalogue_error(qs) == Some(e@));
                        return Err(e);
                    }
                },
                None => {},
            }
            i = i + 1;
        }
        Ok(())
    }
}

/// The player may accept the quest: the level is high enough and the prerequisite,
/// if any, is completed.
pub open spec fn unlocked(s: PlayerView, q: QuestView) -> bool {
    &&& s.level >= q.required_level
    &&& match q.prerequisite {
        Some(r) => s.has_completed(r),
        None => true,
    }
}

/// The status shown for a quest, given the progress recorded for it.
pub open spec fn status_text(s: PlayerView, q: QuestView, progress: u64) -> Seq<char> {
    if s.has_completed(q.id) {
        "COMPLETED"@
    } else if s.is_active(q.id) && progress >= q.amount {
        "READY TO CLAIM"@
    } else if s.is_active(q.id) {
        "ACTIVE"@
    } else if unlocked(s, q) {
        "AVAILABLE"@
    } else {
        "LOCKED"@
    }
}

/// Whether the player meets the quest's level and prerequisite.
pub fn quest_is_unlocked(state: &PlayerState, quest: &Quest) -> (r: bool)
    ensures
        r == unlocked(state@, quest@),
{
    state.level >= quest.required_level && match &quest.prerequisite {
        Some(required) => state.has_completed(required),
        None => true,
    }
}

/// The status label of a quest in the journal.
pub fn quest_status(state: &PlayerState, quest: &Quest, progress: u64) -> (r: &'static str)
    ensures
        r@ == status_text(state@, quest@, progress),
{
    if state.has_completed(&quest.id) {
        "COMPLETED"
    } else if state.is_active(&quest.id) && progress >= quest.objective.amount {
        "READY TO CLAIM"
    } else if state.is_active(&quest.id) {
        "ACTIVE"
    } else if quest_is_unlocked(state, quest) {
        "AVAILABLE"
    } else {
        "LOCKED"
    }
}

} // verus!
