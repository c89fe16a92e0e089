use vstd::prelude::*;
use crate::model::{key_index, keys_distinct, active_view, strings_view, Attributes, PlayerState, PlayerView, Quest, QuestView};
use crate::progression::{sat_add_u32, sat_add_u64};
use crate::model::ObjectiveKind;
use crate::quests::quests_view;
use crate::text::{decimal, decimal_string, normalize_id, normalized_id};

verus! {

/// The first entry with `key` is at `key_index`: no earlier entry has that key, and
/// the index is the length exactly when no entry has it.
pub proof fn lemma_key_index<V>(entries: Seq<(Seq<char>, V)>, key: Seq<char>)
    ensures
        0 <= key_index(entries, key) <= entries.len(),
        forall|j: int| 0 <= j < key_index(entries, key) ==> #[trigger] entries[j].0 != key,
        key_index(entries, key) < entries.len() ==> entries[key_index(entries, key)].0 == key,
    decreases entries.len(),
{
    if entries.len() > 0 && entries[0].0 != key {
        lemma_key_index(entries.drop_first(), key);
        assert forall|j: int| 0 <= j < key_index(entries, key) implies #[trigger] entries[j].0
            != key by {
            if j > 0 {
                assert(entries[j] == entries.drop_first()[j - 1]);
            }
        }
    }
}

/// `key_index` is the first position with the key.
pub proof fn lemma_key_index_is_first<V>(entries: Seq<(Seq<char>, V)>, key: Seq<char>, k: int)
    requires
        0 <= k <= entries.len(),
        forall|j: int| 0 <= j < k ==> #[trigger] entries[j].0 != key,
        k < entries.len() ==> entries[k].0 == key,
    ensures
        key_index(entries, key) == k,
{
    lemma_key_index(entries, key);
    let a = key_index(entries, key);
    if a < k {
        assert(entries[a].0 != key);
    } else if k < a {
        assert(entries[k].0 != key);
    }
}

/// Replacing the value of an entry keeps every key where it was.
pub proof fn lemma_key_index_update<V>(entries: Seq<(Seq<char>, V)>, i: int, v: V, key: Seq<char>)
    requires
        0 <= i < entries.len(),
    ensures
        key_index(entries.update(i, (entries[i].0, v)), key) == key_index(entries, key),
{
    let e2 = entries.update(i, (entries[i].0, v));
    lemma_key_index(entries, key);
    let k = key_index(entries, key);
    assert forall|j: int| 0 <= j < k implies #[trigger] e2[j].0 != key by {
        assert(entries[j].0 != key);
    }
    lemma_key_index_is_first(e2, key, k);
}

/// Appending an entry for a new key leaves the other keys where they were.
pub proof fn lemma_key_index_push<V>(entries: Seq<(Seq<char>, V)>, new_key: Seq<char>, v: V, key: Seq<char>)
    requires
        key_index(entries, new_key) == entries.len(),
    ensures
        key_index(entries.push((new_key, v)), new_key) == entries.len(),
        key != new_key ==> key_index(entries.push((new_key, v)), key) == if key_index(entries, key)
            < entries.len() {
            key_index(entries, key)
        } else {
            entries.len() + 1int
        },
{
    let e2 = entries.push((new_key, v));
    lemma_key_index(entries, new_key);
    lemma_key_index(entries, key);
    assert forall|j: int| 0 <= j < entries.len() implies #[trigger] e2[j].0 != new_key by {
        assert(e2[j] == entries[j]);
    }
    lemma_key_index_is_first(e2, new_key, entries.len() as int);
    if key != new_key {
        let k = key_index(entries, key);
        if k < entries.len() {
            assert forall|j: int| 0 <= j < k implies #[trigger] e2[j].0 != key by {
                assert(e2[j] == entries[j]);
            }
            lemma_key_index_is_first(e2, key, k);
        } else {
            assert forall|j: int| 0 <= j < e2.len() implies #[trigger] e2[j].0 != key by {
                if j < entries.len() {
                    assert(e2[j] == entries[j]);
                }
            }
            lemma_key_index_is_first(e2, key, e2.len() as int);
        }
    }
}

/// Appending an entry for a new key keeps the keys distinct.
pub proof fn lemma_keys_distinct_push<V>(entries: Seq<(Seq<char>, V)>, new_key: Seq<char>, v: V)
    requires
        keys_distinct(entries),
        key_index(entries, new_key) == entries.len(),
    ensures
        keys_distinct(entries.push((new_key, v))),
{
    lemma_key_index(entries, new_key);
    let e2 = entries.push((new_key, v));
    assert forall|i: int, j: int| 0 <= i < j < e2.len() implies #[trigger] e2[i].0
        != #[trigger] e2[j].0 by {
        if j == entries.len() {
            assert(e2[i] == entries[i]);
            assert(entries[i].0 != new_key);
        } else {
            assert(e2[i] == entries[i]);
            assert(e2[j] == entries[j]);
        }
    }
}

impl PlayerState {
    /// A copy of this state.
    pub fn copy(&self) -> (r: PlayerState)
        ensures
            r@ == self@,
    {
        let mut active: Vec<(String, u64)> = Vec::new();
        let n = self.active.len();
        let mut i: usize = 0;
        while i < n
            invariant
                n == self.active.len(),
                i <= n,
                active_view(active@) == active_view(self.active@).take(i as int),
            decreases n - i,
        {
            let ghost before = active@;
            let key = self.active[i].0.clone();
            assert(key@ == self.active@[i as int].0@);
            active.push((key, self.active[i].1));
            assert(active@ == before.push((key, self.active@[i as int].1)));
            assert(active_view(active@) =~= active_view(before).push(active_view(self.active@)[i as int]));
            assert(active_view(active@) =~= active_view(self.active@).take(i + 1));
            i = i + 1;
        }
        let mut completed: Vec<String> = Vec::new();
        let m = self.completed.len();
        let mut j: usize = 0;
        while j < m
            invariant
                m == self.completed.len(),
                j <= m,
                strings_view(completed@) == strings_view(self.completed@).take(j as int),
            decreases m - j,
        {
            let ghost before = completed@;
            let c = self.completed[j].clone();
            completed.push(c);
            assert(strings_view(completed@) =~= strings_view(before).push(strings_view(self.completed@)[j as int]));
            assert(strings_view(completed@) =~= strings_view(self.completed@).take(j + 1));
            j = j + 1;
        }
        assert(active_view(self.active@).take(n as int) =~= active_view(self.active@));
        assert(strings_view(self.completed@).take(m as int) =~= strings_view(self.completed@));
        PlayerState {
            level: self.level,
            xp: self.xp,
            dragon_seeds: self.dragon_seeds,
            unspent_points: self.unspent_points,
            attributes: self.attributes,
            active,
            completed,
        }
    }

    /// Whether no quest is tracked twice and none is completed twice.
    pub fn has_no_repeats(&self) -> (r: bool)
        ensures
            r == self@.no_repeats(),
    {
        let n = self.active.len();
        let mut i: usize = 0;
        while i < n
            invariant
                n == self.active.len(),
                i <= n,
                forall|a: int, b: int|
                    0 <= a < i && a < b < n ==> #[trigger] self@.active[a].0 != #[trigger] self@.active[b].0,
            decreases n - i,
        {
            let mut j: usize = i + 1;
            while j < n
                invariant
                    n == self.active.len(),
                    i < n,
                    i < j <= n,
                    forall|b: int| i < b < j ==> self@.active[i as int].0 != #[trigger] self@.active[b].0,
                decreases n - j,
            {
                if self.active[i].0 == self.active[j].0 {
                    assert(self@.active[i as int].0 == self@.active[j as int].0);
                    return false;
                }
                j = j + 1;
            }
            i = i + 1;
        }
        assert(self@.active.len() == n);
        let m = self.completed.len();
        let mut k: usize = 0;
        while k < m
            invariant
                m == self.completed.len(),
                n == self.active.len(),
                self@.active.len() == n,
                k <= m,
                keys_distinct(self@.active),
                forall|a: int, b: int|
                    0 <= a < k && a < b < m ==> #[trigger] self@.completed[a] != #[trigger] self@.completed[b],
            decreases m - k,
        {
            let mut l: usize = k + 1;
            while l < m
                invariant
                    m == self.completed.len(),
                    k < m,
                    k < l <= m,
                    forall|b: int| k < b < l ==> self@.completed[k as int] != #[trigger] self@.completed[b],
                decreases m - l,
            {
                if self.completed[k] == self.completed[l] {
                    assert(self@.completed[k as int] == self@.completed[l as int]);
                    return false;
                }
                l = l + 1;
            }
            k = k + 1;
        }
        assert(self@.completed.no_duplicates()) by {
            assert forall|a: int, b: int| 0 <= a < m && 0 <= b < m && a != b implies self@.completed[a]
                != self@.completed[b] by {
                if a < b {
                    assert(self@.completed[a] != self@.completed[b]);
                } else {
                    assert(self@.completed[b] != self@.completed[a]);
                }
            }
        }
        true
    }

    /// Whether the quest `id` has been claimed.
    pub fn has_completed(&self, id: &String) -> (r: bool)
        ensures
            r == self@.has_completed(id@),
    {
        let n = self.completed.len();
        let mut i: usize = 0;
        while i < n
            invariant
                n == self.completed.len(),
                i <= n,
                forall|j: int| 0 <= j < i ==> self@.completed[j] != id@,
            decreases n - i,
        {
            if self.completed[i] == *id {
                assert(self@.completed[i as int] == id@);
                return true;
            }
            i = i + 1;
        }
        false
    }

    /// The position of the entry of `active` for `id`, or its length where there is none.
    pub fn find_active(&self, id: &String) -> (r: usize)
        ensures
            r == key_index(self@.active, id@),
            r <= self.active.len(),
    {
        let n = self.active.len();
        let mut i: usize = 0;
        while i < n
            invariant
                n == self.active.len(),
                i <= n,
                forall|j: int| 0 <= j < i ==> #[trigger] self@.active[j].0 != id@,
            decreases n - i,
        {
            if self.active[i].0 == *id {
                proof {
                    lemma_key_index_is_first(self@.active, id@, i as int);
                }
                return i;
            }
            i = i + 1;
        }
        proof {
            lemma_key_index_is_first(self@.active, id@, n as int);
        }
        n
    }

    /// Whether the quest `id` is being tracked.
    pub fn is_active(&self, id: &String) -> (r: bool)
        ensures
            r == self@.is_active(id@),
    {
        let i = self.find_active(id);
        proof {
            lemma_key_index(self@.active, id@);
        }
        i < self.active.len()
    }
}


/// What accepting or claiming a quest comes to.
pub enum Activation {
    AlreadyCompleted,
    InProgress,
    Claimed,
    RequiresLevel,
    NeedsPrerequisite,
    TooMany,
    Accepted,
}

/// The rule for accepting or claiming `q`, tracking at most `max_active` quests.
pub open spec fn activation(s: PlayerView, q: QuestView, max_active: usize) -> Activation {
    if s.has_completed(q.id) {
        Activation::AlreadyCompleted
    } else if s.is_active(q.id) {
        if s.progress_of(q.id) < q.amount {
            Activation::InProgress
        } else {
            Activation::Claimed
        }
    } else if s.level < q.required_level {
        Activation::RequiresLevel
    } else if q.prerequisite matches Some(r) && !s.has_completed(r) {
        Activation::NeedsPrerequisite
    } else if s.active.len() >= max_active {
        Activation::TooMany
    } else {
        Activation::Accepted
    }
}

/// The player's state after accepting or claiming `q` (before the XP reward is paid).
pub open spec fn after_activation(s: PlayerView, q: QuestView, max_active: usize) -> PlayerView {
    match activation(s, q, max_active) {
        Activation::Claimed => PlayerView {
            active: s.active.remove(key_index(s.active, q.id)),
            completed: s.completed.push(q.id),
            dragon_seeds: sat_add_u64(s.dragon_seeds, q.reward_ds),
            ..s
        },
        Activation::Accepted => PlayerView { active: s.active.push((q.id, 0u64)), ..s },
        _ => s,
    }
}

/// The message the player is shown.
pub open spec fn activation_message(s: PlayerView, q: QuestView, max_active: usize) -> Seq<char> {
    match activation(s, q, max_active) {
        Activation::AlreadyCompleted => "You have already completed that quest."@,
        Activation::InProgress => q.title + ": "@ + decimal(s.progress_of(q.id) as nat) + "/"@
            + decimal(q.amount as nat),
        Activation::Claimed => "Claimed "@ + q.title + " \u{2014} +"@ + decimal(q.reward_xp as nat)
            + " XP, +"@ + decimal(q.reward_ds as nat) + " Ds"@,
        Activation::RequiresLevel => "Requires level "@ + decimal(q.required_level as nat) + "."@,
        Activation::NeedsPrerequisite => "Complete the preceding quest first."@,
        Activation::TooMany => "You may only track "@ + decimal(max_active as nat)
            + " quests at once."@,
        Activation::Accepted => "Quest accepted: "@ + q.title,
    }
}

impl PlayerState {
    /// Accepts `quest`, or claims it when its objective is met. Returns the message
    /// for the player and, for a claim, the XP reward still to be paid.
    pub fn activate_or_claim_quest(&mut self, quest: &Quest, max_active: usize) -> (r: (
        String,
        Option<u64>,
    ))
        ensures
            final(self)@ == after_activation(old(self)@, quest@, max_active),
            r.0@ == activation_message(old(self)@, quest@, max_active),
            r.1 == if activation(old(self)@, quest@, max_active) is Claimed {
                Some(quest.reward_xp)
            } else {
                None
            },
    {
        let ghost s = self@;
        let ghost q = quest@;
        if self.has_completed(&quest.id) {
            return (String::from_str("You have already completed that quest."), None);
        }
        let i = self.find_active(&quest.id);
        proof {
            lemma_key_index(s.active, q.id);
        }
        if i < self.active.len() {
            let progress = self.active[i].1;
            if progress < quest.objective.amount {
                let mut m = quest.title.clone();
                m.append(": ");
                m.append(decimal_string(progress).as_str());
                m.append("/");
                m.append(decimal_string(quest.objective.amount).as_str());
                return (m, None);
            }
            let ghost before = self.active@;
            self.active.remove(i);
            proof {
                assert(active_view(self.active@) =~= active_view(before).remove(i as int));
            }
            let ghost completed_before = self.completed@;
            self.completed.push(quest.id.clone());
            proof {
                assert(strings_view(self.completed@) =~= strings_view(completed_before).push(q.id));
            }
            self.dragon_seeds = self.dragon_seeds.saturating_add(quest.reward_ds);
            let mut m = String::from_str("Claimed ");
            m.append(quest.title.as_str());
            m.append(" \u{2014} +");
            m.append(decimal_string(quest.reward_xp).as_str());
            m.append(" XP, +");
            m.append(decimal_string(quest.reward_ds).as_str());
            m.append(" Ds");
            return (m, Some(quest.reward_xp));
        }
        if self.level < quest.required_level {
            let mut m = String::from_str("Requires level ");
            m.append(decimal_string(quest.required_level as u64).as_str());
            m.append(".");
            return (m, None);
        }
        let blocked = match &quest.prerequisite {
            Some(required) => !self.has_completed(required),
            None => false,
        };
        if blocked {
            return (String::from_str("Complete the preceding quest first."), None);
        }
        if self.active.len() >= max_active {
            let mut m = String::from_str("You may only track ");
            m.append(decimal_string(max_active as u64).as_str());
            m.append(" quests at once.");
            return (m, None);
        }
        let ghost before = self.active@;
        self.active.push((quest.id.clone(), 0));
        proof {
            assert(active_view(self.active@) =~= active_view(before).push((q.id, 0u64)));
        }
        let mut m = String::from_str("Quest accepted: ");
        m.append(quest.title.as_str());
        (m, None)
    }
}


/// The position of the first quest of `qs` with the id `id` (the length where none has it).
pub open spec fn quest_position(qs: Seq<QuestView>, id: Seq<char>) -> int
    decreases qs.len(),
{
    if qs.len() == 0 {
        0
    } else if qs[0].id == id {
        0
    } else {
        1 + quest_position(qs.drop_first(), id)
    }
}

pub proof fn lemma_quest_position(qs: Seq<QuestView>, id: Seq<char>)
    ensures
        0 <= quest_position(qs, id) <= qs.len(),
        forall|j: int| 0 <= j < quest_position(qs, id) ==> #[trigger] qs[j].id != id,
        quest_position(qs, id) < qs.len() ==> qs[quest_position(qs, id)].id == id,
    decreases qs.len(),
{
    if qs.len() > 0 && qs[0].id != id {
        lemma_quest_position(qs.drop_first(), id);
        assert forall|j: int| 0 <= j < quest_position(qs, id) implies #[trigger] qs[j].id != id by {
            if j > 0 {
                assert(qs[j] == qs.drop_first()[j - 1]);
            }
        }
    }
}

proof fn lemma_quest_position_is_first(qs: Seq<QuestView>, id: Seq<char>, k: int)
    requires
        0 <= k <= qs.len(),
        forall|j: int| 0 <= j < k ==> #[trigger] qs[j].id != id,
        k < qs.len() ==> qs[k].id == id,
    ensures
        quest_position(qs, id) == k,
{
    lemma_quest_position(qs, id);
    let a = quest_position(qs, id);
    if a < k {
        assert(qs[a].id != id);
    } else if k < a {
        assert(qs[k].id != id);
    }
}

/// Finds the quest with the id `id` in the catalogue.
pub fn find_quest(quests: &Vec<Quest>, id: &String) -> (r: usize)
    ensures
        r == quest_position(quests_view(quests@), id@),
        r <= quests.len(),
{
    let ghost qs = quests_view(quests@);
    let n = quests.len();
    let mut i: usize = 0;
    while i < n
        invariant
            qs == quests_view(quests@),
            n == quests.len(),
            i <= n,
            forall|j: int| 0 <= j < i ==> #[trigger] qs[j].id != id@,
        decreases n - i,
    {
        if quests[i].id == *id {
            proof {
                lemma_quest_position_is_first(qs, id@, i as int);
            }
            return i;
        }
        i = i + 1;
    }
    proof {
        lemma_quest_position_is_first(qs, id@, n as int);
    }
    n
}

/// An event of `kind` on `target` counts toward the active quest `id`: the quest is in
/// the catalogue and its objective has that kind and, once normalized, that target.
pub open spec fn counts_toward(
    qs: Seq<QuestView>,
    kind: ObjectiveKind,
    target: Seq<char>,
    id: Seq<char>,
) -> bool {
    let k = quest_position(qs, id);
    &&& k < qs.len()
    &&& qs[k].kind == kind
    &&& normalized_id(qs[k].target) == target
}

/// The progress of an active entry after the event: raised by `amount` (saturating) and
/// capped at the objective's amount, where the event counts toward it.
pub open spec fn advanced(
    qs: Seq<QuestView>,
    kind: ObjectiveKind,
    target: Seq<char>,
    amount: u64,
    e: (Seq<char>, u64),
) -> u64 {
    if counts_toward(qs, kind, target, e.0) {
        let goal = qs[quest_position(qs, e.0)].amount;
        let raised = sat_add_u64(e.1, amount);
        if raised < goal {
            raised
        } else {
            goal
        }
    } else {
        e.1
    }
}

/// The active entries after the event.
pub open spec fn advance_all(
    qs: Seq<QuestView>,
    kind: ObjectiveKind,
    target: Seq<char>,
    amount: u64,
    active: Seq<(Seq<char>, u64)>,
) -> Seq<(Seq<char>, u64)> {
    active.map_values(|e: (Seq<char>, u64)| (e.0, advanced(qs, kind, target, amount, e)))
}

/// The titles of the quests whose objective the event leaves complete, in the order of
/// the active entries.
pub open spec fn finished_titles(
    qs: Seq<QuestView>,
    kind: ObjectiveKind,
    target: Seq<char>,
    amount: u64,
    active: Seq<(Seq<char>, u64)>,
) -> Seq<Seq<char>>
    decreases active.len(),
{
    if active.len() == 0 {
        Seq::empty()
    } else {
        let e = active.last();
        let rest = finished_titles(qs, kind, target, amount, active.drop_last());
        let k = quest_position(qs, e.0);
        if counts_toward(qs, kind, target, e.0) && advanced(qs, kind, target, amount, e)
            == qs[k].amount {
            rest.push(qs[k].title)
        } else {
            rest
        }
    }
}

/// The state after cancelling the tracked quest `id`: its entry is dropped.
pub open spec fn cancel_effect(s: PlayerView, id: Seq<char>) -> PlayerView {
    if s.is_active(id) {
        s.with_active(s.active.remove(key_index(s.active, id)))
    } else {
        s
    }
}

/// The message for cancelling `q`.
pub open spec fn cancel_message(s: PlayerView, q: QuestView) -> Seq<char> {
    if s.is_active(q.id) {
        "Quest cancelled: "@ + q.title
    } else {
        "You are not tracking that quest."@
    }
}

/// The message a player is sent when the objective of quest `title` is complete.
pub open spec fn objective_complete_text(title: Seq<char>) -> Seq<char> {
    "\u{2713} Quest objective complete: "@ + title + ". Open /tales to claim."@
}

/// The message a player is sent when the objective of quest `title` is complete.
pub fn objective_complete_message(title: &str) -> (r: String)
    ensures
        r@ == objective_complete_text(title@),
{
    let mut r = String::from_str("\u{2713} Quest objective complete: ");
    r.append(title);
    r.append(". Open /tales to claim.");
    r
}

/// What spending a point on attribute `index` comes to.
pub open spec fn spend_effect(s: PlayerView, index: u32) -> PlayerView {
    if s.unspent_points == 0 || index > 3 {
        s
    } else {
        let a = s.attributes;
        PlayerView {
            attributes: if index == 0 {
                Attributes { damage: sat_add_u32(a.damage, 1), ..a }
            } else if index == 1 {
                Attributes { defense: sat_add_u32(a.defense, 1), ..a }
            } else if index == 2 {
                Attributes { speed: sat_add_u32(a.speed, 1), ..a }
            } else {
                Attributes { vitality: sat_add_u32(a.vitality, 1), ..a }
            },
            unspent_points: (s.unspent_points - 1) as u32,
            ..s
        }
    }
}

/// The message shown for spending a point on attribute `index`.
pub open spec fn spend_message(s: PlayerView, index: u32) -> Seq<char> {
    if s.unspent_points == 0 {
        "You have no unspent attribute points."@
    } else if index == 0 {
        "Damage increased by 1."@
    } else if index == 1 {
        "Defense increased by 1."@
    } else if index == 2 {
        "Speed increased by 1."@
    } else if index == 3 {
        "Vitality increased by 1."@
    } else {
        "Unknown attribute."@
    }
}

impl PlayerState {
    /// Records an event (a block mined, an item collected, an entity killed) against the
    /// active quests. `target` is the normalized identifier of what the event was about.
    /// Returns the titles of the quests whose objective is now complete.
    pub fn record_progress(
        &mut self,
        quests: &Vec<Quest>,
        kind: ObjectiveKind,
        target: &String,
        amount: u64,
    ) -> (finished: Vec<String>)
        ensures
            final(self)@ == old(self)@.with_active(
                advance_all(quests_view(quests@), kind, target@, amount, old(self)@.active),
            ),
            strings_view(finished@) == finished_titles(
                quests_view(quests@),
                kind,
                target@,
                amount,
                old(self)@.active,
            ),
    {
        let ghost qs = quests_view(quests@);
        let ghost start = self@.active;
        let mut finished: Vec<String> = Vec::new();
        let n = self.active.len();
        let mut i: usize = 0;
        while i < n
            invariant
                qs == quests_view(quests@),
                n == self.active.len(),
                start.len() == n,
                i <= n,
                forall|j: int|
                    0 <= j < i ==> #[trigger] self@.active[j] == (
                        start[j].0,
                        advanced(qs, kind, target@, amount, start[j]),
                    ),
                forall|j: int| i <= j < n ==> #[trigger] self@.active[j] == start[j],
                self@.level == old(self)@.level,
                self@.xp == old(self)@.xp,
                self@.dragon_seeds == old(self)@.dragon_seeds,
                self@.unspent_points == old(self)@.unspent_points,
                self@.attributes == old(self)@.attributes,
                self@.completed == old(self)@.completed,
                start == old(self)@.active,
                strings_view(finished@) == finished_titles(qs, kind, target@, amount, start.take(i as int)),
            decreases n - i,
        {
            let ghost e = start[i as int];
            assert(start.take(i + 1).drop_last() =~= start.take(i as int));
            assert(start.take(i + 1).last() == e);
            assert(self@.active[i as int] == start[i as int]);
            assert(self.active@[i as int].0@ == e.0);
            let k = find_quest(quests, &self.active[i].0);
            proof {
                lemma_quest_position(qs, e.0);
            }
            if k < quests.len() && quests[k].objective.kind == kind && normalize_id(
                quests[k].objective.target.as_str(),
            ) == *target {
                let goal = quests[k].objective.amount;
                let raised = self.active[i].1.saturating_add(amount);
                let p = if raised < goal {
                    raised
                } else {
                    goal
                };
                let id = self.active[i].0.clone();
                let ghost before = self.active@;
                self.active.set(i, (id, p));
                assert(p == advanced(qs, kind, target@, amount, e));
                assert(active_view(self.active@) =~= active_view(before).update(i as int, (e.0, p)));
                if p == goal {
                    let ghost fb = finished@;
                    finished.push(quests[k].title.clone());
                    assert(strings_view(finished@) =~= strings_view(fb).push(qs[k as int].title));
                }
            } else {
                assert(!counts_toward(qs, kind, target@, e.0));
            }
            i = i + 1;
        }
        assert(start.take(n as int) =~= start);
        assert(self@.active =~= advance_all(qs, kind, target@, amount, start));
        finished
    }

    /// Stops tracking `quest`, dropping the progress made on it.
    pub fn cancel_quest_entry(&mut self, quest: &Quest) -> (message: String)
        ensures
            final(self)@ == cancel_effect(old(self)@, quest@.id),
            message@ == cancel_message(old(self)@, quest@),
    {
        let i = self.find_active(&quest.id);
        proof {
            lemma_key_index(self@.active, quest@.id);
        }
        if i < self.active.len() {
            let ghost before = self.active@;
            self.active.remove(i);
            proof {
                assert(active_view(self.active@) =~= active_view(before).remove(i as int));
            }
            let mut m = String::from_str("Quest cancelled: ");
            m.append(quest.title.as_str());
            m
        } else {
            String::from_str("You are not tracking that quest.")
        }
    }

    /// Spends one unspent attribute point on attribute `index` (0 damage, 1 defense,
    /// 2 speed, 3 vitality).
    pub fn spend_point(&mut self, index: u32) -> (message: String)
        ensures
            final(self)@ == spend_effect(old(self)@, index),
            message@ == spend_message(old(self)@, index),
    {
        if self.unspent_points == 0 {
            return String::from_str("You have no unspent attribute points.");
        }
        let label = if index == 0 {
            self.attributes.damage = self.attributes.damage.saturating_add(1);
            "Damage increased by 1."
        } else if index == 1 {
            self.attributes.defense = self.attributes.defense.saturating_add(1);
            "Defense increased by 1."
        } else if index == 2 {
            self.attributes.speed = self.attributes.speed.saturating_add(1);
            "Speed increased by 1."
        } else if index == 3 {
            self.attributes.vitality = self.attributes.vitality.saturating_add(1);
            "Vitality increased by 1."
        } else {
            return String::from_str("Unknown attribute.");
        };
        self.unspent_points = self.unspent_points - 1;
        String::from_str(label)
    }
}

} // verus!
