use vstd::prelude::*;
use crate::model::{key_index, keys_distinct, MenuView, PlayerView, QuestView, ObjectiveKind};
use crate::player::{
    activation, activation_message, advance_all, advanced, after_activation, cancel_effect, counts_toward,
    finished_titles, lemma_key_index, lemma_key_index_is_first, quest_position, spend_effect, spend_message,
    Activation,
};
use crate::quests::{status_text, unlocked};
use crate::ui::{bedrock_choice_of, detail_action_of, DetailAction, UiAction};
use crate::progression::{xp_award, ProgressionView};
use crate::text::{
    ascii_upper, trim_front, default_namespace, id_char, is_whitespace, normalized_id, trim_back,
    trimmed,
};
use crate::ui::{last_page, listed_on_page};
use crate::app::App;

verus! {

proof fn lemma_trimmed_fixed(s: Seq<char>)
    requires
        s.len() == 0 || (!is_whitespace(s[0]) && !is_whitespace(s.last())),
    ensures
        trimmed(s) == s,
{
}

proof fn lemma_id_char_idempotent(c: char)
    ensures
        id_char(id_char(c)) == id_char(c),
        is_whitespace(id_char(c)) ==> is_whitespace(c),
{
}

proof fn lemma_trimmed_ends(s: Seq<char>)
    ensures
        trimmed(s).len() == 0 || (!is_whitespace(trimmed(s)[0]) && !is_whitespace(
            trimmed(s).last(),
        )),
    decreases s.len(),
{
    if s.len() > 0 && is_whitespace(s[0]) {
        lemma_trimmed_ends(s.drop_first());
    } else {
        lemma_trim_back_keeps_front(s);
    }
}

proof fn lemma_trim_back_keeps_front(s: Seq<char>)
    requires
        s.len() == 0 || !is_whitespace(s[0]),
    ensures
        trim_back(s).len() == 0 || (!is_whitespace(trim_back(s)[0]) && !is_whitespace(
            trim_back(s).last(),
        )),
    decreases s.len(),
{
    if s.len() > 0 && is_whitespace(s.last()) {
        if s.len() > 1 {
            lemma_trim_back_keeps_front(s.drop_last());
        }
    }
}

/// Normalizing an identifier twice gives what normalizing it once gives, and the
/// result always names a namespace (holds a `:`): identifiers the plugin stores compare
/// equal to the same identifiers normalized again.
pub proof fn lemma_normalize_idempotent(s: Seq<char>)
    ensures
        normalized_id(normalized_id(s)) == normalized_id(s),
        normalized_id(s).contains(':'),
{
    reveal_strlit("minecraft:");
    let t = trimmed(s);
    let l = t.map_values(|c: char| id_char(c));
    lemma_trimmed_ends(s);
    if l.len() > 0 {
        lemma_id_char_idempotent(t[0]);
        lemma_id_char_idempotent(t.last());
    }
    assert forall|i: int| 0 <= i < l.len() implies id_char(#[trigger] l[i]) == l[i] by {
        lemma_id_char_idempotent(t[i]);
    }
    let n = normalized_id(s);
    if l.contains(':') {
        assert(n == l);
        lemma_trimmed_fixed(l);
        assert(n.map_values(|c: char| id_char(c)) =~= n);
    } else {
        let d = default_namespace();
        assert(n == d + l);
        assert(d[0] == 'm');
        assert(d[9] == ':');
        assert(n[9] == ':');
        if l.len() > 0 {
            assert(n.last() == l.last());
        }
        lemma_trimmed_fixed(n);
        assert forall|i: int| 0 <= i < n.len() implies id_char(#[trigger] n[i]) == n[i] by {
            if i >= d.len() {
                assert(n[i] == l[i - d.len()]);
            }
        }
        assert(n.map_values(|c: char| id_char(c)) =~= n);
    }
}


proof fn lemma_upper_char(c: char)
    ensures
        is_whitespace(ascii_upper(c)) == is_whitespace(c),
        id_char(ascii_upper(c)) == id_char(c),
{
}

proof fn lemma_trim_front_upper(s: Seq<char>)
    ensures
        trim_front(s.map_values(|c: char| ascii_upper(c))) == trim_front(s).map_values(
            |c: char| ascii_upper(c),
        ),
    decreases s.len(),
{
    let u = s.map_values(|c: char| ascii_upper(c));
    if s.len() > 0 {
        lemma_upper_char(s[0]);
        if is_whitespace(s[0]) {
            assert(u.drop_first() =~= s.drop_first().map_values(|c: char| ascii_upper(c)));
            lemma_trim_front_upper(s.drop_first());
        }
    } else {
        assert(u =~= s);
    }
}

proof fn lemma_trim_back_upper(s: Seq<char>)
    ensures
        trim_back(s.map_values(|c: char| ascii_upper(c))) == trim_back(s).map_values(
            |c: char| ascii_upper(c),
        ),
    decreases s.len(),
{
    let u = s.map_values(|c: char| ascii_upper(c));
    if s.len() > 0 {
        lemma_upper_char(s.last());
        if is_whitespace(s.last()) {
            assert(u.drop_last() =~= s.drop_last().map_values(|c: char| ascii_upper(c)));
            lemma_trim_back_upper(s.drop_last());
        }
    } else {
        assert(u =~= s);
    }
}

proof fn lemma_trim_front_pad(front: Seq<char>, x: Seq<char>)
    requires
        forall|i: int| 0 <= i < front.len() ==> is_whitespace(#[trigger] front[i]),
    ensures
        trim_front(front + x) == trim_front(x),
    decreases front.len(),
{
    if front.len() > 0 {
        assert((front + x)[0] == front[0]);
        assert((front + x).drop_first() =~= front.drop_first() + x);
        lemma_trim_front_pad(front.drop_first(), x);
    } else {
        assert(front + x =~= x);
    }
}

proof fn lemma_trim_back_pad(x: Seq<char>, back: Seq<char>)
    requires
        forall|i: int| 0 <= i < back.len() ==> is_whitespace(#[trigger] back[i]),
    ensures
        trim_back(x + back) == trim_back(x),
    decreases back.len(),
{
    if back.len() > 0 {
        assert((x + back).last() == back.last());
        assert((x + back).drop_last() =~= x + back.drop_last());
        lemma_trim_back_pad(x, back.drop_last());
    } else {
        assert(x + back =~= x);
    }
}

proof fn lemma_trimmed_pad_back(x: Seq<char>, back: Seq<char>)
    requires
        forall|i: int| 0 <= i < back.len() ==> is_whitespace(#[trigger] back[i]),
    ensures
        trimmed(x + back) == trimmed(x),
    decreases x.len(),
{
    if x.len() == 0 {
        assert(x + back =~= back);
        lemma_trim_front_pad(back, x);
        assert(back + x =~= back);
    } else if is_whitespace(x[0]) {
        assert((x + back)[0] == x[0]);
        assert((x + back).drop_first() =~= x.drop_first() + back);
        lemma_trimmed_pad_back(x.drop_first(), back);
    } else {
        assert((x + back)[0] == x[0]);
        lemma_trim_back_pad(x, back);
    }
}

/// ASCII case and surrounding whitespace do not change an identifier: upper-casing it,
/// or padding it with whitespace on either side, normalizes to the same identifier.
pub proof fn lemma_normalize_ignores_case_and_padding(s: Seq<char>, front: Seq<char>, back: Seq<char>)
    requires
        forall|i: int| 0 <= i < front.len() ==> is_whitespace(#[trigger] front[i]),
        forall|i: int| 0 <= i < back.len() ==> is_whitespace(#[trigger] back[i]),
    ensures
        normalized_id(s.map_values(|c: char| ascii_upper(c))) == normalized_id(s),
        normalized_id(front + s + back) == normalized_id(s),
{
    let u = s.map_values(|c: char| ascii_upper(c));
    lemma_trim_front_upper(s);
    lemma_trim_back_upper(trim_front(s));
    let t = trimmed(s);
    assert(trimmed(u) == t.map_values(|c: char| ascii_upper(c)));
    assert forall|i: int| 0 <= i < t.len() implies id_char(ascii_upper(#[trigger] t[i])) == id_char(t[i]) by {
        lemma_upper_char(t[i]);
    }
    assert(trimmed(u).map_values(|c: char| id_char(c)) =~= t.map_values(|c: char| id_char(c)));
    assert(front + s + back =~= front + (s + back));
    lemma_trim_front_pad(front, s + back);
    lemma_trimmed_pad_back(s, back);
    assert(trimmed(front + s + back) == trimmed(s));
}

proof fn lemma_keys_distinct_remove<V>(entries: Seq<(Seq<char>, V)>, k: int)
    requires
        keys_distinct(entries),
        0 <= k < entries.len(),
    ensures
        keys_distinct(entries.remove(k)),
        forall|i: int|
            0 <= i < entries.remove(k).len() ==> #[trigger] entries.remove(k)[i].0 != entries[k].0,
{
    let r = entries.remove(k);
    assert forall|i: int, j: int| 0 <= i < j < r.len() implies #[trigger] r[i].0 != #[trigger] r[j].0 by {
        let a = if i < k { i } else { i + 1 };
        let b = if j < k { j } else { j + 1 };
        assert(r[i] == entries[a]);
        assert(r[j] == entries[b]);
    }
    assert forall|i: int| 0 <= i < r.len() implies #[trigger] r[i].0 != entries[k].0 by {
        let a = if i < k { i } else { i + 1 };
        assert(r[i] == entries[a]);
    }
}

/// Accepting or claiming a quest never makes a quest tracked twice or completed twice,
/// and keeps a player's state well formed: where no quest was both tracked and
/// completed, none is after. No completed quest is forgotten, no Dragon Seeds are
/// taken, and a player within the limit of tracked quests stays within it.
pub proof fn lemma_activation_keeps_wf(s: PlayerView, q: QuestView, max_active: usize)
    requires
        s.no_repeats(),
    ensures
        after_activation(s, q, max_active).no_repeats(),
        s.wf() ==> after_activation(s, q, max_active).wf(),
        forall|c: Seq<char>| s.has_completed(c) ==> #[trigger] after_activation(s, q, max_active).has_completed(c),
        after_activation(s, q, max_active).dragon_seeds >= s.dragon_seeds,
        s.active.len() <= max_active ==> after_activation(s, q, max_active).active.len() <= max_active,
{
    let t = after_activation(s, q, max_active);
    assert forall|c: Seq<char>| s.has_completed(c) implies #[trigger] t.has_completed(c) by {
        if activation(s, q, max_active) is Claimed {
            let j = choose|j: int| 0 <= j < s.completed.len() && s.completed[j] == c;
            assert(t.completed[j] == c);
        }
    }
    match activation(s, q, max_active) {
        Activation::Claimed => {
            let k = key_index(s.active, q.id);
            lemma_key_index(s.active, q.id);
            lemma_keys_distinct_remove(s.active, k);
            assert forall|i: int| s.wf() && 0 <= i < t.active.len() implies !t.completed.contains(
                #[trigger] t.active[i].0,
            ) by {
                let a = if i < k { i } else { i + 1 };
                assert(t.active[i] == s.active[a]);
                if t.completed.contains(t.active[i].0) {
                    let j = choose|j: int| 0 <= j < t.completed.len() && t.completed[j] == t.active[i].0;
                    if j < s.completed.len() {
                        assert(s.completed[j] == t.completed[j]);
                    }
                }
            }
            assert forall|i: int, j: int| 0 <= i < t.completed.len() && 0 <= j < t.completed.len() && i != j
                implies t.completed[i] != t.completed[j] by {
                if i == s.completed.len() {
                    assert(!s.completed.contains(q.id));
                    assert(s.completed[j] == t.completed[j]);
                } else if j == s.completed.len() {
                    assert(!s.completed.contains(q.id));
                    assert(s.completed[i] == t.completed[i]);
                }
            }
        },
        Activation::Accepted => {
            lemma_key_index(s.active, q.id);
            assert forall|i: int, j: int| 0 <= i < j < t.active.len() implies #[trigger] t.active[i].0
                != #[trigger] t.active[j].0 by {
                if j == s.active.len() {
                    assert(t.active[i] == s.active[i]);
                    assert(s.active[i].0 != q.id);
                } else {
                    assert(t.active[i] == s.active[i]);
                    assert(t.active[j] == s.active[j]);
                }
            }
            assert forall|i: int| s.wf() && 0 <= i < t.active.len() implies !t.completed.contains(
                #[trigger] t.active[i].0,
            ) by {
                if i < s.active.len() {
                    assert(t.active[i] == s.active[i]);
                }
            }
        },
        _ => {},
    }
}

/// A claim is paid once: once a quest is claimed it is completed and no longer
/// tracked, and asking again only says so, changing nothing.
pub proof fn lemma_claim_is_final(s: PlayerView, q: QuestView, max_active: usize)
    requires
        activation(s, q, max_active) is Claimed,
    ensures
        after_activation(s, q, max_active).has_completed(q.id),
        activation(after_activation(s, q, max_active), q, max_active) is AlreadyCompleted,
        after_activation(after_activation(s, q, max_active), q, max_active) == after_activation(
            s,
            q,
            max_active,
        ),
{
    let t = after_activation(s, q, max_active);
    assert(t.completed[t.completed.len() - 1] == q.id);
}

/// What `App::activate_or_claim` leaves after a claim (the claimed state with the
/// quest's XP paid) is final for that quest: asking again says it is already completed
/// and changes nothing, so a reward is paid at most once.
pub proof fn lemma_claim_then_award_is_final(p: ProgressionView, s: PlayerView, q: QuestView, max_active: usize)
    requires
        activation(s, q, max_active) is Claimed,
    ensures
        activation(xp_award(p, after_activation(s, q, max_active), q.reward_xp), q, max_active) is AlreadyCompleted,
        after_activation(xp_award(p, after_activation(s, q, max_active), q.reward_xp), q, max_active)
            == xp_award(p, after_activation(s, q, max_active), q.reward_xp),
{
    lemma_claim_is_final(s, q, max_active);
    lemma_award_keeps_quests(p, after_activation(s, q, max_active), q.reward_xp);
}

/// A reward is paid at most once, from one call of `App::activate_or_claim` to the
/// next: where the first call (on app `a`, leaving app `b`) claims the quest at
/// `quest_index`, a second call with the same quest on `b` answers that it is already
/// completed and leaves player `id`'s progression as it is.
pub proof fn lemma_app_claim_is_paid_once(a: App, b: App, id: Seq<char>, quest_index: int)
    requires
        a.wf(),
        0 <= quest_index < a.catalogue().len(),
        activation(a.player(id), a.catalogue()[quest_index], a.max_active()) is Claimed,
        b.updated_from(a, id, a.activation_outcome(id, quest_index)),
    ensures
        quest_index < b.catalogue().len(),
        b.player(id).has_completed(b.catalogue()[quest_index].id),
        activation(b.player(id), b.catalogue()[quest_index], b.max_active()) is AlreadyCompleted,
        activation_message(b.player(id), b.catalogue()[quest_index], b.max_active())
            == "You have already completed that quest."@,
        b.activation_outcome(id, quest_index) == b.player(id),
{
    let q = a.catalogue()[quest_index];
    lemma_claim_then_award_is_final(a.progression(), a.player(id), q, a.max_active());
    lemma_claim_is_final(a.player(id), q, a.max_active());
    lemma_award_keeps_quests(a.progression(), after_activation(a.player(id), q, a.max_active()), q.reward_xp);
}

/// `App::activate_or_claim` keeps a player's progression in order: where no quest was
/// both tracked and completed, none is after; no completed quest is forgotten; no
/// Dragon Seeds are taken; and a player within the limit of tracked quests stays
/// within it.
pub proof fn lemma_app_activation_keeps_player(a: App, b: App, id: Seq<char>, quest_index: int)
    requires
        a.wf(),
        0 <= quest_index < a.catalogue().len(),
        b.updated_from(a, id, a.activation_outcome(id, quest_index)),
    ensures
        a.player(id).wf() ==> b.player(id).wf(),
        forall|c: Seq<char>| a.player(id).has_completed(c) ==> #[trigger] b.player(id).has_completed(c),
        b.player(id).dragon_seeds >= a.player(id).dragon_seeds,
        a.player(id).active.len() <= a.max_active() ==> b.player(id).active.len() <= b.max_active(),
{
    let q = a.catalogue()[quest_index];
    a.lemma_player_no_repeats(id);
    lemma_activation_keeps_wf(a.player(id), q, a.max_active());
    let t = after_activation(a.player(id), q, a.max_active());
    lemma_award_keeps_quests(a.progression(), t, q.reward_xp);
    assert forall|c: Seq<char>| a.player(id).has_completed(c) implies #[trigger] b.player(id).has_completed(c) by {
        assert(t.has_completed(c));
    }
}

/// The XP award that follows a claim does not touch the quest lists: the quest stays
/// completed.
pub proof fn lemma_award_keeps_quests(p: ProgressionView, s: PlayerView, amount: u64)
    ensures
        xp_award(p, s, amount).active == s.active,
        xp_award(p, s, amount).completed == s.completed,
        xp_award(p, s, amount).dragon_seeds == s.dragon_seeds,
        xp_award(p, s, amount).attributes == s.attributes,
{
}

/// Accepting a quest starts it at zero progress; asking again, before the objective is
/// met, reports the progress and changes nothing.
pub proof fn lemma_accept_then_in_progress(s: PlayerView, q: QuestView, max_active: usize)
    requires
        activation(s, q, max_active) is Accepted,
        q.amount > 0,
    ensures
        after_activation(s, q, max_active).is_active(q.id),
        after_activation(s, q, max_active).progress_of(q.id) == 0,
        activation(after_activation(s, q, max_active), q, max_active) is InProgress,
        after_activation(after_activation(s, q, max_active), q, max_active) == after_activation(
            s,
            q,
            max_active,
        ),
{
    let t = after_activation(s, q, max_active);
    lemma_key_index(s.active, q.id);
    assert forall|j: int| 0 <= j < s.active.len() implies #[trigger] t.active[j].0 != q.id by {
        assert(t.active[j] == s.active[j]);
    }
    lemma_key_index_is_first(t.active, q.id, s.active.len() as int);
    assert(t.active[s.active.len() as int].0 == q.id);
}

/// Cancelling never makes a quest tracked twice or completed twice, and keeps a
/// player's state well formed.
pub proof fn lemma_cancel_keeps_wf(s: PlayerView, id: Seq<char>)
    requires
        s.no_repeats(),
    ensures
        cancel_effect(s, id).no_repeats(),
        s.wf() ==> cancel_effect(s, id).wf(),
        !cancel_effect(s, id).is_active(id),
{
    lemma_key_index(s.active, id);
    if s.is_active(id) {
        let k = key_index(s.active, id);
        lemma_keys_distinct_remove(s.active, k);
        let t = cancel_effect(s, id);
        assert forall|i: int| s.wf() && 0 <= i < t.active.len() implies !t.completed.contains(
            #[trigger] t.active[i].0,
        ) by {
            let a = if i < k { i } else { i + 1 };
            assert(t.active[i] == s.active[a]);
        }
    }
}

/// Recording progress keeps the tracked quests (only their progress changes), so it
/// never makes a quest tracked twice and keeps a player's state well formed.
pub proof fn lemma_progress_keeps_wf(
    s: PlayerView,
    qs: Seq<QuestView>,
    kind: ObjectiveKind,
    target: Seq<char>,
    amount: u64,
)
    requires
        s.no_repeats(),
    ensures
        s.with_active(advance_all(qs, kind, target, amount, s.active)).no_repeats(),
        s.wf() ==> s.with_active(advance_all(qs, kind, target, amount, s.active)).wf(),
        forall|i: int|
            0 <= i < s.active.len() ==> #[trigger] advance_all(qs, kind, target, amount, s.active)[i].0
                == s.active[i].0,
{
    let a = advance_all(qs, kind, target, amount, s.active);
    assert forall|i: int, j: int| 0 <= i < j < a.len() implies #[trigger] a[i].0 != #[trigger] a[j].0 by {
        assert(s.active[i].0 != s.active[j].0);
    }
}

/// Progress on a quest that counts only rises, and never past the objective's amount.
pub proof fn lemma_progress_capped(
    qs: Seq<QuestView>,
    kind: ObjectiveKind,
    target: Seq<char>,
    amount: u64,
    e: (Seq<char>, u64),
)
    requires
        counts_toward(qs, kind, target, e.0),
        e.1 <= qs[quest_position(qs, e.0)].amount,
    ensures
        e.1 <= advanced(qs, kind, target, amount, e) <= qs[quest_position(qs, e.0)].amount,
{
}

/// The attribute points a player holds: unspent and spent.
pub open spec fn total_points(s: PlayerView) -> int {
    s.unspent_points + s.attributes.damage + s.attributes.defense + s.attributes.speed
        + s.attributes.vitality
}

/// Spending a point moves it from the unspent points to one attribute: the total is
/// kept (unless the attribute is already at its maximum), and an unknown attribute or
/// a player without points changes nothing.
pub proof fn lemma_spend_conserves_points(s: PlayerView, index: u32)
    requires
        s.attributes.damage < u32::MAX,
        s.attributes.defense < u32::MAX,
        s.attributes.speed < u32::MAX,
        s.attributes.vitality < u32::MAX,
    ensures
        total_points(spend_effect(s, index)) == total_points(s),
        (s.unspent_points == 0 || index > 3) ==> spend_effect(s, index) == s,
        s.unspent_points > 0 && index <= 3 ==> spend_effect(s, index).unspent_points
            == s.unspent_points - 1,
        spend_effect(s, index).active == s.active,
        spend_effect(s, index).completed == s.completed,
{
}

/// Every quest of the catalogue is listed on exactly one journal page: quest `i` on
/// page `i / 10`, at position `i % 10`, and that page is not past the last one.
pub proof fn lemma_every_quest_listed(quest_count: nat, i: int)
    requires
        0 <= i < quest_count,
    ensures
        i / 10 <= last_page(quest_count),
        i % 10 < listed_on_page(quest_count as int, i / 10),
        (i / 10) * 10 + i % 10 == i,
{
}


/// An event advances a tracked quest only where the catalogue holds the quest, its
/// objective is of the event's kind and its target is the event's target; such a
/// quest's progress rises by the event's amount, up to the objective's amount. Every
/// other tracked quest keeps its progress, and no quest is added or dropped.
pub proof fn lemma_event_advances_only_matching_quests(
    qs: Seq<QuestView>,
    kind: ObjectiveKind,
    target: Seq<char>,
    amount: u64,
    active: Seq<(Seq<char>, u64)>,
    i: int,
)
    requires
        0 <= i < active.len(),
    ensures
        advance_all(qs, kind, target, amount, active).len() == active.len(),
        advance_all(qs, kind, target, amount, active)[i].0 == active[i].0,
        ({
            let k = quest_position(qs, active[i].0);
            let p = active[i].1 as int;
            let after = advance_all(qs, kind, target, amount, active)[i].1 as int;
            if k < qs.len() && qs[k].kind == kind && normalized_id(qs[k].target) == target {
                after == if p + amount < qs[k].amount { p + amount } else { qs[k].amount as int }
            } else {
                after == p
            }
        }),
{
}

/// The quests an event reports as finished are tracked quests of the event's kind and
/// target whose progress the event brought to the objective's amount.
pub proof fn lemma_finished_quests_match_the_event(
    qs: Seq<QuestView>,
    kind: ObjectiveKind,
    target: Seq<char>,
    amount: u64,
    active: Seq<(Seq<char>, u64)>,
    j: int,
)
    requires
        0 <= j < finished_titles(qs, kind, target, amount, active).len(),
    ensures
        exists|i: int| {
            let k = #[trigger] quest_position(qs, active[i].0);
            &&& 0 <= i < active.len()
            &&& k < qs.len()
            &&& qs[k].kind == kind
            &&& normalized_id(qs[k].target) == target
            &&& qs[k].title == finished_titles(qs, kind, target, amount, active)[j]
            &&& advance_all(qs, kind, target, amount, active)[i].1 == qs[k].amount
        },
    decreases active.len(),
{
    let f = finished_titles(qs, kind, target, amount, active);
    let rest = finished_titles(qs, kind, target, amount, active.drop_last());
    let n = active.len() - 1;
    if j < rest.len() {
        lemma_finished_quests_match_the_event(qs, kind, target, amount, active.drop_last(), j);
        let i = choose|i: int| {
            let k = #[trigger] quest_position(qs, active.drop_last()[i].0);
            &&& 0 <= i < active.drop_last().len()
            &&& k < qs.len()
            &&& qs[k].kind == kind
            &&& normalized_id(qs[k].target) == target
            &&& qs[k].title == rest[j]
            &&& advance_all(qs, kind, target, amount, active.drop_last())[i].1 == qs[k].amount
        };
        assert(active.drop_last()[i] == active[i]);
        assert(f[j] == rest[j]);
        assert(quest_position(qs, active[i].0) < qs.len());
    } else {
        assert(f == rest.push(qs[quest_position(qs, active[n].0)].title));
        assert(quest_position(qs, active[n].0) < qs.len());
    }
}

/// The quest's prerequisite, where it has one, is completed.
pub open spec fn prerequisite_met(s: PlayerView, q: QuestView) -> bool {
    match q.prerequisite {
        Some(r) => s.has_completed(r),
        None => true,
    }
}

/// `n` capped at the largest `u64`.
pub open spec fn saturated(n: int) -> u64 {
    if n <= u64::MAX {
        n as u64
    } else {
        u64::MAX
    }
}

/// `n + 1` unless `n` is the largest `u32`.
pub open spec fn bumped(n: u32) -> u32 {
    if n < u32::MAX {
        (n + 1) as u32
    } else {
        n
    }
}

/// What accepting or claiming a quest comes to, by the state of the player and the
/// quest: a completed quest is never paid again; a tracked quest is claimed exactly
/// when its objective is met; an untracked quest is accepted exactly when the player's
/// level reaches the quest's, its prerequisite (if any) is completed and fewer than
/// `max_active` quests are tracked. Accepting starts the quest at zero progress; a
/// claim completes it and pays its Dragon Seeds; anything else changes nothing.
pub proof fn lemma_activation_rules(s: PlayerView, q: QuestView, max_active: usize)
    ensures
        (activation(s, q, max_active) is AlreadyCompleted) == s.has_completed(q.id),
        (activation(s, q, max_active) is Claimed) == (!s.has_completed(q.id) && s.is_active(q.id)
            && s.progress_of(q.id) >= q.amount),
        (activation(s, q, max_active) is InProgress) == (!s.has_completed(q.id) && s.is_active(q.id)
            && s.progress_of(q.id) < q.amount),
        (activation(s, q, max_active) is Accepted) == (!s.has_completed(q.id) && !s.is_active(q.id)
            && s.level >= q.required_level && prerequisite_met(s, q) && s.active.len() < max_active),
        (activation(s, q, max_active) is NeedsPrerequisite) ==> (!prerequisite_met(s, q)
            && activation_message(s, q, max_active) == "Complete the preceding quest first."@),
        (activation(s, q, max_active) is Accepted) ==> (after_activation(s, q, max_active)
            == s.with_active(s.active.push((q.id, 0u64)))),
        (activation(s, q, max_active) is Claimed) ==> (after_activation(s, q, max_active).completed
            == s.completed.push(q.id)),
        (activation(s, q, max_active) is Claimed) ==> (after_activation(s, q, max_active).dragon_seeds
            == saturated(s.dragon_seeds + q.reward_ds)),
        (activation(s, q, max_active) is Claimed) ==> (after_activation(s, q, max_active).level
            == s.level && after_activation(s, q, max_active).xp == s.xp),
        (!(activation(s, q, max_active) is Accepted) && !(activation(s, q, max_active) is Claimed))
            ==> (after_activation(s, q, max_active) == s),
{
}

/// Spending a point with points available and an attribute `index` of 0 to 3 raises
/// exactly that attribute (0 damage, 1 defense, 2 speed, 3 vitality) by one (unless it
/// is at its maximum), leaves the other three as they are, uses one point and says
/// which attribute rose; without points, or with another index, nothing changes.
pub proof fn lemma_spend_raises_the_chosen_attribute(s: PlayerView, index: u32)
    ensures
        (s.unspent_points > 0 && index <= 3) ==> (spend_effect(s, index).unspent_points
            == s.unspent_points - 1),
        (s.unspent_points > 0 && index <= 3) ==> (spend_effect(s, index).attributes.damage
            == if index == 0 { bumped(s.attributes.damage) } else { s.attributes.damage }),
        (s.unspent_points > 0 && index <= 3) ==> (spend_effect(s, index).attributes.defense
            == if index == 1 { bumped(s.attributes.defense) } else { s.attributes.defense }),
        (s.unspent_points > 0 && index <= 3) ==> (spend_effect(s, index).attributes.speed
            == if index == 2 { bumped(s.attributes.speed) } else { s.attributes.speed }),
        (s.unspent_points > 0 && index <= 3) ==> (spend_effect(s, index).attributes.vitality
            == if index == 3 { bumped(s.attributes.vitality) } else { s.attributes.vitality }),
        (s.unspent_points == 0 || index > 3) ==> (spend_effect(s, index) == s),
        (s.unspent_points > 0 && index == 0) ==> (spend_message(s, index) == "Damage increased by 1."@),
        (s.unspent_points > 0 && index == 1) ==> (spend_message(s, index) == "Defense increased by 1."@),
        (s.unspent_points > 0 && index == 2) ==> (spend_message(s, index) == "Speed increased by 1."@),
        (s.unspent_points > 0 && index == 3) ==> (spend_message(s, index) == "Vitality increased by 1."@),
        (s.unspent_points == 0) ==> (spend_message(s, index) == "You have no unspent attribute points."@),
{
}

/// A quest is unlocked exactly when the player's level reaches the quest's and its
/// prerequisite, if it has one, is completed. The journal shows a quest that is neither
/// tracked nor completed as LOCKED unless it is unlocked, and offers to accept it only
/// then; its offer to accept agrees with what accepting it does (it is accepted, or
/// refused for too many tracked quests).
pub proof fn lemma_unlocked_needs_level_and_prerequisite(s: PlayerView, q: QuestView, progress: u64, max_active: usize)
    ensures
        unlocked(s, q) == (s.level >= q.required_level && prerequisite_met(s, q)),
        (!s.has_completed(q.id) && !s.is_active(q.id)) ==> ((status_text(s, q, progress) == "LOCKED"@)
            == !unlocked(s, q)),
        (!s.has_completed(q.id) && !s.is_active(q.id) && !unlocked(s, q)) ==> (detail_action_of(s, q)
            == DetailAction::NoAction),
        (detail_action_of(s, q) == DetailAction::Accept) == ((activation(s, q, max_active) is Accepted)
            || (activation(s, q, max_active) is TooMany)),
{
    reveal_strlit("LOCKED");
    reveal_strlit("AVAILABLE");
    assert("AVAILABLE"@[0] != "LOCKED"@[0]);
}

/// In the attributes menu the first four buttons spend a point on attribute 0 to 3 in
/// their order (damage, defense, speed, vitality), the fifth goes back to the first
/// journal page, and any other press does nothing.
pub proof fn lemma_attribute_buttons(button: u32, qs: Seq<QuestView>, s: PlayerView)
    ensures
        button <= 3 ==> bedrock_choice_of(MenuView::Attributes, button, qs, s) == UiAction::Spend(button),
        button == 4 ==> bedrock_choice_of(MenuView::Attributes, button, qs, s) == UiAction::OpenMain(0),
        button > 4 ==> bedrock_choice_of(MenuView::Attributes, button, qs, s) == UiAction::Nothing,
{
}

/// On a quest's detail form, the first button claims, cancels or accepts the quest as
/// the form offers (for a quest not yet completed); any other press, or a press where
/// nothing is offered, goes back to the journal page the quest was opened from.
pub proof fn lemma_detail_buttons(page: usize, index: usize, button: u32, qs: Seq<QuestView>, s: PlayerView)
    requires
        index < qs.len(),
    ensures
        (button == 0 && !s.has_completed(qs[index as int].id) && detail_action_of(s, qs[index as int])
            == DetailAction::Claim) ==> (bedrock_choice_of(MenuView::QuestDetail { page, index }, button, qs, s)
            == UiAction::Claim { index, page }),
        (button == 0 && !s.has_completed(qs[index as int].id) && detail_action_of(s, qs[index as int])
            == DetailAction::Cancel) ==> (bedrock_choice_of(MenuView::QuestDetail { page, index }, button, qs, s)
            == UiAction::Cancel { index, page }),
        (button == 0 && !s.has_completed(qs[index as int].id) && detail_action_of(s, qs[index as int])
            == DetailAction::Accept) ==> (bedrock_choice_of(MenuView::QuestDetail { page, index }, button, qs, s)
            == UiAction::Accept { index, page }),
        (button != 0 || detail_action_of(s, qs[index as int]) == DetailAction::NoAction) ==> (bedrock_choice_of(
            MenuView::QuestDetail { page, index },
            button,
            qs,
            s,
        ) == UiAction::OpenMain(page)),
{
}

/// On a journal page, the buttons of the listed quests open those quests' details, in
/// catalogue order from the page's first quest, and the button after them opens the
/// attributes menu.
pub proof fn lemma_journal_buttons(page: usize, button: u32, qs: Seq<QuestView>, s: PlayerView)
    ensures
        (button < listed_on_page(qs.len() as int, page as int)) ==> (bedrock_choice_of(
            MenuView::Quests(page),
            button,
            qs,
            s,
        ) == UiAction::OpenQuestDetail { index: (page * 10 + button) as usize, page }),
        (button == listed_on_page(qs.len() as int, page as int)) ==> (bedrock_choice_of(
            MenuView::Quests(page),
            button,
            qs,
            s,
        ) == UiAction::OpenAttributes),
        (button < listed_on_page(qs.len() as int, page as int)) ==> (page * 10 + button < qs.len()),
{
}

/// Cancelling stops tracking the quest, keeps every other quest tracked or untracked as
/// it was, and changes nothing else: completed quests, level, XP, Dragon Seeds,
/// attributes and points stay.
pub proof fn lemma_cancel_rules(s: PlayerView, id: Seq<char>, other: Seq<char>)
    requires
        s.no_repeats(),
    ensures
        !cancel_effect(s, id).is_active(id),
        other != id ==> (cancel_effect(s, id).is_active(other) == s.is_active(other)),
        cancel_effect(s, id).completed == s.completed,
        cancel_effect(s, id).level == s.level && cancel_effect(s, id).xp == s.xp,
        cancel_effect(s, id).dragon_seeds == s.dragon_seeds,
        cancel_effect(s, id).attributes == s.attributes,
        cancel_effect(s, id).unspent_points == s.unspent_points,
        cancel_effect(s, id).active.len() == if s.is_active(id) { s.active.len() - 1 } else { s.active.len() as int },
{
    lemma_cancel_keeps_wf(s, id);
    if s.is_active(id) {
        let k = key_index(s.active, id);
        lemma_key_index(s.active, id);
        let t = cancel_effect(s, id);
        if other != id {
            if s.is_active(other) {
                let j = choose|j: int| 0 <= j < s.active.len() && #[trigger] s.active[j].0 == other;
                assert(j != k);
                let a = if j < k { j } else { j - 1 };
                assert(t.active[a] == s.active[j]);
            }
            if t.is_active(other) {
                let j = choose|j: int| 0 <= j < t.active.len() && #[trigger] t.active[j].0 == other;
                let a = if j < k { j } else { j + 1 };
                assert(t.active[j] == s.active[a]);
            }
        }
    }
}

} // verus!
