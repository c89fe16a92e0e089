use vstd::prelude::*;
use std::collections::HashMap;
use crate::model::{
    key_index, keys_distinct, CurrencyConfig, LastHit, MenuView, ObjectiveKind, PlayerState, PlayerView,
    Quest, QuestBook, QuestConfig, QuestView, SafeZone, SafeZoneBook,
};
use crate::player::{
    activation, activation_message, advance_all, after_activation, cancel_effect, cancel_message, finished_titles,
    lemma_key_index, lemma_key_index_is_first, lemma_key_index_push, lemma_key_index_update,
    lemma_keys_distinct_push, spend_effect, spend_message,
};
use crate::progression::{levels_reached, xp_award, ProgressionConfig, ProgressionView};
use crate::quests::{catalogue_error, catalogue_valid, quests_view};
use crate::model::strings_view;
use crate::ipc::{
    answer_view, encode_ipc_response, ipc_json_text, ipc_request_of, ipc_schema, parse_ipc_request, request_fields,
    IpcAnswer, IpcRequest, IpcResponse,
};
use vstd::utf8::encode_utf8;
use crate::player::{find_quest, quest_position};
use crate::ui::{
    bedrock_choice, bedrock_choice_of, detail_action, detail_action_of, details_text, quest_details, DetailAction, form_button, form_button_pressed, page_in_range, without_player,
    UiAction, UiIntent, INTENTS_PER_TICK,
};
use crate::text::{normalize_id, normalized_id};
use crate::laws::{lemma_activation_keeps_wf, lemma_cancel_keeps_wf};

verus! {

broadcast use vstd::std_specs::hash::group_hash_axioms;

/// The settings the game logic reads.
#[derive(Clone, Debug)]
pub struct Config {
    pub progression: ProgressionConfig,
    pub currency: CurrencyConfig,
    pub quests: QuestConfig,
}

/// The plugin's game state: its configuration, quest catalogue and safe zones, the
/// progression of every player it has seen (keyed by player id), the open Bedrock
/// forms, the spawn and last-hit records of entities, and the menu interactions
/// waiting for the next tick.
pub struct App {
    config: Config,
    quests: Vec<Quest>,
    zones: Vec<SafeZone>,
    players: Vec<(String, PlayerState)>,
    bedrock_forms: HashMap<u32, (String, MenuView)>,
    spawned_types: HashMap<i32, String>,
    last_hits: HashMap<i32, LastHit>,
    ui_intents: Vec<UiIntent>,
}

/// The type recorded for a hit entity: its spawn record, else the detected type
/// (normalized), else `minecraft:player` or `minecraft:entity`.
pub open spec fn hit_target(
    spawned: Map<i32, Seq<char>>,
    entity_id: i32,
    detected_type: Option<&str>,
    victim_is_player: bool,
) -> Seq<char> {
    if spawned.contains_key(entity_id) {
        spawned[entity_id]
    } else {
        match detected_type {
            Some(d) => normalized_id(d@),
            None => if victim_is_player {
                "minecraft:player"@
            } else {
                "minecraft:entity"@
            },
        }
    }
}

pub open spec fn players_view(players: Seq<(String, PlayerState)>) -> Seq<(Seq<char>, PlayerView)> {
    players.map_values(|e: (String, PlayerState)| (e.0@, e.1@))
}

impl App {
    /// The player entries as plain values.
    pub closed spec fn entries(self) -> Seq<(Seq<char>, PlayerView)> {
        players_view(self.players@)
    }

    /// The progression curve is complete, the catalogue valid and no player appears twice.
    pub closed spec fn wf(self) -> bool {
        &&& self.config.progression@.wf()
        &&& catalogue_valid(quests_view(self.quests@))
        &&& keys_distinct(self.entries())
        &&& forall|i: int| 0 <= i < self.entries().len() ==> (#[trigger] self.entries()[i]).1.no_repeats()
        &&& forall|f: u32| #[trigger] self.bedrock_forms@.contains_key(f) ==> page_in_range(self.bedrock_forms@[f].1)
    }

    /// The app holds progression for player `id`.
    pub open spec fn has_player(self, id: Seq<char>) -> bool {
        key_index(self.entries(), id) < self.entries().len()
    }

    /// The progression of player `id`; a new player's where the app holds none.
    pub open spec fn player(self, id: Seq<char>) -> PlayerView {
        if self.has_player(id) {
            self.entries()[key_index(self.entries(), id)].1
        } else {
            PlayerView::initial()
        }
    }

    pub closed spec fn catalogue(self) -> Seq<QuestView> {
        quests_view(self.quests@)
    }

    pub closed spec fn progression(self) -> ProgressionView {
        self.config.progression@
    }

    pub closed spec fn settings(self) -> Config {
        self.config
    }

    pub closed spec fn safe_zones(self) -> Seq<SafeZone> {
        self.zones@
    }

    pub closed spec fn max_active(self) -> usize {
        self.config.quests.max_active
    }

    /// Configuration, catalogue and zones are those of `other`.
    pub open spec fn same_setup(self, other: App) -> bool {
        &&& self.settings() == other.settings()
        &&& self.catalogue() == other.catalogue()
        &&& self.safe_zones() == other.safe_zones()
        &&& self.progression() == other.progression()
        &&& self.max_active() == other.max_active()
    }

    /// Open Bedrock forms: form id to the player it was shown to and the menu it shows.
    pub closed spec fn forms(self) -> Map<u32, (Seq<char>, MenuView)> {
        self.bedrock_forms@.map_values(|v: (String, MenuView)| (v.0@, v.1))
    }

    /// Entity id to the normalized type of the entity, as it was spawned.
    pub closed spec fn spawned(self) -> Map<i32, Seq<char>> {
        self.spawned_types@.map_values(|v: String| v@)
    }

    /// Entity id to the player who last hit it and the normalized type of the entity.
    pub closed spec fn hits(self) -> Map<i32, (Seq<char>, Seq<char>)> {
        self.last_hits@.map_values(|h: LastHit| (h.player_id@, h.target@))
    }

    /// Menu interactions waiting for the next tick, oldest first.
    pub closed spec fn intents(self) -> Seq<UiIntent> {
        self.ui_intents@
    }

    /// The form, spawn, hit and intent tables are those of `other`.
    pub open spec fn same_tables(self, other: App) -> bool {
        &&& self.intents() == other.intents()
        &&& self.forms() == other.forms()
        &&& self.spawned() == other.spawned()
        &&& self.hits() == other.hits()
    }

    /// In every player's progression the app holds, or gives for a new player, no
    /// quest is tracked twice and none is completed twice.
    pub proof fn lemma_player_no_repeats(self, id: Seq<char>)
        requires
            self.wf(),
        ensures
            self.player(id).no_repeats(),
    {
        lemma_key_index(self.entries(), id);
        assert(PlayerView::initial().completed =~= Seq::<Seq<char>>::empty());
    }

    /// `self` holds the same players as `old`.
    pub open spec fn same_players(self, old: App) -> bool {
        forall|o: Seq<char>|
            #[trigger] self.has_player(o) == old.has_player(o) && self.player(o) == old.player(o)
    }

    /// `self` is `old` with player `id`'s progression set to `v` and nothing else changed.
    pub open spec fn updated_from(self, old: App, id: Seq<char>, v: PlayerView) -> bool {
        &&& self.wf()
        &&& self.same_setup(old)
        &&& self.same_tables(old)
        &&& self.has_player(id)
        &&& self.player(id) == v
        &&& forall|o: Seq<char>|
            o != id ==> #[trigger] self.has_player(o) == old.has_player(o) && self.player(o)
                == old.player(o)
    }

    /// `self` holds the same as `old`.
    pub open spec fn unchanged_from(self, old: App) -> bool {
        &&& self.wf()
        &&& self.same_setup(old)
        &&& self.same_tables(old)
        &&& self.same_players(old)
    }

    /// Builds the app from its parsed configuration, refusing an invalid quest catalogue
    /// with the message `validate_quests` gives.
    pub fn load(config: Config, quests: QuestBook, zones: SafeZoneBook) -> (r: Result<App, String>)
        requires
            config.progression@.wf(),
        ensures
            match r {
                Ok(app) => {
                    &&& app.wf()
                    &&& app.catalogue() == quests_view(quests.quests@)
                    &&& app.progression() == config.progression@
                    &&& app.max_active() == config.quests.max_active
                    &&& app.settings() == config
                    &&& app.safe_zones() == zones.zones@
                    &&& forall|o: Seq<char>| !#[trigger] app.has_player(o)
                    &&& app.forms() == Map::<u32, (Seq<char>, MenuView)>::empty()
                    &&& app.spawned() == Map::<i32, Seq<char>>::empty()
                    &&& app.hits() == Map::<i32, (Seq<char>, Seq<char>)>::empty()
                    &&& app.intents() == Seq::<UiIntent>::empty()
                },
                Err(e) => catalogue_error(quests_view(quests.quests@)) == Some(e@),
            },
            r is Ok <==> catalogue_valid(quests_view(quests.quests@)),
    {
        match App::validate_quests(&quests.quests) {
            Err(e) => Err(e),
            Ok(()) => {
                let app = App {
                    config,
                    quests: quests.quests,
                    zones: zones.zones,
                    players: Vec::new(),
                    bedrock_forms: HashMap::new(),
                    spawned_types: HashMap::new(),
                    last_hits: HashMap::new(),
                    ui_intents: Vec::new(),
                };
                assert(app.entries() =~= Seq::empty());
                assert(app.forms() =~= Map::empty());
                assert(app.spawned() =~= Map::empty());
                assert(app.hits() =~= Map::empty());
                Ok(app)
            },
        }
    }

    /// Replaces configuration, catalogue and zones at once, or, where the new catalogue
    /// is invalid, changes nothing and returns the validation error.
    pub fn reload(&mut self, config: Config, quests: QuestBook, zones: SafeZoneBook) -> (r: Result<(), String>)
        requires
            old(self).wf(),
            config.progression@.wf(),
        ensures
            final(self).wf(),
            final(self).same_players(*old(self)),
            final(self).same_tables(*old(self)),
            match r {
                Ok(()) => {
                    &&& final(self).catalogue() == quests_view(quests.quests@)
                    &&& final(self).settings() == config
                    &&& final(self).safe_zones() == zones.zones@
                    &&& final(self).progression() == config.progression@
                    &&& final(self).max_active() == config.quests.max_active
                },
                Err(e) => {
                    &&& catalogue_error(quests_view(quests.quests@)) == Some(e@)
                    &&& final(self).same_setup(*old(self))
                },
            },
            r is Ok <==> catalogue_valid(quests_view(quests.quests@)),
    {
        match App::validate_quests(&quests.quests) {
            Err(e) => Err(e),
            Ok(()) => {
                self.config = config;
                self.quests = quests.quests;
                self.zones = zones.zones;
                Ok(())
            },
        }
    }

    /// The configuration in use.
    pub fn config(&self) -> (r: &Config)
        ensures
            *r == self.settings(),
            r.progression@ == self.progression(),
            r.quests.max_active == self.max_active(),
    {
        &self.config
    }

    /// The quest catalogue in use.
    pub fn quests(&self) -> (r: &Vec<Quest>)
        ensures
            quests_view(r@) == self.catalogue(),
    {
        &self.quests
    }

    /// The safe zones in use.
    pub fn zones(&self) -> (r: &Vec<SafeZone>)
        ensures
            r@ == self.safe_zones(),
    {
        &self.zones
    }

    fn find_player(&self, id: &String) -> (r: usize)
        ensures
            r == key_index(self.entries(), id@),
            r <= self.players.len(),
    {
        let ghost e = self.entries();
        let n = self.players.len();
        let mut i: usize = 0;
        while i < n
            invariant
                e == self.entries(),
                n == self.players.len(),
                i <= n,
                forall|j: int| 0 <= j < i ==> #[trigger] e[j].0 != id@,
            decreases n - i,
        {
            if self.players[i].0 == *id {
                proof {
                    lemma_key_index_is_first(e, id@, i as int);
                }
                return i;
            }
            i = i + 1;
        }
        proof {
            lemma_key_index_is_first(e, id@, n as int);
        }
        n
    }

    /// Whether the app holds progression for player `id`.
    pub fn knows_player(&self, id: &str) -> (r: bool)
        ensures
            r == self.has_player(id@),
    {
        let key = String::from_str(id);
        self.find_player(&key) < self.players.len()
    }

    /// Makes sure the app holds progression for player `id`: where it holds none, it
    /// takes `stored`, the state read from the player's save file.
    pub fn ensure_player(&mut self, id: &str, stored: PlayerState)
        requires
            old(self).wf(),
            stored@.no_repeats(),
        ensures
            final(self).updated_from(
                *old(self),
                id@,
                if old(self).has_player(id@) {
                    old(self).player(id@)
                } else {
                    stored@
                },
            ),
    {
        let key = String::from_str(id);
        let i = self.find_player(&key);
        if i == self.players.len() {
            let ghost e0 = self.entries();
            proof {
                lemma_key_index(e0, id@);
            }
            self.players.push((key, stored));
            proof {
                assert(self.entries() =~= e0.push((id@, stored@)));
                lemma_keys_distinct_push(e0, id@, stored@);
                lemma_key_index_push(e0, id@, stored@, id@);
                assert forall|o: Seq<char>| o != id@ implies #[trigger] self.has_player(o)
                    == old(self).has_player(o) && self.player(o) == old(self).player(o) by {
                    lemma_key_index_push(e0, id@, stored@, o);
                    lemma_key_index(e0, o);
                    let k = key_index(e0, o);
                    if k < e0.len() {
                        assert(self.entries()[k] == e0[k]);
                    }
                }
            }
        }
    }

    /// A copy of player `id`'s progression; a new player's where the app holds none.
    pub fn snapshot(&self, id: &str) -> (r: PlayerState)
        requires
            self.wf(),
        ensures
            r@ == self.player(id@),
            !self.has_player(id@) ==> r@ == PlayerView::initial(),
            r@.no_repeats(),
    {
        proof {
            self.lemma_player_no_repeats(id@);
        }
        let key = String::from_str(id);
        let i = self.find_player(&key);
        if i < self.players.len() {
            self.players[i].1.copy()
        } else {
            PlayerState::new()
        }
    }

    /// Awards `amount` XP to player `id` and levels the player up as far as it reaches.
    /// Returns the levels reached, in order.
    pub fn award_xp(&mut self, id: &str, amount: u64) -> (levels: Vec<u32>)
        requires
            old(self).wf(),
        ensures
            final(self).updated_from(
                *old(self),
                id@,
                xp_award(old(self).progression(), old(self).player(id@), amount),
            ),
            levels@ == levels_reached(old(self).player(id@).level, final(self).player(id@).level),
    {
        let key = String::from_str(id);
        let i = self.slot(&key);
        let mut state = self.players[i].1.copy();
        let levels = state.gain_xp(amount, &self.config.progression);
        self.store(i, key, state);
        levels
    }

    /// Records an event of `kind` on `raw_target` (normalized first) against player
    /// `id`'s active quests. Returns the titles of the quests whose objective is now
    /// complete.
    pub fn progress(&mut self, id: &str, kind: ObjectiveKind, raw_target: &str, amount: u64) -> (finished: Vec<String>)
        requires
            old(self).wf(),
        ensures
            final(self).updated_from(
                *old(self),
                id@,
                old(self).player(id@).with_active(
                    advance_all(
                        old(self).catalogue(),
                        kind,
                        normalized_id(raw_target@),
                        amount,
                        old(self).player(id@).active,
                    ),
                ),
            ),
            strings_view(finished@) == finished_titles(
                old(self).catalogue(),
                kind,
                normalized_id(raw_target@),
                amount,
                old(self).player(id@).active,
            ),
    {
        let key = String::from_str(id);
        let target = normalize_id(raw_target);
        let i = self.slot(&key);
        let mut state = self.players[i].1.copy();
        let finished = state.record_progress(&self.quests, kind, &target, amount);
        self.store(i, key, state);
        finished
    }

    /// Player `id`'s progression after an event of `kind` on `raw_target` counting
    /// `amount` and an award of `xp` XP.
    pub open spec fn after_event(self, id: Seq<char>, kind: ObjectiveKind, raw_target: Seq<char>, amount: u64, xp: u64) -> PlayerView {
        let s = self.player(id);
        xp_award(
            self.progression(),
            s.with_active(advance_all(self.catalogue(), kind, normalized_id(raw_target), amount, s.active)),
            xp,
        )
    }

    /// An event counts toward quests and earns XP. Returns the titles of the quests
    /// whose objective is complete and the levels reached.
    fn reward_event(&mut self, id: &str, kind: ObjectiveKind, raw_target: &str, amount: u64, xp: u64) -> (r: (Vec<String>, Vec<u32>))
        requires
            old(self).wf(),
        ensures
            final(self).updated_from(*old(self), id@, old(self).after_event(id@, kind, raw_target@, amount, xp)),
            strings_view(r.0@) == finished_titles(
                old(self).catalogue(),
                kind,
                normalized_id(raw_target@),
                amount,
                old(self).player(id@).active,
            ),
            r.1@ == levels_reached(old(self).player(id@).level, final(self).player(id@).level),
    {
        let ghost a0 = *self;
        let finished = self.progress(id, kind, raw_target, amount);
        let ghost a1 = *self;
        let levels = self.award_xp(id, xp);
        proof {
            assert forall|o: Seq<char>| o != id@ implies #[trigger] self.has_player(o)
                == a0.has_player(o) && self.player(o) == a0.player(o) by {
                assert(a1.has_player(o) == a0.has_player(o));
            }
        }
        (finished, levels)
    }

    /// Player `id` broke `block`: it counts once toward mining quests and earns 2 XP.
    pub fn block_broken(&mut self, id: &str, block: &str) -> (r: (Vec<String>, Vec<u32>))
        requires
            old(self).wf(),
        ensures
            final(self).updated_from(*old(self), id@, old(self).after_event(id@, ObjectiveKind::Mine, block@, 1, 2)),
            strings_view(r.0@) == finished_titles(
                old(self).catalogue(),
                ObjectiveKind::Mine,
                normalized_id(block@),
                1,
                old(self).player(id@).active,
            ),
            r.1@ == levels_reached(old(self).player(id@).level, final(self).player(id@).level),
    {
        self.reward_event(id, ObjectiveKind::Mine, block, 1, 2)
    }

    /// Player `id` picked up `count` of `item`: they count toward collecting quests and
    /// earn as much XP, up to 5.
    pub fn item_picked_up(&mut self, id: &str, item: &str, count: u32) -> (r: (Vec<String>, Vec<u32>))
        requires
            old(self).wf(),
        ensures
            final(self).updated_from(
                *old(self),
                id@,
                old(self).after_event(id@, ObjectiveKind::Collect, item@, count as u64, if count < 5 { count as u64 } else { 5 }),
            ),
            strings_view(r.0@) == finished_titles(
                old(self).catalogue(),
                ObjectiveKind::Collect,
                normalized_id(item@),
                count as u64,
                old(self).player(id@).active,
            ),
            r.1@ == levels_reached(old(self).player(id@).level, final(self).player(id@).level),
    {
        let xp: u64 = if count < 5 { count as u64 } else { 5 };
        self.reward_event(id, ObjectiveKind::Collect, item, count as u64, xp)
    }

    /// Player `id` killed an entity of type `target`: it counts once toward killing
    /// quests and earns 10 XP.
    pub fn entity_killed(&mut self, id: &str, target: &str) -> (r: (Vec<String>, Vec<u32>))
        requires
            old(self).wf(),
        ensures
            final(self).updated_from(*old(self), id@, old(self).after_event(id@, ObjectiveKind::Kill, target@, 1, 10)),
            strings_view(r.0@) == finished_titles(
                old(self).catalogue(),
                ObjectiveKind::Kill,
                normalized_id(target@),
                1,
                old(self).player(id@).active,
            ),
            r.1@ == levels_reached(old(self).player(id@).level, final(self).player(id@).level),
    {
        self.reward_event(id, ObjectiveKind::Kill, target, 1, 10)
    }

    /// The detail view of the quest at `index` for player `id`: the quest, its details
    /// text (with the currency symbol) and the action its button offers; where the
    /// catalogue has no such quest, the message that says so.
    pub fn quest_detail(&self, id: &str, index: usize) -> (r: Result<(&Quest, String, DetailAction), String>)
        requires
            self.wf(),
        ensures
            r is Err <==> index >= self.catalogue().len(),
            match r {
                Ok(d) => {
                    &&& d.0@ == self.catalogue()[index as int]
                    &&& d.1@ == details_text(self.player(id@), d.0@, self.settings().currency.symbol@)
                    &&& d.2 == detail_action_of(self.player(id@), d.0@)
                },
                Err(e) => e@ == "That quest no longer exists."@,
            },
    {
        if index >= self.quests.len() {
            return Err(String::from_str("That quest no longer exists."));
        }
        let state = self.snapshot(id);
        let quest = &self.quests[index];
        let details = quest_details(&state, quest, self.config.currency.symbol.as_str());
        let action = detail_action(&state, quest);
        Ok((quest, details, action))
    }

    /// Player `id`'s progression after accepting or claiming the quest at
    /// `quest_index`: a claim also pays the quest's XP.
    pub open spec fn activation_outcome(self, id: Seq<char>, quest_index: int) -> PlayerView {
        let q = self.catalogue()[quest_index];
        let s = self.player(id);
        let s1 = after_activation(s, q, self.max_active());
        if activation(s, q, self.max_active()) is Claimed {
            xp_award(self.progression(), s1, q.reward_xp)
        } else {
            s1
        }
    }

    /// Accepts the quest at `quest_index`, or claims it when its objective is met; a
    /// claim pays the quest's Dragon Seeds and then its XP. Returns the message for the
    /// player and the levels the XP reward reached.
    pub fn activate_or_claim(&mut self, id: &str, quest_index: usize) -> (r: (String, Vec<u32>))
        requires
            old(self).wf(),
        ensures
            quest_index >= old(self).catalogue().len() ==> {
                &&& r.0@ == "That quest no longer exists."@
                &&& r.1@ == Seq::<u32>::empty()
                &&& final(self).unchanged_from(*old(self))
            },
            quest_index < old(self).catalogue().len() ==> {
                let q = old(self).catalogue()[quest_index as int];
                let s = old(self).player(id@);
                let s1 = after_activation(s, q, old(self).max_active());
                let s2 = old(self).activation_outcome(id@, quest_index as int);
                &&& final(self).updated_from(*old(self), id@, s2)
                &&& r.0@ == activation_message(s, q, old(self).max_active())
                &&& r.1@ == levels_reached(s1.level, s2.level)
            },
    {
        if quest_index >= self.quests.len() {
            return (String::from_str("That quest no longer exists."), Vec::new());
        }
        let key = String::from_str(id);
        let i = self.slot(&key);
        let mut state = self.players[i].1.copy();
        proof {
            self.lemma_player_no_repeats(key@);
            lemma_activation_keeps_wf(state@, self.quests@[quest_index as int]@, self.config.quests.max_active);
        }
        let (message, reward) = state.activate_or_claim_quest(
            &self.quests[quest_index],
            self.config.quests.max_active,
        );
        let levels = match reward {
            Some(xp) => state.gain_xp(xp, &self.config.progression),
            None => Vec::new(),
        };
        self.store(i, key, state);
        (message, levels)
    }

    /// Stops player `id` tracking the quest at `quest_index`.
    pub fn cancel_quest(&mut self, id: &str, quest_index: usize) -> (message: String)
        requires
            old(self).wf(),
        ensures
            quest_index >= old(self).catalogue().len() ==> {
                &&& message@ == "That quest no longer exists."@
                &&& final(self).unchanged_from(*old(self))
            },
            quest_index < old(self).catalogue().len() ==> {
                let q = old(self).catalogue()[quest_index as int];
                &&& final(self).updated_from(*old(self), id@, cancel_effect(old(self).player(id@), q.id))
                &&& message@ == cancel_message(old(self).player(id@), q)
            },
    {
        if quest_index >= self.quests.len() {
            return String::from_str("That quest no longer exists.");
        }
        let key = String::from_str(id);
        let i = self.slot(&key);
        let mut state = self.players[i].1.copy();
        proof {
            self.lemma_player_no_repeats(key@);
            lemma_cancel_keeps_wf(state@, self.quests@[quest_index as int]@.id);
        }
        let message = state.cancel_quest_entry(&self.quests[quest_index]);
        self.store(i, key, state);
        message
    }

    /// Spends one of player `id`'s unspent points on attribute `index` (0 damage,
    /// 1 defense, 2 speed, 3 vitality). Returns the message for the player.
    pub fn spend_attribute(&mut self, id: &str, index: u32) -> (message: String)
        requires
            old(self).wf(),
        ensures
            final(self).updated_from(*old(self), id@, spend_effect(old(self).player(id@), index)),
            message@ == spend_message(old(self).player(id@), index),
    {
        let key = String::from_str(id);
        let i = self.slot(&key);
        let mut state = self.players[i].1.copy();
        let message = state.spend_point(index);
        self.store(i, key, state);
        message
    }

    /// Remembers the type of a newly spawned entity (normalized).
    pub fn record_spawn(&mut self, entity_id: i32, entity_type: &str)
        requires
            old(self).wf(),
        ensures
            final(self).wf(),
            final(self).same_setup(*old(self)),
            final(self).same_players(*old(self)),
            final(self).intents() == old(self).intents(),
            final(self).spawned() == old(self).spawned().insert(entity_id, normalized_id(entity_type@)),
            final(self).hits() == old(self).hits(),
            final(self).forms() == old(self).forms(),
    {
        self.spawned_types.insert(entity_id, normalize_id(entity_type));
        proof {
            assert(self.spawned() =~= old(self).spawned().insert(entity_id, normalized_id(entity_type@)));
        }
    }

    /// Remembers that player `attacker_id` hit entity `entity_id`. The entity's type is
    /// the one recorded when it spawned, else `detected_type` (normalized) — the type of
    /// the entity the attacker is looking at, where that is the entity hit — else
    /// `minecraft:player` or `minecraft:entity`.
    pub fn record_hit(
        &mut self,
        entity_id: i32,
        attacker_id: &str,
        detected_type: Option<&str>,
        victim_is_player: bool,
    )
        requires
            old(self).wf(),
        ensures
            final(self).wf(),
            final(self).same_setup(*old(self)),
            final(self).same_players(*old(self)),
            final(self).intents() == old(self).intents(),
            final(self).hits() == old(self).hits().insert(
                entity_id,
                (attacker_id@, hit_target(old(self).spawned(), entity_id, detected_type, victim_is_player)),
            ),
            final(self).spawned() == old(self).spawned(),
            final(self).forms() == old(self).forms(),
    {
        let target = match self.spawned_types.get(&entity_id) {
            Some(t) => t.clone(),
            None => match detected_type {
                Some(d) => normalize_id(d),
                None => if victim_is_player {
                    String::from_str("minecraft:player")
                } else {
                    String::from_str("minecraft:entity")
                },
            },
        };
        let hit = LastHit { player_id: String::from_str(attacker_id), target };
        self.last_hits.insert(entity_id, hit);
        proof {
            assert(self.hits() =~= old(self).hits().insert(
                entity_id,
                (attacker_id@, hit_target(old(self).spawned(), entity_id, detected_type, victim_is_player)),
            ));
        }
    }

    /// An entity died: forgets its type and last hit, and returns the last hit.
    pub fn entity_died(&mut self, entity_id: i32) -> (r: Option<LastHit>)
        requires
            old(self).wf(),
        ensures
            final(self).wf(),
            final(self).same_setup(*old(self)),
            final(self).same_players(*old(self)),
            final(self).intents() == old(self).intents(),
            match r {
                Some(h) => old(self).hits().contains_key(entity_id) && old(self).hits()[entity_id]
                    == (h.player_id@, h.target@),
                None => !old(self).hits().contains_key(entity_id),
            },
            final(self).hits() == old(self).hits().remove(entity_id),
            final(self).spawned() == old(self).spawned().remove(entity_id),
            final(self).forms() == old(self).forms(),
    {
        let r = self.last_hits.remove(&entity_id);
        self.spawned_types.remove(&entity_id);
        proof {
            assert(self.hits() =~= old(self).hits().remove(entity_id));
            assert(self.spawned() =~= old(self).spawned().remove(entity_id));
        }
        r
    }

    /// Remembers that Bedrock form `form_id` shows `view` to player `player_id`.
    pub fn register_form(&mut self, form_id: u32, player_id: &str, view: MenuView)
        requires
            old(self).wf(),
            page_in_range(view),
        ensures
            final(self).wf(),
            final(self).same_setup(*old(self)),
            final(self).same_players(*old(self)),
            final(self).intents() == old(self).intents(),
            final(self).forms() == old(self).forms().insert(form_id, (player_id@, view)),
            final(self).spawned() == old(self).spawned(),
            final(self).hits() == old(self).hits(),
    {
        self.bedrock_forms.insert(form_id, (String::from_str(player_id), view));
        proof {
            assert(self.forms() =~= old(self).forms().insert(form_id, (player_id@, view)));
        }
    }

    /// Takes the record of Bedrock form `form_id` (a form is answered once).
    pub fn take_form(&mut self, form_id: u32) -> (r: Option<(String, MenuView)>)
        requires
            old(self).wf(),
        ensures
            final(self).wf(),
            final(self).same_setup(*old(self)),
            final(self).same_players(*old(self)),
            final(self).intents() == old(self).intents(),
            match r {
                Some(f) => old(self).forms().contains_key(form_id) && old(self).forms()[form_id]
                    == (f.0@, f.1),
                None => !old(self).forms().contains_key(form_id),
            },
            final(self).forms() == old(self).forms().remove(form_id),
            final(self).spawned() == old(self).spawned(),
            final(self).hits() == old(self).hits(),
    {
        let r = self.bedrock_forms.remove(&form_id);
        proof {
            assert(self.forms() =~= old(self).forms().remove(form_id));
        }
        r
    }

    /// The answer about player `id`'s first tracked quest: that quest's id, title and
    /// progress where the player tracks a quest the catalogue holds, else all `None`.
    pub open spec fn active_quest_answer(self, id: Seq<char>) -> IpcAnswer {
        let s = self.player(id);
        let k = if self.has_player(id) && s.active.len() > 0 {
            quest_position(self.catalogue(), s.active[0].0)
        } else {
            self.catalogue().len() as int
        };
        if k < self.catalogue().len() {
            IpcAnswer::ActiveQuest {
                quest_id: Some(self.catalogue()[k].id),
                quest_name: Some(self.catalogue()[k].title),
                quest_progress: Some(s.active[0].1),
            }
        } else {
            IpcAnswer::ActiveQuest { quest_id: None, quest_name: None, quest_progress: None }
        }
    }

    /// The answer to a request with fields `f` (schema, version, action, player).
    pub open spec fn ipc_answer(
        self,
        f: (Option<Seq<char>>, Option<u64>, Option<Seq<char>>, Option<Seq<char>>),
    ) -> Result<IpcAnswer, Seq<char>> {
        if f.0 != Some(ipc_schema()) || f.1 != Some(1u64) {
            Err("unsupported CalabazaTales IPC schema"@)
        } else {
            match f.2 {
                None => Err("missing action"@),
                Some(a) => if a == "capabilities"@ {
                    Ok(IpcAnswer::Capabilities)
                } else if a == "active_quest"@ {
                    match f.3 {
                        None => Err("missing player"@),
                        Some(p) => Ok(self.active_quest_answer(p)),
                    }
                } else {
                    Err("unsupported action"@)
                },
            }
        }
    }

    /// The reply to the raw message `message`: its JSON answer as UTF-8 bytes, or the
    /// error text.
    pub open spec fn ipc_reply(self, message: Seq<u8>) -> Result<Seq<u8>, Seq<char>> {
        match ipc_request_of(message) {
            Err(e) => Err("invalid request: "@ + e),
            Ok(f) => match self.ipc_answer(f) {
                Ok(a) => Ok(encode_utf8(ipc_json_text(a))),
                Err(e) => Err(e),
            },
        }
    }

    /// Answers a raw inter-plugin message (JSON): parses its fields, answers them with
    /// `ipc_response` and writes the answer as JSON. Reads the app, changes nothing.
    pub fn handle_ipc_message(&self, message: &[u8]) -> (r: Result<Vec<u8>, String>)
        requires
            self.wf(),
        ensures
            match r {
                Ok(b) => self.ipc_reply(message@) == Ok::<Seq<u8>, Seq<char>>(b@),
                Err(e) => self.ipc_reply(message@) == Err::<Seq<u8>, Seq<char>>(e@),
            },
    {
        let request = match parse_ipc_request(message) {
            Ok(q) => q,
            Err(e) => {
                let mut m = String::from_str("invalid request: ");
                m.append(e.as_str());
                return Err(m);
            },
        };
        match self.ipc_response(&request) {
            Ok(a) => Ok(encode_ipc_response(&a)),
            Err(e) => Err(e),
        }
    }

    /// Answers an inter-plugin request: `capabilities`, or `active_quest` for a player.
    pub fn ipc_response(&self, request: &IpcRequest) -> (r: Result<IpcResponse, String>)
        requires
            self.wf(),
        ensures
            answer_view(r) == self.ipc_answer(request_fields(*request)),
    {
        let schema_ok = match &request.schema {
            Some(s) => *s == String::from_str("calabazatales.ipc"),
            None => false,
        };
        if !schema_ok || request.version != Some(1u64) {
            return Err(String::from_str("unsupported CalabazaTales IPC schema"));
        }
        let action = match &request.action {
            Some(a) => a,
            None => return Err(String::from_str("missing action")),
        };
        if *action == String::from_str("capabilities") {
            proof {
                reveal_strlit("capabilities");
                reveal_strlit("active_quest");
                assert("capabilities"@[0] != "active_quest"@[0]);
            }
            return Ok(IpcResponse::Capabilities);
        }
        if *action != String::from_str("active_quest") {
            return Err(String::from_str("unsupported action"));
        }
        let player = match &request.player {
            Some(p) => p,
            None => return Err(String::from_str("missing player")),
        };
        let i = self.find_player(player);
        if i < self.players.len() && self.players[i].1.active.len() > 0 {
            proof {
                lemma_key_index(self.entries(), player@);
            }
            let k = find_quest(&self.quests, &self.players[i].1.active[0].0);
            if k < self.quests.len() {
                return Ok(IpcResponse::ActiveQuest {
                    quest_id: Some(self.quests[k].id.clone()),
                    quest_name: Some(self.quests[k].title.clone()),
                    quest_progress: Some(self.players[i].1.active[0].1),
                });
            }
        }
        Ok(IpcResponse::ActiveQuest { quest_id: None, quest_name: None, quest_progress: None })
    }

    /// Answers a Bedrock form: the form's record is taken, and where it was shown to
    /// `player_id` and the answer was a button press (`button`), the choice is decided
    /// by the menu the form showed, the catalogue and the player's progression.
    pub fn bedrock_response(&mut self, player_id: &str, form_id: u32, button: Option<u32>) -> (r: UiAction)
        requires
            old(self).wf(),
        ensures
            final(self).wf(),
            final(self).same_setup(*old(self)),
            final(self).same_players(*old(self)),
            final(self).intents() == old(self).intents(),
            final(self).forms() == old(self).forms().remove(form_id),
            final(self).spawned() == old(self).spawned(),
            final(self).hits() == old(self).hits(),
            r == if old(self).forms().contains_key(form_id) && old(self).forms()[form_id].0
                == player_id@ && button is Some {
                bedrock_choice_of(
                    old(self).forms()[form_id].1,
                    button.unwrap(),
                    old(self).catalogue(),
                    old(self).player(player_id@),
                )
            } else {
                UiAction::Nothing
            },
    {
        let form = self.take_form(form_id);
        let (expected, view) = match form {
            Some(f) => f,
            None => return UiAction::Nothing,
        };
        if expected != String::from_str(player_id) {
            return UiAction::Nothing;
        }
        let b = match button {
            Some(b) => b,
            None => return UiAction::Nothing,
        };
        assert(page_in_range(old(self).forms()[form_id].1));
        let state = self.snapshot(player_id);
        bedrock_choice(view, b, &self.quests, &state)
    }

    /// Answers a Bedrock form from its raw response payload (see `bedrock_response`);
    /// a payload that is no button press (a closed form, a toggle, a custom form)
    /// leads nowhere.
    pub fn bedrock_form_response(&mut self, player_id: &str, form_id: u32, response_data: Option<String>) -> (r: UiAction)
        requires
            old(self).wf(),
        ensures
            final(self).wf(),
            final(self).same_setup(*old(self)),
            final(self).same_players(*old(self)),
            final(self).intents() == old(self).intents(),
            final(self).forms() == old(self).forms().remove(form_id),
            final(self).spawned() == old(self).spawned(),
            final(self).hits() == old(self).hits(),
            ({
                let button = form_button_pressed(crate::ipc::opt_view(response_data));
                r == if old(self).forms().contains_key(form_id) && old(self).forms()[form_id].0
                    == player_id@ && button is Some {
                    bedrock_choice_of(
                        old(self).forms()[form_id].1,
                        button.unwrap(),
                        old(self).catalogue(),
                        old(self).player(player_id@),
                    )
                } else {
                    UiAction::Nothing
                }
            }),
    {
        let button = form_button(response_data);
        self.bedrock_response(player_id, form_id, button)
    }

    /// Records a menu interaction for the next tick.
    pub fn enqueue_ui(&mut self, intent: UiIntent)
        requires
            old(self).wf(),
        ensures
            final(self).wf(),
            final(self).same_setup(*old(self)),
            final(self).same_players(*old(self)),
            final(self).intents() == old(self).intents().push(intent),
            final(self).forms() == old(self).forms(),
            final(self).spawned() == old(self).spawned(),
            final(self).hits() == old(self).hits(),
    {
        self.ui_intents.push(intent);
    }

    /// Takes the oldest waiting menu interactions, at most `INTENTS_PER_TICK` of them.
    pub fn take_ui_batch(&mut self) -> (batch: Vec<UiIntent>)
        requires
            old(self).wf(),
        ensures
            final(self).wf(),
            final(self).same_setup(*old(self)),
            final(self).same_players(*old(self)),
            batch@.len() == if old(self).intents().len() < 64 { old(self).intents().len() } else { 64 },
            batch@ + final(self).intents() == old(self).intents(),
            final(self).forms() == old(self).forms(),
            final(self).spawned() == old(self).spawned(),
            final(self).hits() == old(self).hits(),
    {
        let count = if self.ui_intents.len() < INTENTS_PER_TICK {
            self.ui_intents.len()
        } else {
            INTENTS_PER_TICK
        };
        let mut batch: Vec<UiIntent> = Vec::new();
        let mut i: usize = 0;
        while i < count
            invariant
                i <= count,
                count <= old(self).ui_intents@.len(),
                batch@.len() == i,
                batch@ + self.ui_intents@ == old(self).ui_intents@,
                self.config == old(self).config,
                self.quests == old(self).quests,
                self.zones == old(self).zones,
                self.players == old(self).players,
                self.bedrock_forms == old(self).bedrock_forms,
                self.spawned_types == old(self).spawned_types,
                self.last_hits == old(self).last_hits,
            decreases count - i,
        {
            let ghost before = self.ui_intents@;
            let ghost b0 = batch@;
            let intent = self.ui_intents.remove(0);
            batch.push(intent);
            assert(batch@ + self.ui_intents@ =~= b0 + before);
            i = i + 1;
        }
        batch
    }

    /// Drops the waiting menu interactions of player `id` (who left), keeping the
    /// others in order.
    pub fn forget_player_intents(&mut self, id: &str)
        requires
            old(self).wf(),
        ensures
            final(self).wf(),
            final(self).same_setup(*old(self)),
            final(self).same_players(*old(self)),
            final(self).intents() == without_player(old(self).intents(), id@),
            final(self).forms() == old(self).forms(),
            final(self).spawned() == old(self).spawned(),
            final(self).hits() == old(self).hits(),
    {
        let key = String::from_str(id);
        let ghost orig = self.ui_intents@;
        let mut kept: Vec<UiIntent> = Vec::new();
        let n = self.ui_intents.len();
        let mut i: usize = 0;
        while i < n
            invariant
                n == orig.len(),
                i <= n,
                self.ui_intents@ == orig.skip(i as int),
                kept@ == without_player(orig.take(i as int), key@),
                self.config == old(self).config,
                self.quests == old(self).quests,
                self.zones == old(self).zones,
                self.players == old(self).players,
                self.bedrock_forms == old(self).bedrock_forms,
                self.spawned_types == old(self).spawned_types,
                self.last_hits == old(self).last_hits,
                orig == old(self).ui_intents@,
            decreases n - i,
        {
            let ghost before = self.ui_intents@;
            let intent = self.ui_intents.remove(0);
            assert(intent == orig[i as int]);
            assert(self.ui_intents@ =~= orig.skip(i + 1));
            assert(orig.take(i + 1).drop_last() =~= orig.take(i as int));
            assert(orig.take(i + 1).last() == orig[i as int]);
            if *intent.player_id() != key {
                kept.push(intent);
            }
            i = i + 1;
        }
        assert(orig.take(n as int) =~= orig);
        self.ui_intents = kept;
    }

    /// The slot of player `id`, added with a new player's progression where missing.
    fn slot(&mut self, key: &String) -> (i: usize)
        requires
            old(self).wf(),
        ensures
            final(self).updated_from(*old(self), key@, old(self).player(key@)),
            i < final(self).players.len(),
            i == key_index(final(self).entries(), key@),
    {
        let i = self.find_player(key);
        if i == self.players.len() {
            let ghost e0 = self.entries();
            proof {
                lemma_key_index(e0, key@);
            }
            self.players.push((key.clone(), PlayerState::new()));
            proof {
                assert(self.entries() =~= e0.push((key@, PlayerView::initial())));
                lemma_keys_distinct_push(e0, key@, PlayerView::initial());
                lemma_key_index_push(e0, key@, PlayerView::initial(), key@);
                assert forall|o: Seq<char>| o != key@ implies #[trigger] self.has_player(o)
                    == old(self).has_player(o) && self.player(o) == old(self).player(o) by {
                    lemma_key_index_push(e0, key@, PlayerView::initial(), o);
                    lemma_key_index(e0, o);
                    let k = key_index(e0, o);
                    if k < e0.len() {
                        assert(self.entries()[k] == e0[k]);
                    }
                }
            }
        } else {
            proof {
                lemma_key_index(self.entries(), key@);
            }
        }
        i
    }

    /// Stores `state` as the progression in slot `i`.
    fn store(&mut self, i: usize, key: String, state: PlayerState)
        requires
            old(self).wf(),
            i < old(self).players.len(),
            i == key_index(old(self).entries(), key@),
            state@.no_repeats(),
        ensures
            final(self).updated_from(*old(self), key@, state@),
    {
        let ghost e0 = self.entries();
        let ghost v = state@;
        proof {
            lemma_key_index(e0, key@);
        }
        self.players.set(i, (key, state));
        proof {
            assert(self.entries() =~= e0.update(i as int, (e0[i as int].0, v)));
            lemma_key_index_update(e0, i as int, v, key@);
            assert forall|o: Seq<char>| o != key@ implies #[trigger] self.has_player(o)
                == old(self).has_player(o) && self.player(o) == old(self).player(o) by {
                lemma_key_index_update(e0, i as int, v, o);
                lemma_key_index(e0, o);
                let k = key_index(e0, o);
                if k < e0.len() {
                    assert(k != i);
                    assert(self.entries()[k] == e0[k]);
                }
            }
            assert forall|a: int, b: int| 0 <= a < b < self.entries().len() implies #[trigger] self.entries()[a].0
                != #[trigger] self.entries()[b].0 by {
                assert(e0[a].0 != e0[b].0);
            }
        }
    }
}

} // verus!
