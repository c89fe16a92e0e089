use vstd::prelude::*;

verus! {

/// What a quest asks the player to do.
#[derive(Clone, Copy, Debug, PartialEq, Eq, Structural)]
pub enum ObjectiveKind {
    Mine,
    Collect,
    Kill,
}

#[derive(Clone, Debug)]
pub struct Objective {
    pub kind: ObjectiveKind,
    pub target: String,
    pub amount: u64,
}

#[derive(Clone, Debug)]
pub struct Quest {
    pub id: String,
    pub title: String,
    pub description: String,
    pub difficulty: String,
    pub objective: Objective,
    pub required_level: u32,
    pub prerequisite: Option<String>,
    pub reward_xp: u64,
    pub reward_ds: u64,
}

/// A quest as the contracts see it.
pub struct QuestView {
    pub id: Seq<char>,
    pub title: Seq<char>,
    pub description: Seq<char>,
    pub difficulty: Seq<char>,
    pub kind: ObjectiveKind,
    pub target: Seq<char>,
    pub amount: u64,
    pub required_level: u32,
    pub prerequisite: Option<Seq<char>>,
    pub reward_xp: u64,
    pub reward_ds: u64,
}

impl View for Quest {
    type V = QuestView;

    open spec fn view(&self) -> QuestView {
        QuestView {
            id: self.id@,
            title: self.title@,
            description: self.description@,
            difficulty: self.difficulty@,
            kind: self.objective.kind,
            target: self.objective.target@,
            amount: self.objective.amount,
            required_level: self.required_level,
            prerequisite: match self.prerequisite {
                Some(p) => Some(p@),
                None => None,
            },
            reward_xp: self.reward_xp,
            reward_ds: self.reward_ds,
        }
    }
}

#[derive(Clone, Debug)]
pub struct QuestBook {
    pub quests: Vec<Quest>,
}

#[derive(Clone, Debug)]
pub struct SafeZone {
    pub id: String,
    pub display_name: String,
    pub world: String,
    pub min_x: i32,
    pub max_x: i32,
    pub min_y: i32,
    pub max_y: i32,
    pub min_z: i32,
    pub max_z: i32,
    pub block_break: bool,
    pub block_place: bool,
    pub pvp: bool,
}

#[derive(Clone, Debug)]
pub struct SafeZoneBook {
    pub zones: Vec<SafeZone>,
}

/// Attribute points a player has spent.
#[derive(Clone, Copy, Debug, PartialEq, Eq, Structural)]
pub struct Attributes {
    pub damage: u32,
    pub defense: u32,
    pub speed: u32,
    pub vitality: u32,
}

impl Attributes {
    pub open spec fn zero() -> Attributes {
        Attributes { damage: 0, defense: 0, speed: 0, vitality: 0 }
    }
}

impl Default for Attributes {
    fn default() -> (r: Attributes)
        ensures
            r == Attributes::zero(),
    {
        Attributes { damage: 0, defense: 0, speed: 0, vitality: 0 }
    }
}

/// A player's persistent progression. `active` maps a quest id to the progress made
/// on it, in the order the quests were accepted; `completed` lists claimed quests.
#[derive(Debug)]
pub struct PlayerState {
    pub level: u32,
    pub xp: u64,
    pub dragon_seeds: u64,
    pub unspent_points: u32,
    pub attributes: Attributes,
    pub active: Vec<(String, u64)>,
    pub completed: Vec<String>,
}

/// A player's state as the contracts see it.
pub struct PlayerView {
    pub level: u32,
    pub xp: u64,
    pub dragon_seeds: u64,
    pub unspent_points: u32,
    pub attributes: Attributes,
    pub active: Seq<(Seq<char>, u64)>,
    pub completed: Seq<Seq<char>>,
}

pub open spec fn active_view(active: Seq<(String, u64)>) -> Seq<(Seq<char>, u64)> {
    active.map_values(|e: (String, u64)| (e.0@, e.1))
}

pub open spec fn strings_view(s: Seq<String>) -> Seq<Seq<char>> {
    s.map_values(|e: String| e@)
}

impl View for PlayerState {
    type V = PlayerView;

    open spec fn view(&self) -> PlayerView {
        PlayerView {
            level: self.level,
            xp: self.xp,
            dragon_seeds: self.dragon_seeds,
            unspent_points: self.unspent_points,
            attributes: self.attributes,
            active: active_view(self.active@),
            completed: strings_view(self.completed@),
        }
    }
}

impl PlayerView {
    /// A new player: level 1 with nothing else.
    pub open spec fn initial() -> PlayerView {
        PlayerView {
            level: 1,
            xp: 0,
            dragon_seeds: 0,
            unspent_points: 0,
            attributes: Attributes::zero(),
            active: Seq::empty(),
            completed: Seq::empty(),
        }
    }

    pub open spec fn is_active(self, id: Seq<char>) -> bool {
        exists|i: int| 0 <= i < self.active.len() && #[trigger] self.active[i].0 == id
    }

    pub open spec fn has_completed(self, id: Seq<char>) -> bool {
        self.completed.contains(id)
    }

    /// The progress recorded for an active quest (its first entry).
    pub open spec fn progress_of(self, id: Seq<char>) -> u64 {
        self.active[key_index(self.active, id)].1
    }

    /// The same state with other active entries.
    pub open spec fn with_active(self, active: Seq<(Seq<char>, u64)>) -> PlayerView {
        PlayerView { active, ..self }
    }

    /// No quest is tracked twice and none is completed twice.
    pub open spec fn no_repeats(self) -> bool {
        &&& keys_distinct(self.active)
        &&& self.completed.no_duplicates()
    }

    /// No quest is tracked twice, none is completed twice, and none is both.
    pub open spec fn wf(self) -> bool {
        &&& self.no_repeats()
        &&& forall|i: int| 0 <= i < self.active.len() ==> !self.completed.contains(#[trigger] self.active[i].0)
    }
}

/// The index of the first entry of `entries` with the key `key` (the length where
/// there is none).
pub open spec fn key_index<V>(entries: Seq<(Seq<char>, V)>, key: Seq<char>) -> int
    decreases entries.len(),
{
    if entries.len() == 0 {
        0
    } else if entries[0].0 == key {
        0
    } else {
        1 + key_index(entries.drop_first(), key)
    }
}

/// No key occurs twice among `entries`.
pub open spec fn keys_distinct<V>(entries: Seq<(Seq<char>, V)>) -> bool {
    forall|i: int, j: int|
        0 <= i < j < entries.len() ==> #[trigger] entries[i].0 != #[trigger] entries[j].0
}

impl PlayerState {
    pub fn new() -> (r: PlayerState)
        ensures
            r@ == PlayerView::initial(),
    {
        let r = PlayerState {
            level: 1,
            xp: 0,
            dragon_seeds: 0,
            unspent_points: 0,
            attributes: Attributes { damage: 0, defense: 0, speed: 0, vitality: 0 },
            active: Vec::new(),
            completed: Vec::new(),
        };
        assert(r@.active =~= Seq::empty());
        assert(r@.completed =~= Seq::empty());
        r
    }
}

impl Default for PlayerState {
    fn default() -> (r: PlayerState)
        ensures
            r@ == PlayerView::initial(),
    {
        PlayerState::new()
    }
}

/// Which menu a player has open.
#[derive(Clone, Copy, Debug, PartialEq, Eq, Structural)]
pub enum MenuView {
    Quests(usize),
    QuestDetail { page: usize, index: usize },
    Attributes,
}

/// The last player who hit an entity, and what the entity is.
#[derive(Debug)]
pub struct LastHit {
    pub player_id: String,
    pub target: String,
}

#[derive(Clone, Debug)]
pub struct CurrencyConfig {
    pub name: String,
    pub symbol: String,
}

#[derive(Clone, Debug)]
pub struct QuestConfig {
    pub max_active: usize,
    pub menu_title: String,
    pub attributes_title: String,
}

} // verus!
