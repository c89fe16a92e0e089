use vstd::prelude::*;
use crate::model::{MenuView, PlayerState, PlayerView, Quest, QuestView};
use crate::quests::{quest_is_unlocked, quest_status, quests_view, status_text, unlocked};
use crate::model::ObjectiveKind;
use crate::text::{decimal, decimal_string};

verus! {

/// Quests listed on one page of the journal.
pub const QUESTS_PER_PAGE: usize = 10;

/// What the plugin does next in answer to a menu choice.
#[derive(Clone, Copy, Debug, PartialEq, Eq, Structural)]
pub enum UiAction {
    /// Nothing.
    Nothing,
    /// Show the journal page.
    OpenMain(usize),
    /// Show the details of the quest at `index`, reached from journal page `page`.
    OpenQuestDetail { index: usize, page: usize },
    /// Show the attributes screen.
    OpenAttributes,
    /// Spend a point on attribute `0..=3`, then show the attributes screen again.
    Spend(u32),
    /// Claim the quest at `index`, tell the player, and show its details again.
    Claim { index: usize, page: usize },
    /// Stop tracking the quest at `index`, tell the player, and show its details again.
    Cancel { index: usize, page: usize },
    /// Accept the quest at `index`, tell the player, and show its details again.
    Accept { index: usize, page: usize },
}

/// The action a quest's detail view offers.
#[derive(Clone, Copy, Debug, PartialEq, Eq, Structural)]
pub enum DetailAction {
    Claim,
    Cancel,
    Accept,
    NoAction,
}

/// A tracked quest offers a claim once its objective is met and a cancel before; an
/// untracked one that is unlocked and not completed offers to be accepted.
pub open spec fn detail_action_of(s: PlayerView, q: QuestView) -> DetailAction {
    if s.is_active(q.id) {
        if s.progress_of(q.id) >= q.amount {
            DetailAction::Claim
        } else {
            DetailAction::Cancel
        }
    } else if unlocked(s, q) && !s.has_completed(q.id) {
        DetailAction::Accept
    } else {
        DetailAction::NoAction
    }
}

/// The progress recorded for a quest, 0 where it is not tracked.
pub open spec fn shown_progress(s: PlayerView, id: Seq<char>) -> u64 {
    if s.is_active(id) {
        s.progress_of(id)
    } else {
        0
    }
}

/// The progress the journal shows for `quest`.
pub fn progress_for(state: &PlayerState, quest: &Quest) -> (r: u64)
    ensures
        r == shown_progress(state@, quest@.id),
{
    let i = state.find_active(&quest.id);
    proof {
        crate::player::lemma_key_index(state@.active, quest@.id);
    }
    if i < state.active.len() {
        state.active[i].1
    } else {
        0
    }
}

/// The action the detail view of `quest` offers.
pub fn detail_action(state: &PlayerState, quest: &Quest) -> (r: DetailAction)
    ensures
        r == detail_action_of(state@, quest@),
{
    if state.is_active(&quest.id) {
        if progress_for(state, quest) >= quest.objective.amount {
            DetailAction::Claim
        } else {
            DetailAction::Cancel
        }
    } else if quest_is_unlocked(state, quest) && !state.has_completed(&quest.id) {
        DetailAction::Accept
    } else {
        DetailAction::NoAction
    }
}

/// Journal pages are numbered from 0; the last one.
pub open spec fn last_page(quest_count: nat) -> nat {
    (if quest_count == 0 { 0 } else { (quest_count - 1) as nat }) / 10
}

/// The number of quests listed on journal page `page`.
pub open spec fn listed_on_page(quest_count: int, page: int) -> int {
    let rest = quest_count - page * 10;
    if rest < 0 {
        0
    } else if rest > 10 {
        10
    } else {
        rest
    }
}

/// The choice a Bedrock player made in a form, by the menu the form showed: journal
/// page buttons (its quests, then Attributes, Previous where there is a previous page,
/// Next where there is a next one), detail buttons (the offered action, then Back) and
/// attribute buttons (four attributes, then Back to the journal).
pub open spec fn bedrock_choice_of(view: MenuView, button: u32, qs: Seq<QuestView>, s: PlayerView) -> UiAction {
    match view {
        MenuView::Quests(page) => {
            let listed = listed_on_page(qs.len() as int, page as int);
            let b = button as int;
            if b < listed {
                UiAction::OpenQuestDetail { index: (page * 10 + b) as usize, page }
            } else if b == listed {
                UiAction::OpenAttributes
            } else if page > 0 && b == listed + 1 {
                UiAction::OpenMain((page - 1) as usize)
            } else if page * 10 + 10 < qs.len() && b == listed + 1 + (if page > 0 { 1int } else { 0 }) {
                UiAction::OpenMain((page + 1) as usize)
            } else {
                UiAction::Nothing
            }
        },
        MenuView::QuestDetail { page, index } => {
            if index >= qs.len() {
                UiAction::OpenMain(page)
            } else {
                let q = qs[index as int];
                let a = detail_action_of(s, q);
                if button == 0 && a != DetailAction::NoAction && !s.has_completed(q.id) {
                    match a {
                        DetailAction::Claim => UiAction::Claim { index, page },
                        DetailAction::Cancel => UiAction::Cancel { index, page },
                        _ => UiAction::Accept { index, page },
                    }
                } else {
                    UiAction::OpenMain(page)
                }
            }
        },
        MenuView::Attributes => {
            if button <= 3 {
                UiAction::Spend(button)
            } else if button == 4 {
                UiAction::OpenMain(0)
            } else {
                UiAction::Nothing
            }
        },
    }
}

/// Pages whose numbers can be multiplied out without overflow.
pub open spec fn page_in_range(view: MenuView) -> bool {
    match view {
        MenuView::Quests(page) => page * 10 + 20 <= usize::MAX,
        MenuView::QuestDetail { page, index } => page + 1 <= usize::MAX,
        MenuView::Attributes => true,
    }
}

/// Whether the page numbers of `view` can be multiplied out without overflow.
pub fn page_fits(view: MenuView) -> (r: bool)
    ensures
        r == page_in_range(view),
{
    match view {
        MenuView::Quests(page) => page <= (usize::MAX - 20) / 10,
        MenuView::QuestDetail { page, index } => page < usize::MAX,
        MenuView::Attributes => true,
    }
}

/// Decides what a Bedrock player's button press in `view` leads to.
pub fn bedrock_choice(view: MenuView, button: u32, quests: &Vec<Quest>, state: &PlayerState) -> (r: UiAction)
    requires
        page_in_range(view),
    ensures
        r == bedrock_choice_of(view, button, quests_view(quests@), state@),
{
    match view {
        MenuView::Quests(page) => {
            let len = quests.len();
            let start = page * QUESTS_PER_PAGE;
            let rest = len.saturating_sub(start);
            let listed = if rest < QUESTS_PER_PAGE {
                rest
            } else {
                QUESTS_PER_PAGE
            };
            let b = button as usize;
            if b < listed {
                UiAction::OpenQuestDetail { index: start + b, page }
            } else if b == listed {
                UiAction::OpenAttributes
            } else {
                let mut cursor = listed + 1;
                if page > 0 {
                    if b == cursor {
                        return UiAction::OpenMain(page - 1);
                    }
                    cursor = cursor + 1;
                }
                if start + QUESTS_PER_PAGE < len && b == cursor {
                    UiAction::OpenMain(page + 1)
                } else {
                    UiAction::Nothing
                }
            }
        },
        MenuView::QuestDetail { page, index } => {
            if index >= quests.len() {
                return UiAction::OpenMain(page);
            }
            let quest = &quests[index];
            let a = detail_action(state, quest);
            if button == 0 && a != DetailAction::NoAction && !state.has_completed(&quest.id) {
                match a {
                    DetailAction::Claim => UiAction::Claim { index, page },
                    DetailAction::Cancel => UiAction::Cancel { index, page },
                    _ => UiAction::Accept { index, page },
                }
            } else {
                UiAction::OpenMain(page)
            }
        },
        MenuView::Attributes => {
            if button <= 3 {
                UiAction::Spend(button)
            } else if button == 4 {
                UiAction::OpenMain(0)
            } else {
                UiAction::Nothing
            }
        },
    }
}


/// One quest as the journal lists it.
#[derive(Clone, Copy, Debug)]
pub struct JournalEntry {
    /// Position of the quest in the catalogue.
    pub index: usize,
    /// Progress recorded for it (0 where it is not tracked).
    pub progress: u64,
    /// Whether the Java journal shows it as unlocked (completed, tracked, or unlocked).
    pub unlocked: bool,
    /// Its status label.
    pub status: &'static str,
}

/// One page of the quest journal.
#[derive(Debug)]
pub struct JournalPage {
    /// The page shown.
    pub page: usize,
    /// The number of the last page.
    pub last_page: usize,
    pub entries: Vec<JournalEntry>,
    /// Whether a Previous button is offered.
    pub has_previous: bool,
    /// Whether a Next button is offered.
    pub has_next: bool,
}

/// Entry `k` of page `page` describes quest `page * 10 + k` as the player sees it.
pub open spec fn entry_describes(e: JournalEntry, page: int, k: int, qs: Seq<QuestView>, s: PlayerView) -> bool {
    let i = page * 10 + k;
    let q = qs[i];
    &&& e.index == i
    &&& e.progress == shown_progress(s, q.id)
    &&& e.unlocked == (s.has_completed(q.id) || s.is_active(q.id) || unlocked(s, q))
    &&& e.status@ == status_text(s, q, shown_progress(s, q.id))
}

/// The entries of page `page` list its quests in catalogue order.
pub open spec fn lists_page(entries: Seq<JournalEntry>, page: int, qs: Seq<QuestView>, s: PlayerView) -> bool {
    &&& entries.len() == listed_on_page(qs.len() as int, page)
    &&& forall|k: int| 0 <= k < entries.len() ==> entry_describes(#[trigger] entries[k], page, k, qs, s)
}

fn journal_entries(state: &PlayerState, quests: &Vec<Quest>, page: usize) -> (r: Vec<JournalEntry>)
    requires
        page * 10 <= usize::MAX,
    ensures
        lists_page(r@, page as int, quests_view(quests@), state@),
{
    let ghost qs = quests_view(quests@);
    let start = page * QUESTS_PER_PAGE;
    let len = quests.len();
    let rest = len.saturating_sub(start);
    let count = if rest < QUESTS_PER_PAGE {
        rest
    } else {
        QUESTS_PER_PAGE
    };
    let mut entries: Vec<JournalEntry> = Vec::new();
    let mut k: usize = 0;
    while k < count
        invariant
            qs == quests_view(quests@),
            start == page * 10,
            qs.len() == quests@.len(),
            count <= 10,
            len == quests.len(),
            count > 0 ==> start + count <= len,
            count == listed_on_page(qs.len() as int, page as int),
            k <= count,
            entries@.len() == k,
            forall|j: int| 0 <= j < k ==> entry_describes(#[trigger] entries@[j], page as int, j, qs, state@),
        decreases count - k,
    {
        let quest = &quests[start + k];
        let progress = progress_for(state, quest);
        let unlocked = state.has_completed(&quest.id) || state.is_active(&quest.id)
            || quest_is_unlocked(state, quest);
        let status = quest_status(state, quest, progress);
        entries.push(JournalEntry { index: start + k, progress, unlocked, status });
        k = k + 1;
    }
    entries
}

/// The Java journal page `page`, clamped to the last page.
pub fn java_journal_page(state: &PlayerState, quests: &Vec<Quest>, page: usize) -> (r: JournalPage)
    ensures
        r.last_page == last_page(quests@.len()),
        r.page == if page <= r.last_page { page } else { r.last_page },
        lists_page(r.entries@, r.page as int, quests_view(quests@), state@),
        r.has_previous == (r.page > 0),
        r.has_next == (r.page < r.last_page),
{
    let last = quests.len().saturating_sub(1) / QUESTS_PER_PAGE;
    let page = if page < last {
        page
    } else {
        last
    };
    assert(page * 10 <= usize::MAX) by (nonlinear_arith)
        requires
            page <= last,
            last == (if quests@.len() == 0 { 0 } else { (quests@.len() - 1) as nat }) / 10,
            quests@.len() <= usize::MAX,
    ;
    let entries = journal_entries(state, quests, page);
    JournalPage { page, last_page: last, entries, has_previous: page > 0, has_next: page < last }
}

/// The Bedrock journal page `page`, as asked (a page past the end lists nothing).
pub fn bedrock_journal_page(state: &PlayerState, quests: &Vec<Quest>, page: usize) -> (r: JournalPage)
    requires
        page * 10 + 10 <= usize::MAX,
    ensures
        r.last_page == last_page(quests@.len()),
        r.page == page,
        lists_page(r.entries@, page as int, quests_view(quests@), state@),
        r.has_previous == (page > 0),
        r.has_next == (page * 10 + 10 < quests@.len()),
{
    let last = quests.len().saturating_sub(1) / QUESTS_PER_PAGE;
    let entries = journal_entries(state, quests, page);
    JournalPage {
        page,
        last_page: last,
        entries,
        has_previous: page > 0,
        has_next: page * QUESTS_PER_PAGE + QUESTS_PER_PAGE < quests.len(),
    }
}

/// The name of an objective kind as the details show it.
pub open spec fn kind_name(kind: ObjectiveKind) -> Seq<char> {
    match kind {
        ObjectiveKind::Mine => "Mine"@,
        ObjectiveKind::Collect => "Collect"@,
        ObjectiveKind::Kill => "Kill"@,
    }
}

/// The details text of a quest: title, description, difficulty, objective with
/// progress, required level, reward and status, on their own lines.
pub open spec fn details_text(s: PlayerView, q: QuestView, symbol: Seq<char>) -> Seq<char> {
    let p = shown_progress(s, q.id);
    q.title + "\n\n"@ + q.description + "\n\nDifficulty: "@ + q.difficulty + "\nObjective: "@
        + kind_name(q.kind) + " "@ + q.target + " \u{2014} "@ + decimal(p as nat) + "/"@
        + decimal(q.amount as nat) + "\nRequired level: "@ + decimal(q.required_level as nat)
        + "\nReward: "@ + decimal(q.reward_xp as nat) + " XP + "@ + decimal(q.reward_ds as nat)
        + " "@ + symbol + "\nStatus: "@ + status_text(s, q, p)
}

/// The details text of `quest` for the player, with `symbol` the currency symbol.
pub fn quest_details(state: &PlayerState, quest: &Quest, symbol: &str) -> (r: String)
    ensures
        r@ == details_text(state@, quest@, symbol@),
{
    let p = progress_for(state, quest);
    let kind = match quest.objective.kind {
        ObjectiveKind::Mine => "Mine",
        ObjectiveKind::Collect => "Collect",
        ObjectiveKind::Kill => "Kill",
    };
    let mut r = quest.title.clone();
    r.append("\n\n");
    r.append(quest.description.as_str());
    r.append("\n\nDifficulty: ");
    r.append(quest.difficulty.as_str());
    r.append("\nObjective: ");
    r.append(kind);
    r.append(" ");
    r.append(quest.objective.target.as_str());
    r.append(" \u{2014} ");
    r.append(decimal_string(p).as_str());
    r.append("/");
    r.append(decimal_string(quest.objective.amount).as_str());
    r.append("\nRequired level: ");
    r.append(decimal_string(quest.required_level as u64).as_str());
    r.append("\nReward: ");
    r.append(decimal_string(quest.reward_xp).as_str());
    r.append(" XP + ");
    r.append(decimal_string(quest.reward_ds).as_str());
    r.append(" ");
    r.append(symbol);
    r.append("\nStatus: ");
    r.append(quest_status(state, quest, p));
    r
}


/// What `FormResponse::parse` of pumpkin-plugin-api makes of a Bedrock form's response
/// payload, where it makes a button press of it: the pressed button.
pub uninterp spec fn form_button_pressed(data: Option<Seq<char>>) -> Option<u32>;

/// The button a Bedrock form response presses, if it is a button press.
///
/// Calls `pumpkin_plugin_api::forms::FormResponse::parse` and keeps the index of a
/// `Simple` answer. Trusted: the result is the value `form_button_pressed` names for the
/// payload (`parse` reads nothing but its argument), and no payload (a closed form)
/// presses nothing, as `parse` maps `None` to `Closed`. How `parse` reads JSON or raw
/// text is not stated.
#[verifier::external_body]
pub(crate) fn form_button(data: Option<String>) -> (r: Option<u32>)
    ensures
        r == form_button_pressed(crate::ipc::opt_view(data)),
        data is None ==> r is None,
{
    match pumpkin_plugin_api::forms::FormResponse::parse(data) {
        pumpkin_plugin_api::forms::FormResponse::Simple(button) => Some(button),
        pumpkin_plugin_api::forms::FormResponse::Modal(_) => None,
        pumpkin_plugin_api::forms::FormResponse::Custom(_) => None,
        pumpkin_plugin_api::forms::FormResponse::Closed => None,
    }
}

/// A menu interaction waiting for the next server tick: event callbacks only record
/// these, and a tick worker handles them.
#[derive(Debug)]
pub enum UiIntent {
    /// A click on slot `slot` of a Java menu.
    JavaClick { player_id: String, slot: i16 },
    /// A response to Bedrock form `form_id`, with its raw payload.
    BedrockForm { player_id: String, form_id: u32, response_data: Option<String> },
}

impl UiIntent {
    /// The player the intent is from.
    pub open spec fn player(self) -> Seq<char> {
        match self {
            UiIntent::JavaClick { player_id, .. } => player_id@,
            UiIntent::BedrockForm { player_id, .. } => player_id@,
        }
    }

    /// The player the intent is from.
    pub fn player_id(&self) -> (r: &String)
        ensures
            r@ == self.player(),
    {
        match self {
            UiIntent::JavaClick { player_id, .. } => player_id,
            UiIntent::BedrockForm { player_id, .. } => player_id,
        }
    }
}

/// The intents of `s` that are not from player `id`, in order.
pub open spec fn without_player(s: Seq<UiIntent>, id: Seq<char>) -> Seq<UiIntent>
    decreases s.len(),
{
    if s.len() == 0 {
        s
    } else if s.last().player() == id {
        without_player(s.drop_last(), id)
    } else {
        without_player(s.drop_last(), id).push(s.last())
    }
}

/// Intents handled per server tick.
pub const INTENTS_PER_TICK: usize = 64;

} // verus!
