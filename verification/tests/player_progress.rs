use calabaza_tales::app::{App, Config};
use calabaza_tales::model::{
    CurrencyConfig, Objective, ObjectiveKind, PlayerState, Quest, QuestBook, QuestConfig,
    SafeZoneBook,
};
use calabaza_tales::player::objective_complete_message;
use calabaza_tales::progression::{level_up_message, ProgressionConfig};

fn quest(id: &str, kind: ObjectiveKind, target: &str, amount: u64) -> Quest {
    Quest {
        id: id.to_string(),
        title: format!("T{id}"),
        description: format!("Do {id}"),
        difficulty: "Easy".to_string(),
        objective: Objective { kind, target: target.to_string(), amount },
        required_level: 1,
        prerequisite: None,
        reward_xp: 50,
        reward_ds: 5,
    }
}

fn app_with(quests: Vec<Quest>, max_active: usize) -> App {
    let config = Config {
        progression: ProgressionConfig {
            max_level: 4,
            attribute_points_per_level: 3,
            xp_curve: vec![100, 150, 225, 338],
        },
        currency: CurrencyConfig { name: "Dragon Seeds".to_string(), symbol: "Ds".to_string() },
        quests: QuestConfig {
            max_active,
            menu_title: "Quest Journal".to_string(),
            attributes_title: "Attributes".to_string(),
        },
    };
    App::load(config, QuestBook { quests }, SafeZoneBook { zones: Vec::new() }).unwrap()
}

#[test]
fn unknown_player_snapshot_is_a_new_player() {
    let app = app_with(Vec::new(), 3);
    let s = app.snapshot("nobody");
    assert_eq!(s.level, 1);
    assert_eq!(s.xp, 0);
    assert_eq!(s.dragon_seeds, 0);
    assert!(s.active.is_empty());
    assert!(!app.knows_player("nobody"));
}

#[test]
fn ensure_player_takes_stored_state_only_when_missing() {
    let mut app = app_with(Vec::new(), 3);
    let mut stored = PlayerState::new();
    stored.level = 7;
    app.ensure_player("p", stored);
    assert!(app.knows_player("p"));
    assert_eq!(app.snapshot("p").level, 7);
    let mut other = PlayerState::new();
    other.level = 2;
    app.ensure_player("p", other);
    assert_eq!(app.snapshot("p").level, 7);
}

#[test]
fn award_xp_levels_up_as_far_as_it_reaches() {
    let mut app = app_with(Vec::new(), 3);
    let levels = app.award_xp("p", 300);
    assert_eq!(levels, vec![2, 3]);
    let s = app.snapshot("p");
    assert_eq!(s.level, 3);
    assert_eq!(s.xp, 50);
    assert_eq!(s.unspent_points, 6);
}

#[test]
fn award_xp_stops_at_max_level() {
    let mut app = app_with(Vec::new(), 3);
    let levels = app.award_xp("p", 10_000);
    assert_eq!(levels, vec![2, 3, 4]);
    let s = app.snapshot("p");
    assert_eq!(s.level, 4);
    assert_eq!(s.xp, 10_000 - 100 - 150 - 225);
    assert_eq!(s.unspent_points, 9);
    assert!(app.award_xp("p", 1000).is_empty());
    assert_eq!(app.snapshot("p").xp, 10_000 - 475 + 1000);
}

#[test]
fn award_xp_saturates() {
    let mut app = app_with(Vec::new(), 3);
    let mut s = PlayerState::new();
    s.level = 4;
    s.xp = u64::MAX - 1;
    app.ensure_player("p", s);
    app.award_xp("p", 10);
    assert_eq!(app.snapshot("p").xp, u64::MAX);
}

#[test]
fn level_zero_costs_as_level_one() {
    let mut app = app_with(Vec::new(), 3);
    let mut s = PlayerState::new();
    s.level = 0;
    app.ensure_player("p", s);
    assert_eq!(app.award_xp("p", 100), vec![1]);
    assert_eq!(app.snapshot("p").xp, 0);
}

#[test]
fn level_up_message_text() {
    assert_eq!(level_up_message(5, 3), "\u{2726} Level 5! You gained 3 attribute points.");
}

#[test]
fn objective_complete_message_text() {
    assert_eq!(
        objective_complete_message("Stone Age"),
        "\u{2713} Quest objective complete: Stone Age. Open /tales to claim."
    );
}

#[test]
fn accept_progress_and_claim() {
    let mut app = app_with(vec![quest("q1", ObjectiveKind::Mine, "Iron Ore", 3)], 3);
    let (m, levels) = app.activate_or_claim("p", 0);
    assert_eq!(m, "Quest accepted: Tq1");
    assert!(levels.is_empty());
    let (m, _) = app.activate_or_claim("p", 0);
    assert_eq!(m, "Tq1: 0/3");
    assert!(app.progress("p", ObjectiveKind::Mine, "minecraft:iron_ore", 2).is_empty());
    assert!(app.progress("p", ObjectiveKind::Collect, "iron ore", 5).is_empty());
    assert_eq!(app.snapshot("p").active, vec![("q1".to_string(), 2)]);
    let finished = app.progress("p", ObjectiveKind::Mine, " IRON ORE ", 5);
    assert_eq!(finished, vec!["Tq1".to_string()]);
    assert_eq!(app.snapshot("p").active, vec![("q1".to_string(), 3)]);
    let (m, levels) = app.activate_or_claim("p", 0);
    assert_eq!(m, "Claimed Tq1 \u{2014} +50 XP, +5 Ds");
    assert!(levels.is_empty());
    let s = app.snapshot("p");
    assert!(s.active.is_empty());
    assert_eq!(s.completed, vec!["q1".to_string()]);
    assert_eq!(s.dragon_seeds, 5);
    assert_eq!(s.xp, 50);
    let (m, _) = app.activate_or_claim("p", 0);
    assert_eq!(m, "You have already completed that quest.");
    assert_eq!(app.snapshot("p").dragon_seeds, 5);
}

#[test]
fn claim_reward_can_level_up() {
    let mut q = quest("q1", ObjectiveKind::Kill, "zombie", 1);
    q.reward_xp = 260;
    let mut app = app_with(vec![q], 3);
    app.activate_or_claim("p", 0);
    assert_eq!(app.progress("p", ObjectiveKind::Kill, "minecraft:zombie", 1), vec!["Tq1"]);
    let (_, levels) = app.activate_or_claim("p", 0);
    assert_eq!(levels, vec![2, 3]);
}

#[test]
fn completed_objective_reports_again_on_more_progress() {
    let mut app = app_with(vec![quest("q1", ObjectiveKind::Mine, "stone", 1)], 3);
    app.activate_or_claim("p", 0);
    assert_eq!(app.progress("p", ObjectiveKind::Mine, "stone", 1), vec!["Tq1"]);
    assert_eq!(app.progress("p", ObjectiveKind::Mine, "stone", 1), vec!["Tq1"]);
    assert_eq!(app.snapshot("p").active, vec![("q1".to_string(), 1)]);
}

#[test]
fn activation_refusals() {
    let mut locked = quest("hard", ObjectiveKind::Mine, "stone", 1);
    locked.required_level = 5;
    let mut chained = quest("next", ObjectiveKind::Mine, "stone", 1);
    chained.prerequisite = Some("first".to_string());
    let quests = vec![
        quest("first", ObjectiveKind::Mine, "stone", 1),
        locked,
        chained,
        quest("x", ObjectiveKind::Mine, "dirt", 1),
    ];
    let mut app = app_with(quests, 1);
    assert_eq!(app.activate_or_claim("p", 9).0, "That quest no longer exists.");
    assert_eq!(app.activate_or_claim("p", 1).0, "Requires level 5.");
    assert_eq!(app.activate_or_claim("p", 2).0, "Complete the preceding quest first.");
    assert_eq!(app.activate_or_claim("p", 0).0, "Quest accepted: Tfirst");
    assert_eq!(app.activate_or_claim("p", 3).0, "You may only track 1 quests at once.");
}

#[test]
fn cancel_drops_progress() {
    let mut app = app_with(vec![quest("q1", ObjectiveKind::Mine, "stone", 5)], 3);
    app.activate_or_claim("p", 0);
    app.progress("p", ObjectiveKind::Mine, "stone", 2);
    assert_eq!(app.cancel_quest("p", 0), "Quest cancelled: Tq1");
    assert!(app.snapshot("p").active.is_empty());
    assert_eq!(app.cancel_quest("p", 0), "You are not tracking that quest.");
    assert_eq!(app.cancel_quest("p", 4), "That quest no longer exists.");
}

#[test]
fn spending_attribute_points() {
    let mut app = app_with(Vec::new(), 3);
    assert_eq!(app.spend_attribute("p", 0), "You have no unspent attribute points.");
    app.award_xp("p", 100);
    assert_eq!(app.snapshot("p").unspent_points, 3);
    assert_eq!(app.spend_attribute("p", 7), "Unknown attribute.");
    assert_eq!(app.snapshot("p").unspent_points, 3);
    assert_eq!(app.spend_attribute("p", 0), "Damage increased by 1.");
    assert_eq!(app.spend_attribute("p", 1), "Defense increased by 1.");
    assert_eq!(app.spend_attribute("p", 3), "Vitality increased by 1.");
    let s = app.snapshot("p");
    assert_eq!(s.unspent_points, 0);
    assert_eq!((s.attributes.damage, s.attributes.defense, s.attributes.speed, s.attributes.vitality), (1, 1, 0, 1));
    assert_eq!(app.spend_attribute("p", 2), "You have no unspent attribute points.");
}

#[test]
fn players_are_independent() {
    let mut app = app_with(Vec::new(), 3);
    app.award_xp("a", 120);
    app.award_xp("b", 30);
    assert_eq!(app.snapshot("a").level, 2);
    assert_eq!(app.snapshot("a").xp, 20);
    assert_eq!(app.snapshot("b").level, 1);
    assert_eq!(app.snapshot("b").xp, 30);
}
