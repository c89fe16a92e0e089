use calabaza_tales::app::{App, Config};
use calabaza_tales::model::{
    CurrencyConfig, Objective, ObjectiveKind, Quest, QuestBook, QuestConfig, SafeZoneBook,
};
use calabaza_tales::progression::ProgressionConfig;

fn quest(id: &str, amount: u64, prerequisite: Option<&str>) -> Quest {
    Quest {
        id: id.to_string(),
        title: format!("Title {id}"),
        description: String::new(),
        difficulty: "Easy".to_string(),
        objective: Objective { kind: ObjectiveKind::Mine, target: "stone".to_string(), amount },
        required_level: 1,
        prerequisite: prerequisite.map(|p| p.to_string()),
        reward_xp: 10,
        reward_ds: 1,
    }
}

fn config() -> Config {
    Config {
        progression: ProgressionConfig {
            max_level: 3,
            attribute_points_per_level: 2,
            xp_curve: vec![100, 150, 225],
        },
        currency: CurrencyConfig { name: "Dragon Seeds".to_string(), symbol: "Ds".to_string() },
        quests: QuestConfig {
            max_active: 3,
            menu_title: "Quests".to_string(),
            attributes_title: "Attributes".to_string(),
        },
    }
}

#[test]
fn valid_catalogue_is_accepted() {
    let quests = vec![quest("a", 1, None), quest("b", 5, Some("a")), quest("c", 2, Some("b"))];
    assert_eq!(App::validate_quests(&quests), Ok(()));
    assert_eq!(App::validate_quests(&Vec::new()), Ok(()));
}

#[test]
fn zero_amount_is_refused() {
    let quests = vec![quest("a", 1, None), quest("b", 0, None)];
    assert_eq!(
        App::validate_quests(&quests),
        Err("quest b has zero objective amount".to_string())
    );
}

#[test]
fn duplicate_id_is_refused() {
    let quests = vec![quest("a", 1, None), quest("b", 1, None), quest("a", 2, None)];
    assert_eq!(App::validate_quests(&quests), Err("duplicate quest id: a".to_string()));
}

#[test]
fn first_offending_quest_is_named() {
    let quests = vec![quest("a", 1, None), quest("a", 0, None), quest("c", 0, None)];
    assert_eq!(
        App::validate_quests(&quests),
        Err("quest a has zero objective amount".to_string())
    );
}

#[test]
fn missing_prerequisite_is_refused() {
    let quests = vec![quest("a", 1, Some("zz")), quest("b", 1, None)];
    assert_eq!(
        App::validate_quests(&quests),
        Err("quest a references missing prerequisite zz".to_string())
    );
}

#[test]
fn amounts_and_ids_are_checked_before_prerequisites() {
    let quests = vec![quest("a", 1, Some("zz")), quest("b", 1, None), quest("b", 1, None)];
    assert_eq!(App::validate_quests(&quests), Err("duplicate quest id: b".to_string()));
}

#[test]
fn prerequisite_may_come_later_in_the_catalogue() {
    let quests = vec![quest("a", 1, Some("b")), quest("b", 1, None)];
    assert_eq!(App::validate_quests(&quests), Ok(()));
}

#[test]
fn load_refuses_an_invalid_catalogue() {
    let r = App::load(
        config(),
        QuestBook { quests: vec![quest("a", 0, None)] },
        SafeZoneBook { zones: Vec::new() },
    );
    assert_eq!(r.err(), Some("quest a has zero objective amount".to_string()));
}

#[test]
fn reload_keeps_everything_when_refused() {
    let mut app = App::load(
        config(),
        QuestBook { quests: vec![quest("a", 1, None)] },
        SafeZoneBook { zones: Vec::new() },
    )
    .unwrap();
    let (msg, _) = app.activate_or_claim("p1", 0);
    assert_eq!(msg, "Quest accepted: Title a");
    let r = app.reload(
        config(),
        QuestBook { quests: vec![quest("x", 1, None), quest("x", 1, None)] },
        SafeZoneBook { zones: Vec::new() },
    );
    assert_eq!(r, Err("duplicate quest id: x".to_string()));
    assert_eq!(app.quests().len(), 1);
    assert_eq!(app.quests()[0].id, "a");
    assert_eq!(app.snapshot("p1").active, vec![("a".to_string(), 0)]);
}

#[test]
fn reload_replaces_catalogue_and_keeps_players() {
    let mut app = App::load(
        config(),
        QuestBook { quests: vec![quest("a", 1, None)] },
        SafeZoneBook { zones: Vec::new() },
    )
    .unwrap();
    app.award_xp("p1", 40);
    let mut c = config();
    c.quests.max_active = 9;
    let r = app.reload(
        c,
        QuestBook { quests: vec![quest("x", 1, None), quest("y", 1, None)] },
        SafeZoneBook { zones: Vec::new() },
    );
    assert_eq!(r, Ok(()));
    assert_eq!(app.quests().len(), 2);
    assert_eq!(app.config().quests.max_active, 9);
    assert_eq!(app.snapshot("p1").xp, 40);
}
