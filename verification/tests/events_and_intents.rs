use calabaza_tales::app::{App, Config};
use calabaza_tales::model::{
    CurrencyConfig, MenuView, Objective, ObjectiveKind, Quest, QuestBook, QuestConfig,
    SafeZoneBook,
};
use calabaza_tales::progression::ProgressionConfig;
use calabaza_tales::ui::{UiAction, UiIntent};

fn quest(id: &str, kind: ObjectiveKind, target: &str, amount: u64) -> Quest {
    Quest {
        id: id.to_string(),
        title: format!("T{id}"),
        description: String::new(),
        difficulty: "Easy".to_string(),
        objective: Objective { kind, target: target.to_string(), amount },
        required_level: 1,
        prerequisite: None,
        reward_xp: 1,
        reward_ds: 1,
    }
}

fn app_with(quests: Vec<Quest>) -> App {
    let config = Config {
        progression: ProgressionConfig {
            max_level: 10,
            attribute_points_per_level: 1,
            xp_curve: vec![10; 10],
        },
        currency: CurrencyConfig { name: "Dragon Seeds".to_string(), symbol: "Ds".to_string() },
        quests: QuestConfig {
            max_active: 5,
            menu_title: "Journal".to_string(),
            attributes_title: "Stats".to_string(),
        },
    };
    App::load(config, QuestBook { quests }, SafeZoneBook { zones: Vec::new() }).unwrap()
}

fn form(player: &str, form_id: u32) -> UiIntent {
    UiIntent::BedrockForm { player_id: player.to_string(), form_id, response_data: None }
}

#[test]
fn block_pickup_and_kill_rewards() {
    let mut app = app_with(vec![
        quest("m", ObjectiveKind::Mine, "Stone", 2),
        quest("c", ObjectiveKind::Collect, "apple", 10),
        quest("k", ObjectiveKind::Kill, "zombie", 1),
    ]);
    for i in 0..3 {
        app.activate_or_claim("p", i);
    }
    let (finished, levels) = app.block_broken("p", "minecraft:stone");
    assert!(finished.is_empty());
    assert!(levels.is_empty());
    assert_eq!(app.snapshot("p").xp, 2);
    let (finished, _) = app.block_broken("p", "minecraft:stone");
    assert_eq!(finished, vec!["Tm"]);
    let (finished, levels) = app.item_picked_up("p", "Apple", 12);
    assert_eq!(finished, vec!["Tc"]);
    assert!(levels.is_empty());
    assert_eq!(app.snapshot("p").xp, 9);
    let (finished, levels) = app.entity_killed("p", "minecraft:zombie");
    assert_eq!(finished, vec!["Tk"]);
    assert_eq!(levels, vec![2]);
    assert_eq!(app.snapshot("p").xp, 9);
    let (_, levels) = app.item_picked_up("p", "dirt", 3);
    assert_eq!(levels, vec![3]);
    assert_eq!(app.snapshot("p").xp, 2);
    assert_eq!(app.snapshot("p").unspent_points, 2);
}

#[test]
fn intents_are_handled_in_batches_of_64() {
    let mut app = app_with(Vec::new());
    for i in 0..70 {
        app.enqueue_ui(form(if i % 2 == 0 { "a" } else { "b" }, i));
    }
    let batch = app.take_ui_batch();
    assert_eq!(batch.len(), 64);
    match &batch[0] {
        UiIntent::BedrockForm { form_id, .. } => assert_eq!(*form_id, 0),
        _ => panic!("expected a form intent"),
    }
    let rest = app.take_ui_batch();
    assert_eq!(rest.len(), 6);
    match &rest[0] {
        UiIntent::BedrockForm { form_id, .. } => assert_eq!(*form_id, 64),
        _ => panic!("expected a form intent"),
    }
    assert!(app.take_ui_batch().is_empty());
}

#[test]
fn a_leaving_player_loses_only_their_intents() {
    let mut app = app_with(Vec::new());
    app.enqueue_ui(form("a", 1));
    app.enqueue_ui(UiIntent::JavaClick { player_id: "b".to_string(), slot: 3 });
    app.enqueue_ui(form("a", 2));
    app.enqueue_ui(form("c", 3));
    app.forget_player_intents("a");
    let batch = app.take_ui_batch();
    assert_eq!(batch.len(), 2);
    assert_eq!(batch[0].player_id(), "b");
    assert_eq!(batch[1].player_id(), "c");
}

#[test]
fn bedrock_payloads_are_parsed_into_buttons() {
    let mut app = app_with(Vec::new());
    app.register_form(1, "p", MenuView::Attributes);
    assert_eq!(app.bedrock_form_response("p", 1, Some("3".to_string())), UiAction::Spend(3));
    app.register_form(2, "p", MenuView::Attributes);
    assert_eq!(app.bedrock_form_response("p", 2, Some("4".to_string())), UiAction::OpenMain(0));
    app.register_form(3, "p", MenuView::Attributes);
    assert_eq!(app.bedrock_form_response("p", 3, None), UiAction::Nothing);
    app.register_form(4, "p", MenuView::Attributes);
    assert_eq!(app.bedrock_form_response("p", 4, Some("true".to_string())), UiAction::Nothing);
    app.register_form(5, "p", MenuView::Attributes);
    assert_eq!(app.bedrock_form_response("p", 5, Some("0".to_string())), UiAction::Spend(0));
}
