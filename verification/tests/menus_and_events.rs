use calabaza_tales::app::{App, Config};
use calabaza_tales::combat::{armor_points, estimate_player_armor};
use calabaza_tales::ipc::{IpcRequest, IpcResponse};
use calabaza_tales::model::{
    CurrencyConfig, MenuView, Objective, ObjectiveKind, PlayerState, Quest, QuestBook,
    QuestConfig, SafeZoneBook,
};
use calabaza_tales::progression::ProgressionConfig;
use calabaza_tales::quests::{quest_is_unlocked, quest_status};
use calabaza_tales::ui::{
    bedrock_journal_page, detail_action, java_journal_page, page_fits, quest_details, DetailAction,
    UiAction,
};

fn quest(i: usize) -> Quest {
    Quest {
        id: format!("q{i}"),
        title: format!("Quest {i}"),
        description: format!("Description {i}"),
        difficulty: "Normal".to_string(),
        objective: Objective { kind: ObjectiveKind::Collect, target: "apple".to_string(), amount: 4 },
        required_level: 1,
        prerequisite: None,
        reward_xp: 30,
        reward_ds: 2,
    }
}

fn app_with(n: usize) -> App {
    let config = Config {
        progression: ProgressionConfig {
            max_level: 2,
            attribute_points_per_level: 1,
            xp_curve: vec![100, 200],
        },
        currency: CurrencyConfig { name: "Dragon Seeds".to_string(), symbol: "Ds".to_string() },
        quests: QuestConfig {
            max_active: 5,
            menu_title: "Journal".to_string(),
            attributes_title: "Stats".to_string(),
        },
    };
    App::load(config, QuestBook { quests: (0..n).map(quest).collect() }, SafeZoneBook { zones: Vec::new() })
        .unwrap()
}

fn request(action: Option<&str>, player: Option<&str>) -> IpcRequest {
    IpcRequest {
        schema: Some("calabazatales.ipc".to_string()),
        version: Some(1),
        action: action.map(|a| a.to_string()),
        player: player.map(|p| p.to_string()),
    }
}

#[test]
fn armor_points_by_material_and_slot() {
    assert_eq!(armor_points("minecraft:diamond_chestplate"), 8);
    assert_eq!(armor_points("minecraft:netherite_helmet"), 4);
    assert_eq!(armor_points("minecraft:iron_leggings"), 3);
    assert_eq!(armor_points("minecraft:golden_boots"), 2);
    assert_eq!(armor_points("minecraft:chainmail_chestplate"), 4);
    assert_eq!(armor_points("minecraft:leather_chestplate"), 2);
    assert_eq!(armor_points("minecraft:turtle_helmet"), 0);
    assert_eq!(
        estimate_player_armor(
            &Some("minecraft:iron_helmet".to_string()),
            &Some("minecraft:diamond_chestplate".to_string()),
            &None,
            &Some("minecraft:leather_boots".to_string()),
        ),
        12
    );
    assert_eq!(estimate_player_armor(&None, &None, &None, &None), 0);
}

#[test]
fn spawn_hit_and_death_attribution() {
    let mut app = app_with(1);
    app.record_spawn(7, "Zombie");
    app.record_hit(7, "p", Some("skeleton"), false);
    app.record_hit(8, "p", Some("Cow"), false);
    app.record_hit(9, "q", None, true);
    app.record_hit(10, "q", None, false);
    let hit = app.entity_died(7).unwrap();
    assert_eq!((hit.player_id.as_str(), hit.target.as_str()), ("p", "minecraft:zombie"));
    assert!(app.entity_died(7).is_none());
    assert_eq!(app.entity_died(8).unwrap().target, "minecraft:cow");
    assert_eq!(app.entity_died(9).unwrap().target, "minecraft:player");
    assert_eq!(app.entity_died(10).unwrap().target, "minecraft:entity");
    app.record_spawn(11, "Pig");
    assert!(app.entity_died(11).is_none());
    app.record_hit(11, "p", Some("cow"), false);
    assert_eq!(app.entity_died(11).unwrap().target, "minecraft:cow");
}

#[test]
fn ipc_capabilities_and_errors() {
    let app = app_with(1);
    assert!(matches!(app.ipc_response(&request(Some("capabilities"), None)), Ok(IpcResponse::Capabilities)));
    let mut bad = request(Some("capabilities"), None);
    bad.version = Some(2);
    assert_eq!(app.ipc_response(&bad).err(), Some("unsupported CalabazaTales IPC schema".to_string()));
    bad = request(Some("capabilities"), None);
    bad.schema = None;
    assert_eq!(app.ipc_response(&bad).err(), Some("unsupported CalabazaTales IPC schema".to_string()));
    assert_eq!(app.ipc_response(&request(None, None)).err(), Some("missing action".to_string()));
    assert_eq!(app.ipc_response(&request(Some("dance"), None)).err(), Some("unsupported action".to_string()));
    assert_eq!(
        app.ipc_response(&request(Some("active_quest"), None)).err(),
        Some("missing player".to_string())
    );
}

#[test]
fn ipc_active_quest() {
    let mut app = app_with(3);
    match app.ipc_response(&request(Some("active_quest"), Some("p"))) {
        Ok(IpcResponse::ActiveQuest { quest_id, quest_name, quest_progress }) => {
            assert_eq!((quest_id, quest_name, quest_progress), (None, None, None));
        }
        _ => panic!("expected an active quest answer"),
    }
    app.activate_or_claim("p", 1);
    app.activate_or_claim("p", 2);
    app.progress("p", ObjectiveKind::Collect, "apple", 3);
    match app.ipc_response(&request(Some("active_quest"), Some("p"))) {
        Ok(IpcResponse::ActiveQuest { quest_id, quest_name, quest_progress }) => {
            assert_eq!(quest_id.as_deref(), Some("q1"));
            assert_eq!(quest_name.as_deref(), Some("Quest 1"));
            assert_eq!(quest_progress, Some(3));
        }
        _ => panic!("expected an active quest answer"),
    }
}

#[test]
fn java_journal_pages() {
    let app = app_with(23);
    let state = app.snapshot("p");
    let page = java_journal_page(&state, app.quests(), 0);
    assert_eq!((page.page, page.last_page, page.entries.len()), (0, 2, 10));
    assert!(!page.has_previous && page.has_next);
    let page = java_journal_page(&state, app.quests(), 7);
    assert_eq!((page.page, page.entries.len()), (2, 3));
    assert_eq!(page.entries[0].index, 20);
    assert!(page.has_previous && !page.has_next);
    assert_eq!(page.entries[0].status, "AVAILABLE");
    let empty = app_with(0);
    let page = java_journal_page(&state, empty.quests(), 3);
    assert_eq!((page.page, page.last_page, page.entries.len()), (0, 0, 0));
}

#[test]
fn bedrock_journal_pages() {
    let app = app_with(20);
    let state = app.snapshot("p");
    let page = bedrock_journal_page(&state, app.quests(), 1);
    assert_eq!(page.entries.len(), 10);
    assert!(page.has_previous && !page.has_next);
    let page = bedrock_journal_page(&state, app.quests(), 5);
    assert!(page.entries.is_empty());
}

#[test]
fn statuses_and_details() {
    let mut app = app_with(3);
    let mut locked = app.quests()[2].clone();
    locked.required_level = 9;
    app.activate_or_claim("p", 0);
    app.progress("p", ObjectiveKind::Collect, "apple", 4);
    app.activate_or_claim("p", 1);
    let s = app.snapshot("p");
    assert_eq!(quest_status(&s, &app.quests()[0], 4), "READY TO CLAIM");
    assert_eq!(quest_status(&s, &app.quests()[1], 0), "ACTIVE");
    assert_eq!(quest_status(&s, &app.quests()[2], 0), "AVAILABLE");
    assert_eq!(quest_status(&s, &locked, 0), "LOCKED");
    assert!(!quest_is_unlocked(&s, &locked));
    assert_eq!(detail_action(&s, &app.quests()[0]), DetailAction::Claim);
    assert_eq!(detail_action(&s, &app.quests()[1]), DetailAction::Cancel);
    assert_eq!(detail_action(&s, &app.quests()[2]), DetailAction::Accept);
    assert_eq!(detail_action(&s, &locked), DetailAction::NoAction);
    assert_eq!(
        quest_details(&s, &app.quests()[0], "Ds"),
        "Quest 0\n\nDescription 0\n\nDifficulty: Normal\nObjective: Collect apple \u{2014} 4/4\nRequired level: 1\nReward: 30 XP + 2 Ds\nStatus: READY TO CLAIM"
    );
    app.activate_or_claim("p", 0);
    let s = app.snapshot("p");
    assert_eq!(quest_status(&s, &app.quests()[0], 0), "COMPLETED");
    assert_eq!(detail_action(&s, &app.quests()[0]), DetailAction::NoAction);
    let fresh = PlayerState::new();
    assert_eq!(quest_status(&fresh, &app.quests()[0], 0), "AVAILABLE");
}

#[test]
fn bedrock_forms_are_answered_once_by_their_player() {
    let mut app = app_with(23);
    app.register_form(1, "p", MenuView::Quests(0));
    assert_eq!(app.bedrock_response("other", 1, Some(0)), UiAction::Nothing);
    assert_eq!(app.bedrock_response("p", 1, Some(0)), UiAction::Nothing);
    app.register_form(2, "p", MenuView::Quests(1));
    assert_eq!(app.bedrock_response("p", 2, None), UiAction::Nothing);
    app.register_form(3, "p", MenuView::Quests(1));
    assert_eq!(app.bedrock_response("p", 3, Some(4)), UiAction::OpenQuestDetail { index: 14, page: 1 });
}

#[test]
fn bedrock_quest_page_buttons() {
    let mut app = app_with(23);
    let cases = [
        (MenuView::Quests(0), 9, UiAction::OpenQuestDetail { index: 9, page: 0 }),
        (MenuView::Quests(0), 10, UiAction::OpenAttributes),
        (MenuView::Quests(0), 11, UiAction::OpenMain(1)),
        (MenuView::Quests(0), 12, UiAction::Nothing),
        (MenuView::Quests(1), 10, UiAction::OpenAttributes),
        (MenuView::Quests(1), 11, UiAction::OpenMain(0)),
        (MenuView::Quests(1), 12, UiAction::OpenMain(2)),
        (MenuView::Quests(2), 2, UiAction::OpenQuestDetail { index: 22, page: 2 }),
        (MenuView::Quests(2), 3, UiAction::OpenAttributes),
        (MenuView::Quests(2), 4, UiAction::OpenMain(1)),
        (MenuView::Quests(2), 5, UiAction::Nothing),
        (MenuView::Attributes, 2, UiAction::Spend(2)),
        (MenuView::Attributes, 4, UiAction::OpenMain(0)),
        (MenuView::Attributes, 5, UiAction::Nothing),
        (MenuView::QuestDetail { page: 1, index: 99 }, 0, UiAction::OpenMain(1)),
        (MenuView::QuestDetail { page: 1, index: 12 }, 0, UiAction::Accept { index: 12, page: 1 }),
        (MenuView::QuestDetail { page: 1, index: 12 }, 1, UiAction::OpenMain(1)),
    ];
    for (i, (view, button, expected)) in cases.into_iter().enumerate() {
        let form = 100 + i as u32;
        app.register_form(form, "p", view);
        assert_eq!(app.bedrock_response("p", form, Some(button)), expected, "case {i}");
    }
    app.activate_or_claim("p", 12);
    app.register_form(500, "p", MenuView::QuestDetail { page: 1, index: 12 });
    assert_eq!(app.bedrock_response("p", 500, Some(0)), UiAction::Cancel { index: 12, page: 1 });
    app.progress("p", ObjectiveKind::Collect, "apple", 9);
    app.register_form(501, "p", MenuView::QuestDetail { page: 1, index: 12 });
    assert_eq!(app.bedrock_response("p", 501, Some(0)), UiAction::Claim { index: 12, page: 1 });
}

#[test]
fn every_quest_is_listed_on_exactly_one_page() {
    for n in [0usize, 1, 9, 10, 11, 20, 23] {
        let app = app_with(n);
        let state = app.snapshot("p");
        let last = java_journal_page(&state, app.quests(), 0).last_page;
        let mut seen = Vec::new();
        for page in 0..=last {
            for entry in java_journal_page(&state, app.quests(), page).entries {
                seen.push(entry.index);
            }
        }
        assert_eq!(seen, (0..n).collect::<Vec<_>>());
    }
}

#[test]
fn page_numbers_that_fit() {
    assert!(page_fits(MenuView::Quests(3)));
    assert!(!page_fits(MenuView::Quests(usize::MAX / 10)));
    assert!(page_fits(MenuView::QuestDetail { page: 0, index: usize::MAX }));
    assert!(!page_fits(MenuView::QuestDetail { page: usize::MAX, index: 0 }));
    assert!(page_fits(MenuView::Attributes));
}

#[test]
fn accepting_twice_tracks_once() {
    let mut app = app_with(2);
    assert_eq!(app.activate_or_claim("p", 0).0, "Quest accepted: Quest 0");
    assert_eq!(app.activate_or_claim("p", 0).0, "Quest 0: 0/4");
    assert_eq!(app.snapshot("p").active.len(), 1);
}

#[test]
fn ipc_raw_messages_are_answered_as_json() {
    let mut app = app_with(3);
    let caps = app
        .handle_ipc_message(br#"{"schema":"calabazatales.ipc","version":1,"action":"capabilities"}"#)
        .unwrap();
    assert_eq!(
        String::from_utf8(caps).unwrap(),
        r#"{"actions":["capabilities","active_quest"],"schema":"calabazatales.ipc","version":1}"#
    );
    let none = app
        .handle_ipc_message(br#"{"schema":"calabazatales.ipc","version":1,"action":"active_quest","player":"p"}"#)
        .unwrap();
    assert_eq!(
        String::from_utf8(none).unwrap(),
        r#"{"quest_id":null,"quest_name":null,"quest_progress":null,"schema":"calabazatales.ipc","version":1}"#
    );
    app.activate_or_claim("p", 1);
    app.progress("p", ObjectiveKind::Collect, "apple", 3);
    let some = app
        .handle_ipc_message(br#"{"player":"p","action":"active_quest","version":1,"schema":"calabazatales.ipc"}"#)
        .unwrap();
    assert_eq!(
        String::from_utf8(some).unwrap(),
        r#"{"quest_id":"q1","quest_name":"Quest 1","quest_progress":3,"schema":"calabazatales.ipc","version":1}"#
    );
}

#[test]
fn ipc_raw_message_errors() {
    let app = app_with(1);
    let err = app.handle_ipc_message(b"not json").unwrap_err();
    assert!(err.starts_with("invalid request: "), "{err}");
    assert!(err.len() > "invalid request: ".len());
    assert_eq!(
        app.handle_ipc_message(br#"{"schema":"calabazatales.ipc","version":"1","action":"capabilities"}"#),
        Err("unsupported CalabazaTales IPC schema".to_string())
    );
    assert_eq!(
        app.handle_ipc_message(br#"{"schema":"calabazatales.ipc","version":1,"action":7}"#),
        Err("missing action".to_string())
    );
    assert_eq!(
        app.handle_ipc_message(br#"{"schema":"calabazatales.ipc","version":1,"action":"active_quest"}"#),
        Err("missing player".to_string())
    );
}

#[test]
fn ipc_quest_names_are_escaped() {
    let mut q = quest(0);
    q.title = "Say \"hi\"\\now\n\u{1}\u{1f}\té".to_string();
    let mut app = app_with(0);
    let config = app.config().clone();
    app.reload(config, QuestBook { quests: vec![q] }, SafeZoneBook { zones: Vec::new() }).unwrap();
    app.activate_or_claim("p", 0);
    let bytes = app
        .handle_ipc_message(br#"{"schema":"calabazatales.ipc","version":1,"action":"active_quest","player":"p"}"#)
        .unwrap();
    assert_eq!(
        String::from_utf8(bytes).unwrap(),
        r#"{"quest_id":"q0","quest_name":"Say \"hi\"\\now\n\u0001\u001f\té","quest_progress":0,"schema":"calabazatales.ipc","version":1}"#
    );
}

#[test]
fn player_state_repeats() {
    let mut s = PlayerState::new();
    s.active.push(("q1".to_string(), 0));
    s.completed.push("q0".to_string());
    assert!(s.has_no_repeats());
    s.completed.push("q1".to_string());
    assert!(s.has_no_repeats());
    let mut t = PlayerState::new();
    t.active.push(("q1".to_string(), 0));
    t.active.push(("q1".to_string(), 2));
    assert!(!t.has_no_repeats());
    let mut u = PlayerState::new();
    u.completed.push("q0".to_string());
    u.completed.push("q0".to_string());
    assert!(!u.has_no_repeats());
    assert!(app_with(1).snapshot("nobody").has_no_repeats());
}

#[test]
fn ipc_requests_are_parsed_by_field() {
    let r = calabaza_tales::ipc::parse_ipc_request(
        br#"{"schema":"calabazatales.ipc","version":1,"action":"active_quest","player":"p","extra":true}"#,
    )
    .unwrap();
    assert_eq!(r.schema.as_deref(), Some("calabazatales.ipc"));
    assert_eq!(r.version, Some(1));
    assert_eq!(r.action.as_deref(), Some("active_quest"));
    assert_eq!(r.player.as_deref(), Some("p"));
    let r = calabaza_tales::ipc::parse_ipc_request(br#"{"version":-1,"player":3}"#).unwrap();
    assert_eq!((r.schema, r.version, r.action, r.player), (None, None, None, None));
    assert!(calabaza_tales::ipc::parse_ipc_request(b"[1,").is_err());
}

#[test]
fn quest_detail_view_and_missing_quest() {
    let mut app = app_with(2);
    app.activate_or_claim("p", 1);
    let (quest, details, action) = app.quest_detail("p", 1).unwrap();
    assert_eq!(quest.id, "q1");
    assert!(details.starts_with("Quest 1\n\nDescription 1"));
    assert_eq!(action, DetailAction::Cancel);
    assert_eq!(app.quest_detail("p", 2).err(), Some("That quest no longer exists.".to_string()));
}

#[test]
fn a_claimed_reward_is_paid_once() {
    let mut app = app_with(1);
    app.activate_or_claim("p", 0);
    app.progress("p", ObjectiveKind::Collect, "apple", 4);
    let (m, _) = app.activate_or_claim("p", 0);
    assert!(m.starts_with("Claimed Quest 0"));
    let after = app.snapshot("p");
    let (m2, levels) = app.activate_or_claim("p", 0);
    assert_eq!(m2, "You have already completed that quest.");
    assert!(levels.is_empty());
    let again = app.snapshot("p");
    assert_eq!((again.xp, again.dragon_seeds, again.completed.clone()), (after.xp, after.dragon_seeds, after.completed.clone()));
    assert_eq!(again.dragon_seeds, 2);
}
