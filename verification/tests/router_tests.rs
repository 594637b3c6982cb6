use invite_bot::dialogue::{Reply, Sessions};
use invite_bot::directory::Directory;
use invite_bot::models::NewUser;
use invite_bot::router::{
    Action, Config, EventPayload, InboundEvent, Route, classify, handle_event,
};

fn config() -> Config {
    Config {
        group_id: -1001,
        admin_ids: vec![42, 43],
        require_phone_suffix: true,
        unban_after_kick: false,
    }
}

fn text_event(chat_id: i64, private: bool, sender: Option<u64>, text: &str) -> InboundEvent {
    InboundEvent {
        chat_id,
        chat_is_private: private,
        sender,
        payload: EventPayload::Text(text.chars().collect()),
    }
}

#[test]
fn admin_command_outranks_private_dialogue() {
    let cfg = config();
    let e = text_event(5, true, Some(42), "/dump");
    assert_eq!(classify(&cfg, &e), Route::AdminCommand);
}

#[test]
fn command_from_non_admin_is_ordinary_dialogue() {
    let cfg = config();
    let e = text_event(5, true, Some(7), "/dump");
    assert_eq!(classify(&cfg, &e), Route::PrivateDialogue);
}

#[test]
fn admin_command_recognized_in_group_chat_too() {
    let cfg = config();
    let e = text_event(-1001, false, Some(43), "/help");
    assert_eq!(classify(&cfg, &e), Route::AdminCommand);
}

#[test]
fn private_text_routes_to_dialogue() {
    let cfg = config();
    let e = text_event(5, true, Some(7), "hello");
    assert_eq!(classify(&cfg, &e), Route::PrivateDialogue);
}

#[test]
fn join_in_monitored_group_routes_to_gatekeeper() {
    let cfg = config();
    let e = InboundEvent {
        chat_id: -1001,
        chat_is_private: false,
        sender: None,
        payload: EventPayload::NewMembers(vec![1, 2]),
    };
    assert_eq!(classify(&cfg, &e), Route::GroupJoin);
}

#[test]
fn join_in_other_group_is_ignored() {
    let cfg = config();
    let e = InboundEvent {
        chat_id: -999,
        chat_is_private: false,
        sender: None,
        payload: EventPayload::NewMembers(vec![1]),
    };
    assert_eq!(classify(&cfg, &e), Route::Ignored);
}

#[test]
fn ordinary_group_chatter_is_ignored() {
    let cfg = config();
    let e = text_event(-1001, false, Some(7), "good morning");
    assert_eq!(classify(&cfg, &e), Route::Ignored);
}

#[test]
fn handle_event_answers_private_message() {
    let cfg = config();
    let mut dir = Directory::new();
    dir.add_record(
        NewUser { full_name: "Ivanov Ivan Ivanovich".chars().collect() },
        Some("5411".chars().collect()),
    );
    let mut sessions = Sessions::new();
    let e = text_event(5, true, Some(7), "hello");
    let actions = handle_event(&cfg, &mut dir, &mut sessions, &e);
    assert_eq!(actions, vec![Action::Send(Reply::Prompt)]);
}

#[test]
fn handle_event_evicts_only_unverified_members() {
    let cfg = config();
    let mut dir = Directory::new();
    let name: Vec<char> = "Ivanov Ivan Ivanovich".chars().collect();
    dir.add_record(NewUser { full_name: name.clone() }, Some("5411".chars().collect()));
    assert!(dir.insert_telegram_data(&name, 1));
    let mut sessions = Sessions::new();
    let e = InboundEvent {
        chat_id: -1001,
        chat_is_private: false,
        sender: None,
        payload: EventPayload::NewMembers(vec![1, 2, 3]),
    };
    let actions = handle_event(&cfg, &mut dir, &mut sessions, &e);
    assert_eq!(actions, vec![Action::Kick(2), Action::Kick(3)]);
}

#[test]
fn handle_event_unbans_when_configured() {
    let mut cfg = config();
    cfg.unban_after_kick = true;
    let mut dir = Directory::new();
    let mut sessions = Sessions::new();
    let e = InboundEvent {
        chat_id: -1001,
        chat_is_private: false,
        sender: None,
        payload: EventPayload::NewMembers(vec![2]),
    };
    let actions = handle_event(&cfg, &mut dir, &mut sessions, &e);
    assert_eq!(actions, vec![Action::Kick(2), Action::Unban(2)]);
}

#[test]
fn handle_event_does_nothing_for_ignored_events() {
    let cfg = config();
    let mut dir = Directory::new();
    let mut sessions = Sessions::new();
    let e = text_event(-555, false, Some(7), "hi");
    assert!(handle_event(&cfg, &mut dir, &mut sessions, &e).is_empty());
}

#[test]
fn handle_event_leaves_admin_commands_to_the_surface() {
    let cfg = config();
    let mut dir = Directory::new();
    let mut sessions = Sessions::new();
    let e = text_event(5, true, Some(42), "/addid Ivanov Ivan Ivanovich 99");
    assert!(handle_event(&cfg, &mut dir, &mut sessions, &e).is_empty());
}
