use nullspace::chat::{ChatCommand, ChatController, ChatInput, ChatSendKind, MAX_MESSAGE_HISTORY};
use nullspace::net::packet::s2c::ChatKind;
use nullspace::player::{Player, PlayerId, PlayerManager};
use nullspace::render::text_renderer::TextColor;
use nullspace::ship::ShipKind;

fn typed(text: &str) -> ChatController {
    let mut chat = ChatController::new();
    for b in text.bytes() {
        chat.handle_key(b, false);
    }
    chat
}

fn arena() -> PlayerManager {
    let mut pm = PlayerManager::new();
    pm.add_player(Player::new(PlayerId::new(3), "Bob", "", ShipKind::Warbird, 0, 0, 0));
    pm
}

#[test]
fn typing_and_erasing() {
    let mut chat = typed("abc");
    assert_eq!(chat.input, b"abc".to_vec());
    assert!(!chat.handle_key(8, false));
    assert_eq!(chat.input, b"ab".to_vec());
    assert!(chat.handle_key(13, false));
    chat.handle_key(8, true);
    assert!(chat.input.is_empty());
    assert!(!chat.handle_key(13, false));
    chat.handle_key(7, false);
    assert!(chat.input.is_empty());
}

#[test]
fn input_is_limited_in_length() {
    let mut chat = ChatController::new();
    for _ in 0..300 {
        chat.handle_key(b'x', false);
    }
    assert_eq!(chat.input.len(), 250);
}

#[test]
fn send_kind_by_prefix() {
    assert_eq!(typed("hello").get_chat_send_kind(), ChatSendKind::Public);
    assert_eq!(typed("'team").get_chat_send_kind(), ChatSendKind::Team);
    assert_eq!(typed("//team").get_chat_send_kind(), ChatSendKind::Team);
    assert_eq!(typed("/private").get_chat_send_kind(), ChatSendKind::Private);
    assert_eq!(typed(";1;chan").get_chat_send_kind(), ChatSendKind::Channel);
    assert_eq!(typed("\"freq").get_chat_send_kind(), ChatSendKind::Frequency);
    assert_eq!(typed(":bob:hi").get_chat_send_kind(), ChatSendKind::Private);
    assert_eq!(typed(":bob").get_chat_send_kind(), ChatSendKind::Public);
}

#[test]
fn commands_are_read_from_input() {
    match typed("=12").handle_input_commands() {
        Some(ChatCommand::ChangeFrequency(f)) => assert_eq!(f, 12),
        _ => panic!("expected a team change"),
    }
    match typed("  =x ").handle_input_commands() {
        Some(ChatCommand::ChangeFrequency(f)) => assert_eq!(f, 0xFFFF_FFFF),
        _ => panic!("expected a team change"),
    }
    match typed("?go  turf  ").handle_input_commands() {
        Some(ChatCommand::Go(arena)) => assert_eq!(arena, "turf"),
        _ => panic!("expected an arena change"),
    }
    assert!(typed("?help").handle_input_commands().is_none());
    assert!(typed("=").handle_input_commands().is_none());
    assert!(typed("hello").handle_input_commands().is_none());
}

#[test]
fn send_command_clears_input() {
    let mut chat = typed("=3");
    match chat.send_input(&arena(), PlayerId::invalid(), "me") {
        ChatInput::Command(ChatCommand::ChangeFrequency(3)) => {}
        _ => panic!("expected a team change"),
    }
    assert!(chat.input.is_empty());
    assert!(chat.messages.is_empty());
}

#[test]
fn send_public_line_is_filed_under_own_name() {
    let mut chat = typed("hello all");
    match chat.send_input(&arena(), PlayerId::invalid(), "me") {
        ChatInput::Send(m) => {
            assert_eq!(m.kind, ChatKind::Public);
            assert_eq!(m.target, None);
            assert_eq!(m.text, "hello all");
        }
        _ => panic!("expected a chat line"),
    }
    assert!(chat.input.is_empty());
    assert_eq!(chat.messages.len(), 1);
    assert_eq!(chat.messages[0].kind, ChatKind::Public);
    assert_eq!(chat.messages[0].sender, "me");
    assert_eq!(chat.messages[0].message, "hello all");
}

#[test]
fn send_team_and_frequency_lines_drop_prefix() {
    let mut chat = typed("//go team");
    match chat.send_input(&arena(), PlayerId::invalid(), "me") {
        ChatInput::Send(m) => {
            assert_eq!(m.kind, ChatKind::Team);
            assert_eq!(m.text, "go team");
        }
        _ => panic!("expected a chat line"),
    }
    let mut chat = typed("\"over there");
    match chat.send_input(&arena(), PlayerId::new(3), "me") {
        ChatInput::Send(m) => {
            assert_eq!(m.kind, ChatKind::Frequency);
            assert_eq!(m.target, Some(PlayerId::new(3)));
            assert_eq!(m.text, "over there");
        }
        _ => panic!("expected a chat line"),
    }
}

#[test]
fn send_private_to_known_and_unknown_names() {
    let pm = arena();
    let mut chat = typed(":Bob:hey");
    match chat.send_input(&pm, PlayerId::invalid(), "me") {
        ChatInput::Send(m) => {
            assert_eq!(m.kind, ChatKind::Private);
            assert_eq!(m.target, Some(PlayerId::new(3)));
            assert_eq!(m.text, "hey");
        }
        _ => panic!("expected a chat line"),
    }
    assert_eq!(chat.messages[0].kind, ChatKind::Private);
    assert_eq!(chat.recent_private, vec!["me".to_string()]);

    let mut chat = typed(":Zed:hey");
    match chat.send_input(&pm, PlayerId::invalid(), "me") {
        ChatInput::Send(m) => {
            assert_eq!(m.kind, ChatKind::RemotePrivate);
            assert_eq!(m.target, None);
            assert_eq!(m.text, ":Zed:hey");
        }
        _ => panic!("expected a chat line"),
    }
    assert_eq!(chat.messages[0].kind, ChatKind::RemotePrivate);

    let mut chat = typed("/psst");
    match chat.send_input(&pm, PlayerId::new(3), "me") {
        ChatInput::Send(m) => {
            assert_eq!(m.kind, ChatKind::Private);
            assert_eq!(m.target, Some(PlayerId::new(3)));
            assert_eq!(m.text, "psst");
        }
        _ => panic!("expected a chat line"),
    }
}

#[test]
fn channel_line_is_filed_without_name() {
    let mut chat = typed(";2;chan");
    match chat.send_input(&arena(), PlayerId::invalid(), "me") {
        ChatInput::Send(m) => {
            assert_eq!(m.kind, ChatKind::Channel);
            assert_eq!(m.text, ";2;chan");
        }
        _ => panic!("expected a chat line"),
    }
    assert_eq!(chat.messages[0].sender, "");
}

#[test]
fn invalid_text_sends_nothing() {
    let mut chat = ChatController::new();
    chat.handle_key(0xFF, false);
    chat.handle_key(b'a', false);
    assert!(matches!(chat.send_input(&arena(), PlayerId::invalid(), "me"), ChatInput::Nothing));
    assert!(chat.input.is_empty());
    assert!(chat.messages.is_empty());
}

#[test]
fn history_is_a_ring_of_sixty_four() {
    let mut chat = ChatController::new();
    for i in 0..70 {
        chat.handle_chat_message(ChatKind::Public, "a".to_string(), format!("{i}"));
    }
    assert_eq!(chat.messages.len(), MAX_MESSAGE_HISTORY);
    assert_eq!(chat.insert_index, 6);
    assert_eq!(chat.messages[0].message, "64");
    assert_eq!(chat.messages[5].message, "69");
    assert_eq!(chat.messages[6].message, "6");
}

#[test]
fn recent_names_ignore_case_and_keep_five() {
    let mut chat = ChatController::new();
    for name in ["Ann", "bob", "Cid", "dan", "Eve", "fay"] {
        chat.handle_chat_message(ChatKind::Private, name.to_string(), "hi".to_string());
    }
    assert_eq!(chat.recent_private, vec!["bob", "Cid", "dan", "Eve", "fay"]);
    chat.handle_chat_message(ChatKind::RemotePrivate, "BOB".to_string(), "hi".to_string());
    assert_eq!(chat.recent_private, vec!["Cid", "dan", "Eve", "fay", "BOB"]);
    chat.handle_chat_message(ChatKind::Public, "zed".to_string(), "hi".to_string());
    assert_eq!(chat.recent_private.len(), 5);
}

#[test]
fn colon_fills_in_recent_names() {
    let mut chat = ChatController::new();
    chat.handle_chat_message(ChatKind::Private, "Ann".to_string(), "hi".to_string());
    chat.handle_chat_message(ChatKind::Private, "Bob".to_string(), "hi".to_string());
    chat.handle_key(b':', false);
    chat.handle_key(b':', false);
    assert_eq!(chat.input, b":Bob:".to_vec());
    chat.handle_key(b':', false);
    assert_eq!(chat.input, b":Bob:".to_vec());
}

#[test]
fn system_lines_are_arena_lines() {
    let mut chat = ChatController::new();
    chat.add_system_message("welcome".to_string());
    assert_eq!(chat.messages[0].kind, ChatKind::Arena);
    assert_eq!(chat.messages[0].sender, "");
    assert_eq!(chat.messages[0].message, "welcome");
}

#[test]
fn ring_index_wraps_both_ways() {
    assert_eq!(ChatController::wrap_index(0, -1, 64), 63);
    assert_eq!(ChatController::wrap_index(63, 1, 64), 0);
    assert_eq!(ChatController::wrap_index(10, 5, 64), 15);
}

#[test]
fn chat_colors() {
    assert_eq!(ChatController::get_chat_message_color(ChatKind::Arena), TextColor::Green);
    assert_eq!(ChatController::get_chat_message_color(ChatKind::Team), TextColor::Yellow);
    assert_eq!(ChatController::get_chat_message_color(ChatKind::Channel), TextColor::Red);
    assert_eq!(ChatController::get_chat_message_color(ChatKind::Public), TextColor::Blue);
}

#[test]
fn long_lines_wrap() {
    let mut spans = Vec::new();
    ChatController::wrap_chat(&mut spans, "abcdefghij", 4);
    assert_eq!(spans, vec![(0, 4), (4, 8), (8, 10)]);
    ChatController::wrap_chat(&mut spans, "ab cdefgh", 4);
    assert_eq!(spans, vec![(0, 2), (2, 6), (6, 9)]);
}
