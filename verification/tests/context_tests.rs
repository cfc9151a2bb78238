use solyn::budget::{estimate_messages_tokens, estimate_tokens, trim_to_budget, DEFAULT_NUM_CTX};
use solyn::chat::ChatMessage;
use solyn::context::{build_context, compose_system_prompt, plan_options, resolve_num_ctx, ContextInput, Mode, SessionSettings};

fn msg(role: &str, content: &str) -> ChatMessage {
    ChatMessage { role: role.to_string(), content: content.to_string(), thinking: None }
}

fn settings() -> SessionSettings {
    SessionSettings::default()
}

#[test]
fn system_message_is_first_and_only_once() {
    let ctx = build_context(ContextInput {
        settings: settings(),
        history: vec![msg("user", "hi"), msg("assistant", "hello")],
        user_message: "how are you".into(),
    });
    assert_eq!(ctx.messages[0].role, "system");
    assert!(ctx.messages[0].content.contains("Solyn"));
    assert_eq!(ctx.messages.iter().filter(|m| m.role == "system").count(), 1);
    assert_eq!(ctx.messages.last().unwrap().content, "how are you");
}

#[test]
fn code_mode_is_colder_than_chat() {
    let chat = plan_options(&settings()).temperature_millis;
    let mut s = settings();
    s.code = true;
    let code = plan_options(&s).temperature_millis;
    assert!(code < chat);
}

#[test]
fn code_mode_adds_overlay() {
    let mut s = settings();
    assert!(!compose_system_prompt(&s).contains("coding mode"));
    s.code = true;
    assert!(compose_system_prompt(&s).contains("coding mode"));
}

#[test]
fn agent_mode_adds_overlay() {
    let mut s = settings();
    assert!(!compose_system_prompt(&s).contains("agent mode"));
    s.mode = Mode::Agent;
    assert!(compose_system_prompt(&s).contains("agent mode"));
}

#[test]
fn default_num_ctx_is_8192_and_overridable() {
    assert_eq!(resolve_num_ctx(&settings()), DEFAULT_NUM_CTX);
    let mut s = settings();
    s.options.num_ctx = Some(32768);
    assert_eq!(resolve_num_ctx(&s), 32768);
}

#[test]
fn thinking_is_stripped_from_outgoing_history() {
    let mut prior = msg("assistant", "previous");
    prior.thinking = Some("secret reasoning".into());
    let ctx = build_context(ContextInput { settings: settings(), history: vec![prior], user_message: "next".into() });
    assert!(ctx.messages.iter().all(|m| m.thinking.is_none()));
}

#[test]
fn trim_drops_oldest_pairs_and_keeps_the_newest_turn() {
    let history: Vec<ChatMessage> = (0..50)
        .map(|i| msg(if i % 2 == 0 { "user" } else { "assistant" }, &"x".repeat(4000)))
        .collect();
    let ctx = build_context(ContextInput { settings: settings(), history, user_message: "final".into() });
    assert!(ctx.messages.len() < 52);
    assert_eq!(ctx.messages[0].role, "system");
    assert_eq!(ctx.messages.last().unwrap().content, "final");
    assert_eq!(ctx.messages[1].role, "user");
}

#[test]
fn temperatures_per_mode() {
    let mut s = settings();
    assert_eq!(plan_options(&s).temperature_millis, 700);
    s.mode = Mode::Agent;
    assert_eq!(plan_options(&s).temperature_millis, 300);
    s.code = true;
    assert_eq!(plan_options(&s).temperature_millis, 200);
    assert_eq!(plan_options(&s).top_p_millis, 900);
    assert!(plan_options(&s).top_k.is_none());
}

#[test]
fn blank_history_messages_are_dropped() {
    let ctx = build_context(ContextInput {
        settings: settings(),
        history: vec![msg("user", "  "), msg("assistant", "kept")],
        user_message: "q".into(),
    });
    assert_eq!(ctx.messages.len(), 3);
    assert_eq!(ctx.messages[1].content, "kept");
}

#[test]
fn token_estimates_round_up() {
    assert_eq!(estimate_tokens(""), 0);
    assert_eq!(estimate_tokens("abcd"), 1);
    assert_eq!(estimate_tokens("abcde"), 2);
    assert_eq!(estimate_messages_tokens(&[msg("user", "abcd"), msg("assistant", "")]), 1 + 4 + 0 + 4);
}

#[test]
fn trim_keeps_everything_that_fits() {
    let msgs = vec![msg("user", "abcd"), msg("assistant", "abcd")];
    let kept = trim_to_budget(msgs, 10);
    assert_eq!(kept.len(), 2);
}

#[test]
fn trim_drops_oldest_pair_first() {
    let msgs = vec![msg("user", "aaaa"), msg("assistant", "bbbb"), msg("user", "cccc")];
    // Each message costs 5 tokens; a budget of 6 only fits the newest.
    let kept = trim_to_budget(msgs, 6);
    assert_eq!(kept.len(), 1);
    assert_eq!(kept[0].content, "cccc");
}

#[test]
fn trim_never_drops_the_last_message() {
    let msgs = vec![msg("user", &"x".repeat(400))];
    let kept = trim_to_budget(msgs, 1);
    assert_eq!(kept.len(), 1);
}

#[test]
fn message_estimates_add_up_and_ignore_roles_and_reasoning() {
    let a = vec![ChatMessage::new("user", "hello world"), ChatMessage::new("assistant", "hi")];
    let b = vec![ChatMessage::new("user", "abcdefghi")];
    let mut ab = a.clone();
    ab.extend(b.clone());
    assert_eq!(estimate_messages_tokens(&[]), 0);
    assert_eq!(estimate_messages_tokens(&ab), estimate_messages_tokens(&a) + estimate_messages_tokens(&b));
    assert_eq!(estimate_messages_tokens(&ab), (3 + 4) + (1 + 4) + (3 + 4));
    let mut other = ChatMessage::new("system", "abcdefghi");
    other.thinking = Some("a long chain of reasoning".to_string());
    assert_eq!(estimate_messages_tokens(&[other]), estimate_messages_tokens(&b));
}
