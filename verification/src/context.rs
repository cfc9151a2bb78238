//! Context assembly: turns a session's settings, prior history and the new user
//! message into the exact message list sent to the model server.
//!
//! Sampling temperatures are decided here as thousandths of the mode's defaults. A
//! session may also carry an explicit temperature or top-p, which are floating-point
//! values and so are not held by `SessionSettings`: the application reads them with
//! the settings and puts them in the request in place of these defaults.

use vstd::prelude::*;
use crate::chat::{ChatMessage, MessageView, message_views};
use crate::budget::{
    conversation_tokens, estimate_tokens, text_tokens, trim_to_budget, trimmed, DEFAULT_NUM_CTX,
};
use crate::text::{has_prefix, has_suffix, is_blank, push_str, str_is_blank};

verus! {

/// How the assistant behaves in a session.
#[derive(Debug, Clone, Copy, PartialEq, Eq, Structural)]
pub enum Mode {
    Chat,
    Agent,
}

impl Default for Mode {
    fn default() -> (r: Self)
        ensures
            r == Mode::Chat,
    {
        Mode::Chat
    }
}

/// Per-session integer overrides of generation options.
#[derive(Debug, Clone, Copy, PartialEq, Eq, Structural)]
pub struct OptionOverrides {
    pub num_ctx: Option<i32>,
    pub num_predict: Option<i32>,
}

impl Default for OptionOverrides {
    fn default() -> (r: Self)
        ensures
            r.num_ctx.is_none(),
            r.num_predict.is_none(),
    {
        OptionOverrides { num_ctx: None, num_predict: None }
    }
}

/// Per-session configuration.
#[derive(Debug, Clone, Copy, PartialEq, Eq, Structural)]
pub struct SessionSettings {
    pub mode: Mode,
    pub code: bool,
    pub web: bool,
    pub options: OptionOverrides,
}

impl Default for SessionSettings {
    fn default() -> (r: Self)
        ensures
            r.mode == Mode::Chat,
            !r.code,
            !r.web,
            r.options.num_ctx.is_none(),
            r.options.num_predict.is_none(),
    {
        SessionSettings { mode: Mode::Chat, code: false, web: false, options: OptionOverrides::default() }
    }
}

/// The base instructions placed at the head of every request.
pub const BASE_PROMPT: &'static str = "You are Solyn, a private assistant running entirely on the user's machine. Answer directly and concisely. Use Markdown for code, lists, and tables. If you are unsure or lack information, say so rather than guessing.";

/// Added in agent mode.
pub const AGENT_OVERLAY: &'static str = "You are in agent mode. Work through the problem end to end: state a short plan, then carry it out step by step. Be methodical, and check your work before concluding.";

/// Added when the coding toggle is on.
pub const CODE_OVERLAY: &'static str = "You are in coding mode. Reply with code first and keep prose to a minimum. Do not add pleasantries, restate the request, or pad the answer. Prefer complete, runnable snippets and call out required imports. If the request is ambiguous, make the most reasonable assumption and state it in one line.";

/// Separator between prompt parts.
pub const PROMPT_SEPARATOR: &'static str = "\n\n";

/// The system prompt for a session: the base prompt, then the agent overlay in agent
/// mode, then the coding overlay when coding is on, separated by blank lines.
pub open spec fn system_prompt(settings: SessionSettings) -> Seq<char> {
    let with_agent = if settings.mode == Mode::Agent {
        BASE_PROMPT@ + PROMPT_SEPARATOR@ + AGENT_OVERLAY@
    } else {
        BASE_PROMPT@
    };
    if settings.code {
        with_agent + PROMPT_SEPARATOR@ + CODE_OVERLAY@
    } else {
        with_agent
    }
}

/// Compose the single system message placed at the head of every request.
pub fn compose_system_prompt(settings: &SessionSettings) -> (r: String)
    ensures
        r@ == system_prompt(*settings),
{
    let mut r = String::from_str(BASE_PROMPT);
    if settings.mode == Mode::Agent {
        push_str(&mut r, PROMPT_SEPARATOR);
        push_str(&mut r, AGENT_OVERLAY);
    }
    if settings.code {
        push_str(&mut r, PROMPT_SEPARATOR);
        push_str(&mut r, CODE_OVERLAY);
    }
    r
}

/// The context window of a session: its explicit setting, else the default.
pub open spec fn context_window(settings: SessionSettings) -> i32 {
    match settings.options.num_ctx {
        Some(n) => n,
        None => DEFAULT_NUM_CTX,
    }
}

/// Resolve the context window. An explicit setting wins; otherwise the fallback.
pub fn resolve_num_ctx(settings: &SessionSettings) -> (r: i32)
    ensures
        r == context_window(*settings),
{
    match settings.options.num_ctx {
        Some(n) => n,
        None => DEFAULT_NUM_CTX,
    }
}

/// Default sampling temperature in thousandths: coding is the most deterministic,
/// agent mode is cool, plain chat is warmest.
pub open spec fn temperature_millis(settings: SessionSettings) -> u32 {
    if settings.code {
        200
    } else {
        match settings.mode {
            Mode::Agent => 300,
            Mode::Chat => 700,
        }
    }
}

/// Default nucleus-sampling threshold in thousandths.
pub const DEFAULT_TOP_P_MILLIS: u32 = 900;

/// The default temperature, in thousandths, for a session without a temperature override.
pub fn default_temperature_millis(settings: &SessionSettings) -> (r: u32)
    ensures
        r == temperature_millis(*settings),
{
    if settings.code {
        200
    } else {
        match settings.mode {
            Mode::Agent => 300,
            Mode::Chat => 700,
        }
    }
}

/// Generation options decided by the session settings; temperatures in thousandths.
#[derive(Debug, Clone, Copy, PartialEq, Eq, Structural)]
pub struct OptionPlan {
    pub temperature_millis: u32,
    pub top_p_millis: u32,
    pub top_k: Option<i32>,
    pub num_ctx: i32,
    pub num_predict: Option<i32>,
}

/// Map settings to generation options.
pub fn plan_options(settings: &SessionSettings) -> (r: OptionPlan)
    ensures
        r.temperature_millis == temperature_millis(*settings),
        r.top_p_millis == DEFAULT_TOP_P_MILLIS,
        r.top_k.is_none(),
        r.num_ctx == context_window(*settings),
        r.num_predict == settings.options.num_predict,
{
    OptionPlan {
        temperature_millis: default_temperature_millis(settings),
        top_p_millis: DEFAULT_TOP_P_MILLIS,
        top_k: None,
        num_ctx: resolve_num_ctx(settings),
        num_predict: settings.options.num_predict,
    }
}

/// Law: coding mode is colder than either conversational mode, and agent mode is colder
/// than plain chat.
pub proof fn law_code_mode_is_coldest(s: SessionSettings)
    ensures
        s.code ==> temperature_millis(s) < temperature_millis(SessionSettings { code: false, ..s }),
        !s.code && s.mode == Mode::Agent ==> temperature_millis(s) < temperature_millis(
            SessionSettings { mode: Mode::Chat, ..s },
        ),
{
}

/// Everything that goes into one request.
pub struct ContextInput {
    pub settings: SessionSettings,
    pub history: Vec<ChatMessage>,
    pub user_message: String,
}

/// The messages of one request, system message first.
pub struct AssembledContext {
    pub messages: Vec<ChatMessage>,
    pub options: OptionPlan,
}

/// Prior history as sent to the model: blank messages dropped, reasoning removed.
pub open spec fn outgoing_history(h: Seq<MessageView>) -> Seq<MessageView>
    decreases h.len(),
{
    if h.len() == 0 {
        Seq::empty()
    } else {
        let rest = outgoing_history(h.drop_last());
        let m = h.last();
        if is_blank(m.content) {
            rest
        } else {
            rest.push(MessageView { role: m.role, content: m.content, thinking: None })
        }
    }
}

/// The conversation to trim: outgoing history followed by the new user turn.
pub open spec fn conversation(h: Seq<MessageView>, user: Seq<char>) -> Seq<MessageView> {
    outgoing_history(h).push(MessageView { role: "user"@, content: user, thinking: None })
}

/// Tokens available to the conversation: the window, less a quarter reserved for the
/// reply, less the system prompt (each step stopping at zero). A negative window is
/// reinterpreted as an unsigned size, as the cast in the computation does.
pub open spec fn conversation_budget(settings: SessionSettings) -> nat {
    let window = context_window(settings) as usize;
    let reserve = window / 4;
    let after_reserve: int = if window >= reserve { window - reserve } else { 0 };
    let prompt = text_tokens(system_prompt(settings));
    (if after_reserve >= prompt { after_reserve - prompt } else { 0 }) as nat
}

/// The message list of a request.
pub open spec fn assembled(settings: SessionSettings, h: Seq<MessageView>, user: Seq<char>) -> Seq<
    MessageView,
> {
    seq![MessageView { role: "system"@, content: system_prompt(settings), thinking: None }]
        + trimmed(conversation(h, user), conversation_budget(settings))
}

/// Whether the conversation's token estimate fits a machine word.
pub open spec fn context_fits_word(input: ContextInput) -> bool {
    conversation_tokens(conversation(message_views(input.history@), input.user_message@))
        <= usize::MAX
}

/// Build the full message list: one system message, then budget-trimmed history
/// followed by the new user turn. Reasoning is never sent back to the model.
pub fn build_context(input: ContextInput) -> (r: AssembledContext)
    requires
        context_fits_word(input),
    ensures
        message_views(r.messages@) == assembled(
            input.settings,
            message_views(input.history@),
            input.user_message@,
        ),
        r.options.temperature_millis == temperature_millis(input.settings),
        r.options.top_p_millis == DEFAULT_TOP_P_MILLIS,
        r.options.top_k.is_none(),
        r.options.num_ctx == context_window(input.settings),
        r.options.num_predict == input.settings.options.num_predict,
{
    let settings = input.settings;
    let system = compose_system_prompt(&settings);
    let num_ctx = resolve_num_ctx(&settings) as usize;
    let ghost h = message_views(input.history@);
    let history = input.history;
    let mut convo: Vec<ChatMessage> = Vec::new();
    let n = history.len();
    let mut i: usize = 0;
    while i < n
        invariant
            i <= n,
            n == history@.len(),
            h == message_views(history@),
            message_views(convo@) == outgoing_history(h.take(i as int)),
        decreases n - i,
    {
        let m = &history[i];
        proof {
            assert(h.take(i + 1).drop_last() =~= h.take(i as int));
        }
        if !str_is_blank(m.content.as_str()) {
            let msg = ChatMessage { role: m.role.clone(), content: m.content.clone(), thinking: None };
            convo.push(msg);
            assert(message_views(convo@) =~= outgoing_history(h.take(i + 1)));
        } else {
            assert(message_views(convo@) =~= outgoing_history(h.take(i + 1)));
        }
        i = i + 1;
    }
    assert(h.take(n as int) =~= h);
    let user = ChatMessage { role: String::from_str("user"), content: input.user_message, thinking: None };
    convo.push(user);
    assert(message_views(convo@) =~= conversation(h, input.user_message@));
    let output_reserve = num_ctx / 4;
    let after_reserve = num_ctx.saturating_sub(output_reserve);
    let budget = after_reserve.saturating_sub(estimate_tokens(system.as_str()));
    let system_message = ChatMessage { role: String::from_str("system"), content: system, thinking: None };
    let mut messages: Vec<ChatMessage> = Vec::new();
    messages.push(system_message);
    let mut rest = trim_to_budget(convo, budget);
    messages.append(&mut rest);
    assert(message_views(messages@) =~= assembled(settings, h, input.user_message@));
    AssembledContext { messages, options: plan_options(&settings) }
}

/// Law: the system message comes first, exactly once, and every other message is taken
/// from the history or is the new user turn; reasoning is never sent.
pub proof fn law_system_first_and_no_reasoning(
    settings: SessionSettings,
    h: Seq<MessageView>,
    user: Seq<char>,
)
    ensures
        assembled(settings, h, user)[0].role == "system"@,
        assembled(settings, h, user)[0].content == system_prompt(settings),
        forall|i: int|
            0 <= i < assembled(settings, h, user).len() ==> (#[trigger] assembled(
                settings,
                h,
                user,
            )[i]).thinking.is_none(),
        forall|i: int|
            1 <= i < assembled(settings, h, user).len() ==> (#[trigger] assembled(
                settings,
                h,
                user,
            )[i]).role != "system"@ || exists|j: int|
                0 <= j < h.len() && h[j].role == assembled(settings, h, user)[i].role,
{
    let c = conversation(h, user);
    let b = conversation_budget(settings);
    crate::budget::lemma_trim_is_suffix(c, b);
    lemma_outgoing_history_shape(h);
    let t = trimmed(c, b);
    let a = assembled(settings, h, user);
    assert forall|i: int| 0 <= i < a.len() implies (#[trigger] a[i]).thinking.is_none() by {
        if i >= 1 {
            let k = c.len() - t.len() + i - 1;
            assert(a[i] == t[i - 1]);
            assert(t[i - 1] == c[k]);
        }
    }
    assert forall|i: int| 1 <= i < a.len() implies (#[trigger] a[i]).role != "system"@ || exists|j: int|
        0 <= j < h.len() && h[j].role == a[i].role by {
        let k = c.len() - t.len() + i - 1;
        assert(a[i] == t[i - 1]);
        assert(t[i - 1] == c[k]);
        if k < c.len() - 1 {
            let j = choose|j: int| 0 <= j < h.len() && h[j].role == outgoing_history(h)[k].role;
            assert(h[j].role == a[i].role);
        } else {
            assert(a[i].role == "user"@);
            reveal_strlit("user");
            reveal_strlit("system");
            assert("user"@[0] != "system"@[0]);
        }
    }
}

/// Each outgoing message carries no reasoning and the role of some history message.
pub proof fn lemma_outgoing_history_shape(h: Seq<MessageView>)
    ensures
        outgoing_history(h).len() <= h.len(),
        forall|k: int|
            0 <= k < outgoing_history(h).len() ==> (#[trigger] outgoing_history(h)[k]).thinking.is_none()
                && exists|j: int| 0 <= j < h.len() && h[j].role == outgoing_history(h)[k].role,
    decreases h.len(),
{
    if h.len() > 0 {
        lemma_outgoing_history_shape(h.drop_last());
        let o = outgoing_history(h);
        let p = outgoing_history(h.drop_last());
        assert forall|k: int| 0 <= k < o.len() implies (#[trigger] o[k]).thinking.is_none() && exists|j: int|
            0 <= j < h.len() && h[j].role == o[k].role by {
            if k < p.len() {
                assert(o[k] == p[k]);
                let j = choose|j: int| 0 <= j < h.drop_last().len() && h.drop_last()[j].role == p[k].role;
                assert(h[j] == h.drop_last()[j]);
            } else {
                assert(h[h.len() - 1].role == o[k].role);
            }
        }
    }
}

/// Law: the last message of a request is exactly the new user turn: role `user`, the
/// user's message as its content, no reasoning; and the system message comes before it.
pub proof fn law_last_message_is_user_turn(settings: SessionSettings, h: Seq<MessageView>, user: Seq<char>)
    ensures
        assembled(settings, h, user).len() >= 2,
        assembled(settings, h, user).last() == (MessageView { role: "user"@, content: user, thinking: None }),
{
    let c = conversation(h, user);
    let b = conversation_budget(settings);
    crate::budget::law_trim_keeps_newest(c, b);
    let t = trimmed(c, b);
    let a = assembled(settings, h, user);
    assert(a.last() == t.last());
}

/// Law: the system prompt always starts with the base prompt; in agent mode the agent
/// overlay follows it, whatever the coding toggle; with coding on it ends with the
/// coding overlay, whatever the mode; plain chat without coding adds nothing.
pub proof fn law_prompt_overlays_follow_settings(settings: SessionSettings)
    ensures
        has_prefix(system_prompt(settings), BASE_PROMPT@),
        settings.mode == Mode::Agent ==> has_prefix(
            system_prompt(settings),
            BASE_PROMPT@ + PROMPT_SEPARATOR@ + AGENT_OVERLAY@,
        ),
        settings.code ==> has_suffix(system_prompt(settings), PROMPT_SEPARATOR@ + CODE_OVERLAY@),
        settings.mode == Mode::Chat && !settings.code ==> system_prompt(settings) == BASE_PROMPT@,
{
    let p = system_prompt(settings);
    let ba = BASE_PROMPT@ + PROMPT_SEPARATOR@ + AGENT_OVERLAY@;
    let sc = PROMPT_SEPARATOR@ + CODE_OVERLAY@;
    if settings.mode == Mode::Agent {
        if settings.code {
            assert(p =~= ba + sc);
        }
        assert(p.subrange(0, ba.len() as int) =~= ba);
        assert(p.subrange(0, BASE_PROMPT@.len() as int) =~= BASE_PROMPT@);
    } else {
        if settings.code {
            assert(p =~= BASE_PROMPT@ + sc);
        }
        assert(p.subrange(0, BASE_PROMPT@.len() as int) =~= BASE_PROMPT@);
    }
    if settings.code {
        assert(p.subrange(p.len() - sc.len(), p.len() as int) =~= sc);
    }
}

/// Law: turning coding on appends exactly the coding overlay to the prompt the mode
/// gives, and agent mode inserts exactly the agent overlay after the base prompt of
/// the chat-mode prompt, whatever the coding toggle: each overlay depends on its own
/// setting alone.
pub proof fn law_overlays_are_independent(settings: SessionSettings)
    ensures
        system_prompt(SessionSettings { code: true, ..settings }) == system_prompt(
            SessionSettings { code: false, ..settings },
        ) + PROMPT_SEPARATOR@ + CODE_OVERLAY@,
        system_prompt(SessionSettings { mode: Mode::Agent, ..settings }) == BASE_PROMPT@ + PROMPT_SEPARATOR@
            + AGENT_OVERLAY@ + system_prompt(SessionSettings { mode: Mode::Chat, ..settings }).subrange(
            BASE_PROMPT@.len() as int,
            system_prompt(SessionSettings { mode: Mode::Chat, ..settings }).len() as int,
        ),
{
    let chat = system_prompt(SessionSettings { mode: Mode::Chat, ..settings });
    let rest = chat.subrange(BASE_PROMPT@.len() as int, chat.len() as int);
    if settings.code {
        assert(chat =~= BASE_PROMPT@ + (PROMPT_SEPARATOR@ + CODE_OVERLAY@));
        assert(rest =~= PROMPT_SEPARATOR@ + CODE_OVERLAY@);
    } else {
        assert(rest =~= Seq::<char>::empty());
    }
    assert(system_prompt(SessionSettings { mode: Mode::Agent, ..settings }) =~= BASE_PROMPT@ + PROMPT_SEPARATOR@
        + AGENT_OVERLAY@ + rest);
}

/// `idx` lists, in increasing order, the positions of the non-blank messages of `h`,
/// every such position once, and `out` holds those messages in that order with their
/// reasoning removed.
pub open spec fn keeps_nonblank_in_order(idx: Seq<int>, h: Seq<MessageView>, out: Seq<MessageView>) -> bool {
    &&& idx.len() == out.len()
    &&& forall|k: int|
        0 <= k < idx.len() ==> 0 <= #[trigger] idx[k] < h.len() && !is_blank(h[idx[k]].content) && out[k] == (
        MessageView { role: h[idx[k]].role, content: h[idx[k]].content, thinking: None })
    &&& forall|k1: int, k2: int| 0 <= k1 < k2 < idx.len() ==> #[trigger] idx[k1] < #[trigger] idx[k2]
    &&& forall|i: int| 0 <= i < h.len() && !is_blank(#[trigger] h[i].content) ==> exists|k: int|
        0 <= k < idx.len() && idx[k] == i
}

proof fn outgoing_positions(h: Seq<MessageView>) -> (idx: Seq<int>)
    ensures
        keeps_nonblank_in_order(idx, h, outgoing_history(h)),
    decreases h.len(),
{
    if h.len() == 0 {
        Seq::empty()
    } else {
        let d = h.drop_last();
        let p = outgoing_positions(d);
        let last = h.len() - 1;
        let o = outgoing_history(h);
        let idx = if is_blank(h.last().content) { p } else { p.push(last) };
        assert forall|k: int| 0 <= k < idx.len() implies 0 <= #[trigger] idx[k] < h.len() && !is_blank(
            h[idx[k]].content,
        ) && o[k] == (MessageView { role: h[idx[k]].role, content: h[idx[k]].content, thinking: None }) by {
            if k < p.len() {
                assert(idx[k] == p[k]);
                assert(d[p[k]] == h[p[k]]);
            }
        }
        assert forall|i: int| 0 <= i < h.len() && !is_blank(#[trigger] h[i].content) implies exists|k: int|
            0 <= k < idx.len() && idx[k] == i by {
            if i < last {
                assert(d[i] == h[i]);
                assert(!is_blank(d[i].content));
                let k = choose|k: int| 0 <= k < p.len() && p[k] == i;
                assert(idx[k] == p[k]);
            } else {
                assert(idx[p.len() as int] == last);
            }
        }
        idx
    }
}

/// Law: the conversation sent is the history's non-blank messages, all of them and in
/// their order, each with its role and content and without reasoning, followed by the
/// new user turn.
pub proof fn law_conversation_keeps_history_in_order(h: Seq<MessageView>, user: Seq<char>)
    ensures
        conversation(h, user).len() >= 1,
        conversation(h, user).last() == (MessageView { role: "user"@, content: user, thinking: None }),
        exists|idx: Seq<int>| #[trigger] keeps_nonblank_in_order(idx, h, conversation(h, user).drop_last()),
{
    let idx = outgoing_positions(h);
    assert(conversation(h, user).drop_last() =~= outgoing_history(h));
    assert(keeps_nonblank_in_order(idx, h, conversation(h, user).drop_last()));
}

} // verus!
