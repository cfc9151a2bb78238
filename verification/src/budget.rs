//! Token estimation and context-window trimming.
//!
//! Token counting uses a character heuristic rather than a tokenizer: one
//! token per started group of four characters, plus a fixed overhead per
//! message for the chat template.

use vstd::prelude::*;
use crate::chat::{ChatMessage, MessageView, message_views};

verus! {

/// Characters counted as one token.
pub const CHARS_PER_TOKEN: usize = 4;

/// Fallback context window when neither the session nor the model provides one.
pub const DEFAULT_NUM_CTX: i32 = 8192;

/// Approximate per-message chat-template overhead, in tokens.
pub const MESSAGE_OVERHEAD_TOKENS: usize = 4;

/// Estimated tokens of a text: its character count divided by four, rounded up.
pub open spec fn text_tokens(text: Seq<char>) -> nat {
    ((text.len() + 3) / 4) as nat
}

/// Estimated tokens of one message: its content plus the template overhead.
pub open spec fn message_cost(m: MessageView) -> nat {
    text_tokens(m.content) + 4
}

/// Estimated tokens of a conversation.
pub open spec fn conversation_tokens(s: Seq<MessageView>) -> nat
    decreases s.len(),
{
    if s.len() == 0 {
        0
    } else {
        message_cost(s[0]) + conversation_tokens(s.drop_first())
    }
}

/// The conversation left after dropping the oldest whole turns until it fits the budget.
///
/// While more than one message remains and the estimate exceeds the budget, two
/// messages (a user/assistant exchange) are dropped from the front, or one when
/// only two remain.
pub open spec fn trimmed(s: Seq<MessageView>, budget: nat) -> Seq<MessageView>
    decreases s.len(),
{
    if s.len() > 1 && conversation_tokens(s) > budget {
        let drop: int = if s.len() >= 3 { 2 } else { 1 };
        trimmed(s.subrange(drop, s.len() as int), budget)
    } else {
        s
    }
}

/// The estimate of a concatenation is the sum of the estimates.
pub proof fn lemma_tokens_concat(a: Seq<MessageView>, b: Seq<MessageView>)
    ensures
        conversation_tokens(a + b) == conversation_tokens(a) + conversation_tokens(b),
    decreases a.len(),
{
    if a.len() > 0 {
        assert((a + b).drop_first() =~= a.drop_first() + b);
        lemma_tokens_concat(a.drop_first(), b);
    } else {
        assert(a + b =~= b);
    }
}

/// The estimate of a list of messages adds up over its parts: the empty list costs
/// nothing, and two lists sent one after the other cost what each costs alone.
pub proof fn law_message_estimate_additive(a: Seq<ChatMessage>, b: Seq<ChatMessage>)
    ensures
        conversation_tokens(message_views(Seq::<ChatMessage>::empty())) == 0,
        conversation_tokens(message_views(a + b)) == conversation_tokens(message_views(a))
            + conversation_tokens(message_views(b)),
{
    assert(message_views(Seq::<ChatMessage>::empty()) =~= Seq::<MessageView>::empty());
    assert(message_views(a + b) =~= message_views(a) + message_views(b));
    lemma_tokens_concat(message_views(a), message_views(b));
}

/// The estimate reads only the messages' contents: two conversations whose messages
/// have the same contents, in order, cost the same whatever their roles and reasoning.
pub proof fn law_message_estimate_reads_only_content(a: Seq<MessageView>, b: Seq<MessageView>)
    requires
        a.len() == b.len(),
        forall|i: int| 0 <= i < a.len() ==> #[trigger] a[i].content == b[i].content,
    ensures
        conversation_tokens(a) == conversation_tokens(b),
    decreases a.len(),
{
    if a.len() > 0 {
        assert(a[0].content == b[0].content);
        law_message_estimate_reads_only_content(a.drop_first(), b.drop_first());
    }
}

/// Splitting a conversation at `i`: the estimate is that of the prefix plus that of the rest.
pub proof fn lemma_tokens_split(s: Seq<MessageView>, i: int)
    requires
        0 <= i <= s.len(),
    ensures
        conversation_tokens(s) == conversation_tokens(s.take(i)) + conversation_tokens(s.subrange(i, s.len() as int)),
{
    assert(s =~= s.take(i) + s.subrange(i, s.len() as int));
    lemma_tokens_concat(s.take(i), s.subrange(i, s.len() as int));
}

/// The estimate of a prefix one message longer adds that message's cost.
pub proof fn lemma_tokens_take_step(s: Seq<MessageView>, i: int)
    requires
        0 <= i < s.len(),
    ensures
        conversation_tokens(s.take(i + 1)) == conversation_tokens(s.take(i)) + message_cost(s[i]),
{
    assert(s.take(i + 1) =~= s.take(i) + seq![s[i]]);
    lemma_tokens_concat(s.take(i), seq![s[i]]);
    let one = seq![s[i]];
    assert(one.drop_first() =~= Seq::<MessageView>::empty());
    assert(conversation_tokens(Seq::<MessageView>::empty()) == 0);
    assert(conversation_tokens(one) == message_cost(s[i]) + conversation_tokens(one.drop_first()));
}

/// Estimated tokens of a text (the character count divided by four, rounded up).
pub fn estimate_tokens(text: &str) -> (r: usize)
    ensures
        r == text_tokens(text@),
{
    let n = text.unicode_len();
    let q = n / CHARS_PER_TOKEN;
    if n % CHARS_PER_TOKEN == 0 { q } else { q + 1 }
}

/// Estimated tokens of a conversation, counting the per-message overhead.
pub fn estimate_messages_tokens(messages: &[ChatMessage]) -> (r: usize)
    requires
        conversation_tokens(message_views(messages@)) <= usize::MAX,
    ensures
        r == conversation_tokens(message_views(messages@)),
{
    let ghost s = message_views(messages@);
    let n = messages.len();
    let mut total: usize = 0;
    let mut i: usize = 0;
    while i < n
        invariant
            i <= n,
            n == messages@.len(),
            s == message_views(messages@),
            conversation_tokens(s) <= usize::MAX,
            total == conversation_tokens(s.take(i as int)),
        decreases n - i,
    {
        proof {
            lemma_tokens_take_step(s, i as int);
            lemma_tokens_split(s, i + 1);
        }
        let t = estimate_tokens(messages[i].content.as_str());
        total = total + t + MESSAGE_OVERHEAD_TOKENS;
        i = i + 1;
    }
    assert(s.take(n as int) =~= s);
    total
}

/// Drop the oldest whole turns until the conversation fits the budget.
///
/// The newest message (the current user turn) is never dropped, and turns are
/// removed in pairs so a user/assistant exchange is never split.
pub fn trim_to_budget(messages: Vec<ChatMessage>, budget_tokens: usize) -> (r: Vec<ChatMessage>)
    requires
        conversation_tokens(message_views(messages@)) <= usize::MAX,
    ensures
        message_views(r@) == trimmed(message_views(messages@), budget_tokens as nat),
{
    let ghost s = message_views(messages@);
    let mut messages = messages;
    let mut total = estimate_messages_tokens(messages.as_slice());
    let n = messages.len();
    let mut start: usize = 0;
    assert(s.subrange(0, n as int) =~= s);
    while n - start > 1 && total > budget_tokens
        invariant
            start <= n,
            n == messages@.len(),
            s == message_views(messages@),
            total == conversation_tokens(s.subrange(start as int, n as int)),
            trimmed(s.subrange(start as int, n as int), budget_tokens as nat)
                == trimmed(s, budget_tokens as nat),
        decreases n - start,
    {
        let drop: usize = if n - start >= 3 { 2 } else { 1 };
        let ghost cur = s.subrange(start as int, n as int);
        let mut k: usize = 0;
        while k < drop
            invariant
                k <= drop,
                drop <= n - start,
                n == messages@.len(),
                s == message_views(messages@),
                total == conversation_tokens(s.subrange(start + k, n as int)),
            decreases drop - k,
        {
            proof {
                let rest = s.subrange(start + k, n as int);
                assert(rest.drop_first() =~= s.subrange(start + k + 1, n as int));
            }
            let cost = estimate_tokens(messages[start + k].content.as_str()) + MESSAGE_OVERHEAD_TOKENS;
            total = total - cost;
            k = k + 1;
        }
        assert(cur.subrange(drop as int, cur.len() as int) =~= s.subrange(start + drop, n as int));
        start = start + drop;
    }
    let r = messages.split_off(start);
    assert(message_views(r@) =~= s.subrange(start as int, n as int));
    r
}

/// Trimming returns a suffix of the conversation.
pub proof fn lemma_trim_is_suffix(s: Seq<MessageView>, budget: nat)
    ensures
        trimmed(s, budget).len() <= s.len(),
        trimmed(s, budget) == s.subrange(s.len() - trimmed(s, budget).len(), s.len() as int),
    decreases s.len(),
{
    if s.len() > 1 && conversation_tokens(s) > budget {
        let drop: int = if s.len() >= 3 { 2 } else { 1 };
        let t = s.subrange(drop, s.len() as int);
        lemma_trim_is_suffix(t, budget);
        let r = trimmed(t, budget);
        assert(t.subrange(t.len() - r.len(), t.len() as int) =~= s.subrange(s.len() - r.len(), s.len() as int));
    } else {
        assert(s.subrange(0, s.len() as int) =~= s);
    }
}

/// Law: trimming a non-empty conversation keeps its newest message.
pub proof fn law_trim_keeps_newest(s: Seq<MessageView>, budget: nat)
    requires
        s.len() > 0,
    ensures
        trimmed(s, budget).len() >= 1,
        trimmed(s, budget).last() == s.last(),
    decreases s.len(),
{
    if s.len() > 1 && conversation_tokens(s) > budget {
        let drop: int = if s.len() >= 3 { 2 } else { 1 };
        let t = s.subrange(drop, s.len() as int);
        law_trim_keeps_newest(t, budget);
    }
}

/// Law: after trimming, the conversation fits the budget unless only one message is left.
pub proof fn law_trim_fits(s: Seq<MessageView>, budget: nat)
    ensures
        conversation_tokens(trimmed(s, budget)) <= budget || trimmed(s, budget).len() <= 1,
    decreases s.len(),
{
    if s.len() > 1 && conversation_tokens(s) > budget {
        let drop: int = if s.len() >= 3 { 2 } else { 1 };
        law_trim_fits(s.subrange(drop, s.len() as int), budget);
    }
}

/// Law: a conversation that already fits the budget is left unchanged.
pub proof fn law_trim_keeps_fitting(s: Seq<MessageView>, budget: nat)
    requires
        conversation_tokens(s) <= budget,
    ensures
        trimmed(s, budget) == s,
{
}

/// Law: whole exchanges are dropped, so the number of dropped messages is even unless
/// only the newest message remains.
pub proof fn law_trim_drops_pairs(s: Seq<MessageView>, budget: nat)
    ensures
        (s.len() - trimmed(s, budget).len()) % 2 == 0 || trimmed(s, budget).len() == 1,
    decreases s.len(),
{
    lemma_trim_is_suffix(s, budget);
    if s.len() > 1 && conversation_tokens(s) > budget {
        let drop: int = if s.len() >= 3 { 2 } else { 1 };
        let t = s.subrange(drop, s.len() as int);
        law_trim_drops_pairs(t, budget);
        lemma_trim_is_suffix(t, budget);
        if drop == 1 {
            assert(t.len() == 1);
            assert(trimmed(t, budget) == t);
        }
    }
}

/// Law: trimming twice is the same as trimming once.
pub proof fn law_trim_idempotent(s: Seq<MessageView>, budget: nat)
    ensures
        trimmed(trimmed(s, budget), budget) == trimmed(s, budget),
    decreases s.len(),
{
    if s.len() > 1 && conversation_tokens(s) > budget {
        let drop: int = if s.len() >= 3 { 2 } else { 1 };
        law_trim_idempotent(s.subrange(drop, s.len() as int), budget);
    } else {
    }
}

/// A longer suffix of a conversation is estimated at no fewer tokens than a shorter one.
proof fn lemma_suffix_tokens_grow(s: Seq<MessageView>, a: int, b: int)
    requires
        0 <= a <= b <= s.len(),
    ensures
        conversation_tokens(s.subrange(s.len() - a, s.len() as int)) <= conversation_tokens(
            s.subrange(s.len() - b, s.len() as int),
        ),
{
    let long = s.subrange(s.len() - b, s.len() as int);
    lemma_tokens_split(long, b - a);
    assert(long.subrange(b - a, long.len() as int) =~= s.subrange(s.len() - a, s.len() as int));
}

/// Law: trimming drops no more than it must. When messages were dropped, keeping one
/// more exchange than was kept (the two messages before the kept ones, or the one
/// before them when fewer remain) would not have fitted the budget.
pub proof fn law_trim_drops_no_more_than_needed(s: Seq<MessageView>, budget: nat)
    ensures
        trimmed(s, budget).len() < s.len() ==> {
            let kept: int = trimmed(s, budget).len() as int;
            let one_more: int = if kept + 2 <= s.len() { kept + 2 } else { kept + 1 };
            conversation_tokens(s.subrange(s.len() - one_more, s.len() as int)) > budget
        },
    decreases s.len(),
{
    lemma_trim_is_suffix(s, budget);
    if s.len() > 1 && conversation_tokens(s) > budget {
        let drop: int = if s.len() >= 3 { 2 } else { 1 };
        let t = s.subrange(drop, s.len() as int);
        lemma_trim_is_suffix(t, budget);
        law_trim_drops_no_more_than_needed(t, budget);
        let kept: int = trimmed(s, budget).len() as int;
        assert(trimmed(s, budget) == trimmed(t, budget));
        let one_more: int = if kept + 2 <= s.len() { kept + 2 } else { kept + 1 };
        assert(s.subrange(0, s.len() as int) =~= s);
        if kept < t.len() {
            let m_t: int = if kept + 2 <= t.len() { kept + 2 } else { kept + 1 };
            assert(t.subrange(t.len() - m_t, t.len() as int) =~= s.subrange(s.len() - m_t, s.len() as int));
            lemma_suffix_tokens_grow(s, m_t, one_more);
        } else {
            assert(one_more == s.len());
        }
    }
}

} // verus!
