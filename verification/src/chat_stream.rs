//! Decoding of a streaming chat reply.
//!
//! The server sends one JSON object per line, in network chunks that may split
//! a line. The decoder carries the unfinished tail between chunks, accumulates
//! the reply's content, and decides which event to report for each line. The
//! caller reads the network, parses each line's JSON and hands the outcome back.

use vstd::prelude::*;
use vstd::utf8::{valid_utf8, decode_utf8};
use crate::chat::{ChatEvent, ChatMessage, ChatResponse, opt_view};
use crate::text::{
    chars_of, first_index_of, lemma_first_index_of, lemma_first_index_of_bounds, push_str, split_lines, string_from_range,
    strip_cr, text_lines,
};

verus! {

/// The text of a network chunk when it is valid UTF-8 (`String::from_utf8`).
#[verifier::external_body]
fn utf8_text(bytes: &[u8]) -> (r: Option<String>)
    ensures
        r.is_some() == valid_utf8(bytes@),
        r matches Some(s) ==> s@ == decode_utf8(bytes@),
{
    String::from_utf8(bytes.to_vec()).ok()
}

/// What parsing one line of the stream produced.
pub enum LineOutcome {
    /// The line is a reply object.
    Response(ChatResponse),
    /// The line is an object carrying the server's `error` message.
    ServerError(String),
    /// The line is neither.
    Unrecognized,
}

/// The non-empty lines of a sequence of lines, in order.
pub open spec fn nonempty_lines(ls: Seq<Seq<char>>) -> Seq<Seq<char>>
    decreases ls.len(),
{
    if ls.len() == 0 {
        Seq::empty()
    } else if ls.last().len() == 0 {
        nonempty_lines(ls.drop_last())
    } else {
        nonempty_lines(ls.drop_last()).push(ls.last())
    }
}

/// How much of `s` is made of complete lines: everything up to and including its last
/// line feed (nothing when it has none).
pub open spec fn complete_len(s: Seq<char>) -> nat
    decreases s.len(),
{
    if s.len() == 0 {
        0
    } else if s.last() == '\n' {
        s.len()
    } else {
        complete_len(s.drop_last())
    }
}

/// The complete lines of `s`, as text.
pub open spec fn complete_part(s: Seq<char>) -> Seq<char> {
    s.take(complete_len(s) as int)
}

/// The unfinished line at the end of `s`, which waits for its line feed.
pub open spec fn unfinished_part(s: Seq<char>) -> Seq<char> {
    s.subrange(complete_len(s) as int, s.len() as int)
}

proof fn lemma_complete_len(s: Seq<char>, j: nat)
    requires
        j <= s.len(),
        forall|m: int| j <= m < s.len() ==> s[m] != '\n',
        j == 0 || s[j - 1] == '\n',
    ensures
        complete_len(s) == j,
    decreases s.len(),
{
    if s.len() > 0 && j < s.len() {
        lemma_complete_len(s.drop_last(), j);
    }
}

proof fn lemma_complete_len_props(s: Seq<char>)
    ensures
        complete_len(s) <= s.len(),
        complete_len(s) > 0 ==> s[complete_len(s) - 1] == '\n',
        forall|m: int| complete_len(s) <= m < s.len() ==> s[m] != '\n',
    decreases s.len(),
{
    if s.len() > 0 && s.last() != '\n' {
        lemma_complete_len_props(s.drop_last());
        assert forall|m: int| complete_len(s) <= m < s.len() implies s[m] != '\n' by {
            if m < s.len() - 1 {
                assert(s[m] == s.drop_last()[m]);
            }
        }
    }
}

proof fn lemma_complete_len_concat(x: Seq<char>, w: Seq<char>)
    ensures
        complete_len(x + w) == if complete_len(w) > 0 {
            x.len() + complete_len(w)
        } else {
            complete_len(x)
        },
    decreases w.len(),
{
    if w.len() == 0 {
        assert(x + w =~= x);
    } else {
        assert((x + w).drop_last() =~= x + w.drop_last());
        assert((x + w).last() == w.last());
        if w.last() != '\n' {
            lemma_complete_len_concat(x, w.drop_last());
        }
    }
}

proof fn lemma_nonempty_concat(x: Seq<Seq<char>>, y: Seq<Seq<char>>)
    ensures
        nonempty_lines(x + y) == nonempty_lines(x) + nonempty_lines(y),
    decreases y.len(),
{
    if y.len() == 0 {
        assert(x + y =~= x);
        assert(nonempty_lines(x) + nonempty_lines(y) =~= nonempty_lines(x));
    } else {
        assert((x + y).drop_last() =~= x + y.drop_last());
        lemma_nonempty_concat(x, y.drop_last());
        if y.last().len() != 0 {
            assert(nonempty_lines(x) + nonempty_lines(y.drop_last()).push(y.last()) =~= (nonempty_lines(x)
                + nonempty_lines(y.drop_last())).push(y.last()));
        }
    }
}

proof fn lemma_lines_concat(c: Seq<char>, d: Seq<char>)
    requires
        c.len() == 0 || c.last() == '\n',
    ensures
        text_lines(c + d) == text_lines(c) + text_lines(d),
    decreases c.len(),
{
    if c.len() == 0 {
        assert(c + d =~= d);
        assert(text_lines(c) + text_lines(d) =~= text_lines(d));
    } else {
        let i = first_index_of(c, '\n');
        lemma_first_index_of_bounds(c, '\n');
        assert(i < c.len()) by {
            if i >= c.len() {
                assert(c[c.len() - 1] != '\n');
            }
        }
        let cd = c + d;
        assert forall|j: int| 0 <= j < i implies cd[j] != '\n' by {
            assert(cd[j] == c[j]);
        }
        assert(cd[i as int] == c[i as int]);
        lemma_first_index_of(cd, '\n', i);
        let rest = c.subrange(i as int + 1, c.len() as int);
        assert(rest.len() == 0 || rest.last() == c.last());
        lemma_lines_concat(rest, d);
        assert(cd.take(i as int) =~= c.take(i as int));
        assert(cd.subrange(i as int + 1, cd.len() as int) =~= rest + d);
        assert(text_lines(cd) == seq![strip_cr(c.take(i as int))] + text_lines(rest + d));
        assert(text_lines(c) == seq![strip_cr(c.take(i as int))] + text_lines(rest));
        assert(seq![strip_cr(c.take(i as int))] + (text_lines(rest) + text_lines(d)) =~= (seq![
            strip_cr(c.take(i as int)),
        ] + text_lines(rest)) + text_lines(d));
    }
}

/// Law: receiving text in two pieces hands out exactly the lines that receiving it in
/// one piece would, each line once and in order, and leaves the same unfinished line
/// pending; so a line split across chunks is processed once, when its line feed
/// arrives.
pub proof fn law_lines_handled_once(pending: Seq<char>, a: Seq<char>, b: Seq<char>)
    ensures
        nonempty_lines(text_lines(complete_part(pending + a))) + nonempty_lines(
            text_lines(complete_part(unfinished_part(pending + a) + b)),
        ) == nonempty_lines(text_lines(complete_part(pending + a + b))),
        unfinished_part(unfinished_part(pending + a) + b) == unfinished_part(pending + a + b),
{
    let s = pending + a;
    let k = complete_len(s);
    lemma_complete_len_props(s);
    let c = complete_part(s);
    let u = unfinished_part(s);
    assert(s =~= c + u);
    let w = u + b;
    lemma_complete_len(u, 0);
    assert(complete_len(c) == c.len()) by {
        if c.len() > 0 {
            assert(c.last() == s[k - 1]);
        }
    }
    lemma_complete_len_concat(u, b);
    lemma_complete_len_concat(c, w);
    assert(pending + a + b =~= c + w);
    lemma_complete_len_props(w);
    let cw = complete_part(w);
    assert(complete_part(c + w) =~= c + cw);
    assert(unfinished_part(c + w) =~= unfinished_part(w));
    assert(c.len() == 0 || c.last() == '\n') by {
        if c.len() > 0 {
            assert(c.last() == s[k - 1]);
        }
    }
    lemma_lines_concat(c, cw);
    lemma_nonempty_concat(text_lines(c), text_lines(cw));
}

/// The non-empty lines of a text, in order.
fn nonempty_lines_of(text: &str) -> (r: Vec<String>)
    ensures
        r@.map_values(|l: String| l@) == nonempty_lines(text_lines(text@)),
{
    let lines = split_lines(text);
    let ghost ls = text_lines(text@);
    let n = lines.len();
    let mut r: Vec<String> = Vec::new();
    let mut i: usize = 0;
    while i < n
        invariant
            i <= n,
            n == lines@.len(),
            ls == lines@.map_values(|l: String| l@),
            r@.map_values(|l: String| l@) == nonempty_lines(ls.take(i as int)),
        decreases n - i,
    {
        proof {
            assert(ls.take(i + 1).drop_last() =~= ls.take(i as int));
            assert(ls.take(i + 1).last() == lines@[i as int]@);
        }
        if lines[i].as_str().unicode_len() > 0 {
            r.push(lines[i].clone());
        }
        i = i + 1;
        assert(r@.map_values(|l: String| l@) =~= nonempty_lines(ls.take(i as int)));
    }
    assert(ls.take(n as int) =~= ls);
    r
}

/// State of a streaming reply being decoded.
pub struct StreamDecoder {
    buffer: String,
    full_content: String,
    final_response: Option<ChatResponse>,
    stopped: bool,
}

impl StreamDecoder {
    /// The unfinished text carried between chunks.
    pub closed spec fn pending(&self) -> Seq<char> {
        self.buffer@
    }

    /// The reply content received so far.
    pub closed spec fn content(&self) -> Seq<char> {
        self.full_content@
    }

    /// The last reply object that marked the reply as done, if any.
    pub closed spec fn final_response(&self) -> Option<ChatResponse> {
        self.final_response
    }

    /// Whether the server reported an error, after which nothing more is processed.
    pub closed spec fn stopped(&self) -> bool {
        self.stopped
    }

    /// A decoder with nothing received.
    pub fn new() -> (r: StreamDecoder)
        ensures
            r.pending() == Seq::<char>::empty(),
            r.content() == Seq::<char>::empty(),
            r.final_response().is_none(),
            !r.stopped(),
    {
        StreamDecoder { buffer: String::new(), full_content: String::new(), final_response: None, stopped: false }
    }

    /// Whether the stream was stopped by a server error.
    pub fn is_stopped(&self) -> (r: bool)
        ensures
            r == self.stopped(),
    {
        self.stopped
    }

    /// Receives a chunk of text. The pending text and the chunk are joined; the
    /// non-empty lines that are now complete (ended by a line feed) are returned, each
    /// once, and the unfinished last line stays pending until its line feed arrives.
    pub fn take_lines(&mut self, text: &str) -> (r: Vec<String>)
        ensures
            r@.map_values(|l: String| l@) == nonempty_lines(text_lines(complete_part(old(self).pending() + text@))),
            final(self).pending() == unfinished_part(old(self).pending() + text@),
            final(self).content() == old(self).content(),
            final(self).final_response() == old(self).final_response(),
            final(self).stopped() == old(self).stopped(),
    {
        let ghost joined = self.buffer@ + text@;
        push_str(&mut self.buffer, text);
        let v = chars_of(self.buffer.as_str());
        let n = v.len();
        let mut k: usize = n;
        while k > 0 && v[k - 1] != '\n'
            invariant
                k <= n,
                n == v@.len(),
                forall|m: int| k <= m < n ==> v@[m] != '\n',
            decreases k,
        {
            k = k - 1;
        }
        proof {
            lemma_complete_len(v@, k as nat);
        }
        let complete = string_from_range(&v, 0, k);
        self.buffer = string_from_range(&v, k, n);
        assert(complete@ =~= complete_part(joined));
        let r = nonempty_lines_of(complete.as_str());
        r
    }

    /// Ends the stream: the unfinished line left pending, if not empty, is returned as
    /// the last line, and nothing stays pending.
    pub fn take_rest(&mut self) -> (r: Vec<String>)
        ensures
            r@.map_values(|l: String| l@) == nonempty_lines(text_lines(old(self).pending())),
            final(self).pending() == Seq::<char>::empty(),
            final(self).content() == old(self).content(),
            final(self).final_response() == old(self).final_response(),
            final(self).stopped() == old(self).stopped(),
    {
        let r = nonempty_lines_of(self.buffer.as_str());
        self.buffer = String::new();
        r
    }

    /// Receives a network chunk: valid UTF-8 is handled as `take_lines` handles text;
    /// a chunk that is not valid UTF-8 is dropped and nothing changes.
    pub fn take_chunk(&mut self, bytes: &[u8]) -> (r: Vec<String>)
        ensures
            valid_utf8(bytes@) ==> {
                &&& r@.map_values(|l: String| l@) == nonempty_lines(
                    text_lines(complete_part(old(self).pending() + decode_utf8(bytes@))),
                )
                &&& final(self).pending() == unfinished_part(old(self).pending() + decode_utf8(bytes@))
            },
            !valid_utf8(bytes@) ==> r@.len() == 0 && final(self).pending() == old(self).pending(),
            final(self).content() == old(self).content(),
            final(self).final_response() == old(self).final_response(),
            final(self).stopped() == old(self).stopped(),
    {
        match utf8_text(bytes) {
            Some(text) => self.take_lines(text.as_str()),
            None => Vec::new(),
        }
    }

    /// Applies the outcome of one line and returns the event to report, if any.
    ///
    /// A reply with content extends the accumulated content and reports all of it; a
    /// reply marked done is kept for the final event; a server error stops the stream;
    /// anything else is ignored. After a stop nothing changes.
    pub fn on_line(&mut self, outcome: LineOutcome) -> (r: Option<ChatEvent>)
        ensures
            old(self).stopped() ==> r.is_none() && *final(self) == *old(self),
            !old(self).stopped() ==> match outcome {
                LineOutcome::Response(chunk) => {
                    &&& final(self).pending() == old(self).pending()
                    &&& !final(self).stopped()
                    &&& final(self).content() == old(self).content() + chunk.message.content@
                    &&& final(self).final_response() == (if chunk.done {
                        Some(chunk)
                    } else {
                        old(self).final_response()
                    })
                    &&& (chunk.message.content@.len() > 0 ==> (r matches Some(ChatEvent::MessageChunk(c))
                        && c@ == final(self).content()))
                    &&& (chunk.message.content@.len() == 0 ==> r.is_none())
                },
                LineOutcome::ServerError(e) => {
                    &&& r == Some(ChatEvent::Error(e))
                    &&& final(self).stopped()
                    &&& final(self).pending() == old(self).pending()
                    &&& final(self).content() == old(self).content()
                    &&& final(self).final_response() == old(self).final_response()
                },
                LineOutcome::Unrecognized => r.is_none() && *final(self) == *old(self),
            },
    {
        if self.stopped {
            return None;
        }
        match outcome {
            LineOutcome::Response(chunk) => {
                let mut event = None;
                if chunk.message.content.as_str().unicode_len() > 0 {
                    push_str(&mut self.full_content, chunk.message.content.as_str());
                    event = Some(ChatEvent::MessageChunk(self.full_content.clone()));
                } else {
                    assert(self.full_content@ =~= old(self).content() + chunk.message.content@);
                }
                if chunk.done {
                    self.final_response = Some(chunk);
                }
                event
            },
            LineOutcome::ServerError(e) => {
                self.stopped = true;
                Some(ChatEvent::Error(e))
            },
            LineOutcome::Unrecognized => None,
        }
    }

    /// The event reporting the complete reply: the last reply marked done with its
    /// content replaced by everything received, or an assistant reply made of the
    /// received content when none was marked done.
    pub fn finish(self) -> (r: ChatEvent)
        ensures
            r matches ChatEvent::Done(resp) && resp.message.content@ == self.content() && resp.done
                && (match self.final_response() {
                Some(f) => {
                    &&& resp.message.role == f.message.role
                    &&& resp.message.thinking == f.message.thinking
                    &&& resp.total_duration == f.total_duration
                    &&& resp.load_duration == f.load_duration
                    &&& resp.prompt_eval_count == f.prompt_eval_count
                    &&& resp.prompt_eval_duration == f.prompt_eval_duration
                    &&& resp.eval_count == f.eval_count
                    &&& resp.eval_duration == f.eval_duration
                },
                None => {
                    &&& resp.message.role@ == "assistant"@
                    &&& resp.message.thinking.is_none()
                    &&& resp.total_duration.is_none()
                    &&& resp.load_duration.is_none()
                    &&& resp.prompt_eval_count.is_none()
                    &&& resp.prompt_eval_duration.is_none()
                    &&& resp.eval_count.is_none()
                    &&& resp.eval_duration.is_none()
                },
            }),
    {
        match self.final_response {
            Some(f) => {
                let message = ChatMessage { role: f.message.role, content: self.full_content, thinking: f.message.thinking };
                ChatEvent::Done(ChatResponse {
                    message,
                    done: true,
                    total_duration: f.total_duration,
                    load_duration: f.load_duration,
                    prompt_eval_count: f.prompt_eval_count,
                    prompt_eval_duration: f.prompt_eval_duration,
                    eval_count: f.eval_count,
                    eval_duration: f.eval_duration,
                })
            },
            None => {
                let message = ChatMessage {
                    role: String::from_str("assistant"),
                    content: self.full_content,
                    thinking: None,
                };
                ChatEvent::Done(ChatResponse {
                    message,
                    done: true,
                    total_duration: None,
                    load_duration: None,
                    prompt_eval_count: None,
                    prompt_eval_duration: None,
                    eval_count: None,
                    eval_duration: None,
                })
            },
        }
    }
}

} // verus!
