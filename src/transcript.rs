//! The chat transcript: lines tagged with who wrote them, a placeholder line
//! for each reply still on its way, and the rules that put a finished reply
//! in place of its placeholder.

use vstd::prelude::*;
use crate::text::{
    Edge, decimal, decimal_text, ends_with, ends_with_spec, find_char, first_index_of,
    last_index_of, rfind_char, trim, trim_end, trim_end_spec, trim_spec, trim_start,
    trim_start_spec, views,
};

verus! {

/// How many debug events are kept before the oldest one is dropped.
pub const EVENT_LIMIT: usize = 20;

/// The line shown for text the user sent.
pub open spec fn user_line(text: Seq<char>) -> Seq<char> {
    "You: "@ + text
}

/// The correlation token of a request sent at `millis` milliseconds.
pub open spec fn token_text(millis: nat) -> Seq<char> {
    "typing_"@ + decimal(millis)
}

/// The typing-indicator line that holds the place of a reply.
pub open spec fn placeholder_line(token: Seq<char>) -> Seq<char> {
    "Assistant: \u{2588} ("@ + token + ")"@
}

/// The tagged string a request task queues for a reply.
pub open spec fn reply_entry(response: Seq<char>, token: Seq<char>) -> Seq<char> {
    "Assistant: "@ + response + " ("@ + token + ")"@
}

/// The tagged string a request task queues for a failure.
pub open spec fn error_entry(message: Seq<char>, token: Seq<char>) -> Seq<char> {
    "Error: "@ + message + " ("@ + token + ")"@
}

/// The line that replaces a placeholder.
pub open spec fn answer_line(content: Seq<char>) -> Seq<char> {
    "Assistant: "@ + content
}

/// The text a placeholder for token `id` ends with.
pub open spec fn reply_key(id: Seq<char>) -> Seq<char> {
    "("@ + id + ")"@
}

/// Whether `line`, without trailing white space, ends with `key`.
pub open spec fn carries(line: Seq<char>, key: Seq<char>) -> bool {
    ends_with_spec(trim_end_spec(line, Edge::Whitespace), key)
}

/// Whether a line is shown as the user's, and the text shown in its bubble:
/// the part before the first `:` names the sender; the rest, without leading
/// white space, is shown.
pub open spec fn bubble_spec(line: Seq<char>) -> (bool, Seq<char>) {
    match first_index_of(line, ':') {
        Some(k) => (
            trim_spec(line.subrange(0, k), Edge::Whitespace) == "You"@,
            trim_start_spec(line.subrange(k + 1, line.len() as int), Edge::Whitespace),
        ),
        None => (false, trim_start_spec(line, Edge::Whitespace)),
    }
}

/// The debug events after one input event: the oldest is dropped once
/// there are more than `EVENT_LIMIT`.
pub open spec fn capped(events: Seq<Seq<char>>) -> Seq<Seq<char>> {
    if events.len() > EVENT_LIMIT {
        events.drop_first()
    } else {
        events
    }
}

/// What became of a queued reply.
pub enum ApplyOutcome {
    /// It replaced the placeholder at `position` by a line that shows `content`.
    Replaced { position: usize, content: String },
    /// No line carries its token `token`; it was appended.
    NoMatch { token: String },
    /// It holds no `(` and so no token; it was appended.
    NoToken,
}

/// The conversation shown in the window, oldest line first.
pub struct Transcript {
    lines: Vec<String>,
}

impl View for Transcript {
    type V = Seq<Seq<char>>;

    closed spec fn view(&self) -> Seq<Seq<char>> {
        views(self.lines@)
    }
}

/// The tagged string to queue for a reply `response` to the request `token`.
pub fn reply_entry_text(response: &str, token: &str) -> (r: String)
    ensures
        r@ == reply_entry(response@, token@),
{
    let mut s = String::from_str("Assistant: ");
    s.append(response);
    s.append(" (");
    s.append(token);
    s.append(")");
    s
}

/// The tagged string to queue for a failure `message` of the request `token`.
pub fn error_entry_text(message: &str, token: &str) -> (r: String)
    ensures
        r@ == error_entry(message@, token@),
{
    let mut s = String::from_str("Error: ");
    s.append(message);
    s.append(" (");
    s.append(token);
    s.append(")");
    s
}

/// Whether a queued entry reports a failure.
pub fn is_error_entry(entry: &str) -> (r: bool)
    ensures
        r == (entry@.len() >= 6 && entry@.subrange(0, 6) == "Error:"@),
{
    proof {
        reveal_strlit("Error:");
    }
    let n = entry.unicode_len();
    if n < 6 {
        return false;
    }
    let head = entry.substring_char(0, 6);
    let tag = String::from_str("Error:");
    let same = String::from_str(head) == tag;
    same
}

/// How a line is shown: whether it is the user's, and the bubble's text.
pub fn bubble(line: &str) -> (r: (bool, String))
    ensures
        r.0 == bubble_spec(line@).0,
        r.1@ == bubble_spec(line@).1,
{
    match find_char(line, ':') {
        Some(k) => {
            let n = line.unicode_len();
            let sender = trim(line.substring_char(0, k), Edge::Whitespace);
            let you = String::from_str("You");
            let text = trim_start(line.substring_char(k + 1, n), Edge::Whitespace);
            (sender == you, text)
        },
        None => (false, trim_start(line, Edge::Whitespace)),
    }
}

/// Drops the oldest debug event once there are more than `EVENT_LIMIT`;
/// done once per input event, whether or not it was recorded.
pub fn cap_events(events: &mut Vec<String>)
    ensures
        views(final(events)@) == capped(views(old(events)@)),
{
    if events.len() > EVENT_LIMIT {
        let _ = events.remove(0);
        assert(views(events@) =~= views(old(events)@).drop_first());
    }
}

impl Transcript {
    pub fn new() -> (r: Transcript)
        ensures
            r@ == Seq::<Seq<char>>::empty(),
    {
        let r = Transcript { lines: Vec::new() };
        assert(r@ =~= Seq::<Seq<char>>::empty());
        r
    }

    pub fn len(&self) -> (r: usize)
        ensures
            r == self@.len(),
    {
        self.lines.len()
    }

    /// The line at `i`.
    pub fn line(&self, i: usize) -> (r: &String)
        requires
            i < self@.len(),
        ensures
            r@ == self@[i as int],
    {
        &self.lines[i]
    }

    /// Appends `line` as it is.
    pub fn push_line(&mut self, line: String)
        ensures
            final(self)@ == old(self)@.push(line@),
    {
        let ghost l = line@;
        self.lines.push(line);
        assert(self@ =~= old(self)@.push(l));
    }

    /// Sends the input `input` at `millis` ms: nothing happens to input that
    /// is only white space; else the trimmed text is added as the user's line,
    /// followed by a placeholder, and the placeholder's token is returned.
    pub fn submit(&mut self, input: &str, millis: u64) -> (r: Option<String>)
        ensures
            trim_spec(input@, Edge::Whitespace).len() == 0 ==> r is None && final(self)@ == old(
                self,
            )@,
            trim_spec(input@, Edge::Whitespace).len() > 0 ==> (r matches Some(token) && token@
                == token_text(millis as nat) && final(self)@ == old(self)@.push(
                user_line(trim_spec(input@, Edge::Whitespace)),
            ).push(placeholder_line(token@))),
    {
        let text = trim(input, Edge::Whitespace);
        if text.unicode_len() == 0 {
            return None;
        }
        let mut user = String::from_str("You: ");
        user.append(text.as_str());
        self.push_line(user);
        let mut token = String::from_str("typing_");
        let digits = decimal_text(millis);
        token.append(digits.as_str());
        let mut holder = String::from_str("Assistant: \u{2588} (");
        holder.append(token.as_str());
        holder.append(")");
        self.push_line(holder);
        Some(token)
    }

    /// The first line that carries `key`.
    fn find_carrier(&self, key: &str) -> (r: Option<usize>)
        ensures
            match r {
                Some(p) => p < self@.len() && carries(self@[p as int], key@) && forall|i: int|
                    0 <= i < p ==> !carries(#[trigger] self@[i], key@),
                None => forall|i: int| 0 <= i < self@.len() ==> !carries(#[trigger] self@[i], key@),
            },
    {
        let mut i: usize = 0;
        while i < self.lines.len()
            invariant
                i <= self@.len(),
                self@.len() == self.lines@.len(),
                forall|t: int| 0 <= t < i ==> !carries(#[trigger] self@[t], key@),
            decreases self@.len() - i,
        {
            let line = trim_end(self.lines[i].as_str(), Edge::Whitespace);
            if ends_with(line.as_str(), key) {
                return Some(i);
            }
            i = i + 1;
        }
        None
    }

    /// Puts a queued reply in place. Its token is what follows its last `(`,
    /// without `)` and spaces at either end, and its content is what comes
    /// before, without white space at either end. The first line that ends,
    /// trailing white space aside, with `(token)` becomes `Assistant: content`.
    /// A reply without a token, or whose token no line carries, is appended
    /// to the transcript as it is.
    pub fn apply_reply(&mut self, reply: &str) -> (r: ApplyOutcome)
        ensures
            match last_index_of(reply@, '(') {
                None => r is NoToken && final(self)@ == old(self)@.push(reply@),
                Some(k) => {
                    let content = trim_spec(reply@.subrange(0, k), Edge::Whitespace);
                    let id = trim_spec(
                        reply@.subrange(k + 1, reply@.len() as int),
                        Edge::CloseParenOrSpace,
                    );
                    let key = reply_key(id);
                    match r {
                        ApplyOutcome::Replaced { position, content: shown } => {
                            &&& position < old(self)@.len()
                            &&& carries(old(self)@[position as int], key)
                            &&& forall|i: int|
                                0 <= i < position ==> !carries(#[trigger] old(self)@[i], key)
                            &&& shown@ == content
                            &&& final(self)@ == old(self)@.update(
                                position as int,
                                answer_line(content),
                            )
                        },
                        ApplyOutcome::NoMatch { token } => {
                            &&& token@ == id
                            &&& forall|i: int|
                                0 <= i < old(self)@.len() ==> !carries(#[trigger] old(self)@[i], key)
                            &&& final(self)@ == old(self)@.push(reply@)
                        },
                        ApplyOutcome::NoToken => false,
                    }
                },
            },
    {
        match rfind_char(reply, '(') {
            None => {
                self.push_line(String::from_str(reply));
                ApplyOutcome::NoToken
            },
            Some(k) => {
                let n = reply.unicode_len();
                let content = trim(reply.substring_char(0, k), Edge::Whitespace);
                let id = trim(reply.substring_char(k + 1, n), Edge::CloseParenOrSpace);
                let mut key = String::from_str("(");
                key.append(id.as_str());
                key.append(")");
                match self.find_carrier(key.as_str()) {
                    Some(p) => {
                        let mut line = String::from_str("Assistant: ");
                        line.append(content.as_str());
                        let ghost l = line@;
                        self.lines.set(p, line);
                        assert(self@ =~= old(self)@.update(p as int, l));
                        ApplyOutcome::Replaced { position: p, content }
                    },
                    None => {
                        self.push_line(String::from_str(reply));
                        ApplyOutcome::NoMatch { token: id }
                    },
                }
            },
        }
    }
}

} // verus!
