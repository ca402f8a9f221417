//! Chat lines: what is shown of a message that the chat server sends.
//!
//! The server sends lines of the form `:sender!user@host COMMAND target :text`.
//! A line is shown as `sender: text`.

use vstd::prelude::*;
use vstd::string::*;

verus! {

/// The pattern of a chat line. Its first group is the sender, from the first
/// colon to the exclamation mark. Its second group is the rest of the line
/// after the next colon.
pub const CHAT_PATTERN: &'static str = ":([^:]+)![^:]+:(.+)";

/// One chat message: who sent it, and what it says.
#[derive(Debug)]
pub struct ChatMessage {
    pub sender: String,
    pub message: String,
}

/// What `regex::Regex::captures` finds for `pattern` in `text`: `None` when
/// the pattern is no regular expression or matches nowhere in the text, and
/// otherwise the groups of the leftmost match, the whole match first, each
/// group with the text it matched or `None` when it took no part.
pub uninterp spec fn regex_captures(pattern: Seq<char>, text: Seq<char>) -> Option<
    Seq<Option<Seq<char>>>,
>;

/// Compiles `pattern` with `regex::Regex::new` and searches `text` with
/// `regex::Regex::captures`. The groups come back as owned strings, in the
/// order of `regex::Captures::iter`. The contract gives the result its name
/// and claims nothing else of it.
#[verifier::external_body]
fn captures(pattern: &str, text: &str) -> (groups: Option<Vec<Option<String>>>)
    ensures
        groups.deep_view() == regex_captures(pattern@, text@),
{
    match regex::Regex::new(pattern) {
        Ok(re) => re.captures(text).map(
            |found| found.iter().map(|group| group.map(|m| m.as_str().to_string())).collect(),
        ),
        Err(_) => None,
    }
}

/// The sender and the text in the groups of a match: the first and the
/// second group after the whole match, where there is a match and both took
/// part in it.
pub open spec fn sender_and_text(groups: Option<Seq<Option<Seq<char>>>>) -> Option<
    (Seq<char>, Seq<char>),
> {
    match groups {
        Some(g) => if g.len() >= 3 && g[1] is Some && g[2] is Some {
            Some((g[1]->0, g[2]->0))
        } else {
            None
        },
        None => None,
    }
}

impl ChatMessage {
    /// The line under which the message is shown: the sender, a colon, a
    /// space, the text.
    pub open spec fn shown(sender: Seq<char>, message: Seq<char>) -> Seq<char> {
        sender + seq![':', ' '] + message
    }

    /// The message that the groups of a match hold, if they hold one.
    pub fn from_captures(groups: Option<Vec<Option<String>>>) -> (r: Option<ChatMessage>)
        ensures
            match r {
                Some(m) => sender_and_text(groups.deep_view()) == Some((m.sender@, m.message@)),
                None => sender_and_text(groups.deep_view()) is None,
            },
    {
        match groups {
            None => None,
            Some(mut found) => {
                if found.len() < 3 {
                    return None;
                }
                let message = found.remove(2);
                let sender = found.remove(1);
                match (sender, message) {
                    (Some(sender), Some(message)) => Some(ChatMessage { sender, message }),
                    _ => None,
                }
            },
        }
    }

    /// Reads one chat line. `None` when the line is not of the form of
    /// `CHAT_PATTERN`.
    pub fn parse(s: String) -> (r: Option<ChatMessage>)
        ensures
            match r {
                Some(m) => sender_and_text(regex_captures(CHAT_PATTERN@, s@)) == Some(
                    (m.sender@, m.message@),
                ),
                None => sender_and_text(regex_captures(CHAT_PATTERN@, s@)) is None,
            },
    {
        ChatMessage::from_captures(captures(CHAT_PATTERN, s.as_str()))
    }

    /// The line under which the message is shown.
    pub fn string(&self) -> (line: String)
        ensures
            line@ == ChatMessage::shown(self.sender@, self.message@),
    {
        let mut line = String::from_str(self.sender.as_str());
        proof {
            reveal_strlit(": ");
        }
        line.append(": ");
        line.append(self.message.as_str());
        line
    }
}

/// The channel that is joined after the login.
pub const CHANNEL: &'static str = "#bnans";

/// The three commands that open a session, in the order in which they are
/// sent: the password, the nickname, the channel to join.
pub fn login(token: &str, nick: &str) -> (commands: Vec<String>)
    ensures
        commands@.len() == 3,
        commands@[0]@ == "PASS "@ + token@,
        commands@[1]@ == "NICK "@ + nick@,
        commands@[2]@ == "JOIN "@ + CHANNEL@,
{
    let mut commands: Vec<String> = Vec::new();
    commands.push(String::from_str("PASS ").concat(token));
    commands.push(String::from_str("NICK ").concat(nick));
    commands.push(String::from_str("JOIN ").concat(CHANNEL));
    commands
}

/// A line break starts at position `k` of `s`: a carriage return that a line
/// feed follows.
pub open spec fn breaks_at(s: Seq<char>, k: int) -> bool {
    0 <= k && k + 1 < s.len() && s[k] == '\r' && s[k + 1] == '\n'
}

/// Where the first line of `s` ends: at the first line break, or at the end
/// of `s` when there is none.
pub open spec fn line_end(s: Seq<char>) -> nat
    decreases s.len(),
{
    if s.len() < 2 {
        s.len()
    } else if s[0] == '\r' && s[1] == '\n' {
        0
    } else {
        1 + line_end(s.drop_first())
    }
}

/// What is shown of one line: nothing for an empty line or a line that is no
/// chat message, and otherwise the sender, a colon, a space, the text.
pub open spec fn shown_of_line(line: Seq<char>) -> Seq<Seq<char>> {
    if line.len() == 0 {
        Seq::empty()
    } else {
        match sender_and_text(regex_captures(CHAT_PATTERN@, line)) {
            Some((sender, message)) => seq![ChatMessage::shown(sender, message)],
            None => Seq::empty(),
        }
    }
}

/// What is shown of a text that holds lines, each but the last ended by a
/// carriage return and a line feed: what is shown of each line, in order.
pub open spec fn shown_of_text(text: Seq<char>) -> Seq<Seq<char>>
    decreases text.len(),
{
    let end = line_end(text);
    if end + 2 <= text.len() {
        shown_of_line(text.take(end as int)) + shown_of_text(text.skip(end as int + 2))
    } else {
        shown_of_line(text)
    }
}

/// The first line ends inside the text, no line break starts before its end,
/// and one starts at its end unless the text ends there.
pub proof fn lemma_line_end(s: Seq<char>)
    ensures
        line_end(s) <= s.len(),
        forall|k: int| 0 <= k < line_end(s) ==> !breaks_at(s, k),
        line_end(s) < s.len() ==> breaks_at(s, line_end(s) as int),
    decreases s.len(),
{
    if s.len() >= 2 && !(s[0] == '\r' && s[1] == '\n') {
        let rest = s.drop_first();
        lemma_line_end(rest);
        assert forall|k: int| 0 <= k < line_end(s) implies !breaks_at(s, k) by {
            if k > 0 {
                assert(!breaks_at(rest, k - 1));
            }
        }
    }
}

/// The first position that has no line break before it, and has one itself
/// or is the end of the text, is where the first line ends.
pub proof fn lemma_line_ends_at(s: Seq<char>, end: int)
    requires
        0 <= end <= s.len(),
        forall|k: int| 0 <= k < end ==> !breaks_at(s, k),
        end < s.len() ==> breaks_at(s, end),
    ensures
        line_end(s) == end,
{
    lemma_line_end(s);
}

/// The characters of a text, one by one.
fn chars_of(text: &str) -> (chars: Vec<char>)
    ensures
        chars@ == text@,
{
    let mut chars: Vec<char> = Vec::new();
    for c in it: text.chars()
        invariant
            it.seq() == text@,
            chars@ == text@.take(it.index() as int),
    {
        chars.push(c);
    }
    chars
}

/// Adds to `lines` what is shown of one line.
fn show_line(line: &str, lines: &mut Vec<String>)
    ensures
        final(lines).deep_view() == old(lines).deep_view() + shown_of_line(line@),
{
    if line.unicode_len() > 0 {
        if let Some(m) = ChatMessage::parse(String::from_str(line)) {
            lines.push(m.string());
        }
    }
}

/// What is shown of a text that the chat server has sent: one line for each
/// chat message in it, in the order of the text.
pub fn chat_lines(text: &str) -> (lines: Vec<String>)
    ensures
        lines.deep_view() == shown_of_text(text@),
{
    let chars = chars_of(text);
    let len: usize = chars.len();
    let mut lines: Vec<String> = Vec::new();
    let mut start: usize = 0;
    let mut i: usize = 0;
    assert(text@.skip(0) =~= text@);
    while i < len
        invariant
            chars@ == text@,
            len == text@.len(),
            start <= i <= len,
            forall|k: int| start <= k < i ==> !breaks_at(text@, k),
            shown_of_text(text@) == lines.deep_view() + shown_of_text(text@.skip(start as int)),
        decreases len - i,
    {
        if len - i >= 2 && chars[i] == '\r' && chars[i + 1] == '\n' {
            let ghost rest = text@.skip(start as int);
            proof {
                assert forall|k: int| 0 <= k < i - start implies !breaks_at(rest, k) by {
                    assert(!breaks_at(text@, start + k));
                }
                lemma_line_ends_at(rest, i - start);
                assert(rest.take(i - start) =~= text@.subrange(start as int, i as int));
                assert(rest.skip(i - start + 2) =~= text@.skip(i + 2));
            }
            show_line(text.substring_char(start, i), &mut lines);
            i = i + 2;
            start = i;
        } else {
            i = i + 1;
        }
    }
    let ghost rest = text@.skip(start as int);
    proof {
        assert forall|k: int| 0 <= k < len - start implies !breaks_at(rest, k) by {
            if start + k + 1 < len {
                assert(!breaks_at(text@, start + k));
            }
        }
        lemma_line_ends_at(rest, len - start);
    }
    show_line(text.substring_char(start, len), &mut lines);
    lines
}

/// `ringbuf::Producer`: the writing end of a queue of fixed capacity. The
/// reading end may be in the hands of another thread.
#[verifier::external_type_specification]
#[verifier::external_body]
#[verifier::reject_recursive_types(T)]
pub struct ExProducer<T>(ringbuf::Producer<T>);

/// What has been written into the queue through its writing end, oldest
/// first: every item that `ringbuf::Producer::push` has put behind the items
/// before it. The reading end takes items out at the front and leaves what
/// was written as it is, so only the writing end adds to this.
pub uninterp spec fn written(queue: ringbuf::Producer<String>) -> Seq<Seq<char>>;

/// Calls `ringbuf::Producer::push`. The queue takes the line behind all
/// that was written before, or it is full, takes nothing and hands the line
/// back. Which of the two happens depends on what the reading end has taken
/// out by then, so nothing is claimed of that.
#[verifier::external_body]
fn offer(queue: &mut ringbuf::Producer<String>, line: String) -> (r: Result<(), String>)
    ensures
        match r {
            Ok(()) => written(*final(queue)) == written(*old(queue)).push(line@),
            Err(back) => back@ == line@ && written(*final(queue)) == written(*old(queue)),
        },
{
    queue.push(line)
}

/// `whole` is dealt out to `taken` and `left`: every item of `whole` is in
/// one of the two, and each of the two holds its items in the order of
/// `whole`.
pub open spec fn is_dealt(
    whole: Seq<Seq<char>>,
    taken: Seq<Seq<char>>,
    left: Seq<Seq<char>>,
) -> bool
    decreases whole.len(),
{
    if whole.len() == 0 {
        taken.len() == 0 && left.len() == 0
    } else {
        ||| (taken.len() > 0 && taken.last() == whole.last() && is_dealt(
            whole.drop_last(),
            taken.drop_last(),
            left,
        ))
        ||| (left.len() > 0 && left.last() == whole.last() && is_dealt(
            whole.drop_last(),
            taken,
            left.drop_last(),
        ))
    }
}

/// What one answer of the queue means for the lines that come back: a line
/// that the queue handed back is added to them, and nothing is added when
/// the queue took the line.
pub fn keep_refused(answer: Result<(), String>, refused: &mut Vec<String>)
    ensures
        match answer {
            Ok(()) => final(refused).deep_view() == old(refused).deep_view(),
            Err(back) => final(refused).deep_view() == old(refused).deep_view().push(back@),
        },
{
    if let Err(back) = answer {
        refused.push(back);
    }
}

/// Offers to the queue what is shown of a text that the chat server has
/// sent, line by line and in order. Every line is written into the queue or
/// comes back: the queue gains the lines that it took, behind what was
/// written before, and the lines for which it had no room are returned, both
/// in the order in which they were offered.
pub fn feed(text: &str, queue: &mut ringbuf::Producer<String>) -> (refused: Vec<String>)
    ensures
        written(*old(queue)).len() <= written(*final(queue)).len(),
        written(*final(queue)).take(written(*old(queue)).len() as int) == written(*old(queue)),
        is_dealt(
            shown_of_text(text@),
            written(*final(queue)).skip(written(*old(queue)).len() as int),
            refused.deep_view(),
        ),
{
    let lines = chat_lines(text);
    let mut refused: Vec<String> = Vec::new();
    let mut i: usize = 0;
    let ghost before = written(*queue);
    let ghost mut taken: Seq<Seq<char>> = Seq::empty();
    while i < lines.len()
        invariant
            i <= lines.len(),
            written(*queue) == before + taken,
            is_dealt(lines.deep_view().take(i as int), taken, refused.deep_view()),
        decreases lines.len() - i,
    {
        let ghost kept = refused.deep_view();
        let ghost line = lines@[i as int]@;
        assert(lines.deep_view().take(i + 1).drop_last() =~= lines.deep_view().take(i as int));
        let answer = offer(queue, lines[i].clone());
        proof {
            if answer is Ok {
                assert(taken.push(line).drop_last() =~= taken);
                taken = taken.push(line);
            }
        }
        keep_refused(answer, &mut refused);
        proof {
            if answer is Err {
                assert(refused.deep_view().drop_last() =~= kept);
            }
        }
        i = i + 1;
    }
    assert(lines.deep_view().take(lines.len() as int) =~= lines.deep_view());
    assert((before + taken).skip(before.len() as int) =~= taken);
    refused
}

} // verus!
