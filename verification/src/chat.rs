//! Chat lines, the chat log of a station and the merged log of the net.

use std::collections::VecDeque;
use vstd::prelude::*;

use crate::ring::push_cap;
use crate::text::same_text;
#[allow(unused_imports)]
use crate::ring;

verus! {

/// Lines that the chat log of a station keeps.
pub const CHAT_CAP: usize = 200;

/// Lines that the merged chat log of the net keeps.
pub const NET_CHAT_CAP: usize = 400;

/// Lines of the merged log that a received line is compared with.
pub const DEDUP_WINDOW: usize = 16;

/// Whom a received chat message was addressed to.
#[derive(Debug, Clone, Copy, PartialEq, Eq, Structural)]
pub enum ChatScope {
    /// Every station.
    Broadcast,
    /// This station alone.
    Private,
}

/// A line of chat.
pub struct ChatLine {
    /// Who wrote it.
    pub from: String,
    /// Whom it went to.
    pub dst: String,
    /// What it says.
    pub text: String,
    /// Whether it was addressed to a single station.
    pub private: bool,
    /// Whether a station of this program sent it.
    pub own: bool,
}

/// What a [`ChatLine`] says.
pub struct ChatText {
    /// Who wrote it.
    pub from: Seq<char>,
    /// Whom it went to.
    pub dst: Seq<char>,
    /// What it says.
    pub text: Seq<char>,
    /// Whether it was addressed to a single station.
    pub private: bool,
    /// Whether a station of this program sent it.
    pub own: bool,
}

impl View for ChatLine {
    type V = ChatText;

    open spec fn view(&self) -> ChatText {
        ChatText {
            from: self.from@,
            dst: self.dst@,
            text: self.text@,
            private: self.private,
            own: self.own,
        }
    }
}

impl Clone for ChatLine {
    fn clone(&self) -> (r: Self)
        ensures
            r@ == self@,
    {
        ChatLine {
            from: self.from.clone(),
            dst: self.dst.clone(),
            text: self.text.clone(),
            private: self.private,
            own: self.own,
        }
    }
}

/// What the lines of a list say.
pub open spec fn chat_texts(s: Seq<ChatLine>) -> Seq<ChatText> {
    Seq::new(s.len(), |i: int| s[i]@)
}

/// The line of a message that a station of this program sends.
pub open spec fn own_text(from: Seq<char>, dst: Seq<char>, text: Seq<char>) -> ChatText {
    ChatText { from, dst, text, private: dst != "ALL"@, own: true }
}

/// The line of a message that was received.
pub open spec fn received_text(from: Seq<char>, scope: ChatScope, text: Seq<char>) -> ChatText {
    ChatText {
        from,
        dst: match scope {
            ChatScope::Private => "(özel)"@,
            ChatScope::Broadcast => "ALL"@,
        },
        text,
        private: scope == ChatScope::Private,
        own: false,
    }
}

/// Whether line `a` of a log carries the message of line `b`: sender, text and
/// addressee agree. A received private line does not name its addressee, so
/// that it agrees with any private line that was sent here.
pub open spec fn same_message(a: ChatText, b: ChatText) -> bool {
    &&& a.from == b.from
    &&& a.text == b.text
    &&& a.dst == b.dst || (a.own && a.private && !b.own && b.private)
}

/// Whether one of the newest lines carries the message of `line`.
pub open spec fn seen_lately(log: Seq<ChatText>, line: ChatText) -> bool {
    exists|i: int|
        0 <= i < log.len() && log.len() - DEDUP_WINDOW <= i && same_message(
            #[trigger] log[i],
            line,
        )
}

/// The log of a station after another line.
pub open spec fn with_line(log: Seq<ChatText>, line: ChatText) -> Seq<ChatText> {
    ring::newest(log.push(line), CHAT_CAP as nat)
}

/// The merged log after a line that a station of this program sent.
pub open spec fn net_with_own(log: Seq<ChatText>, line: ChatText) -> Seq<ChatText> {
    ring::newest(log.push(line), NET_CHAT_CAP as nat)
}

/// The merged log after a received line: a message that was seen lately is
/// not repeated.
pub open spec fn net_with_received(log: Seq<ChatText>, line: ChatText) -> Seq<ChatText> {
    if seen_lately(log, line) {
        log
    } else {
        ring::newest(log.push(line), NET_CHAT_CAP as nat)
    }
}

/// The line of a message that a station of this program sends; it is private
/// unless it goes to `ALL`.
pub fn own_line(from: &str, dst: &str, text: &str) -> (r: ChatLine)
    ensures
        r@ == own_text(from@, dst@, text@),
{
    ChatLine {
        from: from.to_string(),
        dst: dst.to_string(),
        text: text.to_string(),
        private: !same_text(dst, "ALL"),
        own: true,
    }
}

/// The line of a message that was received.
pub fn received_line(from: String, scope: ChatScope, text: String) -> (r: ChatLine)
    ensures
        r@ == received_text(from@, scope, text@),
{
    let private = match scope {
        ChatScope::Private => true,
        ChatScope::Broadcast => false,
    };
    ChatLine {
        from,
        dst: if private {
            "(özel)".to_string()
        } else {
            "ALL".to_string()
        },
        text,
        private,
        own: false,
    }
}

/// Appends a line to a chat log of at most `cap` lines.
pub fn push_chat(q: &mut VecDeque<ChatLine>, line: ChatLine, cap: usize)
    ensures
        chat_texts(final(q)@) == ring::newest(chat_texts(old(q)@).push(line@), cap as nat),
{
    let ghost before = q@;
    push_cap(q, line, cap);
    proof {
        assert(chat_texts(before.push(line)) =~= chat_texts(before).push(line@));
        assert(chat_texts(ring::newest(before.push(line), cap as nat)) =~= ring::newest(
            chat_texts(before.push(line)),
            cap as nat,
        ));
    }
}

/// Adds a received line to the merged log. A message that several local
/// stations receive, or that one of them sent, stays a single line.
pub fn push_recv_chat(net_chat: &mut VecDeque<ChatLine>, line: ChatLine)
    ensures
        chat_texts(final(net_chat)@) == net_with_received(chat_texts(old(net_chat)@), line@),
{
    let len: usize = net_chat.len();
    let from: usize = if len > DEDUP_WINDOW {
        len - DEDUP_WINDOW
    } else {
        0
    };
    let mut i: usize = from;
    let ghost log = chat_texts(net_chat@);
    while i < len
        invariant
            from <= i <= len,
            len == net_chat@.len(),
            log == chat_texts(net_chat@),
            from == if len > DEDUP_WINDOW { len - DEDUP_WINDOW } else { 0 },
            forall|j: int| from <= j < i ==> !same_message(#[trigger] log[j], line@),
        decreases len - i,
    {
        let l = &net_chat[i];
        if l.from == line.from && l.text == line.text && (l.dst == line.dst || (l.own && l.private
            && !line.own && line.private)) {
            assert(same_message(log[i as int], line@));
            return;
        }
        assert(!same_message(log[i as int], line@));
        i = i + 1;
    }
    push_chat(net_chat, line, NET_CHAT_CAP);
}

/// Copies the lines of a chat log.
pub fn copy_chat(q: &VecDeque<ChatLine>) -> (r: Vec<ChatLine>)
    ensures
        chat_texts(r@) == chat_texts(q@),
{
    let mut r: Vec<ChatLine> = Vec::new();
    let mut i: usize = 0;
    while i < q.len()
        invariant
            i <= q@.len(),
            r@.len() == i,
            forall|j: int| 0 <= j < i ==> (#[trigger] r@[j])@ == q@[j]@,
        decreases q@.len() - i,
    {
        r.push(q[i].clone());
        i = i + 1;
    }
    assert(chat_texts(r@) =~= chat_texts(q@));
    r
}

/// A message that two local stations receive stays a single line.
pub proof fn law_received_twice_is_one_line(log: Seq<ChatText>, line: ChatText)
    ensures
        net_with_received(net_with_received(log, line), line) == net_with_received(log, line),
{
    let once = net_with_received(log, line);
    if !seen_lately(log, line) {
        assert(same_message(once[once.len() - 1], line));
        assert(seen_lately(once, line));
    }
}

/// A message to `ALL` that a local station sent is not repeated when another
/// local station receives it.
pub proof fn law_own_broadcast_is_not_repeated(
    log: Seq<ChatText>,
    from: Seq<char>,
    text: Seq<char>,
)
    ensures
        ({
            let sent = net_with_own(log, own_text(from, "ALL"@, text));
            net_with_received(sent, received_text(from, ChatScope::Broadcast, text)) == sent
        }),
{
    let sent = net_with_own(log, own_text(from, "ALL"@, text));
    assert(same_message(
        sent[sent.len() - 1],
        received_text(from, ChatScope::Broadcast, text),
    ));
}

/// A private message that a local station sent is not repeated when another
/// local station receives it.
pub proof fn law_own_private_is_not_repeated(
    log: Seq<ChatText>,
    from: Seq<char>,
    dst: Seq<char>,
    text: Seq<char>,
)
    requires
        dst != "ALL"@,
    ensures
        ({
            let sent = net_with_own(log, own_text(from, dst, text));
            net_with_received(sent, received_text(from, ChatScope::Private, text)) == sent
        }),
{
    let sent = net_with_own(log, own_text(from, dst, text));
    assert(same_message(sent[sent.len() - 1], received_text(from, ChatScope::Private, text)));
}

/// A message that was not seen lately becomes the last line of the merged
/// log.
pub proof fn law_new_message_is_last(log: Seq<ChatText>, line: ChatText)
    requires
        !seen_lately(log, line),
    ensures
        net_with_received(log, line).last() == line,
{
}

/// The merged log never exceeds its size.
pub proof fn law_net_chat_is_bounded(log: Seq<ChatText>, line: ChatText)
    requires
        log.len() <= NET_CHAT_CAP,
    ensures
        net_with_own(log, line).len() <= NET_CHAT_CAP,
        net_with_received(log, line).len() <= NET_CHAT_CAP,
{
}

/// A message of ours names its writer and its addressee, and is private unless
/// it goes to `ALL`.
pub proof fn law_own_line_says(from: Seq<char>, dst: Seq<char>, text: Seq<char>)
    ensures
        ({
            let line = own_text(from, dst, text);
            &&& line.from == from && line.dst == dst && line.text == text
            &&& line.own
            &&& line.private <==> dst != "ALL"@
        }),
{
}

/// A received message names its writer; it went to `ALL` or was private.
pub proof fn law_received_line_says(from: Seq<char>, scope: ChatScope, text: Seq<char>)
    ensures
        ({
            let line = received_text(from, scope, text);
            &&& line.from == from && line.text == text
            &&& !line.own
            &&& line.private <==> scope == ChatScope::Private
            &&& line.private ==> line.dst == "(özel)"@
            &&& !line.private ==> line.dst == "ALL"@
        }),
{
}

/// What a chat line shows is what it holds.
pub proof fn law_line_shows_its_fields(line: ChatLine, lines: Seq<ChatLine>, i: int)
    requires
        0 <= i < lines.len(),
    ensures
        line@.from == line.from@,
        line@.dst == line.dst@,
        line@.text == line.text@,
        line@.private == line.private,
        line@.own == line.own,
        chat_texts(lines).len() == lines.len(),
        chat_texts(lines)[i] == lines[i]@,
{
}

/// The chat of a station takes a line in at its end.
pub proof fn law_chat_appends(log: Seq<ChatText>, line: ChatText)
    requires
        log.len() <= 200,
    ensures
        ring::appended(log, with_line(log, line), line, 200),
{
    ring::law_push_appends(log, line, 200);
}

/// The merged chat takes every line of ours in at its end.
pub proof fn law_net_chat_appends_ours(log: Seq<ChatText>, line: ChatText)
    requires
        log.len() <= 400,
    ensures
        ring::appended(log, net_with_own(log, line), line, 400),
{
    ring::law_push_appends(log, line, 400);
}

/// A received line whose message is among the last sixteen of the merged chat
/// leaves it as it is; any other is taken in at its end. The message is the
/// same where writer and text agree, and the addressee too or both lines are
/// private and ours was sent.
pub proof fn law_net_chat_takes_a_message_once(log: Seq<ChatText>, line: ChatText, i: int)
    requires
        log.len() <= 400,
    ensures
        0 <= i < log.len() && i >= log.len() - 16 && log[i].from == line.from && log[i].text
            == line.text && (log[i].dst == line.dst || (log[i].own && log[i].private && !line.own
            && line.private)) ==> net_with_received(log, line) == log,
        net_with_received(log, line) == log || ring::appended(
            log,
            net_with_received(log, line),
            line,
            400,
        ),
        (forall|j: int|
            0 <= j < log.len() && j >= log.len() - 16 ==> (#[trigger] log[j]).from != line.from
                || log[j].text != line.text || (log[j].dst != line.dst && !(log[j].own
                && log[j].private && !line.own && line.private))) ==> ring::appended(
            log,
            net_with_received(log, line),
            line,
            400,
        ),
{
    ring::law_push_appends(log, line, 400);
    if 0 <= i < log.len() && i >= log.len() - 16 && same_message(log[i], line) {
        assert(seen_lately(log, line));
    }
}

} // verus!
