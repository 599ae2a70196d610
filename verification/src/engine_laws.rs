//! What holds of every engine.

use vstd::prelude::*;

#[allow(unused_imports)]
use crate::chat::{CHAT_CAP, NET_CHAT_CAP};
#[allow(unused_imports)]
use crate::engine::{Action, EngineCmd, EngineMode, MIN_AUTO_CHAT_MS};
#[allow(unused_imports)]
use crate::station::{ChannelConfig, Mode};
#[allow(unused_imports)]
use crate::{chat, engine, ring, text};

verus! {

/// The call sign that a command names, as the engine looks it up.
pub open spec fn addressed(cmd: EngineCmd) -> Option<Seq<char>> {
    match cmd {
        EngineCmd::RemoveStation { callsign } => Some(text::uppercase(callsign@)),
        EngineCmd::Chat { callsign, .. } => Some(text::uppercase(callsign@)),
        EngineCmd::SendFile { callsign, .. } => Some(text::uppercase(callsign@)),
        EngineCmd::Drop { callsign } => Some(text::uppercase(callsign@)),
        EngineCmd::Reconnect { callsign } => Some(text::uppercase(callsign@)),
        _ => None,
    }
}

/// A command to a station that does not exist changes nothing and does
/// nothing.
pub proof fn law_unknown_station_is_ignored(
    s: engine::EngineState,
    cmd: EngineCmd,
    after: engine::EngineState,
    acts: Seq<engine::ActionText>,
)
    requires
        addressed(cmd) is Some,
        !s.has(addressed(cmd)->0),
        s.responds(cmd, after, acts),
    ensures
        after == s,
        acts.len() == 0,
{
}

/// A started station is found, and every other station stays as it was.
pub proof fn law_started_station_is_found(s: engine::EngineState, c: Seq<char>, d: Seq<char>)
    requires
        s.wf(),
        c.len() > 0,
        d != c,
    ensures
        s.with_station(c).wf(),
        s.with_station(c).has(c),
        s.with_station(c).slots[s.with_station(c).at(c)] == engine::fresh_slot(c),
        s.with_station(c).has(d) == s.has(d),
        s.has(d) ==> s.with_station(c).slots[s.with_station(c).at(d)] == s.slots[s.at(d)],
{
    let t = s.with_station(c);
    engine::lemma_with_station_wf(s, c);
    if s.has(c) {
        let p = s.at(c);
        assert(s.is_at(p, c));
        assert(t.is_at(p, c));
        engine::lemma_unique_place(t, p, c);
        if s.has(d) {
            let q = s.at(d);
            assert(s.is_at(q, d));
            assert(t.is_at(q, d));
            engine::lemma_unique_place(t, q, d);
        }
        if t.has(d) {
            let q = t.at(d);
            assert(t.is_at(q, d));
            assert(s.is_at(q, d));
        }
    } else {
        engine::lemma_rank(s, c);
        let p = engine::rank(s.slots, c);
        assert(t.is_at(p, c));
        engine::lemma_unique_place(t, p, c);
        if s.has(d) {
            let q = s.at(d);
            assert(s.is_at(q, d));
            let r = if q < p { q } else { q + 1 };
            assert(t.slots[r] == s.slots[q]);
            assert(t.is_at(r, d));
            engine::lemma_unique_place(t, r, d);
        }
        if t.has(d) {
            let r = t.at(d);
            assert(t.is_at(r, d));
            assert(r != p);
            let q = if r < p { r } else { r - 1 };
            assert(t.slots[r] == s.slots[q]);
            assert(s.is_at(q, d));
        }
    }
}

/// Once a station has started, another one that is asked for under the same
/// call sign is refused, however it is written.
pub proof fn law_callsign_is_taken_once(
    s: engine::EngineState,
    raw: Seq<char>,
    cmd: EngineCmd,
)
    requires
        s.wf(),
        engine::call_of(raw).len() > 0,
        cmd is AddStation,
        engine::call_of(cmd->AddStation_callsign@) == engine::call_of(raw),
    ensures
        s.with_station(engine::call_of(raw)).actions(cmd).len() == 0,
{
    let c = engine::call_of(raw);
    let t = s.with_station(c);
    if s.has(c) {
        assert(s.is_at(s.at(c), c));
        assert(t.is_at(s.at(c), c));
    } else {
        engine::lemma_rank(s, c);
        assert(t.is_at(engine::rank(s.slots, c), c));
    }
}

/// A removed station is gone, and every other station stays as it was.
pub proof fn law_removed_station_is_gone(
    s: engine::EngineState,
    cmd: EngineCmd,
    d: Seq<char>,
)
    requires
        s.wf(),
        cmd is RemoveStation,
    ensures
        ({
            let c = text::uppercase(cmd->RemoveStation_callsign@);
            let t = s.after(cmd);
            &&& t.wf()
            &&& !t.has(c)
            &&& d != c ==> t.has(d) == s.has(d)
            &&& d != c && s.has(d) ==> t.slots[t.at(d)] == s.slots[s.at(d)]
            &&& t.net_chat == s.net_chat
        }),
{
    let c = text::uppercase(cmd->RemoveStation_callsign@);
    let t = s.after(cmd);
    if s.has(c) {
        let p = s.at(c);
        assert(s.is_at(p, c));
        assert forall|i: int, j: int| 0 <= i < j < t.slots.len() implies text::text_lt(
            #[trigger] t.slots[i].callsign,
            #[trigger] t.slots[j].callsign,
        ) by {
            let a = if i < p { i } else { i + 1 };
            let b = if j < p { j } else { j + 1 };
            assert(t.slots[i] == s.slots[a] && t.slots[j] == s.slots[b]);
        }
        assert forall|i: int| 0 <= i < t.slots.len() implies (#[trigger] t.slots[i]).bounded()
            && t.slots[i].callsign.len() > 0 by {
            let a = if i < p { i } else { i + 1 };
            assert(t.slots[i] == s.slots[a]);
        }
        assert(t.wf());
        if t.has(c) {
            let r = t.at(c);
            assert(t.is_at(r, c));
            let q = if r < p { r } else { r + 1 };
            assert(t.slots[r] == s.slots[q]);
            assert(s.is_at(q, c));
            engine::lemma_unique_place(s, q, c);
        }
        if d != c && s.has(d) {
            let q = s.at(d);
            assert(s.is_at(q, d));
            let r = if q < p { q } else { q - 1 };
            assert(t.slots[r] == s.slots[q]);
            assert(t.is_at(r, d));
            engine::lemma_unique_place(t, r, d);
        }
        if d != c && t.has(d) {
            let r = t.at(d);
            assert(t.is_at(r, d));
            let q = if r < p { r } else { r + 1 };
            assert(t.slots[r] == s.slots[q]);
            assert(s.is_at(q, d));
        }
    }
}

/// What a station writes is the last line of its chat and of the merged one,
/// and nothing else changes.
pub proof fn law_own_chat_is_last(
    s: engine::EngineState,
    i: int,
    dst: Seq<char>,
    text: Seq<char>,
)
    requires
        0 <= i < s.slots.len(),
    ensures
        ({
            let t = s.with_own_chat(i, dst, text);
            let line = chat::own_text(s.slots[i].callsign, dst, text);
            &&& t.slots[i].chat.last() == line
            &&& t.net_chat.last() == line
            &&& t.slots[i].log == s.slots[i].log
            &&& t.slots.len() == s.slots.len()
            &&& t.auto_chat == s.auto_chat
            &&& forall|j: int|
                0 <= j < s.slots.len() && j != i ==> #[trigger] t.slots[j] == s.slots[j]
        }),
{
}

/// A started station is found by every command that names it as it was asked
/// for, whatever the case of its letters; one with an ASCII call sign also by
/// every command that names it by the call sign that it has.
pub proof fn law_station_answers_to_its_call_sign(
    s: engine::EngineState,
    raw: Seq<char>,
    cmd: EngineCmd,
)
    requires
        s.wf(),
        engine::call_of(raw).len() > 0,
        addressed(cmd) == Some(text::uppercase(text::trimmed(raw))) || (text::all_ascii(raw)
            && addressed(cmd) == Some(text::uppercase(engine::call_of(raw)))),
    ensures
        ({
            let t = s.with_station(engine::call_of(raw));
            &&& t.has(addressed(cmd)->0)
            &&& t.actions(cmd).len() == 1
        }),
{
    let c = engine::call_of(raw);
    let t = s.with_station(c);
    if text::all_ascii(raw) {
        text::law_trimmed_has_bare_ends(raw);
        text::law_uppercase_is_final(text::trimmed(raw));
    }
    law_started_station_is_found(s, c, c.push('x'));
    assert(t.has(c));
}

/// The lines that the connected stations among the first `n` write.
pub open spec fn all_lines(
    s: engine::EngineState,
    dst: Seq<char>,
    text: Seq<char>,
    n: nat,
) -> Seq<chat::ChatText>
    decreases n,
{
    if n == 0 {
        Seq::empty()
    } else {
        let rest = all_lines(s, dst, text, (n - 1) as nat);
        if s.slots[n - 1].connected {
            rest.push(chat::own_text(s.slots[n - 1].callsign, dst, text))
        } else {
            rest
        }
    }
}

/// When all stations talk, the merged chat gets the line of each connected
/// station, in the order of the call signs; each connected station has the
/// line as its last one, and the others' chats do not change.
pub proof fn law_all_connected_stations_talk(
    s: engine::EngineState,
    dst: Seq<char>,
    text: Seq<char>,
    n: nat,
)
    requires
        s.wf(),
        n <= s.slots.len(),
    ensures
        ({
            let t = s.with_chat_all(dst, text, n);
            &&& t.net_chat == ring::newest(
                s.net_chat + all_lines(s, dst, text, n),
                NET_CHAT_CAP as nat,
            )
            &&& t.slots.len() == s.slots.len()
            &&& forall|i: int|
                0 <= i < n && s.slots[i].connected ==> (#[trigger] t.slots[i]).chat
                    == chat::with_line(
                    s.slots[i].chat,
                    chat::own_text(s.slots[i].callsign, dst, text),
                )
            &&& forall|i: int|
                0 <= i < s.slots.len() && (i >= n || !s.slots[i].connected)
                    ==> #[trigger] t.slots[i] == s.slots[i]
        }),
    decreases n,
{
    let t = s.with_chat_all(dst, text, n);
    if n == 0 {
        assert(s.net_chat + all_lines(s, dst, text, 0) =~= s.net_chat);
    } else {
        let m = (n - 1) as nat;
        law_all_connected_stations_talk(s, dst, text, m);
        let u = s.with_chat_all(dst, text, m);
        assert(u.slots[m as int] == s.slots[m as int]);
        if s.slots[m as int].connected {
            let line = chat::own_text(s.slots[m as int].callsign, dst, text);
            let lines = all_lines(s, dst, text, m);
            ring::law_newest_composes(s.net_chat, lines, seq![line], NET_CHAT_CAP as nat);
            assert(u.net_chat.push(line) =~= u.net_chat + seq![line]);
            assert(s.net_chat + lines + seq![line] =~= s.net_chat + lines.push(line));
        }
    }
}

/// When all stations talk, what is transmitted is what the merged chat shows:
/// one message of each connected station, in the order of the call signs.
pub proof fn law_all_talk_transmits_the_lines(
    s: engine::EngineState,
    dst: Seq<char>,
    text: Seq<char>,
    n: nat,
)
    requires
        n <= s.slots.len(),
    ensures
        ({
            let acts = s.chat_all_actions(dst, text, n);
            let lines = all_lines(s, dst, text, n);
            &&& acts.len() == lines.len()
            &&& forall|k: int|
                0 <= k < acts.len() ==> #[trigger] acts[k] == (engine::ActionText::SendChat {
                    callsign: lines[k].from,
                    dst,
                    text,
                })
            &&& forall|i: int|
                0 <= i < n && (#[trigger] s.slots[i]).connected ==> exists|k: int|
                    0 <= k < lines.len() && (#[trigger] lines[k]).from == s.slots[i].callsign
        }),
    decreases n,
{
    if n > 0 {
        let m = (n - 1) as nat;
        law_all_talk_transmits_the_lines(s, dst, text, m);
        let before = all_lines(s, dst, text, m);
        let lines = all_lines(s, dst, text, n);
        assert forall|i: int| 0 <= i < n && (#[trigger] s.slots[i]).connected implies exists|k: int|
            0 <= k < lines.len() && (#[trigger] lines[k]).from == s.slots[i].callsign by {
            if i == m {
                assert(lines[lines.len() - 1].from == s.slots[i].callsign);
            } else {
                let k = choose|k: int|
                    0 <= k < before.len() && (#[trigger] before[k]).from == s.slots[i].callsign;
                assert(lines[k].from == s.slots[i].callsign);
            }
        }
    }
}

/// When all stations send a file, each connected station sends it, in the
/// order of the call signs, and none that is not connected.
pub proof fn law_all_connected_stations_send(
    s: engine::EngineState,
    path: std::path::PathBuf,
    dst: Seq<char>,
    n: nat,
)
    requires
        n <= s.slots.len(),
    ensures
        ({
            let acts = s.file_all_actions(path, dst, n);
            let lines = all_lines(s, dst, Seq::empty(), n);
            &&& acts.len() == lines.len()
            &&& forall|k: int|
                0 <= k < acts.len() ==> #[trigger] acts[k] == (engine::ActionText::SendFile {
                    callsign: lines[k].from,
                    path,
                    dst,
                })
        }),
    decreases n,
{
    if n > 0 {
        law_all_connected_stations_send(s, path, dst, (n - 1) as nat);
    }
}

/// The number of timers of the automatic chat that run after `acts`, when
/// `running` ran before.
pub open spec fn timers(running: int, acts: Seq<engine::ActionText>) -> int
    decreases acts.len(),
{
    if acts.len() == 0 {
        running
    } else {
        let n = timers(running, acts.drop_last());
        match acts.last() {
            engine::ActionText::StopAutoChat => n - 1,
            engine::ActionText::StartAutoChat { .. } => n + 1,
            _ => n,
        }
    }
}

/// The timers that an engine accounts for.
pub open spec fn accounted(s: engine::EngineState) -> int {
    if s.auto_chat {
        1
    } else {
        0
    }
}

/// Switching the automatic chat leaves one timer running when it is on and
/// none when it is off, and no timer is faster than the shortest interval.
pub proof fn law_auto_chat_has_one_timer(s: engine::EngineState, enabled: bool, interval_ms: u64)
    ensures
        ({
            let cmd = EngineCmd::SetAutoChat { enabled, interval_ms };
            let acts = s.actions(cmd);
            &&& s.after(cmd).auto_chat == enabled
            &&& timers(accounted(s), acts) == accounted(s.after(cmd))
            &&& forall|k: int|
                0 <= k < acts.len() && (#[trigger] acts[k]) is StartAutoChat
                    ==> acts[k]->interval_ms >= MIN_AUTO_CHAT_MS && acts[k]->interval_ms
                    >= interval_ms
            &&& s.after(cmd).slots == s.slots
            &&& s.after(cmd).net_chat == s.net_chat
        }),
{
    let cmd = EngineCmd::SetAutoChat { enabled, interval_ms };
    let acts = s.actions(cmd);
    reveal_with_fuel(timers, 3);
    if acts.len() == 2 {
        assert(acts.drop_last().drop_last().len() == 0);
    }
}

/// The automatic chat writes as a connected station, to everyone, and adds one
/// line to the merged chat; without a connected station it does nothing.
pub proof fn law_auto_tick_talks_for_a_connected_station(
    s: engine::EngineState,
    after: engine::EngineState,
    acts: Seq<engine::ActionText>,
)
    requires
        s.wf(),
        s.responds(EngineCmd::AutoTick, after, acts),
    ensures
        !s.any_connected() ==> after == s && acts.len() == 0,
        s.any_connected() ==> {
            &&& acts.len() == 1
            &&& acts[0] is SendChat
            &&& acts[0]->SendChat_dst == "ALL"@
            &&& s.has(acts[0]->SendChat_callsign)
            &&& s.slots[s.at(acts[0]->SendChat_callsign)].connected
            &&& after.net_chat.last().from == acts[0]->SendChat_callsign
            &&& after.net_chat.last().text == acts[0]->text
            &&& !after.net_chat.last().private
        },
{
    if s.any_connected() {
        let (i, p) = choose|i: int, p: int|
            0 <= i < s.slots.len() && s.slots[i].connected && 0 <= p < engine::AUTO_PHRASES
                && #[trigger] s.auto_chats(i, p, after, acts);
        assert(s.is_at(i, s.slots[i].callsign));
        engine::lemma_unique_place(s, i, s.slots[i].callsign);
    }
}

/// An engine without the channel never sets its physics; one without stations
/// never commands one.
pub proof fn law_modes_keep_to_their_part(
    s: engine::EngineState,
    mode: EngineMode,
    cmd: EngineCmd,
    after: engine::EngineState,
    acts: Seq<engine::ActionText>,
)
    requires
        s.dispatches(mode, cmd, after, acts),
    ensures
        mode == EngineMode::Monitor ==> after == s && acts.len() == 0,
        mode == EngineMode::ChannelHost ==> after == s && (acts.len() == 0 || cmd is SetChannel),
        mode == EngineMode::Client && cmd is SetChannel ==> after == s && acts.len() == 0,
{
}

/// A chat message that a station receives shows up as the last line of its
/// chat, and in the merged chat unless it was seen lately.
pub proof fn law_received_chat_is_shown(
    s: engine::EngineState,
    c: Seq<char>,
    ev: engine::StationEvent,
)
    requires
        s.wf(),
        s.has(c),
        ev is Chat,
    ensures
        ({
            let line = chat::received_text(ev->from@, ev->scope, ev->text@);
            let t = s.with_event(c, ev);
            &&& t.slots[s.at(c)].chat.last() == line
            &&& chat::seen_lately(t.net_chat, line)
        }),
{
    let line = chat::received_text(ev->from@, ev->scope, ev->text@);
    let t = s.with_event(c, ev);
    assert(s.is_at(s.at(c), c));
    if !chat::seen_lately(s.net_chat, line) {
        assert(chat::same_message(t.net_chat[t.net_chat.len() - 1], line));
    }
}

/// What one local station writes to everyone, and another one receives, is one
/// line of the merged chat.
pub proof fn law_local_broadcast_is_one_line(
    s: engine::EngineState,
    i: int,
    text: Seq<char>,
    c: Seq<char>,
    ev: engine::StationEvent,
)
    requires
        0 <= i < s.slots.len(),
        ev matches engine::StationEvent::Chat { from, scope, text: received }
            && from@ == s.slots[i].callsign && scope == chat::ChatScope::Broadcast && received@
            == text,
    ensures
        s.with_own_chat(i, "ALL"@, text).with_event(c, ev).net_chat == s.with_own_chat(
            i,
            "ALL"@,
            text,
        ).net_chat,
{
    chat::law_own_broadcast_is_not_repeated(s.net_chat, s.slots[i].callsign, text);
}

/// What one local station writes to a single one, and that one receives, is
/// one line of the merged chat.
pub proof fn law_local_private_is_one_line(
    s: engine::EngineState,
    i: int,
    dst: Seq<char>,
    text: Seq<char>,
    c: Seq<char>,
    ev: engine::StationEvent,
)
    requires
        0 <= i < s.slots.len(),
        dst != "ALL"@,
        ev matches engine::StationEvent::Chat { from, scope, text: received }
            && from@ == s.slots[i].callsign && scope == chat::ChatScope::Private && received@
            == text,
    ensures
        s.with_own_chat(i, dst, text).with_event(c, ev).net_chat == s.with_own_chat(
            i,
            dst,
            text,
        ).net_chat,
{
    chat::law_own_private_is_not_repeated(s.net_chat, s.slots[i].callsign, dst, text);
}

/// A report from a station that no longer runs changes no station: at most the
/// merged chat takes its message.
pub proof fn law_late_report_changes_no_station(
    s: engine::EngineState,
    c: Seq<char>,
    number: u64,
    running: Option<u64>,
    ev: engine::StationEvent,
)
    requires
        s.wf(),
        running != Some(number),
    ensures
        ({
            let t = s.with_report(c, number, running, ev);
            &&& t.slots == s.slots
            &&& t.auto_chat == s.auto_chat
            &&& !(ev is Chat) ==> t == s
        }),
{
    if s.has(Seq::empty()) {
        assert(s.is_at(s.at(Seq::empty()), Seq::empty()));
    }
}

proof fn lemma_own_chat_keeps_order(
    s: engine::EngineState,
    i: int,
    dst: Seq<char>,
    text: Seq<char>,
)
    requires
        s.wf(),
        0 <= i < s.slots.len(),
    ensures
        s.with_own_chat(i, dst, text).wf(),
        s.with_own_chat(i, dst, text).slots.len() == s.slots.len(),
{
    lemma_same_call_signs(s, s.with_own_chat(i, dst, text));
}

/// An engine keeps the order of another one whose call signs it has.
proof fn lemma_same_call_signs(s: engine::EngineState, t: engine::EngineState)
    requires
        s.wf(),
        t.slots.len() == s.slots.len(),
        forall|i: int|
            0 <= i < s.slots.len() ==> (#[trigger] t.slots[i]).callsign == s.slots[i].callsign
                && t.slots[i].bounded(),
        t.net_chat.len() <= NET_CHAT_CAP,
    ensures
        t.wf(),
{
    assert forall|i: int, j: int| 0 <= i < j < t.slots.len() implies text::text_lt(
        #[trigger] t.slots[i].callsign,
        #[trigger] t.slots[j].callsign,
    ) by {
        assert(text::text_lt(s.slots[i].callsign, s.slots[j].callsign));
    }
}

proof fn lemma_chat_all_keeps_order(
    s: engine::EngineState,
    dst: Seq<char>,
    text: Seq<char>,
    n: nat,
)
    requires
        s.wf(),
        n <= s.slots.len(),
    ensures
        s.with_chat_all(dst, text, n).wf(),
        s.with_chat_all(dst, text, n).slots.len() == s.slots.len(),
    decreases n,
{
    if n > 0 {
        let m = (n - 1) as nat;
        lemma_chat_all_keeps_order(s, dst, text, m);
        if s.slots[m as int].connected {
            lemma_own_chat_keeps_order(s.with_chat_all(dst, text, m), m as int, dst, text);
        }
    }
}

/// Whatever is commanded, in whatever mode, and whatever chance decides: the
/// stations stay in the order of their call signs, none occurs twice, and no
/// log exceeds its size.
pub proof fn law_commands_keep_order(
    s: engine::EngineState,
    mode: EngineMode,
    cmd: EngineCmd,
    after: engine::EngineState,
    acts: Seq<engine::ActionText>,
)
    requires
        s.wf(),
        s.dispatches(mode, cmd, after, acts),
    ensures
        after.wf(),
{
    if after != s {
        if cmd is AutoTick {
            let (i, p) = choose|i: int, p: int|
                0 <= i < s.slots.len() && s.slots[i].connected && 0 <= p < engine::AUTO_PHRASES
                    && #[trigger] s.auto_chats(i, p, after, acts);
            lemma_own_chat_keeps_order(s, i, "ALL"@, engine::phrase_text(p));
        } else if cmd is RemoveStation {
            law_removed_station_is_gone(s, cmd, Seq::empty());
        } else if cmd is Chat {
            let c = text::uppercase(cmd->Chat_callsign@);
            assert(s.is_at(s.at(c), c));
            lemma_own_chat_keeps_order(s, s.at(c), cmd->Chat_dst@, cmd->Chat_text@);
        } else if cmd is ChatAll {
            lemma_chat_all_keeps_order(s, cmd->ChatAll_dst@, cmd->ChatAll_text@, s.slots.len());
        }
    }
}

/// Whatever a station reports, and whether its link goes up or down, the
/// stations stay in order and no log exceeds its size.
pub proof fn law_reports_keep_order(
    s: engine::EngineState,
    c: Seq<char>,
    ev: engine::StationEvent,
    up: bool,
)
    requires
        s.wf(),
    ensures
        s.with_event(c, ev).wf(),
        s.with_link(c, up).wf(),
{
    if s.has(c) {
        assert(s.is_at(s.at(c), c));
    }
    lemma_same_call_signs(s, s.with_event(c, ev));
    lemma_same_call_signs(s, s.with_link(c, up));
}

/// A station is there where its call sign is listed, and stands at that place.
pub proof fn law_place_of_a_station(s: engine::EngineState, c: Seq<char>, i: int)
    requires
        s.wf(),
    ensures
        s.has(c) ==> 0 <= s.at(c) < s.slots.len() && s.slots[s.at(c)].callsign == c,
        0 <= i < s.slots.len() && s.slots[i].callsign == c ==> s.has(c) && s.at(c) == i,
{
    if s.has(c) {
        assert(s.is_at(s.at(c), c));
    }
    if 0 <= i < s.slots.len() && s.slots[i].callsign == c {
        assert(s.is_at(i, c));
        engine::lemma_unique_place(s, i, c);
    }
}

/// No call sign is empty, none occurs twice, they stand in order, and no log
/// is longer than it may be.
pub proof fn law_stations_are_in_order(s: engine::EngineState, i: int, j: int)
    requires
        s.wf(),
        0 <= i <= j < s.slots.len(),
    ensures
        s.slots[i].callsign.len() > 0,
        i < j ==> s.slots[i].callsign != s.slots[j].callsign,
        i < j ==> text::text_lt(s.slots[i].callsign, s.slots[j].callsign),
        s.slots[i].log.len() <= 300 && s.slots[i].chat.len() <= 200,
        s.net_chat.len() <= 400,
{
    text::lemma_text_lt_irreflexive(s.slots[i].callsign);
    assert(s.slots[i].bounded());
}

/// Whether station `i` alone is different in `t`, and only in its chat.
pub open spec fn only_chat_differs(
    s: engine::EngineState,
    t: engine::EngineState,
    i: int,
) -> bool {
    &&& t.slots.len() == s.slots.len()
    &&& t.slots[i].callsign == s.slots[i].callsign
    &&& t.slots[i].connected == s.slots[i].connected
    &&& t.slots[i].log == s.slots[i].log
    &&& forall|j: int| 0 <= j < s.slots.len() && j != i ==> #[trigger] t.slots[j] == s.slots[j]
}

/// What station `i` writes goes to the end of its chat and of the merged one,
/// and nothing else changes.
proof fn lemma_own_chat(s: engine::EngineState, i: int, dst: Seq<char>, text: Seq<char>)
    requires
        s.wf(),
        0 <= i < s.slots.len(),
    ensures
        ({
            let t = s.with_own_chat(i, dst, text);
            let line = chat::ChatText {
                from: s.slots[i].callsign,
                dst,
                text,
                private: dst != "ALL"@,
                own: true,
            };
            &&& only_chat_differs(s, t, i)
            &&& ring::appended(s.slots[i].chat, t.slots[i].chat, line, 200)
            &&& ring::appended(s.net_chat, t.net_chat, line, 400)
            &&& t.auto_chat == s.auto_chat
        }),
{
    let line = chat::own_text(s.slots[i].callsign, dst, text);
    assert(s.slots[i].bounded());
    chat::law_chat_appends(s.slots[i].chat, line);
    chat::law_net_chat_appends_ours(s.net_chat, line);
}

/// A command to chat lets the station that it names, and no other, transmit
/// the command's text to the command's addressee. The line goes to the end of
/// that station's chat and of the merged one, and nothing else changes.
pub proof fn law_chat_command(
    s: engine::EngineState,
    cmd: EngineCmd,
    after: engine::EngineState,
    acts: Seq<engine::ActionText>,
)
    requires
        s.wf(),
        cmd is Chat,
        s.has(text::uppercase(cmd->Chat_callsign@)),
        s.responds(cmd, after, acts),
    ensures
        ({
            let c = text::uppercase(cmd->Chat_callsign@);
            let i = s.at(c);
            let line = chat::ChatText {
                from: c,
                dst: cmd->Chat_dst@,
                text: cmd->Chat_text@,
                private: cmd->Chat_dst@ != "ALL"@,
                own: true,
            };
            &&& acts.len() == 1
            &&& acts[0] == (engine::ActionText::SendChat {
                callsign: c,
                dst: cmd->Chat_dst@,
                text: cmd->Chat_text@,
            })
            &&& only_chat_differs(s, after, i)
            &&& ring::appended(s.slots[i].chat, after.slots[i].chat, line, 200)
            &&& ring::appended(s.net_chat, after.net_chat, line, 400)
            &&& after.auto_chat == s.auto_chat
        }),
{
    let c = text::uppercase(cmd->Chat_callsign@);
    law_place_of_a_station(s, c, 0);
    lemma_own_chat(s, s.at(c), cmd->Chat_dst@, cmd->Chat_text@);
}

/// A command to send a file lets the station that it names, and no other, send
/// the file at the command's path to the command's addressee, and changes
/// nothing.
pub proof fn law_send_file_command(
    s: engine::EngineState,
    cmd: EngineCmd,
    after: engine::EngineState,
    acts: Seq<engine::ActionText>,
)
    requires
        cmd is SendFile,
        s.has(text::uppercase(cmd->SendFile_callsign@)),
        s.responds(cmd, after, acts),
    ensures
        after == s,
        acts.len() == 1,
        acts[0] is SendFile,
        acts[0]->SendFile_callsign == text::uppercase(cmd->SendFile_callsign@),
        acts[0]->SendFile_path == cmd->SendFile_path,
        acts[0]->SendFile_dst == cmd->SendFile_dst@,
{
}

/// Commands to drop the link, to take it up again and to remove reach the
/// station that they name, and no other; the first two change nothing.
pub proof fn law_link_and_remove_commands(
    s: engine::EngineState,
    cmd: EngineCmd,
    after: engine::EngineState,
    acts: Seq<engine::ActionText>,
)
    requires
        s.wf(),
        cmd is Drop || cmd is Reconnect || cmd is RemoveStation,
        s.has(addressed(cmd)->0),
        s.responds(cmd, after, acts),
    ensures
        acts.len() == 1,
        cmd is Drop ==> after == s && acts[0] == (engine::ActionText::DropLink {
            callsign: text::uppercase(cmd->Drop_callsign@),
        }),
        cmd is Reconnect ==> after == s && acts[0] == (engine::ActionText::Reconnect {
            callsign: text::uppercase(cmd->Reconnect_callsign@),
        }),
        cmd is RemoveStation ==> {
            let c = text::uppercase(cmd->RemoveStation_callsign@);
            &&& acts[0] == (engine::ActionText::StopStation { callsign: c })
            &&& after.slots.len() == s.slots.len() - 1
            &&& forall|j: int|
                0 <= j < after.slots.len() ==> #[trigger] after.slots[j] == s.slots[if j < s.at(c) {
                    j
                } else {
                    j + 1
                }]
            &&& after.net_chat == s.net_chat
            &&& after.auto_chat == s.auto_chat
        },
{
    law_place_of_a_station(s, addressed(cmd)->0, 0);
}

/// A command to one station looks for its call sign in capital letters.
pub proof fn law_commands_name_stations(cmd: EngineCmd)
    ensures
        cmd matches EngineCmd::RemoveStation { callsign } ==> addressed(cmd) == Some(
            text::uppercase(callsign@),
        ),
        cmd matches EngineCmd::Drop { callsign } ==> addressed(cmd) == Some(
            text::uppercase(callsign@),
        ),
        cmd matches EngineCmd::Reconnect { callsign } ==> addressed(cmd) == Some(
            text::uppercase(callsign@),
        ),
{
}

/// A station is asked for under its call sign, trimmed and in capital letters,
/// with the modulation of the command and the name as it was entered; nothing
/// is asked for where the call sign is empty or taken. The engine itself waits
/// for the station to start.
pub proof fn law_add_station_command(
    s: engine::EngineState,
    cmd: EngineCmd,
    after: engine::EngineState,
    acts: Seq<engine::ActionText>,
)
    requires
        cmd is AddStation,
        s.responds(cmd, after, acts),
    ensures
        after == s,
        ({
            let c = text::uppercase(text::trimmed(cmd->AddStation_callsign@));
            &&& c.len() == 0 || s.has(c) ==> acts.len() == 0
            &&& c.len() > 0 && !s.has(c) ==> acts.len() == 1 && acts[0] == (
            engine::ActionText::StartStation {
                callsign: c,
                requested: cmd->AddStation_callsign@,
                mode: cmd->AddStation_mode,
            })
        }),
{
}

/// A program that has the channel hands noise, delay and gain of the echo on
/// to it as they were commanded, and does nothing else; one that does not have
/// it does nothing.
pub proof fn law_set_channel_command(
    s: engine::EngineState,
    mode: EngineMode,
    cmd: EngineCmd,
    after: engine::EngineState,
    acts: Seq<engine::ActionText>,
)
    requires
        cmd is SetChannel,
        s.dispatches(mode, cmd, after, acts),
    ensures
        after == s,
        mode == EngineMode::AllInOne || mode == EngineMode::ChannelHost ==> {
            &&& acts.len() == 1
            &&& acts[0] is SetChannel
            &&& acts[0]->SetChannel_0.snr_db == cmd->SetChannel_0.snr_db
            &&& acts[0]->SetChannel_0.multipath_delay_ms == cmd->SetChannel_0.multipath_delay_ms
            &&& acts[0]->SetChannel_0.multipath_gain == cmd->SetChannel_0.multipath_gain
        },
        mode == EngineMode::Client || mode == EngineMode::Monitor ==> acts.len() == 0,
{
}

/// A program with stations carries out every other command as its stations do;
/// one without carries out none.
pub proof fn law_stations_carry_out_commands(
    s: engine::EngineState,
    mode: EngineMode,
    cmd: EngineCmd,
    after: engine::EngineState,
    acts: Seq<engine::ActionText>,
)
    requires
        !(cmd is SetChannel),
    ensures
        mode == EngineMode::AllInOne || mode == EngineMode::Client ==> (s.dispatches(
            mode,
            cmd,
            after,
            acts,
        ) <==> s.responds(cmd, after, acts)),
        mode == EngineMode::ChannelHost || mode == EngineMode::Monitor ==> (s.dispatches(
            mode,
            cmd,
            after,
            acts,
        ) <==> after == s && acts.len() == 0),
{
    if acts.len() == 0 {
        assert(acts =~= Seq::<engine::ActionText>::empty());
    }
}

/// Switching the automatic chat stops the timer that runs, if any, and then
/// starts one where the chat is switched on: with the interval that was asked
/// for, but not less than half a second.
pub proof fn law_auto_chat_command(
    s: engine::EngineState,
    cmd: EngineCmd,
    after: engine::EngineState,
    acts: Seq<engine::ActionText>,
)
    requires
        cmd is SetAutoChat,
        s.responds(cmd, after, acts),
    ensures
        after.auto_chat == cmd->enabled,
        after.slots == s.slots && after.net_chat == s.net_chat,
        acts.len() == (if s.auto_chat { 1int } else { 0int }) + (if cmd->enabled { 1int } else {
            0int
        }),
        s.auto_chat ==> acts[0] is StopAutoChat,
        cmd->enabled ==> {
            let started = acts[acts.len() - 1];
            &&& started is StartAutoChat
            &&& cmd->SetAutoChat_interval_ms >= 500 ==> started->interval_ms
                == cmd->SetAutoChat_interval_ms
            &&& cmd->SetAutoChat_interval_ms < 500 ==> started->interval_ms == 500
        },
{
}

/// When all stations are told to talk, each connected one transmits the
/// command's text to the command's addressee, in the order of the call signs;
/// its line goes to the end of its chat, and all lines go to the end of the
/// merged chat. Nothing else changes.
pub proof fn law_chat_all_command(
    s: engine::EngineState,
    cmd: EngineCmd,
    after: engine::EngineState,
    acts: Seq<engine::ActionText>,
    i: int,
    k: int,
)
    requires
        s.wf(),
        cmd is ChatAll,
        s.responds(cmd, after, acts),
        0 <= i < s.slots.len(),
    ensures
        ({
            let (dst, text) = (cmd->ChatAll_dst@, cmd->ChatAll_text@);
            let lines = all_lines(s, dst, text, s.slots.len());
            let line = chat::ChatText {
                from: s.slots[i].callsign,
                dst,
                text,
                private: dst != "ALL"@,
                own: true,
            };
            &&& acts.len() == lines.len()
            &&& 0 <= k < acts.len() ==> acts[k] == (engine::ActionText::SendChat {
                callsign: lines[k].from,
                dst,
                text,
            })
            &&& after.net_chat == ring::newest(s.net_chat + lines, 400)
            &&& after.slots.len() == s.slots.len()
            &&& after.auto_chat == s.auto_chat
            &&& !s.slots[i].connected ==> after.slots[i] == s.slots[i]
            &&& s.slots[i].connected ==> {
                &&& ring::appended(s.slots[i].chat, after.slots[i].chat, line, 200)
                &&& after.slots[i].callsign == s.slots[i].callsign
                &&& after.slots[i].connected
                &&& after.slots[i].log == s.slots[i].log
            }
        }),
{
    let (dst, text) = (cmd->ChatAll_dst@, cmd->ChatAll_text@);
    law_all_connected_stations_talk(s, dst, text, s.slots.len());
    law_all_talk_transmits_the_lines(s, dst, text, s.slots.len());
    lemma_chat_all_keeps_the_rest(s, dst, text, s.slots.len(), i);
    assert(s.slots[i].bounded());
    chat::law_chat_appends(s.slots[i].chat, chat::own_text(s.slots[i].callsign, dst, text));
}

proof fn lemma_chat_all_keeps_the_rest(
    s: engine::EngineState,
    dst: Seq<char>,
    text: Seq<char>,
    n: nat,
    i: int,
)
    requires
        n <= s.slots.len(),
        0 <= i < s.slots.len(),
    ensures
        ({
            let t = s.with_chat_all(dst, text, n);
            &&& t.slots.len() == s.slots.len()
            &&& t.auto_chat == s.auto_chat
            &&& t.slots[i].callsign == s.slots[i].callsign
            &&& t.slots[i].connected == s.slots[i].connected
            &&& t.slots[i].log == s.slots[i].log
        }),
    decreases n,
{
    if n > 0 {
        lemma_chat_all_keeps_the_rest(s, dst, text, (n - 1) as nat, i);
    }
}

/// The lines of all stations are those of the connected ones, each once and in
/// the order of the call signs.
pub proof fn law_all_lines_are_of_the_connected(
    s: engine::EngineState,
    dst: Seq<char>,
    text: Seq<char>,
    n: nat,
)
    requires
        n < s.slots.len(),
    ensures
        all_lines(s, dst, text, 0).len() == 0,
        !s.slots[n as int].connected ==> all_lines(s, dst, text, n + 1) == all_lines(
            s,
            dst,
            text,
            n,
        ),
        s.slots[n as int].connected ==> all_lines(s, dst, text, n + 1) == all_lines(
            s,
            dst,
            text,
            n,
        ).push(
            chat::ChatText {
                from: s.slots[n as int].callsign,
                dst,
                text,
                private: dst != "ALL"@,
                own: true,
            },
        ),
{
}

/// When all stations are told to send a file, each connected one sends the
/// file at the command's path to the command's addressee, in the order of the
/// call signs, and nothing changes.
pub proof fn law_send_file_all_command(
    s: engine::EngineState,
    cmd: EngineCmd,
    after: engine::EngineState,
    acts: Seq<engine::ActionText>,
    k: int,
)
    requires
        cmd is SendFileAll,
        s.responds(cmd, after, acts),
    ensures
        ({
            let lines = all_lines(s, cmd->SendFileAll_dst@, Seq::empty(), s.slots.len());
            &&& after == s
            &&& acts.len() == lines.len()
            &&& 0 <= k < acts.len() ==> acts[k] is SendFile && acts[k]->SendFile_callsign
                == lines[k].from && acts[k]->SendFile_path == cmd->SendFileAll_path
                && acts[k]->SendFile_dst == cmd->SendFileAll_dst@
        }),
{
    law_all_connected_stations_send(
        s,
        cmd->SendFileAll_path,
        cmd->SendFileAll_dst@,
        s.slots.len(),
    );
}

/// The phrases of the automatic chat.
pub open spec fn phrases() -> Seq<Seq<char>> {
    seq![
        "test test"@,
        "sinyal 59"@,
        "roger"@,
        "QSL"@,
        "kanal nasıl?"@,
        "waterfall temiz"@,
        "beklemede"@,
        "grup çağrısı"@,
        "buradayım"@,
        "kopyala"@,
        "anlaşıldı"@,
        "10-4"@,
        "sıcaklık normal"@,
        "rapor bekliyorum"@,
    ]
}

/// There are fourteen phrases.
pub proof fn law_phrases_are_these(p: int)
    requires
        0 <= p < 14,
    ensures
        engine::AUTO_PHRASES == 14,
        engine::phrase_text(p) == phrases()[p],
{
}

/// Where a station is connected, one connected station, and no other, says one
/// of the phrases to everyone: the line goes to the end of its chat and of the
/// merged one. Where none is, nothing happens.
pub proof fn law_auto_tick_command(
    s: engine::EngineState,
    after: engine::EngineState,
    acts: Seq<engine::ActionText>,
)
    requires
        s.wf(),
        s.responds(EngineCmd::AutoTick, after, acts),
    ensures
        (forall|j: int| 0 <= j < s.slots.len() ==> !(#[trigger] s.slots[j]).connected) ==> after == s
            && acts.len() == 0,
        (exists|j: int| 0 <= j < s.slots.len() && (#[trigger] s.slots[j]).connected) ==> {
            let i = s.at(acts[0]->SendChat_callsign);
            let line = chat::ChatText {
                from: acts[0]->SendChat_callsign,
                dst: "ALL"@,
                text: acts[0]->text,
                private: false,
                own: true,
            };
            &&& acts.len() == 1 && acts[0] is SendChat
            &&& acts[0]->SendChat_dst == "ALL"@
            &&& phrases().contains(acts[0]->text)
            &&& s.has(acts[0]->SendChat_callsign) && s.slots[i].connected
            &&& only_chat_differs(s, after, i)
            &&& ring::appended(s.slots[i].chat, after.slots[i].chat, line, 200)
            &&& ring::appended(s.net_chat, after.net_chat, line, 400)
            &&& after.auto_chat == s.auto_chat
        },
{
    if exists|j: int| 0 <= j < s.slots.len() && (#[trigger] s.slots[j]).connected {
        assert(s.any_connected());
        let (i, p) = choose|i: int, p: int|
            0 <= i < s.slots.len() && s.slots[i].connected && 0 <= p < engine::AUTO_PHRASES
                && #[trigger] s.auto_chats(i, p, after, acts);
        law_place_of_a_station(s, s.slots[i].callsign, i);
        law_phrases_are_these(p);
        assert(phrases()[p] == engine::phrase_text(p));
        lemma_own_chat(s, i, "ALL"@, engine::phrase_text(p));
    }
}

/// A station that starts is connected and has neither log nor chat; there is
/// one station more unless it took the place of another, and the merged chat
/// stays.
pub proof fn law_started_station_is_fresh(s: engine::EngineState, c: Seq<char>)
    requires
        s.wf(),
        c.len() > 0,
    ensures
        ({
            let t = s.with_station(c);
            let i = t.at(c);
            &&& t.has(c)
            &&& t.slots[i].callsign == c && t.slots[i].connected
            &&& t.slots[i].log.len() == 0 && t.slots[i].chat.len() == 0
            &&& t.slots.len() == if s.has(c) { s.slots.len() } else { s.slots.len() + 1 }
            &&& t.net_chat == s.net_chat
            &&& t.auto_chat == s.auto_chat
        }),
{
    law_started_station_is_found(s, c, c.push('x'));
    law_place_of_a_station(s, c, 0);
    if !s.has(c) {
        engine::lemma_rank(s, c);
    }
}

/// A link that goes up or down is noted for its station and changes nothing
/// else.
pub proof fn law_link_is_noted(s: engine::EngineState, c: Seq<char>, up: bool)
    requires
        s.wf(),
    ensures
        !s.has(c) ==> s.with_link(c, up) == s,
        s.has(c) ==> {
            let t = s.with_link(c, up);
            let i = s.at(c);
            &&& t.slots.len() == s.slots.len()
            &&& t.slots[i].connected == up
            &&& t.slots[i].callsign == c
            &&& t.slots[i].log == s.slots[i].log && t.slots[i].chat == s.slots[i].chat
            &&& forall|j: int|
                0 <= j < s.slots.len() && j != i ==> #[trigger] t.slots[j] == s.slots[j]
            &&& t.net_chat == s.net_chat && t.auto_chat == s.auto_chat
        },
{
    law_place_of_a_station(s, c, 0);
}

/// A message that a station receives goes to the end of its chat, whose former
/// lines stay; its log, its link and all other stations stay as they were.
/// The merged chat gets the message unless it was there lately.
pub proof fn law_received_chat_is_filed(
    s: engine::EngineState,
    c: Seq<char>,
    ev: engine::StationEvent,
)
    requires
        s.wf(),
        ev is Chat,
    ensures
        ({
            let t = s.with_event(c, ev);
            let private = ev->scope == chat::ChatScope::Private;
            let line = chat::ChatText {
                from: ev->from@,
                dst: if private {
                    "(özel)"@
                } else {
                    "ALL"@
                },
                text: ev->text@,
                private,
                own: false,
            };
            &&& s.has(c) ==> only_chat_differs(s, t, s.at(c)) && ring::appended(
                s.slots[s.at(c)].chat,
                t.slots[s.at(c)].chat,
                line,
                200,
            )
            &&& !s.has(c) ==> t.slots == s.slots
            &&& t.net_chat == s.net_chat || ring::appended(s.net_chat, t.net_chat, line, 400)
            &&& t.net_chat == chat::net_with_received(s.net_chat, line)
            &&& t.auto_chat == s.auto_chat
        }),
{
    law_place_of_a_station(s, c, 0);
    let line = chat::received_text(ev->from@, ev->scope, ev->text@);
    if s.has(c) {
        assert(s.slots[s.at(c)].bounded());
        chat::law_chat_appends(s.slots[s.at(c)].chat, line);
    }
    chat::law_net_chat_takes_a_message_once(s.net_chat, line, 0);
}

/// A line that a station reports for its log goes to the end of it, and
/// nothing else changes; anything else that it reports changes nothing.
pub proof fn law_reports_for_the_log(
    s: engine::EngineState,
    c: Seq<char>,
    ev: engine::StationEvent,
)
    requires
        s.wf(),
        !(ev is Chat),
    ensures
        ev is Other || !s.has(c) ==> s.with_event(c, ev) == s,
        s.has(c) ==> (ev matches engine::StationEvent::Log(line) ==> {
            let t = s.with_event(c, ev);
            let i = s.at(c);
            &&& t.slots.len() == s.slots.len()
            &&& ring::appended(s.slots[i].log, t.slots[i].log, line@, 300)
            &&& t.slots[i].callsign == c
            &&& t.slots[i].connected == s.slots[i].connected
            &&& t.slots[i].chat == s.slots[i].chat
            &&& forall|j: int|
                0 <= j < s.slots.len() && j != i ==> #[trigger] t.slots[j] == s.slots[j]
            &&& t.net_chat == s.net_chat && t.auto_chat == s.auto_chat
        }),
{
    law_place_of_a_station(s, c, 0);
    if let engine::StationEvent::Log(line) = ev {
        if s.has(c) {
            assert(s.slots[s.at(c)].bounded());
            ring::law_push_appends(s.slots[s.at(c)].log, line@, 300);
        }
    }
}

/// A report from the station that runs is filed as it is; a message from one
/// that no longer runs is filed in the merged chat.
pub proof fn law_reports_are_filed(
    s: engine::EngineState,
    c: Seq<char>,
    number: u64,
    ev: engine::StationEvent,
    other: Option<u64>,
)
    requires
        s.wf(),
    ensures
        s.with_report(c, number, Some(number), ev) == s.with_event(c, ev),
        other != Some(number) && ev is Chat ==> s.with_report(c, number, other, ev).net_chat
            == chat::net_with_received(
            s.net_chat,
            chat::received_text(ev->from@, ev->scope, ev->text@),
        ),
{
}

/// What a command says is what it holds.
pub proof fn law_commands_say_their_fields(
    a: String,
    b: String,
    c: String,
    path: std::path::PathBuf,
    mode: Mode,
    cfg: ChannelConfig,
    enabled: bool,
    interval_ms: u64,
)
    ensures
        (EngineCmd::AddStation { callsign: a, mode })@ == (engine::CmdText::AddStation {
            callsign: a@,
            mode,
        }),
        (EngineCmd::RemoveStation { callsign: a })@ == (engine::CmdText::RemoveStation {
            callsign: a@,
        }),
        (EngineCmd::Chat { callsign: a, dst: b, text: c })@ == (engine::CmdText::Chat {
            callsign: a@,
            dst: b@,
            text: c@,
        }),
        (EngineCmd::ChatAll { dst: b, text: c })@ == (engine::CmdText::ChatAll {
            dst: b@,
            text: c@,
        }),
        (EngineCmd::SendFile { callsign: a, path, dst: b })@ == (engine::CmdText::SendFile {
            callsign: a@,
            path,
            dst: b@,
        }),
        (EngineCmd::SendFileAll { path, dst: b })@ == (engine::CmdText::SendFileAll {
            path,
            dst: b@,
        }),
        (EngineCmd::Drop { callsign: a })@ == (engine::CmdText::Drop { callsign: a@ }),
        (EngineCmd::Reconnect { callsign: a })@ == (engine::CmdText::Reconnect { callsign: a@ }),
        EngineCmd::SetChannel(cfg)@ == engine::CmdText::SetChannel(cfg),
        (EngineCmd::SetAutoChat { enabled, interval_ms })@ == (engine::CmdText::SetAutoChat {
            enabled,
            interval_ms,
        }),
        EngineCmd::AutoTick@ == engine::CmdText::AutoTick,
        engine::opt_cmd(Some(EngineCmd::AutoTick)) == Some(engine::CmdText::AutoTick),
        engine::opt_cmd(None) is None,
{
}

/// An optional command says what the command says.
pub proof fn law_optional_command_says(cmd: EngineCmd)
    ensures
        engine::opt_cmd(Some(cmd)) == Some(cmd@),
{
}

/// What an action says is what it holds.
pub proof fn law_actions_say_their_fields(
    a: String,
    b: String,
    c: String,
    path: std::path::PathBuf,
    mode: Mode,
    cfg: ChannelConfig,
    interval_ms: u64,
    acts: Seq<Action>,
    i: int,
)
    ensures
        (Action::StartStation { callsign: a, requested: b, mode })@ == (
        engine::ActionText::StartStation { callsign: a@, requested: b@, mode }),
        (Action::StopStation { callsign: a })@ == (engine::ActionText::StopStation {
            callsign: a@,
        }),
        (Action::SendChat { callsign: a, dst: b, text: c })@ == (engine::ActionText::SendChat {
            callsign: a@,
            dst: b@,
            text: c@,
        }),
        (Action::SendFile { callsign: a, path, dst: b })@ == (engine::ActionText::SendFile {
            callsign: a@,
            path,
            dst: b@,
        }),
        (Action::DropLink { callsign: a })@ == (engine::ActionText::DropLink { callsign: a@ }),
        (Action::Reconnect { callsign: a })@ == (engine::ActionText::Reconnect { callsign: a@ }),
        Action::SetChannel(cfg)@ == engine::ActionText::SetChannel(cfg),
        Action::StopAutoChat@ == engine::ActionText::StopAutoChat,
        (Action::StartAutoChat { interval_ms })@ == (engine::ActionText::StartAutoChat {
            interval_ms,
        }),
        engine::action_texts(acts).len() == acts.len(),
        0 <= i < acts.len() ==> engine::action_texts(acts)[i] == acts[i]@,
{
}

} // verus!
