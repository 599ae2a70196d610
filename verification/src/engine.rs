//! The engine: the stations of this program, their logs and chats, and what
//! each command makes them do.
//!
//! The engine decides; whoever runs it performs the [`Action`]s on the real
//! stations and reports back what became of them.

use std::collections::VecDeque;
use std::path::PathBuf;
use vstd::prelude::*;

use crate::chat::{
    copy_chat, own_line, push_chat, push_recv_chat, received_line, ChatLine, ChatScope, CHAT_CAP,
    NET_CHAT_CAP,
};
use crate::events::{copy_lines, push_line};
use crate::random::choose_one;
use crate::station::{ChannelConfig, Mode};
use crate::text::{text_less, to_uppercase, trim};
#[allow(unused_imports)]
use crate::{chat, events, ring, text};

verus! {

/// Lines that the log of a station keeps.
pub const STATION_LOG_CAP: usize = 300;

/// The shortest interval of the automatic chat, in milliseconds.
pub const MIN_AUTO_CHAT_MS: u64 = 500;

/// The number of phrases of the automatic chat.
pub const AUTO_PHRASES: usize = 14;

/// A path of the file system.
#[verifier::external_type_specification]
#[verifier::external_body]
pub struct ExPathBuf(std::path::PathBuf);

/// Of `PathBuf::clone` is claimed that the copy is the same path.
pub assume_specification[ <std::path::PathBuf as Clone>::clone ](path: &std::path::PathBuf) -> (r:
    std::path::PathBuf)
    ensures
        r == *path,
;

/// A command to the engine.
#[derive(Debug, Clone)]
pub enum EngineCmd {
    /// Starts a station.
    AddStation { callsign: String, mode: Mode },
    /// Removes a station.
    RemoveStation { callsign: String },
    /// A station sends a message.
    Chat { callsign: String, dst: String, text: String },
    /// Every connected station sends the same message.
    ChatAll { dst: String, text: String },
    /// A station sends a file.
    SendFile { callsign: String, path: PathBuf, dst: String },
    /// Every connected station sends the same file.
    SendFileAll { path: PathBuf, dst: String },
    /// A station drops its link.
    Drop { callsign: String },
    /// A station takes up its link again.
    Reconnect { callsign: String },
    /// Sets the physics of the channel.
    SetChannel(ChannelConfig),
    /// Switches the automatic chat: a station drawn by chance writes to `ALL`
    /// every `interval_ms`.
    SetAutoChat { enabled: bool, interval_ms: u64 },
    /// The timer of the automatic chat has run out.
    AutoTick,
}

/// What an [`EngineCmd`] says.
pub enum CmdText {
    AddStation { callsign: Seq<char>, mode: Mode },
    RemoveStation { callsign: Seq<char> },
    Chat { callsign: Seq<char>, dst: Seq<char>, text: Seq<char> },
    ChatAll { dst: Seq<char>, text: Seq<char> },
    SendFile { callsign: Seq<char>, path: PathBuf, dst: Seq<char> },
    SendFileAll { path: PathBuf, dst: Seq<char> },
    Drop { callsign: Seq<char> },
    Reconnect { callsign: Seq<char> },
    SetChannel(ChannelConfig),
    SetAutoChat { enabled: bool, interval_ms: u64 },
    AutoTick,
}

impl View for EngineCmd {
    type V = CmdText;

    open spec fn view(&self) -> CmdText {
        match *self {
            EngineCmd::AddStation { callsign, mode } => CmdText::AddStation {
                callsign: callsign@,
                mode,
            },
            EngineCmd::RemoveStation { callsign } => CmdText::RemoveStation {
                callsign: callsign@,
            },
            EngineCmd::Chat { callsign, dst, text } => CmdText::Chat {
                callsign: callsign@,
                dst: dst@,
                text: text@,
            },
            EngineCmd::ChatAll { dst, text } => CmdText::ChatAll { dst: dst@, text: text@ },
            EngineCmd::SendFile { callsign, path, dst } => CmdText::SendFile {
                callsign: callsign@,
                path,
                dst: dst@,
            },
            EngineCmd::SendFileAll { path, dst } => CmdText::SendFileAll { path, dst: dst@ },
            EngineCmd::Drop { callsign } => CmdText::Drop { callsign: callsign@ },
            EngineCmd::Reconnect { callsign } => CmdText::Reconnect { callsign: callsign@ },
            EngineCmd::SetChannel(cfg) => CmdText::SetChannel(cfg),
            EngineCmd::SetAutoChat { enabled, interval_ms } => CmdText::SetAutoChat {
                enabled,
                interval_ms,
            },
            EngineCmd::AutoTick => CmdText::AutoTick,
        }
    }
}

/// What an optional command says.
pub open spec fn opt_cmd(cmd: Option<EngineCmd>) -> Option<CmdText> {
    match cmd {
        Some(c) => Some(c@),
        None => None,
    }
}

/// What the engine wants done.
#[derive(Debug)]
pub enum Action {
    /// Connect under the name `requested` and start a station `callsign`.
    StartStation { callsign: String, requested: String, mode: Mode },
    /// Let go of a station.
    StopStation { callsign: String },
    /// Let a station transmit a message.
    SendChat { callsign: String, dst: String, text: String },
    /// Let a station transmit a file.
    SendFile { callsign: String, path: PathBuf, dst: String },
    /// Let a station drop its link.
    DropLink { callsign: String },
    /// Let a station take up its link again.
    Reconnect { callsign: String },
    /// Set the physics of the channel.
    SetChannel(ChannelConfig),
    /// Stop the timer of the automatic chat.
    StopAutoChat,
    /// Start the timer of the automatic chat.
    StartAutoChat { interval_ms: u64 },
}

/// What an [`Action`] says.
pub enum ActionText {
    StartStation { callsign: Seq<char>, requested: Seq<char>, mode: Mode },
    StopStation { callsign: Seq<char> },
    SendChat { callsign: Seq<char>, dst: Seq<char>, text: Seq<char> },
    SendFile { callsign: Seq<char>, path: PathBuf, dst: Seq<char> },
    DropLink { callsign: Seq<char> },
    Reconnect { callsign: Seq<char> },
    SetChannel(ChannelConfig),
    StopAutoChat,
    StartAutoChat { interval_ms: u64 },
}

impl View for Action {
    type V = ActionText;

    open spec fn view(&self) -> ActionText {
        match *self {
            Action::StartStation { callsign, requested, mode } => ActionText::StartStation {
                callsign: callsign@,
                requested: requested@,
                mode,
            },
            Action::StopStation { callsign } => ActionText::StopStation { callsign: callsign@ },
            Action::SendChat { callsign, dst, text } => ActionText::SendChat {
                callsign: callsign@,
                dst: dst@,
                text: text@,
            },
            Action::SendFile { callsign, path, dst } => ActionText::SendFile {
                callsign: callsign@,
                path,
                dst: dst@,
            },
            Action::DropLink { callsign } => ActionText::DropLink { callsign: callsign@ },
            Action::Reconnect { callsign } => ActionText::Reconnect { callsign: callsign@ },
            Action::SetChannel(cfg) => ActionText::SetChannel(cfg),
            Action::StopAutoChat => ActionText::StopAutoChat,
            Action::StartAutoChat { interval_ms } => ActionText::StartAutoChat { interval_ms },
        }
    }
}

/// What a list of actions says.
pub open spec fn action_texts(s: Seq<Action>) -> Seq<ActionText> {
    Seq::new(s.len(), |i: int| s[i]@)
}

/// A station of this program.
pub struct StationSlot {
    callsign: String,
    connected: bool,
    log: VecDeque<String>,
    chat: VecDeque<ChatLine>,
}

/// What is kept for a station.
pub struct SlotState {
    /// Its call sign.
    pub callsign: Seq<char>,
    /// Whether its link was up when last reported.
    pub connected: bool,
    /// Its log.
    pub log: Seq<Seq<char>>,
    /// Its chat.
    pub chat: Seq<chat::ChatText>,
}

impl View for StationSlot {
    type V = SlotState;

    closed spec fn view(&self) -> SlotState {
        SlotState {
            callsign: self.callsign@,
            connected: self.connected,
            log: events::texts(self.log@),
            chat: chat::chat_texts(self.chat@),
        }
    }
}

/// The engine's stations in the order of their call signs, the merged chat of
/// the net, and whether the automatic chat runs.
pub struct Engine {
    slots: Vec<StationSlot>,
    net_chat: VecDeque<ChatLine>,
    auto_chat: bool,
}

/// What an [`Engine`] holds.
pub struct EngineState {
    /// The stations, in the order of their call signs.
    pub slots: Seq<SlotState>,
    /// The merged chat of the net.
    pub net_chat: Seq<chat::ChatText>,
    /// Whether the automatic chat runs.
    pub auto_chat: bool,
}

/// The states of a list of stations.
pub open spec fn slot_states(s: Seq<StationSlot>) -> Seq<SlotState> {
    Seq::new(s.len(), |i: int| s[i]@)
}

impl View for Engine {
    type V = EngineState;

    closed spec fn view(&self) -> EngineState {
        EngineState {
            slots: slot_states(self.slots@),
            net_chat: chat::chat_texts(self.net_chat@),
            auto_chat: self.auto_chat,
        }
    }
}

/// The call sign of a station that is asked for as `raw`.
pub open spec fn call_of(raw: Seq<char>) -> Seq<char> {
    text::uppercase(text::trimmed(raw))
}

/// A phrase of the automatic chat.
pub open spec fn phrase_text(i: int) -> Seq<char> {
    if i == 0 { "test test"@ }
    else if i == 1 { "sinyal 59"@ }
    else if i == 2 { "roger"@ }
    else if i == 3 { "QSL"@ }
    else if i == 4 { "kanal nasıl?"@ }
    else if i == 5 { "waterfall temiz"@ }
    else if i == 6 { "beklemede"@ }
    else if i == 7 { "grup çağrısı"@ }
    else if i == 8 { "buradayım"@ }
    else if i == 9 { "kopyala"@ }
    else if i == 10 { "anlaşıldı"@ }
    else if i == 11 { "10-4"@ }
    else if i == 12 { "sıcaklık normal"@ }
    else { "rapor bekliyorum"@ }
}

/// The place that keeps the order: behind every station before `c`.
pub open spec fn rank(slots: Seq<SlotState>, c: Seq<char>) -> int
    decreases slots.len(),
{
    if slots.len() == 0 {
        0
    } else if text::text_lt(slots.last().callsign, c) {
        slots.len() as int
    } else {
        rank(slots.drop_last(), c)
    }
}

/// A station that has just started.
pub open spec fn fresh_slot(c: Seq<char>) -> SlotState {
    SlotState { callsign: c, connected: true, log: Seq::empty(), chat: Seq::empty() }
}

impl SlotState {
    /// The logs of the station are within their sizes.
    pub open spec fn bounded(self) -> bool {
        &&& self.log.len() <= STATION_LOG_CAP
        &&& self.chat.len() <= CHAT_CAP
    }
}

impl EngineState {
    /// Each station has a call sign, they stand in the order of their call
    /// signs, so that none occurs twice, and no log exceeds its size.
    pub open spec fn wf(self) -> bool {
        &&& forall|i: int, j: int|
            0 <= i < j < self.slots.len() ==> text::text_lt(
                #[trigger] self.slots[i].callsign,
                #[trigger] self.slots[j].callsign,
            )
        &&& forall|i: int|
            0 <= i < self.slots.len() ==> (#[trigger] self.slots[i]).bounded()
                && self.slots[i].callsign.len() > 0
        &&& self.net_chat.len() <= NET_CHAT_CAP
    }

    /// Whether `i` is the place of the station `c`.
    pub open spec fn is_at(self, i: int, c: Seq<char>) -> bool {
        0 <= i < self.slots.len() && self.slots[i].callsign == c
    }

    /// Whether there is a station `c`.
    pub open spec fn has(self, c: Seq<char>) -> bool {
        exists|i: int| #[trigger] self.is_at(i, c)
    }

    /// The place of the station `c`.
    pub open spec fn at(self, c: Seq<char>) -> int {
        choose|i: int| #[trigger] self.is_at(i, c)
    }

    /// The state after station `i` wrote `text` to `dst`: the line stands in
    /// its own chat and in the merged one.
    pub open spec fn with_own_chat(self, i: int, dst: Seq<char>, text: Seq<char>) -> EngineState {
        let line = chat::own_text(self.slots[i].callsign, dst, text);
        EngineState {
            slots: self.slots.update(
                i,
                SlotState { chat: chat::with_line(self.slots[i].chat, line), ..self.slots[i] },
            ),
            net_chat: chat::net_with_own(self.net_chat, line),
            ..self
        }
    }

    /// The state after each connected station among the first `n` wrote
    /// `text` to `dst`, one after the other.
    pub open spec fn with_chat_all(self, dst: Seq<char>, text: Seq<char>, n: nat) -> EngineState
        decreases n,
    {
        if n == 0 {
            self
        } else {
            let s = self.with_chat_all(dst, text, (n - 1) as nat);
            if self.slots[n - 1].connected {
                s.with_own_chat(n - 1, dst, text)
            } else {
                s
            }
        }
    }

    /// The messages that the connected stations among the first `n` transmit.
    pub open spec fn chat_all_actions(
        self,
        dst: Seq<char>,
        text: Seq<char>,
        n: nat,
    ) -> Seq<ActionText>
        decreases n,
    {
        if n == 0 {
            Seq::empty()
        } else {
            let s = self.chat_all_actions(dst, text, (n - 1) as nat);
            if self.slots[n - 1].connected {
                s.push(
                    ActionText::SendChat { callsign: self.slots[n - 1].callsign, dst, text },
                )
            } else {
                s
            }
        }
    }

    /// The files that the connected stations among the first `n` transmit.
    pub open spec fn file_all_actions(self, path: PathBuf, dst: Seq<char>, n: nat) -> Seq<
        ActionText,
    >
        decreases n,
    {
        if n == 0 {
            Seq::empty()
        } else {
            let s = self.file_all_actions(path, dst, (n - 1) as nat);
            if self.slots[n - 1].connected {
                s.push(
                    ActionText::SendFile { callsign: self.slots[n - 1].callsign, path, dst },
                )
            } else {
                s
            }
        }
    }

    /// Whether the automatic chat of station `i` with phrase `p` leads from
    /// `self` to `after` and `acts`.
    pub open spec fn auto_chats(
        self,
        i: int,
        p: int,
        after: EngineState,
        acts: Seq<ActionText>,
    ) -> bool {
        &&& after == self.with_own_chat(i, "ALL"@, phrase_text(p))
        &&& acts == seq![
            ActionText::SendChat {
                callsign: self.slots[i].callsign,
                dst: "ALL"@,
                text: phrase_text(p),
            },
        ]
    }

    /// Whether some station is connected.
    pub open spec fn any_connected(self) -> bool {
        exists|i: int| 0 <= i < self.slots.len() && (#[trigger] self.slots[i]).connected
    }

    /// The state after a command that chance plays no part in.
    pub open spec fn after(self, cmd: EngineCmd) -> EngineState {
        match cmd {
            EngineCmd::AddStation { .. } => self,
            EngineCmd::RemoveStation { callsign } => {
                let c = text::uppercase(callsign@);
                if self.has(c) {
                    EngineState { slots: self.slots.remove(self.at(c)), ..self }
                } else {
                    self
                }
            },
            EngineCmd::Chat { callsign, dst, text } => {
                let c = text::uppercase(callsign@);
                if self.has(c) {
                    self.with_own_chat(self.at(c), dst@, text@)
                } else {
                    self
                }
            },
            EngineCmd::ChatAll { dst, text } => self.with_chat_all(dst@, text@, self.slots.len()),
            EngineCmd::SetAutoChat { enabled, .. } => EngineState { auto_chat: enabled, ..self },
            _ => self,
        }
    }

    /// What a command that chance plays no part in wants done.
    pub open spec fn actions(self, cmd: EngineCmd) -> Seq<ActionText> {
        match cmd {
            EngineCmd::AddStation { callsign, mode } => {
                let c = call_of(callsign@);
                if c.len() == 0 || self.has(c) {
                    Seq::empty()
                } else {
                    seq![ActionText::StartStation { callsign: c, requested: callsign@, mode }]
                }
            },
            EngineCmd::RemoveStation { callsign } => {
                let c = text::uppercase(callsign@);
                if self.has(c) {
                    seq![ActionText::StopStation { callsign: c }]
                } else {
                    Seq::empty()
                }
            },
            EngineCmd::Chat { callsign, dst, text } => {
                let c = text::uppercase(callsign@);
                if self.has(c) {
                    seq![ActionText::SendChat { callsign: c, dst: dst@, text: text@ }]
                } else {
                    Seq::empty()
                }
            },
            EngineCmd::ChatAll { dst, text } => self.chat_all_actions(
                dst@,
                text@,
                self.slots.len(),
            ),
            EngineCmd::SendFile { callsign, path, dst } => {
                let c = text::uppercase(callsign@);
                if self.has(c) {
                    seq![ActionText::SendFile { callsign: c, path, dst: dst@ }]
                } else {
                    Seq::empty()
                }
            },
            EngineCmd::SendFileAll { path, dst } => self.file_all_actions(
                path,
                dst@,
                self.slots.len(),
            ),
            EngineCmd::Drop { callsign } => {
                let c = text::uppercase(callsign@);
                if self.has(c) {
                    seq![ActionText::DropLink { callsign: c }]
                } else {
                    Seq::empty()
                }
            },
            EngineCmd::Reconnect { callsign } => {
                let c = text::uppercase(callsign@);
                if self.has(c) {
                    seq![ActionText::Reconnect { callsign: c }]
                } else {
                    Seq::empty()
                }
            },
            EngineCmd::SetChannel(_) => Seq::empty(),
            EngineCmd::SetAutoChat { enabled, interval_ms } => {
                let stop = if self.auto_chat {
                    seq![ActionText::StopAutoChat]
                } else {
                    Seq::empty()
                };
                if enabled {
                    stop.push(
                        ActionText::StartAutoChat {
                            interval_ms: if interval_ms < MIN_AUTO_CHAT_MS {
                                MIN_AUTO_CHAT_MS
                            } else {
                                interval_ms
                            },
                        },
                    )
                } else {
                    stop
                }
            },
            EngineCmd::AutoTick => Seq::empty(),
        }
    }

    /// Whether a command may lead from `self` to `after` and `acts`. Only the
    /// automatic chat leaves a choice: which connected station writes which
    /// phrase.
    pub open spec fn responds(
        self,
        cmd: EngineCmd,
        after: EngineState,
        acts: Seq<ActionText>,
    ) -> bool {
        if cmd is AutoTick && self.any_connected() {
            exists|i: int, p: int|
                0 <= i < self.slots.len() && self.slots[i].connected && 0 <= p < AUTO_PHRASES
                    && #[trigger] self.auto_chats(i, p, after, acts)
        } else {
            after == self.after(cmd) && acts == self.actions(cmd)
        }
    }
}

/// The order of the call signs leaves a station only one place.
pub proof fn lemma_unique_place(s: EngineState, i: int, c: Seq<char>)
    requires
        s.wf(),
        s.is_at(i, c),
    ensures
        s.has(c),
        s.at(c) == i,
{
    let j = s.at(c);
    assert(s.is_at(j, c));
    if i < j {
        text::lemma_text_lt_irreflexive(c);
        assert(text::text_lt(s.slots[i].callsign, s.slots[j].callsign));
    } else if j < i {
        text::lemma_text_lt_irreflexive(c);
        assert(text::text_lt(s.slots[j].callsign, s.slots[i].callsign));
    }
}

/// A phrase of the automatic chat.
pub fn auto_phrase(i: usize) -> (r: &'static str)
    ensures
        r@ == phrase_text(i as int),
{
    match i {
        0 => "test test",
        1 => "sinyal 59",
        2 => "roger",
        3 => "QSL",
        4 => "kanal nasıl?",
        5 => "waterfall temiz",
        6 => "beklemede",
        7 => "grup çağrısı",
        8 => "buradayım",
        9 => "kopyala",
        10 => "anlaşıldı",
        11 => "10-4",
        12 => "sıcaklık normal",
        _ => "rapor bekliyorum",
    }
}

impl Engine {
    /// An engine without stations.
    pub fn new() -> (r: Self)
        ensures
            r@.wf(),
            r@.slots == Seq::<SlotState>::empty(),
            r@.net_chat == Seq::<chat::ChatText>::empty(),
            !r@.auto_chat,
    {
        let r = Engine { slots: Vec::new(), net_chat: VecDeque::new(), auto_chat: false };
        assert(r@.slots =~= Seq::<SlotState>::empty());
        assert(r@.net_chat =~= Seq::<chat::ChatText>::empty());
        r
    }

    /// The place of the station `c`.
    fn find(&self, c: &str) -> (r: Option<usize>)
        requires
            self@.wf(),
        ensures
            match r {
                Some(i) => self@.is_at(i as int, c@) && self@.has(c@) && self@.at(c@) == i,
                None => !self@.has(c@),
            },
    {
        let mut i: usize = 0;
        while i < self.slots.len()
            invariant
                i <= self.slots@.len(),
                self@.wf(),
                forall|j: int| 0 <= j < i ==> !self@.is_at(j, c@),
            decreases self.slots@.len() - i,
        {
            if crate::text::same_text(self.slots[i].callsign.as_str(), c) {
                proof {
                    lemma_unique_place(self@, i as int, c@);
                }
                return Some(i);
            }
            i = i + 1;
        }
        None
    }

    /// Station `i` writes a message: a line in its chat and in the merged
    /// one, and the message to transmit.
    fn push_own_chat(&mut self, i: usize, dst: &str, text: &str) -> (r: Action)
        requires
            old(self)@.wf(),
            i < old(self)@.slots.len(),
        ensures
            final(self)@ == old(self)@.with_own_chat(i as int, dst@, text@),
            final(self)@.wf(),
            r@ == (ActionText::SendChat {
                callsign: old(self)@.slots[i as int].callsign,
                dst: dst@,
                text: text@,
            }),
    {
        let ghost before = self@;
        let from = self.slots[i].callsign.clone();
        let line = own_line(from.as_str(), dst, text);
        let copy = line.clone();
        push_chat(&mut self.slots[i].chat, copy, CHAT_CAP);
        push_chat(&mut self.net_chat, line, NET_CHAT_CAP);
        proof {
            let after = before.with_own_chat(i as int, dst@, text@);
            assert(self@.slots =~= after.slots);
            assert(self@.net_chat == after.net_chat);
        }
        Action::SendChat { callsign: from, dst: dst.to_string(), text: text.to_string() }
    }

    /// Every connected station writes the same message.
    fn chat_all(&mut self, dst: &str, text: &str) -> (r: Vec<Action>)
        requires
            old(self)@.wf(),
        ensures
            final(self)@ == old(self)@.with_chat_all(dst@, text@, old(self)@.slots.len()),
            final(self)@.wf(),
            action_texts(r@) == old(self)@.chat_all_actions(dst@, text@, old(self)@.slots.len()),
    {
        let ghost before = self@;
        let n: usize = self.slots.len();
        let mut r: Vec<Action> = Vec::new();
        let mut i: usize = 0;
        assert(action_texts(r@) =~= Seq::<ActionText>::empty());
        while i < n
            invariant
                i <= n,
                n == before.slots.len(),
                n == self@.slots.len(),
                self@.wf(),
                self@ == before.with_chat_all(dst@, text@, i as nat),
                action_texts(r@) == before.chat_all_actions(dst@, text@, i as nat),
                forall|j: int|
                    0 <= j < n ==> (#[trigger] self@.slots[j]).connected
                        == before.slots[j].connected && self@.slots[j].callsign
                        == before.slots[j].callsign,
            decreases n - i,
        {
            assert(self@.slots[i as int].connected == before.slots[i as int].connected);
            if self.slots[i].connected {
                let ghost acts = action_texts(r@);
                let a = self.push_own_chat(i, dst, text);
                r.push(a);
                assert(action_texts(r@) =~= acts.push(a@));
            }
            i = i + 1;
        }
        r
    }

    /// Every connected station sends the same file.
    fn send_file_all(&self, path: PathBuf, dst: &str) -> (r: Vec<Action>)
        ensures
            action_texts(r@) == self@.file_all_actions(path, dst@, self@.slots.len()),
    {
        let mut r: Vec<Action> = Vec::new();
        let mut i: usize = 0;
        assert(action_texts(r@) =~= Seq::<ActionText>::empty());
        while i < self.slots.len()
            invariant
                i <= self.slots@.len(),
                action_texts(r@) == self@.file_all_actions(path, dst@, i as nat),
            decreases self.slots@.len() - i,
        {
            let slot = &self.slots[i];
            assert(self@.slots[i as int] == slot@);
            if slot.connected {
                let ghost acts = action_texts(r@);
                let a = Action::SendFile {
                    callsign: slot.callsign.clone(),
                    path: path.clone(),
                    dst: dst.to_string(),
                };
                r.push(a);
                assert(action_texts(r@) =~= acts.push(a@));
            }
            i = i + 1;
        }
        r
    }

    /// The places of the connected stations.
    fn live_stations(&self) -> (r: Vec<usize>)
        ensures
            self@.slots.len() <= usize::MAX,
            forall|x: usize| #[trigger]
                r@.contains(x) <==> x < self@.slots.len() && self@.slots[x as int].connected,
    {
        let mut r: Vec<usize> = Vec::new();
        let mut i: usize = 0;
        while i < self.slots.len()
            invariant
                i <= self.slots@.len(),
                forall|x: usize| #[trigger]
                    r@.contains(x) <==> x < i && self@.slots[x as int].connected,
            decreases self.slots@.len() - i,
        {
            assert(self@.slots[i as int] == self.slots@[i as int]@);
            let ghost before = r@;
            if self.slots[i].connected {
                r.push(i);
                assert forall|x: usize| #[trigger] r@.contains(x) <==> x <= i
                    && self@.slots[x as int].connected by {
                    assert(r@[before.len() as int] == i);
                    if before.contains(x) {
                        let k = choose|k: int| 0 <= k < before.len() && before[k] == x;
                        assert(r@[k] == x);
                    }
                    if r@.contains(x) && x != i {
                        let k = choose|k: int| 0 <= k < r@.len() && r@[k] == x;
                        assert(before[k] == x);
                    }
                }
            }
            i = i + 1;
        }
        r
    }

    /// Station `i` writes phrase `p` to `ALL`, as the automatic chat does.
    pub fn auto_chat_with(&mut self, i: usize, p: usize) -> (r: Action)
        requires
            old(self)@.wf(),
            i < old(self)@.slots.len(),
        ensures
            final(self)@.wf(),
            old(self)@.auto_chats(i as int, p as int, final(self)@, seq![r@]),
    {
        self.push_own_chat(i, "ALL", auto_phrase(p))
    }

    /// The automatic chat: a connected station drawn by chance writes a phrase
    /// drawn by chance; nothing happens where none is connected.
    pub fn auto_tick(&mut self) -> (r: Vec<Action>)
        requires
            old(self)@.wf(),
        ensures
            final(self)@.wf(),
            old(self)@.responds(EngineCmd::AutoTick, final(self)@, action_texts(r@)),
    {
        let ghost before = self@;
        let mut r: Vec<Action> = Vec::new();
        assert(action_texts(r@) =~= Seq::<ActionText>::empty());
        let live = self.live_stations();
        match choose_one(live.as_slice()) {
            Some(i) => {
                assert(live@.contains(i));
                assert(before.slots[i as int].connected);
                let p: usize = pick_phrase();
                let a = self.auto_chat_with(i, p);
                r.push(a);
                assert(action_texts(r@) =~= seq![a@]);
                assert(before.auto_chats(i as int, p as int, self@, action_texts(r@)));
            },
            None => {
                assert(!before.any_connected()) by {
                    if before.any_connected() {
                        let i = choose|i: int|
                            0 <= i < before.slots.len() && (#[trigger] before.slots[i]).connected;
                        assert(live@.contains(i as usize));
                    }
                }
            },
        }
        r
    }

    /// Carries out a command to the stations. What is to be done with the
    /// real stations is returned; a station that is asked for joins the
    /// engine with [`Engine::station_started`].
    pub fn handle_station_cmd(&mut self, cmd: EngineCmd) -> (acts: Vec<Action>)
        requires
            old(self)@.wf(),
        ensures
            final(self)@.wf(),
            old(self)@.responds(cmd, final(self)@, action_texts(acts@)),
    {
        let ghost before = self@;
        let mut acts: Vec<Action> = Vec::new();
        assert(action_texts(acts@) =~= Seq::<ActionText>::empty());
        match cmd {
            EngineCmd::AddStation { callsign, mode } => {
                match self.admit_station(callsign.as_str()) {
                    Some(c) => {
                        acts.push(Action::StartStation { callsign: c, requested: callsign, mode });
                    },
                    None => {},
                }
            },
            EngineCmd::RemoveStation { callsign } => {
                let c = to_uppercase(callsign.as_str());
                match self.find(c.as_str()) {
                    Some(i) => {
                        self.slots.remove(i);
                        assert(self@.slots =~= before.slots.remove(i as int));
                        acts.push(Action::StopStation { callsign: c });
                    },
                    None => {},
                }
            },
            EngineCmd::Chat { callsign, dst, text } => {
                let c = to_uppercase(callsign.as_str());
                match self.find(c.as_str()) {
                    Some(i) => {
                        let a = self.push_own_chat(i, dst.as_str(), text.as_str());
                        acts.push(a);
                    },
                    None => {},
                }
            },
            EngineCmd::ChatAll { dst, text } => {
                acts = self.chat_all(dst.as_str(), text.as_str());
            },
            EngineCmd::SendFile { callsign, path, dst } => {
                let c = to_uppercase(callsign.as_str());
                match self.find(c.as_str()) {
                    Some(_) => {
                        acts.push(Action::SendFile { callsign: c, path, dst });
                    },
                    None => {},
                }
            },
            EngineCmd::SendFileAll { path, dst } => {
                acts = self.send_file_all(path, dst.as_str());
            },
            EngineCmd::Drop { callsign } => {
                let c = to_uppercase(callsign.as_str());
                match self.find(c.as_str()) {
                    Some(_) => {
                        acts.push(Action::DropLink { callsign: c });
                    },
                    None => {},
                }
            },
            EngineCmd::Reconnect { callsign } => {
                let c = to_uppercase(callsign.as_str());
                match self.find(c.as_str()) {
                    Some(_) => {
                        acts.push(Action::Reconnect { callsign: c });
                    },
                    None => {},
                }
            },
            EngineCmd::SetChannel(_) => {},
            EngineCmd::SetAutoChat { enabled, interval_ms } => {
                if self.auto_chat {
                    acts.push(Action::StopAutoChat);
                }
                if enabled {
                    acts.push(
                        Action::StartAutoChat {
                            interval_ms: if interval_ms < MIN_AUTO_CHAT_MS {
                                MIN_AUTO_CHAT_MS
                            } else {
                                interval_ms
                            },
                        },
                    );
                }
                self.auto_chat = enabled;
            },
            EngineCmd::AutoTick => {
                acts = self.auto_tick();
            },
        }
        assert(!(cmd is AutoTick) ==> action_texts(acts@) =~= before.actions(cmd));
        acts
    }

    /// The call sign under which a station that is asked for may start:
    /// trimmed and in capital letters. There is none where that is empty or
    /// taken.
    pub fn admit_station(&self, callsign: &str) -> (r: Option<String>)
        requires
            self@.wf(),
        ensures
            events::opt_text(r) == if call_of(callsign@).len() == 0 || self@.has(
                call_of(callsign@),
            ) {
                None
            } else {
                Some(call_of(callsign@))
            },
    {
        let c = to_uppercase(trim(callsign));
        if c.as_str().is_empty() {
            return None;
        }
        match self.find(c.as_str()) {
            Some(_) => None,
            None => Some(c),
        }
    }
}

/// What a station reports.
pub enum StationEvent {
    /// A line for its log.
    Log(String),
    /// A message that it received.
    Chat { from: String, scope: ChatScope, text: String },
    /// Something that neither log nor chat shows.
    Other,
}

/// How the engine is run.
#[derive(Debug, Clone, Copy, PartialEq, Eq, Structural)]
pub enum EngineMode {
    /// Channel and stations in one program.
    AllInOne,
    /// The channel alone; stations connect from elsewhere.
    ChannelHost,
    /// Stations on a channel elsewhere.
    Client,
    /// A listener on a channel elsewhere.
    Monitor,
}

impl EngineState {
    /// The state once a station has started: it takes its place in the order,
    /// or that of a station with the same call sign.
    pub open spec fn with_station(self, c: Seq<char>) -> EngineState {
        if self.has(c) {
            EngineState { slots: self.slots.update(self.at(c), fresh_slot(c)), ..self }
        } else {
            EngineState { slots: self.slots.insert(rank(self.slots, c), fresh_slot(c)), ..self }
        }
    }

    /// The state once the link of a station is known to be up or down.
    pub open spec fn with_link(self, c: Seq<char>, up: bool) -> EngineState {
        if self.has(c) {
            let i = self.at(c);
            EngineState {
                slots: self.slots.update(i, SlotState { connected: up, ..self.slots[i] }),
                ..self
            }
        } else {
            self
        }
    }

    /// The state after the station `c` reported an event. The merged chat
    /// takes a message even where the station is gone.
    pub open spec fn with_event(self, c: Seq<char>, ev: StationEvent) -> EngineState {
        match ev {
            StationEvent::Log(line) => if self.has(c) {
                let i = self.at(c);
                EngineState {
                    slots: self.slots.update(
                        i,
                        SlotState {
                            log: ring::newest(
                                self.slots[i].log.push(line@),
                                STATION_LOG_CAP as nat,
                            ),
                            ..self.slots[i]
                        },
                    ),
                    ..self
                }
            } else {
                self
            },
            StationEvent::Chat { from, scope, text } => {
                let line = chat::received_text(from@, scope, text@);
                let net_chat = chat::net_with_received(self.net_chat, line);
                if self.has(c) {
                    let i = self.at(c);
                    EngineState {
                        slots: self.slots.update(
                            i,
                            SlotState {
                                chat: chat::with_line(self.slots[i].chat, line),
                                ..self.slots[i]
                            },
                        ),
                        net_chat,
                        ..self
                    }
                } else {
                    EngineState { net_chat, ..self }
                }
            },
            StationEvent::Other => self,
        }
    }

    /// The state after a report from the station that was started under `c`
    /// with the given number, when the number of the one that now runs under
    /// `c` is `running`. No station has the empty call sign, so that a report
    /// from one that no longer runs reaches the merged chat alone.
    pub open spec fn with_report(
        self,
        c: Seq<char>,
        number: u64,
        running: Option<u64>,
        ev: StationEvent,
    ) -> EngineState {
        if running == Some(number) {
            self.with_event(c, ev)
        } else {
            self.with_event(Seq::empty(), ev)
        }
    }

    /// Whether a command may lead from `self` to `after` and `acts` in a given
    /// mode: only an engine that has the channel sets its physics, only one
    /// that has stations commands them, and a monitor obeys no command.
    pub open spec fn dispatches(
        self,
        mode: EngineMode,
        cmd: EngineCmd,
        after: EngineState,
        acts: Seq<ActionText>,
    ) -> bool {
        match mode {
            EngineMode::AllInOne => match cmd {
                EngineCmd::SetChannel(cfg) => after == self && acts == seq![
                    ActionText::SetChannel(cfg),
                ],
                _ => self.responds(cmd, after, acts),
            },
            EngineMode::ChannelHost => match cmd {
                EngineCmd::SetChannel(cfg) => after == self && acts == seq![
                    ActionText::SetChannel(cfg),
                ],
                _ => after == self && acts == Seq::<ActionText>::empty(),
            },
            EngineMode::Client => self.responds(cmd, after, acts),
            EngineMode::Monitor => after == self && acts == Seq::<ActionText>::empty(),
        }
    }
}

/// The place that [`rank`] gives stands behind the smaller call signs and
/// before the greater ones.
pub proof fn lemma_rank(s: EngineState, c: Seq<char>)
    requires
        s.wf(),
        !s.has(c),
    ensures
        0 <= rank(s.slots, c) <= s.slots.len(),
        forall|i: int|
            0 <= i < rank(s.slots, c) ==> text::text_lt(#[trigger] s.slots[i].callsign, c),
        forall|i: int|
            rank(s.slots, c) <= i < s.slots.len() ==> text::text_lt(
                c,
                #[trigger] s.slots[i].callsign,
            ),
    decreases s.slots.len(),
{
    if s.slots.len() > 0 {
        let n = s.slots.len() - 1;
        if text::text_lt(s.slots[n].callsign, c) {
            assert forall|i: int| 0 <= i < s.slots.len() implies text::text_lt(
                #[trigger] s.slots[i].callsign,
                c,
            ) by {
                if i < n {
                    text::lemma_text_lt_transitive(s.slots[i].callsign, s.slots[n].callsign, c);
                }
            }
        } else {
            assert(!s.is_at(n, c));
            text::lemma_text_lt_total(s.slots[n].callsign, c);
            let t = EngineState { slots: s.slots.drop_last(), ..s };
            assert forall|i: int| !(#[trigger] t.is_at(i, c)) by {
                assert(!s.is_at(i, c));
            }
            assert forall|i: int, j: int| 0 <= i < j < t.slots.len() implies text::text_lt(
                #[trigger] t.slots[i].callsign,
                #[trigger] t.slots[j].callsign,
            ) by {
                assert(t.slots[i] == s.slots[i] && t.slots[j] == s.slots[j]);
            }
            assert forall|i: int| 0 <= i < t.slots.len() implies (
            #[trigger] t.slots[i]).bounded() && t.slots[i].callsign.len() > 0 by {
                assert(t.slots[i] == s.slots[i]);
            }
            lemma_rank(t, c);
            assert forall|i: int| 0 <= i < rank(s.slots, c) implies text::text_lt(
                #[trigger] s.slots[i].callsign,
                c,
            ) by {
                assert(t.slots[i] == s.slots[i]);
            }
            assert forall|i: int| rank(s.slots, c) <= i < s.slots.len() implies text::text_lt(
                c,
                #[trigger] s.slots[i].callsign,
            ) by {
                if i < n {
                    assert(t.slots[i] == s.slots[i]);
                }
            }
        }
    }
}

/// A started station leaves the engine well-formed.
pub proof fn lemma_with_station_wf(s: EngineState, c: Seq<char>)
    requires
        s.wf(),
        c.len() > 0,
    ensures
        s.with_station(c).wf(),
{
    let t = s.with_station(c);
    if s.has(c) {
        let p = s.at(c);
        assert(s.is_at(p, c));
        assert forall|i: int, j: int| 0 <= i < j < t.slots.len() implies text::text_lt(
            #[trigger] t.slots[i].callsign,
            #[trigger] t.slots[j].callsign,
        ) by {
            assert(t.slots[i].callsign == s.slots[i].callsign);
            assert(t.slots[j].callsign == s.slots[j].callsign);
        }
    } else {
        lemma_rank(s, c);
        let p = rank(s.slots, c);
        assert forall|i: int, j: int| 0 <= i < j < t.slots.len() implies text::text_lt(
            #[trigger] t.slots[i].callsign,
            #[trigger] t.slots[j].callsign,
        ) by {
            let a = if i < p { i } else { i - 1 };
            let b = if j < p { j } else { j - 1 };
            if i != p {
                assert(t.slots[i] == s.slots[a]);
            }
            if j != p {
                assert(t.slots[j] == s.slots[b]);
            }
        }
        assert forall|i: int| 0 <= i < t.slots.len() implies (#[trigger] t.slots[i]).bounded()
            && t.slots[i].callsign.len() > 0 by {
            if i < p {
                assert(t.slots[i] == s.slots[i]);
            } else if i > p {
                assert(t.slots[i] == s.slots[i - 1]);
            }
        }
    }
}

impl Engine {
    /// Takes in a station that has started under the call sign `c`.
    pub fn station_started(&mut self, c: String)
        requires
            old(self)@.wf(),
            c@.len() > 0,
        ensures
            final(self)@.wf(),
            final(self)@ == old(self)@.with_station(c@),
    {
        let ghost before = self@;
        let found = self.find(c.as_str());
        let mut p: usize = self.slots.len();
        assert(before.slots.take(p as int) =~= before.slots);
        while p > 0 && !text_less(self.slots[p - 1].callsign.as_str(), c.as_str())
            invariant
                p <= self.slots@.len(),
                self@ == before,
                rank(before.slots.take(p as int), c@) == rank(before.slots, c@),
            decreases p,
        {
            assert(before.slots.take(p as int).drop_last() =~= before.slots.take(p - 1));
            p = p - 1;
        }
        assert(p > 0 ==> before.slots.take(p as int).last() == before.slots[p - 1]);
        assert(rank(before.slots, c@) == p);
        proof {
            lemma_with_station_wf(before, c@);
        }
        let slot = StationSlot {
            callsign: c,
            connected: true,
            log: VecDeque::new(),
            chat: VecDeque::new(),
        };
        proof {
            assert(slot@.log =~= Seq::<Seq<char>>::empty());
            assert(slot@.chat =~= Seq::<chat::ChatText>::empty());
        }
        match found {
            Some(i) => {
                self.slots.set(i, slot);
                assert(self@.slots =~= before.with_station(c@).slots);
            },
            None => {
                self.slots.insert(p, slot);
                assert(self@.slots =~= before.with_station(c@).slots);
            },
        }
    }

    /// Notes whether the link of a station is up.
    pub fn note_link(&mut self, callsign: &str, up: bool)
        requires
            old(self)@.wf(),
        ensures
            final(self)@.wf(),
            final(self)@ == old(self)@.with_link(callsign@, up),
    {
        let ghost before = self@;
        match self.find(callsign) {
            Some(i) => {
                self.slots[i].connected = up;
                assert(self@.slots =~= before.with_link(callsign@, up).slots);
            },
            None => {},
        }
    }

    /// Files what the station `callsign` reports.
    pub fn on_station_event(&mut self, callsign: &str, ev: StationEvent)
        requires
            old(self)@.wf(),
        ensures
            final(self)@.wf(),
            final(self)@ == old(self)@.with_event(callsign@, ev),
    {
        let ghost before = self@;
        let found = self.find(callsign);
        match ev {
            StationEvent::Log(line) => {
                match found {
                    Some(i) => {
                        push_line(&mut self.slots[i].log, line, STATION_LOG_CAP);
                        assert(self@.slots =~= before.with_event(callsign@, ev).slots);
                    },
                    None => {},
                }
            },
            StationEvent::Chat { from, scope, text } => {
                let line = received_line(from, scope, text);
                match found {
                    Some(i) => {
                        let copy = line.clone();
                        push_chat(&mut self.slots[i].chat, copy, CHAT_CAP);
                    },
                    None => {},
                }
                push_recv_chat(&mut self.net_chat, line);
                assert(self@.slots =~= before.with_event(callsign@, ev).slots);
            },
            StationEvent::Other => {},
        }
    }

    /// Files a report from the station that was started under `callsign` with
    /// the given number; `running` is the number of the one that now runs
    /// under that call sign, if any.
    pub fn on_report(
        &mut self,
        callsign: &str,
        number: u64,
        running: Option<u64>,
        ev: StationEvent,
    )
        requires
            old(self)@.wf(),
        ensures
            final(self)@.wf(),
            final(self)@ == old(self)@.with_report(callsign@, number, running, ev),
    {
        let current = match running {
            Some(n) => n == number,
            None => false,
        };
        if current {
            self.on_station_event(callsign, ev);
        } else {
            proof {
                reveal_strlit("");
                assert(""@ =~= Seq::<char>::empty());
            }
            self.on_station_event("", ev);
        }
    }

    /// Carries out a command as the mode of the engine has it.
    pub fn dispatch(&mut self, mode: EngineMode, cmd: EngineCmd) -> (acts: Vec<Action>)
        requires
            old(self)@.wf(),
        ensures
            final(self)@.wf(),
            old(self)@.dispatches(mode, cmd, final(self)@, action_texts(acts@)),
    {
        let mut acts: Vec<Action> = Vec::new();
        assert(action_texts(acts@) =~= Seq::<ActionText>::empty());
        match mode {
            EngineMode::AllInOne => match cmd {
                EngineCmd::SetChannel(cfg) => {
                    acts.push(Action::SetChannel(cfg));
                    assert(action_texts(acts@) =~= seq![ActionText::SetChannel(cfg)]);
                    acts
                },
                other => self.handle_station_cmd(other),
            },
            EngineMode::ChannelHost => match cmd {
                EngineCmd::SetChannel(cfg) => {
                    acts.push(Action::SetChannel(cfg));
                    assert(action_texts(acts@) =~= seq![ActionText::SetChannel(cfg)]);
                    acts
                },
                _ => acts,
            },
            EngineMode::Client => self.handle_station_cmd(cmd),
            EngineMode::Monitor => acts,
        }
    }

    /// The call signs of the stations, in order.
    pub fn callsigns(&self) -> (r: Vec<String>)
        ensures
            r@.len() == self@.slots.len(),
            forall|i: int| 0 <= i < r@.len() ==> (#[trigger] r@[i])@ == self@.slots[i].callsign,
    {
        let mut r: Vec<String> = Vec::new();
        let mut i: usize = 0;
        while i < self.slots.len()
            invariant
                i <= self.slots@.len(),
                r@.len() == i,
                forall|j: int|
                    0 <= j < i ==> (#[trigger] r@[j])@ == self@.slots[j].callsign,
            decreases self.slots@.len() - i,
        {
            r.push(self.slots[i].callsign.clone());
            i = i + 1;
        }
        r
    }

    /// The log of station `i`.
    pub fn station_log(&self, i: usize) -> (r: Vec<String>)
        requires
            i < self@.slots.len(),
        ensures
            events::texts(r@) == self@.slots[i as int].log,
    {
        copy_lines(&self.slots[i].log)
    }

    /// The chat of station `i`.
    pub fn station_chat(&self, i: usize) -> (r: Vec<ChatLine>)
        requires
            i < self@.slots.len(),
        ensures
            chat::chat_texts(r@) == self@.slots[i as int].chat,
    {
        copy_chat(&self.slots[i].chat)
    }

    /// The merged chat of the net.
    pub fn net_chat(&self) -> (r: Vec<ChatLine>)
        ensures
            chat::chat_texts(r@) == self@.net_chat,
    {
        copy_chat(&self.net_chat)
    }

    /// Whether the automatic chat runs.
    pub fn auto_chat_on(&self) -> (r: bool)
        ensures
            r == self@.auto_chat,
    {
        self.auto_chat
    }

    /// The number of stations.
    pub fn station_count(&self) -> (r: usize)
        ensures
            r == self@.slots.len(),
    {
        self.slots.len()
    }
}

/// The numbers of the phrases of the automatic chat, each once and in order.
fn phrase_numbers() -> (r: Vec<usize>)
    ensures
        r@ == Seq::new(AUTO_PHRASES as nat, |i: int| i as usize),
{
    let mut r: Vec<usize> = Vec::new();
    let mut i: usize = 0;
    while i < AUTO_PHRASES
        invariant
            i <= AUTO_PHRASES,
            r@ == Seq::new(i as nat, |k: int| k as usize),
        decreases AUTO_PHRASES - i,
    {
        r.push(i);
        i = i + 1;
        assert(r@ =~= Seq::new(i as nat, |k: int| k as usize));
    }
    r
}

/// A phrase of the automatic chat, drawn by chance from all of them. Which one
/// it is, is left open.
fn pick_phrase() -> (p: usize)
    ensures
        p < AUTO_PHRASES,
{
    match choose_one(phrase_numbers().as_slice()) {
        Some(p) => p,
        None => 0,
    }
}

} // verus!
