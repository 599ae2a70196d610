//! What the views of the program decide: which tab is shown, what the controls
//! of each tab command, and which picture is displayed.

use std::collections::VecDeque;
use std::path::PathBuf;
use vstd::prelude::*;
use vstd::string::*;

use crate::colormap::ONE;
use crate::engine::EngineCmd;
use crate::snapshot::StationView;
use crate::station::{ChannelConfig, Mode, RosterEntry, StationSnapshot};
use crate::text::{push_decimal, to_uppercase, trim};
#[allow(unused_imports)]
use crate::{engine, events, text};

verus! {

/// The tabs of the window.
#[derive(Debug, Clone, Copy, PartialEq, Eq, Structural)]
pub enum Tab {
    Channel,
    Stations,
    Net,
    Monitor,
}

impl Tab {
    /// The label of the tab.
    pub fn label(self) -> (r: &'static str)
        ensures
            r@ == match self {
                Tab::Channel => "Kanal"@,
                Tab::Stations => "İstasyonlar"@,
                Tab::Net => "NET"@,
                Tab::Monitor => "Monitör"@,
            },
    {
        match self {
            Tab::Channel => "Kanal",
            Tab::Stations => "İstasyonlar",
            Tab::Net => "NET",
            Tab::Monitor => "Monitör",
        }
    }
}

/// The title of a program and the tabs that it shows.
pub struct AppConfig {
    /// The title.
    pub title: String,
    /// The tabs, in order.
    pub tabs: Vec<Tab>,
}

impl AppConfig {
    /// The tab that is open at first: the first one, or the stations where
    /// there is none.
    pub fn first_tab(&self) -> (r: Tab)
        ensures
            r == if self.tabs@.len() > 0 { self.tabs@[0] } else { Tab::Stations },
    {
        if self.tabs.len() > 0 {
            self.tabs[0]
        } else {
            Tab::Stations
        }
    }
}

/// The controls of the channel tab; the numbers are in millionths.
#[derive(Debug, Clone, Copy, PartialEq, Eq, Structural)]
pub struct ChannelControls {
    /// Whether noise is added.
    pub snr_on: bool,
    /// The signal-to-noise ratio in decibels.
    pub snr_db: i32,
    /// The delay of the echo in milliseconds.
    pub mp_delay: i32,
    /// The gain of the echo.
    pub mp_gain: i32,
}

impl ChannelControls {
    /// A clean channel; the noise is prepared at 15 dB.
    pub fn new() -> (r: Self)
        ensures
            r == (ChannelControls {
                snr_on: false,
                snr_db: 15_000_000,
                mp_delay: 0,
                mp_gain: 0,
            }),
    {
        ChannelControls { snr_on: false, snr_db: 15 * ONE, mp_delay: 0, mp_gain: 0 }
    }

    /// The preset without noise and echo.
    pub fn preset_clean(&mut self)
        ensures
            *final(self) == (ChannelControls {
                snr_on: false,
                mp_delay: 0,
                mp_gain: 0,
                ..*old(self)
            }),
    {
        self.snr_on = false;
        self.mp_delay = 0;
        self.mp_gain = 0;
    }

    /// The preset with so much noise that blocks have to be sent again.
    pub fn preset_arq(&mut self)
        ensures
            *final(self) == (ChannelControls {
                snr_on: true,
                snr_db: 13_000_000,
                mp_delay: 0,
                mp_gain: 0,
            }),
    {
        self.snr_on = true;
        self.snr_db = 13 * ONE;
        self.mp_delay = 0;
        self.mp_gain = 0;
    }

    /// The preset with an echo beyond the guard interval.
    pub fn preset_multipath(&mut self)
        ensures
            *final(self) == (ChannelControls {
                snr_on: false,
                mp_delay: 15_000_000,
                mp_gain: 250_000,
                ..*old(self)
            }),
    {
        self.snr_on = false;
        self.mp_delay = 15 * ONE;
        self.mp_gain = 250_000;
    }

    /// The physics that the controls stand for: noise only where it is
    /// switched on.
    pub open spec fn spec_config(self) -> ChannelConfig {
        ChannelConfig {
            snr_db: if self.snr_on {
                Some(self.snr_db)
            } else {
                None
            },
            multipath_delay_ms: self.mp_delay,
            multipath_gain: self.mp_gain,
        }
    }

    /// The command that sets the physics of the channel.
    pub fn apply_channel(&self) -> (r: EngineCmd)
        ensures
            r == EngineCmd::SetChannel(self.spec_config()),
    {
        EngineCmd::SetChannel(
            ChannelConfig {
                snr_db: if self.snr_on {
                    Some(self.snr_db)
                } else {
                    None
                },
                multipath_delay_ms: self.mp_delay,
                multipath_gain: self.mp_gain,
            },
        )
    }
}

/// The clean preset really is a clean channel, whatever was set before.
pub proof fn law_clean_preset_is_clean(c: ChannelControls)
    ensures
        ({
            let clean = ChannelControls { snr_on: false, mp_delay: 0, mp_gain: 0, ..c };
            &&& clean.spec_config().snr_db is None
            &&& clean.spec_config().multipath_delay_ms == 0
            &&& clean.spec_config().multipath_gain == 0
        }),
{
}

/// Whether a text is more than white space.
pub open spec fn says_something(s: Seq<char>) -> bool {
    text::trimmed(s).len() > 0
}

/// The addressees of a message: everyone, then each call sign.
pub open spec fn is_destinations(r: Seq<String>, calls: Seq<String>) -> bool {
    &&& r.len() == calls.len() + 1
    &&& r[0]@ == "ALL"@
    &&& forall|i: int| 0 <= i < calls.len() ==> (#[trigger] r[i + 1])@ == calls[i]@
}

/// The addressees that can be chosen among `calls`.
pub fn destinations(calls: &Vec<String>) -> (r: Vec<String>)
    ensures
        is_destinations(r@, calls@),
{
    let mut r: Vec<String> = Vec::new();
    r.push("ALL".to_string());
    let mut i: usize = 0;
    while i < calls.len()
        invariant
            i <= calls@.len(),
            r@.len() == i + 1,
            r@[0]@ == "ALL"@,
            forall|j: int| 0 <= j < i ==> (#[trigger] r@[j + 1])@ == calls@[j]@,
        decreases calls@.len() - i,
    {
        r.push(calls[i].clone());
        i = i + 1;
    }
    r
}

/// The call signs of a roster.
pub fn roster_calls(roster: &Vec<RosterEntry>) -> (r: Vec<String>)
    ensures
        r@.len() == roster@.len(),
        forall|i: int| 0 <= i < r@.len() ==> (#[trigger] r@[i])@ == roster@[i].callsign@,
{
    let mut r: Vec<String> = Vec::new();
    let mut i: usize = 0;
    while i < roster.len()
        invariant
            i <= roster@.len(),
            r@.len() == i,
            forall|j: int| 0 <= j < i ==> (#[trigger] r@[j])@ == roster@[j].callsign@,
        decreases roster@.len() - i,
    {
        r.push(roster[i].callsign.clone());
        i = i + 1;
    }
    r
}

/// The call signs of the stations that are shown.
pub fn view_calls(stations: &Vec<StationView>) -> (r: Vec<String>)
    ensures
        r@.len() == stations@.len(),
        forall|i: int| 0 <= i < r@.len() ==> (#[trigger] r@[i])@ == stations@[i].snap.callsign@,
{
    let mut r: Vec<String> = Vec::new();
    let mut i: usize = 0;
    while i < stations.len()
        invariant
            i <= stations@.len(),
            r@.len() == i,
            forall|j: int| 0 <= j < i ==> (#[trigger] r@[j])@ == stations@[j].snap.callsign@,
        decreases stations@.len() - i,
    {
        r.push(stations[i].snap.callsign.clone());
        i = i + 1;
    }
    r
}

/// The controls of the stations tab.
pub struct StationsTab {
    /// The station that is shown.
    pub selected: Option<String>,
    /// The call sign for a new station.
    pub new_call: String,
    /// The modulation for a new station.
    pub new_mode: Mode,
    /// The message to send.
    pub chat_input: String,
    /// The addressee of messages and files.
    pub chat_dst: String,
}

/// Whether station `i` is the first one that `c` names.
pub open spec fn is_first(stations: Seq<StationView>, i: int, c: Seq<char>) -> bool {
    &&& 0 <= i < stations.len()
    &&& stations[i].snap.callsign@ == c
    &&& forall|j: int| 0 <= j < i ==> (#[trigger] stations[j]).snap.callsign@ != c
}

impl StationsTab {
    /// No station is selected; messages go to everyone.
    pub fn new() -> (r: Self)
        ensures
            r.selected is None,
            r.new_call@ == "TA1ABC"@,
            r.new_mode == Mode::Qpsk,
            r.chat_input@ == Seq::<char>::empty(),
            r.chat_dst@ == "ALL"@,
    {
        StationsTab {
            selected: None,
            new_call: "TA1ABC".to_string(),
            new_mode: Mode::Qpsk,
            chat_input: String::new(),
            chat_dst: "ALL".to_string(),
        }
    }

    /// Whether the station `c` is selected.
    pub fn is_selected(&self, c: &str) -> (r: bool)
        ensures
            r == (events::opt_text(self.selected) == Some(c@)),
    {
        match &self.selected {
            Some(s) => crate::text::same_text(s.as_str(), c),
            None => false,
        }
    }

    /// Removes a station; where it was selected, none is any more.
    pub fn remove(&mut self, c: &str) -> (r: EngineCmd)
        ensures
            r@ == (engine::CmdText::RemoveStation { callsign: c@ }),
            events::opt_text(final(self).selected) == if events::opt_text(old(self).selected)
                == Some(c@) {
                None
            } else {
                events::opt_text(old(self).selected)
            },
            final(self).new_call == old(self).new_call,
            final(self).new_mode == old(self).new_mode,
            final(self).chat_input == old(self).chat_input,
            final(self).chat_dst == old(self).chat_dst,
    {
        if self.is_selected(c) {
            self.selected = None;
        }
        EngineCmd::RemoveStation { callsign: c.to_string() }
    }

    /// Adds the station whose call sign was entered; nothing where that is
    /// blank. The entry is then empty again.
    pub fn add(&mut self) -> (r: Option<EngineCmd>)
        ensures
            engine::opt_cmd(r) == if says_something(old(self).new_call@) {
                Some(
                    engine::CmdText::AddStation {
                        callsign: text::uppercase(text::trimmed(old(self).new_call@)),
                        mode: old(self).new_mode,
                    },
                )
            } else {
                None
            },
            final(self).new_call@ == if says_something(old(self).new_call@) {
                Seq::empty()
            } else {
                old(self).new_call@
            },
            final(self).selected == old(self).selected,
            final(self).new_mode == old(self).new_mode,
            final(self).chat_input == old(self).chat_input,
            final(self).chat_dst == old(self).chat_dst,
    {
        let call = trim(self.new_call.as_str());
        if call.is_empty() {
            return None;
        }
        let cmd = EngineCmd::AddStation { callsign: to_uppercase(call), mode: self.new_mode };
        self.new_call = String::new();
        Some(cmd)
    }

    /// The place of the selected station among those that are shown. A
    /// selection that is shown no more is given up.
    pub fn shown(&mut self, stations: &Vec<StationView>) -> (r: Option<usize>)
        ensures
            match r {
                Some(i) => old(self).selected is Some && is_first(
                    stations@,
                    i as int,
                    old(self).selected->0@,
                ) && final(self).selected == old(self).selected,
                None => final(self).selected is None && (old(self).selected matches Some(c)
                    ==> forall|j: int|
                    0 <= j < stations@.len() ==> (#[trigger] stations@[j]).snap.callsign@ != c@),
            },
            final(self).new_call == old(self).new_call,
            final(self).new_mode == old(self).new_mode,
            final(self).chat_input == old(self).chat_input,
            final(self).chat_dst == old(self).chat_dst,
    {
        let mut i: usize = 0;
        match &self.selected {
            Some(c) => {
                while i < stations.len()
                    invariant
                        i <= stations@.len(),
                        self.selected == Some(*c),
                        *self == *old(self),
                        forall|j: int|
                            0 <= j < i ==> (#[trigger] stations@[j]).snap.callsign@ != c@,
                    decreases stations@.len() - i,
                {
                    if stations[i].snap.callsign == *c {
                        return Some(i);
                    }
                    i = i + 1;
                }
            },
            None => {},
        }
        self.selected = None;
        None
    }

    /// Sends the entered message as the station `call`; nothing where it is
    /// blank. The entry is then empty again.
    pub fn send_chat(&mut self, call: &str) -> (r: Option<EngineCmd>)
        ensures
            engine::opt_cmd(r) == if says_something(old(self).chat_input@) {
                Some(
                    engine::CmdText::Chat {
                        callsign: call@,
                        dst: old(self).chat_dst@,
                        text: text::trimmed(old(self).chat_input@),
                    },
                )
            } else {
                None
            },
            final(self).chat_input@ == if says_something(old(self).chat_input@) {
                Seq::empty()
            } else {
                old(self).chat_input@
            },
            final(self).selected == old(self).selected,
            final(self).new_call == old(self).new_call,
            final(self).new_mode == old(self).new_mode,
            final(self).chat_dst == old(self).chat_dst,
    {
        let message = trim(self.chat_input.as_str());
        if message.is_empty() {
            return None;
        }
        let cmd = EngineCmd::Chat {
            callsign: call.to_string(),
            dst: self.chat_dst.clone(),
            text: message.to_string(),
        };
        self.chat_input = String::new();
        Some(cmd)
    }

    /// Sends a file as the station `call`.
    pub fn send_file(&self, call: &str, path: PathBuf) -> (r: EngineCmd)
        ensures
            r@ == (engine::CmdText::SendFile { callsign: call@, path, dst: self.chat_dst@ }),
    {
        EngineCmd::SendFile { callsign: call.to_string(), path, dst: self.chat_dst.clone() }
    }
}

/// Whether a station has no transfers to show.
pub fn no_transfers(s: &StationSnapshot) -> (r: bool)
    ensures
        r == (s.transfers_in@.len() == 0 && s.transfers_out@.len() == 0),
{
    s.transfers_in.len() == 0 && s.transfers_out.len() == 0
}

/// Whether no station has a transfer to show.
pub fn net_is_idle(stations: &Vec<StationView>) -> (r: bool)
    ensures
        r == forall|i: int|
            0 <= i < stations@.len() ==> (#[trigger] stations@[i]).snap.transfers_in@.len() == 0
                && stations@[i].snap.transfers_out@.len() == 0,
{
    let mut i: usize = 0;
    while i < stations.len()
        invariant
            i <= stations@.len(),
            forall|j: int|
                0 <= j < i ==> (#[trigger] stations@[j]).snap.transfers_in@.len() == 0
                    && stations@[j].snap.transfers_out@.len() == 0,
        decreases stations@.len() - i,
    {
        if !no_transfers(&stations[i].snap) {
            return false;
        }
        i = i + 1;
    }
    true
}

/// The controls of the tab for the whole net.
pub struct NetTab {
    /// The station that speaks.
    pub from: String,
    /// The addressee of messages.
    pub dst: String,
    /// The message to send.
    pub msg: String,
    /// The addressee of files.
    pub file_dst: String,
    /// The interval of the automatic chat in milliseconds.
    pub auto_ms: u64,
}

/// Whether a list of call signs has the call sign `c`.
pub open spec fn lists(calls: Seq<String>, c: Seq<char>) -> bool {
    exists|i: int| 0 <= i < calls.len() && (#[trigger] calls[i])@ == c
}

impl NetTab {
    /// Messages and files go to everyone; the automatic chat is set to 4 s.
    pub fn new() -> (r: Self)
        ensures
            r.from@ == Seq::<char>::empty(),
            r.dst@ == "ALL"@,
            r.msg@ == Seq::<char>::empty(),
            r.file_dst@ == "ALL"@,
            r.auto_ms == 4000,
    {
        NetTab {
            from: String::new(),
            dst: "ALL".to_string(),
            msg: String::new(),
            file_dst: "ALL".to_string(),
            auto_ms: 4000,
        }
    }

    /// Makes sure that one of the stations speaks: the first one, where the
    /// chosen one is gone. The result says whether there is a station at all.
    pub fn sync(&mut self, calls: &Vec<String>) -> (r: bool)
        ensures
            r == (calls@.len() > 0),
            final(self).from@ == if calls@.len() == 0 || lists(calls@, old(self).from@) {
                old(self).from@
            } else {
                calls@[0]@
            },
            final(self).dst == old(self).dst,
            final(self).msg == old(self).msg,
            final(self).file_dst == old(self).file_dst,
            final(self).auto_ms == old(self).auto_ms,
    {
        if calls.len() == 0 {
            return false;
        }
        let mut i: usize = 0;
        while i < calls.len()
            invariant
                i <= calls@.len(),
                forall|j: int| 0 <= j < i ==> (#[trigger] calls@[j])@ != self.from@,
            decreases calls@.len() - i,
        {
            if calls[i] == self.from {
                assert(lists(calls@, self.from@));
                return true;
            }
            i = i + 1;
        }
        self.from = calls[0].clone();
        true
    }

    /// The entered message, without the white space around it, where it is
    /// not blank; the entry is then empty again.
    fn take_message(&mut self) -> (r: Option<String>)
        ensures
            events::opt_text(r) == if says_something(old(self).msg@) {
                Some(text::trimmed(old(self).msg@))
            } else {
                None
            },
            final(self).msg@ == if says_something(old(self).msg@) {
                Seq::empty()
            } else {
                old(self).msg@
            },
            final(self).from == old(self).from,
            final(self).dst == old(self).dst,
            final(self).file_dst == old(self).file_dst,
            final(self).auto_ms == old(self).auto_ms,
    {
        let message = trim(self.msg.as_str());
        if message.is_empty() {
            return None;
        }
        let r = message.to_string();
        self.msg = String::new();
        Some(r)
    }

    /// Sends the entered message as the chosen station; nothing where it is
    /// blank.
    pub fn send(&mut self) -> (r: Option<EngineCmd>)
        ensures
            engine::opt_cmd(r) == if says_something(old(self).msg@) {
                Some(
                    engine::CmdText::Chat {
                        callsign: old(self).from@,
                        dst: old(self).dst@,
                        text: text::trimmed(old(self).msg@),
                    },
                )
            } else {
                None
            },
            final(self).msg@ == if says_something(old(self).msg@) {
                Seq::empty()
            } else {
                old(self).msg@
            },
            final(self).from == old(self).from,
            final(self).dst == old(self).dst,
            final(self).file_dst == old(self).file_dst,
            final(self).auto_ms == old(self).auto_ms,
    {
        match self.take_message() {
            Some(text) => Some(
                EngineCmd::Chat { callsign: self.from.clone(), dst: self.dst.clone(), text },
            ),
            None => None,
        }
    }

    /// Lets every connected station send the entered message; nothing where
    /// it is blank.
    pub fn send_all(&mut self) -> (r: Option<EngineCmd>)
        ensures
            engine::opt_cmd(r) == if says_something(old(self).msg@) {
                Some(
                    engine::CmdText::ChatAll {
                        dst: old(self).dst@,
                        text: text::trimmed(old(self).msg@),
                    },
                )
            } else {
                None
            },
            final(self).msg@ == if says_something(old(self).msg@) {
                Seq::empty()
            } else {
                old(self).msg@
            },
            final(self).from == old(self).from,
            final(self).dst == old(self).dst,
            final(self).file_dst == old(self).file_dst,
            final(self).auto_ms == old(self).auto_ms,
    {
        match self.take_message() {
            Some(text) => Some(EngineCmd::ChatAll { dst: self.dst.clone(), text }),
            None => None,
        }
    }

    /// Switches the automatic chat.
    pub fn set_auto(&self, enabled: bool) -> (r: EngineCmd)
        ensures
            r@ == (engine::CmdText::SetAutoChat { enabled, interval_ms: self.auto_ms }),
    {
        EngineCmd::SetAutoChat { enabled, interval_ms: self.auto_ms }
    }

    /// Changes the interval of the automatic chat; where it runs, it is set
    /// anew.
    pub fn set_interval(&mut self, auto_ms: u64, running: bool) -> (r: Option<EngineCmd>)
        ensures
            engine::opt_cmd(r) == if running {
                Some(engine::CmdText::SetAutoChat { enabled: true, interval_ms: auto_ms })
            } else {
                None
            },
            final(self).auto_ms == auto_ms,
            final(self).msg == old(self).msg,
            final(self).from == old(self).from,
            final(self).dst == old(self).dst,
            final(self).file_dst == old(self).file_dst,
    {
        self.auto_ms = auto_ms;
        if running {
            Some(self.set_auto(true))
        } else {
            None
        }
    }

    /// Sends a file as the chosen station.
    pub fn send_file(&self, path: PathBuf) -> (r: EngineCmd)
        ensures
            r@ == (engine::CmdText::SendFile { callsign: self.from@, path, dst: self.file_dst@ }),
    {
        EngineCmd::SendFile { callsign: self.from.clone(), path, dst: self.file_dst.clone() }
    }

    /// Lets every connected station send a file.
    pub fn send_file_all(&self, path: PathBuf) -> (r: EngineCmd)
        ensures
            r@ == (engine::CmdText::SendFileAll { path, dst: self.file_dst@ }),
    {
        EngineCmd::SendFileAll { path, dst: self.file_dst.clone() }
    }
}

/// Which of the received pictures is displayed.
#[derive(Debug, Clone, Copy, PartialEq, Eq, Structural)]
pub struct ImageCursor {
    /// The picture that is displayed.
    pub idx: usize,
    /// The pictures that there were when last looked at.
    pub seen: usize,
}

impl ImageCursor {
    /// Whether the newest picture is displayed, or none.
    pub open spec fn at_end(self) -> bool {
        self.idx + 1 >= self.seen
    }

    /// The cursor once there are `n` pictures: it follows the newest one if it
    /// stood at the end, and stays within the pictures.
    pub open spec fn observed(self, n: usize) -> ImageCursor {
        if n == 0 {
            ImageCursor { seen: 0, ..self }
        } else {
            ImageCursor {
                idx: if n > self.seen && self.at_end() || self.idx >= n {
                    (n - 1) as usize
                } else {
                    self.idx
                },
                seen: n,
            }
        }
    }

    /// Before the first picture.
    pub fn new() -> (r: Self)
        ensures
            r == (ImageCursor { idx: 0, seen: 0 }),
    {
        ImageCursor { idx: 0, seen: 0 }
    }

    /// Takes note of the number of pictures. The result says whether there is
    /// one to display.
    pub fn observe(&mut self, n: usize) -> (r: bool)
        ensures
            r == (n > 0),
            *final(self) == old(self).observed(n),
            n > 0 ==> final(self).idx < n,
    {
        if n == 0 {
            self.seen = 0;
            return false;
        }
        let last: usize = if self.seen > 1 {
            self.seen - 1
        } else {
            0
        };
        if n > self.seen && self.idx >= last {
            self.idx = n - 1;
        }
        self.seen = n;
        if self.idx > n - 1 {
            self.idx = n - 1;
        }
        true
    }

    /// Whether there is a picture before the displayed one.
    pub fn has_previous(&self) -> (r: bool)
        ensures
            r == (self.idx > 0),
    {
        self.idx > 0
    }

    /// Whether there is a picture after the displayed one, of `n`.
    pub fn has_next(&self, n: usize) -> (r: bool)
        ensures
            r == (self.idx + 1 < n),
    {
        n > 0 && self.idx < n - 1
    }

    /// Goes to the picture before.
    pub fn previous(&mut self)
        ensures
            *final(self) == (ImageCursor {
                idx: if old(self).idx > 0 {
                    (old(self).idx - 1) as usize
                } else {
                    0
                },
                ..*old(self)
            }),
    {
        if self.idx > 0 {
            self.idx = self.idx - 1;
        }
    }

    /// Goes to the picture after, of `n`.
    pub fn next(&mut self, n: usize)
        ensures
            *final(self) == (ImageCursor {
                idx: if old(self).idx + 1 < n {
                    (old(self).idx + 1) as usize
                } else {
                    old(self).idx
                },
                ..*old(self)
            }),
    {
        if self.has_next(n) {
            self.idx = self.idx + 1;
        }
    }

    /// The position of the displayed picture among `n`.
    pub fn position_text(&self, n: usize) -> (r: String)
        requires
            self.idx < n,
        ensures
            r@ == text::decimal((self.idx + 1) as nat) + "/"@ + text::decimal(n as nat),
    {
        let mut r = String::new();
        push_decimal(&mut r, self.idx as u64 + 1);
        r.append("/");
        push_decimal(&mut r, n as u64);
        assert(r@ =~= text::decimal((self.idx + 1) as nat) + "/"@ + text::decimal(n as nat));
        r
    }
}

/// A viewer at the newest picture is taken to the next one that arrives; one
/// who looks at an older picture keeps it.
pub proof fn law_cursor_follows_the_newest(c: ImageCursor, n: usize)
    requires
        0 < c.seen,
        c.idx < c.seen,
        c.seen < n,
    ensures
        c.idx == c.seen - 1 ==> c.observed(n).idx == n - 1,
        c.idx < c.seen - 1 ==> c.observed(n).idx == c.idx,
{
}

/// Looking again without a new picture changes nothing.
pub proof fn law_observing_twice_is_observing_once(c: ImageCursor, n: usize)
    ensures
        c.observed(n).observed(n) == c.observed(n),
{
}

/// The switch of the audio output.
#[derive(Debug, Clone, Copy, PartialEq, Eq, Structural)]
pub struct AudioSwitch {
    /// Whether the audio is on.
    pub on: bool,
    /// Whether the last attempt found no device.
    pub failed: bool,
}

impl AudioSwitch {
    /// The audio is off.
    pub fn new() -> (r: Self)
        ensures
            r == (AudioSwitch { on: false, failed: false }),
    {
        AudioSwitch { on: false, failed: false }
    }

    /// The device was opened, or not. The audio is on only where it was; the
    /// result says whether samples are to be buffered for it.
    pub fn started(&mut self, opened: bool) -> (buffering: bool)
        ensures
            *final(self) == (AudioSwitch { on: opened, failed: !opened }),
            buffering == opened,
    {
        self.on = opened;
        self.failed = !opened;
        opened
    }

    /// The audio was switched off and what waited for the device is dropped;
    /// samples are buffered no more.
    pub fn switch_off(&mut self, ring: &mut VecDeque<i16>) -> (buffering: bool)
        ensures
            *final(self) == (AudioSwitch { on: false, ..*old(self) }),
            final(ring)@ == Seq::<i16>::empty(),
            !buffering,
    {
        ring.clear();
        self.stopped()
    }

    /// The audio is off; samples are buffered no more.
    pub fn stopped(&mut self) -> (buffering: bool)
        ensures
            *final(self) == (AudioSwitch { on: false, ..*old(self) }),
            !buffering,
    {
        self.on = false;
        false
    }
}

/// The physics that the controls ask for: the echo as it is set, and noise
/// only where it is switched on.
pub proof fn law_controls_are_handed_on(c: ChannelControls)
    ensures
        c.spec_config().multipath_delay_ms == c.mp_delay,
        c.spec_config().multipath_gain == c.mp_gain,
        c.snr_on ==> c.spec_config().snr_db == Some(c.snr_db),
        !c.snr_on ==> c.spec_config().snr_db is None,
{
}

/// An entry says something exactly where it has a character that is no white
/// space.
pub proof fn law_blank_entries_say_nothing(s: Seq<char>)
    ensures
        says_something(s) <==> exists|k: int| 0 <= k < s.len() && !text::is_white(#[trigger] s[k]),
{
    text::law_blank_is_all_white(s);
}

/// The addressees are everyone, first, and each call sign once, in order.
pub proof fn law_destinations_are_all_and_each(r: Seq<String>, calls: Seq<String>, i: int)
    requires
        is_destinations(r, calls),
        0 <= i < calls.len(),
    ensures
        r.len() == calls.len() + 1,
        r[0]@ == "ALL"@,
        r[i + 1]@ == calls[i]@,
{
}

/// A list has a call sign where it stands at some place; the first of several
/// stations is the one that is found.
pub proof fn law_lists_and_firsts(
    calls: Seq<String>,
    stations: Seq<StationView>,
    i: int,
    c: Seq<char>,
)
    ensures
        0 <= i < calls.len() && calls[i]@ == c ==> lists(calls, c),
        calls.len() == 0 ==> !lists(calls, c),
        (forall|k: int| 0 <= k < calls.len() ==> (#[trigger] calls[k])@ != c) ==> !lists(calls, c),
        is_first(stations, i, c) ==> 0 <= i < stations.len() && stations[i].snap.callsign@ == c,
        is_first(stations, i, c) ==> forall|k: int|
            0 <= k < i ==> (#[trigger] stations[k]).snap.callsign@ != c,
{
}

/// The displayed picture is always one that there is; it changes only to the
/// newest, where more pictures than before came while the newest was
/// displayed or where it is no longer there.
pub proof fn law_cursor_stays_on_a_picture(c: ImageCursor, n: usize)
    ensures
        n > 0 ==> c.observed(n).idx < n,
        c.observed(n).seen == n,
        n == 0 ==> c.observed(n).idx == c.idx,
        c.observed(n).idx != c.idx && n > 0 ==> c.observed(n).idx == n - 1,
        n > 0 && n <= c.seen && c.idx < n ==> c.observed(n).idx == c.idx,
        n > c.seen && c.idx + 1 >= c.seen ==> c.observed(n).idx == n - 1,
        n > c.seen && c.idx + 1 < c.seen ==> c.observed(n).idx == c.idx,
{
}

} // verus!
