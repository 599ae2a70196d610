use std::collections::{BTreeSet, VecDeque};
use std::path::PathBuf;

use atchat::chat::{own_line, push_recv_chat, received_line, ChatScope};
use atchat::engine::{
    auto_phrase, Action, Engine, EngineCmd, EngineMode, StationEvent, AUTO_PHRASES,
};
use atchat::events::{ChannelEvent, ChannelLogs};
use atchat::snapshot::EngineSnapshot;
use atchat::station::{ChannelConfig, ChannelSnapshot, Mode, Role, StationSnapshot};

fn station(callsign: &str) -> StationSnapshot {
    StationSnapshot {
        callsign: callsign.to_string(),
        role: Role::Listener,
        master: None,
        backup: None,
        connected: true,
        roster: vec![],
        transfers_out: vec![],
        transfers_in: vec![],
    }
}

fn channel() -> ChannelSnapshot {
    ChannelSnapshot {
        busy: false,
        current_tx: None,
        busy_tenths: 0,
        busy_hundredths: 0,
        active_clients: 0,
    }
}

/// An engine with channel and stations on a channel without loss: a message
/// to everyone reaches all other connected stations, one to a station that
/// station alone.
struct Net {
    engine: Engine,
    logs: ChannelLogs,
    down: BTreeSet<String>,
    timer: Option<u64>,
    config: Option<ChannelConfig>,
    files: Vec<(String, PathBuf, String)>,
}

impl Net {
    fn new() -> Self {
        Net {
            engine: Engine::new(),
            logs: ChannelLogs::new(),
            down: BTreeSet::new(),
            timer: None,
            config: None,
            files: vec![],
        }
    }

    fn send(&mut self, cmd: EngineCmd) {
        for call in self.engine.callsigns() {
            let up = !self.down.contains(&call);
            self.engine.note_link(&call, up);
        }
        for action in self.engine.dispatch(EngineMode::AllInOne, cmd) {
            match action {
                Action::StartStation { callsign, .. } => self.engine.station_started(callsign),
                Action::StopStation { callsign } => {
                    self.down.remove(&callsign);
                }
                Action::SendChat { callsign, dst, text } => self.transmit(&callsign, &dst, &text),
                Action::SendFile { callsign, path, dst } => self.files.push((callsign, path, dst)),
                Action::DropLink { callsign } => {
                    self.down.insert(callsign);
                }
                Action::Reconnect { callsign } => {
                    self.down.remove(&callsign);
                }
                Action::SetChannel(cfg) => self.config = Some(cfg),
                Action::StopAutoChat => self.timer = None,
                Action::StartAutoChat { interval_ms } => self.timer = Some(interval_ms),
            }
        }
    }

    fn transmit(&mut self, from: &str, dst: &str, text: &str) {
        for call in self.engine.callsigns() {
            let heard = call != from && !self.down.contains(&call);
            if heard && (dst == "ALL" || dst == call) {
                let scope = if dst == "ALL" { ChatScope::Broadcast } else { ChatScope::Private };
                let ev = StationEvent::Chat {
                    from: from.to_string(),
                    scope,
                    text: text.to_string(),
                };
                self.engine.on_station_event(&call, ev);
            }
        }
        self.logs.on_event(&ChannelEvent::Decoded {
            duration: 150,
            summary: Some(format!("{from} -> {dst} | CHAT")),
        });
    }

    fn snapshot(&self) -> EngineSnapshot {
        let mut s = EngineSnapshot::default();
        let snaps = self.engine.callsigns().iter().map(|c| station(c)).collect();
        s.publish_stations(&self.engine, snaps);
        s.publish_channel(channel(), &self.logs);
        s
    }

    fn add(&mut self, callsign: &str) {
        self.send(EngineCmd::AddStation { callsign: callsign.into(), mode: Mode::Qpsk });
    }
}

#[test]
fn engine_adds_stations_and_relays_chat() {
    let mut h = Net::new();
    for c in ["TA1ABC", "TA2DEF"] {
        h.add(c);
    }
    assert!(h.snapshot().stations.len() == 2);

    h.send(EngineCmd::Chat {
        callsign: "TA1ABC".into(),
        dst: "ALL".into(),
        text: "motor testi".into(),
    });
    let s = h.snapshot();
    assert!(
        s.stations
            .iter()
            .find(|v| v.snap.callsign == "TA2DEF")
            .map(|v| v.chat.iter().any(|c| c.text == "motor testi" && !c.own))
            .unwrap_or(false),
        "TA2DEF sohbeti motor üzerinden almalıydı"
    );
    assert!(!s.monitor_decodes.is_empty());
    assert!(s.net_chat.iter().any(|c| c.from == "TA1ABC" && c.text == "motor testi"));
    assert_eq!(s.net_chat.len(), 1);
}

#[test]
fn chat_all_and_auto_chat() {
    let mut h = Net::new();
    for c in ["TA1ABC", "TA2DEF", "TA3GHI"] {
        h.add(c);
    }
    assert!(h.snapshot().stations.len() == 3);

    h.send(EngineCmd::ChatAll { dst: "ALL".into(), text: "toplu selam".into() });
    let s = h.snapshot();
    let senders: BTreeSet<_> = s
        .net_chat
        .iter()
        .filter(|c| c.text == "toplu selam")
        .map(|c| c.from.as_str())
        .collect();
    assert!(senders.len() == 3);

    h.send(EngineCmd::SetAutoChat { enabled: true, interval_ms: 800 });
    assert!(h.snapshot().auto_chat_on);
    assert_eq!(h.timer, Some(800));
    let n0 = h.snapshot().net_chat.len();
    h.send(EngineCmd::AutoTick);
    assert!(h.snapshot().net_chat.len() > n0);
    h.send(EngineCmd::SetAutoChat { enabled: false, interval_ms: 800 });
    assert!(!h.snapshot().auto_chat_on);
    assert_eq!(h.timer, None);
}

#[test]
fn stations_are_in_order_and_taken_once() {
    let mut h = Net::new();
    for c in ["TA3GHI", " ta1abc ", "TA2DEF", "TA1ABC", "   ", "ta9çö"] {
        h.add(c);
    }
    assert_eq!(h.engine.callsigns(), ["TA1ABC", "TA2DEF", "TA3GHI", "TA9ÇÖ"]);
    h.send(EngineCmd::RemoveStation { callsign: "ta2def".into() });
    assert_eq!(h.engine.callsigns(), ["TA1ABC", "TA3GHI", "TA9ÇÖ"]);
    h.send(EngineCmd::RemoveStation { callsign: "TA2DEF".into() });
    assert_eq!(h.engine.station_count(), 3);
}

#[test]
fn unknown_station_is_ignored() {
    let mut h = Net::new();
    h.add("TA1ABC");
    for cmd in [
        EngineCmd::Chat { callsign: "TA2DEF".into(), dst: "ALL".into(), text: "x".into() },
        EngineCmd::Drop { callsign: "TA2DEF".into() },
        EngineCmd::Reconnect { callsign: "TA2DEF".into() },
        EngineCmd::SendFile { callsign: "TA2DEF".into(), path: "a".into(), dst: "ALL".into() },
    ] {
        assert!(h.engine.handle_station_cmd(cmd).is_empty());
    }
    assert!(h.engine.net_chat().is_empty());
}

#[test]
fn own_chat_is_private_unless_to_all() {
    let mut h = Net::new();
    h.add("TA1ABC");
    h.send(EngineCmd::Chat {
        callsign: "ta1abc".into(),
        dst: "TA2DEF".into(),
        text: "gizli".into(),
    });
    let line = h.engine.station_chat(0).pop().unwrap();
    assert_eq!((line.from.as_str(), line.dst.as_str()), ("TA1ABC", "TA2DEF"));
    assert!(line.private && line.own);
}

#[test]
fn private_chat_reaches_one_station() {
    let mut h = Net::new();
    for c in ["TA1ABC", "TA2DEF", "TA3GHI"] {
        h.add(c);
    }
    h.send(EngineCmd::Chat {
        callsign: "TA1ABC".into(),
        dst: "TA3GHI".into(),
        text: "sana".into(),
    });
    assert!(h.engine.station_chat(1).is_empty());
    let got = h.engine.station_chat(2).pop().unwrap();
    assert_eq!(got.dst, "(özel)");
    assert!(got.private && !got.own);
}

#[test]
fn private_chat_between_local_stations_is_one_line() {
    let mut h = Net::new();
    for c in ["TA1ABC", "TA2DEF"] {
        h.add(c);
    }
    h.send(EngineCmd::Chat {
        callsign: "TA1ABC".into(),
        dst: "TA2DEF".into(),
        text: "hi".into(),
    });
    assert_eq!(h.engine.station_chat(1).len(), 1);
    let net = h.engine.net_chat();
    assert_eq!(net.len(), 1);
    assert_eq!((net[0].dst.as_str(), net[0].own, net[0].private), ("TA2DEF", true, true));
}

#[test]
fn received_private_line_matches_only_private_lines_of_ours() {
    let got = || received_line("TA1ABC".into(), ChatScope::Private, "hi".into());
    for (dst, lines) in [("TA2DEF", 1), ("ALL", 2)] {
        let mut log = VecDeque::from([own_line("TA1ABC", dst, "hi")]);
        push_recv_chat(&mut log, got());
        assert_eq!(log.len(), lines);
    }
    let mut log = VecDeque::from([own_line("TA1ABC", "TA2DEF", "başka")]);
    push_recv_chat(&mut log, got());
    push_recv_chat(&mut log, got());
    assert_eq!(log.len(), 2);
    let mut log = VecDeque::from([own_line("TA1ABC", "TA2DEF", "hi")]);
    push_recv_chat(&mut log, received_line("TA1ABC".into(), ChatScope::Broadcast, "hi".into()));
    assert_eq!(log.len(), 2);
}

#[test]
fn late_reports_reach_only_the_merged_chat() {
    let mut e = Engine::new();
    e.station_started("TA1ABC".to_string());
    let chat = |text: &str| StationEvent::Chat {
        from: "TA9".to_string(),
        scope: ChatScope::Broadcast,
        text: text.to_string(),
    };
    e.on_report("TA1ABC", 1, Some(2), chat("geç"));
    e.on_report("TA1ABC", 1, None, StationEvent::Log("geç".to_string()));
    assert!(e.station_chat(0).is_empty() && e.station_log(0).is_empty());
    assert_eq!(e.net_chat().len(), 1);
    e.on_report("TA1ABC", 2, Some(2), chat("şimdi"));
    assert_eq!(e.station_chat(0).len(), 1);
    assert_eq!(e.net_chat().len(), 2);
}

#[test]
fn dropped_station_stays_silent_until_it_reconnects() {
    let mut h = Net::new();
    h.add("TA1ABC");
    h.add("TA2DEF");
    h.send(EngineCmd::Drop { callsign: "TA1ABC".into() });
    h.send(EngineCmd::ChatAll { dst: "ALL".into(), text: "kim var".into() });
    h.send(EngineCmd::SendFileAll { path: "resim.png".into(), dst: "ALL".into() });
    let from: Vec<String> = h.engine.net_chat().into_iter().map(|c| c.from).collect();
    assert_eq!(from, ["TA2DEF"]);
    assert_eq!(h.files, [("TA2DEF".to_string(), PathBuf::from("resim.png"), "ALL".to_string())]);
    h.send(EngineCmd::Reconnect { callsign: "TA1ABC".into() });
    h.send(EngineCmd::SendFileAll { path: "resim.png".into(), dst: "TA9".into() });
    assert_eq!(h.files.len(), 3);
    assert_eq!(h.files[1], ("TA1ABC".to_string(), PathBuf::from("resim.png"), "TA9".to_string()));
    assert_eq!(h.files[2].0, "TA2DEF");
}

#[test]
fn auto_chat_writes_a_phrase_for_a_connected_station() {
    let mut h = Net::new();
    h.send(EngineCmd::AutoTick);
    assert!(h.engine.net_chat().is_empty());
    for c in ["TA1ABC", "TA2DEF", "TA3GHI"] {
        h.add(c);
    }
    h.send(EngineCmd::Drop { callsign: "TA2DEF".into() });
    let phrases: Vec<&str> = (0..AUTO_PHRASES).map(auto_phrase).collect();
    for _ in 0..50 {
        h.send(EngineCmd::AutoTick);
    }
    for line in h.engine.net_chat() {
        assert_ne!(line.from, "TA2DEF");
        assert_eq!(line.dst, "ALL");
        assert!(phrases.contains(&line.text.as_str()));
    }
    assert_eq!(h.engine.net_chat().len(), 50);
}

#[test]
fn auto_chat_with_chosen_station_and_phrase() {
    let mut h = Net::new();
    h.add("TA1ABC");
    match h.engine.auto_chat_with(0, 13) {
        Action::SendChat { callsign, dst, text } => {
            assert_eq!((callsign.as_str(), dst.as_str()), ("TA1ABC", "ALL"));
            assert_eq!(text, "rapor bekliyorum");
        }
        other => panic!("{other:?}"),
    }
    assert_eq!(auto_phrase(0), "test test");
    assert_eq!(auto_phrase(4), "kanal nasıl?");
}

#[test]
fn auto_chat_has_one_timer() {
    let mut e = Engine::new();
    let on = |ms: u64| EngineCmd::SetAutoChat { enabled: true, interval_ms: ms };
    let first = e.dispatch(EngineMode::Client, on(100));
    assert!(matches!(first[..], [Action::StartAutoChat { interval_ms: 500 }]));
    let second = e.dispatch(EngineMode::Client, on(4000));
    assert!(matches!(
        second[..],
        [Action::StopAutoChat, Action::StartAutoChat { interval_ms: 4000 }]
    ));
    assert!(e.auto_chat_on());
    let off = EngineCmd::SetAutoChat { enabled: false, interval_ms: 1 };
    assert!(matches!(e.dispatch(EngineMode::Client, off)[..], [Action::StopAutoChat]));
    let off = EngineCmd::SetAutoChat { enabled: false, interval_ms: 1 };
    assert!(e.dispatch(EngineMode::Client, off).is_empty());
}

#[test]
fn modes_keep_to_their_part() {
    let cfg = ChannelConfig { snr_db: Some(13_000_000), multipath_delay_ms: 0, multipath_gain: 0 };
    let add = || EngineCmd::AddStation { callsign: "TA1ABC".into(), mode: Mode::Bpsk };
    for mode in [EngineMode::AllInOne, EngineMode::ChannelHost] {
        let acts = Engine::new().dispatch(mode, EngineCmd::SetChannel(cfg));
        assert!(matches!(acts[..], [Action::SetChannel(c)] if c == cfg));
    }
    for mode in [EngineMode::Client, EngineMode::Monitor] {
        assert!(Engine::new().dispatch(mode, EngineCmd::SetChannel(cfg)).is_empty());
    }
    for mode in [EngineMode::AllInOne, EngineMode::Client] {
        let acts = Engine::new().dispatch(mode, add());
        assert!(matches!(
            &acts[..],
            [Action::StartStation { callsign, requested, mode: Mode::Bpsk }]
                if callsign == "TA1ABC" && requested == "TA1ABC"
        ));
    }
    for mode in [EngineMode::ChannelHost, EngineMode::Monitor] {
        assert!(Engine::new().dispatch(mode, add()).is_empty());
    }
}

#[test]
fn call_signs_are_trimmed_and_capital() {
    let e = Engine::new();
    assert_eq!(e.admit_station(" \tta1xyz\u{a0}\n"), Some("TA1XYZ".to_string()));
    assert_eq!(e.admit_station("straße"), Some("STRASSE".to_string()));
    assert_eq!(e.admit_station(" \u{3000} "), None);
    match &mut Engine::new()
        .handle_station_cmd(EngineCmd::AddStation { callsign: " ta1 ".into(), mode: Mode::Qpsk })[..]
    {
        [Action::StartStation { callsign, requested, mode }] => {
            assert_eq!(callsign, "TA1");
            assert_eq!(requested, " ta1 ");
            assert_eq!(*mode, Mode::Qpsk);
        }
        _ => panic!("a station was expected"),
    }
}

#[test]
fn station_log_is_bounded() {
    let mut e = Engine::new();
    e.station_started("TA1ABC".to_string());
    for i in 0..310 {
        e.on_station_event("TA1ABC", StationEvent::Log(format!("satır {i}")));
    }
    e.on_station_event("TA1ABC", StationEvent::Other);
    e.on_station_event("TA2DEF", StationEvent::Log("kimse".to_string()));
    let log = e.station_log(0);
    assert_eq!(log.len(), 300);
    assert_eq!(log[0], "satır 10");
    assert_eq!(log[299], "satır 309");
}

#[test]
fn chats_are_bounded() {
    let mut e = Engine::new();
    e.station_started("TA1ABC".to_string());
    for i in 0..410 {
        e.handle_station_cmd(EngineCmd::Chat {
            callsign: "TA1ABC".into(),
            dst: "ALL".into(),
            text: format!("{i}"),
        });
    }
    assert_eq!(e.station_chat(0).len(), 200);
    assert_eq!(e.net_chat().len(), 400);
    assert_eq!(e.net_chat()[399].text, "409");
    assert_eq!(e.net_chat()[0].text, "10");
}

#[test]
fn received_twice_is_one_line_within_the_last_sixteen() {
    let mut e = Engine::new();
    let ev = |text: &str| StationEvent::Chat {
        from: "TA9".to_string(),
        scope: ChatScope::Broadcast,
        text: text.to_string(),
    };
    e.on_station_event("", ev("selam"));
    e.on_station_event("", ev("selam"));
    assert_eq!(e.net_chat().len(), 1);
    for i in 0..15 {
        e.on_station_event("", ev(&format!("{i}")));
    }
    e.on_station_event("", ev("selam"));
    assert_eq!(e.net_chat().len(), 16);
    e.on_station_event("", ev("15"));
    e.on_station_event("", ev("selam"));
    assert_eq!(e.net_chat().len(), 18);
}

#[test]
fn a_station_that_starts_again_is_fresh() {
    let mut e = Engine::new();
    e.station_started("TA1ABC".to_string());
    e.on_station_event("TA1ABC", StationEvent::Log("eski".to_string()));
    e.station_started("TA1ABC".to_string());
    assert_eq!(e.station_count(), 1);
    assert!(e.station_log(0).is_empty());
}

#[test]
fn snapshots_keep_what_they_do_not_take_over() {
    let mut s = EngineSnapshot::default();
    s.link_addr = Some("127.0.0.1:6000".to_string());
    let mut logs = ChannelLogs::new();
    logs.push_event_line("olay".to_string());
    logs.push_decode_line("çözüm".to_string());
    s.publish_decodes(&logs);
    assert!(s.channel.is_none() && s.channel_log.is_empty());
    assert_eq!(s.monitor_decodes, ["çözüm"]);
    s.publish_channel(channel(), &logs);
    assert_eq!(s.channel_log, ["olay"]);
    assert!(s.channel.is_some());
    assert_eq!(s.link_addr.as_deref(), Some("127.0.0.1:6000"));
}
