use std::collections::VecDeque;
use std::path::PathBuf;
use std::sync::Arc;

use atchat::app::{
    destinations, net_is_idle, no_transfers, roster_calls, view_calls, AppConfig, AudioSwitch,
    ChannelControls, ImageCursor, NetTab, StationsTab, Tab,
};
use atchat::chat::{own_line, received_line, ChatScope};
use atchat::engine::EngineCmd;
use atchat::labels::{
    channel_state_line, chat_label, header, image_label, incoming_line, net_chat_label,
    net_incoming_line, net_outgoing_line, outgoing_line, roster_age_text, roster_status_text,
    station_label, station_status_line, Header,
};
use atchat::panel::{drain_ring, Feed, MonitorPanel, FFT_SIZES, SCOPE_CAP, WF_H, WF_W};
use atchat::snapshot::StationView;
use atchat::station::{
    ChannelConfig, ChannelSnapshot, Mode, ReceivedImage, Role, RosterEntry, RosterStatus,
    StationSnapshot, TransferSnapshot,
};
use atchat::view::{
    grid_label, grid_lines, scope_window, spectrum_bin, spectrum_caption, view_bins, view_hz,
};
use atchat::{Colormap, DB_FLOOR};

fn station(callsign: &str) -> StationSnapshot {
    StationSnapshot {
        callsign: callsign.to_string(),
        role: Role::Master,
        master: Some("TA1".to_string()),
        backup: None,
        connected: true,
        roster: vec![
            RosterEntry { callsign: "TA2".into(), status: RosterStatus::Active, age: 3 },
            RosterEntry { callsign: "TA3".into(), status: RosterStatus::Lost, age: 61 },
        ],
        transfers_out: vec![],
        transfers_in: vec![],
    }
}

fn view(callsign: &str) -> StationView {
    StationView { snap: station(callsign), log: vec![], chat: vec![] }
}

fn transfer(arq_round: u64, complete: bool) -> TransferSnapshot {
    TransferSnapshot {
        filename: "a.png".to_string(),
        peer: "ALL".to_string(),
        have: 3,
        total: 12,
        arq_round,
        complete,
    }
}

fn channel(busy: bool, tx: Option<&str>) -> ChannelSnapshot {
    ChannelSnapshot {
        busy,
        current_tx: tx.map(|s| s.to_string()),
        busy_tenths: 14,
        busy_hundredths: 137,
        active_clients: 4,
    }
}

#[test]
fn tabs_have_labels() {
    let tabs = [Tab::Channel, Tab::Stations, Tab::Net, Tab::Monitor];
    let labels: Vec<&str> = tabs.iter().map(|t| t.label()).collect();
    assert_eq!(labels, ["Kanal", "İstasyonlar", "NET", "Monitör"]);
    let cfg = |tabs: Vec<Tab>| AppConfig { title: "x".into(), tabs };
    assert_eq!(cfg(vec![]).first_tab(), Tab::Stations);
    assert_eq!(cfg(vec![Tab::Monitor, Tab::Net]).first_tab(), Tab::Monitor);
}

#[test]
fn channel_controls_make_physics() {
    let mut c = ChannelControls::new();
    let cfg = |c: &ChannelControls| match c.apply_channel() {
        EngineCmd::SetChannel(cfg) => cfg,
        other => panic!("{other:?}"),
    };
    let clean = ChannelConfig { snr_db: None, multipath_delay_ms: 0, multipath_gain: 0 };
    assert_eq!(cfg(&c), clean);
    c.preset_arq();
    assert_eq!(cfg(&c), ChannelConfig { snr_db: Some(13_000_000), ..clean });
    c.preset_multipath();
    assert_eq!(
        cfg(&c),
        ChannelConfig { snr_db: None, multipath_delay_ms: 15_000_000, multipath_gain: 250_000 }
    );
    c.preset_clean();
    assert_eq!(cfg(&c), clean);
    assert_eq!(c.snr_db, 13_000_000);
}

#[test]
fn stations_tab_adds_and_removes() {
    let mut t = StationsTab::new();
    match t.add() {
        Some(EngineCmd::AddStation { callsign, mode }) => {
            assert_eq!(callsign, "TA1ABC");
            assert_eq!(mode, Mode::Qpsk);
        }
        other => panic!("{other:?}"),
    }
    assert_eq!(t.new_call, "");
    assert!(t.add().is_none());
    t.new_call = "  ta2ğ ".into();
    t.new_mode = Mode::Bpsk;
    match t.add() {
        Some(EngineCmd::AddStation { callsign, mode }) => {
            assert_eq!(callsign, "TA2Ğ");
            assert_eq!(mode, Mode::Bpsk);
        }
        other => panic!("{other:?}"),
    }
    t.selected = Some("TA1".into());
    assert!(t.is_selected("TA1") && !t.is_selected("TA2"));
    assert!(matches!(t.remove("TA2"), EngineCmd::RemoveStation { callsign } if callsign == "TA2"));
    assert!(t.is_selected("TA1"));
    t.remove("TA1");
    assert!(t.selected.is_none());
}

#[test]
fn selection_is_kept_while_the_station_is_shown() {
    let mut t = StationsTab::new();
    let views = vec![view("TA1"), view("TA2")];
    assert_eq!(t.shown(&views), None);
    t.selected = Some("TA2".into());
    assert_eq!(t.shown(&views), Some(1));
    assert!(t.is_selected("TA2"));
    t.selected = Some("TA7".into());
    assert_eq!(t.shown(&views), None);
    assert!(t.selected.is_none());
}

#[test]
fn blank_messages_are_not_sent() {
    let mut t = StationsTab::new();
    t.chat_input = " \t ".into();
    assert!(t.send_chat("TA1").is_none());
    assert_eq!(t.chat_input, " \t ");
    let mut n = NetTab::new();
    n.msg = "  ".into();
    assert!(n.send().is_none());
    assert!(n.send_all().is_none());
    assert_eq!(n.msg, "  ");
}

#[test]
fn stations_tab_sends_messages_and_files() {
    let mut t = StationsTab::new();
    t.chat_input = "  selam dünya ".into();
    t.chat_dst = "TA3".into();
    match t.send_chat("TA1") {
        Some(EngineCmd::Chat { callsign, dst, text }) => {
            assert_eq!((callsign.as_str(), dst.as_str()), ("TA1", "TA3"));
            assert_eq!(text, "selam dünya");
        }
        other => panic!("{other:?}"),
    }
    assert_eq!(t.chat_input, "");
    match t.send_file("TA1", "x/y.png".into()) {
        EngineCmd::SendFile { callsign, path, dst } => {
            assert_eq!((callsign.as_str(), dst.as_str()), ("TA1", "TA3"));
            assert_eq!(path, PathBuf::from("x/y.png"));
        }
        other => panic!("{other:?}"),
    }
}

#[test]
fn net_tab_speaks_as_one_of_the_stations() {
    let mut n = NetTab::new();
    assert!(!n.sync(&vec![]));
    assert_eq!(n.from, "");
    let calls = view_calls(&vec![view("TA1"), view("TA2")]);
    assert_eq!(calls, ["TA1", "TA2"]);
    assert!(n.sync(&calls));
    assert_eq!(n.from, "TA1");
    n.from = "TA2".into();
    assert!(n.sync(&calls));
    assert_eq!(n.from, "TA2");
    n.from = "TA9".into();
    n.sync(&calls);
    assert_eq!(n.from, "TA1");
    n.msg = " hep birlikte ".into();
    match n.send() {
        Some(EngineCmd::Chat { callsign, dst, text }) => {
            assert_eq!((callsign.as_str(), dst.as_str()), ("TA1", "ALL"));
            assert_eq!(text, "hep birlikte");
        }
        other => panic!("{other:?}"),
    }
    assert_eq!(n.msg, "");
    n.msg = "yine".into();
    n.dst = "TA2".into();
    match n.send_all() {
        Some(EngineCmd::ChatAll { dst, text }) => {
            assert_eq!((dst.as_str(), text.as_str()), ("TA2", "yine"));
        }
        other => panic!("{other:?}"),
    }
    assert_eq!(n.msg, "");
}

#[test]
fn net_tab_sets_the_automatic_chat() {
    let mut n = NetTab::new();
    assert!(matches!(
        n.set_auto(true),
        EngineCmd::SetAutoChat { enabled: true, interval_ms: 4000 }
    ));
    assert!(n.set_interval(1500, false).is_none());
    assert!(matches!(
        n.set_interval(2500, true),
        Some(EngineCmd::SetAutoChat { enabled: true, interval_ms: 2500 })
    ));
    assert!(matches!(
        n.set_auto(false),
        EngineCmd::SetAutoChat { enabled: false, interval_ms: 2500 }
    ));
}

#[test]
fn net_tab_sends_files() {
    let mut n = NetTab::new();
    n.from = "TA1".into();
    n.file_dst = "TA2".into();
    assert!(matches!(
        n.send_file("f".into()),
        EngineCmd::SendFile { callsign, path, dst }
            if callsign == "TA1" && path == PathBuf::from("f") && dst == "TA2"
    ));
    assert!(matches!(
        n.send_file_all("g".into()),
        EngineCmd::SendFileAll { path, dst } if path == PathBuf::from("g") && dst == "TA2"
    ));
}

#[test]
fn destinations_start_with_everyone() {
    let calls = roster_calls(&station("TA1").roster);
    assert_eq!(calls, ["TA2", "TA3"]);
    assert_eq!(destinations(&calls), ["ALL", "TA2", "TA3"]);
    assert_eq!(destinations(&vec![]), ["ALL"]);
}

#[test]
fn transfers_are_noticed() {
    let mut views = vec![view("TA1"), view("TA2")];
    assert!(net_is_idle(&views));
    assert!(no_transfers(&views[1].snap));
    views[1].snap.transfers_in.push(transfer(0, false));
    assert!(!no_transfers(&views[1].snap));
    assert!(!net_is_idle(&views));
}

#[test]
fn images_follow_the_newest() {
    let mut c = ImageCursor::new();
    assert!(!c.observe(0));
    assert!(c.observe(1));
    assert_eq!(c.idx, 0);
    c.observe(3);
    assert_eq!((c.idx, c.position_text(3).as_str()), (2, "3/3"));
    assert!(c.has_previous() && !c.has_next(3));
    c.previous();
    c.observe(4);
    assert_eq!((c.idx, c.position_text(4).as_str()), (1, "2/4"));
    c.next(4);
    c.next(4);
    c.next(4);
    assert_eq!(c.idx, 3);
    c.observe(2);
    assert_eq!(c.idx, 1);
    c.previous();
    c.previous();
    assert_eq!(c.idx, 0);
    assert!(!c.observe(0));
    assert_eq!(c.seen, 0);
}

#[test]
fn audio_switch_notices_a_missing_device() {
    let mut a = AudioSwitch::new();
    assert!(!a.started(false));
    assert_eq!((a.on, a.failed), (false, true));
    assert!(a.started(true));
    assert_eq!((a.on, a.failed), (true, false));
    assert!(!a.stopped());
    assert_eq!((a.on, a.failed), (false, false));
    assert!(a.started(true));
    let mut ring: VecDeque<i16> = VecDeque::from([1, 2, 3]);
    assert!(!a.switch_off(&mut ring));
    assert!(ring.is_empty());
    assert_eq!((a.on, a.failed), (false, false));
}

#[test]
fn header_shows_channel_or_address() {
    let addr = Some("127.0.0.1:6000".to_string());
    match header(&Some(channel(true, Some("TA1"))), &addr) {
        Header::Channel { state, busy, stations } => {
            assert!(busy);
            assert_eq!(state, "MEŞGUL — TA1 (1.4sn)");
            assert_eq!(stations, "4 istasyon");
        }
        _ => panic!("a busy channel was expected"),
    }
    match header(&Some(channel(false, None)), &addr) {
        Header::Channel { state, busy, stations } => {
            assert!(!busy);
            assert_eq!(state, "kanal boş");
            assert_eq!(stations, "4 istasyon");
        }
        _ => panic!("a free channel was expected"),
    }
    match header(&None, &addr) {
        Header::Link(s) => assert_eq!(s, "↔ 127.0.0.1:6000"),
        _ => panic!("an address was expected"),
    }
    assert!(matches!(header(&None, &None), Header::Empty));
}

#[test]
fn channel_state_is_spelled_out() {
    assert_eq!(
        channel_state_line(&channel(true, Some("TA1"))),
        "Durum: MEŞGUL (TA1, 1.37sn kaldı)   |   aktif istasyon: 4"
    );
    assert_eq!(
        channel_state_line(&channel(true, None)),
        "Durum: MEŞGUL (, 1.37sn kaldı)   |   aktif istasyon: 4"
    );
    assert_eq!(
        channel_state_line(&channel(false, Some("TA1"))),
        "Durum: boş   |   aktif istasyon: 4"
    );
}

#[test]
fn stations_are_labelled() {
    let mut s = station("TA1");
    assert_eq!(station_label(&s), "TA1  [MASTER]");
    assert_eq!(station_status_line(&s), "master=TA1  backup=-  bağlı");
    s.role = Role::Backup;
    s.connected = false;
    s.backup = Some("TA2".into());
    assert_eq!(station_label(&s), "TA1  [BACKUP]");
    assert_eq!(station_status_line(&s), "master=TA1  backup=TA2  KOPUK");
    s.role = Role::Listener;
    assert_eq!(station_label(&s), "TA1  [LISTENER]");
    assert_eq!(roster_status_text(RosterStatus::Active), "aktif");
    assert_eq!(roster_status_text(RosterStatus::Lost), "kayıp");
    assert_eq!(roster_age_text(&s.roster[1]), "61sn önce");
    assert_eq!((Mode::Qpsk.as_str(), Mode::Bpsk.as_str()), ("QPSK", "BPSK"));
}

#[test]
fn transfers_are_labelled() {
    assert_eq!(outgoing_line(&transfer(0, false)), "↑ a.png -> ALL 3/12");
    assert_eq!(outgoing_line(&transfer(2, false)), "↑ a.png -> ALL 3/12 (ARQ 2)");
    assert_eq!(incoming_line(&transfer(2, false)), "↓ a.png <- ALL 3/12");
    assert_eq!(incoming_line(&transfer(0, true)), "↓ a.png <- ALL 3/12  ✓");
    assert_eq!(net_outgoing_line("TA1", &transfer(0, true)), "TA1 ↑ a.png → ALL 3/12");
    assert_eq!(net_outgoing_line("TA1", &transfer(1, true)), "TA1 ↑ a.png → ALL 3/12 ARQ1");
    assert_eq!(net_incoming_line("TA1", &transfer(0, false)), "TA1 ↓ a.png ← ALL 3/12");
    assert_eq!(net_incoming_line("TA1", &transfer(0, true)), "TA1 ↓ a.png ← ALL 3/12  ✓");
}

#[test]
fn chats_are_labelled() {
    let mine = own_line("TA1", "TA2", "merhaba");
    assert_eq!(chat_label(&mine), "[özel] TA1: merhaba");
    assert_eq!(net_chat_label(&mine), "TA1 → TA2: merhaba");
    let got = received_line("TA3".into(), ChatScope::Broadcast, "selam".into());
    assert_eq!(chat_label(&got), "[herkese] TA3: selam");
    assert_eq!(net_chat_label(&got), "TA3: selam");
    let secret = received_line("TA3".into(), ChatScope::Private, "selam".into());
    assert_eq!(net_chat_label(&secret), "TA3 → (özel): selam");
}

#[test]
fn images_are_labelled() {
    let img = ReceivedImage {
        from: "TA1".into(),
        filename: "a.png".into(),
        when: "12:00:01".into(),
        width: 64,
        height: 48,
        rgba: Arc::new(vec![]),
    };
    assert_eq!(image_label(&img), "TA1  ·  a.png  ·  12:00:01 UTC  ·  64×48");
}

#[test]
fn views_show_a_band() {
    assert_eq!((view_hz(false), view_hz(true)), (4000, 2760));
    assert_eq!(view_bins(false, 512), 512);
    assert_eq!(view_bins(true, 512), 353);
    assert_eq!(view_bins(true, 256), 177);
    assert_eq!(view_bins(true, 0), 1);
    assert_eq!(view_bins(true, 1), 1);
    assert_eq!(grid_lines(2760), [500, 1000, 1500, 2000, 2500]);
    assert_eq!(grid_lines(4000), [500, 1000, 1500, 2000, 2500, 3000, 3500]);
    assert_eq!(grid_lines(501), Vec::<u32>::new());
    assert_eq!((grid_label(500), grid_label(1500)), ("500".into(), "1.5k".into()));
    assert_eq!(
        spectrum_caption(true),
        "Spektrum (0–2.8 kHz, gölge = 312–2688 Hz veri bandı)"
    );
    assert_eq!(
        spectrum_caption(false),
        "Spektrum (0–4.0 kHz, gölge = 312–2688 Hz veri bandı)"
    );
    assert_eq!(scope_window(250_000), 2000);
    assert_eq!((spectrum_bin(0, 353, 100), spectrum_bin(99, 353, 100)), (0, 348));
}

#[test]
fn rings_are_drained() {
    let mut r: VecDeque<i16> = VecDeque::from([3, 1, 2]);
    assert_eq!(drain_ring(&mut r), [3, 1, 2]);
    assert!(r.is_empty());
    assert_eq!(drain_ring(&mut r), Vec::<i16>::new());
}

#[test]
fn panel_takes_samples_and_scrolls() {
    let mut p = MonitorPanel::new();
    assert_eq!((p.waterfall.width(), p.waterfall.height()), (WF_W, WF_H));
    assert_eq!((p.fft_size, p.cmap), (1024, Colormap::Turbo));
    assert_eq!(p.spectrum.magnitudes_db(), &vec![DB_FLOOR; 512]);
    assert_eq!(p.spectrum.peak_db(), &vec![DB_FLOOR; 512]);
    assert_eq!(p.drain_monitor_samples(&[]), Feed::Idle);
    assert_eq!(p.drain_monitor_samples(&[5; 1023]), Feed::Scroll);
    assert_eq!(p.drain_monitor_samples(&[6]), Feed::Transform);
    assert_eq!(p.scope.len(), 1024);
    p.drain_monitor_samples(&vec![1; SCOPE_CAP]);
    assert_eq!(p.scope.len(), SCOPE_CAP);
    let mut row = vec![-95_000_000; 512];
    row[511] = -20_000_000;
    p.spectrum.apply_row(&row);
    p.scroll();
    assert_eq!(p.waterfall.rows_filled(), 1);
    let gray = p.waterfall.to_rgb(Colormap::Gray, true);
    assert_eq!((gray[0], gray[(WF_W - 1) * 3]), (0, 255));
    p.set_zoom(true);
    assert_eq!(p.waterfall.rows_filled(), 0);
    p.scroll();
    let gray = p.waterfall.to_rgb(Colormap::Gray, true);
    assert_eq!((gray[0], gray[(WF_W - 1) * 3]), (0, 0));
}

#[test]
fn panel_draws_traces() {
    let mut p = MonitorPanel::new();
    let mut row = vec![-95_000_000; 512];
    row[0] = -20_000_000;
    p.spectrum.apply_row(&row);
    p.spectrum.apply_row(&vec![-95_000_000; 512]);
    let t = p.traces(4);
    assert_eq!(t, [(0, 1_000_000), (0, 0), (0, 0), (0, 0)]);
    assert!(p.traces(0).is_empty());
}

#[test]
fn panel_controls_reach_the_spectrum() {
    let mut p = MonitorPanel::new();
    p.set_averaging(950_000);
    p.drain_monitor_samples(&[1; 2000]);
    p.set_fft_size(FFT_SIZES[2]);
    assert_eq!((p.fft_size, p.spectrum.size()), (2048, 2048));
    assert_eq!(p.spectrum.averaging(), 950_000);
    assert!(!p.spectrum.is_primed());
    assert_eq!(p.drain_monitor_samples(&[1; 2047]), Feed::Scroll);
}
