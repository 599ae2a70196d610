use std::collections::VecDeque;

use atchat::events::{
    closing_line, connect_failed_line, connected_line, decode_line, fmt_channel_event, host_addr,
    link_lost_line, listening_line, log_event, now, port_failed_line, started_line,
    ChannelEvent, ChannelLogs,
};
use atchat::monitor::{
    burst_line, frame_summary, fresh_monitor_callsign, monitor_callsign, on_link_event,
    summary_line, LinkAction, LinkEvent,
};
use atchat::ring::{
    feed_hop, feed_rings, fill_ring, frame_count, hop_end, push_cap, AudioStage, AUDIO_RING_CAP,
    GUI_RING_CAP,
};
use atchat::text::{
    push_decimal, push_decimal_padded_left, push_hex4, push_hundredths, push_padded_right,
    push_tenths, push_two_digits, same_text, text_less, trim,
};

fn built<F: Fn(&mut String)>(f: F) -> String {
    let mut s = String::from(">");
    f(&mut s);
    s
}

#[test]
fn numbers_become_text() {
    assert_eq!(built(|s| push_decimal(s, 0)), ">0");
    assert_eq!(built(|s| push_decimal(s, u64::MAX)), ">18446744073709551615");
    assert_eq!(built(|s| push_two_digits(s, 7)), ">07");
    assert_eq!(built(|s| push_hundredths(s, 5)), ">0.05");
    assert_eq!(built(|s| push_hundredths(s, 1234)), ">12.34");
    assert_eq!(built(|s| push_tenths(s, 1234)), ">123.4");
    assert_eq!(built(|s| push_padded_right(s, "ç1", 4)), ">ç1  ");
    assert_eq!(built(|s| push_padded_right(s, "TA1ABCDEF", 8)), ">TA1ABCDEF");
    assert_eq!(built(|s| push_decimal_padded_left(s, 42, 6)), ">    42");
    assert_eq!(built(|s| push_decimal_padded_left(s, 1234567, 6)), ">1234567");
    assert_eq!(built(|s| push_hex4(s, 0x0a9f)), ">0A9F");
}

#[test]
fn texts_are_trimmed_and_compared() {
    let samples = [" a ", "\t\n x y \u{2003}", "", "   ", "ğ\u{85}", "\u{feff}z"];
    for s in samples {
        assert_eq!(trim(s), s.trim());
    }
    for a in ["", "a", "ab", "b", "ç", "𝄞", "\u{ffff}"] {
        for b in ["", "a", "ab", "b", "ç", "𝄞", "\u{ffff}"] {
            assert_eq!(text_less(a, b), a < b);
            assert_eq!(same_text(a, b), a == b);
        }
    }
}

fn sample_events() -> Vec<ChannelEvent> {
    vec![
        ChannelEvent::Joined { callsign: "TA1ABC".into(), active: 2 },
        ChannelEvent::Left { callsign: "TA1ABC".into(), active: 1 },
        ChannelEvent::TxGranted { src: "TA1ABC".into(), n_samples: 12000, duration: 150 },
        ChannelEvent::TxDenied { src: "TA1ABC".into(), retry_after: 7 },
        ChannelEvent::Delivered,
        ChannelEvent::Decoded { duration: 150, summary: Some("A -> B | CHAT".into()) },
        ChannelEvent::Decoded { duration: 150, summary: None },
    ]
}

#[test]
fn channel_events_become_log_lines() {
    let lines: Vec<String> = sample_events().iter().map(fmt_channel_event).collect();
    assert_eq!(
        lines,
        [
            "TA1ABC bağlandı (2 aktif)",
            "TA1ABC ayrıldı (1 aktif)",
            "TA1ABC yayında | 12000 örnek | 1.50sn",
            "TA1ABC MEŞGUL | retry 0.07sn",
            "",
            "",
            "",
        ]
    );
}

#[test]
fn channel_events_become_console_lines() {
    let lines: Vec<Option<String>> =
        sample_events().iter().map(|e| log_event(e, "12:34:56")).collect();
    let expected = [
        Some("[KANAL 12:34:56] TA1ABC bağlandı (2 istasyon aktif)"),
        Some("[KANAL 12:34:56] TA1ABC bağlantısı koptu (1 istasyon aktif)"),
        Some("[KANAL 12:34:56] TA1ABC   -> ALL      | ses |  12000 örnek | süre=1.50sn"),
        Some("[KANAL 12:34:56] TA1ABC   -> MEŞGUL   | retry_after=0.07sn"),
        None,
        Some("[DİNLE 12:34:56] A -> B | CHAT | 1.50sn | çözüldü"),
        Some("[DİNLE 12:34:56] 1.50sn | çözülemedi"),
    ];
    let expected: Vec<Option<String>> =
        expected.iter().map(|l| l.map(|s| s.to_string())).collect();
    assert_eq!(lines, expected);
}

#[test]
fn clock_shows_the_time_of_day() {
    assert_eq!(now(0), "00:00:00");
    assert_eq!(now(86399), "23:59:59");
    assert_eq!(now(86400), "00:00:00");
    assert_eq!(now(1_700_000_000), "22:13:20");
    assert_eq!(now(u64::MAX), "07:00:15");
}

#[test]
fn programs_say_what_they_do() {
    assert_eq!(closing_line("01:02:03"), "\n[KANAL 01:02:03] kapatılıyor");
    assert_eq!(
        started_line("01:02:03", 6000, "Some(13.0)", "3", "0.2"),
        "[KANAL 01:02:03] dinleniyor: 127.0.0.1:6000  (snr=Some(13.0), multipath=3ms@0.2)"
    );
    let addr = host_addr(6000);
    assert_eq!(addr, "127.0.0.1:6000");
    assert_eq!(listening_line(&addr), "dinleniyor: 127.0.0.1:6000");
    assert_eq!(port_failed_line(&addr, "dolu"), "PORT AÇILAMADI 127.0.0.1:6000: dolu");
    assert_eq!(connected_line(&addr), "bağlandı: 127.0.0.1:6000");
    assert_eq!(link_lost_line(), "bağlantı koptu, yeniden deneniyor…");
    assert_eq!(connect_failed_line("ret"), "bağlanılamadı (ret), yeniden…");
}

#[test]
fn logs_are_sorted_and_bounded() {
    let mut logs = ChannelLogs::new();
    for e in sample_events() {
        logs.on_event(&e);
    }
    assert_eq!(logs.events().len(), 4);
    assert_eq!(
        logs.decodes(),
        ["A -> B | CHAT | 1.50sn | çözüldü", "1.50sn | çözülemedi"]
    );
    for i in 0..300 {
        logs.on_event(&ChannelEvent::Joined { callsign: "TA".into(), active: i });
        logs.on_event(&ChannelEvent::Decoded { duration: i, summary: None });
    }
    assert_eq!(logs.events().len(), 200);
    assert_eq!(logs.decodes().len(), 120);
    assert_eq!(logs.events()[199], "TA bağlandı (299 aktif)");
    assert_eq!(logs.decodes()[119], "2.99sn | çözülemedi");
}

#[test]
fn frames_are_summarised() {
    let frame = |s: &str| frame_summary(s.as_bytes());
    assert_eq!(
        frame(r#"{"type":"JOIN_REQUEST","src":"TA9ZZZ","dst":"TA1"}"#).as_deref(),
        Some("TA9ZZZ -> TA1 | JOIN_REQUEST")
    );
    assert_eq!(frame(r#"{"src":7,"type":"çı"}"#).as_deref(), Some("? -> ALL | çı"));
    assert_eq!(frame("[1,2]").as_deref(), Some("? -> ALL | ?"));
    assert_eq!(frame("3").as_deref(), Some("? -> ALL | ?"));
    assert_eq!(frame("{"), None);
    assert_eq!(frame_summary(&[0xff, 0x00]), None);
    assert_eq!(summary_line(&None, &Some("X".into()), &None), "? -> X | ?");
}

#[test]
fn bursts_become_decode_lines() {
    let payload = br#"{"type":"CHAT","src":"TA1"}"#.to_vec();
    assert_eq!(burst_line(&Some(payload), 90), "TA1 -> ALL | CHAT | 0.90sn | çözüldü");
    assert_eq!(burst_line(&Some(vec![1, 2]), 90), "0.90sn | çözülemedi");
    assert_eq!(burst_line(&None, 90), "0.90sn | çözülemedi");
    assert_eq!(decode_line(1005, &Some("s".into())), "s | 10.05sn | çözüldü");
}

#[test]
fn monitors_have_call_signs() {
    assert_eq!(monitor_callsign(0), "MON-0000");
    assert_eq!(monitor_callsign(0xbeef), "MON-BEEF");
    let mut seen: Vec<String> = (0..64).map(|_| fresh_monitor_callsign()).collect();
    for c in &seen {
        assert_eq!(c.len(), 8);
        assert!(c.starts_with("MON-"));
        assert!(u16::from_str_radix(&c[4..], 16).is_ok());
    }
    seen.sort();
    seen.dedup();
    assert!(seen.len() > 1);
}

#[test]
fn queues_keep_the_newest() {
    let mut q: VecDeque<u8> = VecDeque::new();
    for i in 0..5 {
        push_cap(&mut q, i, 3);
    }
    assert_eq!(q, [2, 3, 4]);
    push_cap(&mut q, 9, 0);
    assert!(q.is_empty());
    let mut r: VecDeque<i16> = VecDeque::from([1, 2]);
    fill_ring(&mut r, &[3, 4, 5], 4);
    assert_eq!(r, [2, 3, 4, 5]);
    fill_ring(&mut r, &[], 4);
    assert_eq!(r, [2, 3, 4, 5]);
}

#[test]
fn air_reaches_the_speaker_only_when_enabled() {
    let (mut gui, mut audio) = (VecDeque::new(), VecDeque::new());
    feed_rings(&mut gui, &mut audio, false, &[1, 2]);
    assert_eq!((gui.len(), audio.len()), (2, 0));
    feed_rings(&mut gui, &mut audio, true, &[3]);
    assert_eq!(gui, [1, 2, 3]);
    assert_eq!(audio, [3]);
    let long: Vec<i16> = (0..40_000).map(|i| (i % 1000) as i16).collect();
    feed_rings(&mut gui, &mut audio, true, &long);
    assert_eq!((gui.len(), audio.len()), (GUI_RING_CAP, AUDIO_RING_CAP));
    assert_eq!(audio.back(), Some(&999));
}

#[test]
fn paced_burst_arrives_whole() {
    let burst: Vec<i16> = (0..401).collect();
    let (mut gui, mut audio) = (VecDeque::from([-1i16]), VecDeque::new());
    let mut i = 0;
    let mut hops = vec![];
    while i < burst.len() {
        i = feed_hop(&mut gui, &mut audio, true, &burst, i);
        hops.push(i);
    }
    assert_eq!(hops, [160, 320, 401]);
    assert_eq!(audio, burst);
    assert_eq!(gui.len(), 402);
    assert_eq!(hop_end(0, 160), 160);
    assert_eq!(hop_end(5, 5), 5);
}

#[test]
fn audio_is_staged_and_consumed() {
    let mut ring: VecDeque<i16> = (1..=5).collect();
    let mut stage = AudioStage::new();
    assert!(stage.is_empty());
    assert_eq!(stage.next_sample(1), None);
    stage.refill(&mut ring, 3);
    assert_eq!(ring, [4, 5]);
    assert_eq!(stage.next_sample(0), Some(1));
    assert_eq!(stage.next_sample(2), Some(1));
    assert_eq!(stage.next_sample(0), Some(3));
    stage.refill(&mut ring, 9);
    assert!(ring.is_empty());
    assert_eq!(stage.next_sample(7), Some(3));
    assert_eq!(stage.next_sample(1), None);
    assert_eq!(frame_count(1024, 2), 512);
    assert_eq!(frame_count(9, 0), 9);
}

#[test]
fn monitor_notes_its_link_and_connects_anew() {
    let mut logs = ChannelLogs::new();
    let mut step = |ev: LinkEvent| on_link_event(&mut logs, "127.0.0.1:6000", &ev);
    let again = LinkAction::Retry { delay_ms: 2000 };
    assert_eq!(step(LinkEvent::Refused { reason: "ret".into() }), again);
    assert_eq!(step(LinkEvent::Connected), LinkAction::Receive);
    let payload = Some(br#"{"type":"CHAT","src":"TA1"}"#.to_vec());
    assert_eq!(step(LinkEvent::Burst { payload, duration: 25 }), LinkAction::Feed);
    assert_eq!(step(LinkEvent::Unusable), LinkAction::Receive);
    assert_eq!(step(LinkEvent::Burst { payload: None, duration: 7 }), LinkAction::Feed);
    assert_eq!(step(LinkEvent::Lost), again);
    assert_eq!(
        logs.decodes(),
        [
            "bağlanılamadı (ret), yeniden…",
            "bağlandı: 127.0.0.1:6000",
            "TA1 -> ALL | CHAT | 0.25sn | çözüldü",
            "0.07sn | çözülemedi",
            "bağlantı koptu, yeniden deneniyor…",
        ]
    );
    assert!(logs.events().is_empty());
}
