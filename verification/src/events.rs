//! What happens on the channel, and the lines that the logs show for it.
//!
//! Durations are in hundredths of a second.

use std::collections::VecDeque;
use vstd::prelude::*;
use vstd::string::*;

use crate::ring::push_cap;
use crate::text::{
    push_decimal, push_decimal_padded_left, push_hundredths, push_padded_right, push_two_digits,
};
#[allow(unused_imports)]
use crate::{ring, text};

verus! {

/// Lines that the channel log keeps.
pub const CHANNEL_LOG_CAP: usize = 200;

/// Lines that the decode strip keeps.
pub const DECODE_LOG_CAP: usize = 120;

/// An event on the channel.
pub enum ChannelEvent {
    /// A station connected; `active` stations are on the channel now.
    Joined { callsign: String, active: u64 },
    /// A station left.
    Left { callsign: String, active: u64 },
    /// A transmission was let through.
    TxGranted { src: String, n_samples: u64, duration: u64 },
    /// A transmission met a busy channel.
    TxDenied { src: String, retry_after: u64 },
    /// A burst reached the stations.
    Delivered,
    /// The passive monitor tried to decode a burst.
    Decoded { duration: u64, summary: Option<String> },
}

/// The line of the decode strip for a burst.
pub open spec fn decode_text(duration: nat, summary: Option<Seq<char>>) -> Seq<char> {
    match summary {
        Some(s) => s + " | "@ + text::hundredths(duration) + "sn | çözüldü"@,
        None => text::hundredths(duration) + "sn | çözülemedi"@,
    }
}

/// The view of an optional text.
pub open spec fn opt_text(s: Option<String>) -> Option<Seq<char>> {
    match s {
        Some(t) => Some(t@),
        None => None,
    }
}

impl ChannelEvent {
    /// The line of the channel log; empty for what the log does not show.
    pub open spec fn log_text(self) -> Seq<char> {
        match self {
            ChannelEvent::Joined { callsign, active } => callsign@ + " bağlandı ("@
                + text::decimal(active as nat) + " aktif)"@,
            ChannelEvent::Left { callsign, active } => callsign@ + " ayrıldı ("@
                + text::decimal(active as nat) + " aktif)"@,
            ChannelEvent::TxGranted { src, n_samples, duration } => src@ + " yayında | "@
                + text::decimal(n_samples as nat) + " örnek | "@ + text::hundredths(
                duration as nat,
            ) + "sn"@,
            ChannelEvent::TxDenied { src, retry_after } => src@ + " MEŞGUL | retry "@
                + text::hundredths(retry_after as nat) + "sn"@,
            ChannelEvent::Delivered => Seq::empty(),
            ChannelEvent::Decoded { .. } => Seq::empty(),
        }
    }

    /// The line that the console prints at the time `t`, if any.
    pub open spec fn console_text(self, t: Seq<char>) -> Option<Seq<char>> {
        match self {
            ChannelEvent::Joined { callsign, active } => Some(
                "[KANAL "@ + t + "] "@ + callsign@ + " bağlandı ("@ + text::decimal(
                    active as nat,
                ) + " istasyon aktif)"@,
            ),
            ChannelEvent::Left { callsign, active } => Some(
                "[KANAL "@ + t + "] "@ + callsign@ + " bağlantısı koptu ("@ + text::decimal(
                    active as nat,
                ) + " istasyon aktif)"@,
            ),
            ChannelEvent::TxGranted { src, n_samples, duration } => Some(
                "[KANAL "@ + t + "] "@ + text::pad_right(src@, 8) + " -> ALL      | ses | "@
                    + text::pad_left(text::decimal(n_samples as nat), 6) + " örnek | süre="@
                    + text::hundredths(duration as nat) + "sn"@,
            ),
            ChannelEvent::TxDenied { src, retry_after } => Some(
                "[KANAL "@ + t + "] "@ + text::pad_right(src@, 8) + " -> MEŞGUL   | retry_after="@
                    + text::hundredths(retry_after as nat) + "sn"@,
            ),
            ChannelEvent::Delivered => None,
            ChannelEvent::Decoded { duration, summary } => Some(
                "[DİNLE "@ + t + "] "@ + decode_text(duration as nat, opt_text(summary)),
            ),
        }
    }
}

/// The line of the channel log for an event; empty for what the log does not
/// show.
pub fn fmt_channel_event(e: &ChannelEvent) -> (r: String)
    ensures
        r@ == e.log_text(),
{
    match e {
        ChannelEvent::Joined { callsign, active } => {
            let mut r = callsign.clone();
            r.append(" bağlandı (");
            push_decimal(&mut r, *active);
            r.append(" aktif)");
            r
        },
        ChannelEvent::Left { callsign, active } => {
            let mut r = callsign.clone();
            r.append(" ayrıldı (");
            push_decimal(&mut r, *active);
            r.append(" aktif)");
            r
        },
        ChannelEvent::TxGranted { src, n_samples, duration } => {
            let mut r = src.clone();
            r.append(" yayında | ");
            push_decimal(&mut r, *n_samples);
            r.append(" örnek | ");
            push_hundredths(&mut r, *duration);
            r.append("sn");
            r
        },
        ChannelEvent::TxDenied { src, retry_after } => {
            let mut r = src.clone();
            r.append(" MEŞGUL | retry ");
            push_hundredths(&mut r, *retry_after);
            r.append("sn");
            r
        },
        ChannelEvent::Delivered => String::new(),
        ChannelEvent::Decoded { .. } => String::new(),
    }
}

/// The line of the decode strip for a burst of the given duration.
pub fn decode_line(duration: u64, summary: &Option<String>) -> (r: String)
    ensures
        r@ == decode_text(duration as nat, opt_text(*summary)),
{
    match summary {
        Some(s) => {
            let mut r = s.clone();
            r.append(" | ");
            push_hundredths(&mut r, duration);
            r.append("sn | çözüldü");
            r
        },
        None => {
            let mut r = String::new();
            push_hundredths(&mut r, duration);
            r.append("sn | çözülemedi");
            assert(r@ =~= decode_text(duration as nat, None));
            r
        },
    }
}

/// The line that the console prints for an event at the time `t`.
pub fn log_event(e: &ChannelEvent, t: &str) -> (r: Option<String>)
    ensures
        opt_text(r) == e.console_text(t@),
{
    let mut r = match e {
        ChannelEvent::Decoded { .. } => "[DİNLE ".to_string(),
        _ => "[KANAL ".to_string(),
    };
    r.append(t);
    r.append("] ");
    match e {
        ChannelEvent::Joined { callsign, active } => {
            r.append(callsign.as_str());
            r.append(" bağlandı (");
            push_decimal(&mut r, *active);
            r.append(" istasyon aktif)");
            Some(r)
        },
        ChannelEvent::Left { callsign, active } => {
            r.append(callsign.as_str());
            r.append(" bağlantısı koptu (");
            push_decimal(&mut r, *active);
            r.append(" istasyon aktif)");
            Some(r)
        },
        ChannelEvent::TxGranted { src, n_samples, duration } => {
            push_padded_right(&mut r, src.as_str(), 8);
            r.append(" -> ALL      | ses | ");
            push_decimal_padded_left(&mut r, *n_samples, 6);
            r.append(" örnek | süre=");
            push_hundredths(&mut r, *duration);
            r.append("sn");
            Some(r)
        },
        ChannelEvent::TxDenied { src, retry_after } => {
            push_padded_right(&mut r, src.as_str(), 8);
            r.append(" -> MEŞGUL   | retry_after=");
            push_hundredths(&mut r, *retry_after);
            r.append("sn");
            Some(r)
        },
        ChannelEvent::Delivered => None,
        ChannelEvent::Decoded { duration, summary } => {
            let line = decode_line(*duration, summary);
            r.append(line.as_str());
            Some(r)
        },
    }
}

/// The time of day `HH:MM:SS` of a number of seconds since an epoch at
/// midnight.
pub open spec fn clock_text(secs: nat) -> Seq<char> {
    text::two_digits(secs / 3600 % 24) + ":"@ + text::two_digits(secs / 60 % 60) + ":"@
        + text::two_digits(secs % 60)
}

/// The time of day at `secs` seconds since the Unix epoch.
pub fn now(secs: u64) -> (r: String)
    ensures
        r@ == clock_text(secs as nat),
{
    let mut r = String::new();
    push_two_digits(&mut r, (secs / 3600) % 24);
    r.append(":");
    push_two_digits(&mut r, (secs / 60) % 60);
    r.append(":");
    push_two_digits(&mut r, secs % 60);
    assert(r@ =~= clock_text(secs as nat));
    r
}

/// The time of day repeats every 24 hours and always has eight characters.
pub proof fn law_clock_repeats_daily(secs: nat)
    ensures
        clock_text(secs + 86_400) == clock_text(secs),
        clock_text(secs).len() == 8,
{
    reveal_strlit(":");
    assert((secs + 86_400) / 3600 % 24 == secs / 3600 % 24);
    assert((secs + 86_400) / 60 % 60 == secs / 60 % 60);
    assert((secs + 86_400) % 60 == secs % 60);
}

/// The line that the console prints once the server listens; `snr`, `delay`
/// and `gain` spell out the physics of the channel.
pub fn started_line(t: &str, port: u16, snr: &str, delay: &str, gain: &str) -> (r: String)
    ensures
        r@ == "[KANAL "@ + t@ + "] dinleniyor: 127.0.0.1:"@ + text::decimal(port as nat)
            + "  (snr="@ + snr@ + ", multipath="@ + delay@ + "ms@"@ + gain@ + ")"@,
{
    let mut r = "[KANAL ".to_string();
    r.append(t);
    r.append("] dinleniyor: 127.0.0.1:");
    push_decimal(&mut r, port as u64);
    r.append("  (snr=");
    r.append(snr);
    r.append(", multipath=");
    r.append(delay);
    r.append("ms@");
    r.append(gain);
    r.append(")");
    r
}

/// What the console prints when the server closes: a line of its own below
/// what the terminal echoed.
pub fn closing_line(t: &str) -> (r: String)
    ensures
        r@ == "\n[KANAL "@ + t@ + "] kapatılıyor"@,
{
    let mut r = "\n[KANAL ".to_string();
    r.append(t);
    r.append("] kapatılıyor");
    r
}

/// The address on which a channel listens.
pub fn host_addr(port: u16) -> (r: String)
    ensures
        r@ == "127.0.0.1:"@ + text::decimal(port as nat),
{
    let mut r = "127.0.0.1:".to_string();
    push_decimal(&mut r, port as u64);
    r
}

/// The log line of a channel that listens.
pub fn listening_line(addr: &str) -> (r: String)
    ensures
        r@ == "dinleniyor: "@ + addr@,
{
    let mut r = "dinleniyor: ".to_string();
    r.append(addr);
    r
}

/// The log line of a channel whose port could not be opened.
pub fn port_failed_line(addr: &str, reason: &str) -> (r: String)
    ensures
        r@ == "PORT AÇILAMADI "@ + addr@ + ": "@ + reason@,
{
    let mut r = "PORT AÇILAMADI ".to_string();
    r.append(addr);
    r.append(": ");
    r.append(reason);
    r
}

/// The log line of a monitor that reached the channel.
pub fn connected_line(addr: &str) -> (r: String)
    ensures
        r@ == "bağlandı: "@ + addr@,
{
    let mut r = "bağlandı: ".to_string();
    r.append(addr);
    r
}

/// The log line of a monitor that lost the channel.
pub fn link_lost_line() -> (r: String)
    ensures
        r@ == "bağlantı koptu, yeniden deneniyor…"@,
{
    "bağlantı koptu, yeniden deneniyor…".to_string()
}

/// The log line of a monitor that could not reach the channel.
pub fn connect_failed_line(reason: &str) -> (r: String)
    ensures
        r@ == "bağlanılamadı ("@ + reason@ + "), yeniden…"@,
{
    let mut r = "bağlanılamadı (".to_string();
    r.append(reason);
    r.append("), yeniden…");
    r
}

/// The texts of a list of strings.
pub open spec fn texts(s: Seq<String>) -> Seq<Seq<char>> {
    Seq::new(s.len(), |i: int| s[i]@)
}

/// The two logs of the channel: what happened on it, and what the passive
/// monitor decoded.
pub struct ChannelLogs {
    events: VecDeque<String>,
    decodes: VecDeque<String>,
}

/// The lines of [`ChannelLogs`], oldest first.
pub struct LogLines {
    /// The channel log.
    pub events: Seq<Seq<char>>,
    /// The decode strip.
    pub decodes: Seq<Seq<char>>,
}

impl View for ChannelLogs {
    type V = LogLines;

    closed spec fn view(&self) -> LogLines {
        LogLines { events: texts(self.events@), decodes: texts(self.decodes@) }
    }
}

impl LogLines {
    /// The logs after another line in the channel log.
    pub open spec fn with_event_line(self, line: Seq<char>) -> LogLines {
        LogLines { events: ring::newest(self.events.push(line), CHANNEL_LOG_CAP as nat), ..self }
    }

    /// The logs after another line in the decode strip.
    pub open spec fn with_decode_line(self, line: Seq<char>) -> LogLines {
        LogLines { decodes: ring::newest(self.decodes.push(line), DECODE_LOG_CAP as nat), ..self }
    }

    /// The logs after an event: decoded bursts go to the decode strip, what
    /// has a line goes to the channel log, the rest nowhere.
    pub open spec fn after(self, e: ChannelEvent) -> LogLines {
        match e {
            ChannelEvent::Decoded { duration, summary } => self.with_decode_line(
                decode_text(duration as nat, opt_text(summary)),
            ),
            _ => if e.log_text().len() == 0 {
                self
            } else {
                self.with_event_line(e.log_text())
            },
        }
    }

    /// The logs after a run of events.
    pub open spec fn after_all(self, es: Seq<ChannelEvent>) -> LogLines
        decreases es.len(),
    {
        if es.len() == 0 {
            self
        } else {
            self.after_all(es.drop_last()).after(es.last())
        }
    }

    /// Neither log exceeds its size.
    pub open spec fn bounded(self) -> bool {
        &&& self.events.len() <= CHANNEL_LOG_CAP
        &&& self.decodes.len() <= DECODE_LOG_CAP
    }
}

/// Cutting a list of strings cuts the list of its texts.
pub proof fn lemma_texts_newest(s: Seq<String>, cap: nat)
    ensures
        texts(ring::newest(s, cap)) == ring::newest(texts(s), cap),
{
    assert(texts(ring::newest(s, cap)) =~= ring::newest(texts(s), cap));
}

/// Copies the lines of a log.
pub fn copy_lines(q: &VecDeque<String>) -> (r: Vec<String>)
    ensures
        texts(r@) == texts(q@),
{
    let mut r: Vec<String> = Vec::new();
    let mut i: usize = 0;
    while i < q.len()
        invariant
            i <= q@.len(),
            r@.len() == i,
            forall|j: int| 0 <= j < i ==> (#[trigger] r@[j])@ == q@[j]@,
        decreases q@.len() - i,
    {
        r.push(q[i].clone());
        i = i + 1;
    }
    assert(texts(r@) =~= texts(q@));
    r
}

/// Appends a line to a log of at most `cap` lines.
pub fn push_line(q: &mut VecDeque<String>, line: String, cap: usize)
    ensures
        texts(final(q)@) == ring::newest(texts(old(q)@).push(line@), cap as nat),
{
    let ghost before = q@;
    push_cap(q, line, cap);
    proof {
        assert(texts(before.push(line)) =~= texts(before).push(line@));
        lemma_texts_newest(before.push(line), cap as nat);
    }
}

impl ChannelLogs {
    /// Empty logs.
    pub fn new() -> (r: Self)
        ensures
            r@.events == Seq::<Seq<char>>::empty(),
            r@.decodes == Seq::<Seq<char>>::empty(),
    {
        let r = ChannelLogs { events: VecDeque::new(), decodes: VecDeque::new() };
        assert(r@.events =~= Seq::<Seq<char>>::empty());
        assert(r@.decodes =~= Seq::<Seq<char>>::empty());
        r
    }

    /// Appends a line to the channel log.
    pub fn push_event_line(&mut self, line: String)
        ensures
            final(self)@ == old(self)@.with_event_line(line@),
    {
        push_line(&mut self.events, line, CHANNEL_LOG_CAP);
    }

    /// Appends a line to the decode strip.
    pub fn push_decode_line(&mut self, line: String)
        ensures
            final(self)@ == old(self)@.with_decode_line(line@),
    {
        push_line(&mut self.decodes, line, DECODE_LOG_CAP);
    }

    /// Files an event where it belongs.
    pub fn on_event(&mut self, e: &ChannelEvent)
        ensures
            final(self)@ == old(self)@.after(*e),
    {
        match e {
            ChannelEvent::Decoded { duration, summary } => {
                let line = decode_line(*duration, summary);
                self.push_decode_line(line);
            },
            _ => {
                let line = fmt_channel_event(e);
                if !line.as_str().is_empty() {
                    self.push_event_line(line);
                }
            },
        }
    }

    /// The lines of the channel log, oldest first.
    pub fn events(&self) -> (r: Vec<String>)
        ensures
            texts(r@) == self@.events,
    {
        copy_lines(&self.events)
    }

    /// The lines of the decode strip, oldest first.
    pub fn decodes(&self) -> (r: Vec<String>)
        ensures
            texts(r@) == self@.decodes,
    {
        copy_lines(&self.decodes)
    }
}

/// Whatever happens on the channel, the logs stay within their sizes.
pub proof fn law_logs_stay_bounded(logs: LogLines, es: Seq<ChannelEvent>)
    requires
        logs.bounded(),
    ensures
        logs.after_all(es).bounded(),
    decreases es.len(),
{
    if es.len() > 0 {
        law_logs_stay_bounded(logs, es.drop_last());
    }
}

/// A decoded burst shows up as the last line of the decode strip and leaves
/// the channel log alone.
pub proof fn law_decode_reaches_the_strip(
    logs: LogLines,
    duration: u64,
    summary: Option<String>,
)
    ensures
        ({
            let after = logs.after(ChannelEvent::Decoded { duration, summary });
            &&& after.decodes.last() == decode_text(duration as nat, opt_text(summary))
            &&& after.events == logs.events
        }),
{
}

/// The line for a burst ends with its duration and whether it was decoded;
/// what was decoded stands before it.
pub proof fn law_decode_line_says(duration: nat, summary: Seq<char>)
    ensures
        decode_text(duration, Some(summary)) == summary + (" | "@ + (text::hundredths(duration)
            + "sn | çözüldü"@)),
        decode_text(duration, None) == text::hundredths(duration) + "sn | çözülemedi"@,
{
    assert(decode_text(duration, Some(summary)) =~= summary + (" | "@ + (text::hundredths(duration)
        + "sn | çözüldü"@)));
}

/// The lines of the channel log name the station; those on stations end with
/// how many are active, that on a transmission with its samples and its
/// duration, that on a busy channel with the time to wait.
pub proof fn law_log_lines_say(who: String, count: u64, samples: u64, time: u64)
    ensures
        (ChannelEvent::Joined { callsign: who, active: count }).log_text() == who@ + (
        " bağlandı ("@ + (text::decimal(count as nat) + " aktif)"@)),
        (ChannelEvent::Left { callsign: who, active: count }).log_text() == who@ + (" ayrıldı ("@
            + (text::decimal(count as nat) + " aktif)"@)),
        (ChannelEvent::TxGranted { src: who, n_samples: samples, duration: time }).log_text()
            == who@ + (" yayında | "@ + (text::decimal(samples as nat) + (" örnek | "@ + (
        text::hundredths(time as nat) + "sn"@)))),
        (ChannelEvent::TxDenied { src: who, retry_after: time }).log_text() == who@ + (
        " MEŞGUL | retry "@ + (text::hundredths(time as nat) + "sn"@)),
        ChannelEvent::Delivered.log_text().len() == 0,
        (ChannelEvent::Decoded { duration: time, summary: None }).log_text().len() == 0,
        (ChannelEvent::Decoded { duration: time, summary: Some(who) }).log_text().len() == 0,
{
    let n = text::decimal(count as nat);
    let m = text::decimal(samples as nat);
    let d = text::hundredths(time as nat);
    assert((ChannelEvent::Joined { callsign: who, active: count }).log_text() =~= who@ + (
    " bağlandı ("@ + (n + " aktif)"@)));
    assert((ChannelEvent::Left { callsign: who, active: count }).log_text() =~= who@ + (
    " ayrıldı ("@ + (n + " aktif)"@)));
    assert((ChannelEvent::TxGranted { src: who, n_samples: samples, duration: time }).log_text()
        =~= who@ + (" yayında | "@ + (m + (" örnek | "@ + (d + "sn"@)))));
    assert((ChannelEvent::TxDenied { src: who, retry_after: time }).log_text() =~= who@ + (
    " MEŞGUL | retry "@ + (d + "sn"@)));
}

/// Every line of the console starts with who speaks and the time; the rest
/// names the station and what it does. Only a delivery has no line.
pub proof fn law_console_lines_say(
    who: String,
    count: u64,
    samples: u64,
    time: u64,
    summary: Option<String>,
    t: Seq<char>,
)
    ensures
        (ChannelEvent::Joined { callsign: who, active: count }).console_text(t) == Some(
            ("[KANAL "@ + t + "] "@) + (who@ + (" bağlandı ("@ + (text::decimal(count as nat)
                + " istasyon aktif)"@))),
        ),
        (ChannelEvent::Left { callsign: who, active: count }).console_text(t) == Some(
            ("[KANAL "@ + t + "] "@) + (who@ + (" bağlantısı koptu ("@ + (text::decimal(
                count as nat,
            ) + " istasyon aktif)"@))),
        ),
        (ChannelEvent::TxGranted { src: who, n_samples: samples, duration: time }).console_text(t)
            == Some(
            ("[KANAL "@ + t + "] "@) + (text::pad_right(who@, 8) + (" -> ALL      | ses | "@ + (
            text::pad_left(text::decimal(samples as nat), 6) + (" örnek | süre="@ + (
            text::hundredths(time as nat) + "sn"@))))),
        ),
        (ChannelEvent::TxDenied { src: who, retry_after: time }).console_text(t) == Some(
            ("[KANAL "@ + t + "] "@) + (text::pad_right(who@, 8) + (
            " -> MEŞGUL   | retry_after="@ + (text::hundredths(time as nat) + "sn"@))),
        ),
        (ChannelEvent::Decoded { duration: time, summary }).console_text(t) == Some(
            ("[DİNLE "@ + t + "] "@) + decode_text(time as nat, opt_text(summary)),
        ),
        ChannelEvent::Delivered.console_text(t) is None,
{
    let n = text::decimal(count as nat);
    let m = text::pad_left(text::decimal(samples as nat), 6);
    let d = text::hundredths(time as nat);
    let p = text::pad_right(who@, 8);
    let head = "[KANAL "@ + t + "] "@;
    assert((ChannelEvent::Joined { callsign: who, active: count }).console_text(t)->0 =~= head + (
    who@ + (" bağlandı ("@ + (n + " istasyon aktif)"@))));
    assert((ChannelEvent::Left { callsign: who, active: count }).console_text(t)->0 =~= head + (who@
        + (" bağlantısı koptu ("@ + (n + " istasyon aktif)"@))));
    assert((ChannelEvent::TxGranted {
        src: who,
        n_samples: samples,
        duration: time,
    }).console_text(t)->0 =~= head + (p + (" -> ALL      | ses | "@ + (m + (" örnek | süre="@ + (d
        + "sn"@))))));
    assert((ChannelEvent::TxDenied { src: who, retry_after: time }).console_text(t)->0 =~= head + (p
        + (" -> MEŞGUL   | retry_after="@ + (d + "sn"@))));
}

/// An optional text shows what it holds.
pub proof fn law_optional_text_shows(s: String, lines: Seq<String>, i: int)
    requires
        0 <= i < lines.len(),
    ensures
        opt_text(Some(s)) == Some(s@),
        opt_text(None) is None,
        texts(lines).len() == lines.len(),
        texts(lines)[i] == lines[i]@,
{
}

proof fn lemma_time_of_day(secs: nat)
    ensures
        3600 * (secs / 3600 % 24) + 60 * (secs / 60 % 60) + secs % 60 == secs % 86_400,
{
    let a = secs / 60;
    let b = a / 60;
    let d = b / 24;
    assert(secs / 3600 == b);
    assert(secs == 86_400 * d + 3600 * (b % 24) + 60 * (a % 60) + secs % 60);
}

/// The clock shows hours, minutes and seconds, two digits each, that add up to
/// the seconds since midnight.
pub proof fn law_clock_reads_back(secs: nat)
    ensures
        ({
            let t = clock_text(secs);
            let h = text::read_decimal(t.subrange(0, 2));
            let m = text::read_decimal(t.subrange(3, 5));
            let s = text::read_decimal(t.subrange(6, 8));
            &&& t.len() == 8
            &&& t[2] == ':' && t[5] == ':'
            &&& 0 <= h < 24 && 0 <= m < 60 && 0 <= s < 60
            &&& 3600 * h + 60 * m + s == secs % 86_400
        }),
{
    reveal_strlit(":");
    let (h, m, s) = (secs / 3600 % 24, secs / 60 % 60, secs % 60);
    text::law_two_digits_read_back(h);
    text::law_two_digits_read_back(m);
    text::law_two_digits_read_back(s);
    let t = clock_text(secs);
    assert(t.subrange(0, 2) =~= text::two_digits(h));
    assert(t.subrange(3, 5) =~= text::two_digits(m));
    assert(t.subrange(6, 8) =~= text::two_digits(s));
    assert(h % 100 == h && m % 100 == m && s % 100 == s);
    lemma_time_of_day(secs);
}

/// A line goes to the end of the log that it is meant for and leaves the other
/// log alone.
pub proof fn law_logs_append(logs: LogLines, line: Seq<char>)
    requires
        logs.events.len() <= 200,
        logs.decodes.len() <= 120,
    ensures
        ring::appended(logs.events, logs.with_event_line(line).events, line, 200),
        logs.with_event_line(line).decodes == logs.decodes,
        ring::appended(logs.decodes, logs.with_decode_line(line).decodes, line, 120),
        logs.with_decode_line(line).events == logs.events,
{
    ring::law_push_appends(logs.events, line, 200);
    ring::law_push_appends(logs.decodes, line, 120);
}

/// A decoded burst goes to the end of the decode strip; any other event with a
/// line goes to the end of the channel log, and one without a line nowhere.
pub proof fn law_events_are_filed(logs: LogLines, e: ChannelEvent)
    requires
        logs.events.len() <= 200,
        logs.decodes.len() <= 120,
    ensures
        e matches ChannelEvent::Decoded { duration, summary } ==> logs.after(e).events
            == logs.events && ring::appended(
            logs.decodes,
            logs.after(e).decodes,
            decode_text(duration as nat, opt_text(summary)),
            120,
        ),
        !(e is Decoded) && e.log_text().len() > 0 ==> logs.after(e).decodes == logs.decodes
            && ring::appended(logs.events, logs.after(e).events, e.log_text(), 200),
        !(e is Decoded) && e.log_text().len() == 0 ==> logs.after(e) == logs,
{
    ring::law_push_appends(logs.events, e.log_text(), 200);
    if let ChannelEvent::Decoded { duration, summary } = e {
        ring::law_push_appends(logs.decodes, decode_text(duration as nat, opt_text(summary)), 120);
    }
}

} // verus!
