//! The passive monitor: what the decode strip shows for a burst, and the call
//! sign under which a monitor connects.

use vstd::prelude::*;
use vstd::string::*;

use crate::events::{
    connect_failed_line, connected_line, decode_line, link_lost_line, ChannelLogs,
};
use crate::random::random_u16;
use crate::text::push_hex4;
#[allow(unused_imports)]
use crate::{events, text};

verus! {

/// A JSON document of the crate `serde_json`.
#[verifier::external_type_specification]
#[verifier::external_body]
pub struct ExJsonValue(serde_json::Value);

/// The members of a JSON object whose values are strings; none where the
/// document is no object.
pub uninterp spec fn text_members(v: serde_json::Value) -> Map<Seq<char>, Seq<char>>;

/// The string members of the JSON document that `bytes` spell out; `None`
/// where they spell out no JSON document.
pub uninterp spec fn json_text_members(bytes: Seq<u8>) -> Option<Map<Seq<char>, Seq<char>>>;

/// Calls `serde_json::from_slice` for a `serde_json::Value`. Whether there is
/// a document, and its string members, depend on the bytes alone and are
/// named [`json_text_members`].
#[verifier::external_body]
pub(crate) fn parse_json(bytes: &[u8]) -> (r: Option<serde_json::Value>)
    ensures
        match r {
            Some(v) => json_text_members(bytes@) == Some(text_members(v)),
            None => json_text_members(bytes@) is None,
        },
{
    serde_json::from_slice::<serde_json::Value>(bytes).ok()
}

/// Calls `serde_json::Value::get` and, on what it finds,
/// `serde_json::Value::as_str`: the text of the member `key` where the
/// document is an object and that member is a string.
#[verifier::external_body]
pub(crate) fn text_member(v: &serde_json::Value, key: &str) -> (r: Option<String>)
    ensures
        match r {
            Some(s) => text_members(*v).dom().contains(key@) && s@ == text_members(*v)[key@],
            None => !text_members(*v).dom().contains(key@),
        },
{
    v.get(key)?.as_str().map(String::from)
}

/// The text of the member `key`, or `default`.
pub open spec fn member_or(
    members: Map<Seq<char>, Seq<char>>,
    key: Seq<char>,
    default: Seq<char>,
) -> Seq<char> {
    if members.dom().contains(key) {
        members[key]
    } else {
        default
    }
}

/// Sender, addressee and type of a frame in one line; an unknown sender or
/// type is `?`, a missing addressee is everyone.
pub open spec fn summary_text(members: Map<Seq<char>, Seq<char>>) -> Seq<char> {
    member_or(members, "src"@, "?"@) + " -> "@ + member_or(members, "dst"@, "ALL"@) + " | "@
        + member_or(members, "type"@, "?"@)
}

/// An optional text, or a default.
pub open spec fn text_or(s: Option<Seq<char>>, default: Seq<char>) -> Seq<char> {
    match s {
        Some(t) => t,
        None => default,
    }
}

/// Sender, addressee and type of a frame in one line, from the members that
/// the frame has.
pub fn summary_line(
    src: &Option<String>,
    dst: &Option<String>,
    kind: &Option<String>,
) -> (r: String)
    ensures
        r@ == text_or(events::opt_text(*src), "?"@) + " -> "@ + text_or(
            events::opt_text(*dst),
            "ALL"@,
        ) + " | "@ + text_or(events::opt_text(*kind), "?"@),
{
    let mut r = match src {
        Some(s) => s.clone(),
        None => "?".to_string(),
    };
    r.append(" -> ");
    match dst {
        Some(s) => r.append(s.as_str()),
        None => r.append("ALL"),
    }
    r.append(" | ");
    match kind {
        Some(s) => r.append(s.as_str()),
        None => r.append("?"),
    }
    r
}

/// The summary of the frame that a burst carries; `None` where the payload is
/// no JSON document.
pub fn frame_summary(payload: &[u8]) -> (r: Option<String>)
    ensures
        events::opt_text(r) == match json_text_members(payload@) {
            Some(members) => Some(summary_text(members)),
            None => None,
        },
{
    match parse_json(payload) {
        Some(v) => {
            let src = text_member(&v, "src");
            let dst = text_member(&v, "dst");
            let kind = text_member(&v, "type");
            Some(summary_line(&src, &dst, &kind))
        },
        None => None,
    }
}

/// The summary of a burst: there is none where it could not be demodulated.
pub open spec fn burst_summary(payload: Option<Seq<u8>>) -> Option<Seq<char>> {
    match payload {
        Some(bytes) => match json_text_members(bytes) {
            Some(members) => Some(summary_text(members)),
            None => None,
        },
        None => None,
    }
}

/// The line of the decode strip for a burst of `duration` hundredths of a
/// second, from the payload that the modem demodulated, if any.
pub fn burst_line(payload: &Option<Vec<u8>>, duration: u64) -> (r: String)
    ensures
        r@ == events::decode_text(
            duration as nat,
            burst_summary(
                match *payload {
                    Some(bytes) => Some(bytes@),
                    None => None,
                },
            ),
        ),
{
    let summary = match payload {
        Some(bytes) => frame_summary(bytes.as_slice()),
        None => None,
    };
    decode_line(duration, &summary)
}

/// What happens to the link of a monitor.
pub enum LinkEvent {
    /// It is up.
    Connected,
    /// A burst came in: the payload that the modem demodulated, if any, and
    /// its duration in hundredths of a second.
    Burst { payload: Option<Vec<u8>>, duration: u64 },
    /// A message came in that carries no audio, or audio that cannot be
    /// unpacked.
    Unusable,
    /// It broke off.
    Lost,
    /// It could not be set up.
    Refused { reason: String },
}

/// What a monitor does next.
#[derive(Debug, Clone, Copy, PartialEq, Eq, Structural)]
pub enum LinkAction {
    /// It waits for a burst.
    Receive,
    /// It lets the burst be seen and heard, and waits for the next.
    Feed,
    /// It connects anew after a while.
    Retry { delay_ms: u64 },
}

/// How long a monitor waits before it connects anew, in milliseconds.
pub const RETRY_MS: u64 = 2000;

impl LinkEvent {
    /// The line of the decode strip for the event, on a link to `addr`; there
    /// is none for an unusable message.
    pub open spec fn line(self, addr: Seq<char>) -> Option<Seq<char>> {
        match self {
            LinkEvent::Connected => Some("bağlandı: "@ + addr),
            LinkEvent::Burst { payload, duration } => Some(
                events::decode_text(
                    duration as nat,
                    burst_summary(
                        match payload {
                            Some(bytes) => Some(bytes@),
                            None => None,
                        },
                    ),
                ),
            ),
            LinkEvent::Unusable => None,
            LinkEvent::Lost => Some("bağlantı koptu, yeniden deneniyor…"@),
            LinkEvent::Refused { reason } => Some(
                "bağlanılamadı ("@ + reason@ + "), yeniden…"@,
            ),
        }
    }

    /// What a monitor does after the event.
    pub open spec fn next(self) -> LinkAction {
        match self {
            LinkEvent::Connected => LinkAction::Receive,
            LinkEvent::Burst { .. } => LinkAction::Feed,
            LinkEvent::Unusable => LinkAction::Receive,
            LinkEvent::Lost => LinkAction::Retry { delay_ms: RETRY_MS },
            LinkEvent::Refused { .. } => LinkAction::Retry { delay_ms: RETRY_MS },
        }
    }
}

/// Notes an event of the link to `addr` in the decode strip and says what to
/// do next. An unusable message is passed over.
pub fn on_link_event(logs: &mut ChannelLogs, addr: &str, ev: &LinkEvent) -> (r: LinkAction)
    ensures
        final(logs)@ == match ev.line(addr@) {
            Some(line) => old(logs)@.with_decode_line(line),
            None => old(logs)@,
        },
        r == ev.next(),
{
    match ev {
        LinkEvent::Connected => {
            logs.push_decode_line(connected_line(addr));
            LinkAction::Receive
        },
        LinkEvent::Burst { payload, duration } => {
            logs.push_decode_line(burst_line(payload, *duration));
            LinkAction::Feed
        },
        LinkEvent::Unusable => LinkAction::Receive,
        LinkEvent::Lost => {
            logs.push_decode_line(link_lost_line());
            LinkAction::Retry { delay_ms: RETRY_MS }
        },
        LinkEvent::Refused { reason } => {
            logs.push_decode_line(connect_failed_line(reason.as_str()));
            LinkAction::Retry { delay_ms: RETRY_MS }
        },
    }
}

/// The call sign of a monitor with the number `n`.
pub open spec fn monitor_call_text(n: nat) -> Seq<char> {
    "MON-"@ + text::hex4(n)
}

/// The call sign of a monitor with the number `n`.
pub fn monitor_callsign(n: u16) -> (r: String)
    ensures
        r@ == monitor_call_text(n as nat),
{
    let mut r = "MON-".to_string();
    push_hex4(&mut r, n);
    r
}

/// A call sign for a new monitor, with a number drawn by chance.
pub fn fresh_monitor_callsign() -> (r: String)
    ensures
        exists|n: u16| r@ == #[trigger] monitor_call_text(n as nat),
{
    let n: u16 = random_u16();
    monitor_callsign(n)
}

/// Different numbers give different call signs.
pub proof fn law_monitor_callsigns_differ(m: u16, n: u16)
    requires
        m != n,
    ensures
        monitor_call_text(m as nat) != monitor_call_text(n as nat),
{
    if monitor_call_text(m as nat) == monitor_call_text(n as nat) {
        let a = text::hex4(m as nat);
        let b = text::hex4(n as nat);
        let p = "MON-"@.len() as int;
        assert(a =~= (monitor_call_text(m as nat)).skip(p));
        assert(b =~= (monitor_call_text(n as nat)).skip(p));
        assert(a[0] == b[0] && a[1] == b[1] && a[2] == b[2] && a[3] == b[3]);
        lemma_hex_char_injective(m as nat / 4096 % 16, n as nat / 4096 % 16);
        lemma_hex_char_injective(m as nat / 256 % 16, n as nat / 256 % 16);
        lemma_hex_char_injective(m as nat / 16 % 16, n as nat / 16 % 16);
        lemma_hex_char_injective(m as nat % 16, n as nat % 16);
    }
}

proof fn lemma_hex_char_injective(a: nat, b: nat)
    requires
        a < 16,
        b < 16,
        text::hex_char(a) == text::hex_char(b),
    ensures
        a == b,
{
}

/// The summary of a frame names its sender, its addressee and its type, each
/// with what stands in for it where the frame does not say.
pub proof fn law_summary_says(members: Map<Seq<char>, Seq<char>>, key: Seq<char>, other: Seq<char>)
    ensures
        members.dom().contains(key) ==> member_or(members, key, other) == members[key],
        !members.dom().contains(key) ==> member_or(members, key, other) == other,
        text_or(Some(key), other) == key,
        text_or(None, other) == other,
        summary_text(members) == member_or(members, "src"@, "?"@) + (" -> "@ + (member_or(
            members,
            "dst"@,
            "ALL"@,
        ) + (" | "@ + member_or(members, "type"@, "?"@)))),
{
    assert(summary_text(members) =~= member_or(members, "src"@, "?"@) + (" -> "@ + (member_or(
        members,
        "dst"@,
        "ALL"@,
    ) + (" | "@ + member_or(members, "type"@, "?"@)))));
}

/// A burst has a summary exactly where it was demodulated to a JSON document,
/// and then that of the document's members.
pub proof fn law_only_documents_are_summarised(bytes: Seq<u8>)
    ensures
        burst_summary(None) is None,
        json_text_members(bytes) is None ==> burst_summary(Some(bytes)) is None,
        json_text_members(bytes) matches Some(members) ==> burst_summary(Some(bytes)) == Some(
            summary_text(members),
        ),
{
}

/// A monitor feeds every burst, goes on receiving after a message that it
/// cannot use, and connects anew two seconds after its link is lost or
/// refused.
pub proof fn law_monitor_never_gives_up(ev: LinkEvent)
    ensures
        ev.next() == LinkAction::Feed <==> ev is Burst,
        ev.next() == LinkAction::Receive <==> ev is Connected || ev is Unusable,
        ev is Lost || ev is Refused ==> ev.next() == (LinkAction::Retry { delay_ms: 2000 }),
{
}

/// The decode strip notes everything that happens to the link but a message
/// that is of no use.
pub proof fn law_monitor_notes_its_link(
    ev: LinkEvent,
    addr: Seq<char>,
    bytes: Vec<u8>,
    duration: u64,
)
    ensures
        ev.line(addr) is None <==> ev is Unusable,
        ev is Connected ==> ev.line(addr) == Some("bağlandı: "@ + addr),
        ev is Lost ==> ev.line(addr) == Some("bağlantı koptu, yeniden deneniyor…"@),
        ev matches LinkEvent::Refused { reason } ==> ev.line(addr) == Some(
            "bağlanılamadı ("@ + (reason@ + "), yeniden…"@),
        ),
        (LinkEvent::Burst { payload: Some(bytes), duration }).line(addr) == Some(
            events::decode_text(duration as nat, burst_summary(Some(bytes@))),
        ),
        (LinkEvent::Burst { payload: None, duration }).line(addr) == Some(
            events::decode_text(duration as nat, None),
        ),
{
    if let LinkEvent::Refused { reason } = ev {
        assert(ev.line(addr)->0 =~= "bağlanılamadı ("@ + (reason@ + "), yeniden…"@));
    }
}

/// The call sign of a monitor is `MON-` and four hexadecimal digits that read
/// back as its number.
pub proof fn law_monitor_callsign_reads_back(n: u16)
    ensures
        ({
            let t = monitor_call_text(n as nat);
            &&& t.len() == 8
            &&& t.take(4) == "MON-"@
            &&& ((text::read_hex(t[4]) * 16 + text::read_hex(t[5])) * 16 + text::read_hex(t[6]))
                * 16 + text::read_hex(t[7]) == n
        }),
{
    reveal_strlit("MON-");
    text::law_hex4_reads_back(n as nat);
    let t = monitor_call_text(n as nat);
    assert(t.take(4) =~= "MON-"@);
    let h = text::hex4(n as nat);
    assert(t[4] == h[0] && t[5] == h[1] && t[6] == h[2] && t[7] == h[3]);
}

} // verus!
