//! The texts of the views.

use vstd::prelude::*;
use vstd::string::*;

use crate::chat::ChatLine;
use crate::station::{
    ChannelSnapshot, ReceivedImage, RosterEntry, RosterStatus, StationSnapshot, TransferSnapshot,
};
use crate::text::{push_decimal, push_hundredths, push_tenths, same_text};
#[allow(unused_imports)]
use crate::{events, text};

verus! {

/// What the head of the window shows.
pub enum Header {
    /// The state of the channel, whether it is busy, and the number of its
    /// stations.
    Channel { state: String, busy: bool, stations: String },
    /// The address of a channel elsewhere.
    Link(String),
    /// Nothing.
    Empty,
}

/// What a [`Header`] says.
pub enum HeaderText {
    Channel { state: Seq<char>, busy: bool, stations: Seq<char> },
    Link(Seq<char>),
    Empty,
}

impl View for Header {
    type V = HeaderText;

    open spec fn view(&self) -> HeaderText {
        match *self {
            Header::Channel { state, busy, stations } => HeaderText::Channel {
                state: state@,
                busy,
                stations: stations@,
            },
            Header::Link(addr) => HeaderText::Link(addr@),
            Header::Empty => HeaderText::Empty,
        }
    }
}

/// What the head of the window shows for a channel or an address.
pub open spec fn header_text(
    channel: Option<ChannelSnapshot>,
    link_addr: Option<String>,
) -> HeaderText {
    match channel {
        Some(ch) => HeaderText::Channel {
            state: match ch.current_tx {
                Some(s) => "MEŞGUL — "@ + s@ + " ("@ + text::tenths(ch.busy_tenths as nat)
                    + "sn)"@,
                None => "kanal boş"@,
            },
            busy: ch.current_tx is Some,
            stations: text::decimal(ch.active_clients as nat) + " istasyon"@,
        },
        None => match link_addr {
            Some(addr) => HeaderText::Link("↔ "@ + addr@),
            None => HeaderText::Empty,
        },
    }
}

/// What the head of the window shows: the channel where there is one, else the
/// address of the channel elsewhere.
pub fn header(channel: &Option<ChannelSnapshot>, link_addr: &Option<String>) -> (r: Header)
    ensures
        r@ == header_text(*channel, *link_addr),
{
    match channel {
        Some(ch) => {
            let mut stations = String::new();
            push_decimal(&mut stations, ch.active_clients);
            stations.append(" istasyon");
            assert(stations@ =~= text::decimal(ch.active_clients as nat) + " istasyon"@);
            match &ch.current_tx {
                Some(s) => {
                    let mut state = "MEŞGUL — ".to_string();
                    state.append(s.as_str());
                    state.append(" (");
                    push_tenths(&mut state, ch.busy_tenths);
                    state.append("sn)");
                    Header::Channel { state, busy: true, stations }
                },
                None => Header::Channel { state: "kanal boş".to_string(), busy: false, stations },
            }
        },
        None => match link_addr {
            Some(addr) => {
                let mut text = "↔ ".to_string();
                text.append(addr.as_str());
                Header::Link(text)
            },
            None => Header::Empty,
        },
    }
}

/// The state of the channel in words.
pub open spec fn busy_text(ch: ChannelSnapshot) -> Seq<char> {
    if ch.busy {
        "MEŞGUL ("@ + (match ch.current_tx {
            Some(s) => s@,
            None => Seq::empty(),
        }) + ", "@ + text::hundredths(ch.busy_hundredths as nat) + "sn kaldı)"@
    } else {
        "boş"@
    }
}

/// The state line of the channel view.
pub fn channel_state_line(ch: &ChannelSnapshot) -> (r: String)
    ensures
        r@ == "Durum: "@ + busy_text(*ch) + "   |   aktif istasyon: "@ + text::decimal(
            ch.active_clients as nat,
        ),
{
    let mut state: String;
    if ch.busy {
        state = "MEŞGUL (".to_string();
        match &ch.current_tx {
            Some(s) => {
                state.append(s.as_str());
            },
            None => {
                assert(state@ + Seq::<char>::empty() =~= state@);
            },
        }
        state.append(", ");
        push_hundredths(&mut state, ch.busy_hundredths);
        state.append("sn kaldı)");
    } else {
        state = "boş".to_string();
    }
    assert(state@ == busy_text(*ch));
    let mut r = "Durum: ".to_string();
    r.append(state.as_str());
    r.append("   |   aktif istasyon: ");
    push_decimal(&mut r, ch.active_clients);
    r
}

/// The entry of a station in the list of stations.
pub fn station_label(s: &StationSnapshot) -> (r: String)
    ensures
        r@ == s.callsign@ + "  ["@ + s.role.text() + "]"@,
{
    let mut r = s.callsign.clone();
    r.append("  [");
    r.append(s.role.as_str());
    r.append("]");
    r
}

/// An optional name, or a dash.
pub open spec fn name_or_dash(s: Option<String>) -> Seq<char> {
    match s {
        Some(t) => t@,
        None => "-"@,
    }
}

fn push_name_or_dash(out: &mut String, s: &Option<String>)
    ensures
        final(out)@ == old(out)@ + name_or_dash(*s),
{
    match s {
        Some(t) => out.append(t.as_str()),
        None => out.append("-"),
    }
}

/// The line with the master and the backup that a station knows of, and its
/// link.
pub fn station_status_line(s: &StationSnapshot) -> (r: String)
    ensures
        r@ == "master="@ + name_or_dash(s.master) + "  backup="@ + name_or_dash(s.backup) + "  "@
            + if s.connected { "bağlı"@ } else { "KOPUK"@ },
{
    let mut r = "master=".to_string();
    push_name_or_dash(&mut r, &s.master);
    r.append("  backup=");
    push_name_or_dash(&mut r, &s.backup);
    r.append("  ");
    if s.connected {
        r.append("bağlı");
    } else {
        r.append("KOPUK");
    }
    r
}

/// The status of a station of the roster in words.
pub fn roster_status_text(status: RosterStatus) -> (r: &'static str)
    ensures
        r@ == match status {
            RosterStatus::Active => "aktif"@,
            RosterStatus::Lost => "kayıp"@,
        },
{
    match status {
        RosterStatus::Active => "aktif",
        RosterStatus::Lost => "kayıp",
    }
}

/// How long ago a station of the roster was heard.
pub fn roster_age_text(entry: &RosterEntry) -> (r: String)
    ensures
        r@ == text::decimal(entry.age as nat) + "sn önce"@,
{
    let mut r = String::new();
    push_decimal(&mut r, entry.age);
    r.append("sn önce");
    assert(r@ =~= text::decimal(entry.age as nat) + "sn önce"@);
    r
}

/// The blocks of a transfer that are through, of all.
pub open spec fn blocks_text(t: TransferSnapshot) -> Seq<char> {
    text::decimal(t.have as nat) + "/"@ + text::decimal(t.total as nat)
}

fn push_blocks(out: &mut String, t: &TransferSnapshot)
    ensures
        final(out)@ == old(out)@ + blocks_text(*t),
{
    let ghost before = out@;
    push_decimal(out, t.have);
    out.append("/");
    push_decimal(out, t.total);
    assert(out@ =~= before + blocks_text(*t));
}

/// The mark of a complete file.
pub open spec fn done_text(t: TransferSnapshot) -> Seq<char> {
    if t.complete {
        "  ✓"@
    } else {
        Seq::empty()
    }
}

fn push_done(out: &mut String, t: &TransferSnapshot)
    ensures
        final(out)@ == old(out)@ + done_text(*t),
{
    if t.complete {
        out.append("  ✓");
    } else {
        assert(out@ + Seq::<char>::empty() =~= out@);
    }
}

/// The round in which blocks are sent again, between `open` and `close`;
/// nothing in the first pass.
pub open spec fn arq_text(t: TransferSnapshot, open: Seq<char>, close: Seq<char>) -> Seq<char> {
    if t.arq_round > 0 {
        open + text::decimal(t.arq_round as nat) + close
    } else {
        Seq::empty()
    }
}

fn push_arq(out: &mut String, t: &TransferSnapshot, open: &str, close: &str)
    ensures
        final(out)@ == old(out)@ + arq_text(*t, open@, close@),
{
    let ghost before = out@;
    if t.arq_round > 0 {
        out.append(open);
        push_decimal(out, t.arq_round);
        out.append(close);
    }
    assert(out@ =~= before + arq_text(*t, open@, close@));
}

/// The line of an outgoing transfer in the view of its station.
pub fn outgoing_line(t: &TransferSnapshot) -> (r: String)
    ensures
        r@ == "↑ "@ + t.filename@ + " -> "@ + t.peer@ + " "@ + blocks_text(*t) + arq_text(
            *t,
            " (ARQ "@,
            ")"@,
        ),
{
    let mut r = "↑ ".to_string();
    r.append(t.filename.as_str());
    r.append(" -> ");
    r.append(t.peer.as_str());
    r.append(" ");
    push_blocks(&mut r, t);
    push_arq(&mut r, t, " (ARQ ", ")");
    r
}

/// The line of an incoming transfer in the view of its station.
pub fn incoming_line(t: &TransferSnapshot) -> (r: String)
    ensures
        r@ == "↓ "@ + t.filename@ + " <- "@ + t.peer@ + " "@ + blocks_text(*t) + done_text(*t),
{
    let mut r = "↓ ".to_string();
    r.append(t.filename.as_str());
    r.append(" <- ");
    r.append(t.peer.as_str());
    r.append(" ");
    push_blocks(&mut r, t);
    push_done(&mut r, t);
    r
}

/// The line of an outgoing transfer in the view of the net.
pub fn net_outgoing_line(callsign: &str, t: &TransferSnapshot) -> (r: String)
    ensures
        r@ == callsign@ + " ↑ "@ + t.filename@ + " → "@ + t.peer@ + " "@ + blocks_text(*t)
            + arq_text(*t, " ARQ"@, ""@),
{
    let mut r = callsign.to_string();
    r.append(" ↑ ");
    r.append(t.filename.as_str());
    r.append(" → ");
    r.append(t.peer.as_str());
    r.append(" ");
    push_blocks(&mut r, t);
    push_arq(&mut r, t, " ARQ", "");
    r
}

/// The line of an incoming transfer in the view of the net.
pub fn net_incoming_line(callsign: &str, t: &TransferSnapshot) -> (r: String)
    ensures
        r@ == callsign@ + " ↓ "@ + t.filename@ + " ← "@ + t.peer@ + " "@ + blocks_text(*t)
            + done_text(*t),
{
    let mut r = callsign.to_string();
    r.append(" ↓ ");
    r.append(t.filename.as_str());
    r.append(" ← ");
    r.append(t.peer.as_str());
    r.append(" ");
    push_blocks(&mut r, t);
    push_done(&mut r, t);
    r
}

/// A line of the chat of a station.
pub fn chat_label(line: &ChatLine) -> (r: String)
    ensures
        r@ == "["@ + (if line.private { "özel"@ } else { "herkese"@ }) + "] "@ + line.from@ + ": "@
            + line.text@,
{
    let mut r = "[".to_string();
    if line.private {
        r.append("özel");
    } else {
        r.append("herkese");
    }
    r.append("] ");
    r.append(line.from.as_str());
    r.append(": ");
    r.append(line.text.as_str());
    r
}

/// A line of the merged chat; the addressee is named unless it is everyone.
pub fn net_chat_label(line: &ChatLine) -> (r: String)
    ensures
        r@ == line.from@ + (if line.dst@ == "ALL"@ {
            Seq::empty()
        } else {
            " → "@ + line.dst@
        }) + ": "@ + line.text@,
{
    let mut r = line.from.clone();
    let ghost before = r@;
    if !same_text(line.dst.as_str(), "ALL") {
        r.append(" → ");
        r.append(line.dst.as_str());
        assert(r@ =~= before + (" → "@ + line.dst@));
    } else {
        assert(r@ =~= before + Seq::<char>::empty());
    }
    r.append(": ");
    r.append(line.text.as_str());
    r
}

/// The line above a received picture.
pub fn image_label(img: &ReceivedImage) -> (r: String)
    ensures
        r@ == img.from@ + "  ·  "@ + img.filename@ + "  ·  "@ + img.when@ + " UTC  ·  "@
            + text::decimal(img.width as nat) + "×"@ + text::decimal(img.height as nat),
{
    let mut r = img.from.clone();
    r.append("  ·  ");
    r.append(img.filename.as_str());
    r.append("  ·  ");
    r.append(img.when.as_str());
    r.append(" UTC  ·  ");
    push_decimal(&mut r, img.width as u64);
    r.append("×");
    push_decimal(&mut r, img.height as u64);
    r
}

/// The head of the window shows the channel where there is one: who transmits
/// and for how long, or that nobody does, and how many stations there are.
/// Without a channel it shows the address, if any.
pub proof fn law_header_says(ch: ChannelSnapshot, addr: String, link: Option<String>)
    ensures
        header_text(Some(ch), link) is Channel,
        header_text(Some(ch), link)->busy <==> ch.current_tx is Some,
        ch.current_tx matches Some(s) ==> header_text(Some(ch), link)->state == "MEŞGUL — "@ + (s@
            + (" ("@ + (text::tenths(ch.busy_tenths as nat) + "sn)"@))),
        ch.current_tx is None ==> header_text(Some(ch), link)->state == "kanal boş"@,
        header_text(Some(ch), link)->stations == text::decimal(ch.active_clients as nat)
            + " istasyon"@,
        header_text(None, Some(addr)) == HeaderText::Link("↔ "@ + addr@),
        header_text(None, None) is Empty,
{
    if let Some(s) = ch.current_tx {
        assert(header_text(Some(ch), link)->state =~= "MEŞGUL — "@ + (s@ + (" ("@ + (text::tenths(
            ch.busy_tenths as nat,
        ) + "sn)"@))));
    }
}

/// What a head shows is what it holds.
pub proof fn law_header_shows_its_fields(state: String, busy: bool, stations: String)
    ensures
        (Header::Channel { state, busy, stations })@ == (HeaderText::Channel {
            state: state@,
            busy,
            stations: stations@,
        }),
        Header::Link(state)@ == HeaderText::Link(state@),
        Header::Empty@ is Empty,
{
}

/// A busy channel shows who transmits, if known, and how long it stays busy.
pub proof fn law_channel_state_says(ch: ChannelSnapshot)
    ensures
        !ch.busy ==> busy_text(ch) == "boş"@,
        ch.busy ==> {
            let rest = ", "@ + (text::hundredths(ch.busy_hundredths as nat) + "sn kaldı)"@);
            match ch.current_tx {
                Some(s) => busy_text(ch) == "MEŞGUL ("@ + (s@ + rest),
                None => busy_text(ch) == "MEŞGUL ("@ + rest,
            }
        },
{
    if ch.busy {
        let rest = ", "@ + (text::hundredths(ch.busy_hundredths as nat) + "sn kaldı)"@);
        match ch.current_tx {
            Some(s) => {
                assert(busy_text(ch) =~= "MEŞGUL ("@ + (s@ + rest));
            },
            None => {
                assert(busy_text(ch) =~= "MEŞGUL ("@ + rest);
            },
        }
    }
}

/// A name is shown as it is and a missing one as a dash; the parts of a
/// transfer's line show its blocks, its round if blocks were sent again, and
/// whether it is complete.
pub proof fn law_transfer_parts_say(
    t: TransferSnapshot,
    name: String,
    open: Seq<char>,
    close: Seq<char>,
)
    ensures
        name_or_dash(Some(name)) == name@,
        name_or_dash(None) == "-"@,
        blocks_text(t) == text::decimal(t.have as nat) + ("/"@ + text::decimal(t.total as nat)),
        t.complete ==> done_text(t) == "  ✓"@,
        !t.complete ==> done_text(t).len() == 0,
        t.arq_round == 0 ==> arq_text(t, open, close).len() == 0,
        t.arq_round > 0 ==> arq_text(t, open, close) == open + (text::decimal(t.arq_round as nat)
            + close),
{
    assert(blocks_text(t) =~= text::decimal(t.have as nat) + ("/"@ + text::decimal(
        t.total as nat,
    )));
    if t.arq_round > 0 {
        assert(arq_text(t, open, close) =~= open + (text::decimal(t.arq_round as nat) + close));
    }
}

} // verus!
