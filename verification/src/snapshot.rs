//! The picture of the engine that the views show.

use vstd::prelude::*;

use crate::chat::ChatLine;
use crate::engine::Engine;
use crate::events::ChannelLogs;
use crate::station::{ChannelSnapshot, ReceivedImage, StationSnapshot};
#[allow(unused_imports)]
use crate::{chat, events};

verus! {

/// What is shown of a station.
#[derive(Clone)]
pub struct StationView {
    /// What is known of it.
    pub snap: StationSnapshot,
    /// Its log.
    pub log: Vec<String>,
    /// Its chat.
    pub chat: Vec<ChatLine>,
}

/// What the views show.
#[derive(Clone)]
pub struct EngineSnapshot {
    /// The channel, where the engine has it.
    pub channel: Option<ChannelSnapshot>,
    /// The channel log.
    pub channel_log: Vec<String>,
    /// The decode strip.
    pub monitor_decodes: Vec<String>,
    /// The stations, in the order of their call signs.
    pub stations: Vec<StationView>,
    /// The merged chat of the net.
    pub net_chat: Vec<ChatLine>,
    /// Whether the automatic chat runs.
    pub auto_chat_on: bool,
    /// The address of the channel, where it is elsewhere or open to others.
    pub link_addr: Option<String>,
    /// The pictures that were received.
    pub images: Vec<ReceivedImage>,
}

impl Default for EngineSnapshot {
    fn default() -> (r: Self)
        ensures
            r.channel is None,
            r.channel_log@ == Seq::<String>::empty(),
            r.monitor_decodes@ == Seq::<String>::empty(),
            r.stations@ == Seq::<StationView>::empty(),
            r.net_chat@ == Seq::<ChatLine>::empty(),
            !r.auto_chat_on,
            r.link_addr is None,
            r.images@ == Seq::<ReceivedImage>::empty(),
    {
        EngineSnapshot {
            channel: None,
            channel_log: Vec::new(),
            monitor_decodes: Vec::new(),
            stations: Vec::new(),
            net_chat: Vec::new(),
            auto_chat_on: false,
            link_addr: None,
            images: Vec::new(),
        }
    }
}

/// Whether `views` shows the stations of the engine, with `snaps` as what is
/// known of each.
pub open spec fn shows_stations(
    views: Seq<StationView>,
    engine: crate::engine::EngineState,
    snaps: Seq<StationSnapshot>,
) -> bool {
    &&& views.len() == engine.slots.len()
    &&& forall|i: int|
        0 <= i < views.len() ==> {
            &&& (#[trigger] views[i]).snap == snaps[i]
            &&& events::texts(views[i].log@) == engine.slots[i].log
            &&& chat::chat_texts(views[i].chat@) == engine.slots[i].chat
        }
}

/// The views of the stations; `snaps` says what is known of each, in the order
/// of [`Engine::callsigns`].
pub fn station_views(engine: &Engine, snaps: Vec<StationSnapshot>) -> (r: Vec<StationView>)
    requires
        snaps@.len() == engine@.slots.len(),
    ensures
        shows_stations(r@, engine@, snaps@),
{
    let ghost all = snaps@;
    let mut rest = snaps;
    let mut r: Vec<StationView> = Vec::new();
    let mut i: usize = 0;
    assert(all.skip(0) =~= all);
    while i < engine.station_count()
        invariant
            i <= engine@.slots.len(),
            all.len() == engine@.slots.len(),
            rest@ == all.skip(i as int),
            r@.len() == i,
            forall|j: int|
                0 <= j < i ==> {
                    &&& (#[trigger] r@[j]).snap == all[j]
                    &&& events::texts(r@[j].log@) == engine@.slots[j].log
                    &&& chat::chat_texts(r@[j].chat@) == engine@.slots[j].chat
                },
        decreases engine@.slots.len() - i,
    {
        let snap = rest.remove(0);
        assert(rest@ =~= all.skip(i + 1));
        r.push(StationView { snap, log: engine.station_log(i), chat: engine.station_chat(i) });
        i = i + 1;
    }
    r
}

impl EngineSnapshot {
    /// Takes over the channel and its logs.
    pub fn publish_channel(&mut self, channel: ChannelSnapshot, logs: &ChannelLogs)
        ensures
            final(self).channel == Some(channel),
            events::texts(final(self).channel_log@) == logs@.events,
            events::texts(final(self).monitor_decodes@) == logs@.decodes,
            final(self).stations == old(self).stations,
            final(self).net_chat == old(self).net_chat,
            final(self).auto_chat_on == old(self).auto_chat_on,
            final(self).link_addr == old(self).link_addr,
            final(self).images == old(self).images,
    {
        self.channel = Some(channel);
        self.channel_log = logs.events();
        self.monitor_decodes = logs.decodes();
    }

    /// Takes over the decode strip.
    pub fn publish_decodes(&mut self, logs: &ChannelLogs)
        ensures
            events::texts(final(self).monitor_decodes@) == logs@.decodes,
            final(self).channel == old(self).channel,
            final(self).channel_log == old(self).channel_log,
            final(self).stations == old(self).stations,
            final(self).net_chat == old(self).net_chat,
            final(self).auto_chat_on == old(self).auto_chat_on,
            final(self).link_addr == old(self).link_addr,
            final(self).images == old(self).images,
    {
        self.monitor_decodes = logs.decodes();
    }

    /// Takes over the stations, the merged chat and the automatic chat.
    pub fn publish_stations(&mut self, engine: &Engine, snaps: Vec<StationSnapshot>)
        requires
            snaps@.len() == engine@.slots.len(),
        ensures
            shows_stations(final(self).stations@, engine@, snaps@),
            chat::chat_texts(final(self).net_chat@) == engine@.net_chat,
            final(self).auto_chat_on == engine@.auto_chat,
            final(self).channel == old(self).channel,
            final(self).channel_log == old(self).channel_log,
            final(self).monitor_decodes == old(self).monitor_decodes,
            final(self).link_addr == old(self).link_addr,
            final(self).images == old(self).images,
    {
        self.stations = station_views(engine, snaps);
        self.net_chat = engine.net_chat();
        self.auto_chat_on = engine.auto_chat_on();
    }
}

/// Each station is shown once, in the engine's order, with what is known of it
/// and with all of its log and of its chat.
pub proof fn law_views_show_each_station(
    views: Seq<StationView>,
    engine: crate::engine::EngineState,
    snaps: Seq<StationSnapshot>,
    i: int,
)
    requires
        shows_stations(views, engine, snaps),
        0 <= i < engine.slots.len(),
    ensures
        views.len() == engine.slots.len(),
        views[i].snap == snaps[i],
        events::texts(views[i].log@) == engine.slots[i].log,
        chat::chat_texts(views[i].chat@) == engine.slots[i].chat,
{
}

} // verus!
