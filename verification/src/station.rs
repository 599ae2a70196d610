//! What is known of the stations and of the channel at one moment.

use vstd::prelude::*;

verus! {

/// The modulation of a transmission.
#[derive(Debug, Clone, Copy, PartialEq, Eq, Structural)]
pub enum Mode {
    /// The faster one.
    Qpsk,
    /// The more robust one.
    Bpsk,
}

impl Mode {
    /// The name of the modulation.
    pub open spec fn text(self) -> Seq<char> {
        match self {
            Mode::Qpsk => "QPSK"@,
            Mode::Bpsk => "BPSK"@,
        }
    }

    /// The name of the modulation.
    pub fn as_str(self) -> (r: &'static str)
        ensures
            r@ == self.text(),
    {
        match self {
            Mode::Qpsk => "QPSK",
            Mode::Bpsk => "BPSK",
        }
    }
}

/// The part that a station plays in the net.
#[derive(Debug, Clone, Copy, PartialEq, Eq, Structural)]
pub enum Role {
    /// It listens.
    Listener,
    /// It coordinates the net.
    Master,
    /// It takes over when the master falls silent.
    Backup,
}

impl Role {
    /// The name of the role.
    pub open spec fn text(self) -> Seq<char> {
        match self {
            Role::Listener => "LISTENER"@,
            Role::Master => "MASTER"@,
            Role::Backup => "BACKUP"@,
        }
    }

    /// The name of the role.
    pub fn as_str(self) -> (r: &'static str)
        ensures
            r@ == self.text(),
    {
        match self {
            Role::Listener => "LISTENER",
            Role::Master => "MASTER",
            Role::Backup => "BACKUP",
        }
    }
}

/// Whether a station of the roster is on the air.
#[derive(Debug, Clone, Copy, PartialEq, Eq, Structural)]
pub enum RosterStatus {
    /// It was heard lately.
    Active,
    /// It has gone quiet.
    Lost,
}

/// A station that another one knows of.
#[derive(Debug, Clone)]
pub struct RosterEntry {
    /// Its call sign.
    pub callsign: String,
    /// Whether it is on the air.
    pub status: RosterStatus,
    /// The seconds since it was heard.
    pub age: u64,
}

/// The progress of a transfer.
#[derive(Debug, Clone)]
pub struct TransferSnapshot {
    /// The name of the file.
    pub filename: String,
    /// The station at the other end.
    pub peer: String,
    /// The blocks that are through.
    pub have: u64,
    /// All blocks.
    pub total: u64,
    /// The rounds in which blocks were sent again.
    pub arq_round: u64,
    /// Whether the file is complete.
    pub complete: bool,
}

/// What is known of a station.
#[derive(Debug, Clone)]
pub struct StationSnapshot {
    /// Its call sign.
    pub callsign: String,
    /// Its part in the net.
    pub role: Role,
    /// The master that it knows of.
    pub master: Option<String>,
    /// The backup that it knows of.
    pub backup: Option<String>,
    /// Whether its link is up.
    pub connected: bool,
    /// The stations that it knows of.
    pub roster: Vec<RosterEntry>,
    /// What it is sending.
    pub transfers_out: Vec<TransferSnapshot>,
    /// What it is receiving.
    pub transfers_in: Vec<TransferSnapshot>,
}

/// What is known of the channel.
#[derive(Debug, Clone)]
pub struct ChannelSnapshot {
    /// Whether a transmission is on the air.
    pub busy: bool,
    /// Who transmits.
    pub current_tx: Option<String>,
    /// How long the channel stays busy, rounded to tenths of a second.
    pub busy_tenths: u64,
    /// How long the channel stays busy, rounded to hundredths of a second.
    pub busy_hundredths: u64,
    /// The stations on the channel.
    pub active_clients: u64,
}

/// The physics of the channel; the numbers are in millionths.
#[derive(Debug, Clone, Copy, PartialEq, Eq, Structural)]
pub struct ChannelConfig {
    /// The signal-to-noise ratio in decibels; without one there is no noise.
    pub snr_db: Option<i32>,
    /// The delay of the echo in milliseconds.
    pub multipath_delay_ms: i32,
    /// The gain of the echo.
    pub multipath_gain: i32,
}

/// A picture that was received over the air.
#[derive(Debug, Clone)]
pub struct ReceivedImage {
    /// Who sent it.
    pub from: String,
    /// The name of its file.
    pub filename: String,
    /// When it arrived.
    pub when: String,
    /// Its pixels in a row.
    pub width: usize,
    /// Its rows.
    pub height: usize,
    /// Its pixels, four bytes each.
    pub rgba: std::sync::Arc<Vec<u8>>,
}

} // verus!
