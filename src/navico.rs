//! Navico (BR24, 3G, 4G, HALO) protocol logic: model names, locator
//! addresses, classification of locator and report datagrams, and the binary
//! command frames that set each control.
use vstd::prelude::*;
use vstd::slice::slice_to_vec;
use crate::text::same_text;

verus! {

/// Navico radar model.
#[derive(Debug, Clone, Copy, PartialEq, Eq, Structural)]
pub enum Model {
    Unknown,
    BR24,
    Gen3,
    Gen4,
    HALO,
}

pub open spec fn model_name(m: Model) -> Seq<char> {
    match m {
        Model::Unknown => ""@,
        Model::BR24 => "BR24"@,
        Model::Gen3 => "3G"@,
        Model::Gen4 => "4G"@,
        Model::HALO => "HALO"@,
    }
}

pub open spec fn model_of_name(s: Seq<char>) -> Model {
    if s == "BR24"@ {
        Model::BR24
    } else if s == "3G"@ {
        Model::Gen3
    } else if s == "4G"@ {
        Model::Gen4
    } else if s == "HALO"@ {
        Model::HALO
    } else {
        Model::Unknown
    }
}

impl Model {
    /// The model with this name (`BR24`, `3G`, `4G`, `HALO`), else `Unknown`.
    pub fn new(s: &str) -> (m: Model)
        ensures
            m == model_of_name(s@),
    {
        if same_text(s, "BR24") {
            Model::BR24
        } else if same_text(s, "3G") {
            Model::Gen3
        } else if same_text(s, "4G") {
            Model::Gen4
        } else if same_text(s, "HALO") {
            Model::HALO
        } else {
            Model::Unknown
        }
    }

    /// Display name of the model (empty for `Unknown`).
    pub fn to_string(&self) -> (r: String)
        ensures
            r@ == model_name(*self),
    {
        match self {
            Model::Unknown => String::from_str(""),
            Model::BR24 => String::from_str("BR24"),
            Model::Gen3 => String::from_str("3G"),
            Model::Gen4 => String::from_str("4G"),
            Model::HALO => String::from_str("HALO"),
        }
    }
}

// ---------------------------------------------------------------------------
// Locators
// ---------------------------------------------------------------------------

/// Which beacon group a locator listens on.
#[derive(Debug, Clone, Copy, PartialEq, Eq, Structural)]
pub enum LocatorId {
    /// Legacy BR24 beacons.
    GenBR24,
    /// 3G / 4G / HALO beacons.
    Gen3Plus,
}

/// A multicast address to listen on for beacons, with the packets that ask
/// radars to announce themselves there.
#[derive(Debug, Clone)]
pub struct LocatorAddress {
    pub id: LocatorId,
    pub group: String,
    pub port: u16,
    pub request_packets: Vec<Vec<u8>>,
}

/// Packet asking radars for their addresses.
pub open spec fn address_request_packet() -> Seq<u8> {
    seq![0x01u8, 0xB1u8]
}

/// Locator for 3G / 4G / HALO radars: group 236.6.7.5, port 6878. It asks
/// for addresses unless a recording is being replayed.
pub fn create_locator(replay: bool) -> (r: LocatorAddress)
    ensures
        r.id == LocatorId::Gen3Plus,
        r.group@ == "236.6.7.5"@,
        r.port == 6878,
        r.request_packets@.len() == if replay { 0int } else { 1int },
        !replay ==> r.request_packets@[0]@ == address_request_packet(),
{
    let mut packets: Vec<Vec<u8>> = Vec::new();
    if !replay {
        packets.push(slice_to_vec(&[0x01u8, 0xB1u8]));
        assert(packets@[0]@ =~= address_request_packet());
    }
    LocatorAddress { id: LocatorId::Gen3Plus, group: String::from_str("236.6.7.5"), port: 6878, request_packets: packets }
}

/// Locator for BR24 radars: group 236.6.7.4, port 6768, always asking for
/// addresses.
pub fn create_br24_locator() -> (r: LocatorAddress)
    ensures
        r.id == LocatorId::GenBR24,
        r.group@ == "236.6.7.4"@,
        r.port == 6768,
        r.request_packets@.len() == 1,
        r.request_packets@[0]@ == address_request_packet(),
{
    let mut packets: Vec<Vec<u8>> = Vec::new();
    packets.push(slice_to_vec(&[0x01u8, 0xB1u8]));
    assert(packets@[0]@ =~= address_request_packet());
    LocatorAddress { id: LocatorId::GenBR24, group: String::from_str("236.6.7.4"), port: 6768, request_packets: packets }
}

/// What a datagram on a beacon group is.
#[derive(Debug, Clone, Copy, PartialEq, Eq, Structural)]
pub enum LocatorReport {
    /// Under two bytes, or an unknown message.
    Ignored,
    /// Another client's address request.
    AddressRequest,
    /// A radar beacon (`0x01 0xB2`).
    Beacon,
}

pub open spec fn locator_report_kind(d: Seq<u8>) -> LocatorReport {
    if d.len() < 2 {
        LocatorReport::Ignored
    } else if d == address_request_packet() {
        LocatorReport::AddressRequest
    } else if d[0] == 0x01 && d[1] == 0xB2 {
        LocatorReport::Beacon
    } else {
        LocatorReport::Ignored
    }
}

/// Classifies a datagram received on a beacon group.
pub fn classify_locator_report(report: &[u8]) -> (r: LocatorReport)
    ensures
        r == locator_report_kind(report@),
{
    if report.len() < 2 {
        return LocatorReport::Ignored;
    }
    if report.len() == 2 && report[0] == 0x01 && report[1] == 0xB1 {
        assert(report@ =~= address_request_packet());
        return LocatorReport::AddressRequest;
    }
    if report[0] == 0x01 && report[1] == 0xB2 {
        LocatorReport::Beacon
    } else {
        LocatorReport::Ignored
    }
}

// ---------------------------------------------------------------------------
// Reports
// ---------------------------------------------------------------------------

/// Which handler a report datagram goes to.
#[derive(Debug, Clone, Copy, PartialEq, Eq, Structural)]
pub enum ReportKind {
    /// Shorter than two bytes: dropped as malformed.
    TooShort,
    /// A well-formed `0x11 0xC6 0x00` acknowledgement.
    Acknowledge,
    /// A `0x11 0xC6` message of the wrong shape: dropped as malformed.
    BadAcknowledge,
    /// Status (`0x01 0xC4`).
    Status,
    /// Settings (`0x02 0xC4`).
    Settings,
    /// Model and firmware (`0x03 0xC4`).
    Firmware,
    /// Installation (`0x04 0xC4`).
    Installation,
    /// Blanking sectors, 68-byte layout (`0x06 0xC4`).
    Blanking68,
    /// Blanking sectors, 74-byte layout (`0x06 0xC4`).
    Blanking74,
    /// Advanced settings (`0x08 0xC4`).
    Advanced,
    /// A known report that needs the model first, or one this library skips.
    Skipped,
    /// A report id that is not known.
    Unknown(u8),
}

/// Report handling: by the second byte (`0xC4` reports, `0xC6` messages),
/// then by the first. Settings, blanking and advanced reports are only read
/// once the model is known.
pub open spec fn report_kind(d: Seq<u8>, model: Model) -> ReportKind {
    if d.len() < 2 {
        ReportKind::TooShort
    } else if d[1] != 0xC4 {
        if d[1] == 0xC6 && d[0] == 0x11 {
            if d.len() == 3 && d[2] == 0 { ReportKind::Acknowledge } else { ReportKind::BadAcknowledge }
        } else {
            ReportKind::Skipped
        }
    } else if d[0] == 0x01 {
        ReportKind::Status
    } else if d[0] == 0x03 {
        ReportKind::Firmware
    } else if d[0] == 0x04 {
        ReportKind::Installation
    } else if d[0] == 0x02 || d[0] == 0x06 || d[0] == 0x08 {
        if model == Model::Unknown {
            ReportKind::Skipped
        } else if d[0] == 0x02 {
            ReportKind::Settings
        } else if d[0] == 0x08 {
            ReportKind::Advanced
        } else if d.len() == 68 {
            ReportKind::Blanking68
        } else {
            ReportKind::Blanking74
        }
    } else {
        ReportKind::Unknown(d[0])
    }
}

/// Decides which handler a report datagram goes to.
pub fn process_report(data: &[u8], model: Model) -> (r: ReportKind)
    ensures
        r == report_kind(data@, model),
{
    if data.len() < 2 {
        return ReportKind::TooShort;
    }
    if data[1] != 0xC4 {
        if data[1] == 0xC6 && data[0] == 0x11 {
            if data.len() == 3 && data[2] == 0 {
                return ReportKind::Acknowledge;
            }
            return ReportKind::BadAcknowledge;
        }
        return ReportKind::Skipped;
    }
    let id = data[0];
    if id == 0x01 {
        ReportKind::Status
    } else if id == 0x03 {
        ReportKind::Firmware
    } else if id == 0x04 {
        ReportKind::Installation
    } else if id == 0x02 || id == 0x06 || id == 0x08 {
        if model == Model::Unknown {
            ReportKind::Skipped
        } else if id == 0x02 {
            ReportKind::Settings
        } else if id == 0x08 {
            ReportKind::Advanced
        } else if data.len() == 68 {
            ReportKind::Blanking68
        } else {
            ReportKind::Blanking74
        }
    } else {
        ReportKind::Unknown(id)
    }
}

/// Frames asking for reports 03, 02/03/04/07/08, and keeping the radar on;
/// sent every 5 s.
pub fn report_request_frames() -> (r: Vec<Vec<u8>>)
    ensures
        r@.len() == 3,
        r@[0]@ == seq![0x04u8, 0xC2u8],
        r@[1]@ == seq![0x01u8, 0xC2u8],
        r@[2]@ == seq![0xA0u8, 0xC1u8],
{
    let mut r: Vec<Vec<u8>> = Vec::new();
    r.push(slice_to_vec(&[0x04u8, 0xC2u8]));
    r.push(slice_to_vec(&[0x01u8, 0xC2u8]));
    r.push(slice_to_vec(&[0xA0u8, 0xC1u8]));
    assert(r@[0]@ =~= seq![0x04u8, 0xC2u8]);
    assert(r@[1]@ =~= seq![0x01u8, 0xC2u8]);
    assert(r@[2]@ =~= seq![0xA0u8, 0xC1u8]);
    r
}

} // verus!
