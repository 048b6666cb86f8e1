//! Active device discovery: family probes run in registration order at one
//! `(bus, can_id)`; the first probe that finds a device wins.
//!
//! Passive sightings are tracked in [`crate::state::SeenTable`].
use vstd::prelude::*;
use vstd::utf8::{decode_utf8, valid_utf8};

use crate::text::{chars_of, copy_string, string_from_chars, trim_chars, trim_seq};

verus! {

/// Outcome of one type-17 parameter read.
#[derive(Debug, Clone, Copy)]
pub enum Type17Reply {
    /// No reply (send error or timeout).
    NoReply,
    /// The device answered with its read-fail status.
    ReadFail,
    /// The four data bytes of the reply.
    Value([u8; 4]),
}

/// Minimal read primitive the probes need (implemented by the CAN core).
pub trait BusParamReader {
    /// `r` is a reply this reader may give to a type-17 read of register
    /// `index` of motor `motor_id` on `iface`, waiting `timeout_ms`. A reader
    /// that does not refine it may give any reply.
    open spec fn replies(&self, iface: Seq<char>, motor_id: u8, index: u16, timeout_ms: u64, r: Type17Reply) -> bool {
        true
    }

    fn read_type17_register(&self, iface: &str, motor_id: u8, index: u16, timeout_ms: u64) -> (r: Type17Reply)
        ensures
            self.replies(iface@, motor_id, index, timeout_ms, r),
    ;
}

/// What a probe learned about the device it found.
#[derive(Debug)]
pub enum Identification {
    /// The firmware-version register, as text.
    FirmwareSnippet { param_index: u16, snippet: String },
    /// The device answered but could not read the register.
    ReadFail { param_index: u16 },
}

/// One device that responded to a probe.
#[derive(Debug)]
pub struct DiscoveredDevice {
    pub bus: String,
    pub can_id: u8,
    pub family_hint: String,
    pub identification: Option<Identification>,
}

/// One probe attempt at a single `(bus, can_id)`.
#[derive(Debug)]
pub struct ScanAttempt {
    pub bus: String,
    pub can_id: u8,
    pub probe: String,
    pub found: bool,
}

/// Result bundle of an active scan.
#[derive(Debug)]
pub struct HardwareScanReport {
    pub discovered: Vec<DiscoveredDevice>,
    pub attempts: Vec<ScanAttempt>,
    pub message: Option<String>,
}

impl HardwareScanReport {
    /// A report with nothing found and an explanatory message.
    pub fn empty(message: String) -> (r: HardwareScanReport)
        ensures
            r.discovered@.len() == 0,
            r.attempts@.len() == 0,
            r.message == Some(message),
    {
        HardwareScanReport { discovered: Vec::new(), attempts: Vec::new(), message: Some(message) }
    }
}

/// A family-specific active probe.
pub trait DeviceProbe {
    spec fn family(&self) -> Seq<char>;

    fn family_name(&self) -> (r: &'static str)
        ensures
            r@ == self.family(),
    ;

    fn probe<R: BusParamReader>(&self, reader: &R, bus: &str, can_id: u8, timeout_ms: u64) -> (r:
        Option<DiscoveredDevice>)
        ensures
            r matches Some(d) ==> d.bus@ == bus@ && d.can_id == can_id && d.family_hint@
                == self.family(),
    ;
}

/// Text `String::from_utf8_lossy` makes of `b`.
pub uninterp spec fn utf8_lossy(b: Seq<u8>) -> Seq<char>;

/// `String::from_utf8_lossy`: decodes `b`, replacing invalid sequences.
/// Claimed: valid UTF-8 decodes exactly; otherwise only the name.
#[verifier::external_body]
fn lossy_text(b: &[u8]) -> (r: String)
    ensures
        r@ == utf8_lossy(b@),
        valid_utf8(b@) ==> r@ == decode_utf8(b@),
{
    String::from_utf8_lossy(b).into_owned()
}

/// `s` without its trailing NUL characters.
pub open spec fn strip_trailing_nul(s: Seq<char>) -> Seq<char>
    decreases s.len(),
{
    if s.len() > 0 && s.last() == '\0' {
        strip_trailing_nul(s.drop_last())
    } else {
        s
    }
}

fn strip_nul(s: &[char]) -> (r: Vec<char>)
    ensures
        r@ == strip_trailing_nul(s@),
{
    let mut n: usize = s.len();
    assert(s@.take(n as int) =~= s@);
    while n > 0 && s[n - 1] == '\0'
        invariant
            n <= s@.len(),
            strip_trailing_nul(s@) == strip_trailing_nul(s@.take(n as int)),
        decreases n,
    {
        assert(s@.take(n as int).drop_last() =~= s@.take(n - 1));
        n = n - 1;
    }
    let mut r: Vec<char> = Vec::new();
    let mut i: usize = 0;
    while i < n
        invariant
            i <= n <= s@.len(),
            r@ == s@.take(i as int),
        decreases n - i,
    {
        r.push(s[i]);
        assert(s@.take(i + 1) =~= s@.take(i as int).push(s@[i as int]));
        i = i + 1;
    }
    r
}

/// The firmware-version text of a type-17 reply: NULs stripped from the
/// end, then surrounding whitespace.
pub open spec fn firmware_snippet(b: Seq<u8>) -> Seq<char> {
    trim_seq(strip_trailing_nul(utf8_lossy(b)))
}

/// RobStride discovery: a type-17 read of `firmware_version`. Any reply,
/// read-fail status included, counts as presence.
#[derive(Debug, Clone, Copy)]
pub struct RobstrideProbe {
    pub firmware_version_index: u16,
}

impl Default for RobstrideProbe {
    fn default() -> (r: RobstrideProbe)
        ensures
            r.firmware_version_index == 0x1003,
    {
        RobstrideProbe { firmware_version_index: 0x1003 }
    }
}

/// `r` is the discovery result a RobStride probe builds from `reply`.
pub open spec fn discovered_as(
    p: RobstrideProbe,
    reply: Type17Reply,
    bus: Seq<char>,
    can_id: u8,
    r: Option<DiscoveredDevice>,
) -> bool {
    match reply {
        Type17Reply::NoReply => r is None,
        Type17Reply::ReadFail => r matches Some(d) && d.bus@ == bus && d.can_id == can_id
            && d.family_hint@ == "robstride"@ && d.identification == Some(
            Identification::ReadFail { param_index: p.firmware_version_index },
        ),
        Type17Reply::Value(b) => r matches Some(d) && d.bus@ == bus && d.can_id == can_id
            && d.family_hint@ == "robstride"@ && (d.identification matches Some(
            Identification::FirmwareSnippet { param_index, snippet },
        ) && param_index == p.firmware_version_index && snippet@ == firmware_snippet(
            b@,
        )),
    }
}

impl RobstrideProbe {
    /// Build the discovery result for one reply.
    pub fn discovered_from(&self, reply: Type17Reply, bus: &str, can_id: u8) -> (r: Option<DiscoveredDevice>)
        ensures
            discovered_as(*self, reply, bus@, can_id, r),
    {
        let identification = match reply {
            Type17Reply::NoReply => return None,
            Type17Reply::ReadFail => Identification::ReadFail {
                param_index: self.firmware_version_index,
            },
            Type17Reply::Value(b) => {
                let text = lossy_text(b.as_slice());
                let cs = chars_of(text.as_str());
                let stripped = strip_nul(cs.as_slice());
                let trimmed = trim_chars(stripped.as_slice());
                Identification::FirmwareSnippet {
                    param_index: self.firmware_version_index,
                    snippet: string_from_chars(trimmed.as_slice()),
                }
            },
        };
        Some(
            DiscoveredDevice {
                bus: copy_string(bus),
                can_id,
                family_hint: copy_string("robstride"),
                identification: Some(identification),
            },
        )
    }
}

impl DeviceProbe for RobstrideProbe {
    open spec fn family(&self) -> Seq<char> {
        "robstride"@
    }

    fn family_name(&self) -> (r: &'static str) {
        "robstride"
    }

    /// The reader is asked for the firmware-version register of `can_id` on
    /// `bus`, and the result is what `discovered_from` makes of its reply.
    fn probe<R: BusParamReader>(&self, reader: &R, bus: &str, can_id: u8, timeout_ms: u64) -> (r:
        Option<DiscoveredDevice>)
        ensures
            exists|rep: Type17Reply|
                #[trigger] reader.replies(bus@, can_id, self.firmware_version_index, timeout_ms, rep)
                    && discovered_as(*self, rep, bus@, can_id, r),
    {
        let reply = reader.read_type17_register(bus, can_id, self.firmware_version_index, timeout_ms);
        self.discovered_from(reply, bus, can_id)
    }
}

/// Ordered probes used during a scan.
pub struct DeviceProbeRegistry<P> {
    pub probes: Vec<P>,
}

impl DeviceProbeRegistry<RobstrideProbe> {
    pub fn with_default_probes() -> (r: DeviceProbeRegistry<RobstrideProbe>)
        ensures
            r.probes@ == seq![RobstrideProbe { firmware_version_index: 0x1003 }],
    {
        let mut probes: Vec<RobstrideProbe> = Vec::new();
        probes.push(RobstrideProbe::default());
        DeviceProbeRegistry { probes }
    }
}

impl<P: DeviceProbe> DeviceProbeRegistry<P> {
    /// Run the probes at `(bus, can_id)` in order, stopping at the first
    /// that finds a device. One attempt is recorded per probe run: every
    /// attempt but the last is a miss, and the last is a hit exactly when a
    /// device was found (then it is that probe's find).
    pub fn probe_one_id<R: BusParamReader>(&self, reader: &R, bus: &str, can_id: u8, timeout_ms: u64) -> (r: (
        Option<DiscoveredDevice>,
        Vec<ScanAttempt>,
    ))
        ensures
            r.1@.len() <= self.probes@.len(),
            forall|k: int|
                0 <= k < r.1@.len() ==> (#[trigger] r.1@[k]).bus@ == bus@ && r.1@[k].can_id == can_id
                    && r.1@[k].probe@ == self.probes@[k].family(),
            forall|k: int| 0 <= k < r.1@.len() - 1 ==> !(#[trigger] r.1@[k]).found,
            r.0 is Some <==> (r.1@.len() > 0 && r.1@.last().found),
            r.0 is None ==> r.1@.len() == self.probes@.len(),
            r.0 matches Some(d) ==> d.bus@ == bus@ && d.can_id == can_id && d.family_hint@
                == self.probes@[r.1@.len() - 1].family(),
    {
        let mut attempts: Vec<ScanAttempt> = Vec::new();
        let mut i: usize = 0;
        while i < self.probes.len()
            invariant
                i <= self.probes@.len(),
                attempts@.len() == i,
                forall|k: int|
                    0 <= k < i ==> (#[trigger] attempts@[k]).bus@ == bus@ && attempts@[k].can_id
                        == can_id && attempts@[k].probe@ == self.probes@[k].family()
                        && !attempts@[k].found,
            decreases self.probes@.len() - i,
        {
            let p = &self.probes[i];
            let name = copy_string(p.family_name());
            match p.probe(reader, bus, can_id, timeout_ms) {
                Some(dev) => {
                    attempts.push(
                        ScanAttempt { bus: copy_string(bus), can_id, probe: name, found: true },
                    );
                    return (Some(dev), attempts);
                },
                None => {
                    attempts.push(
                        ScanAttempt { bus: copy_string(bus), can_id, probe: name, found: false },
                    );
                },
            }
            i = i + 1;
        }
        (None, attempts)
    }
}

} // verus!
