//! Recognising SSC devices among the services announced over mDNS.
use vstd::prelude::*;
use vstd::string::*;

verus! {

/// The transport protocol a device speaks SSC on.
#[derive(Debug, Clone, Copy, PartialEq, Eq, Structural)]
pub enum Protocol {
    UDP,
    TCP,
}

impl Protocol {
    /// The protocol's name in an mDNS service type (`_ssc._udp`, `_ssc._tcp`).
    pub fn mdns_name(&self) -> (name: &'static str)
        ensures
            *self == Protocol::UDP ==> name@ == "udp"@,
            *self == Protocol::TCP ==> name@ == "tcp"@,
    {
        match self {
            Protocol::UDP => "udp",
            Protocol::TCP => "tcp",
        }
    }
}

/// The version of the SSC protocol a device speaks.
#[non_exhaustive]
#[derive(Debug, Clone, Copy, PartialEq, Eq, Structural)]
pub enum SSCVersion {
    Version1,
}

/// A device found by discovery.
///
/// The address is kept as the text that the announcement gave; it is turned
/// into a socket address where a connection is made.
#[non_exhaustive]
#[derive(Debug)]
pub struct DiscoveredDevice {
    pub name: String,
    pub ssc_version: SSCVersion,
    pub protocol: Protocol,
    pub address: String,
    pub port: u16,
    pub model: Option<String>,
    pub id: Option<String>,
}

/// Why an announced service is not taken for an SSC device.
#[derive(Debug, Clone, Copy, PartialEq, Eq, Structural)]
pub enum ProcessingError {
    NoTXTRecord,
    InvalidTXTVersion,
    InvalidSSCVersion,
}

/// The values of the TXT record keys that discovery reads.
#[derive(Debug)]
pub struct TxtValues {
    pub txtvers: Option<String>,
    pub sscvers: Option<String>,
    pub model: Option<String>,
    pub id: Option<String>,
}

/// The TXT record version that SSC devices announce.
pub open spec fn is_txt_version_1(v: Option<String>) -> bool {
    v matches Some(s) && s@ =~= seq!['1']
}

/// SSC versions 1.x, which this library speaks.
pub open spec fn is_ssc_version_1(v: Seq<char>) -> bool {
    v.len() >= 2 && v[0] == '1' && v[1] == '.'
}

fn is_one(s: &String) -> (b: bool)
    ensures
        b == (s@ =~= seq!['1']),
{
    let t = s.as_str();
    t.unicode_len() == 1 && t.get_char(0) == '1'
}

fn starts_with_one_dot(s: &String) -> (b: bool)
    ensures
        b == is_ssc_version_1(s@),
{
    let t = s.as_str();
    t.unicode_len() >= 2 && t.get_char(0) == '1' && t.get_char(1) == '.'
}

/// What deciding on an announcement gives: the first failing check as the
/// error, else the device with the announcement's name, protocol, address,
/// port, model and id.
pub open spec fn is_processing_result(
    name: Seq<char>,
    txt: Option<TxtValues>,
    protocol: Protocol,
    address: Seq<char>,
    port: u16,
    r: Result<DiscoveredDevice, ProcessingError>,
) -> bool {
    match txt {
        None => r == Err::<DiscoveredDevice, ProcessingError>(ProcessingError::NoTXTRecord),
        Some(t) => if !is_txt_version_1(t.txtvers) {
            r == Err::<DiscoveredDevice, ProcessingError>(ProcessingError::InvalidTXTVersion)
        } else if !(t.sscvers matches Some(v) && is_ssc_version_1(v@)) {
            r == Err::<DiscoveredDevice, ProcessingError>(ProcessingError::InvalidSSCVersion)
        } else {
            r matches Ok(d) && d.name@ == name && d.ssc_version == SSCVersion::Version1
                && d.protocol == protocol && d.address@ == address && d.port == port
                && d.model == t.model && d.id == t.id
        },
    }
}

/// Decides whether an announced service is an SSC device and describes it.
///
/// The service needs a TXT record (else `NoTXTRecord`) whose `txtvers` is
/// `1` (else `InvalidTXTVersion`) and whose `sscvers` starts with `1.`
/// (else `InvalidSSCVersion`).
pub fn process_message(
    name: &str,
    txt: Option<TxtValues>,
    protocol: Protocol,
    address: &str,
    port: u16,
) -> (r: Result<DiscoveredDevice, ProcessingError>)
    ensures
        is_processing_result(name@, txt, protocol, address@, port, r),
        r matches Ok(d) ==> d.protocol == protocol && d.port == port && d.name@ == name@
            && d.address@ == address@,
{
    match txt {
        None => Err(ProcessingError::NoTXTRecord),
        Some(t) => {
            let version_ok = match &t.txtvers {
                Some(v) => is_one(v),
                None => false,
            };
            if !version_ok {
                return Err(ProcessingError::InvalidTXTVersion);
            }
            let ssc_ok = match &t.sscvers {
                Some(v) => starts_with_one_dot(v),
                None => false,
            };
            if !ssc_ok {
                return Err(ProcessingError::InvalidSSCVersion);
            }
            Ok(
                DiscoveredDevice {
                    name: name.to_owned(),
                    ssc_version: SSCVersion::Version1,
                    protocol,
                    address: address.to_owned(),
                    port,
                    model: t.model,
                    id: t.id,
                },
            )
        },
    }
}

/// The names of the services seen so far, so that each device is reported
/// once though several announcements name it.
pub struct SeenDevices {
    names: Vec<String>,
}

impl View for SeenDevices {
    type V = Seq<Seq<char>>;

    closed spec fn view(&self) -> Seq<Seq<char>> {
        self.names@.map_values(|n: String| n@)
    }
}

/// What observing a name does: it is fresh unless seen before, and a fresh
/// name is remembered.
pub open spec fn observe_step(seen: Seq<Seq<char>>, name: Seq<char>) -> (bool, Seq<Seq<char>>) {
    if seen.contains(name) {
        (false, seen)
    } else {
        (true, seen.push(name))
    }
}

impl SeenDevices {
    /// No name seen yet.
    pub fn new() -> (s: SeenDevices)
        ensures
            s@ == Seq::<Seq<char>>::empty(),
    {
        let s = SeenDevices { names: Vec::new() };
        assert(s@ =~= Seq::<Seq<char>>::empty());
        s
    }

    /// Records `name` and tells whether it was seen for the first time.
    pub fn observe(&mut self, name: &str) -> (fresh: bool)
        ensures
            (fresh, final(self)@) == observe_step(old(self)@, name@),
    {
        let wanted = name.to_owned();
        let mut i: usize = 0;
        while i < self.names.len()
            invariant
                wanted@ == name@,
                i <= self.names@.len(),
                self@ == old(self)@,
                forall|k: int| 0 <= k < i ==> self@[k] != name@,
            decreases self.names@.len() - i,
        {
            if self.names[i] == wanted {
                assert(self@[i as int] == name@);
                return false;
            }
            i = i + 1;
        }
        assert(!self@.contains(name@));
        let ghost before = self@;
        self.names.push(wanted);
        assert(self@ =~= before.push(name@));
        true
    }
}

/// An accepted announcement describes the service as announced: the device
/// has the announcement's name, address, port and protocol, whatever they
/// are, and speaks SSC version 1; its model and id are those of the TXT
/// record. An announcement is accepted exactly when its TXT record has
/// `txtvers` `1` and an `sscvers` starting with `1.`.
pub proof fn law_accepted_device_keeps_announcement(
    name: Seq<char>,
    txt: Option<TxtValues>,
    protocol: Protocol,
    address: Seq<char>,
    port: u16,
    r: Result<DiscoveredDevice, ProcessingError>,
)
    requires
        is_processing_result(name, txt, protocol, address, port, r),
    ensures
        r matches Ok(d) ==> d.protocol == protocol && d.port == port && d.name@ == name
            && d.address@ == address && d.ssc_version == SSCVersion::Version1 && d.model
            == txt->Some_0.model && d.id == txt->Some_0.id,
        r is Ok <==> (txt matches Some(t) && is_txt_version_1(t.txtvers) && (t.sscvers matches Some(
            v,
        ) && is_ssc_version_1(v@))),
{
}

/// What becomes of one service announcement.
#[derive(Debug)]
pub enum Announcement {
    /// A service of this name was announced before; it is ignored.
    AlreadySeen,
    /// A new SSC device, to be reported.
    Device(DiscoveredDevice),
    /// A new service that is no SSC device, and why.
    Rejected(ProcessingError),
}

impl SeenDevices {
    /// Handles one announcement of a service: a name seen before is ignored;
    /// a new name is remembered, whether or not the service turns out to be
    /// an SSC device, and then decided on as `process_message` does.
    pub fn handle_announcement(
        &mut self,
        name: &str,
        txt: Option<TxtValues>,
        protocol: Protocol,
        address: &str,
        port: u16,
    ) -> (r: Announcement)
        ensures
            final(self)@ == observe_step(old(self)@, name@).1,
            old(self)@.contains(name@) ==> r is AlreadySeen,
            !old(self)@.contains(name@) ==> (match r {
                Announcement::AlreadySeen => false,
                Announcement::Device(d) => is_processing_result(
                    name@,
                    txt,
                    protocol,
                    address@,
                    port,
                    Ok(d),
                ),
                Announcement::Rejected(e) => is_processing_result(
                    name@,
                    txt,
                    protocol,
                    address@,
                    port,
                    Err(e),
                ),
            }),
    {
        if !self.observe(name) {
            return Announcement::AlreadySeen;
        }
        match process_message(name, txt, protocol, address, port) {
            Ok(device) => Announcement::Device(device),
            Err(e) => Announcement::Rejected(e),
        }
    }
}

/// A name once observed is never fresh again, and observing never forgets a
/// name.
pub proof fn law_observed_names_stay_seen(seen: Seq<Seq<char>>, name: Seq<char>, other: Seq<char>)
    ensures
        observe_step(observe_step(seen, name).1, name).0 == false,
        seen.contains(other) ==> observe_step(seen, name).1.contains(other),
        observe_step(seen, name).1.contains(name),
{
    if !seen.contains(name) {
        let after = seen.push(name);
        assert(after[seen.len() as int] == name);
        if seen.contains(other) {
            let k = choose|k: int| 0 <= k < seen.len() && seen[k] == other;
            assert(after[k] == other);
        }
    }
}

} // verus!
