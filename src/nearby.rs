//! Nearby devices on the local network: the device table that multicast announcements
//! and ticket pushes keep up to date.

use vstd::prelude::*;

verus! {

/// Port of the nearby service, and of its multicast group.
pub const DEFAULT_NEARBY_PORT: u16 = 53317;

/// How long a device stays available after its last announcement, in milliseconds.
pub const EXPIRY_MS: i64 = 30000;

/// The kind of device.
#[derive(Clone, Copy, Debug, PartialEq, Eq, Structural)]
pub enum DeviceType {
    Desktop,
    Mobile,
    Web,
    Headless,
    Server,
}

impl Default for DeviceType {
    fn default() -> (r: DeviceType)
        ensures
            r == DeviceType::Desktop,
    {
        DeviceType::Desktop
    }
}

/// A multicast announcement, or the unicast reply to one.
pub struct MulticastMessage {
    pub alias: String,
    pub version: String,
    pub device_model: Option<String>,
    pub device_type: DeviceType,
    pub fingerprint: String,
    pub port: u16,
    /// An announcement (as opposed to a reply).
    pub announce: bool,
    pub download: bool,
}

/// A device found on the local network.
pub struct NearbyDevice {
    pub fingerprint: String,
    pub alias: String,
    pub device_model: Option<String>,
    pub device_type: DeviceType,
    pub version: String,
    pub ip: String,
    pub port: u16,
    /// When the device was last heard from, in Unix milliseconds.
    pub last_seen: i64,
    pub available: bool,
    /// A ticket this device pushed that awaits approval.
    pub pending_ticket: Option<String>,
}

/// This device's description, as the info endpoint serves it.
pub struct DeviceInfo {
    pub alias: String,
    pub version: String,
    pub device_model: Option<String>,
    pub device_type: DeviceType,
    pub fingerprint: String,
    pub download: bool,
}

/// A ticket pushed by another device.
pub struct TicketRequest {
    pub info: DeviceInfo,
    pub ticket: String,
    pub message: Option<String>,
}

/// The answer to a ticket push.
pub struct TicketResponse {
    pub accepted: bool,
    pub message: Option<String>,
}

/// A change in the device table, or a ticket that arrived.
pub enum NearbyEvent {
    DeviceDiscovered(NearbyDevice),
    DeviceUpdated(NearbyDevice),
    DeviceExpired(String),
    TicketReceived { from: NearbyDevice, ticket: String, message: Option<String> },
}

/// The state of the nearby service: this device, the devices seen, and settings.
pub struct NearbyState {
    pub device_info: DeviceInfo,
    pub devices: Vec<NearbyDevice>,
    pub server_running: bool,
    pub port: u16,
    pub auto_accept: bool,
}

/// What handling one multicast message produced.
pub struct MulticastOutcome {
    /// The event to publish, if any.
    pub event: Option<NearbyEvent>,
    /// The reply to send back to the announcer, if any.
    pub reply: Option<MulticastMessage>,
}

/// A copy of an optional string.
pub(crate) fn copy_opt(s: &Option<String>) -> (r: Option<String>)
    ensures
        r == *s,
{
    match s {
        Some(x) => Some(x.clone()),
        None => None,
    }
}

impl NearbyDevice {
    /// A field-for-field copy.
    pub fn copy(&self) -> (r: NearbyDevice)
        ensures
            r == *self,
    {
        NearbyDevice {
            fingerprint: self.fingerprint.clone(),
            alias: self.alias.clone(),
            device_model: copy_opt(&self.device_model),
            device_type: self.device_type,
            version: self.version.clone(),
            ip: self.ip.clone(),
            port: self.port,
            last_seen: self.last_seen,
            available: self.available,
            pending_ticket: copy_opt(&self.pending_ticket),
        }
    }
}

impl DeviceInfo {
    /// A field-for-field copy.
    pub fn copy(&self) -> (r: DeviceInfo)
        ensures
            r == *self,
    {
        DeviceInfo {
            alias: self.alias.clone(),
            version: self.version.clone(),
            device_model: copy_opt(&self.device_model),
            device_type: self.device_type,
            fingerprint: self.fingerprint.clone(),
            download: self.download,
        }
    }
}

/// Position of the device with fingerprint `fp` in `devs`, or -1.
pub open spec fn index_of(devs: Seq<NearbyDevice>, fp: Seq<char>) -> int {
    if exists|i: int| 0 <= i < devs.len() && (#[trigger] devs[i]).fingerprint@ == fp {
        choose|i: int| 0 <= i < devs.len() && (#[trigger] devs[i]).fingerprint@ == fp
    } else {
        -1
    }
}

/// A device is stale when more than the expiry period passed since it was last seen.
pub open spec fn stale(d: NearbyDevice, now: i64) -> bool {
    now - d.last_seen > EXPIRY_MS
}

/// Some device among the first `n` of `devs` was available, is stale, and has fingerprint `fp`.
pub open spec fn expired_among(devs: Seq<NearbyDevice>, n: int, fp: Seq<char>, now: i64) -> bool {
    exists|k: int| 0 <= k < n && (#[trigger] devs[k]).available && stale(devs[k], now) && devs[k].fingerprint@ == fp
}

proof fn lemma_expired_among_grows(devs: Seq<NearbyDevice>, n: int, fp: Seq<char>, now: i64)
    requires
        expired_among(devs, n, fp, now),
    ensures
        expired_among(devs, n + 1, fp, now),
{
    let k = choose|k: int| 0 <= k < n && (#[trigger] devs[k]).available && stale(devs[k], now) && devs[k].fingerprint@ == fp;
    assert(0 <= k < n + 1 && devs[k].available);
}

/// The device that an announcement describes, seen now from `ip`.
pub open spec fn device_from(msg: MulticastMessage, ip: String, now: i64) -> NearbyDevice {
    NearbyDevice {
        fingerprint: msg.fingerprint,
        alias: msg.alias,
        device_model: msg.device_model,
        device_type: msg.device_type,
        version: msg.version,
        ip,
        port: msg.port,
        last_seen: now,
        available: true,
        pending_ticket: None,
    }
}

/// The entry for a device first heard of through a ticket push: address unknown.
pub open spec fn from_info(d: NearbyDevice, info: DeviceInfo, ticket: String, now: i64) -> bool {
    &&& d.fingerprint == info.fingerprint
    &&& d.alias == info.alias
    &&& d.device_model == info.device_model
    &&& d.device_type == info.device_type
    &&& d.version == info.version
    &&& d.ip@.len() == 0
    &&& d.port == 0
    &&& d.last_seen == now
    &&& d.available
    &&& d.pending_ticket == Some(ticket)
}

impl NearbyState {
    /// Fingerprints in the table are unique.
    pub open spec fn wf(&self) -> bool {
        forall|i: int, j: int|
            0 <= i < j < self.devices@.len() ==> (#[trigger] self.devices@[i]).fingerprint@
                != (#[trigger] self.devices@[j]).fingerprint@
    }

    /// A fresh state for this device, with an empty table, serving nothing yet.
    pub fn new(device_info: DeviceInfo, port: u16) -> (r: NearbyState)
        ensures
            r.wf(),
            r.device_info == device_info,
            r.devices@.len() == 0,
            !r.server_running,
            r.port == port,
            !r.auto_accept,
    {
        NearbyState { device_info, devices: Vec::new(), server_running: false, port, auto_accept: false }
    }

    /// The message that describes this device: an announcement or a reply.
    pub fn announcement(&self, announce: bool) -> (r: MulticastMessage)
        ensures
            r.alias == self.device_info.alias,
            r.version == self.device_info.version,
            r.device_model == self.device_info.device_model,
            r.device_type == self.device_info.device_type,
            r.fingerprint == self.device_info.fingerprint,
            r.port == self.port,
            r.announce == announce,
            r.download == self.device_info.download,
    {
        MulticastMessage {
            alias: self.device_info.alias.clone(),
            version: self.device_info.version.clone(),
            device_model: copy_opt(&self.device_info.device_model),
            device_type: self.device_info.device_type,
            fingerprint: self.device_info.fingerprint.clone(),
            port: self.port,
            announce,
            download: self.device_info.download,
        }
    }

    /// Position of the device with fingerprint `fp`, if it is in the table.
    pub fn find(&self, fp: &String) -> (r: Option<usize>)
        requires
            self.wf(),
        ensures
            r matches Some(i) ==> i < self.devices@.len() && self.devices@[i as int].fingerprint@ == fp@
                && index_of(self.devices@, fp@) == i,
            r is None ==> index_of(self.devices@, fp@) == -1,
    {
        let mut i: usize = 0;
        while i < self.devices.len()
            invariant
                self.wf(),
                i <= self.devices@.len(),
                forall|k: int| 0 <= k < i ==> (#[trigger] self.devices@[k]).fingerprint@ != fp@,
            decreases self.devices@.len() - i,
        {
            if self.devices[i].fingerprint == *fp {
                let ghost j = index_of(self.devices@, fp@);
                assert(self.devices@[i as int].fingerprint@ == fp@);
                assert(0 <= i < self.devices@.len() && self.devices@[i as int].fingerprint@ == fp@);
                assert(j == i) by {
                    assert(0 <= j < self.devices@.len() && self.devices@[j].fingerprint@ == fp@);
                    if j < i {
                        assert(self.devices@[j].fingerprint@ != self.devices@[i as int].fingerprint@);
                    } else if j > i {
                        assert(self.devices@[i as int].fingerprint@ != self.devices@[j].fingerprint@);
                    }
                }
                return Some(i);
            }
            i = i + 1;
        }
        None
    }

    /// Handles an announcement or reply received from `ip` at time `now`: ignores this
    /// device's own messages; else records the sender as available, reports it as
    /// discovered (first sight) or updated, and answers an announcement when serving.
    pub fn handle_multicast_message(&mut self, msg: MulticastMessage, ip: String, now: i64) -> (r: MulticastOutcome)
        requires
            old(self).wf(),
        ensures
            final(self).wf(),
            final(self).device_info == old(self).device_info,
            final(self).server_running == old(self).server_running,
            final(self).port == old(self).port,
            final(self).auto_accept == old(self).auto_accept,
            msg.fingerprint@ == old(self).device_info.fingerprint@ ==> final(self).devices@ == old(self).devices@
                && r.event is None && r.reply is None,
            msg.fingerprint@ != old(self).device_info.fingerprint@ ==> {
                let d = device_from(msg, ip, now);
                let i = index_of(old(self).devices@, msg.fingerprint@);
                &&& i < 0 ==> final(self).devices@ == old(self).devices@.push(d)
                    && r.event == Some(NearbyEvent::DeviceDiscovered(d))
                &&& i >= 0 ==> final(self).devices@ == old(self).devices@.update(i, d)
                    && r.event == Some(NearbyEvent::DeviceUpdated(d))
                &&& r.reply is Some == (msg.announce && old(self).server_running)
                &&& r.reply matches Some(m) ==> m.fingerprint == old(self).device_info.fingerprint
                    && !m.announce && m.port == old(self).port && m.alias == old(self).device_info.alias
            },
    {
        if msg.fingerprint == self.device_info.fingerprint {
            return MulticastOutcome { event: None, reply: None };
        }
        let reply = if msg.announce && self.server_running {
            Some(self.announcement(false))
        } else {
            None
        };
        let ghost d = device_from(msg, ip, now);
        let found = self.find(&msg.fingerprint);
        let device = NearbyDevice {
            fingerprint: msg.fingerprint,
            alias: msg.alias,
            device_model: msg.device_model,
            device_type: msg.device_type,
            version: msg.version,
            ip,
            port: msg.port,
            last_seen: now,
            available: true,
            pending_ticket: None,
        };
        assert(device == d);
        let copy = device.copy();
        let ghost before = self.devices@;
        match found {
            Some(i) => {
                self.devices.set(i, device);
                assert forall|a: int, b: int| 0 <= a < b < self.devices@.len() implies (#[trigger] self.devices@[a]).fingerprint@
                    != (#[trigger] self.devices@[b]).fingerprint@ by {
                    if a != i && b != i {
                        assert(self.devices@[a] == before[a] && self.devices@[b] == before[b]);
                    } else if a == i {
                        assert(self.devices@[b] == before[b]);
                    } else {
                        assert(self.devices@[a] == before[a]);
                    }
                }
                MulticastOutcome { event: Some(NearbyEvent::DeviceUpdated(copy)), reply }
            },
            None => {
                self.devices.push(device);
                assert forall|a: int, b: int| 0 <= a < b < self.devices@.len() implies (#[trigger] self.devices@[a]).fingerprint@
                    != (#[trigger] self.devices@[b]).fingerprint@ by {
                    assert(self.devices@[a] == before[a]);
                    if b < before.len() {
                        assert(self.devices@[b] == before[b]);
                    } else {
                        assert(!(0 <= a < before.len() && before[a].fingerprint@ == d.fingerprint@));
                    }
                }
                MulticastOutcome { event: Some(NearbyEvent::DeviceDiscovered(copy)), reply }
            },
        }
    }

    /// Marks unavailable every device silent for longer than the expiry period, and
    /// returns the fingerprints of those that were available until now.
    pub fn expire_devices(&mut self, now: i64) -> (r: Vec<String>)
        requires
            old(self).wf(),
        ensures
            final(self).wf(),
            final(self).device_info == old(self).device_info,
            final(self).server_running == old(self).server_running,
            final(self).port == old(self).port,
            final(self).auto_accept == old(self).auto_accept,
            final(self).devices@.len() == old(self).devices@.len(),
            forall|i: int| 0 <= i < final(self).devices@.len() ==> {
                let o = #[trigger] old(self).devices@[i];
                let n = final(self).devices@[i];
                &&& n.available == (o.available && !stale(o, now))
                &&& n == (NearbyDevice { available: n.available, ..o })
            },
            forall|k: int| 0 <= k < r@.len() ==> expired_among(old(self).devices@, old(self).devices@.len() as int, #[trigger] r@[k]@, now),
            forall|a: int, b: int| 0 <= a < b < r@.len() ==> (#[trigger] r@[a])@ != (#[trigger] r@[b])@,
            forall|i: int| 0 <= i < old(self).devices@.len() && old(self).devices@[i].available
                && stale(#[trigger] old(self).devices@[i], now) ==> exists|k: int|
                0 <= k < r@.len() && r@[k]@ == old(self).devices@[i].fingerprint@,
    {
        let ghost before = self.devices@;
        let mut expired: Vec<String> = Vec::new();
        let mut i: usize = 0;
        while i < self.devices.len()
            invariant
                self.devices@.len() == before.len(),
                before == old(self).devices@,
                self.device_info == old(self).device_info,
                self.server_running == old(self).server_running,
                self.port == old(self).port,
                self.auto_accept == old(self).auto_accept,
                i <= before.len(),
                self.wf(),
                forall|k: int| i <= k < before.len() ==> self.devices@[k] == before[k],
                forall|k: int| 0 <= k < i ==> {
                    let o = #[trigger] before[k];
                    let n = self.devices@[k];
                    &&& n.available == (o.available && !stale(o, now))
                    &&& n == (NearbyDevice { available: n.available, ..o })
                },
                forall|m: int| 0 <= m < expired@.len() ==> expired_among(before, i as int, #[trigger] expired@[m]@, now),
                forall|a: int, b: int| 0 <= a < b < expired@.len() ==> (#[trigger] expired@[a])@ != (#[trigger] expired@[b])@,
                forall|a: int, b: int| 0 <= a < b < before.len() ==> (#[trigger] before[a]).fingerprint@ != (#[trigger] before[b]).fingerprint@,
                forall|k: int| 0 <= k < i && before[k].available && stale(#[trigger] before[k], now) ==> exists|m: int|
                    0 <= m < expired@.len() && expired@[m]@ == before[k].fingerprint@,
            decreases before.len() - i,
        {
            let last_seen = self.devices[i].last_seen;
            let is_stale = (now as i128) - (last_seen as i128) > (EXPIRY_MS as i128);
            if is_stale && self.devices[i].available {
                let mut d = self.devices[i].copy();
                d.available = false;
                let fp = d.fingerprint.clone();
                let ghost old_devs = self.devices@;
                self.devices.set(i, d);
                assert forall|a: int, b: int| 0 <= a < b < self.devices@.len() implies (#[trigger] self.devices@[a]).fingerprint@
                    != (#[trigger] self.devices@[b]).fingerprint@ by {
                    assert(self.devices@[a].fingerprint@ == old_devs[a].fingerprint@);
                    assert(self.devices@[b].fingerprint@ == old_devs[b].fingerprint@);
                }
                let ghost old_exp = expired@;
                expired.push(fp);
                assert forall|k: int| 0 <= k < i + 1 && before[k].available && stale(#[trigger] before[k], now) implies exists|m: int|
                    0 <= m < expired@.len() && expired@[m]@ == before[k].fingerprint@ by {
                    if k == i {
                        assert(expired@[old_exp.len() as int]@ == before[k].fingerprint@);
                    } else {
                        let m = choose|m: int| 0 <= m < old_exp.len() && old_exp[m]@ == before[k].fingerprint@;
                        assert(expired@[m] == old_exp[m]);
                    }
                }
                assert forall|a: int, b: int| 0 <= a < b < expired@.len() implies (#[trigger] expired@[a])@ != (#[trigger] expired@[b])@ by {
                    assert(expired@[a] == old_exp[a]);
                    if b < old_exp.len() {
                        assert(expired@[b] == old_exp[b]);
                    } else {
                        assert(expired_among(before, i as int, old_exp[a]@, now));
                        let k = choose|k: int| 0 <= k < i && (#[trigger] before[k]).available && stale(before[k], now) && before[k].fingerprint@ == old_exp[a]@;
                        assert(before[k].fingerprint@ != before[i as int].fingerprint@);
                    }
                }
                assert forall|m: int| 0 <= m < expired@.len() implies expired_among(before, i + 1, #[trigger] expired@[m]@, now) by {
                    if m < old_exp.len() {
                        assert(expired@[m] == old_exp[m]);
                        lemma_expired_among_grows(before, i as int, old_exp[m]@, now);
                    } else {
                        assert(before[i as int].fingerprint@ == expired@[m]@);
                        assert(before[i as int].available && stale(before[i as int], now));
                    }
                }
            } else {
                assert forall|m: int| 0 <= m < expired@.len() implies expired_among(before, i + 1, #[trigger] expired@[m]@, now) by {
                    lemma_expired_among_grows(before, i as int, expired@[m]@, now);
                }
            }
            i = i + 1;
        }
        expired
    }

    /// Handles a ticket pushed by another device at time `now`: records the ticket as
    /// pending on the sender's entry (adding one when the sender is unknown), and answers
    /// with acceptance when auto-accept is on.
    pub fn handle_ticket(&mut self, request: TicketRequest, now: i64) -> (r: (NearbyEvent, TicketResponse))
        requires
            old(self).wf(),
        ensures
            final(self).wf(),
            final(self).device_info == old(self).device_info,
            final(self).auto_accept == old(self).auto_accept,
            final(self).server_running == old(self).server_running,
            final(self).port == old(self).port,
            r.0 matches NearbyEvent::TicketReceived { from, ticket, message } && ticket == request.ticket
                && message == request.message && ({
                let i = index_of(old(self).devices@, request.info.fingerprint@);
                &&& i >= 0 ==> from == (NearbyDevice {
                    pending_ticket: Some(request.ticket),
                    last_seen: now,
                    ..old(self).devices@[i]
                }) && final(self).devices@ == old(self).devices@.update(i, from)
                &&& i < 0 ==> from_info(from, request.info, request.ticket, now) && final(self).devices@
                    == old(self).devices@.push(from)
            }),
            r.1.accepted == old(self).auto_accept,
            r.1.message matches Some(m) && m@ == (if old(self).auto_accept {
                "Ticket accepted"@
            } else {
                "Ticket pending approval"@
            }),
    {
        let accepted = self.auto_accept;
        let ticket = request.ticket.clone();
        let found = self.find(&request.info.fingerprint);
        let ghost before = self.devices@;
        let device = match found {
            Some(i) => {
                let mut d = self.devices[i].copy();
                d.pending_ticket = Some(request.ticket.clone());
                d.last_seen = now;
                let copy = d.copy();
                self.devices.set(i, d);
                assert forall|a: int, b: int| 0 <= a < b < self.devices@.len() implies (#[trigger] self.devices@[a]).fingerprint@
                    != (#[trigger] self.devices@[b]).fingerprint@ by {
                    assert(self.devices@[a].fingerprint@ == before[a].fingerprint@);
                    assert(self.devices@[b].fingerprint@ == before[b].fingerprint@);
                }
                copy
            },
            None => {
                let d = NearbyDevice {
                    fingerprint: request.info.fingerprint.clone(),
                    alias: request.info.alias.clone(),
                    device_model: copy_opt(&request.info.device_model),
                    device_type: request.info.device_type,
                    version: request.info.version.clone(),
                    ip: String::new(),
                    port: 0,
                    last_seen: now,
                    available: true,
                    pending_ticket: Some(request.ticket.clone()),
                };
                let copy = d.copy();
                self.devices.push(d);
                assert forall|a: int, b: int| 0 <= a < b < self.devices@.len() implies (#[trigger] self.devices@[a]).fingerprint@
                    != (#[trigger] self.devices@[b]).fingerprint@ by {
                    assert(self.devices@[a] == before[a]);
                    if b < before.len() {
                        assert(self.devices@[b] == before[b]);
                    } else {
                        assert(!(0 <= a < before.len() && before[a].fingerprint@ == request.info.fingerprint@));
                    }
                }
                copy
            },
        };
        let message = if accepted {
            String::from_str("Ticket accepted")
        } else {
            String::from_str("Ticket pending approval")
        };
        (NearbyEvent::TicketReceived { from: device, ticket, message: request.message }, TicketResponse {
            accepted,
            message: Some(message),
        })
    }

    /// The devices that are currently available, in table order.
    pub fn devices(&self) -> (r: Vec<NearbyDevice>)
        ensures
            r@ == self.devices@.filter(|d: NearbyDevice| d.available),
    {
        let mut r: Vec<NearbyDevice> = Vec::new();
        let mut i: usize = 0;
        while i < self.devices.len()
            invariant
                i <= self.devices@.len(),
                r@ == self.devices@.take(i as int).filter(|d: NearbyDevice| d.available),
            decreases self.devices@.len() - i,
        {
            assert(self.devices@.take(i as int + 1).drop_last() =~= self.devices@.take(i as int));
            assert(self.devices@.take(i as int + 1).last() == self.devices@[i as int]);
            reveal(Seq::filter);
            if self.devices[i].available {
                let d = self.devices[i].copy();
                r.push(d);
            }
            i = i + 1;
        }
        assert(self.devices@.take(self.devices@.len() as int) =~= self.devices@);
        r
    }

    /// The device with fingerprint `fp`, available or not.
    pub fn get_device(&self, fp: &String) -> (r: Option<NearbyDevice>)
        requires
            self.wf(),
        ensures
            index_of(self.devices@, fp@) < 0 ==> r is None,
            index_of(self.devices@, fp@) >= 0 ==> r == Some(self.devices@[index_of(self.devices@, fp@)]),
    {
        match self.find(fp) {
            Some(i) => Some(self.devices[i].copy()),
            None => None,
        }
    }
}

} // verus!
