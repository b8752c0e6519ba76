//! Fault-isolating enumeration of audio hosts and their output devices.
//!
//! The audio backend is probed host by host and device by device; what it
//! reported stands here as plain data ([`HostProbe`], [`DeviceProbe`]).  The
//! cursor walks that data as a single forward, finite, non-restartable
//! sequence: every host contributes its devices in order, a host that failed
//! to open contributes exactly one tagged error, and a device that cannot
//! report its configurations contributes one tagged error — one failure
//! never hides a sibling host or device.

use vstd::prelude::*;
use vstd::seq_lib::*;

use crate::deviceconfig::SupportedDeviceConfig;
use crate::hosterror::{HostError, HostErrorKind};
use crate::query::SupportedOutputDevice;

verus! {

/// What probing one device yielded: its name, if it reported one, and its
/// supported stream configurations or the failure's description.
#[derive(Debug)]
pub struct DeviceProbe {
    pub name: Option<String>,
    pub configs: Result<Vec<SupportedDeviceConfig>, String>,
}

/// What probing one host yielded: its output devices, or the failure that
/// kept the host from opening or from listing them.
#[derive(Debug)]
pub struct HostProbe {
    pub hostid: String,
    pub devices: Result<Vec<DeviceProbe>, HostErrorKind>,
}

/// Container for a host id and an associated output device.
#[derive(Clone, Debug)]
pub struct HostDevicePair {
    /// API that exposes the current device, such as ALSA.
    pub hostid: String,
    /// The device's name, as it reports it, if it reports one.
    pub device: Option<String>,
    /// Supported output configs.
    pub configs: Vec<SupportedDeviceConfig>,
}

/// One enumeration result: a usable device, or an isolated failure.
pub type DeviceEntry = Result<HostDevicePair, HostError>;

/// A device entry up to buffer identity: the pair's configuration list as a
/// sequence, everything else as it is.
pub type EntryView = Result<(String, Option<String>, Seq<SupportedDeviceConfig>), HostError>;

/// The view of an entry the cursor hands out.
pub open spec fn entry_view(e: DeviceEntry) -> EntryView {
    match e {
        Ok(p) => Ok((p.hostid, p.device, p.configs@)),
        Err(err) => Err(err),
    }
}

/// What one probed device contributes to the enumeration.
pub open spec fn spec_device_entry(hostid: String, d: DeviceProbe) -> EntryView {
    match d.configs {
        Ok(configs) => Ok((hostid, d.name, configs@)),
        Err(description) => Err(
            HostError {
                error: HostErrorKind::StreamConfig(description),
                hostid: Some(hostid),
                device_name: d.name,
            },
        ),
    }
}

/// What one probed host contributes: each of its devices in order, or one
/// tagged error if the host never opened.
pub open spec fn probe_entries(h: HostProbe) -> Seq<EntryView> {
    match h.devices {
        Ok(devs) => devs@.map_values(|d: DeviceProbe| spec_device_entry(h.hostid, d)),
        Err(kind) => seq![
            Err(HostError { error: kind, hostid: Some(h.hostid), device_name: None }),
        ],
    }
}

/// `probe_entries` as a function value, for the sequence lemmas.
pub open spec fn entries_fn() -> spec_fn(HostProbe) -> Seq<EntryView> {
    |h: HostProbe| probe_entries(h)
}

/// Everything the enumeration yields, over all hosts in order.
pub open spec fn spec_enumeration(hosts: Seq<HostProbe>) -> Seq<EntryView> {
    hosts.flat_map(entries_fn())
}

/// Enumerating no hosts yields nothing.
pub proof fn lemma_enumeration_empty()
    ensures
        spec_enumeration(Seq::<HostProbe>::empty()) == Seq::<EntryView>::empty(),
{
    let hosts = Seq::<HostProbe>::empty();
    assert(hosts.map_values(entries_fn()) =~= Seq::<Seq<EntryView>>::empty());
    assert(hosts.flat_map(entries_fn()) =~= Seq::<EntryView>::empty());
}

/// Enumerating one more host appends exactly that host's entries.
proof fn lemma_enumeration_step(hosts: Seq<HostProbe>, i: int)
    requires
        0 <= i < hosts.len(),
    ensures
        spec_enumeration(hosts.take(i + 1)) == spec_enumeration(hosts.take(i)) + probe_entries(
            hosts[i],
        ),
{
    hosts.lemma_flat_map_take_append(entries_fn(), i);
}

/// The entries of the first `i` hosts stand unchanged, as a prefix, in the
/// whole enumeration.
proof fn lemma_enumeration_prefix(hosts: Seq<HostProbe>, i: int)
    requires
        0 <= i <= hosts.len(),
    ensures
        spec_enumeration(hosts.take(i)).len() <= spec_enumeration(hosts).len(),
        forall|k: int|
            0 <= k < spec_enumeration(hosts.take(i)).len() ==> spec_enumeration(hosts)[k]
                == spec_enumeration(hosts.take(i))[k],
    decreases hosts.len() - i,
{
    if i == hosts.len() {
        assert(hosts.take(i) =~= hosts);
    } else {
        lemma_enumeration_step(hosts, i);
        lemma_enumeration_prefix(hosts, i + 1);
    }
}

/// Enumeration distributes over concatenation of host lists.
pub proof fn lemma_enumeration_concat(xs: Seq<HostProbe>, ys: Seq<HostProbe>)
    ensures
        spec_enumeration(xs + ys) == spec_enumeration(xs) + spec_enumeration(ys),
    decreases ys.len(),
{
    if ys.len() == 0 {
        assert(xs + ys =~= xs);
        lemma_enumeration_empty();
        assert(ys =~= Seq::<HostProbe>::empty());
        assert(spec_enumeration(xs) + spec_enumeration(ys) =~= spec_enumeration(xs));
    } else {
        let ys0 = ys.drop_last();
        let y = ys.last();
        lemma_enumeration_concat(xs, ys0);
        assert(xs + ys =~= (xs + ys0).push(y));
        (xs + ys0).lemma_flat_map_push(entries_fn(), y);
        ys0.lemma_flat_map_push(entries_fn(), y);
        assert(ys =~= ys0.push(y));
        assert(spec_enumeration(xs + ys) =~= spec_enumeration(xs) + spec_enumeration(ys));
    }
}

/// Enumeration fault isolation: a host that fails contributes exactly one
/// tagged error entry, and the hosts before and after it contribute exactly
/// what they would have contributed anyway, in host order.
pub proof fn lemma_enumeration_fault_isolation(
    before: Seq<HostProbe>,
    bad: HostProbe,
    after: Seq<HostProbe>,
)
    requires
        bad.devices is Err,
    ensures
        spec_enumeration(before + seq![bad] + after) == spec_enumeration(before) + seq![
            Err(
                HostError {
                    error: bad.devices->Err_0,
                    hostid: Some(bad.hostid),
                    device_name: None,
                },
            ),
        ] + spec_enumeration(after),
{
    lemma_enumeration_concat(before + seq![bad], after);
    lemma_enumeration_concat(before, seq![bad]);
    seq![bad].lemma_flat_map_singleton(entries_fn());
}

/// Iterator over all hosts and all output devices.
///
/// Built once from the probed hosts; pulls one entry at a time with
/// [`AllHostsDevices::next`] until exhausted.
pub struct AllHostsDevices {
    hosts: Vec<HostProbe>,
    host_idx: usize,
    dev_idx: usize,
}

impl AllHostsDevices {
    /// The probes this cursor was built over; they never change.
    pub closed spec fn probes(self) -> Seq<HostProbe> {
        self.hosts@
    }

    /// How many entries the cursor has yielded so far.
    pub closed spec fn emitted(self) -> int {
        spec_enumeration(self.hosts@.take(self.host_idx as int)).len() + self.dev_idx
    }

    /// The cursor stands on a host with entries left, or past every host.
    pub closed spec fn wf(self) -> bool {
        &&& self.host_idx <= self.hosts@.len()
        &&& (self.host_idx < self.hosts@.len() ==> self.dev_idx < probe_entries(
            self.hosts@[self.host_idx as int],
        ).len())
        &&& (self.host_idx == self.hosts@.len() ==> self.dev_idx == 0)
    }

    /// Whether a probed host contributes no entries at all: it opened, and
    /// it has no devices.
    fn probe_is_empty(h: &HostProbe) -> (r: bool)
        ensures
            r == (probe_entries(*h).len() == 0),
    {
        match &h.devices {
            Ok(devs) => devs.len() == 0,
            Err(_) => false,
        }
    }

    /// Skip hosts that contribute nothing, so the cursor stands on an entry
    /// or at the end.
    fn normalize(&mut self)
        requires
            old(self).host_idx <= old(self).hosts@.len(),
            old(self).dev_idx == 0,
        ensures
            final(self).hosts == old(self).hosts,
            final(self).wf(),
            final(self).emitted() == old(self).emitted(),
    {
        loop
            invariant
                self.hosts == old(self).hosts,
                self.host_idx <= self.hosts@.len(),
                self.dev_idx == 0,
                spec_enumeration(self.hosts@.take(self.host_idx as int)).len() == old(
                    self,
                ).emitted(),
            ensures
                self.hosts == old(self).hosts,
                self.dev_idx == 0,
                self.host_idx <= self.hosts@.len(),
                spec_enumeration(self.hosts@.take(self.host_idx as int)).len() == old(
                    self,
                ).emitted(),
                self.host_idx < self.hosts@.len() ==> probe_entries(
                    self.hosts@[self.host_idx as int],
                ).len() > 0,
            decreases self.hosts@.len() - self.host_idx,
        {
            if self.host_idx >= self.hosts.len() {
                break ;
            }
            if !Self::probe_is_empty(&self.hosts[self.host_idx]) {
                break ;
            }
            proof {
                lemma_enumeration_step(self.hosts@, self.host_idx as int);
            }
            self.host_idx = self.host_idx + 1;
        }
    }

    /// Begin enumerating the given probes, standing before their first
    /// entry.
    pub fn iter(hosts: Vec<HostProbe>) -> (it: AllHostsDevices)
        ensures
            it.probes() == hosts@,
            it.wf(),
            it.emitted() == 0,
    {
        let mut it = AllHostsDevices { hosts, host_idx: 0, dev_idx: 0 };
        proof {
            assert(it.hosts@.take(0) =~= Seq::<HostProbe>::empty());
            lemma_enumeration_empty();
        }
        it.normalize();
        it
    }

    /// An owned copy of a device name.
    fn clone_name(name: &Option<String>) -> (r: Option<String>)
        ensures
            r == *name,
    {
        match name {
            Some(n) => Some(n.clone()),
            None => None,
        }
    }

    /// An owned copy of a configuration list.
    fn copy_configs(configs: &Vec<SupportedDeviceConfig>) -> (r: Vec<SupportedDeviceConfig>)
        ensures
            r@ == configs@,
    {
        let mut out: Vec<SupportedDeviceConfig> = Vec::new();
        let mut i: usize = 0;
        while i < configs.len()
            invariant
                i <= configs.len(),
                out@ == configs@.take(i as int),
            decreases configs.len() - i,
        {
            out.push(configs[i]);
            proof {
                assert(out@ =~= configs@.take(i as int + 1));
            }
            i += 1;
        }
        proof {
            assert(configs@.take(configs@.len() as int) =~= configs@);
        }
        out
    }

    /// Pull the next enumeration entry, if any entry is left.
    ///
    /// The cursor yields, in order, exactly the entries of
    /// [`spec_enumeration`] over its probes: one entry per working device
    /// and one tagged error per failed host or device.
    pub fn next(&mut self) -> (r: Option<DeviceEntry>)
        requires
            old(self).wf(),
        ensures
            final(self).wf(),
            final(self).probes() == old(self).probes(),
            ({
                let entries = spec_enumeration(old(self).probes());
                if old(self).emitted() < entries.len() {
                    &&& match r {
                        Some(entry) => entry_view(entry) == entries[old(self).emitted()],
                        None => false,
                    }
                    &&& final(self).emitted() == old(self).emitted() + 1
                } else {
                    &&& r is None
                    &&& final(self).emitted() == old(self).emitted()
                }
            }),
    {
        let ghost hosts = self.hosts@;
        let ghost i = self.host_idx as int;
        let ghost d = self.dev_idx as int;
        let ghost e = self.emitted();
        if self.host_idx >= self.hosts.len() {
            proof {
                assert(hosts.take(hosts.len() as int) =~= hosts);
            }
            return None;
        }
        proof {
            lemma_enumeration_step(hosts, i);
            lemma_enumeration_prefix(hosts, i + 1);
            assert(spec_enumeration(hosts.take(i + 1))[e] == probe_entries(hosts[i])[d]);
            assert(spec_enumeration(hosts)[e] == probe_entries(hosts[i])[d]);
        }
        let host = &self.hosts[self.host_idx];
        match &host.devices {
            Ok(devs) => {
                proof {
                    assert(probe_entries(hosts[i]).len() == devs@.len());
                }
                let dev = &devs[self.dev_idx];
                let entry: DeviceEntry = match &dev.configs {
                    Ok(cfgs) => Ok(
                        HostDevicePair {
                            hostid: host.hostid.clone(),
                            device: Self::clone_name(&dev.name),
                            configs: Self::copy_configs(cfgs),
                        },
                    ),
                    Err(description) => Err(
                        HostError {
                            error: HostErrorKind::StreamConfig(description.clone()),
                            hostid: Some(host.hostid.clone()),
                            device_name: Self::clone_name(&dev.name),
                        },
                    ),
                };
                proof {
                    assert(probe_entries(hosts[i])[d] == spec_device_entry(
                        hosts[i].hostid,
                        hosts[i].devices->Ok_0@[d],
                    ));
                    assert(entry_view(entry) == spec_enumeration(hosts)[e]);
                }
                let last_device = self.dev_idx >= devs.len() - 1;
                if last_device {
                    self.host_idx = self.host_idx + 1;
                    self.dev_idx = 0;
                    proof {
                        lemma_enumeration_step(hosts, i);
                    }
                    self.normalize();
                } else {
                    self.dev_idx = self.dev_idx + 1;
                }
                Some(entry)
            },
            Err(kind) => {
                let entry: DeviceEntry = Err(
                    HostError {
                        error: kind.duplicate(),
                        hostid: Some(host.hostid.clone()),
                        device_name: None,
                    },
                );
                proof {
                    assert(probe_entries(hosts[i]).len() == 1);
                    assert(entry_view(entry) == spec_enumeration(hosts)[e]);
                }
                self.host_idx = self.host_idx + 1;
                self.dev_idx = 0;
                proof {
                    lemma_enumeration_step(hosts, i);
                }
                self.normalize();
                Some(entry)
            },
        }
    }
}

impl SupportedOutputDevice {
    /// Build the wire description of one enumerated device: the host's id,
    /// the device's name (empty when it has none), and its configurations.
    pub fn from_pair(pair: &HostDevicePair) -> (r: SupportedOutputDevice)
        ensures
            r.host@ == pair.hostid@,
            r.device@ == match pair.device {
                Some(n) => n@,
                None => Seq::<char>::empty(),
            },
            r.stream_configs@ == pair.configs@,
    {
        let device = match &pair.device {
            Some(n) => n.clone(),
            None => String::new(),
        };
        SupportedOutputDevice {
            host: pair.hostid.clone(),
            device,
            stream_configs: AllHostsDevices::copy_configs(&pair.configs),
        }
    }
}

} // verus!
