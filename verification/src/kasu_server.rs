//! The server coordinator: the single writer of all shared state.
//!
//! Exactly one coordinator exists per server instance.  Every mutation of
//! the client registry and of the broadcast snapshot passes through its
//! dispatch loop, one request at a time, so no lock guards the state.  The
//! I/O layer owns the listener and the channels; the decisions live here.

use vstd::prelude::*;
use vstd::arithmetic::div_mod::{
    lemma_div_decreases,
    lemma_fundamental_div_mod,
};
use vstd::string::StringExecFns;

use crate::connect::ConnectRequest;
use crate::devices::{AllHostsDevices, EntryView, HostProbe, spec_enumeration};
use crate::deviceconfig::SupportedDeviceConfig;
use crate::query::SupportedOutputDevice;
use crate::hosterror::HostError;
use crate::messages::{KasuminRequest, KasuminResponse, RequestKind, ResponseKind};
use crate::query::{QueryRequest, QueryResponse};

verus! {

/// The decimal digit character for one value below ten.
pub open spec fn decimal_digit(d: int) -> char {
    if d == 0 {
        '0'
    } else if d == 1 {
        '1'
    } else if d == 2 {
        '2'
    } else if d == 3 {
        '3'
    } else if d == 4 {
        '4'
    } else if d == 5 {
        '5'
    } else if d == 6 {
        '6'
    } else if d == 7 {
        '7'
    } else if d == 8 {
        '8'
    } else {
        '9'
    }
}

/// The decimal rendering of a number, most significant digit first.
pub open spec fn spec_decimal(n: nat) -> Seq<char>
    decreases n,
{
    if n < 10 {
        seq![decimal_digit(n as int)]
    } else {
        spec_decimal(n / 10) + seq![decimal_digit((n % 10) as int)]
    }
}

/// A decimal rendering is never empty.
proof fn lemma_decimal_nonempty(n: nat)
    ensures
        spec_decimal(n).len() >= 1,
    decreases n,
{
    if n >= 10 {
        lemma_div_decreases(n as int, 10);
        lemma_decimal_nonempty(n / 10);
    }
}

/// Distinct digits render as distinct characters.
proof fn lemma_digit_injective(x: int, y: int)
    requires
        0 <= x < 10,
        0 <= y < 10,
        decimal_digit(x) == decimal_digit(y),
    ensures
        x == y,
{
}

/// Distinct numbers render as distinct decimal strings, so a uuid derived
/// from a fresh counter value never collides with an earlier one.
pub proof fn lemma_decimal_injective(a: nat, b: nat)
    requires
        spec_decimal(a) == spec_decimal(b),
    ensures
        a == b,
    decreases a,
{
    if a < 10 && b < 10 {
        assert(seq![decimal_digit(a as int)][0] == decimal_digit(a as int));
        assert(seq![decimal_digit(b as int)][0] == decimal_digit(b as int));
        assert(spec_decimal(a)[0] == spec_decimal(b)[0]);
        lemma_digit_injective(a as int, b as int);
    } else if a < 10 && b >= 10 {
        lemma_div_decreases(b as int, 10);
        lemma_decimal_nonempty(b / 10);
    } else if a >= 10 && b < 10 {
        lemma_div_decreases(a as int, 10);
        lemma_decimal_nonempty(a / 10);
    } else {
        lemma_div_decreases(a as int, 10);
        lemma_div_decreases(b as int, 10);
        lemma_decimal_nonempty(a / 10);
        lemma_decimal_nonempty(b / 10);
        let sa = spec_decimal(a);
        let sb = spec_decimal(b);
        assert(sa.last() == decimal_digit((a % 10) as int));
        assert(sb.last() == decimal_digit((b % 10) as int));
        lemma_digit_injective((a % 10) as int, (b % 10) as int);
        assert(a % 10 == b % 10);
        assert(sa.drop_last() =~= spec_decimal(a / 10));
        assert(sb.drop_last() =~= spec_decimal(b / 10));
        lemma_decimal_injective(a / 10, b / 10);
        lemma_fundamental_div_mod(a as int, 10);
        lemma_fundamental_div_mod(b as int, 10);
    }
}

/// The one-character string for one decimal digit.
fn digit_str(d: u64) -> (s: &'static str)
    requires
        d < 10,
    ensures
        s@ == seq![decimal_digit(d as int)],
{
    proof {
        reveal_strlit("0");
        reveal_strlit("1");
        reveal_strlit("2");
        reveal_strlit("3");
        reveal_strlit("4");
        reveal_strlit("5");
        reveal_strlit("6");
        reveal_strlit("7");
        reveal_strlit("8");
        reveal_strlit("9");
    }
    let s = if d == 0 {
        "0"
    } else if d == 1 {
        "1"
    } else if d == 2 {
        "2"
    } else if d == 3 {
        "3"
    } else if d == 4 {
        "4"
    } else if d == 5 {
        "5"
    } else if d == 6 {
        "6"
    } else if d == 7 {
        "7"
    } else if d == 8 {
        "8"
    } else {
        "9"
    };
    proof {
        assert(s@ =~= seq![decimal_digit(d as int)]);
    }
    s
}

/// Render a counter value as its decimal uuid string.
pub fn format_uuid(n: u64) -> (s: String)
    ensures
        s@ == spec_decimal(n as nat),
    decreases n,
{
    if n < 10 {
        String::from_str(digit_str(n))
    } else {
        proof {
            lemma_div_decreases(n as int, 10);
        }
        let mut s = format_uuid(n / 10);
        s.append(digit_str(n % 10));
        s
    }
}

/// What the coordinator keeps of one confirmed, alive client.
#[derive(Clone, Debug)]
pub struct LocalClient {
    /// The counter value the session's uuid was minted from.
    pub id: u64,
    /// The session's uuid: the decimal rendering of `id`.
    pub uuid: String,
    /// The name the client supplied in its handshake.
    pub name: String,
}

/// One registry entry, reduced to plain values.
pub type RegistryEntry = (u64, Seq<char>, Seq<char>);

/// The registry, reduced to plain values: id, uuid, name per session.
pub open spec fn registry_view(clients: Seq<LocalClient>) -> Seq<RegistryEntry> {
    clients.map_values(|c: LocalClient| (c.id, c.uuid@, c.name@))
}

/// The predicate deregistration filters the registry with: keep every
/// session whose uuid differs.
pub open spec fn keeps(uuid: Seq<char>) -> spec_fn(LocalClient) -> bool {
    |c: LocalClient| c.uuid@ != uuid
}

/// A device as the wire response carries it, reduced to plain values:
/// host, device name, configurations.
pub type DeviceView = (Seq<char>, Seq<char>, Seq<SupportedDeviceConfig>);

/// One response device, reduced to plain values.
pub open spec fn output_device_view(s: SupportedOutputDevice) -> DeviceView {
    (s.host@, s.device@, s.stream_configs@)
}

/// A response device list, reduced to plain values.
pub open spec fn device_views(devs: Seq<SupportedOutputDevice>) -> Seq<DeviceView> {
    devs.map_values(|s: SupportedOutputDevice| output_device_view(s))
}

/// The devices a query response lists: one per working device, in
/// enumeration order; a device without a name is listed with an empty one.
pub open spec fn spec_query_devices(entries: Seq<EntryView>) -> Seq<DeviceView>
    decreases entries.len(),
{
    if entries.len() == 0 {
        Seq::<DeviceView>::empty()
    } else {
        spec_query_devices(entries.drop_last()) + (match entries.last() {
            Ok(p) => seq![
                (
                    p.0@,
                    match p.1 {
                        Some(n) => n@,
                        None => Seq::<char>::empty(),
                    },
                    p.2,
                ),
            ],
            Err(_) => Seq::<DeviceView>::empty(),
        })
    }
}

/// The failures a query reports beside its devices, in enumeration order.
pub open spec fn spec_query_errors(entries: Seq<EntryView>) -> Seq<HostError>
    decreases entries.len(),
{
    if entries.len() == 0 {
        Seq::<HostError>::empty()
    } else {
        spec_query_errors(entries.drop_last()) + (match entries.last() {
            Ok(_) => Seq::<HostError>::empty(),
            Err(e) => seq![e],
        })
    }
}

/// One more entry extends the devices and errors of a query by exactly
/// that entry's contribution.
proof fn lemma_query_take_step(entries: Seq<EntryView>, k: int)
    requires
        0 <= k < entries.len(),
    ensures
        spec_query_devices(entries.take(k + 1)) == spec_query_devices(entries.take(k)) + (match entries[k] {
            Ok(p) => seq![
                (
                    p.0@,
                    match p.1 {
                        Some(n) => n@,
                        None => Seq::<char>::empty(),
                    },
                    p.2,
                ),
            ],
            Err(_) => Seq::<DeviceView>::empty(),
        }),
        spec_query_errors(entries.take(k + 1)) == spec_query_errors(entries.take(k)) + (match entries[k] {
            Ok(_) => Seq::<HostError>::empty(),
            Err(e) => seq![e],
        }),
{
    assert(entries.take(k + 1).drop_last() =~= entries.take(k));
    assert(entries.take(k + 1).last() == entries[k]);
}

/// Keeping every element of a sequence is the identity.
proof fn lemma_filter_all<A>(s: Seq<A>, pred: spec_fn(A) -> bool)
    requires
        forall|i: int| 0 <= i < s.len() ==> pred(#[trigger] s[i]),
    ensures
        s.filter(pred) == s,
    decreases s.len(),
{
    reveal(Seq::filter);
    if s.len() > 0 {
        lemma_filter_all(s.drop_last(), pred);
        assert(pred(s.last()));
        assert(s.drop_last().push(s.last()) =~= s);
    }
}

/// Filtering out exactly one element removes exactly that element.
proof fn lemma_filter_remove_one<A>(s: Seq<A>, pred: spec_fn(A) -> bool, idx: int)
    requires
        0 <= idx < s.len(),
        !pred(s[idx]),
        forall|i: int| 0 <= i < s.len() && i != idx ==> pred(#[trigger] s[i]),
    ensures
        s.filter(pred) == s.remove(idx),
    decreases s.len(),
{
    reveal(Seq::filter);
    if idx == s.len() - 1 {
        lemma_filter_all(s.drop_last(), pred);
        assert(s.remove(idx) =~= s.drop_last());
    } else {
        lemma_filter_remove_one(s.drop_last(), pred, idx);
        assert(pred(s.last()));
        assert(s.drop_last().remove(idx).push(s.last()) =~= s.remove(idx));
    }
}

/// Deregistering a uuid twice is the same as once: with the uuid gone, the
/// filter keeps everything that survived.
pub proof fn lemma_deregister_idempotent(clients: Seq<LocalClient>, uuid: Seq<char>)
    ensures
        clients.filter(keeps(uuid)).filter(keeps(uuid)) == clients.filter(keeps(uuid)),
{
    broadcast use vstd::seq_lib::group_filter_ensures;

    lemma_filter_all(clients.filter(keeps(uuid)), keeps(uuid));
}

/// What the coordinator did with one request.
#[derive(Debug)]
pub enum Dispatch {
    /// A handshake was fulfilled: the fresh uuid, to hand back over the
    /// session's one-shot channel.
    Registered { uuid: String },
    /// A query was answered and the snapshot published; the failures met
    /// during enumeration stand beside it, to be logged, never swallowed.
    Published { errors: Vec<HostError> },
}

/// How one request message changes the registry and the uuid counter.
pub open spec fn spec_coordinator_step(
    reg: Seq<RegistryEntry>,
    next: u64,
    message: RequestKind,
) -> (Seq<RegistryEntry>, u64)
    recommends
        next < u64::MAX,
{
    match message {
        RequestKind::Connect(ConnectRequest::Name(name)) => (
            reg.push((next, spec_decimal(next as nat), name@)),
            (next + 1) as u64,
        ),
        RequestKind::Query(_) => (reg, next),
    }
}

/// Running a request sequence: each request steps the state the previous
/// one left behind.
pub open spec fn spec_coordinator_run(
    reg: Seq<RegistryEntry>,
    next: u64,
    messages: Seq<RequestKind>,
) -> (Seq<RegistryEntry>, u64)
    decreases messages.len(),
{
    if messages.len() == 0 {
        (reg, next)
    } else {
        let prior = spec_coordinator_run(reg, next, messages.drop_last());
        spec_coordinator_step(prior.0, prior.1, messages.last())
    }
}

/// Coordinator ordering: stepping the state with one request and then a
/// second is exactly running the two-request sequence in submission order —
/// the first request's effects are applied before the second is judged.
pub proof fn lemma_submission_order(
    reg: Seq<RegistryEntry>,
    next: u64,
    first: RequestKind,
    second: RequestKind,
)
    ensures
        ({
            let after_first = spec_coordinator_step(reg, next, first);
            spec_coordinator_step(after_first.0, after_first.1, second) == spec_coordinator_run(
                reg,
                next,
                seq![first, second],
            )
        }),
{
    reveal_with_fuel(spec_coordinator_run, 3);
    let msgs = seq![first, second];
    assert(msgs.drop_last() =~= seq![first]);
    assert(seq![first].drop_last() =~= Seq::<RequestKind>::empty());
    assert(msgs.last() == second);
    assert(seq![first].last() == first);
}

/// The server coordinator's state: the registry of confirmed clients, the
/// uuid counter, and the broadcast slot every connection reads.
#[derive(Debug)]
pub struct KasuminServer {
    /// Frame-size limit each connection enforces on its envelopes.
    pub buffer_size: u32,
    /// The counter fresh uuids are minted from.
    pub next_id: u64,
    /// Confirmed and alive clients.
    pub clients: Vec<LocalClient>,
    /// The broadcast slot: the latest published snapshot.  Publishing
    /// overwrites it; a slow reader sees only the newest value.
    pub latest: KasuminResponse,
    /// How many snapshots have been published; readers compare versions to
    /// tell whether the slot changed.
    pub version: u64,
}

impl KasuminServer {
    /// The coordinator's standing invariant: every registered id was
    /// minted below the counter, ids never repeat, and every uuid is the
    /// decimal rendering of its id.
    pub open spec fn wf(&self) -> bool {
        &&& 1 <= self.buffer_size
        &&& forall|i: int|
            0 <= i < self.clients@.len() ==> (#[trigger] self.clients@[i]).id < self.next_id
        &&& forall|i: int, j: int|
            0 <= i < j < self.clients@.len() ==> self.clients@[i].id != self.clients@[j].id
        &&& forall|i: int|
            0 <= i < self.clients@.len() ==> (#[trigger] self.clients@[i]).uuid@ == spec_decimal(
                self.clients@[i].id as nat,
            )
    }

    /// A coordinator with no clients, nothing published, and the given
    /// per-connection buffer capacity.
    pub fn new(buffer_size: usize) -> (s: KasuminServer)
        requires
            1 <= buffer_size <= u32::MAX,
        ensures
            s.wf(),
            s.buffer_size == buffer_size,
            s.next_id == 0,
            s.clients@ == Seq::<LocalClient>::empty(),
            s.version == 0,
            s.latest.message is Ready,
    {
        KasuminServer {
            buffer_size: buffer_size as u32,
            next_id: 0,
            clients: Vec::new(),
            latest: KasuminResponse { message: ResponseKind::Ready },
            version: 0,
        }
    }

    /// Assign a fresh, collision-free uuid, insert the session into the
    /// registry, and hand the uuid back.
    fn register_client(&mut self, name: String) -> (uuid: String)
        requires
            old(self).wf(),
            old(self).next_id < u64::MAX,
        ensures
            final(self).wf(),
            uuid@ == spec_decimal(old(self).next_id as nat),
            final(self).next_id == old(self).next_id + 1,
            registry_view(final(self).clients@) == registry_view(old(self).clients@).push(
                (old(self).next_id, spec_decimal(old(self).next_id as nat), name@),
            ),
            final(self).buffer_size == old(self).buffer_size,
            final(self).latest == old(self).latest,
            final(self).version == old(self).version,
    {
        let uuid = format_uuid(self.next_id);
        let entry = LocalClient { id: self.next_id, uuid: uuid.clone(), name };
        self.clients.push(entry);
        self.next_id = self.next_id + 1;
        proof {
            assert(registry_view(self.clients@) =~= registry_view(old(self).clients@).push(
                (old(self).next_id, spec_decimal(old(self).next_id as nat), name@),
            ));
        }
        uuid
    }

    /// Remove the session with the given uuid, if one is registered.
    ///
    /// Deregistering is idempotent: a uuid that is absent — in particular,
    /// one already deregistered by the connection's other loop — leaves the
    /// registry exactly as it stands.
    pub fn deregister(&mut self, uuid: &String)
        requires
            old(self).wf(),
        ensures
            final(self).wf(),
            final(self).clients@ == old(self).clients@.filter(keeps(uuid@)),
            final(self).buffer_size == old(self).buffer_size,
            final(self).next_id == old(self).next_id,
            final(self).latest == old(self).latest,
            final(self).version == old(self).version,
    {
        let n = self.clients.len();
        let mut i: usize = 0;
        loop
            invariant
                i <= n,
                n == self.clients.len(),
                *self == *old(self),
                forall|j: int| 0 <= j < i ==> (#[trigger] self.clients@[j]).uuid@ != uuid@,
            ensures
                *self == *old(self),
                i <= n,
                n == self.clients.len(),
                i < n ==> self.clients@[i as int].uuid@ == uuid@,
                forall|j: int| 0 <= j < i ==> (#[trigger] self.clients@[j]).uuid@ != uuid@,
            decreases n - i,
        {
            if i >= n {
                break ;
            }
            let c = &self.clients[i];
            if c.uuid == *uuid {
                break ;
            }
            i += 1;
        }
        if i < n {
            proof {
                assert forall|j: int|
                    0 <= j < self.clients@.len() && j != i implies keeps(uuid@)(
                    #[trigger] self.clients@[j],
                ) by {
                    if self.clients@[j].uuid@ == uuid@ {
                        lemma_decimal_injective(
                            self.clients@[j].id as nat,
                            self.clients@[i as int].id as nat,
                        );
                    }
                }
                lemma_filter_remove_one(self.clients@, keeps(uuid@), i as int);
            }
            self.clients.remove(i);
        } else {
            proof {
                lemma_filter_all(self.clients@, keeps(uuid@));
            }
        }
    }

    /// Publish a new snapshot: overwrite the slot, bump the version.
    /// Readers that lag skip straight to this value — state sync, not an
    /// event log.
    pub fn publish(&mut self, response: KasuminResponse)
        requires
            old(self).version < u64::MAX,
        ensures
            final(self).latest == response,
            final(self).version == old(self).version + 1,
            final(self).clients == old(self).clients,
            final(self).next_id == old(self).next_id,
            final(self).buffer_size == old(self).buffer_size,
    {
        self.latest = response;
        self.version = self.version + 1;
    }

    /// Latest-value-wins read of the broadcast slot: a reader that has
    /// seen `seen` observes the snapshot exactly when something newer was
    /// published, and then observes the newest value, never an
    /// intermediate one.
    pub fn changed(&self, seen: u64) -> (r: Option<(u64, &KasuminResponse)>)
        ensures
            match r {
                Some(observed) => {
                    &&& self.version > seen
                    &&& observed.0 == self.version
                    &&& *observed.1 == self.latest
                },
                None => self.version <= seen,
            },
    {
        if self.version > seen {
            Some((self.version, &self.latest))
        } else {
            None
        }
    }

    /// Process one request: one turn of the single-writer loop.
    ///
    /// A connect request mints a fresh uuid and registers the session; the
    /// uuid goes back for the one-shot reply.  An output-device query runs
    /// the enumeration synchronously within this turn — no interleaved
    /// mutation — and publishes every working device as the new snapshot;
    /// each failed host or device is handed back to be logged.
    pub fn dispatch(&mut self, request: KasuminRequest, hosts: Vec<HostProbe>) -> (d: Dispatch)
        requires
            old(self).wf(),
            old(self).next_id < u64::MAX,
            old(self).version < u64::MAX,
        ensures
            final(self).wf(),
            final(self).buffer_size == old(self).buffer_size,
            (registry_view(final(self).clients@), final(self).next_id) == spec_coordinator_step(
                registry_view(old(self).clients@),
                old(self).next_id,
                request.message,
            ),
            match request.message {
                RequestKind::Connect(_) => {
                    &&& match d {
                        Dispatch::Registered { uuid } => uuid@ == spec_decimal(
                            old(self).next_id as nat,
                        ),
                        _ => false,
                    }
                    &&& final(self).latest == old(self).latest
                    &&& final(self).version == old(self).version
                },
                RequestKind::Query(QueryRequest::OutputDevices) => {
                    &&& final(self).clients == old(self).clients
                    &&& final(self).version == old(self).version + 1
                    &&& match final(self).latest.message {
                        ResponseKind::Query(QueryResponse::OutputDevices(devs)) => device_views(
                            devs@,
                        ) == spec_query_devices(spec_enumeration(hosts@)),
                        _ => false,
                    }
                    &&& match d {
                        Dispatch::Published { errors } => errors@ == spec_query_errors(
                            spec_enumeration(hosts@),
                        ),
                        _ => false,
                    }
                },
            },
    {
        match request.message {
            RequestKind::Connect(ConnectRequest::Name(name)) => {
                let uuid = self.register_client(name);
                Dispatch::Registered { uuid }
            },
            RequestKind::Query(QueryRequest::OutputDevices) => {
                let ghost probes = hosts@;
                let ghost entries = spec_enumeration(probes);
                let mut cursor = AllHostsDevices::iter(hosts);
                let mut devices: Vec<SupportedOutputDevice> = Vec::new();
                let mut errors: Vec<HostError> = Vec::new();
                proof {
                    assert(entries.take(0) =~= Seq::<EntryView>::empty());
                }
                loop
                    invariant
                        cursor.wf(),
                        cursor.probes() == probes,
                        0 <= cursor.emitted() <= entries.len(),
                        entries == spec_enumeration(probes),
                        device_views(devices@) == spec_query_devices(
                            entries.take(cursor.emitted()),
                        ),
                        errors@ == spec_query_errors(entries.take(cursor.emitted())),
                    ensures
                        device_views(devices@) == spec_query_devices(entries),
                        errors@ == spec_query_errors(entries),
                    decreases entries.len() - cursor.emitted(),
                {
                    let ghost e = cursor.emitted();
                    match cursor.next() {
                        Some(entry) => {
                            proof {
                                lemma_query_take_step(entries, e);
                            }
                            match entry {
                                Ok(pair) => {
                                    let dev = SupportedOutputDevice::from_pair(&pair);
                                    devices.push(dev);
                                    proof {
                                        assert(device_views(devices@) =~= spec_query_devices(
                                            entries.take(e + 1),
                                        ));
                                    }
                                },
                                Err(err) => {
                                    errors.push(err);
                                    proof {
                                        assert(errors@ =~= spec_query_errors(entries.take(e + 1)));
                                    }
                                },
                            }
                        },
                        None => {
                            proof {
                                assert(entries.take(entries.len() as int) =~= entries);
                            }
                            break ;
                        },
                    }
                }
                let response = KasuminResponse {
                    message: ResponseKind::Query(QueryResponse::OutputDevices(devices)),
                };
                self.publish(response);
                Dispatch::Published { errors }
            },
        }
    }
}

/// Uuid uniqueness across active sessions: a well-formed registry never
/// holds two sessions with the same uuid.
pub proof fn lemma_uuid_uniqueness(s: &KasuminServer, i: int, j: int)
    requires
        s.wf(),
        0 <= i < s.clients@.len(),
        0 <= j < s.clients@.len(),
        i != j,
    ensures
        s.clients@[i].uuid@ != s.clients@[j].uuid@,
{
    if s.clients@[i].uuid@ == s.clients@[j].uuid@ {
        lemma_decimal_injective(s.clients@[i].id as nat, s.clients@[j].id as nat);
    }
}

} // verus!
