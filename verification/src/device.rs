//! Device records and the connection-state graph.

use vstd::prelude::*;
use crate::text::{clone_opt_text, opt_text};

verus! {

/// How a device reaches the host.
#[derive(Debug, Clone, Copy, PartialEq, Eq, Structural)]
pub enum ConnectionType {
    Usb,
    Wifi,
    AdbForward,
}

/// Connection state of a device.
#[derive(Debug, Clone, Copy, PartialEq, Eq, Structural)]
pub enum DeviceStatus {
    Connected,
    Disconnected,
    Pairing,
    Syncing,
}

/// The edges of the connection-state graph: `Disconnected -> Pairing ->
/// Connected <-> Syncing`, and back to `Disconnected` from each of the other
/// three. No state has an edge to itself.
pub open spec fn can_transition(from: DeviceStatus, to: DeviceStatus) -> bool {
    match (from, to) {
        (DeviceStatus::Disconnected, DeviceStatus::Pairing) => true,
        (DeviceStatus::Pairing, DeviceStatus::Connected) => true,
        (DeviceStatus::Connected, DeviceStatus::Syncing) => true,
        (DeviceStatus::Syncing, DeviceStatus::Connected) => true,
        (DeviceStatus::Pairing, DeviceStatus::Disconnected) => true,
        (DeviceStatus::Connected, DeviceStatus::Disconnected) => true,
        (DeviceStatus::Syncing, DeviceStatus::Disconnected) => true,
        _ => false,
    }
}

impl DeviceStatus {
    /// Whether the graph has an edge from this state to `next`.
    pub fn allows(self, next: DeviceStatus) -> (ok: bool)
        ensures
            ok == can_transition(self, next),
    {
        match (self, next) {
            (DeviceStatus::Disconnected, DeviceStatus::Pairing) => true,
            (DeviceStatus::Pairing, DeviceStatus::Connected) => true,
            (DeviceStatus::Connected, DeviceStatus::Syncing) => true,
            (DeviceStatus::Syncing, DeviceStatus::Connected) => true,
            (DeviceStatus::Pairing, DeviceStatus::Disconnected) => true,
            (DeviceStatus::Connected, DeviceStatus::Disconnected) => true,
            (DeviceStatus::Syncing, DeviceStatus::Disconnected) => true,
            _ => false,
        }
    }
}

/// A device that the host knows of.
#[derive(Debug, PartialEq, Eq)]
pub struct ConnectedDevice {
    pub id: String,
    pub name: String,
    pub model: String,
    pub soc_name: String,
    pub connection_type: ConnectionType,
    pub status: DeviceStatus,
    pub ip_address: Option<String>,
    pub port: Option<u16>,
    pub last_seen: u64,
}

/// The mathematical value of a `ConnectedDevice`.
pub struct DeviceView {
    pub id: Seq<char>,
    pub name: Seq<char>,
    pub model: Seq<char>,
    pub soc_name: Seq<char>,
    pub connection_type: ConnectionType,
    pub status: DeviceStatus,
    pub ip_address: Option<Seq<char>>,
    pub port: Option<u16>,
    pub last_seen: u64,
}

impl View for ConnectedDevice {
    type V = DeviceView;

    open spec fn view(&self) -> DeviceView {
        DeviceView {
            id: self.id@,
            name: self.name@,
            model: self.model@,
            soc_name: self.soc_name@,
            connection_type: self.connection_type,
            status: self.status,
            ip_address: opt_text(self.ip_address),
            port: self.port,
            last_seen: self.last_seen,
        }
    }
}

impl Clone for ConnectedDevice {
    fn clone(&self) -> (r: Self)
        ensures
            r@ == self@,
    {
        ConnectedDevice {
            id: self.id.clone(),
            name: self.name.clone(),
            model: self.model.clone(),
            soc_name: self.soc_name.clone(),
            connection_type: self.connection_type,
            status: self.status,
            ip_address: clone_opt_text(&self.ip_address),
            port: self.port,
            last_seen: self.last_seen,
        }
    }
}

/// No id occurs twice in `s`.
pub open spec fn ids_distinct(s: Seq<DeviceView>) -> bool {
    forall|i: int, j: int| 0 <= i < j < s.len() ==> s[i].id != s[j].id
}

/// Some entry of `s` has the id `id`.
pub open spec fn has_id(s: Seq<DeviceView>, id: Seq<char>) -> bool {
    exists|i: int| 0 <= i < s.len() && s[i].id == id
}

/// The place of the entry with the id `id`, where there is one.
pub open spec fn index_of_id(s: Seq<DeviceView>, id: Seq<char>) -> int {
    choose|i: int| 0 <= i < s.len() && s[i].id == id
}

/// The entry with the id `id`, if there is one.
pub open spec fn lookup(s: Seq<DeviceView>, id: Seq<char>) -> Option<DeviceView> {
    if has_id(s, id) {
        Some(s[index_of_id(s, id)])
    } else {
        None
    }
}

/// `s` after `d` was put in: in the place of the entry with its id, or at
/// the end where there was none.
pub open spec fn upsert(s: Seq<DeviceView>, d: DeviceView) -> Seq<DeviceView> {
    if has_id(s, d.id) {
        s.update(index_of_id(s, d.id), d)
    } else {
        s.push(d)
    }
}

/// `s` after the devices `found` were put in, one after the other, each
/// only where its id was not known yet.
pub open spec fn merged(s: Seq<DeviceView>, found: Seq<DeviceView>) -> Seq<DeviceView>
    decreases found.len(),
{
    if found.len() == 0 {
        s
    } else {
        let m = merged(s, found.drop_last());
        if has_id(m, found.last().id) {
            m
        } else {
            m.push(found.last())
        }
    }
}

/// `s` without the entry with the id `id`.
pub open spec fn without(s: Seq<DeviceView>, id: Seq<char>) -> Seq<DeviceView> {
    if has_id(s, id) {
        s.remove(index_of_id(s, id))
    } else {
        s
    }
}

/// The later of the time `now` and the time `last_seen` at which a device
/// was seen before: the time of a device never runs backwards.
pub open spec fn later_of(last_seen: u64, now: u64) -> u64 {
    if now >= last_seen {
        now
    } else {
        last_seen
    }
}

/// `d` with a new status, seen at `now`. Its time moves on to `now`, and
/// stays where `now` lies before it.
pub open spec fn seen_as(d: DeviceView, status: DeviceStatus, now: u64) -> DeviceView {
    DeviceView { status, last_seen: later_of(d.last_seen, now), ..d }
}

/// `s` after a request to move the device `id` to `status` at `now`. The
/// request takes effect only where the device is known and the graph has
/// an edge from its status to `status`; else `s` stays as it is.
pub open spec fn with_status(
    s: Seq<DeviceView>,
    id: Seq<char>,
    status: DeviceStatus,
    now: u64,
) -> Seq<DeviceView> {
    match lookup(s, id) {
        Some(d) => if can_transition(d.status, status) {
            s.update(index_of_id(s, id), seen_as(d, status, now))
        } else {
            s
        },
        None => s,
    }
}

/// The predicate "has the status `status`".
pub open spec fn has_status(status: DeviceStatus) -> spec_fn(DeviceView) -> bool {
    |d: DeviceView| d.status == status
}

/// The values of a list of borrowed devices.
pub open spec fn views_of(devices: Seq<&ConnectedDevice>) -> Seq<DeviceView> {
    devices.map_values(|d: &ConnectedDevice| d@)
}

/// How a request for a status change ended.
#[derive(Debug, Clone, Copy, PartialEq, Eq, Structural)]
pub enum StatusUpdate {
    /// The device moved to the requested status.
    Applied,
    /// The graph has no edge to the requested status; nothing changed.
    Rejected,
    /// No device has the id; nothing changed.
    UnknownDevice,
}

/// The outcome of a request to move the device `id` to `status`.
pub open spec fn status_outcome(
    s: Seq<DeviceView>,
    id: Seq<char>,
    status: DeviceStatus,
) -> StatusUpdate {
    match lookup(s, id) {
        Some(d) => if can_transition(d.status, status) {
            StatusUpdate::Applied
        } else {
            StatusUpdate::Rejected
        },
        None => StatusUpdate::UnknownDevice,
    }
}

/// With distinct ids, the entry at a place is the one that `lookup` finds
/// for its id.
pub proof fn lemma_index_of_id(s: Seq<DeviceView>, i: int)
    requires
        ids_distinct(s),
        0 <= i < s.len(),
    ensures
        has_id(s, s[i].id),
        index_of_id(s, s[i].id) == i,
        lookup(s, s[i].id) == Some(s[i]),
{
    let j = index_of_id(s, s[i].id);
    assert(0 <= j < s.len() && s[j].id == s[i].id);
    if j < i {
        assert(s[j].id != s[i].id);
    } else if i < j {
        assert(s[i].id != s[j].id);
    }
}

/// One call on the registry, as a value.
pub enum RegistryCall {
    /// `add_device` with the device `device`.
    Upsert { device: DeviceView },
    /// `remove_device` with the id `id`.
    Remove { id: Seq<char> },
    /// A status update for the id `id`, at the time `now`.
    SetStatus { id: Seq<char>, status: DeviceStatus, now: u64 },
}

/// The registry after one call.
pub open spec fn after_call(s: Seq<DeviceView>, call: RegistryCall) -> Seq<DeviceView> {
    match call {
        RegistryCall::Upsert { device } => upsert(s, device),
        RegistryCall::Remove { id } => without(s, id),
        RegistryCall::SetStatus { id, status, now } => with_status(s, id, status, now),
    }
}

/// The registry after a sequence of calls, the first call first.
pub open spec fn after_calls(s: Seq<DeviceView>, calls: Seq<RegistryCall>) -> Seq<DeviceView>
    decreases calls.len(),
{
    if calls.len() == 0 {
        s
    } else {
        after_call(after_calls(s, calls.drop_last()), calls.last())
    }
}

/// Putting a device in keeps the ids distinct.
pub proof fn lemma_upsert_keeps_ids_distinct(s: Seq<DeviceView>, d: DeviceView)
    requires
        ids_distinct(s),
    ensures
        ids_distinct(upsert(s, d)),
        lookup(upsert(s, d), d.id) == Some(d),
{
    let t = upsert(s, d);
    if has_id(s, d.id) {
        let k = index_of_id(s, d.id);
        assert forall|i: int, j: int| 0 <= i < j < t.len() implies t[i].id != t[j].id by {
            assert(s[i].id != s[j].id);
        }
        assert(t[k] == d);
        lemma_index_of_id(t, k);
    } else {
        assert forall|i: int, j: int| 0 <= i < j < t.len() implies t[i].id != t[j].id by {
            if j < s.len() {
                assert(s[i].id != s[j].id);
            } else {
                assert(s[i].id != d.id);
            }
        }
        assert(t[s.len() as int] == d);
        lemma_index_of_id(t, s.len() as int);
    }
}

/// Taking a device out keeps the ids distinct, and its id is then unknown.
pub proof fn lemma_without_keeps_ids_distinct(s: Seq<DeviceView>, id: Seq<char>)
    requires
        ids_distinct(s),
    ensures
        ids_distinct(without(s, id)),
        !has_id(without(s, id), id),
{
    let t = without(s, id);
    if has_id(s, id) {
        let k = index_of_id(s, id);
        assert forall|i: int, j: int| 0 <= i < j < t.len() implies t[i].id != t[j].id by {
            let si = if i < k { i } else { i + 1 };
            let sj = if j < k { j } else { j + 1 };
            assert(t[i] == s[si] && t[j] == s[sj]);
            assert(s[si].id != s[sj].id);
        }
        assert forall|i: int| 0 <= i < t.len() implies t[i].id != id by {
            let si = if i < k { i } else { i + 1 };
            assert(t[i] == s[si]);
            if si < k {
                assert(s[si].id != s[k].id);
            } else {
                assert(s[k].id != s[si].id);
            }
        }
    }
}

/// A status update keeps every id in its place, and so keeps them
/// distinct; an entry changes its status only along an edge of the graph,
/// and its `last_seen` never falls.
pub proof fn lemma_with_status_follows_graph(
    s: Seq<DeviceView>,
    id: Seq<char>,
    status: DeviceStatus,
    now: u64,
)
    requires
        ids_distinct(s),
    ensures
        ids_distinct(with_status(s, id, status, now)),
        with_status(s, id, status, now).len() == s.len(),
        forall|i: int|
            0 <= i < s.len() ==> {
                let before = s[i];
                let after = #[trigger] with_status(s, id, status, now)[i];
                &&& after.id == before.id
                &&& after.status == before.status || can_transition(before.status, after.status)
                &&& after.last_seen >= before.last_seen
                &&& before.id != id ==> after == before
            },
{
    let t = with_status(s, id, status, now);
    assert forall|i: int, j: int| 0 <= i < j < t.len() implies t[i].id != t[j].id by {
        assert(s[i].id != s[j].id);
    }
}

/// A status update for one device leaves every other device as it is and
/// where it is.
pub proof fn lemma_with_status_keeps_others(
    s: Seq<DeviceView>,
    id: Seq<char>,
    status: DeviceStatus,
    now: u64,
    other: Seq<char>,
)
    requires
        ids_distinct(s),
        other != id,
    ensures
        has_id(with_status(s, id, status, now), other) == has_id(s, other),
        has_id(s, other) ==> index_of_id(with_status(s, id, status, now), other) == index_of_id(
            s,
            other,
        ),
        lookup(with_status(s, id, status, now), other) == lookup(s, other),
{
    let t = with_status(s, id, status, now);
    lemma_with_status_follows_graph(s, id, status, now);
    if has_id(s, other) {
        let i = index_of_id(s, other);
        assert(t[i].id == other);
        lemma_index_of_id(t, i);
    } else if has_id(t, other) {
        let i = index_of_id(t, other);
        assert(s[i].id == other);
    }
}

/// Status updates for two different devices can be made in either order.
pub proof fn lemma_with_status_commutes(
    s: Seq<DeviceView>,
    a: Seq<char>,
    status_a: DeviceStatus,
    now_a: u64,
    b: Seq<char>,
    status_b: DeviceStatus,
    now_b: u64,
)
    requires
        ids_distinct(s),
        a != b,
    ensures
        with_status(with_status(s, a, status_a, now_a), b, status_b, now_b) == with_status(
            with_status(s, b, status_b, now_b),
            a,
            status_a,
            now_a,
        ),
{
    lemma_with_status_keeps_others(s, a, status_a, now_a, b);
    lemma_with_status_keeps_others(s, b, status_b, now_b, a);
    assert(with_status(with_status(s, a, status_a, now_a), b, status_b, now_b) =~= with_status(
        with_status(s, b, status_b, now_b),
        a,
        status_a,
        now_a,
    ));
}

/// A status update for an id that the registry does not hold changes
/// nothing: it makes no entry.
pub proof fn lemma_set_status_on_absent_id(
    s: Seq<DeviceView>,
    id: Seq<char>,
    status: DeviceStatus,
    now: u64,
)
    requires
        !has_id(s, id),
    ensures
        with_status(s, id, status, now) == s,
        status_outcome(s, id, status) == StatusUpdate::UnknownDevice,
{
}

/// Whatever calls are made, in whatever order, no id occurs twice in the
/// registry.
pub proof fn lemma_calls_keep_ids_distinct(s: Seq<DeviceView>, calls: Seq<RegistryCall>)
    requires
        ids_distinct(s),
    ensures
        ids_distinct(after_calls(s, calls)),
    decreases calls.len(),
{
    if calls.len() > 0 {
        let before = after_calls(s, calls.drop_last());
        lemma_calls_keep_ids_distinct(s, calls.drop_last());
        match calls.last() {
            RegistryCall::Upsert { device } => {
                lemma_upsert_keeps_ids_distinct(before, device);
            },
            RegistryCall::Remove { id } => {
                lemma_without_keeps_ids_distinct(before, id);
            },
            RegistryCall::SetStatus { id, status, now } => {
                lemma_with_status_follows_graph(before, id, status, now);
            },
        }
    }
}

/// In any sequence of calls, a status update (the call at place `k`)
/// leaves every entry where it is, moves a status only along an edge of
/// the graph, and lets no `last_seen` fall.
pub proof fn lemma_status_history_follows_graph(
    s: Seq<DeviceView>,
    calls: Seq<RegistryCall>,
    k: int,
)
    requires
        ids_distinct(s),
        0 <= k < calls.len(),
        calls[k] is SetStatus,
    ensures
        after_calls(s, calls.take(k + 1)).len() == after_calls(s, calls.take(k)).len(),
        forall|i: int|
            0 <= i < after_calls(s, calls.take(k)).len() ==> {
                let before = after_calls(s, calls.take(k))[i];
                let after = #[trigger] after_calls(s, calls.take(k + 1))[i];
                &&& after.id == before.id
                &&& after.status == before.status || can_transition(before.status, after.status)
                &&& after.last_seen >= before.last_seen
            },
{
    let prefix = calls.take(k + 1);
    assert(prefix.drop_last() =~= calls.take(k));
    assert(prefix.last() == calls[k]);
    let before = after_calls(s, calls.take(k));
    lemma_calls_keep_ids_distinct(s, calls.take(k));
    match calls[k] {
        RegistryCall::SetStatus { id, status, now } => {
            lemma_with_status_follows_graph(before, id, status, now);
        },
        _ => {},
    }
}

/// The registry: every known device, each id once, in the order in which
/// the ids were first put in.
pub struct DeviceManager {
    devices: Vec<ConnectedDevice>,
}

impl View for DeviceManager {
    type V = Seq<DeviceView>;

    closed spec fn view(&self) -> Seq<DeviceView> {
        self.devices@.map_values(|d: ConnectedDevice| d@)
    }
}

impl DeviceManager {
    /// What holds of every registry.
    #[verifier::type_invariant]
    pub closed spec fn well_formed(self) -> bool {
        ids_distinct(self@)
    }

    /// In a registry no id occurs twice.
    pub proof fn lemma_well_formed(self)
        requires
            self.well_formed(),
        ensures
            ids_distinct(self@),
    {
    }

    /// An empty registry.
    pub fn new() -> (r: Self)
        ensures
            r@ == Seq::<DeviceView>::empty(),
    {
        let r = DeviceManager { devices: Vec::new() };
        assert(r@ =~= Seq::<DeviceView>::empty());
        r
    }

    /// The number of devices.
    pub fn len(&self) -> (n: usize)
        ensures
            n == self@.len(),
            ids_distinct(self@),
    {
        proof {
            use_type_invariant(self);
        }
        self.devices.len()
    }

    /// Whether the registry holds no device.
    pub fn is_empty(&self) -> (b: bool)
        ensures
            b == (self@.len() == 0),
    {
        self.devices.len() == 0
    }

    /// Whether the registry holds a device with the id `device_id`.
    pub fn contains(&self, device_id: &str) -> (b: bool)
        ensures
            b == has_id(self@, device_id@),
    {
        self.position(device_id).is_some()
    }

    fn position(&self, device_id: &str) -> (r: Option<usize>)
        ensures
            match r {
                Some(i) => {
                    &&& i < self@.len()
                    &&& has_id(self@, device_id@)
                    &&& index_of_id(self@, device_id@) == i
                    &&& self@[i as int] == self.devices[i as int]@
                },
                None => !has_id(self@, device_id@),
            },
    {
        proof {
            use_type_invariant(self);
        }
        let key = device_id.to_owned();
        let mut i: usize = 0;
        while i < self.devices.len()
            invariant
                key@ == device_id@,
                i <= self.devices.len(),
                self@.len() == self.devices.len(),
                ids_distinct(self@),
                forall|k: int| 0 <= k < i ==> self@[k].id != device_id@,
            decreases self.devices.len() - i,
        {
            if self.devices[i].id == key {
                proof {
                    lemma_index_of_id(self@, i as int);
                }
                return Some(i);
            }
            i += 1;
        }
        None
    }

    fn take_devices(&mut self) -> (devices: Vec<ConnectedDevice>)
        ensures
            devices@.map_values(|d: ConnectedDevice| d@) == old(self)@,
            devices == old(self).devices,
            ids_distinct(old(self)@),
            final(self)@ == Seq::<DeviceView>::empty(),
    {
        proof {
            use_type_invariant(&*self);
        }
        let mut devices: Vec<ConnectedDevice> = Vec::new();
        core::mem::swap(&mut self.devices, &mut devices);
        assert(self@ =~= Seq::<DeviceView>::empty());
        devices
    }

    /// Puts `device` in: in the place of the device with the same id, or at
    /// the end where the id is new.
    pub fn add_device(&mut self, device: ConnectedDevice)
        ensures
            final(self)@ == upsert(old(self)@, device@),
            ids_distinct(final(self)@),
    {
        let found = self.position(device.id.as_str());
        let mut devices = self.take_devices();
        match found {
            Some(i) => {
                devices[i] = device;
            },
            None => {
                devices.push(device);
            },
        }
        assert(devices@.map_values(|d: ConnectedDevice| d@) =~= upsert(old(self)@, device@));
        self.devices = devices;
    }

    /// Puts in the devices of `found` whose ids are not known yet, in their
    /// order. A device whose id is known stays as the registry has it.
    pub fn merge_discovered(&mut self, found: Vec<ConnectedDevice>)
        ensures
            final(self)@ == merged(old(self)@, found@.map_values(|d: ConnectedDevice| d@)),
            ids_distinct(final(self)@),
    {
        proof {
            use_type_invariant(&*self);
        }
        let ghost items = found@;
        let ghost all = found@.map_values(|d: ConnectedDevice| d@);
        let ghost start = self@;
        proof {
            assert(all.take(0) =~= Seq::<DeviceView>::empty());
        }
        for device in it: found
            invariant
                it.seq() == items,
                all == items.map_values(|d: ConnectedDevice| d@),
                self@ == merged(start, all.take(it.index() as int)),
                ids_distinct(self@),
        {
            proof {
                let upto = all.take(it.index() + 1);
                assert(upto.drop_last() =~= all.take(it.index() as int));
                assert(upto.last() == device@);
            }
            if self.position(device.id.as_str()).is_none() {
                self.add_device(device);
            }
        }
        proof {
            assert(all.take(all.len() as int) =~= all);
        }
    }

    /// Takes the device with the id `device_id` out and returns it, if
    /// there is one.
    pub fn remove_device(&mut self, device_id: &str) -> (r: Option<ConnectedDevice>)
        ensures
            final(self)@ == without(old(self)@, device_id@),
            ids_distinct(final(self)@),
            match r {
                Some(d) => lookup(old(self)@, device_id@) == Some(d@),
                None => lookup(old(self)@, device_id@) is None,
            },
    {
        let found = self.position(device_id);
        let mut devices = self.take_devices();
        let r = match found {
            Some(i) => Some(devices.remove(i)),
            None => None,
        };
        assert(devices@.map_values(|d: ConnectedDevice| d@) =~= without(old(self)@, device_id@));
        self.devices = devices;
        r
    }

    /// The device with the id `device_id`, if there is one.
    pub fn get_device(&self, device_id: &str) -> (r: Option<&ConnectedDevice>)
        ensures
            match r {
                Some(d) => lookup(self@, device_id@) == Some(d@),
                None => lookup(self@, device_id@) is None,
            },
    {
        match self.position(device_id) {
            Some(i) => Some(&self.devices[i]),
            None => None,
        }
    }

    /// Every device, in the order of the registry.
    pub fn get_all_devices(&self) -> (r: Vec<&ConnectedDevice>)
        ensures
            views_of(r@) == self@,
            ids_distinct(self@),
    {
        proof {
            use_type_invariant(self);
        }
        let mut out: Vec<&ConnectedDevice> = Vec::new();
        let mut i: usize = 0;
        while i < self.devices.len()
            invariant
                i <= self.devices.len(),
                self@.len() == self.devices.len(),
                views_of(out@) == self@.take(i as int),
            decreases self.devices.len() - i,
        {
            let ghost before = out@;
            out.push(&self.devices[i]);
            assert(views_of(out@) =~= views_of(before).push(self@[i as int]));
            assert(self@.take(i + 1) =~= self@.take(i as int).push(self@[i as int]));
            i += 1;
        }
        assert(self@.take(i as int) =~= self@);
        out
    }

    /// The devices whose status is `status`, in the order of the registry.
    pub fn get_devices_by_status(&self, status: DeviceStatus) -> (r: Vec<&ConnectedDevice>)
        ensures
            views_of(r@) == self@.filter(has_status(status)),
    {
        let mut out: Vec<&ConnectedDevice> = Vec::new();
        let mut i: usize = 0;
        assert(self@.take(0) =~= Seq::<DeviceView>::empty());
        assert(self@.take(0).filter(has_status(status)) =~= Seq::<DeviceView>::empty()) by {
            reveal(Seq::filter);
        }
        while i < self.devices.len()
            invariant
                i <= self.devices.len(),
                self@.len() == self.devices.len(),
                views_of(out@) == self@.take(i as int).filter(has_status(status)),
            decreases self.devices.len() - i,
        {
            proof {
                assert(self@.take(i + 1) =~= self@.take(i as int).push(self@[i as int]));
                self@.take(i as int).lemma_filter_push(self@[i as int], has_status(status));
            }
            if self.devices[i].status == status {
                out.push(&self.devices[i]);
                assert(views_of(out@) =~= self@.take(i + 1).filter(has_status(status)));
            }
            i += 1;
        }
        assert(self@.take(i as int) =~= self@);
        out
    }

    /// The devices whose status is `Connected`, in the order of the
    /// registry.
    pub fn get_connected_devices(&self) -> (r: Vec<&ConnectedDevice>)
        ensures
            views_of(r@) == self@.filter(has_status(DeviceStatus::Connected)),
    {
        self.get_devices_by_status(DeviceStatus::Connected)
    }

    /// Asks to move the device `device_id` to `status` at the time `now`,
    /// and says how the request ended. The status changes, and `last_seen`
    /// with it, only along an edge of the graph. `last_seen` moves on to
    /// `now` and never back: a `now` before it leaves it where it is.
    pub fn try_update_status(&mut self, device_id: &str, status: DeviceStatus, now: u64) -> (r:
        StatusUpdate)
        ensures
            final(self)@ == with_status(old(self)@, device_id@, status, now),
            r == status_outcome(old(self)@, device_id@, status),
            ids_distinct(final(self)@),
    {
        let found = self.position(device_id);
        let mut devices = self.take_devices();
        let r = match found {
            Some(i) => {
                if devices[i].status.allows(status) {
                    devices[i].status = status;
                    if now >= devices[i].last_seen {
                        devices[i].last_seen = now;
                    }
                    StatusUpdate::Applied
                } else {
                    StatusUpdate::Rejected
                }
            },
            None => StatusUpdate::UnknownDevice,
        };
        assert(devices@.map_values(|d: ConnectedDevice| d@) =~= with_status(
            old(self)@,
            device_id@,
            status,
            now,
        ));
        self.devices = devices;
        r
    }

    /// Moves the device `device_id` to `status` at the time `now`, where
    /// the graph allows it, and moves its `last_seen` on to `now`. An
    /// unknown id or a move that the graph does not allow changes nothing.
    pub fn update_device_status_at(&mut self, device_id: &str, status: DeviceStatus, now: u64)
        ensures
            final(self)@ == with_status(old(self)@, device_id@, status, now),
            ids_distinct(final(self)@),
    {
        let _ = self.try_update_status(device_id, status, now);
    }

    /// Moves the device `device_id` to `status`, where the graph allows it,
    /// and moves its `last_seen` on to the time of the call: the seconds
    /// since the Unix epoch, or 0 where the clock stands before it. A clock
    /// that reads less than `last_seen` leaves `last_seen` where it is.
    pub fn update_device_status(&mut self, device_id: &str, status: DeviceStatus)
        ensures
            exists|now: u64| final(self)@ == with_status(old(self)@, device_id@, status, now),
            ids_distinct(final(self)@),
    {
        let now = clock_seconds();
        self.update_device_status_at(device_id, status, now);
    }
}

impl Default for DeviceManager {
    fn default() -> (r: Self)
        ensures
            r@ == Seq::<DeviceView>::empty(),
    {
        DeviceManager::new()
    }
}

/// The time of the call: the seconds since the Unix epoch, or 0 where the
/// clock stands before it. Nothing is known of the value.
pub(crate) fn clock_seconds() -> u64 {
    match unix_seconds() {
        Some(seconds) => seconds,
        None => 0,
    }
}

/// `std::time::SystemTime::now`, as whole seconds since the Unix epoch;
/// `None` where the clock stands before the epoch. Nothing is claimed of
/// the value: it differs from call to call.
#[verifier::external_body]
fn unix_seconds() -> Option<u64> {
    match std::time::SystemTime::now().duration_since(std::time::UNIX_EPOCH) {
        Ok(d) => Some(d.as_secs()),
        Err(_) => None,
    }
}

} // verus!
