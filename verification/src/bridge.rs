//! The bridge coordinator: which local port forwards to which device.
//!
//! A port is reserved before the bridging tool is run and released when
//! the tool fails or the bridge is torn down, so that no two devices ever
//! hold the same local port.

use vstd::prelude::*;

verus! {

/// Why a bridge could not be set up.
#[derive(Debug, Clone, Copy, PartialEq, Eq, Structural)]
pub enum BridgeError {
    /// The bridging tool could not reach the device.
    Unreachable,
    /// The device holds a port already, or every port of the pool is held.
    AlreadyBound,
    /// The bridging tool could not be run.
    ExternalToolFailure,
}

/// The words that tell a `BridgeError` to a person.
pub open spec fn error_message(e: BridgeError) -> Seq<char> {
    match e {
        BridgeError::Unreachable => "device unreachable"@,
        BridgeError::AlreadyBound => "device or port already bound"@,
        BridgeError::ExternalToolFailure => "bridging tool failed"@,
    }
}

impl BridgeError {
    /// The error in words.
    pub fn message(&self) -> (m: &'static str)
        ensures
            m@ == error_message(*self),
    {
        match self {
            BridgeError::Unreachable => "device unreachable",
            BridgeError::AlreadyBound => "device or port already bound",
            BridgeError::ExternalToolFailure => "bridging tool failed",
        }
    }
}

/// How a run of the bridging tool ended.
#[derive(Debug, Clone, Copy, PartialEq, Eq, Structural)]
pub enum ToolOutcome {
    /// The tool ran and reported success.
    Done,
    /// The tool ran and reported failure.
    DeviceUnreachable,
    /// The tool could not be run.
    Failed,
}

/// The outcome of a run, from whether the tool started and whether it
/// reported success.
pub open spec fn outcome_of(started: bool, succeeded: bool) -> ToolOutcome {
    if !started {
        ToolOutcome::Failed
    } else if succeeded {
        ToolOutcome::Done
    } else {
        ToolOutcome::DeviceUnreachable
    }
}

/// The error that a run which did not end well is told as.
pub open spec fn failure_of(outcome: ToolOutcome) -> BridgeError {
    match outcome {
        ToolOutcome::Done => BridgeError::Unreachable,
        ToolOutcome::DeviceUnreachable => BridgeError::Unreachable,
        ToolOutcome::Failed => BridgeError::ExternalToolFailure,
    }
}

/// A run as a result: success, or the error that tells its failure.
pub open spec fn result_of(outcome: ToolOutcome) -> Result<(), BridgeError> {
    if outcome == ToolOutcome::Done {
        Ok(())
    } else {
        Err(failure_of(outcome))
    }
}

impl ToolOutcome {
    /// The run as a result: success, or the error that tells its failure.
    pub fn result(self) -> (r: Result<(), BridgeError>)
        ensures
            r == result_of(self),
    {
        match self {
            ToolOutcome::Done => Ok(()),
            ToolOutcome::DeviceUnreachable => Err(BridgeError::Unreachable),
            ToolOutcome::Failed => Err(BridgeError::ExternalToolFailure),
        }
    }

    /// Classifies a run of the bridging tool.
    pub fn from_run(started: bool, succeeded: bool) -> (r: ToolOutcome)
        ensures
            r == outcome_of(started, succeeded),
    {
        if !started {
            ToolOutcome::Failed
        } else if succeeded {
            ToolOutcome::Done
        } else {
            ToolOutcome::DeviceUnreachable
        }
    }
}

/// An established bridge.
#[derive(Debug, PartialEq, Eq)]
pub struct ConnectionHandle {
    pub device_id: String,
    pub local_port: u16,
}

/// One binding: the device and the local port that it holds.
pub struct BindingView {
    pub device_id: Seq<char>,
    pub local_port: u16,
}

/// The mathematical value of a coordinator.
pub struct CoordinatorView {
    /// The lowest port of the pool.
    pub first_port: u16,
    /// The highest port of the pool; the pool is empty where it lies below
    /// the lowest.
    pub last_port: u16,
    /// The bindings, in the order in which they were made.
    pub bindings: Seq<BindingView>,
}

/// Some binding of `s` is for the device `id`.
pub open spec fn is_bound(s: Seq<BindingView>, id: Seq<char>) -> bool {
    exists|i: int| 0 <= i < s.len() && s[i].device_id == id
}

/// The place of the binding for the device `id`, where there is one.
pub open spec fn binding_index(s: Seq<BindingView>, id: Seq<char>) -> int {
    choose|i: int| 0 <= i < s.len() && s[i].device_id == id
}

/// The port that the device `id` holds, if any.
pub open spec fn port_of(s: Seq<BindingView>, id: Seq<char>) -> Option<u16> {
    if is_bound(s, id) {
        Some(s[binding_index(s, id)].local_port)
    } else {
        None
    }
}

/// Some binding of `s` holds the port `port`.
pub open spec fn port_taken(s: Seq<BindingView>, port: u16) -> bool {
    exists|i: int| 0 <= i < s.len() && s[i].local_port == port
}

/// No device occurs twice, no port occurs twice, and every port lies in
/// the pool.
pub open spec fn bindings_ok(c: CoordinatorView) -> bool {
    &&& forall|i: int, j: int|
        0 <= i < j < c.bindings.len() ==> c.bindings[i].device_id != c.bindings[j].device_id
    &&& forall|i: int, j: int|
        0 <= i < j < c.bindings.len() ==> c.bindings[i].local_port != c.bindings[j].local_port
    &&& forall|i: int|
        0 <= i < c.bindings.len() ==> c.first_port <= (#[trigger] c.bindings[i]).local_port
            <= c.last_port
}

/// `port` is the lowest port of the pool that no binding holds.
pub open spec fn is_lowest_free(c: CoordinatorView, port: u16) -> bool {
    &&& c.first_port <= port <= c.last_port
    &&& !port_taken(c.bindings, port)
    &&& forall|q: u16| c.first_port <= q < port ==> port_taken(c.bindings, q)
}

/// Every port of the pool is held.
pub open spec fn pool_exhausted(c: CoordinatorView) -> bool {
    forall|q: u16| c.first_port <= q <= c.last_port ==> port_taken(c.bindings, q)
}

/// The bindings without the one for the device `id`.
pub open spec fn released(s: Seq<BindingView>, id: Seq<char>) -> Seq<BindingView> {
    if is_bound(s, id) {
        s.remove(binding_index(s, id))
    } else {
        s
    }
}

struct Binding {
    device_id: String,
    local_port: u16,
}

impl View for Binding {
    type V = BindingView;

    closed spec fn view(&self) -> BindingView {
        BindingView { device_id: self.device_id@, local_port: self.local_port }
    }
}

/// The coordinator.
pub struct BridgeCoordinator {
    first_port: u16,
    last_port: u16,
    bindings: Vec<Binding>,
}

impl View for BridgeCoordinator {
    type V = CoordinatorView;

    closed spec fn view(&self) -> CoordinatorView {
        CoordinatorView {
            first_port: self.first_port,
            last_port: self.last_port,
            bindings: self.bindings@.map_values(|b: Binding| b@),
        }
    }
}

proof fn lemma_binding_index(c: CoordinatorView, i: int)
    requires
        bindings_ok(c),
        0 <= i < c.bindings.len(),
    ensures
        is_bound(c.bindings, c.bindings[i].device_id),
        binding_index(c.bindings, c.bindings[i].device_id) == i,
        port_taken(c.bindings, c.bindings[i].local_port),
{
    let s = c.bindings;
    let j = binding_index(s, s[i].device_id);
    assert(0 <= j < s.len() && s[j].device_id == s[i].device_id);
    if j < i {
        assert(s[j].device_id != s[i].device_id);
    } else if i < j {
        assert(s[i].device_id != s[j].device_id);
    }
}

impl BridgeCoordinator {
    /// What holds of every coordinator.
    #[verifier::type_invariant]
    pub closed spec fn well_formed(self) -> bool {
        bindings_ok(self@)
    }

    /// In a coordinator no device and no port occurs twice, and every
    /// port lies in the pool.
    pub proof fn lemma_well_formed(self)
        requires
            self.well_formed(),
        ensures
            bindings_ok(self@),
    {
    }

    /// A coordinator without bindings, over the ports from `first_port`
    /// to `last_port`, both included.
    pub fn new(first_port: u16, last_port: u16) -> (r: Self)
        ensures
            r@ == (CoordinatorView { first_port, last_port, bindings: Seq::empty() }),
    {
        let r = BridgeCoordinator { first_port, last_port, bindings: Vec::new() };
        assert(r@.bindings =~= Seq::<BindingView>::empty());
        r
    }

    fn position(&self, device_id: &str) -> (r: Option<usize>)
        ensures
            bindings_ok(self@),
            match r {
                Some(i) => i < self@.bindings.len() && is_bound(self@.bindings, device_id@)
                    && binding_index(self@.bindings, device_id@) == i,
                None => !is_bound(self@.bindings, device_id@),
            },
    {
        proof {
            use_type_invariant(self);
        }
        let key = device_id.to_owned();
        let mut i: usize = 0;
        while i < self.bindings.len()
            invariant
                key@ == device_id@,
                i <= self.bindings.len(),
                self@.bindings.len() == self.bindings.len(),
                bindings_ok(self@),
                forall|k: int| 0 <= k < i ==> self@.bindings[k].device_id != device_id@,
            decreases self.bindings.len() - i,
        {
            if self.bindings[i].device_id == key {
                proof {
                    lemma_binding_index(self@, i as int);
                }
                return Some(i);
            }
            i += 1;
        }
        None
    }

    fn holds_port(&self, port: u16) -> (r: bool)
        ensures
            r == port_taken(self@.bindings, port),
    {
        let mut i: usize = 0;
        while i < self.bindings.len()
            invariant
                i <= self.bindings.len(),
                self@.bindings.len() == self.bindings.len(),
                forall|k: int| 0 <= k < i ==> self@.bindings[k].local_port != port,
            decreases self.bindings.len() - i,
        {
            if self.bindings[i].local_port == port {
                assert(self@.bindings[i as int].local_port == port);
                return true;
            }
            i += 1;
        }
        false
    }

    fn lowest_free(&self) -> (r: Option<u16>)
        ensures
            match r {
                Some(p) => is_lowest_free(self@, p),
                None => pool_exhausted(self@),
            },
    {
        if self.first_port > self.last_port {
            return None;
        }
        let mut p: u16 = self.first_port;
        loop
            invariant
                self.first_port <= p <= self.last_port,
                self@.first_port == self.first_port,
                self@.last_port == self.last_port,
                forall|q: u16| self.first_port <= q < p ==> port_taken(self@.bindings, q),
            decreases self.last_port - p,
        {
            if !self.holds_port(p) {
                return Some(p);
            }
            if p == self.last_port {
                return None;
            }
            p += 1;
        }
    }

    fn take_bindings(&mut self) -> (bindings: Vec<Binding>)
        ensures
            bindings == old(self).bindings,
            bindings_ok(old(self)@),
            final(self).first_port == old(self).first_port,
            final(self).last_port == old(self).last_port,
            final(self).bindings@.len() == 0,
    {
        proof {
            use_type_invariant(&*self);
        }
        let mut bindings: Vec<Binding> = Vec::new();
        core::mem::swap(&mut self.bindings, &mut bindings);
        bindings
    }

    /// The port that the device `device_id` holds, if any.
    pub fn local_port(&self, device_id: &str) -> (r: Option<u16>)
        ensures
            r == port_of(self@.bindings, device_id@),
            bindings_ok(self@),
    {
        match self.position(device_id) {
            Some(i) => Some(self.bindings[i].local_port),
            None => None,
        }
    }

    /// Reserves the lowest free port of the pool for the device
    /// `device_id`, before the bridging tool is run. Fails, and changes
    /// nothing, where the device holds a port already or no port is free.
    pub fn reserve(&mut self, device_id: &str) -> (r: Result<u16, BridgeError>)
        ensures
            bindings_ok(final(self)@),
            final(self)@.first_port == old(self)@.first_port,
            final(self)@.last_port == old(self)@.last_port,
            match r {
                Ok(port) => {
                    &&& !is_bound(old(self)@.bindings, device_id@)
                    &&& is_lowest_free(old(self)@, port)
                    &&& final(self)@.bindings == old(self)@.bindings.push(
                        BindingView { device_id: device_id@, local_port: port },
                    )
                },
                Err(e) => {
                    &&& e == BridgeError::AlreadyBound
                    &&& is_bound(old(self)@.bindings, device_id@) || pool_exhausted(old(self)@)
                    &&& final(self)@ == old(self)@
                },
            },
    {
        if self.position(device_id).is_some() {
            return Err(BridgeError::AlreadyBound);
        }
        match self.lowest_free() {
            Some(port) => {
                let mut bindings = self.take_bindings();
                let ghost before = bindings@.map_values(|b: Binding| b@);
                bindings.push(Binding { device_id: device_id.to_owned(), local_port: port });
                proof {
                    let after = bindings@.map_values(|b: Binding| b@);
                    assert(after =~= before.push(
                        BindingView { device_id: device_id@, local_port: port },
                    ));
                    assert forall|i: int, j: int| 0 <= i < j < after.len() implies after[i].device_id
                        != after[j].device_id && after[i].local_port != after[j].local_port by {
                        if j < before.len() {
                            assert(before[i].device_id != before[j].device_id);
                            assert(before[i].local_port != before[j].local_port);
                        } else {
                            assert(before[i].device_id != device_id@);
                            assert(before[i].local_port != port);
                        }
                    }
                }
                self.bindings = bindings;
                Ok(port)
            },
            None => Err(BridgeError::AlreadyBound),
        }
    }

    /// Takes note of how the bridging tool ended for the device
    /// `device_id`. On success the binding stays, and the handle of the
    /// bridge is returned. On failure the port is released. A device
    /// without a reserved port cannot be bridged.
    pub fn complete(&mut self, device_id: &str, outcome: ToolOutcome) -> (r: Result<
        ConnectionHandle,
        BridgeError,
    >)
        ensures
            bindings_ok(final(self)@),
            final(self)@.first_port == old(self)@.first_port,
            final(self)@.last_port == old(self)@.last_port,
            match r {
                Ok(handle) => {
                    &&& outcome == ToolOutcome::Done
                    &&& port_of(old(self)@.bindings, device_id@) == Some(handle.local_port)
                    &&& handle.device_id@ == device_id@
                    &&& final(self)@ == old(self)@
                },
                Err(e) => {
                    &&& e == failure_of(outcome)
                    &&& outcome == ToolOutcome::Done ==> !is_bound(old(self)@.bindings, device_id@)
                    &&& final(self)@.bindings == released(old(self)@.bindings, device_id@)
                },
            },
    {
        match outcome {
            ToolOutcome::Done => match self.local_port(device_id) {
                Some(local_port) => Ok(
                    ConnectionHandle { device_id: device_id.to_owned(), local_port },
                ),
                None => Err(BridgeError::Unreachable),
            },
            ToolOutcome::DeviceUnreachable => {
                let _ = self.disconnect(device_id);
                Err(BridgeError::Unreachable)
            },
            ToolOutcome::Failed => {
                let _ = self.disconnect(device_id);
                Err(BridgeError::ExternalToolFailure)
            },
        }
    }

    /// Releases the port of the device `device_id` and returns it, so that
    /// its forwarding can be removed. A device without a port is left as
    /// it is: disconnecting twice does no harm.
    pub fn disconnect(&mut self, device_id: &str) -> (r: Option<u16>)
        ensures
            bindings_ok(final(self)@),
            final(self)@.first_port == old(self)@.first_port,
            final(self)@.last_port == old(self)@.last_port,
            r == port_of(old(self)@.bindings, device_id@),
            final(self)@.bindings == released(old(self)@.bindings, device_id@),
            !is_bound(final(self)@.bindings, device_id@),
    {
        let found = self.position(device_id);
        let mut bindings = self.take_bindings();
        let ghost before = bindings@.map_values(|b: Binding| b@);
        let r = match found {
            Some(i) => {
                let gone = bindings.remove(i);
                proof {
                    let after = bindings@.map_values(|b: Binding| b@);
                    let k = i as int;
                    assert(after =~= before.remove(k));
                    assert forall|x: int| 0 <= x < after.len() implies after[x] == before[if x < k {
                        x
                    } else {
                        x + 1
                    }] by {}
                    assert forall|x: int, y: int| 0 <= x < y < after.len() implies after[x].device_id
                        != after[y].device_id && after[x].local_port
                        != after[y].local_port by {
                        let bx = if x < k { x } else { x + 1 };
                        let by_ = if y < k { y } else { y + 1 };
                        assert(before[bx].device_id != before[by_].device_id);
                        assert(before[bx].local_port != before[by_].local_port);
                    }
                    assert forall|x: int| 0 <= x < after.len() implies after[x].device_id
                        != device_id@ by {
                        let bx = if x < k { x } else { x + 1 };
                        if bx < k {
                            assert(before[bx].device_id != before[k].device_id);
                        } else {
                            assert(before[k].device_id != before[bx].device_id);
                        }
                    }
                }
                Some(gone.local_port)
            },
            None => None,
        };
        self.bindings = bindings;
        r
    }
}

/// The law of the port table: whatever was reserved and released, two
/// bindings for different devices never hold the same port.
pub proof fn lemma_ports_are_exclusive(c: CoordinatorView, a: Seq<char>, b: Seq<char>)
    requires
        bindings_ok(c),
        is_bound(c.bindings, a),
        is_bound(c.bindings, b),
        a != b,
    ensures
        port_of(c.bindings, a) != port_of(c.bindings, b),
{
    let i = binding_index(c.bindings, a);
    let j = binding_index(c.bindings, b);
    if i < j {
        assert(c.bindings[i].local_port != c.bindings[j].local_port);
    } else {
        assert(c.bindings[j].local_port != c.bindings[i].local_port);
    }
}

} // verus!
