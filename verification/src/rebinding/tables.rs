//! The two small tables of the rebinding state: bindings by kind, and default
//! endpoints by route.

use vstd::prelude::*;

use super::model::BindingModel;
use super::{
    BindingKind, BindingSelection, CaptureBinding, CaptureBindingState, DataFlow, DeviceRole,
    EndpointId,
};

verus! {

/// At most one binding of each kind, found by its kind.
#[derive(Debug)]
pub struct BindingTable {
    microphone: Option<CaptureBinding>,
    endpoint_loopback: Option<CaptureBinding>,
    process_loopback: Option<CaptureBinding>,
}

impl View for BindingTable {
    type V = Map<BindingKind, BindingModel>;

    closed spec fn view(&self) -> Map<BindingKind, BindingModel> {
        Map::new(|kind: BindingKind| self.slot(kind) is Some, |kind: BindingKind| self.slot(kind)->0@)
    }
}

impl BindingTable {
    spec fn slot(&self, kind: BindingKind) -> Option<CaptureBinding> {
        match kind {
            BindingKind::Microphone => self.microphone,
            BindingKind::EndpointLoopback => self.endpoint_loopback,
            BindingKind::ProcessLoopback => self.process_loopback,
        }
    }

    #[verifier::type_invariant]
    spec fn keyed_by_kind(&self) -> bool {
        forall|kind: BindingKind| #[trigger]
            self.slot(kind) is Some ==> self.slot(kind)->0.kind == kind
    }

    pub fn new() -> (table: BindingTable)
        ensures
            table@ == Map::<BindingKind, BindingModel>::empty(),
    {
        let table = BindingTable {
            microphone: None,
            endpoint_loopback: None,
            process_loopback: None,
        };
        assert(table@ =~= Map::empty());
        table
    }

    /// The binding of this kind, if there is one.
    pub fn get(&self, kind: BindingKind) -> (binding: Option<&CaptureBinding>)
        ensures
            match binding {
                Some(binding) => {
                    &&& self@.contains_key(kind)
                    &&& binding@ == self@[kind]
                    &&& binding.kind == kind
                },
                None => !self@.contains_key(kind),
            },
    {
        proof {
            use_type_invariant(self);
            assert(self.slot(kind) is Some ==> self.slot(kind)->0.kind == kind);
        }
        match kind {
            BindingKind::Microphone => self.microphone.as_ref(),
            BindingKind::EndpointLoopback => self.endpoint_loopback.as_ref(),
            BindingKind::ProcessLoopback => self.process_loopback.as_ref(),
        }
    }

    /// Stores a binding under its own kind, in place of any that was there.
    pub fn insert(&mut self, binding: CaptureBinding)
        ensures
            final(self)@ == old(self)@.insert(binding.kind, binding@),
    {
        proof {
            use_type_invariant(&*self);
            assert(self.slot(BindingKind::Microphone) == self.microphone);
            assert(self.slot(BindingKind::EndpointLoopback) == self.endpoint_loopback);
            assert(self.slot(BindingKind::ProcessLoopback) == self.process_loopback);
        }
        match binding.kind {
            BindingKind::Microphone => {
                self.microphone = Some(binding);
            },
            BindingKind::EndpointLoopback => {
                self.endpoint_loopback = Some(binding);
            },
            BindingKind::ProcessLoopback => {
                self.process_loopback = Some(binding);
            },
        }
        assert(self@ =~= old(self)@.insert(binding.kind, binding@));
    }

    /// Takes the binding of this kind out of the table.
    fn take(&mut self, kind: BindingKind) -> (binding: CaptureBinding)
        requires
            old(self)@.contains_key(kind),
        ensures
            binding@ == old(self)@[kind],
            binding.kind == kind,
            final(self)@ == old(self)@.remove(kind),
    {
        proof {
            use_type_invariant(&*self);
            assert(self.slot(BindingKind::Microphone) == self.microphone);
            assert(self.slot(BindingKind::EndpointLoopback) == self.endpoint_loopback);
            assert(self.slot(BindingKind::ProcessLoopback) == self.process_loopback);
        }
        let mut taken: Option<CaptureBinding> = None;
        match kind {
            BindingKind::Microphone => {
                std::mem::swap(&mut taken, &mut self.microphone);
            },
            BindingKind::EndpointLoopback => {
                std::mem::swap(&mut taken, &mut self.endpoint_loopback);
            },
            BindingKind::ProcessLoopback => {
                std::mem::swap(&mut taken, &mut self.process_loopback);
            },
        }
        assert(self@ =~= old(self)@.remove(kind));
        taken.unwrap()
    }

    pub(super) fn set_lifecycle(&mut self, kind: BindingKind, lifecycle: CaptureBindingState)
        requires
            old(self)@.contains_key(kind),
        ensures
            final(self)@ == old(self)@.insert(
                kind,
                (BindingModel { lifecycle: lifecycle@, ..old(self)@[kind] }),
            ),
    {
        let mut binding: CaptureBinding = self.take(kind);
        binding.lifecycle = lifecycle;
        self.insert(binding);
        assert(self@ =~= old(self)@.insert(
            kind,
            BindingModel { lifecycle: lifecycle@, ..old(self)@[kind] },
        ));
    }

    pub(super) fn set_attempt(
        &mut self,
        kind: BindingKind,
        lifecycle: CaptureBindingState,
        attempt: u32,
    )
        requires
            old(self)@.contains_key(kind),
        ensures
            final(self)@ == old(self)@.insert(
                kind,
                (BindingModel {
                    lifecycle: lifecycle@,
                    retry_attempt: attempt as nat,
                    ..old(self)@[kind]
                }),
            ),
    {
        let mut binding: CaptureBinding = self.take(kind);
        binding.lifecycle = lifecycle;
        binding.retry_attempt = attempt;
        self.insert(binding);
        assert(self@ =~= old(self)@.insert(
            kind,
            BindingModel {
                lifecycle: lifecycle@,
                retry_attempt: attempt as nat,
                ..old(self)@[kind]
            },
        ));
    }

    pub(super) fn set_selection(&mut self, kind: BindingKind, selection: BindingSelection)
        requires
            old(self)@.contains_key(kind),
        ensures
            final(self)@ == old(self)@.insert(
                kind,
                (BindingModel { selection: selection@, ..old(self)@[kind] }),
            ),
    {
        let mut binding: CaptureBinding = self.take(kind);
        binding.selection = selection;
        self.insert(binding);
        assert(self@ =~= old(self)@.insert(
            kind,
            BindingModel { selection: selection@, ..old(self)@[kind] },
        ));
    }
}

/// The default endpoint of each route that has been heard of; `None` stands for "the
/// system has no default there".
#[derive(Debug)]
pub struct RouteTable {
    capture_console: Option<Option<EndpointId>>,
    capture_multimedia: Option<Option<EndpointId>>,
    capture_communications: Option<Option<EndpointId>>,
    render_console: Option<Option<EndpointId>>,
    render_multimedia: Option<Option<EndpointId>>,
    render_communications: Option<Option<EndpointId>>,
}

/// The text of an optional endpoint id.
pub open spec fn endpoint_text(endpoint_id: Option<EndpointId>) -> Option<Seq<char>> {
    match endpoint_id {
        Some(endpoint_id) => Some(endpoint_id@),
        None => None,
    }
}

impl View for RouteTable {
    type V = Map<(DataFlow, DeviceRole), Option<Seq<char>>>;

    closed spec fn view(&self) -> Map<(DataFlow, DeviceRole), Option<Seq<char>>> {
        Map::new(
            |route: (DataFlow, DeviceRole)| self.slot(route.0, route.1) is Some,
            |route: (DataFlow, DeviceRole)| endpoint_text(self.slot(route.0, route.1)->0),
        )
    }
}

impl RouteTable {
    spec fn slot(&self, flow: DataFlow, role: DeviceRole) -> Option<Option<EndpointId>> {
        match (flow, role) {
            (DataFlow::Capture, DeviceRole::Console) => self.capture_console,
            (DataFlow::Capture, DeviceRole::Multimedia) => self.capture_multimedia,
            (DataFlow::Capture, DeviceRole::Communications) => self.capture_communications,
            (DataFlow::Render, DeviceRole::Console) => self.render_console,
            (DataFlow::Render, DeviceRole::Multimedia) => self.render_multimedia,
            (DataFlow::Render, DeviceRole::Communications) => self.render_communications,
        }
    }

    pub fn new() -> (table: RouteTable)
        ensures
            table@ == Map::<(DataFlow, DeviceRole), Option<Seq<char>>>::empty(),
    {
        let table = RouteTable {
            capture_console: None,
            capture_multimedia: None,
            capture_communications: None,
            render_console: None,
            render_multimedia: None,
            render_communications: None,
        };
        assert(table@ =~= Map::empty());
        table
    }

    /// The default endpoint of a route, where one is known.
    pub fn get(&self, flow: DataFlow, role: DeviceRole) -> (endpoint_id: Option<&EndpointId>)
        ensures
            match endpoint_id {
                Some(endpoint_id) => self@.contains_key((flow, role)) && self@[(flow, role)]
                    == Some(endpoint_id@),
                None => self@.contains_key((flow, role)) ==> self@[(flow, role)] is None,
            },
    {
        let slot: &Option<Option<EndpointId>> = match (flow, role) {
            (DataFlow::Capture, DeviceRole::Console) => &self.capture_console,
            (DataFlow::Capture, DeviceRole::Multimedia) => &self.capture_multimedia,
            (DataFlow::Capture, DeviceRole::Communications) => &self.capture_communications,
            (DataFlow::Render, DeviceRole::Console) => &self.render_console,
            (DataFlow::Render, DeviceRole::Multimedia) => &self.render_multimedia,
            (DataFlow::Render, DeviceRole::Communications) => &self.render_communications,
        };
        match slot {
            Some(endpoint_id) => endpoint_id.as_ref(),
            None => None,
        }
    }

    /// Records the default endpoint of a route.
    pub fn insert(&mut self, route: (DataFlow, DeviceRole), endpoint_id: Option<EndpointId>)
        ensures
            final(self)@ == old(self)@.insert(route, endpoint_text(endpoint_id)),
    {
        let slot: Option<Option<EndpointId>> = Some(endpoint_id);
        match route {
            (DataFlow::Capture, DeviceRole::Console) => {
                self.capture_console = slot;
            },
            (DataFlow::Capture, DeviceRole::Multimedia) => {
                self.capture_multimedia = slot;
            },
            (DataFlow::Capture, DeviceRole::Communications) => {
                self.capture_communications = slot;
            },
            (DataFlow::Render, DeviceRole::Console) => {
                self.render_console = slot;
            },
            (DataFlow::Render, DeviceRole::Multimedia) => {
                self.render_multimedia = slot;
            },
            (DataFlow::Render, DeviceRole::Communications) => {
                self.render_communications = slot;
            },
        }
        assert(self@ =~= old(self)@.insert(route, endpoint_text(endpoint_id)));
    }
}

} // verus!
