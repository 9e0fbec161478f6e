//! The registry: every device that was discovered, in the order found, and
//! the device that has the focus. It plans adjustments of the focused control,
//! settles them once the write is over, and takes in the readings of a resync.

use crate::binding::{
    lemma_binding_failed_write_changes_nothing, lemma_binding_focus_moves,
    lemma_binding_focus_saturates, lemma_binding_resynced_wf, lemma_binding_settled_wf,
    lemma_discovered_binding_wf,
};
use crate::binding::{
    reading_at, report_views, BindingView, DeviceBinding, ReadRequest, ReadView,
};
use crate::control::lemma_at_bound_nothing_changes;
use crate::control::{ControlDescriptor, ControlView, Direction, ReportedControl, WriteOutcome};
use crate::presentation::{Gauge, Screen};
use vstd::prelude::*;

verus! {

/// What came of trying one device during discovery.
#[derive(Debug)]
pub enum ProbeOutcome {
    /// The device could not be opened.
    Unreachable,
    /// The device opened but would not list its controls.
    Unlisted,
    /// The device opened and listed these controls, in this order.
    Listed(Vec<ReportedControl>),
}

/// One device that was tried during discovery.
#[derive(Debug)]
pub struct Probe {
    pub identifier: String,
    pub outcome: ProbeOutcome,
}

/// A write that the caller is to perform: on the device `identifier`, set
/// the control `id` to `value`.
#[derive(Debug)]
pub struct WriteRequest {
    pub identifier: String,
    pub id: u32,
    pub value: i64,
}

/// The mathematical content of a [`WriteRequest`].
pub struct WriteView {
    pub identifier: Seq<char>,
    pub id: u32,
    pub value: int,
}

impl View for WriteRequest {
    type V = WriteView;

    open spec fn view(&self) -> WriteView {
        WriteView { identifier: self.identifier@, id: self.id, value: self.value as int }
    }
}

/// The mathematical content of a [`Registry`].
pub struct RegistryView {
    pub devices: Seq<BindingView>,
    pub focused_device: int,
}

/// The binding that a probe gives rise to: none for a device that could not
/// be opened, one without controls for a device that would not list them.
pub open spec fn probed_binding(probe: Probe) -> Option<BindingView> {
    match probe.outcome {
        ProbeOutcome::Unreachable => None,
        ProbeOutcome::Unlisted => Some(BindingView::discovered(probe.identifier@, Seq::empty())),
        ProbeOutcome::Listed(reports) => Some(
            BindingView::discovered(probe.identifier@, report_views(reports@)),
        ),
    }
}

/// The bindings of the probes that opened, in the order of the probes.
pub open spec fn probed_bindings(probes: Seq<Probe>) -> Seq<BindingView>
    decreases probes.len(),
{
    if probes.len() == 0 {
        Seq::empty()
    } else {
        let rest = probed_bindings(probes.drop_last());
        match probed_binding(probes.last()) {
            Some(binding) => rest.push(binding),
            None => rest,
        }
    }
}

/// The requests of `requests`, each by its view.
pub open spec fn read_views(requests: Seq<ReadRequest>) -> Seq<ReadView> {
    Seq::new(requests.len(), |i: int| requests[i]@)
}

/// The readings that belong to the device at `index`: rows are matched to
/// devices by position, and a device without a row has no readings.
pub open spec fn readings_at(readings: Seq<Vec<Option<i64>>>, index: int) -> Seq<Option<i64>> {
    if 0 <= index < readings.len() {
        readings[index]@
    } else {
        Seq::empty()
    }
}

impl RegistryView {
    /// The focus lies on one of the devices, or at zero where there is none.
    pub open spec fn focus_valid(self) -> bool {
        if self.devices.len() == 0 {
            self.focused_device == 0
        } else {
            0 <= self.focused_device < self.devices.len()
        }
    }

    /// What holds of every registry: each binding is well formed, and the
    /// focus is valid.
    pub open spec fn wf(self) -> bool {
        &&& forall|i: int| 0 <= i < self.devices.len() ==> (#[trigger] self.devices[i]).wf()
        &&& self.focus_valid()
    }

    /// The registry that discovery makes of `probes`, with the focus on the
    /// first device.
    pub open spec fn discovered(probes: Seq<Probe>) -> RegistryView {
        RegistryView { devices: probed_bindings(probes), focused_device: 0 }
    }

    /// Whether `other` is this registry but for the values of its controls:
    /// the same devices with the same controls, bounds, steps and labels, and
    /// every focus where it was.
    pub open spec fn same_but_values(self, other: RegistryView) -> bool {
        &&& other.focused_device == self.focused_device
        &&& other.devices.len() == self.devices.len()
        &&& forall|d: int|
            0 <= d < self.devices.len() ==> (#[trigger] self.devices[d]).same_but_values(
                other.devices[d],
            )
    }

    /// Whether `other` is this registry but for its focuses: the same
    /// devices with the same controls and values.
    pub open spec fn same_but_focus(self, other: RegistryView) -> bool {
        &&& other.devices.len() == self.devices.len()
        &&& forall|d: int|
            0 <= d < self.devices.len() ==> (#[trigger] self.devices[d]).same_but_focus(
                other.devices[d],
            )
    }

    /// The device that has the focus, if there is any device.
    pub open spec fn focused_binding(self) -> Option<BindingView> {
        if 0 <= self.focused_device < self.devices.len() {
            Some(self.devices[self.focused_device])
        } else {
            None
        }
    }

    /// The control that has the focus on the focused device, if there is one.
    pub open spec fn focused_control(self) -> Option<ControlView> {
        match self.focused_binding() {
            Some(binding) => binding.focused(),
            None => None,
        }
    }

    /// This registry with `binding` in place of the focused device.
    pub open spec fn with_focused_binding(self, binding: BindingView) -> RegistryView {
        RegistryView { devices: self.devices.update(self.focused_device, binding), ..self }
    }

    /// This registry with the focus one device further, or unchanged where
    /// the focus is on the last device or there is none.
    pub open spec fn next_device(self) -> RegistryView {
        if self.focused_device + 1 < self.devices.len() {
            RegistryView { focused_device: self.focused_device + 1, ..self }
        } else {
            self
        }
    }

    /// This registry with the focus one device back, or unchanged where the
    /// focus is on the first device.
    pub open spec fn previous_device(self) -> RegistryView {
        if self.focused_device > 0 {
            RegistryView { focused_device: self.focused_device - 1, ..self }
        } else {
            self
        }
    }

    /// This registry with the focus of the focused device one control further.
    pub open spec fn next_control(self) -> RegistryView {
        match self.focused_binding() {
            Some(binding) => self.with_focused_binding(binding.next_control()),
            None => self,
        }
    }

    /// This registry with the focus of the focused device one control back.
    pub open spec fn previous_control(self) -> RegistryView {
        match self.focused_binding() {
            Some(binding) => self.with_focused_binding(binding.previous_control()),
            None => self,
        }
    }

    /// The write that an adjustment of the focused control in `direction`
    /// asks for, or `None` where there is no focused control or its value
    /// already stands at that bound.
    pub open spec fn pending_write(self, direction: Direction) -> Option<WriteView> {
        match self.focused_binding() {
            Some(binding) => match binding.pending_write(direction) {
                Some(write) => Some(
                    WriteView { identifier: binding.identifier, id: write.0, value: write.1 },
                ),
                None => None,
            },
            None => None,
        }
    }

    /// This registry after an adjustment of the focused control in
    /// `direction` whose write ended in `outcome`.
    pub open spec fn settled(self, direction: Direction, outcome: WriteOutcome) -> RegistryView {
        match self.focused_binding() {
            Some(binding) => self.with_focused_binding(binding.settled(direction, outcome)),
            None => self,
        }
    }

    /// The reads that a resync asks for: one request per device, in the order
    /// of the devices.
    pub open spec fn read_plan(self) -> Seq<ReadView> {
        Seq::new(self.devices.len(), |d: int| self.devices[d].read_request())
    }

    /// This registry after every control of every device was refreshed with
    /// its reading.
    pub open spec fn resynced(self, readings: Seq<Vec<Option<i64>>>) -> RegistryView {
        RegistryView {
            devices: Seq::new(
                self.devices.len(),
                |d: int| self.devices[d].resynced(readings_at(readings, d)),
            ),
            ..self
        }
    }
}

/// Every binding that discovery makes is well formed.
pub proof fn lemma_probed_bindings_wf(probes: Seq<Probe>)
    ensures
        forall|i: int|
            0 <= i < probed_bindings(probes).len() ==> (#[trigger] probed_bindings(
                probes,
            )[i]).wf(),
    decreases probes.len(),
{
    if probes.len() > 0 {
        lemma_probed_bindings_wf(probes.drop_last());
        match probes.last().outcome {
            ProbeOutcome::Unreachable => {},
            ProbeOutcome::Unlisted => {
                lemma_discovered_binding_wf(probes.last().identifier@, Seq::empty());
            },
            ProbeOutcome::Listed(reports) => {
                lemma_discovered_binding_wf(probes.last().identifier@, report_views(reports@));
            },
        }
        let rest = probed_bindings(probes.drop_last());
        assert forall|i: int| 0 <= i < probed_bindings(probes).len() implies (
        #[trigger] probed_bindings(probes)[i]).wf() by {
            if i < rest.len() {
                assert(probed_bindings(probes)[i] == rest[i]);
            }
        }
    }
}

/// The registry that discovery makes is well formed, with the focus on the
/// first device.
pub proof fn lemma_discovered_registry_wf(probes: Seq<Probe>)
    ensures
        RegistryView::discovered(probes).wf(),
        RegistryView::discovered(probes).focused_device == 0,
{
    lemma_probed_bindings_wf(probes);
}

/// Moving a focus keeps the registry well formed and touches no control.
pub proof fn lemma_registry_focus_moves(registry: RegistryView)
    requires
        registry.wf(),
    ensures
        registry.next_device().wf(),
        registry.previous_device().wf(),
        registry.next_control().wf(),
        registry.previous_control().wf(),
        registry.same_but_focus(registry.next_device()),
        registry.same_but_focus(registry.previous_device()),
        registry.same_but_focus(registry.next_control()),
        registry.same_but_focus(registry.previous_control()),
        registry.next_control().focused_device == registry.focused_device,
        registry.previous_control().focused_device == registry.focused_device,
{
    if registry.focused_binding() is Some {
        lemma_binding_focus_moves(registry.devices[registry.focused_device]);
    }
}

/// No focus moves past the end or before the start: on the first device
/// there is no previous device to go to, on the last no next one, and
/// likewise for the controls of the focused device.
pub proof fn lemma_registry_focus_saturates(registry: RegistryView)
    ensures
        registry.focused_device == 0 ==> registry.previous_device() == registry,
        registry.focused_device == registry.devices.len() - 1 ==> registry.next_device()
            == registry,
        registry.focused_binding() is Some && registry.focused_binding()->0.focused_index
            == registry.focused_binding()->0.controls.len() - 1 ==> registry.next_control()
            == registry,
        registry.focused_binding() is Some && registry.focused_binding()->0.focused_index == 0
            ==> registry.previous_control() == registry,
{
    if registry.focused_binding() is Some {
        let binding = registry.devices[registry.focused_device];
        lemma_binding_focus_saturates(binding);
        assert(registry.devices.update(registry.focused_device, binding) =~= registry.devices);
    }
}

/// An adjustment keeps the registry well formed, moves no focus, changes no
/// bound, step or label, and leaves every device but the focused one as it is.
pub proof fn lemma_registry_settled_wf(
    registry: RegistryView,
    direction: Direction,
    outcome: WriteOutcome,
)
    requires
        registry.wf(),
    ensures
        registry.settled(direction, outcome).wf(),
        registry.same_but_values(registry.settled(direction, outcome)),
        forall|d: int|
            0 <= d < registry.devices.len() && d != registry.focused_device
                ==> #[trigger] registry.settled(direction, outcome).devices[d]
                == registry.devices[d],
{
    if registry.focused_binding() is Some {
        lemma_binding_settled_wf(registry.devices[registry.focused_device], direction, outcome);
    }
}

/// A write that failed changes nothing in the registry.
pub proof fn lemma_registry_failed_write_changes_nothing(
    registry: RegistryView,
    direction: Direction,
)
    ensures
        registry.settled(direction, WriteOutcome::Failed) == registry,
{
    if registry.focused_binding() is Some {
        let binding = registry.devices[registry.focused_device];
        lemma_binding_failed_write_changes_nothing(binding, direction);
        assert(registry.devices.update(registry.focused_device, binding) =~= registry.devices);
    }
}

/// Where the focused control stands at its maximum, an increase asks for no
/// write and changes nothing, whatever outcome is reported for it; likewise
/// a decrease at its minimum.
pub proof fn lemma_registry_at_bound_nothing_changes(
    registry: RegistryView,
    direction: Direction,
    outcome: WriteOutcome,
)
    requires
        registry.focused_control() is Some,
        registry.focused_control()->0.wf(),
        match direction {
            Direction::Increase => registry.focused_control()->0.value
                == registry.focused_control()->0.maximum,
            Direction::Decrease => registry.focused_control()->0.value
                == registry.focused_control()->0.minimum,
        },
    ensures
        registry.pending_write(direction) is None,
        registry.settled(direction, outcome) == registry,
{
    let binding = registry.devices[registry.focused_device];
    let control = binding.controls[binding.focused_index];
    lemma_at_bound_nothing_changes(control, direction, outcome);
    assert(binding.controls.update(binding.focused_index, control) =~= binding.controls);
    assert(registry.devices.update(registry.focused_device, binding) =~= registry.devices);
}

/// A resync keeps the registry well formed, moves no focus, and changes no
/// bound, step or label.
pub proof fn lemma_registry_resynced_wf(registry: RegistryView, readings: Seq<Vec<Option<i64>>>)
    requires
        registry.wf(),
    ensures
        registry.resynced(readings).wf(),
        registry.same_but_values(registry.resynced(readings)),
{
    assert forall|d: int| 0 <= d < registry.devices.len() implies (#[trigger] registry.resynced(
        readings,
    ).devices[d]).wf() && registry.devices[d].same_but_values(
        registry.resynced(readings).devices[d],
    ) by {
        lemma_binding_resynced_wf(registry.devices[d], readings_at(readings, d));
    }
}

/// After a resync a control holds the value that was read for it, whatever
/// it held before, provided that value lies within the bounds of the control.
pub proof fn lemma_resync_overwrites(
    registry: RegistryView,
    readings: Seq<Vec<Option<i64>>>,
    device: int,
    control: int,
    live: i64,
)
    requires
        0 <= device < registry.devices.len(),
        0 <= control < registry.devices[device].controls.len(),
        reading_at(readings_at(readings, device), control) == Some(live),
        registry.devices[device].controls[control].minimum <= live
            <= registry.devices[device].controls[control].maximum,
    ensures
        registry.resynced(readings).devices[device].controls[control].value == live,
{
}

/// After a resync a control whose read failed holds what it held before.
pub proof fn lemma_resync_keeps_unread(
    registry: RegistryView,
    readings: Seq<Vec<Option<i64>>>,
    device: int,
    control: int,
)
    requires
        0 <= device < registry.devices.len(),
        0 <= control < registry.devices[device].controls.len(),
        reading_at(readings_at(readings, device), control) is None,
    ensures
        registry.resynced(readings).devices[device].controls[control]
            == registry.devices[device].controls[control],
{
}

/// The registry of devices.
#[derive(Debug)]
pub struct Registry {
    devices: Vec<DeviceBinding>,
    focused_device: usize,
}

impl View for Registry {
    type V = RegistryView;

    closed spec fn view(&self) -> RegistryView {
        RegistryView {
            devices: Seq::new(self.devices@.len(), |i: int| self.devices@[i]@),
            focused_device: self.focused_device as int,
        }
    }
}

impl Registry {
    /// Holds of every registry, at all times. Each binding answers for its
    /// own well-formedness.
    #[verifier::type_invariant]
    pub open spec fn well_formed(self) -> bool {
        self@.focus_valid()
    }

    /// Makes the registry of the devices that were tried. A device that could
    /// not be opened gets no entry; one that opened gets an entry even
    /// without a single adjustable control. The order of the probes is kept,
    /// and the focus is on the first device and on its first control. Each
    /// control holds its reported default until the first resync brings its
    /// live value.
    pub fn discover(probes: &Vec<Probe>) -> (registry: Registry)
        ensures
            registry@ == RegistryView::discovered(probes@),
            registry@.wf(),
    {
        let mut devices: Vec<DeviceBinding> = Vec::new();
        let mut i: usize = 0;
        while i < probes.len()
            invariant
                i <= probes.len(),
                Seq::new(devices@.len(), |j: int| devices@[j]@) =~= probed_bindings(
                    probes@.take(i as int),
                ),
                forall|j: int| 0 <= j < devices@.len() ==> (#[trigger] devices@[j]@).wf(),
            decreases probes.len() - i,
        {
            assert(probes@.take(i + 1).drop_last() =~= probes@.take(i as int));
            let probe = &probes[i];
            match &probe.outcome {
                ProbeOutcome::Unreachable => {},
                ProbeOutcome::Unlisted => {
                    let none: Vec<ReportedControl> = Vec::new();
                    devices.push(DeviceBinding::new(probe.identifier.as_str(), &none));
                },
                ProbeOutcome::Listed(reports) => {
                    devices.push(DeviceBinding::new(probe.identifier.as_str(), reports));
                },
            }
            i = i + 1;
        }
        assert(probes@.take(i as int) =~= probes@);
        Registry { devices, focused_device: 0 }
    }

    /// The number of devices.
    pub fn device_count(&self) -> (count: usize)
        ensures
            count == self@.devices.len(),
    {
        self.devices.len()
    }

    /// The device at `index`, if there is one.
    pub fn device(&self, index: usize) -> (device: Option<&DeviceBinding>)
        ensures
            device is Some <==> index < self@.devices.len(),
            device is Some ==> device->0@ == self@.devices[index as int],
    {
        if index < self.devices.len() {
            Some(&self.devices[index])
        } else {
            None
        }
    }

    /// The index of the device that has the focus; zero where there is no device.
    pub fn focused_device(&self) -> (index: usize)
        ensures
            index == self@.focused_device,
            self@.devices.len() > 0 ==> index < self@.devices.len(),
    {
        proof {
            use_type_invariant(self);
        }
        self.focused_device
    }

    /// The device that has the focus, if there is any device.
    pub fn focused_binding(&self) -> (binding: Option<&DeviceBinding>)
        ensures
            self@.focused_binding() == match binding {
                Some(b) => Some(b@),
                None => None,
            },
    {
        if self.focused_device < self.devices.len() {
            Some(&self.devices[self.focused_device])
        } else {
            None
        }
    }

    /// The control that has the focus on the focused device, if there is one.
    pub fn focused_control(&self) -> (control: Option<&ControlDescriptor>)
        ensures
            self@.focused_control() == match control {
                Some(c) => Some(c@),
                None => None,
            },
    {
        match self.focused_binding() {
            Some(binding) => binding.focused_control(),
            None => None,
        }
    }

    /// Moves the focus to the next device; does nothing on the last device
    /// or where there is none.
    pub fn next_device(&mut self)
        ensures
            final(self)@ == old(self)@.next_device(),
            old(self)@.focused_device == old(self)@.devices.len() - 1
                ==> final(self)@ == old(self)@,
    {
        proof {
            use_type_invariant(&*self);
        }
        let count: usize = self.devices.len();
        if self.focused_device + 1 < count {
            self.focused_device = self.focused_device + 1;
        }
    }

    /// Moves the focus to the previous device; does nothing on the first.
    pub fn previous_device(&mut self)
        ensures
            final(self)@ == old(self)@.previous_device(),
            old(self)@.focused_device == 0 ==> final(self)@ == old(self)@,
    {
        proof {
            use_type_invariant(&*self);
        }
        if self.focused_device > 0 {
            self.focused_device = self.focused_device - 1;
        }
    }

    /// Moves the focus of the focused device to its next control; does
    /// nothing on its last control, or where it has none.
    pub fn next_control(&mut self)
        ensures
            final(self)@ == old(self)@.next_control(),
            old(self)@.focused_binding() is Some && old(self)@.focused_binding()->0.focused_index
                == old(self)@.focused_binding()->0.controls.len() - 1
                ==> final(self)@ == old(self)@,
    {
        if self.focused_device < self.devices.len() {
            let index: usize = self.focused_device;
            self.devices[index].next_control();
            assert(self@.devices =~= old(self)@.next_control().devices);
            assert(self.devices@[index as int]@ == old(self).devices@[index as int]@
                ==> self@.devices =~= old(self)@.devices);
        }
    }

    /// Moves the focus of the focused device to its previous control; does
    /// nothing on its first.
    pub fn previous_control(&mut self)
        ensures
            final(self)@ == old(self)@.previous_control(),
            old(self)@.focused_binding() is Some && old(self)@.focused_binding()->0.focused_index
                == 0 ==> final(self)@ == old(self)@,
    {
        if self.focused_device < self.devices.len() {
            let index: usize = self.focused_device;
            self.devices[index].previous_control();
            assert(self@.devices =~= old(self)@.previous_control().devices);
            assert(self.devices@[index as int]@ == old(self).devices@[index as int]@
                ==> self@.devices =~= old(self)@.devices);
        }
    }

    /// The first half of an adjustment of the focused control: the write to
    /// perform, or `None` where there is no focused control or its value
    /// already stands at the bound in `direction`, so that nothing is to be
    /// written. The registry itself is not changed before the write is over.
    pub fn plan_adjust(&self, direction: Direction) -> (write: Option<WriteRequest>)
        ensures
            self@.pending_write(direction) == match write {
                Some(w) => Some(w@),
                None => None,
            },
    {
        if self.focused_device < self.devices.len() {
            let binding = &self.devices[self.focused_device];
            match binding.plan_adjust(direction) {
                Some((id, value)) => Some(
                    WriteRequest { identifier: binding.identifier().clone(), id, value },
                ),
                None => None,
            }
        } else {
            None
        }
    }

    /// The second half of an adjustment of the focused control, to be called
    /// with the outcome of the write that the first half asked for, before
    /// anything else changes the registry: takes the candidate over as the
    /// value when the write succeeded, and changes nothing at all when it
    /// failed.
    pub fn complete_adjust(&mut self, direction: Direction, outcome: WriteOutcome)
        ensures
            final(self)@ == old(self)@.settled(direction, outcome),
            outcome == WriteOutcome::Failed ==> final(self)@ == old(self)@,
    {
        if self.focused_device < self.devices.len() {
            let index: usize = self.focused_device;
            self.devices[index].complete_adjust(direction, outcome);
            assert(self@.devices =~= old(self)@.settled(direction, outcome).devices);
            assert(outcome == WriteOutcome::Failed ==> self@.devices =~= old(self)@.devices);
        }
    }

    /// The first half of a resync: the reads to perform, one request per
    /// device and in it one read per control.
    pub fn read_plan(&self) -> (plan: Vec<ReadRequest>)
        ensures
            read_views(plan@) == self@.read_plan(),
    {
        let mut plan: Vec<ReadRequest> = Vec::new();
        let mut d: usize = 0;
        while d < self.devices.len()
            invariant
                d <= self.devices@.len(),
                plan@.len() == d,
                forall|j: int|
                    0 <= j < d ==> (#[trigger] plan@[j])@ == self.devices@[j]@.read_request(),
            decreases self.devices@.len() - d,
        {
            plan.push(self.devices[d].read_request());
            d = d + 1;
        }
        plan
    }

    /// The second half of a resync: takes in the readings. The row at the
    /// position of a device holds the readings of its controls, by position,
    /// as the read plan lists them: a value that was read replaces the one
    /// held, whatever that was; a failed read (`None`, or no reading at that
    /// position) leaves the control as it is. Neither focus moves, and no
    /// bound, step or label changes.
    pub fn resync(&mut self, readings: &Vec<Vec<Option<i64>>>)
        ensures
            final(self)@ == old(self)@.resynced(readings@),
            final(self)@.focused_device == old(self)@.focused_device,
    {
        let ghost before = self@.devices;
        let none: Vec<Option<i64>> = Vec::new();
        let mut d: usize = 0;
        while d < self.devices.len()
            invariant
                d <= self.devices@.len(),
                self.devices@.len() == before.len(),
                self.focused_device == old(self).focused_device,
                none@ =~= Seq::<Option<i64>>::empty(),
                forall|j: int|
                    0 <= j < d ==> (#[trigger] self.devices@[j])@ == before[j].resynced(
                        readings_at(readings@, j),
                    ),
                forall|j: int|
                    d <= j < before.len() ==> (#[trigger] self.devices@[j])@ == before[j],
            decreases self.devices@.len() - d,
        {
            proof {
                use_type_invariant(&*self);
            }
            let row: &Vec<Option<i64>> = if d < readings.len() {
                &readings[d]
            } else {
                &none
            };
            self.devices[d].resync(row);
            d = d + 1;
        }
        assert(self@.devices =~= old(self)@.resynced(readings@).devices);
    }
    /// What is shown of the registry: one tab per device, the selected tab,
    /// and the gauges of the focused device.
    pub fn screen(&self) -> (screen: Screen)
        ensures
            screen@ == self@.screen(),
    {
        let mut tabs: Vec<String> = Vec::new();
        let mut d: usize = 0;
        while d < self.devices.len()
            invariant
                d <= self.devices@.len(),
                tabs@.len() == d,
                forall|j: int|
                    0 <= j < d ==> (#[trigger] tabs@[j])@ == self.devices@[j]@.identifier,
            decreases self.devices@.len() - d,
        {
            tabs.push(self.devices[d].identifier().clone());
            d = d + 1;
        }
        let gauges: Vec<Gauge> = match self.focused_binding() {
            Some(binding) => binding.gauges(),
            None => Vec::new(),
        };
        let screen = Screen { tabs, selected: self.focused_device, gauges };
        assert(screen@.tabs =~= self@.screen().tabs);
        assert(screen@.gauges =~= self@.screen().gauges);
        screen
    }
}

} // verus!
