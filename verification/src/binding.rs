//! Device bindings: one device, its controls in the order it listed them, and
//! the control that has the focus.

use crate::control::{lemma_normalized_wf, lemma_refreshed_wf, lemma_settled_wf};
use crate::control::{
    ControlDescriptor, ControlView, Direction, ReportView, ReportedControl, WriteOutcome,
};
use crate::presentation::{gauge_views, Gauge};
use vstd::prelude::*;
use vstd::string::StringExecFns;

verus! {

/// The mathematical content of a [`DeviceBinding`].
pub struct BindingView {
    pub identifier: Seq<char>,
    pub controls: Seq<ControlView>,
    pub focused_index: int,
}

/// The reads that the caller is to perform on one device for a resync: on
/// the device `identifier`, the value of each control of `ids`, in this order.
#[derive(Debug)]
pub struct ReadRequest {
    pub identifier: String,
    pub ids: Vec<u32>,
}

/// The mathematical content of a [`ReadRequest`].
pub struct ReadView {
    pub identifier: Seq<char>,
    pub ids: Seq<u32>,
}

impl View for ReadRequest {
    type V = ReadView;

    open spec fn view(&self) -> ReadView {
        ReadView { identifier: self.identifier@, ids: self.ids@ }
    }
}

/// The reading that belongs to the control at `index`: readings are matched
/// to controls by position, and a control without one counts as a failed read.
pub open spec fn reading_at(readings: Seq<Option<i64>>, index: int) -> Option<i64> {
    if 0 <= index < readings.len() {
        readings[index]
    } else {
        None
    }
}

/// The reports of `reports`, each by its view.
pub open spec fn report_views(reports: Seq<ReportedControl>) -> Seq<ReportView> {
    Seq::new(reports.len(), |i: int| reports[i]@)
}

/// The descriptors of the reports that can be adjusted, in the order of the reports.
pub open spec fn normalized_controls(reports: Seq<ReportView>) -> Seq<ControlView>
    decreases reports.len(),
{
    if reports.len() == 0 {
        Seq::empty()
    } else {
        let rest = normalized_controls(reports.drop_last());
        match reports.last().normalized() {
            Some(control) => rest.push(control),
            None => rest,
        }
    }
}

impl BindingView {
    /// The focus lies on one of the controls, or at zero where there is none.
    pub open spec fn focus_valid(self) -> bool {
        if self.controls.len() == 0 {
            self.focused_index == 0
        } else {
            0 <= self.focused_index < self.controls.len()
        }
    }

    /// What holds of every binding: each control is well formed, and the
    /// focus is valid.
    pub open spec fn wf(self) -> bool {
        &&& forall|i: int| 0 <= i < self.controls.len() ==> (#[trigger] self.controls[i]).wf()
        &&& self.focus_valid()
    }

    /// The binding of a device that listed `reports`.
    pub open spec fn discovered(identifier: Seq<char>, reports: Seq<ReportView>) -> BindingView {
        BindingView { identifier, controls: normalized_controls(reports), focused_index: 0 }
    }

    /// Whether `other` is this binding but for the values of its controls.
    pub open spec fn same_but_values(self, other: BindingView) -> bool {
        &&& other.identifier == self.identifier
        &&& other.focused_index == self.focused_index
        &&& other.controls.len() == self.controls.len()
        &&& forall|i: int|
            0 <= i < self.controls.len() ==> (#[trigger] self.controls[i]).same_but_value(
                other.controls[i],
            )
    }

    /// Whether `other` is this binding but for its focus.
    pub open spec fn same_but_focus(self, other: BindingView) -> bool {
        &&& other.identifier == self.identifier
        &&& other.controls == self.controls
    }

    /// The control that has the focus, if the binding has any control.
    pub open spec fn focused(self) -> Option<ControlView> {
        if 0 <= self.focused_index < self.controls.len() {
            Some(self.controls[self.focused_index])
        } else {
            None
        }
    }

    /// This binding with the focus one control further, or unchanged where
    /// the focus is on the last control or there is none.
    pub open spec fn next_control(self) -> BindingView {
        if self.focused_index + 1 < self.controls.len() {
            BindingView { focused_index: self.focused_index + 1, ..self }
        } else {
            self
        }
    }

    /// This binding with the focus one control back, or unchanged where the
    /// focus is on the first control.
    pub open spec fn previous_control(self) -> BindingView {
        if self.focused_index > 0 {
            BindingView { focused_index: self.focused_index - 1, ..self }
        } else {
            self
        }
    }

    /// The identifier of the focused control and the value to write to it for
    /// an adjustment in `direction`, or `None` where nothing is to be written.
    pub open spec fn pending_write(self, direction: Direction) -> Option<(u32, int)> {
        match self.focused() {
            Some(control) => match control.pending_write(direction) {
                Some(value) => Some((control.id, value)),
                None => None,
            },
            None => None,
        }
    }

    /// This binding after an adjustment of the focused control in `direction`
    /// whose write ended in `outcome`.
    pub open spec fn settled(self, direction: Direction, outcome: WriteOutcome) -> BindingView {
        match self.focused() {
            Some(control) => BindingView {
                controls: self.controls.update(
                    self.focused_index,
                    control.settled(direction, outcome),
                ),
                ..self
            },
            None => self,
        }
    }

    /// The reads that a resync of this binding asks for: one per control, in
    /// the order of the controls.
    pub open spec fn read_request(self) -> ReadView {
        ReadView {
            identifier: self.identifier,
            ids: Seq::new(self.controls.len(), |i: int| self.controls[i].id),
        }
    }

    /// This binding after each control was refreshed with its reading.
    pub open spec fn resynced(self, readings: Seq<Option<i64>>) -> BindingView {
        BindingView {
            controls: Seq::new(
                self.controls.len(),
                |i: int| self.controls[i].refreshed(reading_at(readings, i)),
            ),
            ..self
        }
    }
}

/// Every descriptor that discovery keeps is well formed.
pub proof fn lemma_normalized_controls_wf(reports: Seq<ReportView>)
    ensures
        forall|i: int|
            0 <= i < normalized_controls(reports).len() ==> (#[trigger] normalized_controls(
                reports,
            )[i]).wf(),
    decreases reports.len(),
{
    if reports.len() > 0 {
        lemma_normalized_controls_wf(reports.drop_last());
        lemma_normalized_wf(reports.last());
        let rest = normalized_controls(reports.drop_last());
        assert forall|i: int| 0 <= i < normalized_controls(reports).len() implies (
        #[trigger] normalized_controls(reports)[i]).wf() by {
            if i < rest.len() {
                assert(normalized_controls(reports)[i] == rest[i]);
            }
        }
    }
}

/// The binding that discovery makes is well formed, with the focus on its
/// first control.
pub proof fn lemma_discovered_binding_wf(identifier: Seq<char>, reports: Seq<ReportView>)
    ensures
        BindingView::discovered(identifier, reports).wf(),
        BindingView::discovered(identifier, reports).focused_index == 0,
{
    lemma_normalized_controls_wf(reports);
}

/// Moving the focus keeps the binding well formed and touches nothing but
/// the focus.
pub proof fn lemma_binding_focus_moves(binding: BindingView)
    requires
        binding.wf(),
    ensures
        binding.next_control().wf(),
        binding.previous_control().wf(),
        binding.same_but_focus(binding.next_control()),
        binding.same_but_focus(binding.previous_control()),
{
}

/// The focus does not move past the last control, nor before the first.
pub proof fn lemma_binding_focus_saturates(binding: BindingView)
    ensures
        binding.focused_index == binding.controls.len() - 1 ==> binding.next_control() == binding,
        binding.focused_index == 0 ==> binding.previous_control() == binding,
{
}

/// An adjustment keeps the binding well formed, moves no focus, and changes
/// nothing but the value of the focused control.
pub proof fn lemma_binding_settled_wf(
    binding: BindingView,
    direction: Direction,
    outcome: WriteOutcome,
)
    requires
        binding.wf(),
    ensures
        binding.settled(direction, outcome).wf(),
        binding.same_but_values(binding.settled(direction, outcome)),
        forall|i: int|
            0 <= i < binding.controls.len() && i != binding.focused_index
                ==> #[trigger] binding.settled(direction, outcome).controls[i]
                == binding.controls[i],
{
    if binding.focused() is Some {
        lemma_settled_wf(binding.controls[binding.focused_index], direction, outcome);
    }
}

/// A write that failed changes nothing in the binding.
pub proof fn lemma_binding_failed_write_changes_nothing(
    binding: BindingView,
    direction: Direction,
)
    ensures
        binding.settled(direction, WriteOutcome::Failed) == binding,
{
    assert(binding.settled(direction, WriteOutcome::Failed).controls =~= binding.controls);
}

/// A resync keeps the binding well formed, moves no focus, and changes
/// nothing of any control but its value.
pub proof fn lemma_binding_resynced_wf(binding: BindingView, readings: Seq<Option<i64>>)
    requires
        binding.wf(),
    ensures
        binding.resynced(readings).wf(),
        binding.same_but_values(binding.resynced(readings)),
{
    assert forall|i: int| 0 <= i < binding.controls.len() implies (#[trigger] binding.resynced(
        readings,
    ).controls[i]).wf() && binding.controls[i].same_but_value(
        binding.resynced(readings).controls[i],
    ) by {
        lemma_refreshed_wf(binding.controls[i], reading_at(readings, i));
    }
}

/// One device: the identifier under which it is opened, its controls, and
/// the index of the control that has the focus.
#[derive(Debug)]
pub struct DeviceBinding {
    identifier: String,
    controls: Vec<ControlDescriptor>,
    focused_index: usize,
}

impl View for DeviceBinding {
    type V = BindingView;

    closed spec fn view(&self) -> BindingView {
        BindingView {
            identifier: self.identifier@,
            controls: Seq::new(self.controls@.len(), |i: int| self.controls@[i]@),
            focused_index: self.focused_index as int,
        }
    }
}

impl DeviceBinding {
    /// Holds of every binding, at all times. Each control answers for its own
    /// well-formedness.
    #[verifier::type_invariant]
    pub open spec fn well_formed(self) -> bool {
        self@.focus_valid()
    }

    /// Makes the binding of the device `identifier` from the controls that it
    /// listed: those that can be adjusted are kept, in the order listed, each
    /// normalized and holding its default as value; the focus is on the first.
    pub fn new(identifier: &str, reports: &Vec<ReportedControl>) -> (binding: DeviceBinding)
        ensures
            binding@ == BindingView::discovered(identifier@, report_views(reports@)),
            binding@.wf(),
    {
        let mut controls: Vec<ControlDescriptor> = Vec::new();
        let mut i: usize = 0;
        let ghost all = report_views(reports@);
        while i < reports.len()
            invariant
                i <= reports.len(),
                all == report_views(reports@),
                Seq::new(controls@.len(), |j: int| controls@[j]@) =~= normalized_controls(
                    all.take(i as int),
                ),
                forall|j: int| 0 <= j < controls@.len() ==> (#[trigger] controls@[j]@).wf(),
            decreases reports.len() - i,
        {
            assert(all.take(i + 1).drop_last() =~= all.take(i as int));
            match ControlDescriptor::normalize(&reports[i]) {
                Some(control) => {
                    controls.push(control);
                },
                None => {},
            }
            i = i + 1;
        }
        assert(all.take(i as int) =~= all);
        DeviceBinding { identifier: String::from_str(identifier), controls, focused_index: 0 }
    }

    /// The identifier under which the device is opened.
    pub fn identifier(&self) -> (identifier: &String)
        ensures
            identifier@ == self@.identifier,
    {
        &self.identifier
    }

    /// The number of controls.
    pub fn control_count(&self) -> (count: usize)
        ensures
            count == self@.controls.len(),
    {
        self.controls.len()
    }

    /// The control at `index`, if there is one.
    pub fn control(&self, index: usize) -> (control: Option<&ControlDescriptor>)
        ensures
            control is Some <==> index < self@.controls.len(),
            control is Some ==> control->0@ == self@.controls[index as int],
    {
        if index < self.controls.len() {
            Some(&self.controls[index])
        } else {
            None
        }
    }

    /// The index of the control that has the focus; zero where there is no control.
    pub fn focused_index(&self) -> (index: usize)
        ensures
            index == self@.focused_index,
            self@.controls.len() > 0 ==> index < self@.controls.len(),
    {
        proof {
            use_type_invariant(self);
        }
        self.focused_index
    }

    /// The control that has the focus, if the binding has any control.
    pub fn focused_control(&self) -> (control: Option<&ControlDescriptor>)
        ensures
            self@.focused() == match control {
                Some(c) => Some(c@),
                None => None,
            },
    {
        proof {
            use_type_invariant(self);
        }
        if self.focused_index < self.controls.len() {
            Some(&self.controls[self.focused_index])
        } else {
            None
        }
    }

    /// Moves the focus to the next control; does nothing on the last control
    /// or where there is none.
    pub fn next_control(&mut self)
        ensures
            final(self)@ == old(self)@.next_control(),
            old(self)@.focused_index == old(self)@.controls.len() - 1
                ==> final(self)@ == old(self)@,
    {
        proof {
            use_type_invariant(&*self);
        }
        let count: usize = self.controls.len();
        if self.focused_index + 1 < count {
            self.focused_index = self.focused_index + 1;
        }
    }

    /// Moves the focus to the previous control; does nothing on the first.
    pub fn previous_control(&mut self)
        ensures
            final(self)@ == old(self)@.previous_control(),
            old(self)@.focused_index == 0 ==> final(self)@ == old(self)@,
    {
        proof {
            use_type_invariant(&*self);
        }
        if self.focused_index > 0 {
            self.focused_index = self.focused_index - 1;
        }
    }

    /// The first half of an adjustment of the focused control: its
    /// identifier and the value to write to it, or `None` where there is no
    /// control or the value already stands at the bound in `direction`.
    pub fn plan_adjust(&self, direction: Direction) -> (write: Option<(u32, i64)>)
        ensures
            self@.pending_write(direction) == match write {
                Some(w) => Some((w.0, w.1 as int)),
                None => None,
            },
    {
        proof {
            use_type_invariant(self);
        }
        if self.focused_index < self.controls.len() {
            let control = &self.controls[self.focused_index];
            match control.plan_adjust(direction) {
                Some(value) => Some((control.id(), value)),
                None => None,
            }
        } else {
            None
        }
    }

    /// The second half of an adjustment of the focused control: takes the
    /// candidate over when the write succeeded, changes nothing when it failed.
    pub fn complete_adjust(&mut self, direction: Direction, outcome: WriteOutcome)
        ensures
            final(self)@ == old(self)@.settled(direction, outcome),
            outcome == WriteOutcome::Failed ==> final(self)@ == old(self)@,
    {
        proof {
            use_type_invariant(&*self);
        }
        if self.focused_index < self.controls.len() {
            let index: usize = self.focused_index;
            self.controls[index].complete_adjust(direction, outcome);
        }
        assert(self@.controls =~= old(self)@.settled(direction, outcome).controls);
        assert(outcome == WriteOutcome::Failed ==> self@.controls =~= old(self)@.controls);
    }

    /// The first half of a resync: the reads to perform, one per control.
    pub fn read_request(&self) -> (request: ReadRequest)
        ensures
            request@ == self@.read_request(),
    {
        let mut ids: Vec<u32> = Vec::new();
        let mut i: usize = 0;
        while i < self.controls.len()
            invariant
                i <= self.controls@.len(),
                ids@.len() == i,
                forall|j: int| 0 <= j < i ==> #[trigger] ids@[j] == self.controls@[j]@.id,
            decreases self.controls@.len() - i,
        {
            ids.push(self.controls[i].id());
            i = i + 1;
        }
        assert(ids@ =~= self@.read_request().ids);
        ReadRequest { identifier: self.identifier.clone(), ids }
    }

    /// The second half of a resync: refreshes every control with the reading
    /// at its position in `readings`. A value that was read replaces the one
    /// held; a failed read (`None`, or no reading at that position) leaves
    /// the control as it is.
    pub fn resync(&mut self, readings: &Vec<Option<i64>>)
        ensures
            final(self)@ == old(self)@.resynced(readings@),
    {
        let ghost before = self@.controls;
        let mut i: usize = 0;
        while i < self.controls.len()
            invariant
                i <= self.controls@.len(),
                self.controls@.len() == before.len(),
                self.identifier == old(self).identifier,
                self.focused_index == old(self).focused_index,
                forall|j: int|
                    0 <= j < i ==> (#[trigger] self.controls@[j])@ == before[j].refreshed(
                        reading_at(readings@, j),
                    ),
                forall|j: int|
                    i <= j < before.len() ==> (#[trigger] self.controls@[j])@ == before[j],
            decreases self.controls@.len() - i,
        {
            proof {
                use_type_invariant(&*self);
            }
            let reading: Option<i64> = if i < readings.len() {
                readings[i]
            } else {
                None
            };
            self.controls[i].refresh(reading);
            i = i + 1;
        }
        assert(self@.controls =~= old(self)@.resynced(readings@).controls);
    }

    /// The gauges of this device, one per control and in their order; the
    /// one of the focused control is marked.
    pub fn gauges(&self) -> (gauges: Vec<Gauge>)
        ensures
            gauge_views(gauges@) == self@.gauges(),
    {
        let mut gauges: Vec<Gauge> = Vec::new();
        let mut i: usize = 0;
        while i < self.controls.len()
            invariant
                i <= self.controls@.len(),
                gauges@.len() == i,
                forall|j: int|
                    0 <= j < i ==> (#[trigger] gauges@[j])@ == self.controls@[j]@.gauge(
                        j == self.focused_index,
                    ),
            decreases self.controls@.len() - i,
        {
            gauges.push(self.controls[i].gauge(i == self.focused_index));
            i = i + 1;
        }
        gauges
    }
}

} // verus!
