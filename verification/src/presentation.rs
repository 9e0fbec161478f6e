//! What a renderer needs of the state: one tab per device and, for the
//! focused device, one gauge per control.

use crate::binding::BindingView;
use crate::control::ControlView;
use crate::registry::RegistryView;
use vstd::prelude::*;

verus! {

/// One gauge: the name of the control, the text shown for its value, how far
/// the value stands above the minimum (`filled`) out of how far it can
/// (`span`), and whether the control has the focus.
#[derive(Debug)]
pub struct Gauge {
    pub title: String,
    pub label: String,
    pub filled: u64,
    pub span: u64,
    pub focused: bool,
}

/// The mathematical content of a [`Gauge`].
pub struct GaugeView {
    pub title: Seq<char>,
    pub label: Seq<char>,
    pub filled: int,
    pub span: int,
    pub focused: bool,
}

impl View for Gauge {
    type V = GaugeView;

    open spec fn view(&self) -> GaugeView {
        GaugeView {
            title: self.title@,
            label: self.label@,
            filled: self.filled as int,
            span: self.span as int,
            focused: self.focused,
        }
    }
}

/// The gauges of `gauges`, each by its view.
pub open spec fn gauge_views(gauges: Seq<Gauge>) -> Seq<GaugeView> {
    Seq::new(gauges.len(), |i: int| gauges[i]@)
}

/// The texts of `texts`, each by its view.
pub open spec fn text_views(texts: Seq<String>) -> Seq<Seq<char>> {
    Seq::new(texts.len(), |i: int| texts[i]@)
}

/// What is shown of the whole registry: the identifier of each device as a
/// tab, the tab that is selected, and the gauges of the focused device.
#[derive(Debug)]
pub struct Screen {
    pub tabs: Vec<String>,
    pub selected: usize,
    pub gauges: Vec<Gauge>,
}

/// The mathematical content of a [`Screen`].
pub struct ScreenView {
    pub tabs: Seq<Seq<char>>,
    pub selected: int,
    pub gauges: Seq<GaugeView>,
}

impl View for Screen {
    type V = ScreenView;

    open spec fn view(&self) -> ScreenView {
        ScreenView {
            tabs: text_views(self.tabs@),
            selected: self.selected as int,
            gauges: gauge_views(self.gauges@),
        }
    }
}

impl ControlView {
    /// The gauge of this control.
    pub open spec fn gauge(self, focused: bool) -> GaugeView {
        GaugeView {
            title: self.name,
            label: self.label(),
            filled: self.value - self.minimum,
            span: self.maximum - self.minimum,
            focused,
        }
    }
}

impl BindingView {
    /// The gauges of this device, one per control and in their order; the
    /// one of the focused control is marked.
    pub open spec fn gauges(self) -> Seq<GaugeView> {
        Seq::new(
            self.controls.len(),
            |i: int| self.controls[i].gauge(i == self.focused_index),
        )
    }
}

impl RegistryView {
    /// What is shown of this registry. Without a device there is no gauge.
    pub open spec fn screen(self) -> ScreenView {
        ScreenView {
            tabs: Seq::new(self.devices.len(), |d: int| self.devices[d].identifier),
            selected: self.focused_device,
            gauges: match self.focused_binding() {
                Some(binding) => binding.gauges(),
                None => Seq::empty(),
            },
        }
    }
}

/// A gauge of a well-formed control is never filled beyond its span.
pub proof fn lemma_gauge_within_span(control: ControlView, focused: bool)
    requires
        control.wf(),
    ensures
        0 <= control.gauge(focused).filled <= control.gauge(focused).span,
{
}

} // verus!
