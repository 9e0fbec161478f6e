//! Control descriptors: what a device reports of one control, the normalized
//! record kept of it, and the arithmetic of adjusting and refreshing its value.

use crate::decimal::{decimal, render_decimal};
use crate::presentation::Gauge;
use vstd::math::{max, min};
use vstd::prelude::*;
use vstd::string::StringExecFns;

verus! {

/// The kinds of control that can be adjusted.
#[derive(Clone, Copy, Debug, PartialEq, Eq, Structural)]
pub enum ControlKind {
    Integer,
    Boolean,
    Menu,
}

/// The kinds of entry that a device may list among its controls.
#[derive(Clone, Copy, Debug, PartialEq, Eq, Structural)]
pub enum ReportedKind {
    Integer,
    Boolean,
    Menu,
    Button,
    Integer64,
    ControlClass,
    Text,
    Bitmask,
    IntegerMenu,
    U8,
    U16,
    U32,
    Area,
}

/// Which way an adjustment moves a value.
#[derive(Clone, Copy, Debug, PartialEq, Eq, Structural)]
pub enum Direction {
    Increase,
    Decrease,
}

/// How a write to the device ended.
#[derive(Clone, Copy, Debug, PartialEq, Eq, Structural)]
pub enum WriteOutcome {
    Written,
    Failed,
}

/// One entry of a menu control: the value that selects it and the text shown for it.
#[derive(Debug)]
pub struct MenuItem {
    pub key: i64,
    pub label: String,
}

impl View for MenuItem {
    type V = (int, Seq<char>);

    open spec fn view(&self) -> (int, Seq<char>) {
        (self.key as int, self.label@)
    }
}

/// One control as the device lists it, before normalization. Nothing is
/// assumed of it: the bounds may be reversed, the step may be zero, the default
/// may lie outside the bounds.
#[derive(Debug)]
pub struct ReportedControl {
    pub id: u32,
    pub name: String,
    pub kind: ReportedKind,
    pub minimum: i64,
    pub maximum: i64,
    pub step: u64,
    pub default: i64,
    pub items: Vec<MenuItem>,
}

/// The mathematical content of a [`ReportedControl`].
pub struct ReportView {
    pub id: u32,
    pub name: Seq<char>,
    pub kind: ReportedKind,
    pub minimum: int,
    pub maximum: int,
    pub step: nat,
    pub default: int,
    pub items: Seq<(int, Seq<char>)>,
}

/// The entries of `items`, each by its view.
pub open spec fn item_views(items: Seq<MenuItem>) -> Seq<(int, Seq<char>)> {
    Seq::new(items.len(), |i: int| items[i]@)
}

impl View for ReportedControl {
    type V = ReportView;

    open spec fn view(&self) -> ReportView {
        ReportView {
            id: self.id,
            name: self.name@,
            kind: self.kind,
            minimum: self.minimum as int,
            maximum: self.maximum as int,
            step: self.step as nat,
            default: self.default as int,
            items: item_views(self.items@),
        }
    }
}

/// The adjustable kind that a reported kind stands for, if any.
pub open spec fn adjustable(kind: ReportedKind) -> Option<ControlKind> {
    match kind {
        ReportedKind::Integer => Some(ControlKind::Integer),
        ReportedKind::Boolean => Some(ControlKind::Boolean),
        ReportedKind::Menu => Some(ControlKind::Menu),
        _ => None,
    }
}

/// `v`, moved to the nearer bound where it lies outside `low ..= high`.
pub open spec fn clamp(v: int, low: int, high: int) -> int {
    max(low, min(v, high))
}

/// The entries of `items` whose key lies in `low ..= high`, in their order.
pub open spec fn retained_items(items: Seq<(int, Seq<char>)>, low: int, high: int) -> Seq<
    (int, Seq<char>),
>
    decreases items.len(),
{
    if items.len() == 0 {
        Seq::empty()
    } else {
        let rest = retained_items(items.drop_last(), low, high);
        if low <= items.last().0 <= high {
            rest.push(items.last())
        } else {
            rest
        }
    }
}

/// The mapping from key to label that `items` describes. Where a key occurs
/// more than once, its last entry decides.
pub open spec fn menu(items: Seq<(int, Seq<char>)>) -> Map<int, Seq<char>>
    decreases items.len(),
{
    if items.len() == 0 {
        Map::empty()
    } else {
        menu(items.drop_last()).insert(items.last().0, items.last().1)
    }
}

/// The mathematical content of a [`ControlDescriptor`].
pub struct ControlView {
    pub id: u32,
    pub name: Seq<char>,
    pub kind: ControlKind,
    pub minimum: int,
    pub maximum: int,
    pub step: nat,
    pub items: Map<int, Seq<char>>,
    pub value: int,
}

impl ControlView {
    /// What holds of every descriptor: the value lies within the bounds, the
    /// step is positive, only a menu has items, and every item key lies
    /// within the bounds.
    pub open spec fn wf(self) -> bool {
        &&& self.minimum <= self.value <= self.maximum
        &&& self.step >= 1
        &&& self.kind != ControlKind::Menu ==> self.items == Map::<int, Seq<char>>::empty()
        &&& forall|k: int| #[trigger]
            self.items.contains_key(k) ==> self.minimum <= k <= self.maximum
    }

    /// The distance that one adjustment tries to move: the step of an integer
    /// control, one for a boolean or a menu.
    pub open spec fn stride(self) -> int {
        match self.kind {
            ControlKind::Integer => self.step as int,
            _ => 1,
        }
    }

    /// The value that an adjustment in `direction` aims at: one stride away,
    /// but no further than the bound.
    pub open spec fn candidate(self, direction: Direction) -> int {
        match direction {
            Direction::Increase => min(self.value + self.stride(), self.maximum),
            Direction::Decrease => max(self.value - self.stride(), self.minimum),
        }
    }

    /// The value to write to the device for an adjustment in `direction`, or
    /// `None` where the value already stands at that bound.
    pub open spec fn pending_write(self, direction: Direction) -> Option<int> {
        if self.candidate(direction) == self.value {
            None
        } else {
            Some(self.candidate(direction))
        }
    }

    /// This descriptor with `value` in place of its value.
    pub open spec fn with_value(self, value: int) -> ControlView {
        ControlView { value, ..self }
    }

    /// Whether `other` is this descriptor but for its value.
    pub open spec fn same_but_value(self, other: ControlView) -> bool {
        other == self.with_value(other.value)
    }

    /// This descriptor after an adjustment in `direction` whose write ended
    /// in `outcome`: the candidate is taken over only when it was written.
    pub open spec fn settled(self, direction: Direction, outcome: WriteOutcome) -> ControlView {
        match outcome {
            WriteOutcome::Written => self.with_value(self.candidate(direction)),
            WriteOutcome::Failed => self,
        }
    }

    /// This descriptor after a read of its live value: a value that was read
    /// replaces the one held, brought within the bounds; a failed read
    /// changes nothing.
    pub open spec fn refreshed(self, reading: Option<i64>) -> ControlView {
        match reading {
            Some(live) => self.with_value(clamp(live as int, self.minimum, self.maximum)),
            None => self,
        }
    }

    /// This descriptor after one adjustment in `direction` for each outcome of
    /// `outcomes`, in their order.
    pub open spec fn adjusted_repeatedly(
        self,
        direction: Direction,
        outcomes: Seq<WriteOutcome>,
    ) -> ControlView
        decreases outcomes.len(),
    {
        if outcomes.len() == 0 {
            self
        } else {
            self.adjusted_repeatedly(direction, outcomes.drop_last()).settled(
                direction,
                outcomes.last(),
            )
        }
    }

    /// The text shown for the value: the number itself for an integer;
    /// `True` or `False` for a boolean; for a menu the label of the item
    /// whose key is the value, or the number where no item has that key.
    pub open spec fn label(self) -> Seq<char> {
        match self.kind {
            ControlKind::Integer => decimal(self.value),
            ControlKind::Boolean => if self.value == 1 {
                seq!['T', 'r', 'u', 'e']
            } else {
                seq!['F', 'a', 'l', 's', 'e']
            },
            ControlKind::Menu => if self.items.contains_key(self.value) {
                self.items[self.value]
            } else {
                decimal(self.value)
            },
        }
    }
}

impl ReportView {
    /// The smaller of the two reported bounds.
    pub open spec fn low(self) -> int {
        min(self.minimum, self.maximum)
    }

    /// The larger of the two reported bounds.
    pub open spec fn high(self) -> int {
        max(self.minimum, self.maximum)
    }

    /// The descriptor made of this report, or `None` where its kind cannot be
    /// adjusted. The bounds are put in order, a step of zero becomes one, the
    /// default is brought within the bounds and becomes the value, and a
    /// menu keeps the items whose keys lie within the bounds.
    pub open spec fn normalized(self) -> Option<ControlView> {
        match adjustable(self.kind) {
            None => None,
            Some(kind) => Some(
                ControlView {
                    id: self.id,
                    name: self.name,
                    kind,
                    minimum: self.low(),
                    maximum: self.high(),
                    step: if self.step == 0 {
                        1
                    } else {
                        self.step
                    },
                    items: if kind == ControlKind::Menu {
                        menu(retained_items(self.items, self.low(), self.high()))
                    } else {
                        Map::empty()
                    },
                    value: clamp(self.default, self.low(), self.high()),
                },
            ),
        }
    }
}

/// Every key of the menu made of the retained items lies within the bounds.
pub proof fn lemma_retained_menu_within(items: Seq<(int, Seq<char>)>, low: int, high: int)
    ensures
        forall|k: int| #[trigger]
            menu(retained_items(items, low, high)).contains_key(k) ==> low <= k <= high,
    decreases items.len(),
{
    if items.len() > 0 {
        lemma_retained_menu_within(items.drop_last(), low, high);
        let rest = retained_items(items.drop_last(), low, high);
        if low <= items.last().0 <= high {
            let kept = rest.push(items.last());
            assert(kept.drop_last() =~= rest);
            assert(menu(kept) == menu(rest).insert(items.last().0, items.last().1));
        }
    }
}

/// A key that no entry has is not in the menu.
pub proof fn lemma_menu_absent(items: Seq<(int, Seq<char>)>, key: int)
    requires
        forall|j: int| 0 <= j < items.len() ==> (#[trigger] items[j]).0 != key,
    ensures
        !menu(items).contains_key(key),
    decreases items.len(),
{
    if items.len() > 0 {
        lemma_menu_absent(items.drop_last(), key);
    }
}

/// The menu gives a key the label of the last entry that has it.
pub proof fn lemma_menu_last_entry(items: Seq<(int, Seq<char>)>, at: int)
    requires
        0 <= at < items.len(),
        forall|j: int| at < j < items.len() ==> (#[trigger] items[j]).0 != items[at].0,
    ensures
        menu(items).contains_key(items[at].0),
        menu(items)[items[at].0] == items[at].1,
    decreases items.len(),
{
    if at < items.len() - 1 {
        assert(items.last() == items[items.len() - 1]);
        assert forall|j: int| at < j < items.drop_last().len() implies (
        #[trigger] items.drop_last()[j]).0 != items.drop_last()[at].0 by {
            assert(items.drop_last()[j] == items[j]);
        }
        lemma_menu_last_entry(items.drop_last(), at);
    }
}

/// Normalization yields a well-formed descriptor, whatever the report holds.
pub proof fn lemma_normalized_wf(report: ReportView)
    ensures
        report.normalized() is Some ==> report.normalized()->0.wf(),
{
    lemma_retained_menu_within(report.items, report.low(), report.high());
}

/// An adjustment, whichever way its write ended, leaves the descriptor well
/// formed and touches nothing but the value.
pub proof fn lemma_settled_wf(control: ControlView, direction: Direction, outcome: WriteOutcome)
    requires
        control.wf(),
    ensures
        control.settled(direction, outcome).wf(),
        control.same_but_value(control.settled(direction, outcome)),
{
}

/// A refresh, whatever was read, leaves the descriptor well formed and
/// touches nothing but the value.
pub proof fn lemma_refreshed_wf(control: ControlView, reading: Option<i64>)
    requires
        control.wf(),
    ensures
        control.refreshed(reading).wf(),
        control.same_but_value(control.refreshed(reading)),
{
}

/// However often a value is increased, it never passes the maximum, and
/// however often it is decreased, it never passes the minimum, whichever of
/// the writes succeed: the value stays within the bounds, and the bounds
/// stay what they were.
pub proof fn lemma_adjusted_repeatedly_within_bounds(
    control: ControlView,
    direction: Direction,
    outcomes: Seq<WriteOutcome>,
)
    requires
        control.wf(),
    ensures
        control.adjusted_repeatedly(direction, outcomes).wf(),
        control.adjusted_repeatedly(direction, outcomes).minimum == control.minimum,
        control.adjusted_repeatedly(direction, outcomes).maximum == control.maximum,
        control.minimum <= control.adjusted_repeatedly(direction, outcomes).value
            <= control.maximum,
    decreases outcomes.len(),
{
    if outcomes.len() > 0 {
        lemma_adjusted_repeatedly_within_bounds(control, direction, outcomes.drop_last());
    }
}

/// An increase never lowers the value and a decrease never raises it; either
/// moves it by one stride, or by what is left up to the bound.
pub proof fn lemma_candidate_moves_toward_bound(control: ControlView, direction: Direction)
    requires
        control.wf(),
    ensures
        control.minimum <= control.candidate(direction) <= control.maximum,
        direction == Direction::Increase ==> control.value <= control.candidate(direction)
            <= control.value + control.stride(),
        direction == Direction::Decrease ==> control.value - control.stride()
            <= control.candidate(direction) <= control.value,
{
}

/// At the maximum an increase, and at the minimum a decrease, asks for no
/// write and changes nothing, whatever outcome is reported for it.
pub proof fn lemma_at_bound_nothing_changes(
    control: ControlView,
    direction: Direction,
    outcome: WriteOutcome,
)
    requires
        control.wf(),
        match direction {
            Direction::Increase => control.value == control.maximum,
            Direction::Decrease => control.value == control.minimum,
        },
    ensures
        control.pending_write(direction) is None,
        control.settled(direction, outcome) == control,
{
}

/// Away from the bound there is always something to write: an increase asks
/// for no write only at the maximum, a decrease only at the minimum.
pub proof fn lemma_write_pending_unless_at_bound(control: ControlView)
    requires
        control.wf(),
    ensures
        control.pending_write(Direction::Increase) is None <==> control.value == control.maximum,
        control.pending_write(Direction::Decrease) is None <==> control.value == control.minimum,
{
}

/// A write that failed changes nothing.
pub proof fn lemma_failed_write_changes_nothing(control: ControlView, direction: Direction)
    ensures
        control.settled(direction, WriteOutcome::Failed) == control,
{
}

/// The value that a control holds once it was discovered and read for the
/// first time: the live value where the read succeeded, the reported default
/// where it failed, either of them brought within the bounds.
pub proof fn lemma_initial_value(report: ReportView, reading: Option<i64>)
    requires
        report.normalized() is Some,
    ensures
        report.normalized()->0.refreshed(reading).value == match reading {
            Some(live) => clamp(live as int, report.low(), report.high()),
            None => clamp(report.default, report.low(), report.high()),
        },
{
}

/// A live value within the bounds replaces the value held, whatever that was.
pub proof fn lemma_refresh_overwrites(control: ControlView, live: i64)
    requires
        control.minimum <= live <= control.maximum,
    ensures
        control.refreshed(Some(live)).value == live,
{
}

/// The normalized record of one adjustable control: its identity, bounds,
/// step, menu items and the value last known.
#[derive(Debug)]
pub struct ControlDescriptor {
    id: u32,
    name: String,
    kind: ControlKind,
    minimum: i64,
    maximum: i64,
    step: u64,
    items: Vec<MenuItem>,
    value: i64,
}

impl View for ControlDescriptor {
    type V = ControlView;

    closed spec fn view(&self) -> ControlView {
        ControlView {
            id: self.id,
            name: self.name@,
            kind: self.kind,
            minimum: self.minimum as int,
            maximum: self.maximum as int,
            step: self.step as nat,
            items: menu(item_views(self.items@)),
            value: self.value as int,
        }
    }
}

/// `v`, moved to the nearer bound where it lies outside `low ..= high`.
fn clamped(v: i64, low: i64, high: i64) -> (within: i64)
    requires
        low <= high,
    ensures
        within == clamp(v as int, low as int, high as int),
        low <= within <= high,
{
    if v < low {
        low
    } else if v > high {
        high
    } else {
        v
    }
}

/// Copies the entries of `items` whose key lies in `low ..= high`.
fn retain_items(items: &Vec<MenuItem>, low: i64, high: i64) -> (kept: Vec<MenuItem>)
    ensures
        item_views(kept@) == retained_items(item_views(items@), low as int, high as int),
{
    let mut kept: Vec<MenuItem> = Vec::new();
    let mut i: usize = 0;
    while i < items.len()
        invariant
            i <= items.len(),
            item_views(kept@) == retained_items(
                item_views(items@).take(i as int),
                low as int,
                high as int,
            ),
        decreases items.len() - i,
    {
        let ghost all = item_views(items@);
        assert(all.take(i + 1).drop_last() =~= all.take(i as int));
        if low <= items[i].key && items[i].key <= high {
            kept.push(MenuItem { key: items[i].key, label: items[i].label.clone() });
        }
        i = i + 1;
    }
    assert(item_views(items@).take(i as int) =~= item_views(items@));
    kept
}

impl ControlDescriptor {
    /// Holds of every descriptor, at all times.
    #[verifier::type_invariant]
    pub open spec fn well_formed(self) -> bool {
        self@.wf()
    }

    /// Makes the descriptor of a reported control, or `None` where the
    /// reported kind cannot be adjusted: only integers, booleans and menus
    /// can. The bounds are put in order, a step of zero becomes one, the
    /// default is brought within the bounds and becomes the value, and a
    /// menu keeps the items whose keys lie within the bounds.
    pub fn normalize(report: &ReportedControl) -> (control: Option<ControlDescriptor>)
        ensures
            report@.normalized() == match control {
                Some(c) => Some(c@),
                None => None,
            },
            control is Some ==> control->0@.wf(),
    {
        let kind = match report.kind {
            ReportedKind::Integer => ControlKind::Integer,
            ReportedKind::Boolean => ControlKind::Boolean,
            ReportedKind::Menu => ControlKind::Menu,
            _ => {
                return None;
            },
        };
        let (minimum, maximum): (i64, i64) = if report.minimum <= report.maximum {
            (report.minimum, report.maximum)
        } else {
            (report.maximum, report.minimum)
        };
        let step: u64 = if report.step == 0 {
            1
        } else {
            report.step
        };
        let value: i64 = clamped(report.default, minimum, maximum);
        let items: Vec<MenuItem> = if kind == ControlKind::Menu {
            retain_items(&report.items, minimum, maximum)
        } else {
            Vec::new()
        };
        proof {
            lemma_retained_menu_within(item_views(report.items@), minimum as int, maximum as int);
        }
        Some(
            ControlDescriptor {
                id: report.id,
                name: report.name.clone(),
                kind,
                minimum,
                maximum,
                step,
                items,
                value,
            },
        )
    }

    /// The identifier that the device gave the control.
    pub fn id(&self) -> (id: u32)
        ensures
            id == self@.id,
    {
        self.id
    }

    /// The name shown for the control.
    pub fn name(&self) -> (name: &String)
        ensures
            name@ == self@.name,
    {
        &self.name
    }

    /// The kind of the control.
    pub fn kind(&self) -> (kind: ControlKind)
        ensures
            kind == self@.kind,
    {
        self.kind
    }

    /// The smallest value the control takes.
    pub fn minimum(&self) -> (minimum: i64)
        ensures
            minimum == self@.minimum,
    {
        self.minimum
    }

    /// The largest value the control takes.
    pub fn maximum(&self) -> (maximum: i64)
        ensures
            maximum == self@.maximum,
    {
        self.maximum
    }

    /// The granularity that the device reported, at least one.
    pub fn step(&self) -> (step: u64)
        ensures
            step == self@.step,
            step >= 1,
    {
        proof {
            use_type_invariant(self);
        }
        self.step
    }

    /// The value last known, which lies within the bounds.
    pub fn value(&self) -> (value: i64)
        ensures
            value == self@.value,
            self@.minimum <= value <= self@.maximum,
    {
        proof {
            use_type_invariant(self);
        }
        self.value
    }

    /// The label that the menu gives `key`, if it has an item with that key.
    pub fn item_label(&self, key: i64) -> (label: Option<&String>)
        ensures
            label is Some <==> self@.items.contains_key(key as int),
            label is Some ==> label->0@ == self@.items[key as int],
    {
        let mut i: usize = self.items.len();
        while i > 0
            invariant
                i <= self.items.len(),
                forall|j: int|
                    i <= j < self.items.len() ==> (#[trigger] item_views(self.items@)[j]).0
                        != key,
            decreases i,
        {
            i = i - 1;
            if self.items[i].key == key {
                proof {
                    lemma_menu_last_entry(item_views(self.items@), i as int);
                }
                return Some(&self.items[i].label);
            }
        }
        proof {
            lemma_menu_absent(item_views(self.items@), key as int);
        }
        None
    }

    /// The value that an adjustment in `direction` aims at.
    pub fn candidate(&self, direction: Direction) -> (candidate: i64)
        ensures
            candidate == self@.candidate(direction),
            self@.minimum <= candidate <= self@.maximum,
    {
        proof {
            use_type_invariant(self);
        }
        let stride: u64 = match self.kind {
            ControlKind::Integer => self.step,
            _ => 1,
        };
        match direction {
            Direction::Increase => {
                let raised: i128 = self.value as i128 + stride as i128;
                if raised > self.maximum as i128 {
                    self.maximum
                } else {
                    raised as i64
                }
            },
            Direction::Decrease => {
                let lowered: i128 = self.value as i128 - stride as i128;
                if lowered < self.minimum as i128 {
                    self.minimum
                } else {
                    lowered as i64
                }
            },
        }
    }

    /// The first half of an adjustment: the value to write to the device, or
    /// `None` where the value already stands at the bound in `direction` and
    /// nothing is to be written.
    pub fn plan_adjust(&self, direction: Direction) -> (write: Option<i64>)
        ensures
            self@.pending_write(direction) == match write {
                Some(v) => Some(v as int),
                None => None,
            },
            direction == Direction::Increase && self@.value == self@.maximum ==> write is None,
            direction == Direction::Decrease && self@.value == self@.minimum ==> write is None,
    {
        proof {
            use_type_invariant(self);
        }
        let candidate = self.candidate(direction);
        if candidate == self.value {
            None
        } else {
            Some(candidate)
        }
    }

    /// The second half of an adjustment, to be called with the outcome of the
    /// write before anything else changes the value: takes the candidate
    /// over as the value when the write succeeded, and changes nothing when
    /// it failed.
    pub fn complete_adjust(&mut self, direction: Direction, outcome: WriteOutcome)
        ensures
            final(self)@ == old(self)@.settled(direction, outcome),
            outcome == WriteOutcome::Failed ==> final(self)@ == old(self)@,
            final(self)@.minimum <= final(self)@.value <= final(self)@.maximum,
    {
        proof {
            use_type_invariant(&*self);
        }
        match outcome {
            WriteOutcome::Written => {
                let candidate = self.candidate(direction);
                self.value = candidate;
            },
            WriteOutcome::Failed => {},
        }
    }

    /// Takes over the live value that was read from the device, brought
    /// within the bounds; a failed read (`None`) changes nothing.
    pub fn refresh(&mut self, reading: Option<i64>)
        ensures
            final(self)@ == old(self)@.refreshed(reading),
            reading is None ==> final(self)@ == old(self)@,
            reading is Some && old(self)@.minimum <= reading->0 <= old(self)@.maximum
                ==> final(self)@.value == reading->0,
    {
        proof {
            use_type_invariant(&*self);
        }
        match reading {
            Some(live) => {
                self.value = clamped(live, self.minimum, self.maximum);
            },
            None => {},
        }
    }

    /// The text shown for the value.
    pub fn label(&self) -> (label: String)
        ensures
            label@ == self@.label(),
    {
        match self.kind {
            ControlKind::Integer => render_decimal(self.value),
            ControlKind::Boolean => {
                proof {
                    reveal_strlit("True");
                    reveal_strlit("False");
                }
                if self.value == 1 {
                    String::from_str("True")
                } else {
                    String::from_str("False")
                }
            },
            ControlKind::Menu => match self.item_label(self.value) {
                Some(label) => label.clone(),
                None => render_decimal(self.value),
            },
        }
    }

    /// The gauge of this control: its name, the text shown for its value, and
    /// the two terms of the fraction that the gauge fills.
    pub fn gauge(&self, focused: bool) -> (gauge: Gauge)
        ensures
            gauge@ == self@.gauge(focused),
            gauge.filled <= gauge.span,
    {
        proof {
            use_type_invariant(self);
        }
        let filled: i128 = self.value as i128 - self.minimum as i128;
        let span: i128 = self.maximum as i128 - self.minimum as i128;
        Gauge {
            title: self.name.clone(),
            label: self.label(),
            filled: filled as u64,
            span: span as u64,
            focused,
        }
    }
}

} // verus!
