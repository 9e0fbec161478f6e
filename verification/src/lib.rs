//! State model for a panel of camera-like devices and their bounded controls.
//!
//! A [`registry::Registry`] holds one [`binding::DeviceBinding`] per device,
//! each with its [`control::ControlDescriptor`]s in the order the device
//! listed them. The library never touches a device or a terminal itself. The
//! caller performs the reads and writes and hands the outcomes in; the
//! library decides what is to be written, what each outcome does to the
//! state, and what is shown of it:
//!
//! - [`control`]: what a device reports of a control, its normalized record,
//!   and the arithmetic of adjusting and refreshing a value;
//! - [`binding`]: the controls of one device and the focus among them;
//! - [`registry`]: the devices and the focus among them, discovery,
//!   adjustment of the focused control, and resync;
//! - [`session`]: keys, events, and one turn of the event loop;
//! - [`presentation`]: tabs and gauges for a renderer;
//! - [`decimal`]: the decimal text of a number.

pub mod binding;
pub mod control;
pub mod decimal;
pub mod presentation;
pub mod registry;
pub mod session;
