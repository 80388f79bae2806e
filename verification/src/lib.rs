//! State models for a small set of reactive user-interface widgets.
//!
//! Every widget is a plain value together with the transitions that its
//! event handlers perform.  A rendering layer keeps such a value in a
//! reactive cell, applies one transition per event and draws what the
//! accessors report; the widgets themselves never touch a document.
//!
//! * [`progress::ProgressBar`]: what a progress indicator displays.
//! * [`counter::Counter`]: a click counter with a derived doubled value.
//! * [`static_list::StaticList`]: a fixed number of independent counters.
//! * [`dynamic_list::DynamicList`]: counters that can be added and removed,
//!   each known by an identifier that is never handed out twice.  Its
//!   mathematical model and the laws of that model are in [`list_model`].
//! * [`form::Form`]: a controlled and an uncontrolled text input.

pub mod counter;
pub mod dynamic_list;
pub mod form;
pub mod list_model;
pub mod progress;
pub mod static_list;
