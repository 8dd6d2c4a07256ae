//! Wi-Fi control for a desktop panel: the confirmed view of the radio and its
//! networks, the overlay of what is still in flight, and the decisions that
//! keep the two in step with a network service reached over the system bus.
//!
//! Nothing here talks to the bus or draws a widget. Every function takes plain
//! values and gives plain values back, and says in its contract what they are.

pub mod text;
pub mod models;
pub mod snapshot;
pub mod backend;
pub mod messages;
pub mod ssid_set;
pub mod watcher;
pub mod events;
pub mod transitions;
pub mod orchestrator;
pub mod inputs;
pub mod dispatcher;
pub mod view;
pub mod signals;
