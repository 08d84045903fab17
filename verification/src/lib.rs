//! A minimal runtime core for terminal user interfaces.
//!
//! The runtime owns one pluggable [`Component`](component::Component) and
//! drives it on a fixed cadence: each tick drains the queued input events in
//! arrival order, drains the control messages the component emitted, honours a
//! quit request, and otherwise produces one render. Input capture, timers and
//! the terminal device itself are left to a thin unverified host; everything
//! the runtime decides — dispatch order, the quit protocol, the lifecycle
//! phases, the render output — is stated in contracts and proved.

pub mod app;
pub mod component;
pub mod event;
pub mod examples;
pub mod message;
pub mod text;

pub use app::App;
pub use component::Component;
pub use component::Rect;
pub use event::Event;
pub use event::EventResult;
pub use message::Message;
