//! Event dispatch and object-lifecycle engine for a display-server
//! wire protocol.
//!
//! The engine keeps the table of client connections and protocol objects,
//! resolves each incoming message to the callback registered for its
//! opcode, tracks the liveness of every object, and lets the application
//! advertise globals that clients bind to create further objects.

pub mod dispatch;
pub mod event_loop;
pub mod flush;
pub mod global;
pub mod interface;
pub mod journal;
pub mod liveness;
pub mod resource;
pub mod sources;
pub mod state;
pub mod table;
pub mod wire;

pub use dispatch::{ProtocolError, Request, Step};
pub use event_loop::{
    BindError, Bound, EventLoop, EventLoopHandle, Implementable, RegisterStatus, Serviced,
};
pub use flush::Outbox;
pub use global::{Global, GlobalError, GlobalRegistry};
pub use interface::{ArgKind, Interface, MessageDesc};
pub use journal::{Invocation, Journal};
pub use liveness::{EventResult, Liveness};
pub use resource::{AsHandle, Delivery, Handle, Posted, Resource};
pub use state::{StateStore, StateToken};
pub use table::{ClientId, CreateError, Implementation, Message, ObjectTable, ResourcePtr};
pub use wire::{Argument, Frame};
