//! Runtime core for exposing reference-counted host objects and asynchronous
//! computations to foreign callers across a C-compatible boundary.
//!
//! The crate is organised around four components:
//!
//! * [`codec`] — the value codec: a self-describing, big-endian byte encoding
//!   for scalars, strings, optionals and sequences, with a proved round trip.
//! * [`handle`] — the handle manager: opaque integer handles standing for one
//!   owning reference each to a host-side object.
//! * [`status`] — the call channel: the uniform status/error protocol that
//!   every boundary-crossing call reports through.
//! * [`task`] — the asynchronous task bridge: the state machine that lets a
//!   polling foreign caller drive a host-side computation through a
//!   continuation-callback protocol.
//!
//! The binding generators ([`scaffolding`], [`gen_kotlin`], [`gen_swift`])
//! render, for each type of a component's [`interface`], the source text
//! that moves values of it across the boundary. The fixture modules
//! ([`coverall`], [`error_types`]) are small components exercising the
//! runtime: a reference-counted object behind the handle manager, and the
//! shapes of failure the call channel reports.

pub mod codec;
pub mod coverall;
pub mod error_types;
pub mod gen_kotlin;
pub mod gen_swift;
pub mod handle;
pub mod interface;
pub mod scaffolding;
pub mod status;
pub mod task;

pub use codec::ConversionError;
pub use codec::Value;
pub use handle::HandleMap;
pub use status::CallStatus;
pub use status::CallStatusCode;
pub use task::Task;
