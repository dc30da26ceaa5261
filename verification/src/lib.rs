//! Typed, long-lived resources: who holds them, who may build them, and when
//! they end.
//!
//! A resource is established as a *generation*: one interface and one managed
//! task. A strong reference is a lease on its generation. Releasing the last
//! lease requests cancellation, once; the generation ends when its task does,
//! with one outcome that never changes. A *placement* says which requests mean
//! the same generation, and a *domain* keeps at most one active generation for
//! each such identity.
//!
//! This crate holds the decisions: [`domain::Domain`] is the state of one
//! domain, and every operation on it says exactly what it does to that state,
//! as a function on [`model::DomainView`]. It runs no task and waits for
//! nothing. A program that embeds it keeps the domain behind a lock, constructs
//! resources, spawns their tasks and awaits them, and hands back what became of
//! each.
//!
//! What holds of every domain is [`model::DomainView::wf`]. That every
//! operation keeps it is proved in [`laws`]; what each operation comes to, told
//! by what a domain holds, in [`behaviour`]; and what follows for the users of a
//! domain in [`guarantees`].

pub mod behaviour;
pub mod context;
pub mod domain;
pub mod error;
pub mod guarantees;
pub mod identity;
pub mod laws;
pub mod lifecycle;
pub mod model;
pub mod placement;
pub mod reference;
pub mod registry;
pub mod runtime;
pub mod signal;
pub mod table;

pub use context::{ResourceContext, ResourceStatus};
pub use error::{AcquireError, RunError};
pub use placement::{CanonicalPlacement, Keyed, Keyer, Placement, Singleton, Unique};
pub use reference::{ResourceCompletion, ResourceOutcome, ResourceRef, WeakResourceRef};
pub use runtime::ResourceRuntime;
