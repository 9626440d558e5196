//! Subsystem lifecycle orchestration for the Rustgine engine.
//!
//! The crate holds an ordered registry of named subsystems, starts them in
//! registration order, decides when a running engine has to stop, and tears
//! the subsystems down in the reverse order.

pub mod config;
pub mod ecs;
pub mod error;
pub mod order;
pub mod platform;
pub mod registry;
pub mod render;
pub mod runtime;
pub mod scheduler;
pub mod shutdown;
pub mod state;
pub mod system;
pub mod trace;

pub use config::Config;
pub use ecs::RustgineEcs;
pub use error::LifecycleError;
pub use platform::RustginePlatform;
pub use registry::{NamedSystem, Registry, ShutdownPolicy, SweepFailure, SweepReport};
pub use render::RustgineRender;
pub use runtime::{Action, Event, Phase, Runner, Step, WaitFor};
pub use scheduler::RustgineScheduler;
pub use shutdown::{Delivery, Shutdown, ShutdownRx};
pub use state::AppState;
pub use system::RustgineSystem;
pub use trace::default_level;
