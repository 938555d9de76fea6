//! A host-side bridge to the QuickJS scripting runtime: the value model that
//! crosses the boundary, and the decisions taken while marshalling values,
//! running callbacks and settling promises.

pub mod bigint;
pub mod callback;
pub mod console;
pub mod context;
pub mod convert;
pub mod error;
pub mod exception;
pub mod loader;
pub mod model;
pub mod promise;
pub mod resource;
pub mod serialize;
pub mod value;

pub use bigint::{BigIntOrI64, JsBigInt};
pub use error::{ContextError, ExecutionError};
pub use exception::DumpHostPromiseRejectionTracker;
pub use loader::FsJsModuleLoader;
pub use resource::{ClassId, ResourceObject};
pub use value::{JsValue, ValueError};
