//! Binding generation for a managed class library: type mapping, identifier
//! mangling, overload disambiguation, declaration rendering, and the decision
//! logic of the runtime call layer.

pub mod classpath;
pub mod context;
pub mod ident;
pub mod method;
pub mod model;
pub mod modules;
pub mod runtime;
pub mod structs;
pub mod text;
pub mod types;
