//! A live markdown server's core: route keys, the rendered-content store, the
//! change pipeline, root reconfiguration, the listener registry and the console
//! command grammar.
pub mod route;
pub mod store;
pub mod page;
pub mod pipeline;
pub mod registry;
pub mod api;
pub mod console;
pub mod bytes;
