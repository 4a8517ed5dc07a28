//! SAP HANA backend binding: the logic of a plugin that runs operator-fixed SQL
//! statements against a HANA database and hands the rows to an MCP gateway.
//!
//! A binding is one statement and becomes one tool, resource or prompt. What a
//! caller sends is bound to the `?` of the statement and never becomes part of
//! its text. The library decides and computes; opening sockets, waiting and
//! talking to the gateway is left to the program around it.
//!
//! - [`types`], [`surface`]: what an operator configures, and the shapes in which
//!   rows go out.
//! - [`profile`], [`connection`], [`plugin`]: registration of a binding, the
//!   connect parameters it leads to, and the registered bindings.
//! - [`params`], [`engine`], [`calls`], [`listing`]: what is asked of HANA.
//! - [`marshal`], [`envelope`], [`audit`]: what becomes of the answer.
//! - [`watch`]: polling for changes.
//! - [`json`], [`text`]: values and strings.
pub mod audit;
pub mod calls;
pub mod connection;
pub mod engine;
pub mod envelope;
pub mod json;
pub mod listing;
pub mod marshal;
pub mod params;
pub mod plugin;
pub mod profile;
pub mod surface;
pub mod text;
pub mod types;
pub mod watch;

pub use plugin::HanaBackendPlugin;
pub use types::{
    validate_completion, validate_list_query, CompletionConfig as HanaCompletionConfig,
    HanaBackendSpec, HanaOperation, ListQueryConfig, ListQueryMode,
};
