//! A client for webOS TVs: the commands and their answers, the state of a connection, and the search
//! for TVs.
pub mod address;
pub mod builder;
pub mod bytes;
pub mod cmd;
pub mod cmd_laws;
pub mod conn;
pub mod conn_task;
pub mod error;
pub mod event_laws;
pub mod history;
pub mod json;
pub mod json_value;
pub mod lossy;
pub mod main_conn;
pub mod ping;
pub mod pointer_conn;
pub mod processor;
pub mod scan;
pub mod scan_laws;
pub mod text;
pub mod waiting;

pub use builder::LgtvBuilder;
pub use cmd::TvCmd;
pub use error::TvError;
pub use json::Json;
pub use scan::FoundTV;
