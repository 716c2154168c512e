//! A local alert-scheduler daemon library: a store of recurring alert
//! schedules, a registry model for their background timers, and the
//! request handler that keeps the two in lockstep, with the wire-level
//! response encoding.

pub mod cli;
pub mod handler;
pub mod laws;
pub mod numfmt;
pub mod protocol;
pub mod registry;
pub mod schedule;
pub mod store;
pub mod wire;

pub use cli::Cli;
pub use cli::Commands;
pub use cli::request_of;
pub use handler::Applied;
pub use handler::Daemon;
pub use numfmt::u64_to_string;
pub use protocol::Request;
pub use protocol::Response;
pub use protocol::decode_error_response;
pub use protocol::not_found_message;
pub use protocol::save_error_response;
pub use schedule::AlertSchedule;
pub use schedule::ScheduleError;
pub use schedule::ScheduleView;
pub use registry::TimerAction;
pub use registry::TimerActionView;
pub use registry::TimerRegistry;
pub use store::ScheduleStore;
pub use wire::encode_request;
pub use wire::encode_response;
