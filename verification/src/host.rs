//! Host process supervision: readiness parsing and the decisions around it.
pub mod crash;
pub mod lifecycle;
pub mod readiness;
pub mod session_log;
pub mod supervisor;
