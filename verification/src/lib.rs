//! Verified core of the system manager: node bookkeeping and installation
//! plans, the error-code catalogue and answers of the HTTP API, machine
//! information of the agents, and the monitor server's worker bookkeeping.
pub mod address;
pub mod decimal;
pub mod error_codes;
pub mod http;
pub mod monitor;
pub mod node;
pub mod sys_info;
