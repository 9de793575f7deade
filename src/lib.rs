//! A service supervisor's verified core: the path policy, the dependency
//! orderer, the child table and its restart policy, the service actions,
//! the control-socket protocol and the status table renderer.

pub mod command;
pub mod error;
pub mod init;
pub mod order;
pub mod paths;
pub mod protocol;
pub mod service;
pub mod table;
pub mod wait;
