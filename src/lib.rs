//! Cold-storage engine: manifest model, staging and freeze-script planning,
//! archive/LUKS sizing rules, restore and check decisions.

pub mod text;
pub mod quote;
pub mod error;
pub mod paths;
pub mod manifest;
pub mod freeze;
pub mod procstatus;
pub mod mountinfo;
pub mod archive;
pub mod luks;
pub mod check;
pub mod restore;
pub mod staging;
pub mod cleanup;
pub mod elevation;
pub mod cli;
pub mod zk_cli;
pub mod zks_cli;
pub mod targets;
pub mod progress;
pub mod unmount;
