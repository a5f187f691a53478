//! The decision logic of the commands that maintain the model.
//!
//! Each command's reads and writes of the model store and the file system
//! stay with the caller; what a command decides from what it has read, and
//! what it reports, is here.

pub mod output;
pub mod sync_cmd;
pub mod drift;
pub mod verify;
pub mod assert_cmd;
pub mod export;
pub mod recover;
pub mod next_cmd;
pub mod experiment_cmd;
pub mod migrate_cmd;
pub mod index_cmd;
pub mod init_cmd;
pub mod branch_cmd;
pub mod query;
pub mod retract;
pub mod entity_cmd;
pub mod depend;
