//! Local persistence core of a personal productivity store: schema
//! migration decisions, an at-rest encryption key custodian and a rotating
//! backup policy, with the statement and value building that the command
//! layer needs. Everything that touches the disk or the database engine is
//! done by the caller, which hands plain values to the functions here.

pub mod encryption;
pub mod keys;
pub mod backup;
pub mod schema;
pub mod models;
pub mod media;
pub mod calendar;
pub mod updates;
