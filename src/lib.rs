//! An encrypted, single-user credential vault: typed service records and
//! accounts, kept in one encrypted file and held in memory only while unlocked.

pub mod bulk;
pub mod commands;
pub mod crypto;
pub mod defaults;
pub mod models;
pub mod records;
pub mod storage;
