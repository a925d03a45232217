//! Settings: typed reads of the settings table.

pub mod settings;
