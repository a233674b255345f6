//! PKM connectors: the modules that extract data from specific PKM tools
//! and hand it to the triplification pipeline.

pub mod obsidian;
