//! Verified core of a C64 SID tune analyzer.

pub mod analysis;
pub mod chars;
pub mod export;
pub mod header;
pub mod numerals;
pub mod playerid;
pub mod songlengths;
pub mod stil;
pub mod support;
pub mod trace;
