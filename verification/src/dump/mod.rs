//! The primitive dump: everything the parsers read from an APK and from each
//! DEX file in it, gathered into plain records that a front end can print.
pub mod apk;
pub mod dex;
pub mod names;
pub mod queries;
