//! Reading and changing a host's DNS resolver settings through its
//! configuration tool, and probing DNS servers for reachability.
//!
//! The library holds the logic: parsing the tool's output in English or
//! Russian, planning the tool runs that apply or reset settings and deciding
//! after each run, building probe results, and editing the preset list. Running
//! the tool, sockets and files are the caller's part.
pub mod text;
pub mod ip;
pub mod pattern;
pub mod parser;
pub mod types;
pub mod version;
pub mod network;
pub mod dns;
pub mod presets;
