//! Locating modules in another process and searching their memory for byte
//! signatures that may contain wildcard positions.
pub mod enumeration;
pub mod error;
pub mod external;
pub mod pattern;
pub mod scanner;
pub mod utils;
