//! Turns an IDE-style C/C++ configuration description into a compiler command
//! database.
//!
//! The library holds the core logic: stripping `//` and `/* */` comments from
//! the configuration text with a scanner that respects JSON string literals,
//! analysing the shape of the parsed document, selecting the first
//! configuration block, resolving the operating mode (pass a pre-built
//! database through, merge embedded or referenced entries, or generate fresh
//! entries), extracting the compiler settings, and synthesizing one
//! compiler-command entry per source file.
//!
//! Reading files, command-line handling and the final serialization of the
//! output array are left to the surrounding program, which hands the library
//! plain bytes and strings and receives plain values back.
pub mod entries;
pub mod json;
pub mod parse;
pub mod resolve;
pub mod text;
