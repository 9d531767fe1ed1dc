//! Random access to Esri ASCII grid rasters.
//!
//! The library holds the byte-level logic: the header parser, the row
//! offset index, the row cache and the order in which a full scan reports
//! cells. Reading and seeking are left to the caller, who hands the library
//! the bytes it asked for.
pub mod header;
pub mod laws;
pub mod reader;
pub mod scan;
pub mod text;
