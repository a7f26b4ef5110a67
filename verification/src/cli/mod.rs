//! The decisions of the `md2pdf` command line: which options win, which
//! format and theme a conversion uses, where its output goes, and what the
//! `validate` command counts and reports. Reading and writing files is left
//! to the binary, which hands the facts it gathered to these functions.

pub mod args;
pub mod convert;
pub mod paths;
pub mod validate;
