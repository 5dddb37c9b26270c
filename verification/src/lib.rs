//! Splits a tall scanned image into page-sized bands by cutting at solid
//! (single-color) rows, under minimum and maximum page-height constraints.

pub mod imagebuf;
pub mod solidity;
pub mod planner;
pub mod regions;