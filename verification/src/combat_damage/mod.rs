//! Attributing lost hit points to the hits that caused them.

pub mod conjugate;
pub mod catalog;
pub mod matcher;
pub mod aggregate;
pub mod collector;
pub mod viewer;
pub mod storage;
pub mod rollup;
pub mod sorting;
