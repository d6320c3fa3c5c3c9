//! Verified core of a socket-report tool: it joins a snapshot of the OS
//! socket table with a snapshot of the process table, sorts the joined
//! records by local port, and renders a fixed-format text report with a TCP
//! and a UDP section. Collecting the snapshots and printing the report are
//! left to the caller; everything in between is specified and proved here.

pub mod join;
pub mod model;
pub mod render;
pub mod report;
pub mod sort;
