//! Supervision of the Paper server process: its state machine, its log
//! ring and the files written before it starts.
pub mod instance;
pub mod process;
pub mod props;
