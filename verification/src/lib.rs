//! Move data between a block-addressable cloud snapshot and a local disk
//! image file: verify and write a snapshot's populated blocks into a
//! sparse image sized to the snapshot's length, partition a local file
//! into checksummed blocks for upload while skipping its all-zero
//! windows, and decide a bounded, backed-off wait for a snapshot to
//! reach a terminal state.

pub mod block;
pub mod checksum;
pub mod download;
pub mod errors;
pub mod image;
pub mod progress;
pub mod retry;
pub mod scanner;
pub mod tag;
pub mod upload;
pub mod wait;
