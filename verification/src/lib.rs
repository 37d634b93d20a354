//! Rewrites package manager commands (`npm`, `pnpm`, `yarn`, `bun` and
//! their runners) into the form of a preferred package manager, and decides
//! what a clipboard watch does with each text it reads.
//!
//! Every function is verified against a contract over character sequences.
//! The clipboard itself, the window and the threads are the caller's.

pub mod laws;
pub mod manager;
pub mod mappings;
pub mod monitor;
pub mod state;
pub mod text;
pub mod translate;
pub mod watch;
