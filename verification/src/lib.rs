//! Fork-chain resolution for hosted git repositories.
//!
//! Given a repository URL, the library parses it into a [`repo::RepoRef`],
//! and walks the "forked-from" relationship one hop at a time until it
//! reaches a repository with no parent, producing a
//! [`resolver::ForkResolution`]: the base repository plus every descendant
//! fork in the chain, each with its canonical clone URL, local directory
//! and remote name. Network queries and credential storage are left to the
//! caller; the decisions taken at every hop live here.

pub mod config;
pub mod errors;
pub mod repo;
pub mod resolver;
