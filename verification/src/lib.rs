//! Scheduling rules of a benchmark for pairwise sequence aligners.
//!
//! A benchmark is a list of jobs. Each job names a dataset, a cost model, an
//! aligner with its parameters, and the time and memory it may use. Each
//! job is run in a process of its own, the runner, and what it reports is
//! kept in a store that outlives the run.
//!
//! This crate holds the decisions that are taken around running the jobs:
//!
//! - [`experiment`] makes the jobs that an experiment stands for;
//! - [`cache`] splits the store, takes the jobs off the list that a stored
//!   result answers, and merges fresh results into the store;
//! - [`plan`] gives out the cores of the machine;
//! - [`dispatch`] hands the jobs to the workers, counts the results and
//!   decides which of them are kept, and [`skip`] decides which jobs are
//!   not run because an easier one failed;
//! - [`process`] reads the exit of a runner;
//! - [`verify`] checks the costs that different aligners report against
//!   each other, and [`consistency`] proves what such a check shows;
//! - [`cancel`] stops a run.
//!
//! The data that these work on are in [`job`], [`dataset`], [`cost`],
//! [`algorithms`] and [`result`]. Around them stand the texts and names
//! that the scheduler writes ([`text`], [`paths`]), the format of the
//! files of sequence pairs ([`seq_file`]), and what a runner needs of an
//! aligner and an alignment ([`cigar`], [`gaps`], [`tally`],
//! [`edit_distance`], [`backends`], [`params`]).
//!
//! Reading and writing files, starting processes and threads and
//! listening for interrupts is left to the program that uses the crate.

pub mod algorithms;
pub mod backends;
pub mod cache;
pub mod cancel;
pub mod cigar;
pub mod consistency;
pub mod cost;
pub mod dataset;
pub mod dispatch;
pub mod edit_distance;
pub mod experiment;
pub mod gaps;
pub mod job;
pub mod params;
pub mod paths;
pub mod plan;
pub mod process;
pub mod result;
pub mod seq_file;
pub mod seqs;
pub mod skip;
pub mod tally;
pub mod text;
pub mod verify;
