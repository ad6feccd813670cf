//! Core logic of an online judge: languages and verdicts, contest
//! scheduling and standings, the judging state machine and the sandbox
//! policy, each stated and proved with Verus.
pub mod text;
pub mod clock;
pub mod types;
pub mod api;
pub mod schedule;
pub mod problem;
pub mod sandbox;
pub mod worker;
