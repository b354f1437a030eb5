//! A web application firewall core: rule parsing, rule evaluation, routing,
//! bounded body inspection and the per-request decision pipeline.

pub mod admin;
pub mod body;
pub mod cli;
pub mod config;
pub mod engine;
pub mod operator;
pub mod pipeline;
pub mod router;
pub mod rule;
pub mod secrule;
pub mod shared;
pub mod text;
pub mod verdict_laws;
