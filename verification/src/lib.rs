//! The access-control and interaction-aggregation core of a notes-sharing
//! backend: bearer-token issuance and authentication, toggleable bookmark
//! and vote records with their read-side aggregation, and the quiz
//! generation workflow with strict validation of the completion provider's
//! output. Every operation is specified against an in-memory model of the
//! relational store and verified.

pub mod errors;
pub mod tokens;
pub mod credentials;
pub mod store;
pub mod ledger;
pub mod views;
pub mod clock;
pub mod accounts;
pub mod auth;
pub mod notes;
pub mod files;
pub mod json;
pub mod quiz;
