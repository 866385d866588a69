//! Licenses of a project's direct dependencies: which dependencies a manifest
//! declares, which published version each resolves to, what license that
//! version declares, and whether those licenses pass a policy.

pub mod check;
pub mod cli;
pub mod expression;
pub mod fetch;
pub mod parse;
pub mod report;
pub mod text;
pub mod version;
