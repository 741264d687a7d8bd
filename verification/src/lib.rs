//! Core rules of a student-club platform backend: signed identity tokens, the
//! account verification flow, privilege gating of club writes, and a
//! content-addressed media store with attachment binding.
//!
//! Every function here works on plain values. The surrounding server performs the
//! database and network work and hands the outcomes to these functions.

pub mod text;
pub mod auth;
pub mod token;
pub mod password;
pub mod accounts;
pub mod credential_store;
pub mod thread_comment;
pub mod club;
pub mod club_registry;
pub mod board;
pub mod file_uploads;
pub mod media_store;
pub mod upload_form;
