//! Shared building blocks: media rules, random tokens and paths.
pub mod media;
pub mod path_buf;
pub mod rand;
pub mod session;
pub mod constant;
pub mod email;
pub mod form;
pub mod auth;
pub mod captcha;
pub mod config;
pub mod admin_guard;
pub mod locale_redirect;
pub mod markdown;
