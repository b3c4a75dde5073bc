//! Verified core of the RaoLv media site: locale negotiation and path
//! normalisation, media naming and lookup rules, captcha arithmetic and
//! markup, credential, session and token rules, the models and pagination,
//! query pieces, and the decisions of every form action.
pub mod common;
pub mod i18n;
pub mod text;
pub mod models;
pub mod db;
pub mod pages;
pub mod components;
