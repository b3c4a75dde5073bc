//! Internationalisation: locale tags, path locales and negotiation.
pub mod loader;
pub mod locale_tag;
pub mod negotiate;
