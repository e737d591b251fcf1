//! Message-key translation with locale detection and fallback.
//!
//! The crate resolves human-readable message keys into localized,
//! parameter-substituted text.  Resources are handed in as plain
//! (locale, filename, text) entries; per-locale catalogs are built once,
//! lookups fall back from the current locale to the default locale and
//! finally to the key itself, so a lookup never fails.

pub mod config;
pub mod i18n;
pub mod text;
