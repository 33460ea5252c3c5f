//! Extraction of lint-suppression directives (allow / warn / deny of a
//! namespaced lint family) from source-level annotations.
//!
//! Two leaf parsers work over a plain token model: one for the direct form
//! `allow(family::lint, ...)`, one for the conditional form
//! `cfg_attr(feature = "...", allow(lint, ...), ...)`. Both produce a
//! directive record: three ordered lists of (lint name, source span) pairs,
//! one per directive kind. Records merge by per-kind concatenation into a
//! findings aggregator keyed by lint name.

pub mod findings;
pub mod parse;
pub mod record;
pub mod token;
