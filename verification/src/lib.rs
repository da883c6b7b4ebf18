//! Makes the pages that document lint rules.
//!
//! The documentation of a rule is a markdown text whose fenced code blocks
//! are examples: the info string of a block says in which language the
//! example is written and whether the rule is to raise a diagnostic on it.
//! This crate reads such a text as a stream of events, writes it out again
//! as markdown, holds every example against the diagnostics that its snippet
//! gave, sets the transcript of the diagnostics behind the example, and puts
//! the pages, the index and the lists around them together.
//!
//! Parsing and analyzing the snippets is the work of the frontends of the
//! languages: what they gave is handed in, one list of diagnostics for each
//! example that `transducer::documented_examples` finds.

use vstd::prelude::*;

pub mod directive;
pub mod event;
pub mod group;
pub mod lint;
pub mod markup;
pub mod order;
pub mod page;
pub mod registry;
pub mod site;
pub mod text;
pub mod transducer;
