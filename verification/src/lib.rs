//! Comparison reports for benchmark runs.
//!
//! A run is a flat list of timed results, each tagged with an identifier of
//! the shape `<category>/<usecase>[.rs]::<test function>::<library>`. The
//! library decodes the identifiers ([`identifier`]), groups the entries by
//! category, usecase, test function and library ([`aggregate`]), and renders
//! the groups as Markdown tables with human-scaled times ([`render`],
//! [`timefmt`]). Every function is verified against a contract over the
//! mathematical value of its arguments; [`aggregate_laws`] states what holds
//! of every grouping.
//!
//! Times are whole numbers of picoseconds throughout.
//!
//! [`api_client`] holds the values exchanged with the reporting service and
//! what is made of its answers. [`payload_small`] and [`payload_large`] hold
//! the sample records on which the JSON codecs are timed.

pub mod aggregate;
pub mod aggregate_laws;
pub mod api_client;
pub mod axis;
pub mod identifier;
pub mod payload_large;
pub mod payload_small;
pub mod render;
pub mod table;
pub mod text;
pub mod timefmt;
