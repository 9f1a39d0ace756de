//! A verified iCalendar feed builder for a published-events catalog.
//!
//! The library turns event records fetched from an upstream GraphQL API into
//! an iCalendar (`.ics`) document with stable per-event identifiers, and
//! decides the HTTP reply (status, headers, body) for each fetch outcome.

use vstd::prelude::*;

pub mod model;
mod strutil;
pub mod textesc;
pub mod timefmt;
pub mod uid;
pub mod mapper;
pub mod ical;
pub mod upstream;
pub mod handler;
pub mod request;
pub mod reader;

verus! {

/// A UTC instant, held as calendar components.
///
/// Times pass through the feed unchanged; no calendar arithmetic is done on
/// them, so the well-formedness bounds below are all the library asks of a
/// value of this type.
#[derive(Clone, Copy, PartialEq, Eq, Structural, Debug)]
pub struct UtcTime {
    pub year: u16,
    pub month: u8,
    pub day: u8,
    pub hour: u8,
    pub minute: u8,
    pub second: u8,
}

impl UtcTime {
    /// The component ranges under which the textual renderings round-trip.
    pub open spec fn wf(self) -> bool {
        self.year <= 9999 && 1 <= self.month <= 12 && 1 <= self.day <= 31
            && self.hour <= 23 && self.minute <= 59 && self.second <= 59
    }
}

} // verus!
