//! The data model: upstream event records and the calendar entities derived
//! from them, together with their mathematical views.

use vstd::prelude::*;
use crate::UtcTime;

verus! {

/// The country attached to an event's city, as the upstream reports it.
pub struct CountryData {
    pub name: String,
}

/// Spec-level view of [`CountryData`].
pub struct CountryDataV {
    pub name: Seq<char>,
}

impl View for CountryData {
    type V = CountryDataV;

    open spec fn view(&self) -> CountryDataV {
        CountryDataV { name: self.name@ }
    }
}

/// The city an event takes place in. The country may be absent: that is a
/// data-quality edge case the mapper tolerates, not a malformed record.
pub struct CityData {
    pub name: String,
    pub country: Option<CountryData>,
}

/// Spec-level view of [`CityData`].
pub struct CityDataV {
    pub name: Seq<char>,
    pub country: Option<CountryDataV>,
}

impl View for CityData {
    type V = CityDataV;

    open spec fn view(&self) -> CityDataV {
        CityDataV {
            name: self.name@,
            country: match self.country {
                Option::Some(c) => Option::Some(c@),
                Option::None => Option::None,
            },
        }
    }
}

/// One event record as the upstream publishes it.
///
/// `id` is the upstream's stable key; the calendar UID is derived from it
/// alone. Both timestamps pass through unchanged.
pub struct PublishedEvent {
    pub id: u64,
    pub name: String,
    pub slug: String,
    pub event_type: String,
    pub start_time: UtcTime,
    pub end_time: UtcTime,
    pub website: Option<String>,
    pub city: Option<CityData>,
}

/// Spec-level view of [`PublishedEvent`].
pub struct PublishedEventV {
    pub id: u64,
    pub name: Seq<char>,
    pub slug: Seq<char>,
    pub event_type: Seq<char>,
    pub start_time: UtcTime,
    pub end_time: UtcTime,
    pub website: Option<Seq<char>>,
    pub city: Option<CityDataV>,
}

impl View for PublishedEvent {
    type V = PublishedEventV;

    open spec fn view(&self) -> PublishedEventV {
        PublishedEventV {
            id: self.id,
            name: self.name@,
            slug: self.slug@,
            event_type: self.event_type@,
            start_time: self.start_time,
            end_time: self.end_time,
            website: match self.website {
                Option::Some(w) => Option::Some(w@),
                Option::None => Option::None,
            },
            city: match self.city {
                Option::Some(c) => Option::Some(c@),
                Option::None => Option::None,
            },
        }
    }
}

/// The list of event records under the upstream's response envelope.
pub struct PublishedEventsPayload {
    pub events: Vec<PublishedEvent>,
}

impl View for PublishedEventsPayload {
    type V = Seq<PublishedEventV>;

    open spec fn view(&self) -> Seq<PublishedEventV> {
        self.events.deep_view()
    }
}

/// The upstream's full response envelope: `{ data: { ... } }`.
pub struct QueryResponse {
    pub data: PublishedEventsPayload,
}

impl View for QueryResponse {
    type V = Seq<PublishedEventV>;

    open spec fn view(&self) -> Seq<PublishedEventV> {
        self.data@
    }
}

/// One calendar component, derived from one [`PublishedEvent`].
pub struct CalendarEvent {
    pub uid: String,
    pub summary: String,
    pub dtstart: UtcTime,
    pub dtend: UtcTime,
    pub location: Option<String>,
    pub url: Option<String>,
    pub description: String,
}

/// Spec-level view of [`CalendarEvent`].
pub struct CalendarEventV {
    pub uid: Seq<char>,
    pub summary: Seq<char>,
    pub dtstart: UtcTime,
    pub dtend: UtcTime,
    pub location: Option<Seq<char>>,
    pub url: Option<Seq<char>>,
    pub description: Seq<char>,
}

impl View for CalendarEvent {
    type V = CalendarEventV;

    open spec fn view(&self) -> CalendarEventV {
        CalendarEventV {
            uid: self.uid@,
            summary: self.summary@,
            dtstart: self.dtstart,
            dtend: self.dtend,
            location: match self.location {
                Option::Some(l) => Option::Some(l@),
                Option::None => Option::None,
            },
            url: match self.url {
                Option::Some(u) => Option::Some(u@),
                Option::None => Option::None,
            },
            description: self.description@,
        }
    }
}

/// The aggregate for one request: a display name and the mapped events,
/// in upstream order.
pub struct CalendarFeed {
    pub name: String,
    pub events: Vec<CalendarEvent>,
}

/// Spec-level view of [`CalendarFeed`].
pub struct CalendarFeedV {
    pub name: Seq<char>,
    pub events: Seq<CalendarEventV>,
}

impl View for CalendarFeed {
    type V = CalendarFeedV;

    open spec fn view(&self) -> CalendarFeedV {
        CalendarFeedV { name: self.name@, events: self.events.deep_view() }
    }
}

impl DeepView for PublishedEvent {
    type V = PublishedEventV;

    open spec fn deep_view(&self) -> PublishedEventV {
        self.view()
    }
}

impl DeepView for CalendarEvent {
    type V = CalendarEventV;

    open spec fn deep_view(&self) -> CalendarEventV {
        self.view()
    }
}

} // verus!
