//! The calendar mapper: one upstream record becomes one calendar event,
//! purely and totally.

use vstd::prelude::*;
use crate::model::{
    CalendarEvent, CalendarEventV, CalendarFeed, CalendarFeedV, CityDataV, PublishedEvent,
    PublishedEventV,
};
use crate::uid::{event_uid, event_uid_spec};

verus! {

/// The display name of the feed.
pub open spec fn feed_name_spec() -> Seq<char> {
    "ETHGlobal Events"@
}

/// The canonical detail-page address for an event slug.
pub open spec fn event_page_spec(slug: Seq<char>) -> Seq<char> {
    "https://ethglobal.com/events/"@ + slug
}

/// The location text: the city name, and the country name after a comma
/// when the upstream supplies one. A city without a country degrades to the
/// city name alone; the record is never rejected for it.
pub open spec fn location_spec(city: CityDataV) -> Seq<char> {
    match city.country {
        Option::Some(country) => city.name + ", "@ + country.name,
        Option::None => city.name,
    }
}

/// The description text: name, category, a blank line, then the canonical
/// detail-page address. Line breaks are real newlines here; the serializer
/// escapes them for the wire.
pub open spec fn description_spec(e: PublishedEventV) -> Seq<char> {
    e.name + "\n"@ + e.event_type + "\n\n"@ + event_page_spec(e.slug)
}

/// The calendar event derived from one upstream record.
pub open spec fn map_event_spec(e: PublishedEventV) -> CalendarEventV {
    CalendarEventV {
        uid: event_uid_spec(e.id),
        summary: e.name,
        dtstart: e.start_time,
        dtend: e.end_time,
        location: match e.city {
            Option::Some(city) => Option::Some(location_spec(city)),
            Option::None => Option::None,
        },
        url: e.website,
        description: description_spec(e),
    }
}

/// The events of the whole feed, in upstream order.
pub open spec fn mapped_events_spec(rs: Seq<PublishedEventV>) -> Seq<CalendarEventV> {
    rs.map_values(|r: PublishedEventV| map_event_spec(r))
}

/// The derived UID is a function of the upstream id alone: records that
/// agree on `id` map to the same UID, whatever their other fields.
pub proof fn lemma_uid_from_id_alone(a: PublishedEventV, b: PublishedEventV)
    requires
        a.id == b.id,
    ensures
        map_event_spec(a).uid == map_event_spec(b).uid,
{
}

/// A record whose city carries no country still maps to an event, with the
/// city name alone as its location.
pub proof fn lemma_city_without_country(e: PublishedEventV, city: CityDataV)
    requires
        e.city == Option::Some(city),
        city.country is None,
    ensures
        map_event_spec(e).location == Option::Some(city.name),
{
}

/// Map one upstream record. Beyond the mapping itself, the derived UID is
/// known to consist of UUID text characters.
pub fn map_event(e: &PublishedEvent) -> (c: CalendarEvent)
    ensures
        c@ == map_event_spec(e@),
        forall|i: int|
            0 <= i < c@.uid.len() ==> crate::uid::uuid_text_char(#[trigger] c@.uid[i]),
{
    let uid = event_uid(e.id);
    let summary = e.name.clone();
    let location = match &e.city {
        Option::Some(city) => {
            let mut loc = city.name.clone();
            match &city.country {
                Option::Some(country) => {
                    loc.append(", ");
                    loc.append(country.name.as_str());
                },
                Option::None => {},
            }
            Option::Some(loc)
        },
        Option::None => Option::None,
    };
    let url = match &e.website {
        Option::Some(w) => Option::Some(w.clone()),
        Option::None => Option::None,
    };
    let mut description = e.name.clone();
    description.append("\n");
    description.append(e.event_type.as_str());
    description.append("\n\n");
    description.append("https://ethglobal.com/events/");
    description.append(e.slug.as_str());
    proof {
        assert(description@ =~= description_spec(e@));
    }
    let c = CalendarEvent {
        uid,
        summary,
        dtstart: e.start_time,
        dtend: e.end_time,
        location,
        url,
        description,
    };
    proof {
        assert(c@.location == map_event_spec(e@).location);
    }
    c
}

/// Build the whole feed from the upstream records, in their order.
pub fn build_feed(records: &Vec<PublishedEvent>) -> (f: CalendarFeed)
    ensures
        f@.name == feed_name_spec(),
        f@.events == mapped_events_spec(records.deep_view()),
        forall|k: int, i: int|
            0 <= k < f@.events.len() && 0 <= i < f@.events[k].uid.len()
                ==> crate::uid::uuid_text_char(#[trigger] f@.events[k].uid[i]),
{
    let mut events: Vec<CalendarEvent> = Vec::new();
    let mut i: usize = 0;
    while i < records.len()
        invariant
            i <= records.len(),
            events.deep_view() =~= mapped_events_spec(records.deep_view().take(i as int)),
            forall|k: int, j: int|
                0 <= k < events.deep_view().len() && 0 <= j < events.deep_view()[k].uid.len()
                    ==> crate::uid::uuid_text_char(#[trigger] events.deep_view()[k].uid[j]),
        decreases records.len() - i,
    {
        let ghost ev0 = events.deep_view();
        let c = map_event(&records[i]);
        events.push(c);
        proof {
            let rs = records.deep_view();
            assert(rs.take(i + 1) =~= rs.take(i as int).push(rs[i as int]));
            assert(mapped_events_spec(rs.take(i + 1)) =~= mapped_events_spec(
                rs.take(i as int),
            ).push(map_event_spec(rs[i as int])));
            assert(events.deep_view() =~= mapped_events_spec(rs.take(i + 1)));
            assert forall|k: int, j: int|
                0 <= k < events.deep_view().len() && 0 <= j < events.deep_view()[k].uid.len()
                    implies crate::uid::uuid_text_char(#[trigger] events.deep_view()[k].uid[j]) by {
                if k < ev0.len() {
                    assert(events.deep_view()[k] == ev0[k]);
                } else {
                    assert(events.deep_view()[k] == c@);
                }
            }
        }
        i = i + 1;
    }
    proof {
        assert(records.deep_view().take(records.len() as int) =~= records.deep_view());
    }
    let name = String::from_str("ETHGlobal Events");
    CalendarFeed { name, events }
}

} // verus!
