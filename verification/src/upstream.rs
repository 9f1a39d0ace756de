//! The response parser: the upstream's JSON payload, decoded by serde_json,
//! is checked against the expected shape
//! `{ data: { getPublishedEvents: [record, ...] } }` and turned into typed
//! records. A shape mismatch rejects the whole response; optional fields
//! stay present-or-absent.
//!
//! The JSON layer is modelled by [`JsonV`]: `json_doc_of` names the
//! document an accepted text denotes, `json_model` names the document a
//! `serde_json::Value` holds, and the accessor wrappers are contracted over
//! that model, so the parser's contract fixes exactly which bodies are
//! accepted and which records they yield.

use vstd::prelude::*;
use crate::model::{
    CityData, CityDataV, CountryData, CountryDataV, PublishedEvent, PublishedEventV,
    PublishedEventsPayload, QueryResponse,
};
use crate::timefmt::parse_rfc_dt_spec;
use crate::timefmt::parse_rfc_dt;
use crate::UtcTime;

verus! {

/// The failure conditions of the feed pipeline. Every failure is caught at
/// the handler boundary and turned into one HTTP reply.
#[derive(Clone, Copy, PartialEq, Eq, Structural, Debug)]
pub enum FeedError {
    /// The upstream could not be reached at all.
    TransportError,
    /// The upstream answered with this non-success HTTP status.
    UpstreamStatusError(u16),
    /// The upstream body is not valid JSON or has the wrong shape.
    MalformedResponse,
}

/// A JSON document, as far as the feed reads one: an object is the map of
/// its members, and a number is kept only when serde_json reads it as an
/// unsigned 64-bit integer (`NumOther` stands for every other number).
pub enum JsonV {
    Null,
    Bool(bool),
    NumU64(u64),
    NumOther,
    Str(Seq<char>),
    Arr(Seq<JsonV>),
    Obj(Map<Seq<char>, JsonV>),
}

#[verifier::external_type_specification]
#[verifier::external_body]
pub struct ExJsonValue(serde_json::Value);

/// Whether serde_json's grammar accepts a text; acceptance is a function of
/// the text alone.
pub uninterp spec fn json_accepts(s: Seq<char>) -> bool;

/// The document an accepted text denotes; a function of the text alone.
pub uninterp spec fn json_doc_of(s: Seq<char>) -> JsonV;

/// The document a parsed `serde_json::Value` holds.
pub uninterp spec fn json_model(v: serde_json::Value) -> JsonV;

/// Relies on `serde_json::from_str::<serde_json::Value>`: it returns `Ok`
/// exactly on the texts its JSON grammar accepts, deterministically, and
/// the returned value holds the document the text denotes.
#[verifier::external_body]
fn json_from_str(s: &str) -> (r: Option<serde_json::Value>)
    ensures
        r is Some <==> json_accepts(s@),
        r matches Some(v) ==> json_model(v) == json_doc_of(s@),
{
    serde_json::from_str(s).ok()
}

/// Relies on `serde_json::Value::get`: on an object, the member under the
/// key; absent on non-objects and missing keys.
#[verifier::external_body]
fn json_get<'a>(v: &'a serde_json::Value, key: &str) -> (r: Option<&'a serde_json::Value>)
    ensures
        r is Some <==> (json_model(*v) matches JsonV::Obj(m) && m.dom().contains(key@)),
        r matches Some(x) ==> (json_model(*v) matches JsonV::Obj(m) && m.dom().contains(key@)
            && json_model(*x) == m[key@]),
{
    v.get(key)
}

/// Relies on `serde_json::Value::as_array`: the elements of an array value,
/// absent for every other value.
#[verifier::external_body]
fn json_as_array<'a>(v: &'a serde_json::Value) -> (r: Option<&'a Vec<serde_json::Value>>)
    ensures
        r is Some <==> json_model(*v) is Arr,
        r matches Some(a) ==> (json_model(*v) matches JsonV::Arr(items) && a@.len() == items.len()
            && forall|i: int| 0 <= i < items.len() ==> json_model(#[trigger] a@[i]) == items[i]),
{
    v.as_array()
}

/// Relies on `serde_json::Value::as_u64`: the value of a number that
/// serde_json holds as an unsigned 64-bit integer, absent otherwise.
#[verifier::external_body]
fn json_as_u64(v: &serde_json::Value) -> (r: Option<u64>)
    ensures
        r is Some <==> json_model(*v) is NumU64,
        r matches Some(n) ==> json_model(*v) == JsonV::NumU64(n),
{
    v.as_u64()
}

/// Relies on `serde_json::Value::as_str`: the text of a string value,
/// absent for every other value.
#[verifier::external_body]
fn json_as_str<'a>(v: &'a serde_json::Value) -> (r: Option<&'a str>)
    ensures
        r is Some <==> json_model(*v) is Str,
        r matches Some(s) ==> json_model(*v) == JsonV::Str(s@),
{
    v.as_str()
}

/// Relies on `serde_json::Value::is_null`: whether the value is JSON null.
#[verifier::external_body]
fn json_is_null(v: &serde_json::Value) -> (r: bool)
    ensures
        r == (json_model(*v) is Null),
{
    v.is_null()
}

/// The member map of an object; empty for every other value.
pub open spec fn obj_members(v: JsonV) -> Map<Seq<char>, JsonV> {
    match v {
        JsonV::Obj(m) => m,
        _ => Map::<Seq<char>, JsonV>::empty(),
    }
}

/// The text of a string value; empty for every other value.
pub open spec fn str_text(v: JsonV) -> Seq<char> {
    match v {
        JsonV::Str(s) => s,
        _ => Seq::<char>::empty(),
    }
}

/// The elements of an array value; empty for every other value.
pub open spec fn arr_items(v: JsonV) -> Seq<JsonV> {
    match v {
        JsonV::Arr(s) => s,
        _ => Seq::<JsonV>::empty(),
    }
}

/// The integer of a `NumU64` value; zero for every other value.
pub open spec fn u64_value(v: JsonV) -> u64 {
    match v {
        JsonV::NumU64(n) => n,
        _ => 0,
    }
}

/// The object has this member, and it is a string.
pub open spec fn has_str_member(m: Map<Seq<char>, JsonV>, key: Seq<char>) -> bool {
    m.dom().contains(key) && m[key] is Str
}

/// The member is absent, null, or a string: the shape of an optional text.
pub open spec fn opt_str_member_shape(m: Map<Seq<char>, JsonV>, key: Seq<char>) -> bool {
    !m.dom().contains(key) || m[key] is Null || m[key] is Str
}

/// The optional member's text, when present and a string.
pub open spec fn opt_str_member(m: Map<Seq<char>, JsonV>, key: Seq<char>) -> Option<Seq<char>> {
    if m.dom().contains(key) && m[key] is Str {
        Option::Some(str_text(m[key]))
    } else {
        Option::None
    }
}

/// The member is a string holding a readable UTC timestamp.
pub open spec fn time_member_shape(m: Map<Seq<char>, JsonV>, key: Seq<char>) -> bool {
    has_str_member(m, key) && parse_rfc_dt_spec(str_text(m[key])) is Some
}

/// The member's timestamp; meaningful only when `time_member_shape` holds.
pub open spec fn time_member(m: Map<Seq<char>, JsonV>, key: Seq<char>) -> UtcTime {
    match parse_rfc_dt_spec(str_text(m[key])) {
        Option::Some(t) => t,
        Option::None => UtcTime { year: 0, month: 0, day: 0, hour: 0, minute: 0, second: 0 },
    }
}

/// A country member: an object with a string `name`.
pub open spec fn country_shape(v: JsonV) -> bool {
    has_str_member(obj_members(v), "name"@)
}

/// The country a well-shaped country member holds.
pub open spec fn country_of(v: JsonV) -> CountryDataV {
    CountryDataV { name: str_text(obj_members(v)["name"@]) }
}

/// A city member: an object with a string `name` and an absent, null, or
/// well-shaped `country`.
pub open spec fn city_shape(v: JsonV) -> bool {
    has_str_member(obj_members(v), "name"@) && (!obj_members(v).dom().contains("country"@)
        || obj_members(v)["country"@] is Null || country_shape(obj_members(v)["country"@]))
}

/// The city a well-shaped city member holds.
pub open spec fn city_of(v: JsonV) -> CityDataV {
    let m = obj_members(v);
    CityDataV {
        name: str_text(m["name"@]),
        country: if m.dom().contains("country"@) && country_shape(m["country"@]) {
            Option::Some(country_of(m["country"@]))
        } else {
            Option::None
        },
    }
}

/// One event record: the required members with their types, the optional
/// `website` and `city` in their tolerated shapes.
pub open spec fn event_record_shape(v: JsonV) -> bool {
    let m = obj_members(v);
    m.dom().contains("id"@) && m["id"@] is NumU64 && has_str_member(m, "name"@)
        && has_str_member(m, "slug"@) && has_str_member(m, "type"@) && time_member_shape(
        m,
        "startTime"@,
    ) && time_member_shape(m, "endTime"@) && opt_str_member_shape(m, "website"@) && (!m.dom()
        .contains("city"@) || m["city"@] is Null || city_shape(m["city"@]))
}

/// The record a well-shaped event member holds.
pub open spec fn event_record_of(v: JsonV) -> PublishedEventV {
    let m = obj_members(v);
    PublishedEventV {
        id: u64_value(m["id"@]),
        name: str_text(m["name"@]),
        slug: str_text(m["slug"@]),
        event_type: str_text(m["type"@]),
        start_time: time_member(m, "startTime"@),
        end_time: time_member(m, "endTime"@),
        website: opt_str_member(m, "website"@),
        city: if m.dom().contains("city"@) && city_shape(m["city"@]) {
            Option::Some(city_of(m["city"@]))
        } else {
            Option::None
        },
    }
}

/// Every element of the event array is a well-shaped record.
pub open spec fn events_shape(items: Seq<JsonV>) -> bool {
    forall|i: int| 0 <= i < items.len() ==> event_record_shape(#[trigger] items[i])
}

/// The records of the whole event array, in array order.
pub open spec fn mapped_records(items: Seq<JsonV>) -> Seq<PublishedEventV> {
    items.map_values(|v: JsonV| event_record_of(v))
}

/// The expected document shape: `{ data: { getPublishedEvents: [...] } }`
/// with every record complete.
pub open spec fn expected_shape(doc: JsonV) -> bool {
    let m = obj_members(doc);
    m.dom().contains("data"@) && obj_members(m["data"@]).dom().contains("getPublishedEvents"@)
        && obj_members(m["data"@])["getPublishedEvents"@] is Arr && events_shape(
        arr_items(obj_members(m["data"@])["getPublishedEvents"@]),
    )
}

/// The records a well-shaped document holds, in document order.
pub open spec fn records_of(doc: JsonV) -> Seq<PublishedEventV> {
    mapped_records(arr_items(obj_members(obj_members(doc)["data"@])["getPublishedEvents"@]))
}

/// A required string member of an object.
fn required_str<'a>(v: &'a serde_json::Value, key: &str) -> (r: Result<&'a str, FeedError>)
    ensures
        r is Ok <==> has_str_member(obj_members(json_model(*v)), key@),
        r matches Ok(s) ==> s@ == str_text(obj_members(json_model(*v))[key@]),
        r matches Err(e) ==> e == FeedError::MalformedResponse,
{
    match json_get(v, key) {
        Option::Some(s) => match json_as_str(s) {
            Option::Some(text) => Result::Ok(text),
            Option::None => Result::Err(FeedError::MalformedResponse),
        },
        Option::None => Result::Err(FeedError::MalformedResponse),
    }
}

/// One record's city member, when present.
fn parse_city(v: &serde_json::Value) -> (r: Result<CityData, FeedError>)
    ensures
        r is Ok <==> city_shape(json_model(*v)),
        r matches Ok(c) ==> c@ == city_of(json_model(*v)),
        r matches Err(e) ==> e == FeedError::MalformedResponse,
{
    let ghost m = obj_members(json_model(*v));
    let name = match required_str(v, "name") {
        Result::Ok(s) => s.to_owned(),
        Result::Err(e) => {
            return Result::Err(e);
        },
    };
    let country = match json_get(v, "country") {
        Option::None => Option::None,
        Option::Some(cv) => {
            if json_is_null(cv) {
                Option::None
            } else {
                match required_str(cv, "name") {
                    Result::Ok(s) => Option::Some(CountryData { name: s.to_owned() }),
                    Result::Err(e) => {
                        return Result::Err(e);
                    },
                }
            }
        },
    };
    let c = CityData { name, country };
    proof {
        assert(city_shape(json_model(*v)));
        assert(c@ == city_of(json_model(*v)));
    }
    Result::Ok(c)
}

/// One event record out of one array element.
fn parse_event(v: &serde_json::Value) -> (r: Result<PublishedEvent, FeedError>)
    ensures
        r is Ok <==> event_record_shape(json_model(*v)),
        r matches Ok(e) ==> e@ == event_record_of(json_model(*v)) && e.start_time.wf()
            && e.end_time.wf(),
        r matches Err(e) ==> e == FeedError::MalformedResponse,
{
    let ghost m = obj_members(json_model(*v));
    let id = match json_get(v, "id") {
        Option::Some(n) => match json_as_u64(n) {
            Option::Some(id) => id,
            Option::None => {
                return Result::Err(FeedError::MalformedResponse);
            },
        },
        Option::None => {
            return Result::Err(FeedError::MalformedResponse);
        },
    };
    let name = match required_str(v, "name") {
        Result::Ok(s) => s.to_owned(),
        Result::Err(e) => {
            return Result::Err(e);
        },
    };
    let slug = match required_str(v, "slug") {
        Result::Ok(s) => s.to_owned(),
        Result::Err(e) => {
            return Result::Err(e);
        },
    };
    let event_type = match required_str(v, "type") {
        Result::Ok(s) => s.to_owned(),
        Result::Err(e) => {
            return Result::Err(e);
        },
    };
    let start_time = match required_str(v, "startTime") {
        Result::Ok(s) => match parse_rfc_dt(s) {
            Option::Some(t) => t,
            Option::None => {
                return Result::Err(FeedError::MalformedResponse);
            },
        },
        Result::Err(e) => {
            return Result::Err(e);
        },
    };
    let end_time = match required_str(v, "endTime") {
        Result::Ok(s) => match parse_rfc_dt(s) {
            Option::Some(t) => t,
            Option::None => {
                return Result::Err(FeedError::MalformedResponse);
            },
        },
        Result::Err(e) => {
            return Result::Err(e);
        },
    };
    let website = match json_get(v, "website") {
        Option::None => Option::None,
        Option::Some(w) => {
            if json_is_null(w) {
                Option::None
            } else {
                match json_as_str(w) {
                    Option::Some(s) => Option::Some(s.to_owned()),
                    Option::None => {
                        return Result::Err(FeedError::MalformedResponse);
                    },
                }
            }
        },
    };
    let city = match json_get(v, "city") {
        Option::None => Option::None,
        Option::Some(cv) => {
            if json_is_null(cv) {
                Option::None
            } else {
                match parse_city(cv) {
                    Result::Ok(c) => Option::Some(c),
                    Result::Err(e) => {
                        return Result::Err(e);
                    },
                }
            }
        },
    };
    let pe = PublishedEvent { id, name, slug, event_type, start_time, end_time, website, city };
    proof {
        assert(event_record_shape(json_model(*v)));
        assert(pe@ == event_record_of(json_model(*v)));
    }
    Result::Ok(pe)
}

/// Decode an upstream response body into its typed envelope.
///
/// Success comes exactly on bodies the JSON grammar accepts whose document
/// has the expected shape, and the envelope then holds exactly the records
/// of that document, in order, with well-formed timestamps; everything else
/// is rejected whole as [`FeedError::MalformedResponse`].
pub fn parse_query_response(body: &str) -> (r: Result<QueryResponse, FeedError>)
    ensures
        r is Ok <==> json_accepts(body@) && expected_shape(json_doc_of(body@)),
        r matches Ok(q) ==> q@ == records_of(json_doc_of(body@)),
        r matches Ok(q) ==> forall|i: int|
            0 <= i < q@.len() ==> (#[trigger] q@[i]).start_time.wf() && q@[i].end_time.wf(),
        r matches Err(e) ==> e == FeedError::MalformedResponse,
{
    let ghost doc = json_doc_of(body@);
    let root = match json_from_str(body) {
        Option::Some(v) => v,
        Option::None => {
            return Result::Err(FeedError::MalformedResponse);
        },
    };
    let data = match json_get(&root, "data") {
        Option::Some(v) => v,
        Option::None => {
            return Result::Err(FeedError::MalformedResponse);
        },
    };
    let list = match json_get(data, "getPublishedEvents") {
        Option::Some(v) => v,
        Option::None => {
            return Result::Err(FeedError::MalformedResponse);
        },
    };
    let arr = match json_as_array(list) {
        Option::Some(a) => a,
        Option::None => {
            return Result::Err(FeedError::MalformedResponse);
        },
    };
    let ghost items = arr_items(json_model(*list));
    proof {
        assert(items == arr_items(obj_members(obj_members(doc)["data"@])["getPublishedEvents"@]));
    }
    let mut out: Vec<PublishedEvent> = Vec::new();
    let mut i: usize = 0;
    while i < arr.len()
        invariant
            i <= arr@.len(),
            doc == json_doc_of(body@),
            items == arr_items(obj_members(obj_members(doc)["data"@])["getPublishedEvents"@]),
            arr@.len() == items.len(),
            forall|j: int| 0 <= j < items.len() ==> json_model(#[trigger] arr@[j]) == items[j],
            forall|j: int| 0 <= j < i ==> event_record_shape(#[trigger] items[j]),
            out.deep_view() =~= mapped_records(items.take(i as int)),
            forall|j: int|
                0 <= j < out.deep_view().len() ==> (#[trigger] out.deep_view()[j]).start_time.wf()
                    && out.deep_view()[j].end_time.wf(),
        decreases arr@.len() - i,
    {
        let ghost out0 = out.deep_view();
        match parse_event(&arr[i]) {
            Result::Ok(e) => {
                out.push(e);
                proof {
                    assert(out.deep_view() =~= out0.push(e@));
                    assert(items.take(i + 1) =~= items.take(i as int).push(items[i as int]));
                    assert(mapped_records(items.take(i + 1)) =~= mapped_records(
                        items.take(i as int),
                    ).push(event_record_of(items[i as int])));
                    assert(out.deep_view() =~= mapped_records(items.take(i + 1)));
                    assert forall|j: int| 0 <= j < out.deep_view().len() implies (
                    #[trigger] out.deep_view()[j]).start_time.wf()
                        && out.deep_view()[j].end_time.wf() by {
                        if j < out0.len() {
                            assert(out.deep_view()[j] == out0[j]);
                        } else {
                            assert(out.deep_view()[j] == e@);
                        }
                    }
                }
            },
            Result::Err(e) => {
                proof {
                    assert(!event_record_shape(items[i as int]));
                    if expected_shape(doc) {
                        let all = arr_items(
                            obj_members(obj_members(doc)["data"@])["getPublishedEvents"@],
                        );
                        assert(event_record_shape(all[i as int]));
                        assert(all[i as int] == items[i as int]);
                    }
                }
                return Result::Err(e);
            },
        }
        i = i + 1;
    }
    proof {
        assert(items.take(items.len() as int) =~= items);
        assert(events_shape(items));
        assert(expected_shape(doc));
        assert(out.deep_view() =~= records_of(doc));
    }
    Result::Ok(QueryResponse { data: PublishedEventsPayload { events: out } })
}

/// Decode an upstream response body and keep only the record list.
pub fn parse_published_events(body: &str) -> (r: Result<Vec<PublishedEvent>, FeedError>)
    ensures
        r is Ok <==> json_accepts(body@) && expected_shape(json_doc_of(body@)),
        r matches Ok(evs) ==> evs.deep_view() == records_of(json_doc_of(body@)),
        r matches Ok(evs) ==> forall|i: int|
            0 <= i < evs.deep_view().len() ==> (#[trigger] evs.deep_view()[i]).start_time.wf()
                && evs.deep_view()[i].end_time.wf(),
        r matches Err(e) ==> e == FeedError::MalformedResponse,
{
    match parse_query_response(body) {
        Result::Ok(q) => Result::Ok(q.data.events),
        Result::Err(e) => Result::Err(e),
    }
}

} // verus!
