//! The feed handler: each fetch outcome is turned into exactly one HTTP
//! reply — the calendar document with its headers on success, a client
//! error on a malformed body, and a gateway error on transport or upstream
//! failure. It also builds the fixed upstream request.

use vstd::prelude::*;
use crate::ical::{render_feed, render_feed_spec};
use crate::mapper::{build_feed, feed_name_spec, mapped_events_spec};
use crate::model::{CalendarFeedV, PublishedEvent, PublishedEventV};
use crate::reader::{cores_of, parse_calendar_spec};
use crate::timefmt::{dec_chars, push_dec};
use crate::upstream::{expected_shape, json_accepts, json_doc_of, parse_published_events, records_of, FeedError};

verus! {

/// The outcome of one upstream fetch, as the surrounding server hands it in.
pub enum FetchResult {
    /// The upstream could not be reached (connection, TLS, timeout).
    Transport,
    /// The upstream answered with a non-success status.
    HttpStatus(u16),
    /// The upstream answered successfully with this body.
    Body(String),
}

/// One HTTP header beyond the content type.
pub struct HeaderField {
    pub name: String,
    pub value: String,
}

/// Spec-level view of [`HeaderField`].
pub struct HeaderFieldV {
    pub name: Seq<char>,
    pub value: Seq<char>,
}

impl View for HeaderField {
    type V = HeaderFieldV;

    open spec fn view(&self) -> HeaderFieldV {
        HeaderFieldV { name: self.name@, value: self.value@ }
    }
}

impl DeepView for HeaderField {
    type V = HeaderFieldV;

    open spec fn deep_view(&self) -> HeaderFieldV {
        self.view()
    }
}

/// The HTTP reply for one inbound request.
pub struct FeedReply {
    pub status: u16,
    pub content_type: String,
    pub extra_headers: Vec<HeaderField>,
    pub body: String,
}

/// Spec-level view of [`FeedReply`].
pub struct FeedReplyV {
    pub status: u16,
    pub content_type: Seq<char>,
    pub extra_headers: Seq<HeaderFieldV>,
    pub body: Seq<char>,
}

impl View for FeedReply {
    type V = FeedReplyV;

    open spec fn view(&self) -> FeedReplyV {
        FeedReplyV {
            status: self.status,
            content_type: self.content_type@,
            extra_headers: self.extra_headers.deep_view(),
            body: self.body@,
        }
    }
}

/// The headers that accompany the calendar document.
pub open spec fn calendar_headers_spec() -> Seq<HeaderFieldV> {
    seq![
        HeaderFieldV {
            name: "Content-Disposition"@,
            value: "attachment; filename=\"ethglobal.ics\""@,
        },
        HeaderFieldV { name: "Cache-Control"@, value: "no-cache, no-store, must-revalidate"@ },
        HeaderFieldV { name: "Pragma"@, value: "no-cache"@ },
        HeaderFieldV { name: "Expires"@, value: "0"@ },
        HeaderFieldV { name: "Access-Control-Allow-Origin"@, value: "*"@ },
    ]
}

/// The successful reply: the rendered feed of the given records, under the
/// calendar content type and caching headers.
pub open spec fn success_reply_spec(records: Seq<PublishedEventV>) -> FeedReplyV {
    FeedReplyV {
        status: 200,
        content_type: "text/calendar; charset=utf-8"@,
        extra_headers: calendar_headers_spec(),
        body: render_feed_spec(
            CalendarFeedV { name: feed_name_spec(), events: mapped_events_spec(records) },
        ),
    }
}

/// The reply when the upstream could not be reached.
pub open spec fn transport_reply_spec() -> FeedReplyV {
    FeedReplyV {
        status: 502,
        content_type: "text/plain; charset=utf-8"@,
        extra_headers: Seq::<HeaderFieldV>::empty(),
        body: "Request failed"@,
    }
}

/// The canonical reason phrase of the common status codes, preceded by a
/// space; empty for the rest.
pub open spec fn reason_suffix_spec(code: u16) -> Seq<char> {
    if code == 400 {
        " Bad Request"@
    } else if code == 401 {
        " Unauthorized"@
    } else if code == 403 {
        " Forbidden"@
    } else if code == 404 {
        " Not Found"@
    } else if code == 429 {
        " Too Many Requests"@
    } else if code == 500 {
        " Internal Server Error"@
    } else if code == 502 {
        " Bad Gateway"@
    } else if code == 503 {
        " Service Unavailable"@
    } else if code == 504 {
        " Gateway Timeout"@
    } else {
        ""@
    }
}

/// The reply when the upstream answered with a non-success status: the
/// status is echoed in the body.
pub open spec fn status_reply_spec(code: u16) -> FeedReplyV {
    FeedReplyV {
        status: 502,
        content_type: "text/plain; charset=utf-8"@,
        extra_headers: Seq::<HeaderFieldV>::empty(),
        body: "Error: "@ + dec_chars(code as nat) + reason_suffix_spec(code),
    }
}

/// The reply when the upstream body is malformed.
pub open spec fn bad_request_reply_spec() -> FeedReplyV {
    FeedReplyV {
        status: 400,
        content_type: "text/plain; charset=utf-8"@,
        extra_headers: Seq::<HeaderFieldV>::empty(),
        body: Seq::<char>::empty(),
    }
}

/// A plain-text reply with no extra headers.
fn plain_reply(status: u16, body: String) -> (r: FeedReply)
    ensures
        r@.status == status,
        r@.content_type == "text/plain; charset=utf-8"@,
        r@.extra_headers == Seq::<HeaderFieldV>::empty(),
        r@.body == body@,
{
    let r = FeedReply {
        status,
        content_type: String::from_str("text/plain; charset=utf-8"),
        extra_headers: Vec::new(),
        body,
    };
    proof {
        assert(r@.extra_headers =~= Seq::<HeaderFieldV>::empty());
    }
    r
}

/// Push one header.
fn push_header(hs: &mut Vec<HeaderField>, name_: &str, value: &str)
    ensures
        final(hs).deep_view() == old(hs).deep_view().push(
            HeaderFieldV { name: name_@, value: value@ },
        ),
{
    hs.push(HeaderField { name: name_.to_owned(), value: value.to_owned() });
    proof {
        assert(hs.deep_view() =~= old(hs).deep_view().push(
            HeaderFieldV { name: name_@, value: value@ },
        ));
    }
}

/// The successful reply for already-parsed records: build the feed, render
/// it, and attach the calendar content type and caching headers. For
/// records with well-formed timestamps the body also reads back to exactly
/// one entry per record, in order.
pub fn feed_response_for_events(events: &Vec<PublishedEvent>) -> (r: FeedReply)
    ensures
        r@ == success_reply_spec(events.deep_view()),
        (forall|k: int|
            0 <= k < events.deep_view().len() ==> (
            #[trigger] events.deep_view()[k]).start_time.wf()
                && events.deep_view()[k].end_time.wf()) ==> parse_calendar_spec(r@.body)
            == Option::Some(cores_of(mapped_events_spec(events.deep_view()))),
{
    let feed = build_feed(events);
    let body = render_feed(&feed);
    proof {
        let rs = events.deep_view();
        if forall|k: int|
            0 <= k < rs.len() ==> (#[trigger] rs[k]).start_time.wf() && rs[k].end_time.wf() {
            assert forall|k: int| 0 <= k < feed@.events.len() implies crate::reader::renderable_event(
                #[trigger] feed@.events[k],
            ) by {
                assert(feed@.events[k] == crate::mapper::map_event_spec(rs[k]));
                assert(rs[k].start_time.wf() && rs[k].end_time.wf());
                crate::reader::lemma_uuid_chars_no_newline(feed@.events[k].uid);
            }
            crate::reader::lemma_render_parse_roundtrip(feed@);
        }
    }
    let mut hs: Vec<HeaderField> = Vec::new();
    push_header(&mut hs, "Content-Disposition", "attachment; filename=\"ethglobal.ics\"");
    push_header(&mut hs, "Cache-Control", "no-cache, no-store, must-revalidate");
    push_header(&mut hs, "Pragma", "no-cache");
    push_header(&mut hs, "Expires", "0");
    push_header(&mut hs, "Access-Control-Allow-Origin", "*");
    proof {
        assert(hs.deep_view() =~= calendar_headers_spec());
        assert(feed@ == CalendarFeedV {
            name: feed_name_spec(),
            events: mapped_events_spec(events.deep_view()),
        });
    }
    let r = FeedReply {
        status: 200,
        content_type: String::from_str("text/calendar; charset=utf-8"),
        extra_headers: hs,
        body,
    };
    r
}

/// The reply that echoes a non-success upstream status.
pub fn status_error_response(code: u16) -> (r: FeedReply)
    ensures
        r@ == status_reply_spec(code),
{
    let mut body = String::from_str("Error: ");
    push_dec(&mut body, code as u64);
    match code {
        400 => body.append(" Bad Request"),
        401 => body.append(" Unauthorized"),
        403 => body.append(" Forbidden"),
        404 => body.append(" Not Found"),
        429 => body.append(" Too Many Requests"),
        500 => body.append(" Internal Server Error"),
        502 => body.append(" Bad Gateway"),
        503 => body.append(" Service Unavailable"),
        504 => body.append(" Gateway Timeout"),
        _ => {
            proof {
                reveal_strlit("");
                assert(""@ =~= Seq::<char>::empty());
            }
        },
    }
    proof {
        assert(body@ =~= "Error: "@ + dec_chars(code as nat) + reason_suffix_spec(code));
    }
    plain_reply(502, body)
}

/// The reply for one failure condition: the taxonomy's HTTP shape.
pub fn error_response(e: FeedError) -> (r: FeedReply)
    ensures
        e is TransportError ==> r@ == transport_reply_spec(),
        e matches FeedError::UpstreamStatusError(code) ==> r@ == status_reply_spec(code),
        e is MalformedResponse ==> r@ == bad_request_reply_spec(),
{
    match e {
        FeedError::TransportError => {
            let r = plain_reply(502, String::from_str("Request failed"));
            proof {
                assert(r@ =~= transport_reply_spec());
            }
            r
        },
        FeedError::UpstreamStatusError(code) => status_error_response(code),
        FeedError::MalformedResponse => {
            let r = plain_reply(400, String::new());
            proof {
                assert(r@ =~= bad_request_reply_spec());
            }
            r
        },
    }
}

/// Turn one fetch outcome into the HTTP reply.
///
/// A transport failure and an upstream error status each give a fixed
/// plain-text gateway-error reply. A successful fetch gives the calendar
/// reply — for exactly the records the body's document holds, readable back
/// out of the reply itself — precisely when the JSON grammar accepts the
/// body and its document has the expected shape; every other body gets the
/// client-error reply.
pub fn feed_response(fetch: FetchResult) -> (r: FeedReply)
    ensures
        fetch is Transport ==> r@ == transport_reply_spec(),
        fetch matches FetchResult::HttpStatus(code) ==> r@ == status_reply_spec(code),
        fetch matches FetchResult::Body(b) ==> ((json_accepts(b@) && expected_shape(
            json_doc_of(b@),
        )) ==> r@ == success_reply_spec(records_of(json_doc_of(b@))) && parse_calendar_spec(
            r@.body,
        ) == Option::Some(cores_of(mapped_events_spec(records_of(json_doc_of(b@)))))),
        fetch matches FetchResult::Body(b) ==> (!(json_accepts(b@) && expected_shape(
            json_doc_of(b@),
        )) ==> r@ == bad_request_reply_spec()),
{
    match fetch {
        FetchResult::Transport => error_response(FeedError::TransportError),
        FetchResult::HttpStatus(code) => error_response(FeedError::UpstreamStatusError(code)),
        FetchResult::Body(b) => {
            match parse_published_events(b.as_str()) {
                Result::Ok(events) => {
                    let r = feed_response_for_events(&events);
                    proof {
                        assert(r@ == success_reply_spec(events.deep_view()));
                        assert(parse_calendar_spec(r@.body) == Option::Some(
                            cores_of(mapped_events_spec(events.deep_view())),
                        ));
                    }
                    r
                },
                Result::Err(e) => error_response(e),
            }
        },
    }
}

} // verus!
