//! The calendar serializer: a feed becomes one iCalendar document, line by
//! line, every line terminated by CRLF and every property value escaped.
//!
//! Content lines are not folded: RFC 5545 only recommends folding, and an
//! unfolded document keeps the rendering a simple function of the feed.

use vstd::prelude::*;
use crate::model::{CalendarEvent, CalendarEventV, CalendarFeed, CalendarFeedV};
use crate::textesc::{escape_text, escape_text_spec};
use crate::timefmt::{fmt_ical_dt, format_ical_dt};

verus! {

/// The content-line terminator.
pub open spec fn crlf() -> Seq<char> {
    seq!['\r', '\n']
}

/// The document text of a sequence of content lines: each line followed by
/// CRLF.
pub open spec fn join_crlf(lines: Seq<Seq<char>>) -> Seq<char>
    decreases lines.len(),
{
    if lines.len() == 0 {
        Seq::<char>::empty()
    } else {
        lines[0] + crlf() + join_crlf(lines.skip(1))
    }
}

/// The content lines of one event: the required properties, then the
/// optional ones that are present, then the closing line.
#[verifier::opaque]
pub open spec fn event_lines_spec(c: CalendarEventV) -> Seq<Seq<char>> {
    seq![
        "BEGIN:VEVENT"@,
        "UID:"@ + c.uid,
        "SUMMARY:"@ + escape_text_spec(c.summary),
        "DTSTART:"@ + fmt_ical_dt(c.dtstart),
        "DTEND:"@ + fmt_ical_dt(c.dtend),
    ] + (match c.location {
        Option::Some(l) => seq!["LOCATION:"@ + escape_text_spec(l)],
        Option::None => Seq::<Seq<char>>::empty(),
    }) + (match c.url {
        Option::Some(u) => seq!["URL:"@ + escape_text_spec(u)],
        Option::None => Seq::<Seq<char>>::empty(),
    }) + seq!["DESCRIPTION:"@ + escape_text_spec(c.description), "END:VEVENT"@]
}

/// The content lines of all events, in feed order.
pub open spec fn events_lines_spec(evs: Seq<CalendarEventV>) -> Seq<Seq<char>>
    decreases evs.len(),
{
    if evs.len() == 0 {
        Seq::<Seq<char>>::empty()
    } else {
        event_lines_spec(evs[0]) + events_lines_spec(evs.skip(1))
    }
}

/// Adding one event at the end adds its lines at the end.
proof fn lemma_events_lines_push(evs: Seq<CalendarEventV>, c: CalendarEventV)
    ensures
        events_lines_spec(evs.push(c)) == events_lines_spec(evs) + event_lines_spec(c),
    decreases evs.len(),
{
    if evs.len() == 0 {
        assert(evs.push(c)[0] == c);
        assert(evs.push(c).skip(1) =~= Seq::<CalendarEventV>::empty());
        assert(events_lines_spec(evs.push(c).skip(1)) =~= Seq::<Seq<char>>::empty());
        assert(events_lines_spec(evs.push(c)) =~= event_lines_spec(c) + Seq::<Seq<char>>::empty());
        assert(event_lines_spec(c) + Seq::<Seq<char>>::empty() =~= events_lines_spec(evs)
            + event_lines_spec(c));
    } else {
        lemma_events_lines_push(evs.skip(1), c);
        assert(evs.push(c)[0] == evs[0]);
        assert(evs.push(c).skip(1) =~= evs.skip(1).push(c));
        assert(event_lines_spec(evs[0]) + (events_lines_spec(evs.skip(1)) + event_lines_spec(c))
            =~= (event_lines_spec(evs[0]) + events_lines_spec(evs.skip(1))) + event_lines_spec(
            c,
        ));
    }
}

/// The opening lines of the document.
pub open spec fn header_lines_spec(name: Seq<char>) -> Seq<Seq<char>> {
    seq![
        "BEGIN:VCALENDAR"@,
        "VERSION:2.0"@,
        "PRODID:-//ethglobal-events//feed//EN"@,
        "X-WR-CALNAME:"@ + escape_text_spec(name),
    ]
}

/// All content lines of the document for a feed.
pub open spec fn feed_lines_spec(f: CalendarFeedV) -> Seq<Seq<char>> {
    header_lines_spec(f.name) + events_lines_spec(f.events) + seq!["END:VCALENDAR"@]
}

/// The full document text for a feed.
pub open spec fn render_feed_spec(f: CalendarFeedV) -> Seq<char> {
    join_crlf(feed_lines_spec(f))
}

/// Serializing is a function of the feed alone: equal feeds give
/// byte-identical documents, however often they are rendered.
pub proof fn lemma_render_idempotent(a: CalendarFeedV, b: CalendarFeedV)
    requires
        a == b,
    ensures
        render_feed_spec(a) == render_feed_spec(b),
{
}

/// Push one property line, `NAME:value`.
fn push_prop(lines: &mut Vec<String>, name_: &str, value: &str)
    ensures
        final(lines)@.len() == old(lines)@.len() + 1,
        final(lines).deep_view() == old(lines).deep_view().push(name_@ + value@),
{
    let mut line = name_.to_owned();
    line.append(value);
    lines.push(line);
    proof {
        assert(lines.deep_view() =~= old(lines).deep_view().push(name_@ + value@));
    }
}

/// Push one bare line.
fn push_bare(lines: &mut Vec<String>, text: &str)
    ensures
        final(lines)@.len() == old(lines)@.len() + 1,
        final(lines).deep_view() == old(lines).deep_view().push(text@),
{
    lines.push(text.to_owned());
    proof {
        assert(lines.deep_view() =~= old(lines).deep_view().push(text@));
    }
}

/// Push the content lines of one event.
fn push_event_lines(lines: &mut Vec<String>, c: &CalendarEvent)
    ensures
        final(lines).deep_view() == old(lines).deep_view() + event_lines_spec(c@),
{
    push_bare(lines, "BEGIN:VEVENT");
    push_prop(lines, "UID:", c.uid.as_str());
    let summary = escape_text(c.summary.as_str());
    push_prop(lines, "SUMMARY:", summary.as_str());
    let dtstart = format_ical_dt(&c.dtstart);
    push_prop(lines, "DTSTART:", dtstart.as_str());
    let dtend = format_ical_dt(&c.dtend);
    push_prop(lines, "DTEND:", dtend.as_str());
    match &c.location {
        Option::Some(l) => {
            let loc = escape_text(l.as_str());
            push_prop(lines, "LOCATION:", loc.as_str());
        },
        Option::None => {},
    }
    match &c.url {
        Option::Some(u) => {
            let url = escape_text(u.as_str());
            push_prop(lines, "URL:", url.as_str());
        },
        Option::None => {},
    }
    let description = escape_text(c.description.as_str());
    push_prop(lines, "DESCRIPTION:", description.as_str());
    push_bare(lines, "END:VEVENT");
    proof {
        reveal(event_lines_spec);
        assert(lines.deep_view() =~= old(lines).deep_view() + event_lines_spec(c@));
    }
}

/// Join content lines into the document text.
fn join_lines(lines: &Vec<String>) -> (r: String)
    ensures
        r@ == join_crlf(lines.deep_view()),
{
    let mut acc = String::new();
    let mut i: usize = 0;
    proof {
        assert(lines.deep_view().skip(0) == lines.deep_view());
    }
    while i < lines.len()
        invariant
            i <= lines@.len(),
            acc@ + join_crlf(lines.deep_view().skip(i as int)) == join_crlf(lines.deep_view()),
        decreases lines@.len() - i,
    {
        let ghost lv = lines.deep_view();
        acc.append(lines[i].as_str());
        acc.append("\r\n");
        proof {
            reveal_strlit("\r\n");
            assert("\r\n"@ =~= crlf());
            assert(lv.skip(i as int)[0] == lv[i as int]);
            assert(lv.skip(i as int).skip(1) =~= lv.skip(i + 1));
            assert(acc@ + join_crlf(lv.skip(i + 1)) =~= join_crlf(lv));
        }
        i = i + 1;
    }
    proof {
        assert(lines.deep_view().skip(lines@.len() as int) =~= Seq::<Seq<char>>::empty());
        assert(acc@ =~= join_crlf(lines.deep_view()));
    }
    acc
}

/// Serialize a feed to its iCalendar document text.
pub fn render_feed(f: &CalendarFeed) -> (r: String)
    ensures
        r@ == render_feed_spec(f@),
{
    let mut lines: Vec<String> = Vec::new();
    push_bare(&mut lines, "BEGIN:VCALENDAR");
    push_bare(&mut lines, "VERSION:2.0");
    push_bare(&mut lines, "PRODID:-//ethglobal-events//feed//EN");
    let name_esc = escape_text(f.name.as_str());
    push_prop(&mut lines, "X-WR-CALNAME:", name_esc.as_str());
    proof {
        assert(lines.deep_view() =~= header_lines_spec(f@.name));
    }
    let mut i: usize = 0;
    while i < f.events.len()
        invariant
            i <= f.events@.len(),
            lines.deep_view() =~= header_lines_spec(f@.name) + events_lines_spec(
                f.events.deep_view().take(i as int),
            ),
        decreases f.events@.len() - i,
    {
        push_event_lines(&mut lines, &f.events[i]);
        proof {
            let evs = f.events.deep_view();
            assert(evs.take(i + 1) =~= evs.take(i as int).push(evs[i as int]));
            lemma_events_lines_push(evs.take(i as int), evs[i as int]);
            assert(lines.deep_view() =~= header_lines_spec(f@.name) + events_lines_spec(
                evs.take(i + 1),
            ));
        }
        i = i + 1;
    }
    push_bare(&mut lines, "END:VCALENDAR");
    proof {
        let evs = f.events.deep_view();
        assert(evs.take(evs.len() as int) =~= evs);
        assert(lines.deep_view() =~= feed_lines_spec(f@));
    }
    join_lines(&lines)
}

} // verus!
