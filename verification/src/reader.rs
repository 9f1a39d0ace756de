//! Reading a serialized calendar document back: the document is split into
//! CRLF-terminated content lines and scanned for VEVENT blocks, recovering
//! each event's UID, summary and times. Together with the serializer this
//! shows the rendering lossless for those fields.

use vstd::prelude::*;
use crate::UtcTime;
use crate::ical::{crlf, join_crlf};

verus! {

/// A CRLF pair starts at position `i`.
pub open spec fn has_crlf_at(s: Seq<char>, i: int) -> bool {
    0 <= i && i + 2 <= s.len() && s[i] == '\r' && s[i + 1] == '\n'
}

/// No CRLF pair anywhere: the text fits on one content line.
pub open spec fn crlf_free(s: Seq<char>) -> bool {
    forall|i: int| !has_crlf_at(s, i)
}

/// The position of the first CRLF pair, or the length when there is none.
pub open spec fn first_crlf(s: Seq<char>) -> nat
    decreases s.len(),
{
    if s.len() < 2 {
        s.len()
    } else if s[0] == '\r' && s[1] == '\n' {
        0
    } else {
        1 + first_crlf(s.skip(1))
    }
}

/// What `first_crlf` returns: the least CRLF position, or the length.
proof fn lemma_first_crlf(s: Seq<char>)
    ensures
        first_crlf(s) <= s.len(),
        first_crlf(s) < s.len() ==> has_crlf_at(s, first_crlf(s) as int),
        forall|j: int| 0 <= j < first_crlf(s) ==> !has_crlf_at(s, j),
        first_crlf(s) == s.len() ==> crlf_free(s),
    decreases s.len(),
{
    if s.len() < 2 {
        assert forall|i: int| !has_crlf_at(s, i) by {}
    } else if s[0] == '\r' && s[1] == '\n' {
    } else {
        lemma_first_crlf(s.skip(1));
        let f = first_crlf(s);
        let fs = first_crlf(s.skip(1));
        if fs < s.skip(1).len() {
            assert(has_crlf_at(s.skip(1), fs as int));
            assert(s.skip(1)[fs as int] == s[fs as int + 1]);
            assert(s.skip(1)[fs as int + 1] == s[fs as int + 2]);
            assert(has_crlf_at(s, f as int));
        }
        assert forall|j: int| 0 <= j < f implies !has_crlf_at(s, j) by {
            if j == 0 {
            } else {
                assert(!has_crlf_at(s.skip(1), j - 1));
                if has_crlf_at(s, j) {
                    assert(s.skip(1)[j - 1] == s[j]);
                    assert(s.skip(1)[j] == s[j + 1]);
                    assert(has_crlf_at(s.skip(1), j - 1));
                }
            }
        }
        if f == s.len() {
            assert(fs == s.skip(1).len());
            assert forall|i: int| !has_crlf_at(s, i) by {
                if 0 <= i && i + 2 <= s.len() {
                    if i == 0 {
                    } else {
                        assert(!has_crlf_at(s.skip(1), i - 1));
                        if has_crlf_at(s, i) {
                            assert(s.skip(1)[i - 1] == s[i]);
                            assert(s.skip(1)[i] == s[i + 1]);
                            assert(has_crlf_at(s.skip(1), i - 1));
                        }
                    }
                }
            }
        }
    }
}

/// The content lines of a document: the text between consecutive CRLF
/// pairs, with any unterminated tail kept as a final line.
pub open spec fn split_crlf(s: Seq<char>) -> Seq<Seq<char>>
    decreases s.len(),
{
    if s.len() == 0 {
        Seq::<Seq<char>>::empty()
    } else {
        let i = first_crlf(s) as int;
        if i == s.len() {
            seq![s]
        } else {
            let j = if i + 2 <= s.len() {
                i + 2
            } else {
                s.len() as int
            };
            seq![s.take(i)] + split_crlf(s.skip(j))
        }
    }
}

/// In `a + CRLF + b` with `a` free of CRLF pairs, the first pair sits right
/// after `a`.
proof fn lemma_first_crlf_of_line(a: Seq<char>, b: Seq<char>)
    requires
        crlf_free(a),
    ensures
        first_crlf(a + crlf() + b) == a.len(),
    decreases a.len(),
{
    let s = a + crlf() + b;
    if a.len() == 0 {
        assert(s[0] == '\r');
        assert(s[1] == '\n');
    } else {
        assert forall|i: int| !has_crlf_at(a.skip(1), i) by {
            if has_crlf_at(a.skip(1), i) {
                assert(a.skip(1)[i] == a[i + 1]);
                assert(a.skip(1)[i + 1] == a[i + 2]);
                assert(has_crlf_at(a, i + 1));
            }
        }
        lemma_first_crlf_of_line(a.skip(1), b);
        assert(s.skip(1) =~= a.skip(1) + crlf() + b);
        if s[0] == '\r' && s[1] == '\n' {
            if a.len() == 1 {
                assert(s[1] == crlf()[0]);
                assert(s[1] == '\r');
            } else {
                assert(s[0] == a[0]);
                assert(s[1] == a[1]);
                assert(has_crlf_at(a, 0));
            }
            assert(false);
        }
        assert(first_crlf(s) == 1 + first_crlf(s.skip(1)));
    }
}

/// Splitting inverts joining, for lines free of CRLF pairs.
proof fn lemma_split_join(lines: Seq<Seq<char>>)
    requires
        forall|k: int| 0 <= k < lines.len() ==> crlf_free(#[trigger] lines[k]),
    ensures
        split_crlf(join_crlf(lines)) == lines,
    decreases lines.len(),
{
    if lines.len() == 0 {
    } else {
        let a = lines[0];
        let rest = join_crlf(lines.skip(1));
        let s = join_crlf(lines);
        assert(s == a + crlf() + rest);
        lemma_first_crlf_of_line(a, rest);
        assert(first_crlf(s) == a.len());
        assert(s.len() == a.len() + 2 + rest.len());
        assert(s.take(a.len() as int) =~= a);
        assert(s.skip(a.len() as int + 2) =~= rest);
        assert forall|k: int| 0 <= k < lines.skip(1).len() implies crlf_free(
            #[trigger] lines.skip(1)[k],
        ) by {
            assert(lines.skip(1)[k] == lines[k + 1]);
        }
        lemma_split_join(lines.skip(1));
        assert(split_crlf(s) =~= seq![a] + lines.skip(1));
        assert(seq![a] + lines.skip(1) =~= lines);
    }
}

/// A text without newlines has no CRLF pair.
proof fn lemma_no_newline_crlf_free(s: Seq<char>)
    requires
        forall|i: int| 0 <= i < s.len() ==> s[i] != '\n',
    ensures
        crlf_free(s),
{
    assert forall|i: int| !has_crlf_at(s, i) by {
        if has_crlf_at(s, i) {
            assert(s[i + 1] == '\n');
        }
    }
}


/// The fields recovered from one VEVENT block.
pub struct ParsedEventV {
    pub uid: Seq<char>,
    pub summary: Seq<char>,
    pub dtstart: UtcTime,
    pub dtend: UtcTime,
}

/// A VEVENT block being read: each field once seen.
pub struct PartialV {
    pub uid: Option<Seq<char>>,
    pub summary: Option<Seq<char>>,
    pub dtstart: Option<UtcTime>,
    pub dtend: Option<UtcTime>,
}

/// The scanner state: the block being read, if any, and the finished ones.
pub struct ScanV {
    pub cur: Option<PartialV>,
    pub done: Seq<ParsedEventV>,
}

/// Whether `s` begins with `p`.
pub open spec fn line_starts_with(s: Seq<char>, p: Seq<char>) -> bool {
    p.len() <= s.len() && s.take(p.len() as int) == p
}

/// A block with nothing seen yet.
pub open spec fn empty_partial() -> PartialV {
    PartialV { uid: Option::None, summary: Option::None, dtstart: Option::None, dtend: Option::None }
}

/// One content line applied to the scanner: block markers open and close
/// blocks, the four recovered properties set their fields, anything else is
/// ignored. A marker out of place, an unreadable time, or a block closed
/// with a field missing fails the scan.
#[verifier::opaque]
pub open spec fn step_line(st: ScanV, line: Seq<char>) -> Option<ScanV> {
    if line == "BEGIN:VEVENT"@ {
        if st.cur is Some {
            Option::None
        } else {
            Option::Some(ScanV { cur: Option::Some(empty_partial()), done: st.done })
        }
    } else if line == "END:VEVENT"@ {
        match st.cur {
            Option::Some(p) => match (p.uid, p.summary, p.dtstart, p.dtend) {
                (Option::Some(u), Option::Some(sm), Option::Some(a), Option::Some(b)) =>
                    Option::Some(
                        ScanV {
                            cur: Option::None,
                            done: st.done.push(
                                ParsedEventV { uid: u, summary: sm, dtstart: a, dtend: b },
                            ),
                        },
                    ),
                _ => Option::None,
            },
            Option::None => Option::None,
        }
    } else {
        match st.cur {
            Option::None => Option::Some(st),
            Option::Some(p) => {
                if line_starts_with(line, "UID:"@) {
                    Option::Some(
                        ScanV {
                            cur: Option::Some(
                                PartialV {
                                    uid: Option::Some(line.skip(4)),
                                    summary: p.summary,
                                    dtstart: p.dtstart,
                                    dtend: p.dtend,
                                },
                            ),
                            done: st.done,
                        },
                    )
                } else if line_starts_with(line, "SUMMARY:"@) {
                    Option::Some(
                        ScanV {
                            cur: Option::Some(
                                PartialV {
                                    uid: p.uid,
                                    summary: Option::Some(
                                        crate::textesc::unescape_text_spec(line.skip(8)),
                                    ),
                                    dtstart: p.dtstart,
                                    dtend: p.dtend,
                                },
                            ),
                            done: st.done,
                        },
                    )
                } else if line_starts_with(line, "DTSTART:"@) {
                    match crate::timefmt::parse_ical_dt_spec(line.skip(8)) {
                        Option::Some(t) => Option::Some(
                            ScanV {
                                cur: Option::Some(
                                    PartialV {
                                        uid: p.uid,
                                        summary: p.summary,
                                        dtstart: Option::Some(t),
                                        dtend: p.dtend,
                                    },
                                ),
                                done: st.done,
                            },
                        ),
                        Option::None => Option::None,
                    }
                } else if line_starts_with(line, "DTEND:"@) {
                    match crate::timefmt::parse_ical_dt_spec(line.skip(6)) {
                        Option::Some(t) => Option::Some(
                            ScanV {
                                cur: Option::Some(
                                    PartialV {
                                        uid: p.uid,
                                        summary: p.summary,
                                        dtstart: p.dtstart,
                                        dtend: Option::Some(t),
                                    },
                                ),
                                done: st.done,
                            },
                        ),
                        Option::None => Option::None,
                    }
                } else {
                    Option::Some(st)
                }
            },
        }
    }
}

/// The scanner run over a line sequence.
pub open spec fn scan_lines(st: ScanV, lines: Seq<Seq<char>>) -> Option<ScanV>
    decreases lines.len(),
{
    if lines.len() == 0 {
        Option::Some(st)
    } else {
        match step_line(st, lines[0]) {
            Option::Some(st2) => scan_lines(st2, lines.skip(1)),
            Option::None => Option::None,
        }
    }
}

/// Scanning a concatenation scans the parts in turn.
proof fn lemma_scan_append(st: ScanV, a: Seq<Seq<char>>, b: Seq<Seq<char>>)
    ensures
        scan_lines(st, a + b) == (match scan_lines(st, a) {
            Option::Some(m) => scan_lines(m, b),
            Option::None => Option::None,
        }),
    decreases a.len(),
{
    if a.len() == 0 {
        assert(a + b =~= b);
    } else {
        assert((a + b)[0] == a[0]);
        assert((a + b).skip(1) =~= a.skip(1) + b);
        match step_line(st, a[0]) {
            Option::Some(m) => {
                lemma_scan_append(m, a.skip(1), b);
            },
            Option::None => {},
        }
    }
}

/// Scanning one line then the rest.
proof fn lemma_scan_cons(st: ScanV, l: Seq<char>, rest: Seq<Seq<char>>)
    ensures
        scan_lines(st, seq![l] + rest) == (match step_line(st, l) {
            Option::Some(m) => scan_lines(m, rest),
            Option::None => Option::None,
        }),
{
    assert((seq![l] + rest)[0] == l);
    assert((seq![l] + rest).skip(1) =~= rest);
}

/// The events recovered from a whole document, when every line scans.
pub open spec fn parse_calendar_spec(doc: Seq<char>) -> Option<Seq<ParsedEventV>> {
    match scan_lines(
        ScanV { cur: Option::None, done: Seq::<ParsedEventV>::empty() },
        split_crlf(doc),
    ) {
        Option::Some(st) => if st.cur is None {
            Option::Some(st.done)
        } else {
            Option::None
        },
        Option::None => Option::None,
    }
}


/// The recoverable core of a calendar event.
pub open spec fn core_of(c: crate::model::CalendarEventV) -> ParsedEventV {
    ParsedEventV { uid: c.uid, summary: c.summary, dtstart: c.dtstart, dtend: c.dtend }
}

/// The recoverable cores of a whole event sequence, in order.
pub open spec fn cores_of(evs: Seq<crate::model::CalendarEventV>) -> Seq<ParsedEventV> {
    evs.map_values(|c: crate::model::CalendarEventV| core_of(c))
}

/// Sequences that differ at one position are unequal, and the shorter is no
/// prefix of the longer.
proof fn lemma_differs_at(a: Seq<char>, b: Seq<char>, i: int)
    requires
        0 <= i < a.len(),
        0 <= i < b.len(),
        a[i] != b[i],
    ensures
        a != b,
        !line_starts_with(a, b),
{
    if a == b {
        assert(a[i] == b[i]);
    }
    if line_starts_with(a, b) {
        assert(a.take(b.len() as int)[i] == a[i]);
        assert(a.take(b.len() as int)[i] == b[i]);
    }
}

/// A line that is neither marker and matches no recovered property leaves
/// the scanner unchanged.
proof fn lemma_step_ignored(st: ScanV, line: Seq<char>)
    requires
        line != "BEGIN:VEVENT"@,
        line != "END:VEVENT"@,
        !line_starts_with(line, "UID:"@),
        !line_starts_with(line, "SUMMARY:"@),
        !line_starts_with(line, "DTSTART:"@),
        !line_starts_with(line, "DTEND:"@),
    ensures
        step_line(st, line) == Option::Some(st),
{
    reveal(step_line);
}

/// Common disequalities for a property line `pre + content` whose first
/// character tells it apart from the markers.
proof fn lemma_markers_differ(line: Seq<char>)
    requires
        line.len() > 0,
        line[0] != 'B',
        line[0] != 'E',
    ensures
        line != "BEGIN:VEVENT"@,
        line != "END:VEVENT"@,
{
    reveal_strlit("BEGIN:VEVENT");
    reveal_strlit("END:VEVENT");
    assert("BEGIN:VEVENT"@[0] == 'B');
    assert("END:VEVENT"@[0] == 'E');
    lemma_differs_at(line, "BEGIN:VEVENT"@, 0);
    lemma_differs_at(line, "END:VEVENT"@, 0);
}

/// A `UID:` line sets the UID field.
proof fn lemma_step_uid(st: ScanV, p: PartialV, u: Seq<char>)
    requires
        st.cur == Option::Some(p),
    ensures
        step_line(st, "UID:"@ + u) == Option::Some(
            ScanV {
                cur: Option::Some(
                    PartialV {
                        uid: Option::Some(u),
                        summary: p.summary,
                        dtstart: p.dtstart,
                        dtend: p.dtend,
                    },
                ),
                done: st.done,
            },
        ),
{
    reveal(step_line);
    reveal_strlit("UID:");
    let line = "UID:"@ + u;
    assert(line[0] == 'U');
    lemma_markers_differ(line);
    assert(line.take(4) =~= "UID:"@);
    assert(line_starts_with(line, "UID:"@));
    assert(line.skip(4) =~= u);
}

/// A `SUMMARY:` line sets the summary field, read back through unescaping.
proof fn lemma_step_summary(st: ScanV, p: PartialV, content: Seq<char>)
    requires
        st.cur == Option::Some(p),
    ensures
        step_line(st, "SUMMARY:"@ + content) == Option::Some(
            ScanV {
                cur: Option::Some(
                    PartialV {
                        uid: p.uid,
                        summary: Option::Some(crate::textesc::unescape_text_spec(content)),
                        dtstart: p.dtstart,
                        dtend: p.dtend,
                    },
                ),
                done: st.done,
            },
        ),
{
    reveal(step_line);
    reveal_strlit("SUMMARY:");
    reveal_strlit("UID:");
    let line = "SUMMARY:"@ + content;
    assert(line[0] == 'S');
    lemma_markers_differ(line);
    assert("UID:"@[0] == 'U');
    lemma_differs_at(line, "UID:"@, 0);
    assert(line.take(8) =~= "SUMMARY:"@);
    assert(line_starts_with(line, "SUMMARY:"@));
    assert(line.skip(8) =~= content);
}

/// A `DTSTART:` line with a well-formed rendered time sets the start field.
proof fn lemma_step_dtstart(st: ScanV, p: PartialV, t: UtcTime)
    requires
        st.cur == Option::Some(p),
        t.wf(),
    ensures
        step_line(st, "DTSTART:"@ + crate::timefmt::fmt_ical_dt(t)) == Option::Some(
            ScanV {
                cur: Option::Some(
                    PartialV {
                        uid: p.uid,
                        summary: p.summary,
                        dtstart: Option::Some(t),
                        dtend: p.dtend,
                    },
                ),
                done: st.done,
            },
        ),
{
    reveal(step_line);
    reveal_strlit("DTSTART:");
    reveal_strlit("UID:");
    reveal_strlit("SUMMARY:");
    let line = "DTSTART:"@ + crate::timefmt::fmt_ical_dt(t);
    assert(line[0] == 'D');
    lemma_markers_differ(line);
    assert("UID:"@[0] == 'U');
    lemma_differs_at(line, "UID:"@, 0);
    assert("SUMMARY:"@[0] == 'S');
    lemma_differs_at(line, "SUMMARY:"@, 0);
    assert(line.take(8) =~= "DTSTART:"@);
    assert(line_starts_with(line, "DTSTART:"@));
    assert(line.skip(8) =~= crate::timefmt::fmt_ical_dt(t));
    crate::timefmt::lemma_ical_dt_roundtrip(t);
}

/// A `DTEND:` line with a well-formed rendered time sets the end field.
proof fn lemma_step_dtend(st: ScanV, p: PartialV, t: UtcTime)
    requires
        st.cur == Option::Some(p),
        t.wf(),
    ensures
        step_line(st, "DTEND:"@ + crate::timefmt::fmt_ical_dt(t)) == Option::Some(
            ScanV {
                cur: Option::Some(
                    PartialV {
                        uid: p.uid,
                        summary: p.summary,
                        dtstart: p.dtstart,
                        dtend: Option::Some(t),
                    },
                ),
                done: st.done,
            },
        ),
{
    reveal(step_line);
    reveal_strlit("DTEND:");
    reveal_strlit("UID:");
    reveal_strlit("SUMMARY:");
    reveal_strlit("DTSTART:");
    let line = "DTEND:"@ + crate::timefmt::fmt_ical_dt(t);
    assert(line[0] == 'D');
    lemma_markers_differ(line);
    assert("UID:"@[0] == 'U');
    lemma_differs_at(line, "UID:"@, 0);
    assert("SUMMARY:"@[0] == 'S');
    lemma_differs_at(line, "SUMMARY:"@, 0);
    assert(line[2] == 'E');
    assert("DTSTART:"@[2] == 'S');
    lemma_differs_at(line, "DTSTART:"@, 2);
    assert(line.take(6) =~= "DTEND:"@);
    assert(line_starts_with(line, "DTEND:"@));
    assert(line.skip(6) =~= crate::timefmt::fmt_ical_dt(t));
    crate::timefmt::lemma_ical_dt_roundtrip(t);
}

/// A `LOCATION:`, `URL:` or `DESCRIPTION:` line is ignored by the scanner.
proof fn lemma_step_other_prop(st: ScanV, line: Seq<char>)
    requires
        line.len() > 0,
        line[0] == 'L' || (line[0] == 'U' && line.len() > 1 && line[1] == 'R') || (line[0] == 'D'
            && line.len() > 1 && line[1] == 'E'),
    ensures
        step_line(st, line) == Option::Some(st),
{
    reveal_strlit("UID:");
    reveal_strlit("SUMMARY:");
    reveal_strlit("DTSTART:");
    reveal_strlit("DTEND:");
    lemma_markers_differ(line);
    assert("SUMMARY:"@[0] == 'S');
    lemma_differs_at(line, "SUMMARY:"@, 0);
    if line[0] == 'L' {
        assert("UID:"@[0] == 'U');
        lemma_differs_at(line, "UID:"@, 0);
        assert("DTSTART:"@[0] == 'D');
        lemma_differs_at(line, "DTSTART:"@, 0);
        assert("DTEND:"@[0] == 'D');
        lemma_differs_at(line, "DTEND:"@, 0);
    } else if line[0] == 'U' {
        assert("UID:"@[1] == 'I');
        lemma_differs_at(line, "UID:"@, 1);
        assert("DTSTART:"@[0] == 'D');
        lemma_differs_at(line, "DTSTART:"@, 0);
        assert("DTEND:"@[0] == 'D');
        lemma_differs_at(line, "DTEND:"@, 0);
    } else {
        assert("UID:"@[0] == 'U');
        lemma_differs_at(line, "UID:"@, 0);
        assert("DTSTART:"@[1] == 'T');
        lemma_differs_at(line, "DTSTART:"@, 1);
        assert("DTEND:"@[1] == 'T');
        lemma_differs_at(line, "DTEND:"@, 1);
    }
    lemma_step_ignored(st, line);
}


/// The scanner's block state once all four recovered fields are seen.
pub open spec fn full_partial(c: crate::model::CalendarEventV) -> PartialV {
    PartialV {
        uid: Option::Some(c.uid),
        summary: Option::Some(c.summary),
        dtstart: Option::Some(c.dtstart),
        dtend: Option::Some(c.dtend),
    }
}

/// The scanner's block state once UID and summary are seen.
pub open spec fn partial_us(c: crate::model::CalendarEventV) -> PartialV {
    PartialV {
        uid: Option::Some(c.uid),
        summary: Option::Some(c.summary),
        dtstart: Option::None,
        dtend: Option::None,
    }
}

/// The first three lines of a rendered block: open it, set UID and summary.
proof fn lemma_scan_head_a(st: ScanV, c: crate::model::CalendarEventV)
    requires
        st.cur is None,
    ensures
        scan_lines(
            st,
            seq![
                "BEGIN:VEVENT"@,
                "UID:"@ + c.uid,
                "SUMMARY:"@ + crate::textesc::escape_text_spec(c.summary),
            ],
        ) == Option::Some(ScanV { cur: Option::Some(partial_us(c)), done: st.done }),
{
    let l1 = "BEGIN:VEVENT"@;
    let l2 = "UID:"@ + c.uid;
    let l3 = "SUMMARY:"@ + crate::textesc::escape_text_spec(c.summary);
    let st1 = ScanV { cur: Option::Some(empty_partial()), done: st.done };
    assert(step_line(st, l1) == Option::Some(st1)) by {
        reveal(step_line);
    }
    let p1 = empty_partial();
    lemma_step_uid(st1, p1, c.uid);
    let p2 = PartialV { uid: Option::Some(c.uid), summary: p1.summary, dtstart: p1.dtstart, dtend: p1.dtend };
    let st2 = ScanV { cur: Option::Some(p2), done: st.done };
    lemma_step_summary(st2, p2, crate::textesc::escape_text_spec(c.summary));
    crate::textesc::lemma_unescape_escape(c.summary);
    let st3 = ScanV { cur: Option::Some(partial_us(c)), done: st.done };
    let ll = seq![l1, l2, l3];
    assert(ll.skip(1) =~= seq![l2, l3]);
    assert(scan_lines(st, ll) == scan_lines(st1, seq![l2, l3]));
    assert(seq![l2, l3].skip(1) =~= seq![l3]);
    assert(scan_lines(st1, seq![l2, l3]) == scan_lines(st2, seq![l3]));
    assert(seq![l3].skip(1) =~= Seq::<Seq<char>>::empty());
    assert(scan_lines(st2, seq![l3]) == scan_lines(st3, Seq::<Seq<char>>::empty()));
}

/// The two time lines of a rendered block set the start and end fields.
proof fn lemma_scan_head_b(st: ScanV, c: crate::model::CalendarEventV)
    requires
        st.cur == Option::Some(partial_us(c)),
        c.dtstart.wf(),
        c.dtend.wf(),
    ensures
        scan_lines(
            st,
            seq![
                "DTSTART:"@ + crate::timefmt::fmt_ical_dt(c.dtstart),
                "DTEND:"@ + crate::timefmt::fmt_ical_dt(c.dtend),
            ],
        ) == Option::Some(ScanV { cur: Option::Some(full_partial(c)), done: st.done }),
{
    let l4 = "DTSTART:"@ + crate::timefmt::fmt_ical_dt(c.dtstart);
    let l5 = "DTEND:"@ + crate::timefmt::fmt_ical_dt(c.dtend);
    let p3 = partial_us(c);
    lemma_step_dtstart(st, p3, c.dtstart);
    let p4 = PartialV { uid: p3.uid, summary: p3.summary, dtstart: Option::Some(c.dtstart), dtend: p3.dtend };
    let st4 = ScanV { cur: Option::Some(p4), done: st.done };
    lemma_step_dtend(st4, p4, c.dtend);
    let st5 = ScanV { cur: Option::Some(full_partial(c)), done: st.done };
    let ll = seq![l4, l5];
    assert(ll.skip(1) =~= seq![l5]);
    assert(scan_lines(st, ll) == scan_lines(st4, seq![l5]));
    assert(seq![l5].skip(1) =~= Seq::<Seq<char>>::empty());
    assert(scan_lines(st4, seq![l5]) == scan_lines(st5, Seq::<Seq<char>>::empty()));
}

/// The five opening lines of a rendered block fill the four fields.
proof fn lemma_scan_head(st: ScanV, c: crate::model::CalendarEventV)
    requires
        st.cur is None,
        c.dtstart.wf(),
        c.dtend.wf(),
    ensures
        scan_lines(
            st,
            seq![
                "BEGIN:VEVENT"@,
                "UID:"@ + c.uid,
                "SUMMARY:"@ + crate::textesc::escape_text_spec(c.summary),
                "DTSTART:"@ + crate::timefmt::fmt_ical_dt(c.dtstart),
                "DTEND:"@ + crate::timefmt::fmt_ical_dt(c.dtend),
            ],
        ) == Option::Some(ScanV { cur: Option::Some(full_partial(c)), done: st.done }),
{
    let a = seq![
        "BEGIN:VEVENT"@,
        "UID:"@ + c.uid,
        "SUMMARY:"@ + crate::textesc::escape_text_spec(c.summary),
    ];
    let b = seq![
        "DTSTART:"@ + crate::timefmt::fmt_ical_dt(c.dtstart),
        "DTEND:"@ + crate::timefmt::fmt_ical_dt(c.dtend),
    ];
    lemma_scan_head_a(st, c);
    let st3 = ScanV { cur: Option::Some(partial_us(c)), done: st.done };
    lemma_scan_head_b(st3, c);
    lemma_scan_append(st, a, b);
    assert(a + b =~= seq![
        "BEGIN:VEVENT"@,
        "UID:"@ + c.uid,
        "SUMMARY:"@ + crate::textesc::escape_text_spec(c.summary),
        "DTSTART:"@ + crate::timefmt::fmt_ical_dt(c.dtstart),
        "DTEND:"@ + crate::timefmt::fmt_ical_dt(c.dtend),
    ]);
}

/// The optional location and URL lines leave the scanner unchanged.
proof fn lemma_scan_mid(st: ScanV, c: crate::model::CalendarEventV)
    ensures
        scan_lines(
            st,
            (match c.location {
                Option::Some(l) => seq!["LOCATION:"@ + crate::textesc::escape_text_spec(l)],
                Option::None => Seq::<Seq<char>>::empty(),
            }) + (match c.url {
                Option::Some(u) => seq!["URL:"@ + crate::textesc::escape_text_spec(u)],
                Option::None => Seq::<Seq<char>>::empty(),
            }),
        ) == Option::Some(st),
{
    reveal_strlit("LOCATION:");
    reveal_strlit("URL:");
    let midloc: Seq<Seq<char>> = match c.location {
        Option::Some(l) => seq!["LOCATION:"@ + crate::textesc::escape_text_spec(l)],
        Option::None => Seq::<Seq<char>>::empty(),
    };
    let midurl: Seq<Seq<char>> = match c.url {
        Option::Some(u) => seq!["URL:"@ + crate::textesc::escape_text_spec(u)],
        Option::None => Seq::<Seq<char>>::empty(),
    };
    match c.location {
        Option::Some(l) => {
            let line = "LOCATION:"@ + crate::textesc::escape_text_spec(l);
            assert(line[0] == 'L');
            lemma_step_other_prop(st, line);
            lemma_scan_cons(st, line, Seq::<Seq<char>>::empty());
            assert(midloc =~= seq![line] + Seq::<Seq<char>>::empty());
        },
        Option::None => {},
    }
    assert(scan_lines(st, midloc) == Option::Some(st));
    match c.url {
        Option::Some(u) => {
            let line = "URL:"@ + crate::textesc::escape_text_spec(u);
            assert(line[0] == 'U' && line[1] == 'R');
            lemma_step_other_prop(st, line);
            lemma_scan_cons(st, line, Seq::<Seq<char>>::empty());
            assert(midurl =~= seq![line] + Seq::<Seq<char>>::empty());
        },
        Option::None => {},
    }
    assert(scan_lines(st, midurl) == Option::Some(st));
    lemma_scan_append(st, midloc, midurl);
}

/// The description line is ignored and the closing marker pops the block.
proof fn lemma_scan_tail(st: ScanV, c: crate::model::CalendarEventV, done0: Seq<ParsedEventV>)
    requires
        st.cur == Option::Some(full_partial(c)),
        st.done == done0,
    ensures
        scan_lines(
            st,
            seq![
                "DESCRIPTION:"@ + crate::textesc::escape_text_spec(c.description),
                "END:VEVENT"@,
            ],
        ) == Option::Some(ScanV { cur: Option::None, done: done0.push(core_of(c)) }),
{
    reveal_strlit("DESCRIPTION:");
    reveal_strlit("BEGIN:VEVENT");
    reveal_strlit("END:VEVENT");
    assert("BEGIN:VEVENT"@.len() == 12);
    assert("END:VEVENT"@.len() == 10);
    let l7 = "DESCRIPTION:"@ + crate::textesc::escape_text_spec(c.description);
    let l8 = "END:VEVENT"@;
    assert(l7[0] == 'D' && l7[1] == 'E');
    lemma_step_other_prop(st, l7);
    let stz = ScanV { cur: Option::None, done: done0.push(core_of(c)) };
    assert(step_line(st, l8) == Option::Some(stz)) by {
        reveal(step_line);
        assert("BEGIN:VEVENT"@.len() == 12);
        assert("END:VEVENT"@.len() == 10);
    }
    assert(seq![l7, l8] =~= seq![l7] + (seq![l8] + Seq::<Seq<char>>::empty()));
    lemma_scan_cons(st, l7, seq![l8] + Seq::<Seq<char>>::empty());
    lemma_scan_cons(st, l8, Seq::<Seq<char>>::empty());
}

/// Scanning one rendered event block, started outside a block, finishes
/// outside a block having recovered exactly that event's core fields.
proof fn lemma_scan_event_block(st: ScanV, c: crate::model::CalendarEventV)
    requires
        st.cur is None,
        c.dtstart.wf(),
        c.dtend.wf(),
    ensures
        scan_lines(st, crate::ical::event_lines_spec(c)) == Option::Some(
            ScanV { cur: Option::None, done: st.done.push(core_of(c)) },
        ),
{
    reveal(crate::ical::event_lines_spec);
    let head = seq![
        "BEGIN:VEVENT"@,
        "UID:"@ + c.uid,
        "SUMMARY:"@ + crate::textesc::escape_text_spec(c.summary),
        "DTSTART:"@ + crate::timefmt::fmt_ical_dt(c.dtstart),
        "DTEND:"@ + crate::timefmt::fmt_ical_dt(c.dtend),
    ];
    let mid = (match c.location {
        Option::Some(l) => seq!["LOCATION:"@ + crate::textesc::escape_text_spec(l)],
        Option::None => Seq::<Seq<char>>::empty(),
    }) + (match c.url {
        Option::Some(u) => seq!["URL:"@ + crate::textesc::escape_text_spec(u)],
        Option::None => Seq::<Seq<char>>::empty(),
    });
    let tail2 = seq![
        "DESCRIPTION:"@ + crate::textesc::escape_text_spec(c.description),
        "END:VEVENT"@,
    ];
    assert(crate::ical::event_lines_spec(c) =~= head + (mid + tail2));
    let st5 = ScanV { cur: Option::Some(full_partial(c)), done: st.done };
    lemma_scan_head(st, c);
    lemma_scan_mid(st5, c);
    lemma_scan_tail(st5, c, st.done);
    lemma_scan_append(st, head, mid + tail2);
    lemma_scan_append(st5, mid, tail2);
}

/// Scanning the rendered blocks of a whole event sequence recovers the
/// cores of all of them, in order.
proof fn lemma_scan_events(st: ScanV, evs: Seq<crate::model::CalendarEventV>)
    requires
        st.cur is None,
        forall|k: int|
            0 <= k < evs.len() ==> (#[trigger] evs[k]).dtstart.wf() && evs[k].dtend.wf(),
    ensures
        scan_lines(st, crate::ical::events_lines_spec(evs)) == Option::Some(
            ScanV {
                cur: Option::None,
                done: st.done + evs.map_values(|c: crate::model::CalendarEventV| core_of(c)),
            },
        ),
    decreases evs.len(),
{
    let cores = evs.map_values(|c: crate::model::CalendarEventV| core_of(c));
    if evs.len() == 0 {
        assert(st.done + cores =~= st.done);
        assert(scan_lines(st, crate::ical::events_lines_spec(evs)) == Option::Some(st));
        assert(ScanV { cur: st.cur, done: st.done } == st);
    } else {
        lemma_scan_event_block(st, evs[0]);
        let st1 = ScanV { cur: Option::None, done: st.done.push(core_of(evs[0])) };
        assert(forall|k: int|
            0 <= k < evs.skip(1).len() ==> (#[trigger] evs.skip(1)[k]).dtstart.wf()
                && evs.skip(1)[k].dtend.wf());
        lemma_scan_events(st1, evs.skip(1));
        lemma_scan_append(st, crate::ical::event_lines_spec(evs[0]),
            crate::ical::events_lines_spec(evs.skip(1)));
        let tailcores = evs.skip(1).map_values(|c: crate::model::CalendarEventV| core_of(c));
        assert(st1.done + tailcores =~= st.done + cores);
        assert(scan_lines(st, crate::ical::events_lines_spec(evs)) == Option::Some(
            ScanV { cur: Option::None, done: st.done + cores },
        ));
    }
}


/// No newline character anywhere in the text.
pub open spec fn no_newline(s: Seq<char>) -> bool {
    forall|i: int| 0 <= i < s.len() ==> s[i] != '\n'
}

/// Concatenation preserves the absence of newlines.
proof fn lemma_concat_no_newline(a: Seq<char>, b: Seq<char>)
    requires
        no_newline(a),
        no_newline(b),
    ensures
        no_newline(a + b),
{
    assert forall|i: int| 0 <= i < (a + b).len() implies (a + b)[i] != '\n' by {
        if i < a.len() {
            assert((a + b)[i] == a[i]);
        } else {
            assert((a + b)[i] == b[i - a.len()]);
        }
    }
}

/// The rendered time contains only digits, `T` and `Z`.
proof fn lemma_fmt_no_newline(t: UtcTime)
    ensures
        no_newline(crate::timefmt::fmt_ical_dt(t)),
{
    let s = crate::timefmt::fmt_ical_dt(t);
    assert forall|d: int| crate::timefmt::digit_char(d) != '\n' by {}
    assert(s =~= seq![
        crate::timefmt::four_digits(t.year as int)[0],
        crate::timefmt::four_digits(t.year as int)[1],
        crate::timefmt::four_digits(t.year as int)[2],
        crate::timefmt::four_digits(t.year as int)[3],
        crate::timefmt::two_digits(t.month as int)[0],
        crate::timefmt::two_digits(t.month as int)[1],
        crate::timefmt::two_digits(t.day as int)[0],
        crate::timefmt::two_digits(t.day as int)[1],
        'T',
        crate::timefmt::two_digits(t.hour as int)[0],
        crate::timefmt::two_digits(t.hour as int)[1],
        crate::timefmt::two_digits(t.minute as int)[0],
        crate::timefmt::two_digits(t.minute as int)[1],
        crate::timefmt::two_digits(t.second as int)[0],
        crate::timefmt::two_digits(t.second as int)[1],
        'Z',
    ]);
}

/// An escaped value contains no newline; as a spec-level restatement.
proof fn lemma_escape_no_newline_pred(s: Seq<char>)
    ensures
        no_newline(crate::textesc::escape_text_spec(s)),
{
    crate::textesc::lemma_escape_no_newline(s);
}

/// Every line of a rendered event block is free of CRLF pairs, given a UID
/// without newlines.
proof fn lemma_event_lines_crlf_free(c: crate::model::CalendarEventV)
    requires
        no_newline(c.uid),
    ensures
        forall|k: int|
            0 <= k < crate::ical::event_lines_spec(c).len() ==> crlf_free(
                #[trigger] crate::ical::event_lines_spec(c)[k],
            ),
{
    reveal(crate::ical::event_lines_spec);
    reveal_strlit("BEGIN:VEVENT");
    reveal_strlit("END:VEVENT");
    reveal_strlit("UID:");
    reveal_strlit("SUMMARY:");
    reveal_strlit("DTSTART:");
    reveal_strlit("DTEND:");
    reveal_strlit("LOCATION:");
    reveal_strlit("URL:");
    reveal_strlit("DESCRIPTION:");
    assert(no_newline("BEGIN:VEVENT"@));
    assert(no_newline("END:VEVENT"@));
    assert(no_newline("UID:"@));
    assert(no_newline("SUMMARY:"@));
    assert(no_newline("DTSTART:"@));
    assert(no_newline("DTEND:"@));
    assert(no_newline("LOCATION:"@));
    assert(no_newline("URL:"@));
    assert(no_newline("DESCRIPTION:"@));
    lemma_fmt_no_newline(c.dtstart);
    lemma_fmt_no_newline(c.dtend);
    lemma_escape_no_newline_pred(c.summary);
    lemma_escape_no_newline_pred(c.description);
    lemma_concat_no_newline("UID:"@, c.uid);
    lemma_concat_no_newline("SUMMARY:"@, crate::textesc::escape_text_spec(c.summary));
    lemma_concat_no_newline("DTSTART:"@, crate::timefmt::fmt_ical_dt(c.dtstart));
    lemma_concat_no_newline("DTEND:"@, crate::timefmt::fmt_ical_dt(c.dtend));
    lemma_concat_no_newline("DESCRIPTION:"@, crate::textesc::escape_text_spec(c.description));
    match c.location {
        Option::Some(l) => {
            lemma_escape_no_newline_pred(l);
            lemma_concat_no_newline("LOCATION:"@, crate::textesc::escape_text_spec(l));
        },
        Option::None => {},
    }
    match c.url {
        Option::Some(u) => {
            lemma_escape_no_newline_pred(u);
            lemma_concat_no_newline("URL:"@, crate::textesc::escape_text_spec(u));
        },
        Option::None => {},
    }
    assert forall|k: int| 0 <= k < crate::ical::event_lines_spec(c).len() implies crlf_free(
        #[trigger] crate::ical::event_lines_spec(c)[k],
    ) by {
        let line = crate::ical::event_lines_spec(c)[k];
        assert(no_newline(line));
        lemma_no_newline_crlf_free(line);
    }
}

/// Every line of every rendered block is free of CRLF pairs.
proof fn lemma_events_lines_crlf_free(evs: Seq<crate::model::CalendarEventV>)
    requires
        forall|k: int| 0 <= k < evs.len() ==> no_newline((#[trigger] evs[k]).uid),
    ensures
        forall|k: int|
            0 <= k < crate::ical::events_lines_spec(evs).len() ==> crlf_free(
                #[trigger] crate::ical::events_lines_spec(evs)[k],
            ),
    decreases evs.len(),
{
    if evs.len() != 0 {
        lemma_event_lines_crlf_free(evs[0]);
        assert(forall|k: int|
            0 <= k < evs.skip(1).len() ==> no_newline((#[trigger] evs.skip(1)[k]).uid));
        lemma_events_lines_crlf_free(evs.skip(1));
        let a = crate::ical::event_lines_spec(evs[0]);
        let b = crate::ical::events_lines_spec(evs.skip(1));
        assert forall|k: int| 0 <= k < crate::ical::events_lines_spec(evs).len() implies crlf_free(
            #[trigger] crate::ical::events_lines_spec(evs)[k],
        ) by {
            if k < a.len() {
                assert(crate::ical::events_lines_spec(evs)[k] == a[k]);
            } else {
                assert(crate::ical::events_lines_spec(evs)[k] == b[k - a.len()]);
            }
        }
    }
}

/// The document header leaves the scanner unchanged outside a block.
proof fn lemma_scan_header(st: ScanV, name: Seq<char>)
    requires
        st.cur is None,
    ensures
        scan_lines(st, crate::ical::header_lines_spec(name)) == Option::Some(st),
{
    reveal_strlit("BEGIN:VCALENDAR");
    reveal_strlit("VERSION:2.0");
    reveal_strlit("PRODID:-//ethglobal-events//feed//EN");
    reveal_strlit("X-WR-CALNAME:");
    reveal_strlit("BEGIN:VEVENT");
    reveal_strlit("END:VEVENT");
    let h1 = "BEGIN:VCALENDAR"@;
    let h2 = "VERSION:2.0"@;
    let h3 = "PRODID:-//ethglobal-events//feed//EN"@;
    let h4 = "X-WR-CALNAME:"@ + crate::textesc::escape_text_spec(name);
    assert("BEGIN:VEVENT"@.len() == 12);
    assert("END:VEVENT"@.len() == 10);
    assert(h1.len() == 15);
    assert(h2.len() == 11);
    assert(h3.len() == 36);
    assert(h4[0] == 'X');
    lemma_markers_differ(h4);
    assert(step_line(st, h1) == Option::Some(st)) by {
        reveal(step_line);
    }
    assert(step_line(st, h2) == Option::Some(st)) by {
        reveal(step_line);
    }
    assert(step_line(st, h3) == Option::Some(st)) by {
        reveal(step_line);
    }
    assert(step_line(st, h4) == Option::Some(st)) by {
        reveal(step_line);
    }
    let ll = crate::ical::header_lines_spec(name);
    assert(ll.skip(1) =~= seq![h2, h3, h4]);
    assert(scan_lines(st, ll) == scan_lines(st, seq![h2, h3, h4]));
    assert(seq![h2, h3, h4].skip(1) =~= seq![h3, h4]);
    assert(scan_lines(st, seq![h2, h3, h4]) == scan_lines(st, seq![h3, h4]));
    assert(seq![h3, h4].skip(1) =~= seq![h4]);
    assert(scan_lines(st, seq![h3, h4]) == scan_lines(st, seq![h4]));
    assert(seq![h4].skip(1) =~= Seq::<Seq<char>>::empty());
    assert(scan_lines(st, seq![h4]) == scan_lines(st, Seq::<Seq<char>>::empty()));
}

/// The closing container line leaves the scanner unchanged outside a block.
proof fn lemma_scan_footer(st: ScanV)
    requires
        st.cur is None,
    ensures
        scan_lines(st, seq!["END:VCALENDAR"@]) == Option::Some(st),
{
    reveal_strlit("END:VCALENDAR");
    reveal_strlit("BEGIN:VEVENT");
    reveal_strlit("END:VEVENT");
    let l = "END:VCALENDAR"@;
    assert(l.len() == 13);
    assert("BEGIN:VEVENT"@.len() == 12);
    assert("END:VEVENT"@.len() == 10);
    assert(step_line(st, l) == Option::Some(st)) by {
        reveal(step_line);
    }
    assert(seq![l].skip(1) =~= Seq::<Seq<char>>::empty());
    assert(scan_lines(st, seq![l]) == scan_lines(st, Seq::<Seq<char>>::empty()));
}

/// An event whose rendering the reader can invert: times in range and a UID
/// without newlines, as every UID the mapper derives is.
pub open spec fn renderable_event(c: crate::model::CalendarEventV) -> bool {
    c.dtstart.wf() && c.dtend.wf() && no_newline(c.uid)
}

/// A feed whose rendering the reader can invert.
pub open spec fn renderable(f: crate::model::CalendarFeedV) -> bool {
    forall|k: int| 0 <= k < f.events.len() ==> renderable_event(#[trigger] f.events[k])
}

/// Serialization is lossless for UID, summary, start and end: reading a
/// rendered feed back recovers exactly those fields of every event, in
/// order — and so the document holds exactly one VEVENT per event.
pub proof fn lemma_render_parse_roundtrip(f: crate::model::CalendarFeedV)
    requires
        renderable(f),
    ensures
        parse_calendar_spec(crate::ical::render_feed_spec(f)) == Option::Some(cores_of(f.events)),
{
    let lines = crate::ical::feed_lines_spec(f);
    let header = crate::ical::header_lines_spec(f.name);
    let evlines = crate::ical::events_lines_spec(f.events);
    let footer = seq!["END:VCALENDAR"@];

    // Every content line is free of CRLF pairs, so splitting inverts
    // joining.
    assert forall|k: int| 0 <= k < header.len() implies crlf_free(#[trigger] header[k]) by {
        reveal_strlit("BEGIN:VCALENDAR");
        reveal_strlit("VERSION:2.0");
        reveal_strlit("PRODID:-//ethglobal-events//feed//EN");
        reveal_strlit("X-WR-CALNAME:");
        assert(no_newline("BEGIN:VCALENDAR"@));
        assert(no_newline("VERSION:2.0"@));
        assert(no_newline("PRODID:-//ethglobal-events//feed//EN"@));
        assert(no_newline("X-WR-CALNAME:"@));
        lemma_escape_no_newline_pred(f.name);
        lemma_concat_no_newline("X-WR-CALNAME:"@, crate::textesc::escape_text_spec(f.name));
        lemma_no_newline_crlf_free(header[k]);
    }
    assert(forall|k: int| 0 <= k < f.events.len() ==> no_newline((#[trigger] f.events[k]).uid));
    lemma_events_lines_crlf_free(f.events);
    assert(crlf_free("END:VCALENDAR"@)) by {
        reveal_strlit("END:VCALENDAR");
        assert(no_newline("END:VCALENDAR"@));
        lemma_no_newline_crlf_free("END:VCALENDAR"@);
    }
    assert forall|k: int| 0 <= k < lines.len() implies crlf_free(#[trigger] lines[k]) by {
        if k < header.len() {
            assert(lines[k] == header[k]);
        } else if k < header.len() + evlines.len() {
            assert(lines[k] == (header + evlines)[k]);
            assert((header + evlines)[k] == evlines[k - header.len()]);
        } else {
            assert(lines[k] == footer[k - header.len() - evlines.len()]);
        }
    }
    lemma_split_join(lines);

    // Scan the three parts in turn.
    let init = ScanV { cur: Option::None, done: Seq::<ParsedEventV>::empty() };
    lemma_scan_header(init, f.name);
    assert(forall|k: int|
        0 <= k < f.events.len() ==> (#[trigger] f.events[k]).dtstart.wf()
            && f.events[k].dtend.wf());
    lemma_scan_events(init, f.events);
    let cores = f.events.map_values(|c: crate::model::CalendarEventV| core_of(c));
    let ste = ScanV { cur: Option::None, done: Seq::<ParsedEventV>::empty() + cores };
    lemma_scan_footer(ste);
    lemma_scan_append(init, header, evlines + footer);
    lemma_scan_append(init, evlines, footer);
    assert(lines =~= header + (evlines + footer));
    assert(scan_lines(init, lines) == Option::Some(ste));
    assert(Seq::<ParsedEventV>::empty() + cores =~= cores);
}


/// UUID text characters are never newlines.
pub proof fn lemma_uuid_chars_no_newline(s: Seq<char>)
    requires
        forall|i: int| 0 <= i < s.len() ==> crate::uid::uuid_text_char(#[trigger] s[i]),
    ensures
        no_newline(s),
{
}

/// The rendered document holds exactly one VEVENT per feed event, in feed
/// order: reading it back gives one entry per event, with that event's UID
/// and summary at the same position.
pub proof fn lemma_one_vevent_per_event(f: crate::model::CalendarFeedV)
    requires
        renderable(f),
    ensures
        parse_calendar_spec(crate::ical::render_feed_spec(f)) matches Option::Some(es)
            && es.len() == f.events.len() && (forall|k: int|
            0 <= k < f.events.len() ==> (#[trigger] es[k]).uid == f.events[k].uid && es[k].summary
                == f.events[k].summary),
{
    lemma_render_parse_roundtrip(f);
    let es = cores_of(f.events);
    assert forall|k: int| 0 <= k < f.events.len() implies (#[trigger] es[k]).uid
        == f.events[k].uid && es[k].summary == f.events[k].summary by {
        assert(es[k] == core_of(f.events[k]));
    }
}


/// One recovered event, as executable data.
pub struct ParsedEvent {
    pub uid: String,
    pub summary: String,
    pub dtstart: UtcTime,
    pub dtend: UtcTime,
}

impl View for ParsedEvent {
    type V = ParsedEventV;

    open spec fn view(&self) -> ParsedEventV {
        ParsedEventV {
            uid: self.uid@,
            summary: self.summary@,
            dtstart: self.dtstart,
            dtend: self.dtend,
        }
    }
}

impl DeepView for ParsedEvent {
    type V = ParsedEventV;

    open spec fn deep_view(&self) -> ParsedEventV {
        self.view()
    }
}

/// Split a document into its CRLF-terminated content lines.
fn split_lines(doc: &str) -> (r: Vec<String>)
    ensures
        r.deep_view() == split_crlf(doc@),
{
    let n: usize = doc.unicode_len();
    let mut out: Vec<String> = Vec::new();
    let mut pos: usize = 0;
    proof {
        assert(doc@.skip(0) == doc@);
        assert(out.deep_view() + split_crlf(doc@) =~= split_crlf(doc@));
    }
    while pos < n
        invariant
            pos <= n,
            n == doc@.len(),
            out.deep_view() + split_crlf(doc@.skip(pos as int)) == split_crlf(doc@),
        decreases n - pos,
    {
        let ghost suffix = doc@.skip(pos as int);
        let mut j: usize = pos;
        let mut found: bool = false;
        while j < n - 1 && !found
            invariant
                pos < n,
                pos <= j <= n,
                n == doc@.len(),
                suffix == doc@.skip(pos as int),
                forall|i: int| 0 <= i < j - pos ==> !has_crlf_at(suffix, i),
                found ==> j + 1 < n && has_crlf_at(suffix, j - pos),
            decreases n - j + (if found { 0int } else { 1int }),
        {
            if doc.get_char(j) == '\r' && doc.get_char(j + 1) == '\n' {
                found = true;
                proof {
                    assert(suffix[j - pos] == doc@[j as int]);
                    assert(suffix[j - pos + 1] == doc@[j + 1]);
                    assert(has_crlf_at(suffix, j - pos));
                }
            } else {
                proof {
                    assert(suffix[j - pos] == doc@[j as int]);
                    if has_crlf_at(suffix, j - pos) {
                        assert(suffix[j - pos + 1] == doc@[j + 1]);
                    }
                }
                j = j + 1;
            }
        }
        proof {
            lemma_first_crlf(suffix);
        }
        if found {
            proof {
                assert(first_crlf(suffix) == j - pos) by {
                    let f = first_crlf(suffix) as int;
                    if f < j - pos {
                        assert(has_crlf_at(suffix, f));
                    }
                    if f > j - pos {
                        assert(!has_crlf_at(suffix, j - pos));
                    }
                }
            }
            let line = doc.substring_char(pos, j);
            out.push(line.to_owned());
            proof {
                assert(doc@.subrange(pos as int, j as int) =~= suffix.take(j - pos));
                assert(suffix.skip(j - pos + 2) =~= doc@.skip(j + 2));
                assert(split_crlf(suffix) == seq![suffix.take(j - pos)] + split_crlf(
                    doc@.skip(j + 2),
                ));
                assert(out.deep_view() + split_crlf(doc@.skip(j + 2)) =~= split_crlf(doc@));
            }
            pos = j + 2;
        } else {
            proof {
                assert forall|i: int| !has_crlf_at(suffix, i) by {
                    if 0 <= i && i + 2 <= suffix.len() {
                        assert(i < j - pos || i >= j - pos);
                        if i >= j - pos {
                            assert(i + 2 > suffix.len());
                        }
                    }
                }
                assert(first_crlf(suffix) == suffix.len()) by {
                    if first_crlf(suffix) < suffix.len() {
                        assert(has_crlf_at(suffix, first_crlf(suffix) as int));
                    }
                }
            }
            let line = doc.substring_char(pos, n);
            out.push(line.to_owned());
            proof {
                assert(doc@.subrange(pos as int, n as int) =~= suffix);
                assert(split_crlf(suffix) == seq![suffix]);
                assert(doc@.skip(n as int) =~= Seq::<char>::empty());
                assert(out.deep_view() =~= split_crlf(doc@));
            }
            pos = n;
        }
    }
    proof {
        assert(doc@.skip(pos as int) =~= Seq::<char>::empty());
        assert(out.deep_view() =~= split_crlf(doc@));
    }
    out
}


/// A VEVENT block being read, as executable data.
struct PartialEv {
    uid: Option<String>,
    summary: Option<String>,
    dtstart: Option<UtcTime>,
    dtend: Option<UtcTime>,
}

impl View for PartialEv {
    type V = PartialV;

    closed spec fn view(&self) -> PartialV {
        PartialV {
            uid: match self.uid {
                Option::Some(u) => Option::Some(u@),
                Option::None => Option::None,
            },
            summary: match self.summary {
                Option::Some(s) => Option::Some(s@),
                Option::None => Option::None,
            },
            dtstart: self.dtstart,
            dtend: self.dtend,
        }
    }
}

/// The scanner state carried by the executable reader.
spec fn cur_view(c: Option<PartialEv>) -> Option<PartialV> {
    match c {
        Option::Some(p) => Option::Some(p@),
        Option::None => Option::None,
    }
}

/// Whether two texts are equal.
fn str_eq(a: &str, b: &str) -> (r: bool)
    ensures
        r == (a@ == b@),
{
    let oa = a.to_owned();
    let ob = b.to_owned();
    oa == ob
}

/// Whether `s` begins with `p`.
fn starts_with_str(s: &str, p: &str) -> (r: bool)
    ensures
        r == line_starts_with(s@, p@),
{
    let ns = s.unicode_len();
    let np = p.unicode_len();
    if ns < np {
        false
    } else {
        let pre = s.substring_char(0, np);
        proof {
            assert(s@.subrange(0, np as int) =~= s@.take(np as int));
        }
        str_eq(pre, p)
    }
}

/// The text after the first `k` characters.
fn tail_from<'a>(s: &'a str, k: usize) -> (r: &'a str)
    requires
        k <= s@.len(),
    ensures
        r@ == s@.skip(k as int),
{
    let n = s.unicode_len();
    let r = s.substring_char(k, n);
    proof {
        assert(s@.subrange(k as int, n as int) =~= s@.skip(k as int));
    }
    r
}

/// One more line extends a scan by one step.
proof fn lemma_scan_snoc(st0: ScanV, lines: Seq<Seq<char>>, i: int)
    requires
        0 <= i < lines.len(),
    ensures
        scan_lines(st0, lines.take(i + 1)) == (match scan_lines(st0, lines.take(i)) {
            Option::Some(m) => step_line(m, lines[i]),
            Option::None => Option::None,
        }),
{
    assert(lines.take(i + 1) =~= lines.take(i) + seq![lines[i]]);
    lemma_scan_append(st0, lines.take(i), seq![lines[i]]);
    match scan_lines(st0, lines.take(i)) {
        Option::Some(m) => {
            lemma_scan_cons(m, lines[i], Seq::<Seq<char>>::empty());
            assert(seq![lines[i]] =~= seq![lines[i]] + Seq::<Seq<char>>::empty());
            match step_line(m, lines[i]) {
                Option::Some(m2) => {
                    assert(scan_lines(m2, Seq::<Seq<char>>::empty()) == Option::Some(m2));
                },
                Option::None => {},
            }
        },
        Option::None => {},
    }
}

/// A failed prefix fails the whole scan.
proof fn lemma_scan_fail(st0: ScanV, lines: Seq<Seq<char>>, i: int)
    requires
        0 <= i <= lines.len(),
        scan_lines(st0, lines.take(i)) is None,
    ensures
        scan_lines(st0, lines) is None,
{
    assert(lines =~= lines.take(i) + lines.skip(i));
    lemma_scan_append(st0, lines.take(i), lines.skip(i));
}

/// Read a calendar document back into its events: exactly the scan the
/// reading specification describes.
pub fn parse_calendar(doc: &str) -> (r: Option<Vec<ParsedEvent>>)
    ensures
        match parse_calendar_spec(doc@) {
            Option::Some(es) => r matches Option::Some(v) && v.deep_view() == es,
            Option::None => r is None,
        },
{
    let lines = split_lines(doc);
    let ghost lv = lines.deep_view();
    let ghost st0 = ScanV { cur: Option::None, done: Seq::<ParsedEventV>::empty() };
    let mut out: Vec<ParsedEvent> = Vec::new();
    let mut cur: Option<PartialEv> = Option::None;
    let mut i: usize = 0;
    proof {
        assert(lv.take(0) =~= Seq::<Seq<char>>::empty());
        assert(out.deep_view() =~= Seq::<ParsedEventV>::empty());
    }
    while i < lines.len()
        invariant
            i <= lines@.len(),
            lv == lines.deep_view(),
            lv == split_crlf(doc@),
            st0 == (ScanV { cur: Option::None, done: Seq::<ParsedEventV>::empty() }),
            scan_lines(st0, lv.take(i as int)) == Option::Some(
                ScanV { cur: cur_view(cur), done: out.deep_view() },
            ),
        decreases lines@.len() - i,
    {
        let ghost stpre = ScanV { cur: cur_view(cur), done: out.deep_view() };
        let ghost line = lv[i as int];
        proof {
            lemma_scan_snoc(st0, lv, i as int);
            assert(lines[i as int]@ == line);
        }
        let ls = lines[i].as_str();
        if str_eq(ls, "BEGIN:VEVENT") {
            if cur.is_some() {
                proof {
                    reveal(step_line);
                    assert(step_line(stpre, line) is None);
                    lemma_scan_fail(st0, lv, i + 1);
                }
                return Option::None;
            }
            cur = Option::Some(
                PartialEv {
                    uid: Option::None,
                    summary: Option::None,
                    dtstart: Option::None,
                    dtend: Option::None,
                },
            );
            proof {
                reveal(step_line);
                assert(cur_view(cur) == Option::Some(empty_partial()));
                assert(step_line(stpre, line) == Option::Some(
                    ScanV { cur: cur_view(cur), done: out.deep_view() },
                ));
            }
        } else if str_eq(ls, "END:VEVENT") {
            match cur {
                Option::Some(p) => {
                    match (p.uid, p.summary, p.dtstart, p.dtend) {
                        (
                            Option::Some(u),
                            Option::Some(sm),
                            Option::Some(a),
                            Option::Some(b),
                        ) => {
                            out.push(ParsedEvent { uid: u, summary: sm, dtstart: a, dtend: b });
                            cur = Option::None;
                            proof {
                                reveal(step_line);
                                assert(out.deep_view() =~= stpre.done.push(
                                    ParsedEventV { uid: u@, summary: sm@, dtstart: a, dtend: b },
                                ));
                                assert(step_line(stpre, line) == Option::Some(
                                    ScanV { cur: cur_view(cur), done: out.deep_view() },
                                ));
                            }
                        },
                        _ => {
                            proof {
                                reveal(step_line);
                                assert(step_line(stpre, line) is None);
                                lemma_scan_fail(st0, lv, i + 1);
                            }
                            return Option::None;
                        },
                    }
                },
                Option::None => {
                    proof {
                        reveal(step_line);
                        assert(step_line(stpre, line) is None);
                        lemma_scan_fail(st0, lv, i + 1);
                    }
                    return Option::None;
                },
            }
        } else {
            cur = match cur {
                Option::None => {
                    proof {
                        reveal(step_line);
                        assert(step_line(stpre, line) == Option::Some(stpre));
                    }
                    Option::None
                },
                Option::Some(p) => {
                    if starts_with_str(ls, "UID:") {
                        proof {
                            reveal_strlit("UID:");
                            assert("UID:"@.len() == 4);
                        }
                        let rest = tail_from(ls, 4);
                        let np = PartialEv {
                            uid: Option::Some(rest.to_owned()),
                            summary: p.summary,
                            dtstart: p.dtstart,
                            dtend: p.dtend,
                        };
                        proof {
                            reveal(step_line);
                            assert(step_line(stpre, line) == Option::Some(
                                ScanV { cur: Option::Some(np@), done: out.deep_view() },
                            ));
                        }
                        Option::Some(np)
                    } else if starts_with_str(ls, "SUMMARY:") {
                        proof {
                            reveal_strlit("SUMMARY:");
                            assert("SUMMARY:"@.len() == 8);
                        }
                        let rest = tail_from(ls, 8);
                        let np = PartialEv {
                            uid: p.uid,
                            summary: Option::Some(crate::textesc::unescape_text(rest)),
                            dtstart: p.dtstart,
                            dtend: p.dtend,
                        };
                        proof {
                            reveal(step_line);
                            assert(step_line(stpre, line) == Option::Some(
                                ScanV { cur: Option::Some(np@), done: out.deep_view() },
                            ));
                        }
                        Option::Some(np)
                    } else if starts_with_str(ls, "DTSTART:") {
                        proof {
                            reveal_strlit("DTSTART:");
                            assert("DTSTART:"@.len() == 8);
                        }
                        let rest = tail_from(ls, 8);
                        match crate::timefmt::parse_ical_dt(rest) {
                            Option::Some(t) => {
                                let np = PartialEv {
                                    uid: p.uid,
                                    summary: p.summary,
                                    dtstart: Option::Some(t),
                                    dtend: p.dtend,
                                };
                                proof {
                                    reveal(step_line);
                                    assert(step_line(stpre, line) == Option::Some(
                                        ScanV { cur: Option::Some(np@), done: out.deep_view() },
                                    ));
                                }
                                Option::Some(np)
                            },
                            Option::None => {
                                proof {
                                    reveal(step_line);
                                    assert(step_line(stpre, line) is None);
                                    lemma_scan_fail(st0, lv, i + 1);
                                }
                                return Option::None;
                            },
                        }
                    } else if starts_with_str(ls, "DTEND:") {
                        proof {
                            reveal_strlit("DTEND:");
                            assert("DTEND:"@.len() == 6);
                        }
                        let rest = tail_from(ls, 6);
                        match crate::timefmt::parse_ical_dt(rest) {
                            Option::Some(t) => {
                                let np = PartialEv {
                                    uid: p.uid,
                                    summary: p.summary,
                                    dtstart: p.dtstart,
                                    dtend: Option::Some(t),
                                };
                                proof {
                                    reveal(step_line);
                                    assert(step_line(stpre, line) == Option::Some(
                                        ScanV { cur: Option::Some(np@), done: out.deep_view() },
                                    ));
                                }
                                Option::Some(np)
                            },
                            Option::None => {
                                proof {
                                    reveal(step_line);
                                    assert(step_line(stpre, line) is None);
                                    lemma_scan_fail(st0, lv, i + 1);
                                }
                                return Option::None;
                            },
                        }
                    } else {
                        proof {
                            reveal(step_line);
                            assert(step_line(stpre, line) == Option::Some(stpre));
                        }
                        Option::Some(p)
                    }
                },
            };
        }
        i = i + 1;
    }
    proof {
        assert(lv.take(lv.len() as int) =~= lv);
    }
    match cur {
        Option::Some(_) => Option::None,
        Option::None => Option::Some(out),
    }
}

} // verus!
