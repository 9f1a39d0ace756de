//! Escaping for the iCalendar TEXT value type: backslash, semicolon, comma
//! and newline are written as backslash sequences, so that property values
//! never contain a raw line break.

use vstd::prelude::*;

verus! {

/// How one character is written inside a TEXT property value.
pub open spec fn escaped_char(c: char) -> Seq<char> {
    if c == '\\' {
        seq!['\\', '\\']
    } else if c == ';' {
        seq!['\\', ';']
    } else if c == ',' {
        seq!['\\', ',']
    } else if c == '\n' {
        seq!['\\', 'n']
    } else {
        seq![c]
    }
}

/// The escaped form of a whole value.
pub open spec fn escape_text_spec(s: Seq<char>) -> Seq<char>
    decreases s.len(),
{
    if s.len() == 0 {
        Seq::<char>::empty()
    } else {
        escaped_char(s[0]) + escape_text_spec(s.skip(1))
    }
}

/// The inverse reading: a backslash takes the next character literally,
/// with `n` (or `N`) standing for a newline.
pub open spec fn unescape_text_spec(s: Seq<char>) -> Seq<char>
    decreases s.len(),
{
    if s.len() == 0 {
        Seq::<char>::empty()
    } else if s[0] == '\\' && s.len() >= 2 {
        let u = if s[1] == 'n' || s[1] == 'N' {
            '\n'
        } else {
            s[1]
        };
        seq![u] + unescape_text_spec(s.skip(2))
    } else {
        seq![s[0]] + unescape_text_spec(s.skip(1))
    }
}

/// Escaped text never contains a raw newline, so every property value fits
/// on one content line.
pub proof fn lemma_escape_no_newline(s: Seq<char>)
    ensures
        forall|i: int| 0 <= i < escape_text_spec(s).len() ==> escape_text_spec(s)[i] != '\n',
    decreases s.len(),
{
    if s.len() != 0 {
        lemma_escape_no_newline(s.skip(1));
        let head = escaped_char(s[0]);
        assert forall|i: int| 0 <= i < escape_text_spec(s).len() implies escape_text_spec(s)[i]
            != '\n' by {
            if i < head.len() {
                assert(escape_text_spec(s)[i] == head[i]);
            } else {
                assert(escape_text_spec(s)[i] == escape_text_spec(s.skip(1))[i - head.len()]);
            }
        }
    }
}

/// Escaping loses nothing: reading an escaped value back gives the value.
pub proof fn lemma_unescape_escape(s: Seq<char>)
    ensures
        unescape_text_spec(escape_text_spec(s)) == s,
    decreases s.len(),
{
    if s.len() == 0 {
        assert(unescape_text_spec(escape_text_spec(s)) =~= s);
    } else {
        lemma_unescape_escape(s.skip(1));
        let e = escape_text_spec(s);
        let c = s[0];
        let rest = escape_text_spec(s.skip(1));
        assert(e == escaped_char(c) + rest);
        if c == '\\' || c == ';' || c == ',' || c == '\n' {
            assert(e.len() >= 2);
            assert(e[0] == '\\');
            assert(e.skip(2) =~= rest);
            if c == '\n' {
                assert(e[1] == 'n');
                assert(unescape_text_spec(e) == seq!['\n'] + s.skip(1));
            } else {
                assert(e[1] == c);
                assert(e[1] != 'n' && e[1] != 'N');
                assert(unescape_text_spec(e) == seq![c] + s.skip(1));
            }
        } else {
            assert(e[0] == c);
            assert(e.skip(1) =~= rest);
            if e.len() >= 2 && e[0] == '\\' {
                assert(false);
            }
            assert(unescape_text_spec(e) == seq![c] + s.skip(1));
        }
        assert(seq![c] + s.skip(1) =~= s);
    }
}

/// Escape a value for use in a TEXT property.
pub fn escape_text(s: &str) -> (r: String)
    ensures
        r@ == escape_text_spec(s@),
{
    let n: usize = s.unicode_len();
    let mut acc = String::new();
    let mut i: usize = 0;
    proof {
        assert(s@.skip(0) == s@);
    }
    while i < n
        invariant
            n == s@.len(),
            i <= n,
            acc@ + escape_text_spec(s@.skip(i as int)) == escape_text_spec(s@),
        decreases n - i,
    {
        let c = s.get_char(i);
        proof {
            assert(s@.skip(i as int)[0] == s@[i as int]);
            assert(s@.skip(i as int).skip(1) =~= s@.skip(i + 1));
        }
        if c == '\\' {
            acc.append("\\\\");
            proof {
                reveal_strlit("\\\\");
                assert("\\\\"@ =~= escaped_char(c));
            }
        } else if c == ';' {
            acc.append("\\;");
            proof {
                reveal_strlit("\\;");
                assert("\\;"@ =~= escaped_char(c));
            }
        } else if c == ',' {
            acc.append("\\,");
            proof {
                reveal_strlit("\\,");
                assert("\\,"@ =~= escaped_char(c));
            }
        } else if c == '\n' {
            acc.append("\\n");
            proof {
                reveal_strlit("\\n");
                assert("\\n"@ =~= escaped_char(c));
            }
        } else {
            crate::strutil::push_char(&mut acc, c);
            proof {
                assert(seq![c] =~= escaped_char(c));
            }
        }
        proof {
            assert(acc@ + escape_text_spec(s@.skip(i + 1)) =~= escape_text_spec(s@));
        }
        i = i + 1;
    }
    proof {
        assert(s@.skip(n as int) =~= Seq::<char>::empty());
        assert(acc@ =~= escape_text_spec(s@));
    }
    acc
}

/// Read an escaped TEXT value back.
pub fn unescape_text(s: &str) -> (r: String)
    ensures
        r@ == unescape_text_spec(s@),
{
    let n: usize = s.unicode_len();
    let mut acc = String::new();
    let mut i: usize = 0;
    proof {
        assert(s@.skip(0) == s@);
    }
    while i < n
        invariant
            n == s@.len(),
            i <= n,
            acc@ + unescape_text_spec(s@.skip(i as int)) == unescape_text_spec(s@),
        decreases n - i,
    {
        let c = s.get_char(i);
        proof {
            assert(s@.skip(i as int)[0] == s@[i as int]);
        }
        if c == '\\' && i + 1 < n {
            let d = s.get_char(i + 1);
            proof {
                assert(s@.skip(i as int)[1] == s@[i + 1]);
                assert(s@.skip(i as int).skip(2) =~= s@.skip(i + 2));
            }
            let u = if d == 'n' || d == 'N' {
                '\n'
            } else {
                d
            };
            crate::strutil::push_char(&mut acc, u);
            proof {
                assert(acc@ + unescape_text_spec(s@.skip(i + 2)) =~= unescape_text_spec(s@));
            }
            i = i + 2;
        } else {
            proof {
                assert(s@.skip(i as int).skip(1) =~= s@.skip(i + 1));
            }
            crate::strutil::push_char(&mut acc, c);
            proof {
                assert(acc@ + unescape_text_spec(s@.skip(i + 1)) =~= unescape_text_spec(s@));
            }
            i = i + 1;
        }
    }
    proof {
        assert(s@.skip(n as int) =~= Seq::<char>::empty());
        assert(acc@ =~= unescape_text_spec(s@));
    }
    acc
}

} // verus!
