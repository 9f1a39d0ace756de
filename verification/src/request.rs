//! The fixed upstream request: the GraphQL query document, wrapped into a
//! JSON request body by a verified JSON string encoder, and the endpoint
//! constants the surrounding server posts it to.

use vstd::prelude::*;

verus! {

/// How one character is written inside a JSON string literal. The encoder
/// covers the quote, the backslash, and the control characters the query
/// document may contain (newline, tab, carriage return); it is not a
/// general JSON encoder, and other control characters pass through
/// unescaped.
pub open spec fn json_escaped_char(c: char) -> Seq<char> {
    if c == '"' {
        seq!['\\', '"']
    } else if c == '\\' {
        seq!['\\', '\\']
    } else if c == '\n' {
        seq!['\\', 'n']
    } else if c == '\t' {
        seq!['\\', 't']
    } else if c == '\r' {
        seq!['\\', 'r']
    } else {
        seq![c]
    }
}

/// The JSON string-literal encoding of a text, under the character
/// coverage of [`json_escaped_char`].
pub open spec fn json_escape_spec(s: Seq<char>) -> Seq<char>
    decreases s.len(),
{
    if s.len() == 0 {
        Seq::<char>::empty()
    } else {
        json_escaped_char(s[0]) + json_escape_spec(s.skip(1))
    }
}

/// Encode a text for use inside a JSON string literal; see
/// [`json_escaped_char`] for the covered characters.
pub fn json_escape(s: &str) -> (r: String)
    ensures
        r@ == json_escape_spec(s@),
{
    let n: usize = s.unicode_len();
    let mut acc = String::new();
    let mut i: usize = 0;
    proof {
        assert(s@.skip(0) == s@);
    }
    while i < n
        invariant
            n == s@.len(),
            i <= n,
            acc@ + json_escape_spec(s@.skip(i as int)) == json_escape_spec(s@),
        decreases n - i,
    {
        let c = s.get_char(i);
        proof {
            assert(s@.skip(i as int)[0] == s@[i as int]);
            assert(s@.skip(i as int).skip(1) =~= s@.skip(i + 1));
        }
        if c == '"' {
            acc.append("\\\"");
            proof {
                reveal_strlit("\\\"");
                assert("\\\""@ =~= json_escaped_char(c));
            }
        } else if c == '\\' {
            acc.append("\\\\");
            proof {
                reveal_strlit("\\\\");
                assert("\\\\"@ =~= json_escaped_char(c));
            }
        } else if c == '\n' {
            acc.append("\\n");
            proof {
                reveal_strlit("\\n");
                assert("\\n"@ =~= json_escaped_char(c));
            }
        } else if c == '\t' {
            acc.append("\\t");
            proof {
                reveal_strlit("\\t");
                assert("\\t"@ =~= json_escaped_char(c));
            }
        } else if c == '\r' {
            acc.append("\\r");
            proof {
                reveal_strlit("\\r");
                assert("\\r"@ =~= json_escaped_char(c));
            }
        } else {
            crate::strutil::push_char(&mut acc, c);
            proof {
                assert(seq![c] =~= json_escaped_char(c));
            }
        }
        proof {
            assert(acc@ + json_escape_spec(s@.skip(i + 1)) =~= json_escape_spec(s@));
        }
        i = i + 1;
    }
    proof {
        assert(s@.skip(n as int) =~= Seq::<char>::empty());
        assert(acc@ =~= json_escape_spec(s@));
    }
    acc
}

/// The GraphQL query document, as plain text with real newlines and tabs.
pub open spec fn query_document_spec() -> Seq<char> {
    "query {\n\tgetPublishedEvents {\n\t\tid\n\t\tname\n\t\tslug\n\t\ttype\n\t\tstartTime\n\t\tendTime\n\t\twebsite\n\t\tcity {\n\t\t\tname\n\t\t\tcountry {\n\t\t\t\tname\n\t\t\t}\n\t\t}\n\t}\n}"@
}

/// The JSON request body that carries the query document.
pub open spec fn query_body_spec() -> Seq<char> {
    "{\"query\":\""@ + json_escape_spec(query_document_spec()) + "\"}"@
}

/// Build the JSON request body for the fixed query.
pub fn upstream_query() -> (r: String)
    ensures
        r@ == query_body_spec(),
{
    let mut acc = String::from_str("{\"query\":\"");
    let doc = json_escape(
        "query {\n\tgetPublishedEvents {\n\t\tid\n\t\tname\n\t\tslug\n\t\ttype\n\t\tstartTime\n\t\tendTime\n\t\twebsite\n\t\tcity {\n\t\t\tname\n\t\t\tcountry {\n\t\t\t\tname\n\t\t\t}\n\t\t}\n\t}\n}",
    );
    acc.append(doc.as_str());
    acc.append("\"}");
    proof {
        assert(acc@ =~= query_body_spec());
    }
    acc
}

/// The upstream GraphQL endpoint.
pub fn upstream_endpoint() -> (r: String)
    ensures
        r@ == "https://api.ethglobal.com/graphql"@,
{
    String::from_str("https://api.ethglobal.com/graphql")
}

/// The `Origin` header value the upstream requires.
pub fn upstream_origin() -> (r: String)
    ensures
        r@ == "https://ethglobal.com"@,
{
    String::from_str("https://ethglobal.com")
}

/// The path the feed is served under.
pub fn feed_path() -> (r: String)
    ensures
        r@ == "/ethglobal.ics"@,
{
    String::from_str("/ethglobal.ics")
}

} // verus!
