//! The viewer wire protocol.
//!
//! Payloads travel to the viewer as text frames: in JSON mode as tagged
//! envelopes (`{"type":...,"data":...}`), in htmx mode as HTML fragments
//! swapped into the viewer's `#content` element.  The frame text is built
//! here, character by character, against an exact specification of both
//! framings.

use vstd::prelude::*;

use vstd::string::StrSliceExecFns;

use crate::ids::{UuidVal, spec_hex_digit, spec_uuid_chars};
use crate::strutil;

verus! {

/// A frame from the server to the viewer.
pub enum ResponsePayload {
    Display(DisplayPayload),
    Welcome { name: String, htmx_hash: Option<String> },
    Pending(bool),
}

/// The viewer's first frame: which display it is, and whether it wants
/// htmx fragments instead of JSON envelopes.
pub enum RequestPayload {
    Hello { uuid: UuidVal, htmx: bool },
}

/// One media item on the wire.
pub enum DisplayPayload {
    Website(WebsitePayload),
    Text(WebsitePayload),
    Image(WebsitePayload),
}

/// The single content field every media item carries.
pub struct WebsitePayload {
    pub content: String,
}

/// How one character is written inside a JSON string: the named short
/// escapes, `\u00XX` for other control characters, the character itself
/// otherwise.
pub open spec fn json_escaped_char(c: char) -> Seq<char> {
    if c == '"' {
        seq!['\\', '"']
    } else if c == '\\' {
        seq!['\\', '\\']
    } else if c == '\u{08}' {
        seq!['\\', 'b']
    } else if c == '\t' {
        seq!['\\', 't']
    } else if c == '\n' {
        seq!['\\', 'n']
    } else if c == '\u{0c}' {
        seq!['\\', 'f']
    } else if c == '\r' {
        seq!['\\', 'r']
    } else if (c as u32) < 0x20 {
        seq!['\\', 'u', '0', '0', spec_hex_digit((c as u32 / 16) as int), spec_hex_digit(
            (c as u32 % 16) as int,
        )]
    } else {
        seq![c]
    }
}

/// A string's characters as written inside a JSON string literal.
pub open spec fn json_escaped(s: Seq<char>) -> Seq<char>
    decreases s.len(),
{
    if s.len() == 0 {
        Seq::<char>::empty()
    } else {
        json_escaped(s.drop_last()) + json_escaped_char(s.last())
    }
}

/// A JSON string literal: the escaped characters in double quotes.
pub open spec fn json_quoted(s: Seq<char>) -> Seq<char> {
    seq!['"'] + json_escaped(s) + seq!['"']
}

/// How one character is written inside HTML text or a double-quoted
/// attribute value.
pub open spec fn html_escaped_char(c: char) -> Seq<char> {
    if c == '&' {
        seq!['&', 'a', 'm', 'p', ';']
    } else if c == '<' {
        seq!['&', 'l', 't', ';']
    } else if c == '>' {
        seq!['&', 'g', 't', ';']
    } else if c == '"' {
        seq!['&', 'q', 'u', 'o', 't', ';']
    } else {
        seq![c]
    }
}

/// A string's characters as written inside HTML.
pub open spec fn html_escaped(s: Seq<char>) -> Seq<char>
    decreases s.len(),
{
    if s.len() == 0 {
        Seq::<char>::empty()
    } else {
        html_escaped(s.drop_last()) + html_escaped_char(s.last())
    }
}

/// The JSON envelope of a media item: tagged by its kind, content under
/// `data`.
pub open spec fn spec_json_display(p: DisplayPayload) -> Seq<char> {
    match p {
        DisplayPayload::Website(w) => "{\"type\":\"Website\",\"data\":{\"content\":"@
            + json_quoted(w.content@) + "}}"@,
        DisplayPayload::Text(w) => "{\"type\":\"Text\",\"data\":{\"content\":"@ + json_quoted(
            w.content@,
        ) + "}}"@,
        DisplayPayload::Image(w) => "{\"type\":\"Image\",\"data\":{\"content\":"@ + json_quoted(
            w.content@,
        ) + "}}"@,
    }
}

/// The JSON envelope of a server frame.
pub open spec fn spec_json_response(p: ResponsePayload) -> Seq<char> {
    match p {
        ResponsePayload::Display(d) => "{\"type\":\"Display\",\"data\":"@ + spec_json_display(d)
            + "}"@,
        ResponsePayload::Welcome { name, htmx_hash } => match htmx_hash {
            Some(h) => "{\"type\":\"Welcome\",\"data\":{\"name\":"@ + json_quoted(name@)
                + ",\"htmx_hash\":"@ + json_quoted(h@) + "}}"@,
            None => "{\"type\":\"Welcome\",\"data\":{\"name\":"@ + json_quoted(name@) + "}}"@,
        },
        ResponsePayload::Pending(b) => if b {
            "{\"type\":\"Pending\",\"data\":true}"@
        } else {
            "{\"type\":\"Pending\",\"data\":false}"@
        },
    }
}

/// The htmx fragment of a media item: the swap wrapper around an iframe,
/// a text div, or an image.
pub open spec fn spec_htmx_display(p: DisplayPayload) -> Seq<char> {
    "<div hx-swap-oob=\"innerHTML:#content\">"@ + (match p {
        DisplayPayload::Website(w) => {
            "<iframe frameborder=\"0\" allow=\"autoplay; encrypted-media\" src=\""@ + html_escaped(
                w.content@,
            ) + "\" allowfullscreen>"@
        },
        DisplayPayload::Text(w) => "<div id=\"text\">"@ + html_escaped(w.content@) + "</div>"@,
        DisplayPayload::Image(w) => "<img src=\""@ + html_escaped(w.content@) + "\">"@,
    }) + "</div>"@
}

/// Append a string's JSON-escaped characters.
fn push_json_escaped(out: &mut String, s: &str)
    ensures
        final(out)@ == old(out)@ + json_escaped(s@),
{
    let n = s.unicode_len();
    let mut i: usize = 0;
    while i < n
        invariant
            n == s@.len(),
            i <= n,
            out@ == old(out)@ + json_escaped(s@.take(i as int)),
        decreases n - i,
    {
        let c = s.get_char(i);
        if c == '"' {
            strutil::push_str(out, "\\\"");
        } else if c == '\\' {
            strutil::push_str(out, "\\\\");
        } else if c == '\u{08}' {
            strutil::push_str(out, "\\b");
        } else if c == '\t' {
            strutil::push_str(out, "\\t");
        } else if c == '\n' {
            strutil::push_str(out, "\\n");
        } else if c == '\u{0c}' {
            strutil::push_str(out, "\\f");
        } else if c == '\r' {
            strutil::push_str(out, "\\r");
        } else if (c as u32) < 0x20 {
            strutil::push_str(out, "\\u00");
            let v = c as u32;
            let hi = crate::ids::hex_digit_u32(v / 16);
            let lo = crate::ids::hex_digit_u32(v % 16);
            strutil::push_char(out, hi);
            strutil::push_char(out, lo);
        } else {
            strutil::push_char(out, c);
        }
        proof {
            assert(s@.take(i + 1).drop_last() =~= s@.take(i as int));
            assert(s@.take(i + 1).last() == c);
            assert(out@ =~= old(out)@ + json_escaped(s@.take(i + 1))) by {
                reveal_strlit("\\\"");
                reveal_strlit("\\\\");
                reveal_strlit("\\b");
                reveal_strlit("\\t");
                reveal_strlit("\\n");
                reveal_strlit("\\f");
                reveal_strlit("\\r");
                reveal_strlit("\\u00");
            }
        }
        i = i + 1;
    }
    proof {
        assert(s@.take(n as int) =~= s@);
    }
}

/// Append a JSON string literal.
fn push_json_quoted(out: &mut String, s: &str)
    ensures
        final(out)@ == old(out)@ + json_quoted(s@),
{
    strutil::push_char(out, '"');
    push_json_escaped(out, s);
    strutil::push_char(out, '"');
    proof {
        assert(out@ =~= old(out)@ + json_quoted(s@));
    }
}

/// Append a string's HTML-escaped characters.
fn push_html_escaped(out: &mut String, s: &str)
    ensures
        final(out)@ == old(out)@ + html_escaped(s@),
{
    let n = s.unicode_len();
    let mut i: usize = 0;
    while i < n
        invariant
            n == s@.len(),
            i <= n,
            out@ == old(out)@ + html_escaped(s@.take(i as int)),
        decreases n - i,
    {
        let c = s.get_char(i);
        if c == '&' {
            strutil::push_str(out, "&amp;");
        } else if c == '<' {
            strutil::push_str(out, "&lt;");
        } else if c == '>' {
            strutil::push_str(out, "&gt;");
        } else if c == '"' {
            strutil::push_str(out, "&quot;");
        } else {
            strutil::push_char(out, c);
        }
        proof {
            assert(s@.take(i + 1).drop_last() =~= s@.take(i as int));
            assert(s@.take(i + 1).last() == c);
            assert(out@ =~= old(out)@ + html_escaped(s@.take(i + 1))) by {
                reveal_strlit("&amp;");
                reveal_strlit("&lt;");
                reveal_strlit("&gt;");
                reveal_strlit("&quot;");
            }
        }
        i = i + 1;
    }
    proof {
        assert(s@.take(n as int) =~= s@);
    }
}

impl DisplayPayload {
    /// The JSON envelope of the item, as sent under a `Display` frame.
    pub fn to_json(&self) -> (r: String)
        ensures
            r@ == spec_json_display(*self),
    {
        let mut out = String::new();
        match self {
            DisplayPayload::Website(w) => {
                strutil::push_str(&mut out, "{\"type\":\"Website\",\"data\":{\"content\":");
                push_json_quoted(&mut out, w.content.as_str());
                strutil::push_str(&mut out, "}}");
            },
            DisplayPayload::Text(w) => {
                strutil::push_str(&mut out, "{\"type\":\"Text\",\"data\":{\"content\":");
                push_json_quoted(&mut out, w.content.as_str());
                strutil::push_str(&mut out, "}}");
            },
            DisplayPayload::Image(w) => {
                strutil::push_str(&mut out, "{\"type\":\"Image\",\"data\":{\"content\":");
                push_json_quoted(&mut out, w.content.as_str());
                strutil::push_str(&mut out, "}}");
            },
        }
        proof {
            assert(out@ =~= spec_json_display(*self));
        }
        out
    }

    /// The htmx fragment of the item: the same semantic payload rendered
    /// as HTML for an out-of-band swap into `#content`.
    pub fn into_htmx(&self) -> (r: String)
        ensures
            r@ == spec_htmx_display(*self),
    {
        let mut out = String::new();
        strutil::push_str(&mut out, "<div hx-swap-oob=\"innerHTML:#content\">");
        match self {
            DisplayPayload::Website(w) => {
                strutil::push_str(
                    &mut out,
                    "<iframe frameborder=\"0\" allow=\"autoplay; encrypted-media\" src=\"",
                );
                push_html_escaped(&mut out, w.content.as_str());
                strutil::push_str(&mut out, "\" allowfullscreen>");
            },
            DisplayPayload::Text(w) => {
                strutil::push_str(&mut out, "<div id=\"text\">");
                push_html_escaped(&mut out, w.content.as_str());
                strutil::push_str(&mut out, "</div>");
            },
            DisplayPayload::Image(w) => {
                strutil::push_str(&mut out, "<img src=\"");
                push_html_escaped(&mut out, w.content.as_str());
                strutil::push_str(&mut out, "\">");
            },
        }
        strutil::push_str(&mut out, "</div>");
        proof {
            assert(out@ =~= spec_htmx_display(*self));
        }
        out
    }
}

impl ResponsePayload {
    /// The JSON text frame of the payload.
    pub fn to_json(&self) -> (r: String)
        ensures
            r@ == spec_json_response(*self),
    {
        let mut out = String::new();
        match self {
            ResponsePayload::Display(d) => {
                strutil::push_str(&mut out, "{\"type\":\"Display\",\"data\":");
                let inner = d.to_json();
                strutil::push_str(&mut out, inner.as_str());
                strutil::push_str(&mut out, "}");
            },
            ResponsePayload::Welcome { name, htmx_hash } => {
                strutil::push_str(&mut out, "{\"type\":\"Welcome\",\"data\":{\"name\":");
                push_json_quoted(&mut out, name.as_str());
                match htmx_hash {
                    Some(h) => {
                        strutil::push_str(&mut out, ",\"htmx_hash\":");
                        push_json_quoted(&mut out, h.as_str());
                        strutil::push_str(&mut out, "}}");
                    },
                    None => {
                        strutil::push_str(&mut out, "}}");
                    },
                }
            },
            ResponsePayload::Pending(b) => {
                if *b {
                    strutil::push_str(&mut out, "{\"type\":\"Pending\",\"data\":true}");
                } else {
                    strutil::push_str(&mut out, "{\"type\":\"Pending\",\"data\":false}");
                }
            },
        }
        proof {
            assert(out@ =~= spec_json_response(*self));
        }
        out
    }
}

/// The viewer bootstrap page for one display: the htmx client shell
/// with the display's UUID embedded for its hello frame.
pub fn casta_index(uuid: &UuidVal) -> (r: String)
    ensures
        r@ == "<!DOCTYPE html><html lang=\"en\"><head><meta charset=\"UTF-8\"><meta name=\"viewport\" content=\"width=device-width, initial-scale=1.0\"><link rel=\"stylesheet\" href=\"/assets/style.min.css\"><script src=\"https://unpkg.com/htmx.org@1.9.2\"></script><script src=\"https://unpkg.com/htmx.org/dist/ext/ws.js\"></script><script>let uuid=\""@
            + spec_uuid_chars(uuid.bits)
            + "\"</script><script src=\"/assets/script.min.js\"></script></head><body><img id=\"disconnected\" src=\"/assets/disconnected.png\"><div id=\"content\" hx-ext=\"ws\" ws-connect=\"/ws\"></div></body></html>"@,
{
    let mut out =
        "<!DOCTYPE html><html lang=\"en\"><head><meta charset=\"UTF-8\"><meta name=\"viewport\" content=\"width=device-width, initial-scale=1.0\"><link rel=\"stylesheet\" href=\"/assets/style.min.css\"><script src=\"https://unpkg.com/htmx.org@1.9.2\"></script><script src=\"https://unpkg.com/htmx.org/dist/ext/ws.js\"></script><script>let uuid=\"".to_owned();
    let u = uuid.to_text();
    strutil::push_str(&mut out, u.as_str());
    strutil::push_str(
        &mut out,
        "\"</script><script src=\"/assets/script.min.js\"></script></head><body><img id=\"disconnected\" src=\"/assets/disconnected.png\"><div id=\"content\" hx-ext=\"ws\" ws-connect=\"/ws\"></div></body></html>",
    );
    out
}

/// The text a display shows while it waits to be defined on the server,
/// naming the UUID the viewer presented.
pub fn pending_message(uuid: &UuidVal) -> (r: String)
    ensures
        r@ == "Pending connection to Sasta with uuid "@ + spec_uuid_chars(uuid.bits),
{
    let mut out = "Pending connection to Sasta with uuid ".to_owned();
    let u = uuid.to_text();
    strutil::push_str(&mut out, u.as_str());
    out
}

} // verus!
