use crate::errors::FontError;
use crate::json::{decode_payload, decode_wrapper_spec, json_from_str, json_parse_of};
use crate::manifest::{FontManifest, FontManifestView};
use vstd::prelude::*;
use vstd::string::StrSliceExecFns;

verus! {

/// The anti-hijacking prefix the catalog prepends to the JSON payload:
/// `)]}'` followed by a newline.
pub open spec fn hijack_prefix() -> Seq<char> {
    seq![')', ']', '}', '\'', '\n']
}

pub open spec fn has_hijack_prefix(s: Seq<char>) -> bool {
    s.len() >= 5 && s.subrange(0, 5) == hijack_prefix()
}

/// The payload text with the anti-hijacking prefix removed, when present.
pub open spec fn strip_spec(s: Seq<char>) -> Seq<char> {
    if has_hijack_prefix(s) {
        s.skip(5)
    } else {
        s
    }
}

/// Parsing without prefix handling: JSON parse, then wrapper decode.
pub open spec fn parse_raw_spec(s: Seq<char>) -> Option<FontManifestView> {
    match json_parse_of(s) {
        Some(j) => decode_wrapper_spec(j),
        None => None,
    }
}

/// The result of the whole parse pipeline on a response text: strip the
/// prefix once, parse the remainder as JSON, decode the wrapper payload.
pub open spec fn parse_spec(s: Seq<char>) -> Option<FontManifestView> {
    parse_raw_spec(strip_spec(s))
}

/// Remove the anti-hijacking prefix if the text starts with it.
pub fn strip_hijack_prefix<'a>(text: &'a str) -> (r: &'a str)
    ensures
        r@ == strip_spec(text@),
{
    let n = text.unicode_len();
    if n < 5 {
        return text;
    }
    let starts = text.get_char(0) == ')' && text.get_char(1) == ']' && text.get_char(2) == '}'
        && text.get_char(3) == '\'' && text.get_char(4) == '\n';
    if starts {
        proof {
            assert(text@.subrange(0, 5) =~= hijack_prefix());
        }
        text.substring_char(5, n)
    } else {
        proof {
            if has_hijack_prefix(text@) {
                assert(text@[0] == text@.subrange(0, 5)[0]);
                assert(text@[1] == text@.subrange(0, 5)[1]);
                assert(text@[2] == text@.subrange(0, 5)[2]);
                assert(text@[3] == text@.subrange(0, 5)[3]);
                assert(text@[4] == text@.subrange(0, 5)[4]);
            }
        }
        text
    }
}

/// Parse a catalog response body: strip the anti-hijacking prefix if present,
/// parse the remainder as JSON, and decode the wrapper payload. Fails with
/// `InvalidManifest` exactly when the stripped text is not JSON, or the
/// document does not have the wrapper shape.
pub fn parse_manifest(text: &str) -> (r: Result<FontManifest, FontError>)
    ensures
        match r {
            Ok(m) => parse_spec(text@) == Some(m@),
            Err(e) => parse_spec(text@) is None && e == FontError::InvalidManifest,
        },
{
    let stripped = strip_hijack_prefix(text);
    match json_from_str(stripped) {
        None => Err(FontError::InvalidManifest),
        Some(v) => match decode_payload(&v) {
            None => Err(FontError::InvalidManifest),
            Some(m) => Ok(m),
        },
    }
}

/// Law: on a payload that begins with the anti-hijacking prefix, the parse
/// pipeline gives exactly the result of parsing the same payload with the
/// prefix removed.
pub proof fn lemma_prefix_strip_equivalence(s: Seq<char>)
    requires
        has_hijack_prefix(s),
    ensures
        parse_spec(s) == parse_raw_spec(s.skip(5)),
{
}

} // verus!
