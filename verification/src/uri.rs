//! URIs, as far as the gateway reads them.

use axum::http::Uri;
use vstd::prelude::*;

verus! {

/// The parts of a URI that the gateway reads.
#[derive(Debug)]
pub struct UriParts {
    /// The scheme, where the URI is absolute.
    pub scheme: Option<String>,
    /// The authority, where the URI has one.
    pub authority: Option<String>,
    /// Path and query, where the URI has them.
    pub path_and_query: Option<String>,
}

/// The text of an optional string.
pub open spec fn optional_text(text: Option<String>) -> Option<Seq<char>> {
    match text {
        Some(text) => Some(text@),
        None => None,
    }
}

/// Scheme, authority, and path and query of a URI, each where it has one.
pub type Components = (Option<Seq<char>>, Option<Seq<char>>, Option<Seq<char>>);

impl UriParts {
    /// The parts as texts.
    pub open spec fn texts(self) -> Components {
        (optional_text(self.scheme), optional_text(self.authority), optional_text(self.path_and_query))
    }
}

/// The texts of parts that may be missing.
pub open spec fn optional_parts(parts: Option<UriParts>) -> Option<Components> {
    match parts {
        Some(parts) => Some(parts.texts()),
        None => None,
    }
}

/// `text` holds none of the characters that end an authority.
pub open spec fn is_authority_text(text: Seq<char>) -> bool {
    forall|i: int| 0 <= i < text.len() ==> #[trigger] text[i] != '/' && text[i] != '?' && text[i] != '#'
}

/// An authority in front of `text` ends there: `text` is empty, or begins with a
/// character that ends an authority.
pub open spec fn ends_authority(text: Seq<char>) -> bool {
    text.len() > 0 ==> text[0] == '/' || text[0] == '?' || text[0] == '#'
}

/// `text` begins with a path or a query and names no fragment.
pub open spec fn is_rooted_target(text: Seq<char>) -> bool {
    &&& text.len() > 0
    &&& text[0] == '/' || text[0] == '?'
    &&& forall|i: int| 0 <= i < text.len() ==> #[trigger] text[i] != '#'
}

/// The scheme, the authority, and the path and query of the URI that `text`
/// spells to the `http` crate, `None` where it spells none.
pub uninterp spec fn uri_components(text: Seq<char>) -> Option<
    (Option<Seq<char>>, Option<Seq<char>>, Option<Seq<char>>),
>;

/// `Uri::from_str`, and `Uri::scheme_str`, `Uri::authority` and
/// `Uri::path_and_query` of what it gives: the parts of the URI that `text`
/// spells, `None` where it spells none. They depend on `text` alone.
///
/// An authority holds no character that would end it. Where `text` spells a URI
/// and is `http://`, then text without such a character, then what ends an
/// authority, the scheme is `http` and the authority is the text between. Where
/// the rest is a rooted target, it is the path and query.
#[verifier::external_body]
pub(crate) fn parse_uri(text: &str) -> (parts: Option<UriParts>)
    ensures
        optional_parts(parts) == uri_components(text@),
        parts matches Some(parts) ==> (parts.authority matches Some(authority) ==> is_authority_text(authority@)),
        forall|authority: Seq<char>, rest: Seq<char>|
            text@ == #[trigger] ("http://"@ + authority + rest) && is_authority_text(authority) && ends_authority(rest)
                ==> (optional_parts(parts) matches Some(components) ==> {
                &&& components.0 == Some("http"@)
                &&& components.1 == Some(authority)
                &&& is_rooted_target(rest) ==> components.2 == Some(rest)
            }),
{
    let uri = text.parse::<Uri>().ok()?;
    Some(UriParts {
        scheme: uri.scheme_str().map(|scheme| scheme.to_owned()),
        authority: uri.authority().map(|authority| authority.to_string()),
        path_and_query: uri.path_and_query().map(|target| target.as_str().to_owned()),
    })
}

/// Where the first character of `text` that ends an authority stands, or the
/// length of `text` where there is none.
pub(crate) proof fn lemma_authority_end(text: Seq<char>) -> (end: int)
    ensures
        0 <= end <= text.len(),
        is_authority_text(text.take(end)),
        ends_authority(text.skip(end)),
    decreases text.len(),
{
    if text.len() == 0 {
        0
    } else {
        let end = lemma_authority_end(text.drop_last());
        if end < text.len() - 1 {
            assert(text.take(end) =~= text.drop_last().take(end));
            assert(text.skip(end)[0] == text.drop_last().skip(end)[0]);
            end
        } else if ends_authority(seq![text.last()]) {
            assert(text.take(end) =~= text.drop_last().take(end));
            assert(text.skip(end)[0] == seq![text.last()][0]);
            end
        } else {
            assert(text.drop_last().take(end) =~= text.drop_last());
            assert forall|i: int| 0 <= i < text.len() implies #[trigger] text[i] != '/' && text[i] != '?' && text[i]
                != '#' by {
                if i < text.len() - 1 {
                    assert(text.drop_last()[i] == text[i]);
                } else {
                    assert(seq![text.last()][0] == text[i]);
                }
            }
            assert(text.take(text.len() as int) =~= text);
            text.len() as int
        }
    }
}

/// The parts of a URI are read as they stand, each as its own text.
pub proof fn parts_are_read_as_they_stand(parts: UriParts)
    ensures
        optional_parts(None) is None,
        optional_parts(Some(parts)) matches Some((scheme, authority, path_and_query)) && {
            &&& match parts.scheme {
                Some(text) => scheme == Some(text@),
                None => scheme is None,
            }
            &&& match parts.authority {
                Some(text) => authority == Some(text@),
                None => authority is None,
            }
            &&& match parts.path_and_query {
                Some(text) => path_and_query == Some(text@),
                None => path_and_query is None,
            }
        },
{
}

} // verus!
