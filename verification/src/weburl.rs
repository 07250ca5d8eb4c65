//! Absolute URLs, as far as the rewriting rules read them.
//!
//! Parsing and changing a URL is the work of the `url` crate.  A [`Url`] of
//! this module holds what came out of it as plain text: the serialization,
//! the scheme and the path.  The contracts name what the `url` crate
//! computes; they do not say how.

use vstd::prelude::*;
use vstd::utf8::encode_utf8;
use crate::text::{ends_with, same_text, text_ends_with};

verus! {

/// The highest position in a serialization that the `url` crate can count.
/// It holds positions in 32 bits, and a change of a URL that takes the
/// serialization beyond makes it panic.
pub const MAX_POSITION: u64 = 0xFFFF_FFFF;

/// The parts of a URL that the rules read.
pub struct UrlParts {
    /// The serialization of the whole URL.
    pub href: Seq<char>,
    /// The scheme, in lower case, without the colon.
    pub scheme: Seq<char>,
    /// The path, percent-encoded, without query and fragment.
    pub path: Seq<char>,
}

/// The URL that the `url` crate reads from `input`, if it reads one.
pub uninterp spec fn parsed_url(input: Seq<char>) -> Option<UrlParts>;

/// The serialization that the `url` crate leaves after it has set the path
/// of the URL serialized as `href` to `path`.
pub uninterp spec fn url_with_path(href: Seq<char>, path: Seq<char>) -> Seq<char>;

/// The serialization that the `url` crate leaves after it has appended the
/// pair of `name` and `value` to the query of the URL serialized as `href`.
pub uninterp spec fn url_with_query_pair(
    href: Seq<char>,
    name: Seq<char>,
    value: Seq<char>,
) -> Seq<char>;

/// The pairs of name and value, decoded, that the `url` crate reads from the
/// query of the URL serialized as `href`.
pub uninterp spec fn url_query_pairs(href: Seq<char>) -> Seq<(Seq<char>, Seq<char>)>;

/// `parts` is what parsing its own serialization gives.
pub open spec fn canonical(parts: UrlParts) -> bool {
    parsed_url(parts.href) == Some(parts)
}

/// The length of `text` in bytes of UTF-8.
pub open spec fn byte_len(text: Seq<char>) -> nat {
    encode_utf8(text).len()
}

/// The URL serialized as `href` can have its path set to `path`: however
/// the path is encoded, each byte as three at most and three more before it,
/// the serialization stays within [`MAX_POSITION`].
pub open spec fn path_fits(href: Seq<char>, path: Seq<char>) -> bool {
    byte_len(href) + 3 * byte_len(path) + 3 <= MAX_POSITION
}

/// The URL serialized as `href` can have the pair of `name` and `value`
/// appended to its query: however the two are encoded, each byte as three at
/// most, with three separators, the serialization stays within
/// [`MAX_POSITION`].
pub open spec fn pair_fits(href: Seq<char>, name: Seq<char>, value: Seq<char>) -> bool {
    byte_len(href) + 3 * byte_len(name) + 3 * byte_len(value) + 3 <= MAX_POSITION
}


/// `path` ends in the name of an audio format, `mp3` or `aac`.  No dot is
/// asked for: a path that ends in `xmp3` passes.
pub open spec fn audio_path(path: Seq<char>) -> bool {
    ends_with(path, "mp3"@) || ends_with(path, "aac"@)
}

/// `scheme` is `http` or `https`.
pub open spec fn web_scheme(scheme: Seq<char>) -> bool {
    scheme == "http"@ || scheme == "https"@
}

/// A URL that may be forwarded: it is fetched over HTTP, and its path ends
/// in the name of an audio format.
pub open spec fn forwardable(url: UrlParts) -> bool {
    web_scheme(url.scheme) && audio_path(url.path)
}

/// The views of a sequence of URLs.
pub open spec fn url_views(urls: Seq<Url>) -> Seq<UrlParts> {
    urls.map_values(|u: Url| u@)
}

/// The views of a sequence of pairs of strings.
pub open spec fn pair_views(pairs: Seq<(String, String)>) -> Seq<(Seq<char>, Seq<char>)> {
    pairs.map_values(|p: (String, String)| (p.0@, p.1@))
}

/// A parsed absolute URL.
#[derive(Debug, PartialEq, Eq)]
pub struct Url {
    href: String,
    scheme: String,
    path: String,
}

impl View for Url {
    type V = UrlParts;

    closed spec fn view(&self) -> UrlParts {
        UrlParts { href: self.href@, scheme: self.scheme@, path: self.path@ }
    }
}

/// Parses an absolute URL.
///
/// Trusted: `Url::parse` of the `url` crate, with `Url::as_str`,
/// `Url::scheme` and `Url::path` to read the result.  The contract names
/// the result, and claims that parsing the serialization of a URL gives that
/// URL again, which the crate holds as an invariant of its type.
#[verifier::external_body]
fn parse_absolute(input: &str) -> (out: Option<Url>)
    ensures
        match out {
            Some(url) => parsed_url(input@) == Some(url@) && canonical(url@),
            None => parsed_url(input@) is None,
        },
{
    match url::Url::parse(input) {
        Ok(u) => Some(
            Url {
                href: u.as_str().to_owned(),
                scheme: u.scheme().to_owned(),
                path: u.path().to_owned(),
            },
        ),
        Err(_) => None,
    }
}

/// Sets the path of a URL and gives the serialization that results.
///
/// Trusted: `Url::set_path` of the `url` crate, on the URL parsed from the
/// serialization of `url`, and `Url::as_str` to read the result.  The
/// contract names the result and claims nothing more of it: the
/// serialization need not be one that parses to the same URL.  The bound
/// keeps the crate's 32-bit positions from overflowing, on which the setter
/// panics.
#[verifier::external_body]
fn set_path(url: &Url, path: &str) -> (out: String)
    requires
        canonical(url@),
        path_fits(url@.href, path@),
    ensures
        out@ == url_with_path(url@.href, path@),
{
    let mut u = url::Url::parse(&url.href).unwrap();
    u.set_path(path);
    u.as_str().to_owned()
}

/// Appends a pair of name and value to the query of a URL and gives the
/// serialization that results.
///
/// Trusted: `Url::query_pairs_mut` of the `url` crate and `append_pair` of
/// the serializer it returns, on the URL parsed from the serialization of
/// `url`, and `Url::as_str` to read the result.  The contract names the
/// result, and claims that a URL read from it has the pairs of `url` and
/// behind them the new pair: the serializer writes the pair behind the
/// query that is there, and what it encodes is decoded to the same text.
/// The bound keeps the crate's 32-bit positions from overflowing.
#[verifier::external_body]
fn append_query_pair(url: &Url, name: &str, value: &str) -> (out: String)
    requires
        canonical(url@),
        pair_fits(url@.href, name@, value@),
    ensures
        out@ == url_with_query_pair(url@.href, name@, value@),
        parsed_url(out@) matches Some(linked) ==> url_query_pairs(linked.href) == url_query_pairs(
            url@.href,
        ).push((name@, value@)),
{
    let mut u = url::Url::parse(&url.href).unwrap();
    u.query_pairs_mut().append_pair(name, value);
    u.as_str().to_owned()
}

/// Reads the pairs of the query of a URL.
///
/// Trusted: `Url::query_pairs` of the `url` crate, on the URL parsed from
/// the serialization of `url`; each pair is copied into owned strings.
#[verifier::external_body]
fn read_query_pairs(url: &Url) -> (out: Vec<(String, String)>)
    requires
        canonical(url@),
    ensures
        pair_views(out@) == url_query_pairs(url@.href),
{
    let u = url::Url::parse(&url.href).unwrap();
    u.query_pairs().map(|(name, value)| (name.into_owned(), value.into_owned())).collect()
}

/// Whether `path` ends in the name of an audio format, `mp3` or `aac`.
pub fn is_audio_path(path: &str) -> (yes: bool)
    ensures
        yes == audio_path(path@),
{
    text_ends_with(path, "mp3") || text_ends_with(path, "aac")
}

impl Url {
    /// A URL is what parsing its serialization gives.
    #[verifier::type_invariant]
    spec fn well_formed(self) -> bool {
        canonical(self@)
    }

    /// The URL that `input` denotes, or `None` where it denotes none: where
    /// it is relative, or not a URL at all.
    pub fn parse(input: &str) -> (out: Option<Url>)
        ensures
            match out {
                Some(url) => parsed_url(input@) == Some(url@) && canonical(url@),
                None => parsed_url(input@) is None,
            },
    {
        parse_absolute(input)
    }

    /// The serialization of the URL.
    pub fn as_str(&self) -> (href: &str)
        ensures
            href@ == self@.href,
            canonical(self@),
    {
        proof {
            use_type_invariant(self);
        }
        self.href.as_str()
    }

    /// The scheme of the URL, in lower case, without the colon.
    pub fn scheme(&self) -> (scheme: &str)
        ensures
            scheme@ == self@.scheme,
    {
        self.scheme.as_str()
    }

    /// The path of the URL.
    pub fn path(&self) -> (path: &str)
        ensures
            path@ == self@.path,
    {
        self.path.as_str()
    }

    /// Whether the URL may be forwarded.
    pub fn is_forwardable(&self) -> (yes: bool)
        ensures
            yes == forwardable(self@),
    {
        (same_text(self.scheme.as_str(), "http") || same_text(self.scheme.as_str(), "https"))
            && is_audio_path(self.path.as_str())
    }

    /// A copy of the URL.
    pub fn duplicate(&self) -> (out: Url)
        ensures
            out@ == self@,
    {
        proof {
            use_type_invariant(self);
        }
        Url { href: self.href.clone(), scheme: self.scheme.clone(), path: self.path.clone() }
    }

    /// Whether the path of this URL can be set to `path`.
    pub fn path_fits_in(&self, path: &str) -> (ok: bool)
        ensures
            ok == path_fits(self@.href, path@),
    {
        let href_len: u64 = self.href.as_str().as_bytes().len() as u64;
        let path_len: u64 = path.as_bytes().len() as u64;
        href_len <= MAX_POSITION && path_len <= MAX_POSITION / 3 && href_len + 3 * path_len + 3
            <= MAX_POSITION
    }

    /// Whether the pair of `name` and `value` can be appended to the query
    /// of this URL.
    pub fn pair_fits_in(&self, name: &str, value: &str) -> (ok: bool)
        ensures
            ok == pair_fits(self@.href, name@, value@),
    {
        let href_len: u64 = self.href.as_str().as_bytes().len() as u64;
        let name_len: u64 = name.as_bytes().len() as u64;
        let value_len: u64 = value.as_bytes().len() as u64;
        href_len <= MAX_POSITION && name_len <= MAX_POSITION / 3 && value_len <= MAX_POSITION / 3
            && href_len + 3 * name_len + 3 * value_len + 3 <= MAX_POSITION
    }

    /// The URL with its path set to `path`: the URL that is read again from
    /// the serialization that the change leaves.  There is none where that
    /// serialization is no URL.
    pub fn with_path(&self, path: &str) -> (out: Option<Url>)
        requires
            path_fits(self@.href, path@),
        ensures
            match parsed_url(url_with_path(self@.href, path@)) {
                Some(parts) => out is Some && out->0@ == parts && canonical(parts),
                None => out is None,
            },
    {
        proof {
            use_type_invariant(self);
        }
        let href = set_path(self, path);
        Url::parse(href.as_str())
    }

    /// The URL with the pair of `name` and `value` appended to its query:
    /// the URL that is read again from the serialization that the change
    /// leaves.  There is none where that serialization is no URL.
    pub fn with_query_pair(&self, name: &str, value: &str) -> (out: Option<Url>)
        requires
            pair_fits(self@.href, name@, value@),
        ensures
            match parsed_url(url_with_query_pair(self@.href, name@, value@)) {
                Some(parts) => out is Some && out->0@ == parts && canonical(parts)
                    && url_query_pairs(parts.href) == url_query_pairs(self@.href).push(
                    (name@, value@),
                ),
                None => out is None,
            },
    {
        proof {
            use_type_invariant(self);
        }
        let href = append_query_pair(self, name, value);
        Url::parse(href.as_str())
    }

    /// The pairs of name and value of the query, decoded, in their order.
    pub fn query_pairs(&self) -> (out: Vec<(String, String)>)
        ensures
            pair_views(out@) == url_query_pairs(self@.href),
    {
        proof {
            use_type_invariant(self);
        }
        read_query_pairs(self)
    }
}

} // verus!
