//! Finding the address that a forwarding link stands for.
//!
//! A request to the forwarding endpoint carries the address of the audio
//! file as the value of the query parameter `ref`.  This module checks the
//! request and recovers that address.

use vstd::prelude::*;
use vstd::string::StringExecFns;
use crate::escape::{
    html_entities_decoded, lemma_plain_text_decodes_to_itself, percent_decode, percent_decoded,
    unescape_markup,
};
use vstd::utf8::is_ascii_chars;
use crate::rss::carries_reference;
use crate::text::{same_text, starts_with, text_starts_with};
use crate::weburl::{
    audio_path, canonical, is_audio_path, pair_views, parsed_url, url_query_pairs, Url, UrlParts,
};

verus! {

/// Why a request is not forwarded.
pub enum Rejection {
    /// The path of the request does not begin with the prefix given here.
    InvalidPrefix(Seq<char>),
    /// The path of the request, given here, does not end in `mp3` or `aac`.
    InvalidAudioFormat(Seq<char>),
    /// The request carries no parameter `ref`.
    MissingReference,
    /// The value of `ref`, given here, does not decode to a URL.
    MalformedReference(Seq<char>),
}

/// Why a request is not forwarded.
#[derive(Debug, PartialEq, Eq)]
pub enum ForwardError {
    /// The path of the request does not begin with the prefix asked for.
    InvalidPrefix { prefix: String },
    /// The path of the request does not end in `mp3` or `aac`.
    InvalidAudioFormat { path: String },
    /// The request carries no parameter `ref`.
    MissingReference,
    /// The value of `ref` does not decode to a URL.
    MalformedReference { reference: String },
}

impl View for ForwardError {
    type V = Rejection;

    open spec fn view(&self) -> Rejection {
        match *self {
            ForwardError::InvalidPrefix { prefix } => Rejection::InvalidPrefix(prefix@),
            ForwardError::InvalidAudioFormat { path } => Rejection::InvalidAudioFormat(path@),
            ForwardError::MissingReference => Rejection::MissingReference,
            ForwardError::MalformedReference { reference } => Rejection::MalformedReference(
                reference@,
            ),
        }
    }
}

/// The sentence that tells a rejection to the one who asked.
pub open spec fn rejection_message(rejection: Rejection) -> Seq<char> {
    match rejection {
        Rejection::InvalidPrefix(prefix) => "Forward URL does not start with `"@ + prefix
            + "` prefix"@,
        Rejection::InvalidAudioFormat(path) => "Unknown audio file format: "@ + path,
        Rejection::MissingReference => "Could not find ref parameter"@,
        Rejection::MalformedReference(reference) => "Cannot decode ref "@ + reference,
    }
}

impl ForwardError {
    /// A sentence that says why the request is not forwarded.
    pub fn message(&self) -> (text: String)
        ensures
            text@ == rejection_message(self@),
    {
        match self {
            ForwardError::InvalidPrefix { prefix } => {
                let mut text = String::from_str("Forward URL does not start with `");
                text.append(prefix.as_str());
                text.append("` prefix");
                text
            },
            ForwardError::InvalidAudioFormat { path } => {
                let mut text = String::from_str("Unknown audio file format: ");
                text.append(path.as_str());
                text
            },
            ForwardError::MissingReference => String::from_str("Could not find ref parameter"),
            ForwardError::MalformedReference { reference } => {
                let mut text = String::from_str("Cannot decode ref ");
                text.append(reference.as_str());
                text
            },
        }
    }
}

/// The value of the first pair of `pairs`, from index `from` on, whose
/// name is `name`.
pub open spec fn first_value(pairs: Seq<(Seq<char>, Seq<char>)>, name: Seq<char>, from: int) -> Option<
    Seq<char>,
>
    decreases pairs.len() - from,
{
    if from < 0 || from >= pairs.len() {
        None
    } else if pairs[from].0 == name {
        Some(pairs[from].1)
    } else {
        first_value(pairs, name, from + 1)
    }
}

/// What stands against forwarding a request for `path`, as far as the path
/// tells: a missing prefix, where one is asked for, or an ending that names
/// no audio format.
pub open spec fn path_rejection(path: Seq<char>, prefix: Option<Seq<char>>) -> Option<Rejection> {
    if prefix is Some && !starts_with(path, prefix->0) {
        Some(Rejection::InvalidPrefix(prefix->0))
    } else if !audio_path(path) {
        Some(Rejection::InvalidAudioFormat(path))
    } else {
        None
    }
}

/// The value of the parameter `ref` of the request for `request_url`.  The
/// character references of the request are resolved before it is read as a
/// URL.
pub open spec fn reference_of(request_url: Seq<char>) -> Option<Seq<char>> {
    match parsed_url(html_entities_decoded(request_url)) {
        Some(url) => first_value(url_query_pairs(url.href), "ref"@, 0),
        None => None,
    }
}

/// The URL that the reference `reference` decodes to.
pub open spec fn target_of(reference: Seq<char>) -> Option<UrlParts> {
    match percent_decoded(reference) {
        Some(decoded) => parsed_url(decoded),
        None => None,
    }
}

/// The address that the request for `request_url` is forwarded to.
pub open spec fn referenced(request_url: Seq<char>) -> Result<UrlParts, Rejection> {
    match reference_of(request_url) {
        Some(reference) => match target_of(reference) {
            Some(url) => Ok(url),
            None => Err(Rejection::MalformedReference(reference)),
        },
        None => Err(Rejection::MissingReference),
    }
}

/// The outcome of a request for `path`, sent as `request_url`, at an
/// endpoint whose paths begin with `prefix`.
pub open spec fn resolved(path: Seq<char>, request_url: Seq<char>, prefix: Option<Seq<char>>) -> Result<
    UrlParts,
    Rejection,
> {
    match path_rejection(path, prefix) {
        Some(rejection) => Err(rejection),
        None => referenced(request_url),
    }
}

/// `outcome` is the outcome `expected`.
pub open spec fn is_outcome(outcome: Result<Url, ForwardError>, expected: Result<UrlParts, Rejection>) -> bool {
    match outcome {
        Ok(url) => expected == Ok::<UrlParts, Rejection>(url@),
        Err(error) => expected == Err::<UrlParts, Rejection>(error@),
    }
}

/// The view of an optional text.
pub open spec fn optional_view(text: Option<&str>) -> Option<Seq<char>> {
    match text {
        Some(t) => Some(t@),
        None => None,
    }
}

/// The value of the first pair of `pairs` whose name is `name`.
pub fn find_value<'a>(pairs: &'a Vec<(String, String)>, name: &str) -> (found: Option<&'a str>)
    ensures
        match found {
            Some(value) => first_value(pair_views(pairs@), name@, 0) == Some(value@),
            None => first_value(pair_views(pairs@), name@, 0) is None,
        },
{
    let mut i: usize = 0;
    while i < pairs.len()
        invariant
            i <= pairs@.len(),
            first_value(pair_views(pairs@), name@, 0) == first_value(
                pair_views(pairs@),
                name@,
                i as int,
            ),
        decreases pairs.len() - i,
    {
        if same_text(pairs[i].0.as_str(), name) {
            return Some(pairs[i].1.as_str());
        }
        i += 1;
    }
    None
}

/// Checks the path of a request: it begins with `prefix`, and it ends in
/// `mp3` or `aac`.
pub fn valid_forwarding_url(path: &str, prefix: &str) -> (outcome: Result<(), ForwardError>)
    ensures
        match outcome {
            Ok(_) => path_rejection(path@, Some(prefix@)) is None,
            Err(error) => path_rejection(path@, Some(prefix@)) == Some(error@),
        },
{
    if !text_starts_with(path, prefix) {
        return Err(ForwardError::InvalidPrefix { prefix: prefix.to_owned() });
    }
    if !is_audio_path(path) {
        return Err(ForwardError::InvalidAudioFormat { path: path.to_owned() });
    }
    Ok(())
}

/// The URL that a reference decodes to: the reference is percent-decoded
/// and then read as a URL.
pub fn decode_reference(reference: &str) -> (outcome: Result<Url, ForwardError>)
    ensures
        match outcome {
            Ok(url) => target_of(reference@) == Some(url@),
            Err(error) => target_of(reference@) is None && error@ == Rejection::MalformedReference(
                reference@,
            ),
        },
{
    let target = match percent_decode(reference) {
        Some(decoded) => Url::parse(decoded.as_str()),
        None => None,
    };
    match target {
        Some(url) => Ok(url),
        None => Err(ForwardError::MalformedReference { reference: reference.to_owned() }),
    }
}

/// The address that the request for `request_url` carries in its parameter
/// `ref`.
pub fn extract_ref(request_url: &str) -> (outcome: Result<Url, ForwardError>)
    ensures
        is_outcome(outcome, referenced(request_url@)),
{
    let decoded = unescape_markup(request_url);
    let url = match Url::parse(decoded.as_str()) {
        Some(url) => url,
        None => {
            return Err(ForwardError::MissingReference);
        },
    };
    let pairs = url.query_pairs();
    match find_value(&pairs, "ref") {
        Some(reference) => decode_reference(reference),
        None => Err(ForwardError::MissingReference),
    }
}

/// The address to which a request is forwarded.
///
/// The request is for `path` and was sent as `request_url`.  Where
/// `prefix` is given, the path has to begin with it.  The path has to end
/// in `mp3` or `aac`, and the request has to carry the address as the value
/// of its parameter `ref`.
pub fn get(path: &str, request_url: &str, prefix: Option<&str>) -> (outcome: Result<
    Url,
    ForwardError,
>)
    ensures
        is_outcome(outcome, resolved(path@, request_url@, optional_view(prefix))),
{
    match prefix {
        Some(prefix) => {
            match valid_forwarding_url(path, prefix) {
                Ok(_) => {},
                Err(error) => {
                    return Err(error);
                },
            }
        },
        None => {
            if !is_audio_path(path) {
                return Err(ForwardError::InvalidAudioFormat { path: path.to_owned() });
            }
        },
    }
    extract_ref(request_url)
}

/// A request that passes the checks of its path is forwarded to the URL
/// whose serialization its reference percent-decodes to.
pub proof fn lemma_decoded_reference_resolves(
    path: Seq<char>,
    request_url: Seq<char>,
    prefix: Option<Seq<char>>,
    reference: Seq<char>,
    original: UrlParts,
)
    requires
        path_rejection(path, prefix) is None,
        reference_of(request_url) == Some(reference),
        percent_decoded(reference) == Some(original.href),
        canonical(original),
    ensures
        resolved(path, request_url, prefix) == Ok::<UrlParts, Rejection>(original),
{
}

/// The way back from a forwarding link: a request that passes the checks
/// of its path and carries the serialization of `original` as its
/// reference is forwarded to `original`, where that serialization is made
/// of ASCII characters and holds no percent sign.
pub proof fn lemma_carried_reference_resolves(
    path: Seq<char>,
    request_url: Seq<char>,
    prefix: Option<Seq<char>>,
    original: UrlParts,
)
    requires
        path_rejection(path, prefix) is None,
        reference_of(request_url) == Some(original.href),
        canonical(original),
        is_ascii_chars(original.href),
        forall|i: int| 0 <= i < original.href.len() ==> original.href[i] != '%',
    ensures
        resolved(path, request_url, prefix) == Ok::<UrlParts, Rejection>(original),
{
    lemma_plain_text_decodes_to_itself(original.href);
}

/// A pair written behind pairs of other names is the first of its name.
pub proof fn lemma_first_value_pushed(
    pairs: Seq<(Seq<char>, Seq<char>)>,
    name: Seq<char>,
    value: Seq<char>,
    from: int,
)
    requires
        0 <= from <= pairs.len(),
        first_value(pairs, name, from) is None,
    ensures
        first_value(pairs.push((name, value)), name, from) == Some(value),
    decreases pairs.len() - from,
{
    let longer = pairs.push((name, value));
    if from < pairs.len() {
        assert(longer[from] == pairs[from]);
        lemma_first_value_pushed(pairs, name, value, from + 1);
    } else {
        assert(longer[from] == (name, value));
    }
}

/// The way there and back: a request for a forwarding link is forwarded to
/// the URL that the link was built for.
///
/// `linked` is the forwarding address built for `original` from the
/// address `moved` at the endpoint, which carried no `ref` before.  The
/// request is for `linked`: that is what its text gives once its character
/// references are resolved.  Its path passes the checks.  The
/// serialization of `original` is made of ASCII characters and holds no
/// percent sign, so that decoding it a second time changes nothing.
pub proof fn lemma_forward_link_resolves(
    original: UrlParts,
    moved: UrlParts,
    linked: UrlParts,
    path: Seq<char>,
    request_url: Seq<char>,
    prefix: Option<Seq<char>>,
)
    requires
        carries_reference(linked, moved, original),
        first_value(url_query_pairs(moved.href), "ref"@, 0) is None,
        parsed_url(html_entities_decoded(request_url)) == Some(linked),
        path_rejection(path, prefix) is None,
        canonical(original),
        is_ascii_chars(original.href),
        forall|i: int| 0 <= i < original.href.len() ==> original.href[i] != '%',
    ensures
        resolved(path, request_url, prefix) == Ok::<UrlParts, Rejection>(original),
{
    lemma_first_value_pushed(url_query_pairs(moved.href), "ref"@, original.href, 0);
    lemma_carried_reference_resolves(path, request_url, prefix, original);
}

} // verus!
