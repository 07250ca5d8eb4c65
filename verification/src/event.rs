//! What a request is counted as.

use vstd::prelude::*;
use vstd::string::StringExecFns;
use crate::text::{same_text, starts_with, text_starts_with};

verus! {

/// The kind of the request for `path`: `rss` for the feed itself, `mp3`
/// for a forwarded download, and the path itself for anything else.
pub open spec fn kind_of(path: Seq<char>) -> Seq<char> {
    if path == "/"@ {
        "rss"@
    } else if starts_with(path, "/r/"@) {
        "mp3"@
    } else {
        path
    }
}

/// The kind of the request for `path`.
pub fn request_kind(path: String) -> (kind: String)
    ensures
        kind@ == kind_of(path@),
{
    if same_text(path.as_str(), "/") {
        "rss".to_owned()
    } else if text_starts_with(path.as_str(), "/r/") {
        "mp3".to_owned()
    } else {
        path
    }
}

/// One header as it is written into a report: its name, a colon and a
/// space, and its value.
pub open spec fn header_text(header: (Seq<char>, Seq<char>)) -> Seq<char> {
    header.0 + ": "@ + header.1
}

/// The headers of a request as they are written into a report: one after
/// the other, in their order, with a semicolon and a space between each two.
pub open spec fn headers_text(headers: Seq<(Seq<char>, Seq<char>)>) -> Seq<char>
    decreases headers.len(),
{
    if headers.len() == 0 {
        Seq::empty()
    } else if headers.len() == 1 {
        header_text(headers[0])
    } else {
        headers_text(headers.drop_last()) + "; "@ + header_text(headers.last())
    }
}

/// The views of a sequence of headers.
pub open spec fn header_views(headers: Seq<(String, String)>) -> Seq<(Seq<char>, Seq<char>)> {
    headers.map_values(|h: (String, String)| (h.0@, h.1@))
}

/// The headers of a request as they are written into a report.
pub fn join_headers(headers: &Vec<(String, String)>) -> (line: String)
    ensures
        line@ == headers_text(header_views(headers@)),
{
    let mut line = String::new();
    let mut i: usize = 0;
    assert(header_views(headers@).take(0) == Seq::<(Seq<char>, Seq<char>)>::empty());
    while i < headers.len()
        invariant
            i <= headers@.len(),
            line@ == headers_text(header_views(headers@).take(i as int)),
        decreases headers.len() - i,
    {
        let ghost views = header_views(headers@);
        assert(views.take(i + 1).drop_last() == views.take(i as int));
        assert(views.take(i + 1).last() == (headers@[i as int].0@, headers@[i as int].1@));
        if i > 0 {
            line.append("; ");
        }
        line.append(headers[i].0.as_str());
        line.append(": ");
        line.append(headers[i].1.as_str());
        assert(line@ == headers_text(views.take(i + 1))) by {
            if i == 0 {
                assert(Seq::<char>::empty() + headers@[0].0@ + ": "@ + headers@[0].1@
                    == header_text(views.take(1)[0]));
            } else {
                assert(headers_text(views.take(i as int)) + "; "@ + headers@[i as int].0@ + ": "@
                    + headers@[i as int].1@ == headers_text(views.take(i as int)) + "; "@
                    + header_text(views.take(i + 1).last()));
            }
        }
        i += 1;
    }
    assert(header_views(headers@).take(headers@.len() as int) == header_views(headers@));
    line
}

} // verus!
