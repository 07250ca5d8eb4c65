//! The two shapes of markup that are read from a feed: the `url` attribute
//! of an `enclosure` tag, and the `link` element.
//!
//! Both are read from the left, character by character, and neither
//! reaches over the end of a line; nothing else of the feed's markup is
//! understood.

use vstd::prelude::*;
use crate::text::{
    append_chars, append_range, chars_of, find, first_occurrence, matches_at, occurs_at,
    string_of_range, views,
};

verus! {

/// `c` is a quotation mark, double or single.
pub open spec fn is_quote(c: char) -> bool {
    c == '"' || c == '\''
}

/// A `url=` with a quotation mark behind it stands in `text` at `at`.
pub open spec fn attribute_at(text: Seq<char>, at: int) -> bool {
    &&& occurs_at(text, "url="@, at)
    &&& at + 4 < text.len()
    &&& is_quote(text[at + 4])
}

/// An enclosure with an address stands in `text`: `<enclosure` at `tag`,
/// the nearest `url=` with a quotation mark behind it at `attr`, and the
/// nearest quotation mark behind that, of either kind, at `close`; all on
/// one line.  The address stands between the two quotation marks.
pub open spec fn enclosure_element(text: Seq<char>, tag: int, attr: int, close: int) -> bool {
    &&& occurs_at(text, "<enclosure"@, tag)
    &&& tag + 10 <= attr
    &&& attribute_at(text, attr)
    &&& forall|a: int| tag + 10 <= a < attr ==> !#[trigger] attribute_at(text, a)
    &&& attr + 5 <= close < text.len()
    &&& is_quote(text[close])
    &&& forall|k: int| attr + 5 <= k < close ==> !is_quote(#[trigger] text[k])
    &&& forall|k: int| tag + 10 <= k < close ==> #[trigger] text[k] != '\n'
}

/// The first enclosure with an address of `text` from `from` on stands at
/// `tag`, `attr` and `close`.
pub open spec fn first_enclosure(text: Seq<char>, from: int, tag: int, attr: int, close: int) -> bool {
    &&& from <= tag
    &&& enclosure_element(text, tag, attr, close)
    &&& forall|t: int, a: int, c: int| from <= t < tag ==> !#[trigger] enclosure_element(text, t, a, c)
}

/// No enclosure with an address begins in `text` at `from` or later.
pub open spec fn no_enclosure(text: Seq<char>, from: int) -> bool {
    forall|t: int, a: int, c: int| from <= t ==> !#[trigger] enclosure_element(text, t, a, c)
}

/// The addresses of the enclosures of `text` from `from` on, in their order
/// in the text.  The enclosures are read from the left, each search
/// resuming behind the address found last.
#[verifier::opaque]
pub open spec fn enclosure_urls_from(text: Seq<char>, from: int) -> Seq<Seq<char>>
    decreases text.len() - from,
{
    if exists|tag: int, attr: int, close: int| first_enclosure(text, from, tag, attr, close) {
        let (tag, attr, close) = choose|tag: int, attr: int, close: int|
            first_enclosure(text, from, tag, attr, close);
        if from < close + 1 <= text.len() {
            seq![text.subrange(attr + 5, close)] + enclosure_urls_from(text, close + 1)
        } else {
            Seq::empty()
        }
    } else {
        Seq::empty()
    }
}

/// The addresses of the enclosures of `text`, in their order in the text.
pub open spec fn enclosure_urls(text: Seq<char>) -> Seq<Seq<char>> {
    enclosure_urls_from(text, 0)
}

/// The enclosure that begins at a tag is decided by the text.
pub proof fn lemma_enclosure_unique(
    text: Seq<char>,
    tag: int,
    attr1: int,
    close1: int,
    attr2: int,
    close2: int,
)
    requires
        enclosure_element(text, tag, attr1, close1),
        enclosure_element(text, tag, attr2, close2),
    ensures
        attr1 == attr2,
        close1 == close2,
{
    if attr1 < attr2 {
        assert(attribute_at(text, attr1));
    }
    if attr2 < attr1 {
        assert(attribute_at(text, attr2));
    }
    if close1 < close2 {
        assert(is_quote(text[close1]));
    }
    if close2 < close1 {
        assert(is_quote(text[close2]));
    }
}

/// What the first enclosure from `from` on makes of the list of addresses.
pub proof fn lemma_first_enclosure_decides(
    text: Seq<char>,
    from: int,
    tag: int,
    attr: int,
    close: int,
)
    requires
        0 <= from,
        first_enclosure(text, from, tag, attr, close),
    ensures
        from < close + 1 <= text.len(),
        enclosure_urls_from(text, from) == seq![text.subrange(attr + 5, close)]
            + enclosure_urls_from(text, close + 1),
{
    reveal(enclosure_urls_from);
    let (t, a, c) = choose|t: int, a: int, c: int| first_enclosure(text, from, t, a, c);
    if t < tag {
        assert(enclosure_element(text, t, a, c));
    }
    if tag < t {
        assert(enclosure_element(text, tag, attr, close));
    }
    lemma_enclosure_unique(text, tag, attr, close, a, c);
}

/// Where no enclosure begins from `from` on, no address is listed.
pub proof fn lemma_no_enclosure_decides(text: Seq<char>, from: int)
    requires
        no_enclosure(text, from),
    ensures
        enclosure_urls_from(text, from) == Seq::<Seq<char>>::empty(),
{
    reveal(enclosure_urls_from);
    assert forall|t: int, a: int, c: int| !first_enclosure(text, from, t, a, c) by {
        if first_enclosure(text, from, t, a, c) {
            assert(enclosure_element(text, t, a, c));
        }
    }
}

/// Whether `c` is a quotation mark.
fn quote(c: char) -> (yes: bool)
    ensures
        yes == is_quote(c),
{
    c == '"' || c == '\''
}

/// Whether a `url=` with a quotation mark behind it stands in `text` at
/// `at`.
fn attribute_stands_at(text: &[char], name: &[char], at: usize) -> (yes: bool)
    requires
        name@ == "url="@,
    ensures
        yes == attribute_at(text@, at as int),
{
    proof {
        reveal_strlit("url=");
    }
    let len = text.len();
    if matches_at(text, name, at) {
        if at + 4 < len {
            quote(text[at + 4])
        } else {
            false
        }
    } else {
        false
    }
}

/// The first position from `from` on at which a `url=` with a quotation
/// mark behind it stands, a line ends, or the text ends; and whether it is
/// the first of the three.
fn next_attribute(text: &[char], from: usize) -> (found: (usize, bool))
    requires
        from <= text@.len(),
    ensures
        from <= found.0 <= text@.len(),
        forall|k: int| from <= k < found.0 ==> !#[trigger] attribute_at(text@, k),
        forall|k: int| from <= k < found.0 ==> #[trigger] text@[k] != '\n',
        found.1 == attribute_at(text@, found.0 as int),
        !found.1 ==> found.0 == text@.len() || text@[found.0 as int] == '\n',
{
    let name = chars_of("url=");
    let len = text.len();
    let mut at: usize = from;
    loop
        invariant
            len == text@.len(),
            name@ == "url="@,
            from <= at <= len,
            forall|k: int| from <= k < at ==> !#[trigger] attribute_at(text@, k),
            forall|k: int| from <= k < at ==> #[trigger] text@[k] != '\n',
        decreases len - at,
    {
        if attribute_stands_at(text, name.as_slice(), at) {
            return (at, true);
        }
        if at >= len {
            return (at, false);
        }
        if text[at] == '\n' {
            return (at, false);
        }
        at += 1;
    }
}

/// The first position from `from` on at which a quotation mark stands, a
/// line ends, or the text ends; and whether it is the first of the three.
fn next_quote(text: &[char], from: usize) -> (found: (usize, bool))
    requires
        from <= text@.len(),
    ensures
        from <= found.0 <= text@.len(),
        forall|k: int| from <= k < found.0 ==> !is_quote(#[trigger] text@[k]),
        forall|k: int| from <= k < found.0 ==> #[trigger] text@[k] != '\n',
        found.1 == (found.0 < text@.len() && is_quote(text@[found.0 as int])),
        !found.1 ==> found.0 == text@.len() || text@[found.0 as int] == '\n',
{
    let len = text.len();
    let mut at: usize = from;
    loop
        invariant
            len == text@.len(),
            from <= at <= len,
            forall|k: int| from <= k < at ==> !is_quote(#[trigger] text@[k]),
            forall|k: int| from <= k < at ==> #[trigger] text@[k] != '\n',
        decreases len - at,
    {
        if at >= len {
            return (at, false);
        }
        if quote(text[at]) {
            return (at, true);
        }
        if text[at] == '\n' {
            return (at, false);
        }
        at += 1;
    }
}

/// The enclosure that begins with the `<enclosure` at `tag`: the positions
/// of its `url=` and of the quotation mark that ends its address.
fn enclosure_at(text: &[char], tag: usize) -> (found: Option<(usize, usize)>)
    requires
        occurs_at(text@, "<enclosure"@, tag as int),
    ensures
        match found {
            Some((attr, close)) => enclosure_element(
                text@,
                tag as int,
                attr as int,
                close as int,
            ),
            None => forall|a: int, c: int| !enclosure_element(text@, tag as int, a, c),
        },
{
    proof {
        reveal_strlit("<enclosure");
        reveal_strlit("url=");
    }
    let len = text.len();
    let (attr, is_attribute) = next_attribute(text, tag + 10);
    if !is_attribute {
        assert forall|a: int, c: int| !enclosure_element(text@, tag as int, a, c) by {
            if enclosure_element(text@, tag as int, a, c) {
                assert(attribute_at(text@, a));
                if a > attr {
                    assert(text@[attr as int] == '\n');
                }
            }
        }
        return None;
    }
    assert(text@.subrange(attr as int, attr + 4) == "url="@);
    assert forall|k: int| attr <= k < attr + 5 implies #[trigger] text@[k] != '\n' by {
        if k < attr + 4 {
            assert(text@[k] == text@.subrange(attr as int, attr + 4)[k - attr]);
        }
    }
    let (close, is_close) = next_quote(text, attr + 5);
    if !is_close {
        assert forall|a: int, c: int| !enclosure_element(text@, tag as int, a, c) by {
            if enclosure_element(text@, tag as int, a, c) {
                assert(attribute_at(text@, a));
                assert(attribute_at(text@, attr as int));
                assert(a == attr);
                assert(is_quote(text@[c]));
                if c > close {
                    assert(text@[close as int] == '\n');
                }
            }
        }
        return None;
    }
    Some((attr, close))
}

/// The first enclosure with an address of `text` from `from` on: the
/// positions of its `<enclosure`, of its `url=` and of the quotation mark
/// that ends its address.
pub fn find_enclosure(text: &[char], from: usize) -> (found: Option<(usize, usize, usize)>)
    ensures
        match found {
            Some((tag, attr, close)) => first_enclosure(
                text@,
                from as int,
                tag as int,
                attr as int,
                close as int,
            ) && close < text@.len(),
            None => no_enclosure(text@, from as int),
        },
{
    let tag_name = chars_of("<enclosure");
    let len = text.len();
    let mut cursor: usize = from;
    loop
        invariant
            len == text@.len(),
            tag_name@ == "<enclosure"@,
            from <= cursor,
            forall|t: int, a: int, c: int|
                from <= t < cursor ==> !#[trigger] enclosure_element(text@, t, a, c),
        decreases text@.len() - cursor,
    {
        let tag = match find(text, tag_name.as_slice(), cursor) {
            Some(tag) => tag,
            None => {
                assert forall|t: int, a: int, c: int| from <= t implies !#[trigger] enclosure_element(
                    text@,
                    t,
                    a,
                    c,
                ) by {
                    if t >= cursor && enclosure_element(text@, t, a, c) {
                        assert(occurs_at(text@, "<enclosure"@, t));
                    }
                }
                return None;
            },
        };
        assert forall|t: int, a: int, c: int| from <= t < tag implies !#[trigger] enclosure_element(
            text@,
            t,
            a,
            c,
        ) by {
            if t >= cursor && enclosure_element(text@, t, a, c) {
                assert(occurs_at(text@, "<enclosure"@, t));
            }
        }
        proof {
            reveal_strlit("<enclosure");
        }
        match enclosure_at(text, tag) {
            Some((attr, close)) => {
                return Some((tag, attr, close));
            },
            None => {},
        }
        cursor = tag + 1;
    }
}

/// The addresses of the enclosures of `text`, in their order in the text.
pub fn extract_enclosures(text: &[char]) -> (out: Vec<String>)
    ensures
        views(out@) == enclosure_urls(text@),
{
    let len = text.len();
    let mut out: Vec<String> = Vec::new();
    let mut pos: usize = 0;
    assert(views(out@) =~= Seq::<Seq<char>>::empty());
    loop
        invariant
            len == text@.len(),
            pos <= len,
            enclosure_urls(text@) == views(out@) + enclosure_urls_from(text@, pos as int),
        decreases len - pos,
    {
        let ghost before = views(out@);
        match find_enclosure(text, pos) {
            Some((tag, attr, close)) => {
                proof {
                    lemma_first_enclosure_decides(
                        text@,
                        pos as int,
                        tag as int,
                        attr as int,
                        close as int,
                    );
                }
                let url = string_of_range(text, attr + 5, close);
                out.push(url);
                let ghost found = text@.subrange(attr + 5, close as int);
                assert(views(out@) =~= before + seq![found]);
                pos = close + 1;
                assert((before + seq![found]) + enclosure_urls_from(text@, pos as int) =~= before
                    + (seq![found] + enclosure_urls_from(text@, pos as int)));
            },
            None => {
                proof {
                    lemma_no_enclosure_decides(text@, pos as int);
                }
                assert(views(out@) + Seq::<Seq<char>>::empty() =~= views(out@));
                return out;
            },
        }
    }
}

/// A `link` element stands in `text`: `<link>` at `open`, and the nearest
/// `</link>` behind it at `close`, on the same line.
pub open spec fn link_element(text: Seq<char>, open: int, close: int) -> bool {
    &&& occurs_at(text, "<link>"@, open)
    &&& first_occurrence(text, "</link>"@, open + 6, close)
    &&& forall|k: int| open + 6 <= k < close ==> #[trigger] text[k] != '\n'
}

/// The first `link` element of `text` from `from` on stands at `open` and
/// `close`.
pub open spec fn first_link_element(text: Seq<char>, from: int, open: int, close: int) -> bool {
    &&& from <= open
    &&& link_element(text, open, close)
    &&& forall|o: int, c: int| from <= o < open ==> !#[trigger] link_element(text, o, c)
}

/// No `link` element of `text` begins at `from` or later.
pub open spec fn no_link_element(text: Seq<char>, from: int) -> bool {
    forall|o: int, c: int| from <= o ==> !#[trigger] link_element(text, o, c)
}

/// `text` from `from` on, with the content of every `link` element
/// replaced by `body`.  The elements are read from the left, each search
/// resuming behind the element found last.
#[verifier::opaque]
pub open spec fn links_replaced_from(text: Seq<char>, from: int, body: Seq<char>) -> Seq<char>
    decreases text.len() - from,
{
    if exists|open: int, close: int| first_link_element(text, from, open, close) {
        let (open, close) = choose|open: int, close: int|
            first_link_element(text, from, open, close);
        if from < close + 7 <= text.len() {
            text.subrange(from, open) + "<link>"@ + body + "</link>"@ + links_replaced_from(
                text,
                close + 7,
                body,
            )
        } else {
            text.skip(from)
        }
    } else {
        text.skip(from)
    }
}

/// `text` with the content of every `link` element replaced by `body`.
pub open spec fn links_replaced(text: Seq<char>, body: Seq<char>) -> Seq<char> {
    links_replaced_from(text, 0, body)
}

/// The contents of the `link` elements of `text` from `from` on, in their
/// order in the text.
#[verifier::opaque]
pub open spec fn link_bodies_from(text: Seq<char>, from: int) -> Seq<Seq<char>>
    decreases text.len() - from,
{
    if exists|open: int, close: int| first_link_element(text, from, open, close) {
        let (open, close) = choose|open: int, close: int|
            first_link_element(text, from, open, close);
        if from < close + 7 <= text.len() {
            seq![text.subrange(open + 6, close)] + link_bodies_from(text, close + 7)
        } else {
            Seq::empty()
        }
    } else {
        Seq::empty()
    }
}

/// The contents of the `link` elements of `text`, in their order in the
/// text.
pub open spec fn link_bodies(text: Seq<char>) -> Seq<Seq<char>> {
    link_bodies_from(text, 0)
}

/// The first `link` element from a position on is decided by the text.
pub proof fn lemma_first_link_unique(
    text: Seq<char>,
    from: int,
    open1: int,
    close1: int,
    open2: int,
    close2: int,
)
    requires
        first_link_element(text, from, open1, close1),
        first_link_element(text, from, open2, close2),
    ensures
        open1 == open2,
        close1 == close2,
{
    if open1 < open2 {
        assert(link_element(text, open1, close1));
    }
    if open2 < open1 {
        assert(link_element(text, open2, close2));
    }
    if close1 < close2 {
        assert(occurs_at(text, "</link>"@, close1));
    }
    if close2 < close1 {
        assert(occurs_at(text, "</link>"@, close2));
    }
}

/// What the first `link` element from `from` on makes of the replaced text
/// and of the list of contents.
pub proof fn lemma_first_link_decides(
    text: Seq<char>,
    from: int,
    open: int,
    close: int,
    body: Seq<char>,
)
    requires
        0 <= from,
        first_link_element(text, from, open, close),
    ensures
        from < close + 7 <= text.len(),
        links_replaced_from(text, from, body) == text.subrange(from, open) + "<link>"@ + body
            + "</link>"@ + links_replaced_from(text, close + 7, body),
        link_bodies_from(text, from) == seq![text.subrange(open + 6, close)] + link_bodies_from(
            text,
            close + 7,
        ),
{
    reveal_strlit("</link>");
    reveal(links_replaced_from);
    reveal(link_bodies_from);
    let (o, c) = choose|o: int, c: int| first_link_element(text, from, o, c);
    lemma_first_link_unique(text, from, open, close, o, c);
}

/// Where no `link` element begins from `from` on, nothing is replaced and
/// no content is listed.
pub proof fn lemma_no_link_decides(text: Seq<char>, from: int, body: Seq<char>)
    requires
        no_link_element(text, from),
    ensures
        links_replaced_from(text, from, body) == text.skip(from),
        link_bodies_from(text, from) == Seq::<Seq<char>>::empty(),
{
    reveal(links_replaced_from);
    reveal(link_bodies_from);
    assert forall|o: int, c: int| !first_link_element(text, from, o, c) by {
        if first_link_element(text, from, o, c) {
            assert(link_element(text, o, c));
        }
    }
}

/// The position of the `</link>` that closes the `<link>` at `open`.
fn closing_of(text: &[char], open: usize) -> (found: Option<usize>)
    requires
        occurs_at(text@, "<link>"@, open as int),
    ensures
        match found {
            Some(close) => link_element(text@, open as int, close as int),
            None => forall|c: int| !link_element(text@, open as int, c),
        },
{
    let close_tag = chars_of("</link>");
    let len = text.len();
    proof {
        reveal_strlit("<link>");
        reveal_strlit("</link>");
    }
    let mut at: usize = open + 6;
    loop
        invariant
            len == text@.len(),
            close_tag@ == "</link>"@,
            "</link>"@.len() == 7,
            open + 6 <= at <= len,
            occurs_at(text@, "<link>"@, open as int),
            forall|k: int| open + 6 <= k < at ==> !occurs_at(text@, "</link>"@, k),
            forall|k: int| open + 6 <= k < at ==> #[trigger] text@[k] != '\n',
        decreases len - at,
    {
        if matches_at(text, close_tag.as_slice(), at) {
            return Some(at);
        }
        if at >= len {
            assert forall|c: int| !link_element(text@, open as int, c) by {
                if link_element(text@, open as int, c) {
                    assert(occurs_at(text@, "</link>"@, c));
                }
            }
            return None;
        }
        if text[at] == '\n' {
            assert forall|c: int| !link_element(text@, open as int, c) by {
                if link_element(text@, open as int, c) {
                    assert(occurs_at(text@, "</link>"@, c));
                    if c > at {
                        assert(text@[at as int] == '\n');
                    }
                }
            }
            return None;
        }
        at += 1;
    }
}

/// The first `link` element of `text` from `from` on: the positions of its
/// `<link>` and of its `</link>`.
pub fn find_link(text: &[char], from: usize) -> (found: Option<(usize, usize)>)
    ensures
        match found {
            Some((open, close)) => first_link_element(
                text@,
                from as int,
                open as int,
                close as int,
            ) && close + 7 <= text@.len(),
            None => no_link_element(text@, from as int),
        },
{
    let open_tag = chars_of("<link>");
    let len = text.len();
    let mut cursor: usize = from;
    loop
        invariant
            len == text@.len(),
            open_tag@ == "<link>"@,
            from <= cursor,
            forall|o: int, c: int| from <= o < cursor ==> !#[trigger] link_element(text@, o, c),
        decreases text@.len() - cursor,
    {
        let open = match find(text, open_tag.as_slice(), cursor) {
            Some(open) => open,
            None => {
                assert forall|o: int, c: int| from <= o implies !#[trigger] link_element(
                    text@,
                    o,
                    c,
                ) by {
                    if o >= cursor && link_element(text@, o, c) {
                        assert(occurs_at(text@, "<link>"@, o));
                    }
                }
                return None;
            },
        };
        assert forall|o: int, c: int| from <= o < open implies !#[trigger] link_element(
            text@,
            o,
            c,
        ) by {
            if o >= cursor && link_element(text@, o, c) {
                assert(occurs_at(text@, "<link>"@, o));
            }
        }
        proof {
            reveal_strlit("<link>");
            reveal_strlit("</link>");
        }
        match closing_of(text, open) {
            Some(close) => {
                return Some((open, close));
            },
            None => {},
        }
        cursor = open + 1;
    }
}

/// `text` with the content of every `link` element replaced by `body`.
pub fn replace_links(text: &[char], body: &[char]) -> (out: Vec<char>)
    ensures
        out@ == links_replaced(text@, body@),
{
    let open_tag = chars_of("<link>");
    let close_tag = chars_of("</link>");
    let len = text.len();
    let mut out: Vec<char> = Vec::new();
    let mut pos: usize = 0;
    loop
        invariant
            len == text@.len(),
            open_tag@ == "<link>"@,
            close_tag@ == "</link>"@,
            pos <= len,
            links_replaced(text@, body@) == out@ + links_replaced_from(text@, pos as int, body@),
        decreases len - pos,
    {
        let ghost before = out@;
        match find_link(text, pos) {
            Some((open, close)) => {
                proof {
                    lemma_first_link_decides(text@, pos as int, open as int, close as int, body@);
                }
                append_range(&mut out, text, pos, open);
                append_chars(&mut out, open_tag.as_slice());
                append_chars(&mut out, body);
                append_chars(&mut out, close_tag.as_slice());
                let ghost gap = text@.subrange(pos as int, open as int);
                pos = close + 7;
                assert(out@ + links_replaced_from(text@, pos as int, body@) =~= before + (gap
                    + "<link>"@ + body@ + "</link>"@ + links_replaced_from(
                    text@,
                    pos as int,
                    body@,
                )));
            },
            None => {
                proof {
                    lemma_no_link_decides(text@, pos as int, body@);
                }
                append_range(&mut out, text, pos, len);
                assert(text@.subrange(pos as int, len as int) == text@.skip(pos as int));
                return out;
            },
        }
    }
}

/// The contents of the `link` elements of `text`, in their order in the
/// text.
pub fn extract_link_bodies(text: &[char]) -> (out: Vec<String>)
    ensures
        views(out@) == link_bodies(text@),
{
    let len = text.len();
    let mut out: Vec<String> = Vec::new();
    let mut pos: usize = 0;
    assert(views(out@) =~= Seq::<Seq<char>>::empty());
    loop
        invariant
            len == text@.len(),
            pos <= len,
            link_bodies(text@) == views(out@) + link_bodies_from(text@, pos as int),
        decreases len - pos,
    {
        let ghost before = views(out@);
        match find_link(text, pos) {
            Some((open, close)) => {
                proof {
                    lemma_first_link_decides(
                        text@,
                        pos as int,
                        open as int,
                        close as int,
                        Seq::empty(),
                    );
                    reveal_strlit("<link>");
                }
                let body = string_of_range(text, open + 6, close);
                out.push(body);
                assert(views(out@) =~= before + seq![text@.subrange(open + 6, close as int)]);
                pos = close + 7;
                assert((before + seq![text@.subrange(open + 6, close as int)]) + link_bodies_from(
                    text@,
                    pos as int,
                ) =~= before + (seq![text@.subrange(open + 6, close as int)] + link_bodies_from(
                    text@,
                    pos as int,
                )));
            },
            None => {
                proof {
                    lemma_no_link_decides(text@, pos as int, Seq::empty());
                }
                assert(views(out@) + Seq::<Seq<char>>::empty() =~= views(out@));
                return out;
            },
        }
    }
}

} // verus!
