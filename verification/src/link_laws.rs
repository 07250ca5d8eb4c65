//! What holds of a feed after its `link` elements were replaced.

use vstd::prelude::*;
use crate::markup::{
    first_link_element, lemma_first_link_decides, lemma_no_link_decides, link_bodies,
    link_bodies_from, link_element, links_replaced, links_replaced_from, no_link_element,
};
use crate::text::{
    contains, first_occurrence, lemma_first_occurrence_exists, lemma_occurs_in_back, occurs_at,
};

verus! {

/// A `link` element stands in the second of two joined texts exactly where
/// it stands in that text alone.
pub proof fn lemma_link_element_in_back(front: Seq<char>, back: Seq<char>, open: int, close: int)
    requires
        0 <= open,
    ensures
        link_element(front + back, front.len() + open, front.len() + close) <==> link_element(
            back,
            open,
            close,
        ),
{
    let whole = front + back;
    let n = front.len() as int;
    lemma_occurs_in_back(front, back, "<link>"@, open);
    if open + 6 <= close {
        lemma_occurs_in_back(front, back, "</link>"@, close);
    }
    assert forall|k: int| open + 6 <= k implies (occurs_at(whole, "</link>"@, n + k) <==> occurs_at(
        back,
        "</link>"@,
        k,
    )) by {
        lemma_occurs_in_back(front, back, "</link>"@, k);
    }
    if link_element(whole, n + open, n + close) {
        assert forall|k: int| open + 6 <= k < close implies !occurs_at(back, "</link>"@, k) by {
            assert(!occurs_at(whole, "</link>"@, n + k));
        }
        assert forall|k: int| open + 6 <= k < close implies #[trigger] back[k] != '\n' by {
            assert(whole[n + k] != '\n');
        }
    }
    if link_element(back, open, close) {
        assert forall|k: int| n + open + 6 <= k < n + close implies !occurs_at(
            whole,
            "</link>"@,
            k,
        ) by {
            assert(!occurs_at(back, "</link>"@, k - n));
        }
        assert forall|k: int| n + open + 6 <= k < n + close implies #[trigger] whole[k] != '\n' by {
            assert(back[k - n] != '\n');
        }
    }
}

/// The first `link` element behind a position of the second of two joined
/// texts is the first one of that text alone.
pub proof fn lemma_first_link_in_back(
    front: Seq<char>,
    back: Seq<char>,
    from: int,
    open: int,
    close: int,
)
    requires
        0 <= from,
    ensures
        first_link_element(front + back, front.len() + from, front.len() + open, front.len() + close)
            <==> first_link_element(back, from, open, close),
{
    let whole = front + back;
    let n = front.len() as int;
    if from <= open {
        lemma_link_element_in_back(front, back, open, close);
    }
    if first_link_element(whole, n + from, n + open, n + close) {
        assert forall|o: int, c: int| from <= o < open implies !#[trigger] link_element(
            back,
            o,
            c,
        ) by {
            lemma_link_element_in_back(front, back, o, c);
            assert(!link_element(whole, n + o, n + c));
        }
    }
    if first_link_element(back, from, open, close) {
        assert forall|o: int, c: int| n + from <= o < n + open implies !#[trigger] link_element(
            whole,
            o,
            c,
        ) by {
            lemma_link_element_in_back(front, back, o - n, c - n);
            assert(!link_element(back, o - n, c - n));
        }
    }
}

/// The contents listed from a position of the second of two joined texts
/// are those listed from that position of the text alone.
pub proof fn lemma_link_bodies_in_back(front: Seq<char>, back: Seq<char>, from: int)
    requires
        0 <= from,
    ensures
        link_bodies_from(front + back, front.len() + from) == link_bodies_from(back, from),
    decreases back.len() - from,
{
    let whole = front + back;
    let n = front.len() as int;
    if exists|open: int, close: int| first_link_element(back, from, open, close) {
        let (open, close) = choose|open: int, close: int|
            first_link_element(back, from, open, close);
        lemma_first_link_in_back(front, back, from, open, close);
        lemma_first_link_decides(back, from, open, close, Seq::empty());
        lemma_first_link_decides(whole, n + from, n + open, n + close, Seq::empty());
        lemma_link_bodies_in_back(front, back, close + 7);
        assert(whole.subrange(n + open + 6, n + close) == back.subrange(open + 6, close));
    } else {
        assert forall|o: int, c: int| from <= o implies !#[trigger] link_element(back, o, c) by {
            if link_element(back, o, c) {
                let first = lemma_first_link_exists(back, from, o, c);
            }
        }
        assert forall|o: int, c: int| n + from <= o implies !#[trigger] link_element(
            whole,
            o,
            c,
        ) by {
            lemma_link_element_in_back(front, back, o - n, c - n);
        }
        lemma_no_link_decides(back, from, Seq::empty());
        lemma_no_link_decides(whole, n + from, Seq::empty());
    }
}

/// An opening tag that begins before a `<` ends before it.
pub proof fn lemma_open_tag_ends_before(text: Seq<char>, mark: int, at: int)
    requires
        0 <= mark < text.len(),
        text[mark] == '<',
        occurs_at(text, "<link>"@, at),
        at < mark,
    ensures
        at + 6 <= mark,
{
    reveal_strlit("<link>");
    if at + 6 > mark {
        assert(text.subrange(at, at + 6)[mark - at] == text[mark]);
    }
}

/// A closing tag that begins before a `<` ends before it.
pub proof fn lemma_close_tag_ends_before(text: Seq<char>, mark: int, at: int)
    requires
        0 <= mark < text.len(),
        text[mark] == '<',
        occurs_at(text, "</link>"@, at),
        at < mark,
    ensures
        at + 7 <= mark,
{
    reveal_strlit("</link>");
    if at + 7 > mark {
        assert(text.subrange(at, at + 7)[mark - at] == text[mark]);
    }
}

/// `body` can stand as the content of a `link` element: it holds no line
/// feed and no closing tag.
pub open spec fn plain_body(body: Seq<char>) -> bool {
    &&& forall|k: int| 0 <= k < body.len() ==> #[trigger] body[k] != '\n'
    &&& !contains(body, "</link>"@)
}

/// `whole` begins with the part of `text` from `from` up to `open`, and
/// goes on with the `link` element whose content is `body`.
pub open spec fn spliced(whole: Seq<char>, text: Seq<char>, from: int, open: int, body: Seq<char>) -> bool {
    let g = open - from;
    let b = body.len() as int;
    &&& 0 <= from <= open <= text.len()
    &&& g + 6 + b + 7 <= whole.len()
    &&& whole.subrange(0, g) == text.subrange(from, open)
    &&& whole.subrange(g, g + 6) == "<link>"@
    &&& whole.subrange(g + 6, g + 6 + b) == body
    &&& whole.subrange(g + 6 + b, g + 6 + b + 7) == "</link>"@
}

/// What the two tags are made of.
pub proof fn lemma_tags()
    ensures
        "<link>"@.len() == 6,
        "</link>"@.len() == 7,
        "<link>"@[0] == '<',
        "</link>"@[0] == '<',
        forall|k: int| 0 <= k < 6 ==> #[trigger] "<link>"@[k] != '\n',
{
    reveal_strlit("<link>");
    reveal_strlit("</link>");
}

/// The new element stands in the spliced text.
pub proof fn lemma_new_element_stands(
    whole: Seq<char>,
    text: Seq<char>,
    from: int,
    open: int,
    body: Seq<char>,
)
    requires
        spliced(whole, text, from, open, body),
        plain_body(body),
    ensures
        link_element(whole, open - from, open - from + 6 + body.len()),
{
    lemma_tags();
    let g = open - from;
    let b = body.len() as int;
    assert(whole[g + 6 + b] == whole.subrange(g + 6 + b, g + 6 + b + 7)[0]);
    assert forall|k: int| g + 6 <= k < g + 6 + b implies !occurs_at(whole, "</link>"@, k) by {
        if occurs_at(whole, "</link>"@, k) {
            lemma_close_tag_ends_before(whole, g + 6 + b, k);
            assert(whole.subrange(k, k + 7) == whole.subrange(g + 6, g + 6 + b).subrange(
                k - g - 6,
                k - g - 6 + 7,
            ));
            assert(occurs_at(body, "</link>"@, k - g - 6));
        }
    }
    assert forall|k: int| g + 6 <= k < g + 6 + b implies #[trigger] whole[k] != '\n' by {
        assert(whole[k] == whole.subrange(g + 6, g + 6 + b)[k - g - 6]);
    }
}

/// An element of the spliced text that begins and ends before the new one
/// is an element of the text it was made from.
pub proof fn lemma_element_before(
    whole: Seq<char>,
    text: Seq<char>,
    from: int,
    open: int,
    body: Seq<char>,
    o: int,
    c: int,
)
    requires
        spliced(whole, text, from, open, body),
        link_element(whole, o, c),
        0 <= o,
        o + 6 <= open - from,
        c + 7 <= open - from,
    ensures
        link_element(text, from + o, from + c),
{
    lemma_tags();
    let g = open - from;
    assert(whole.subrange(o, o + 6) == whole.subrange(0, g).subrange(o, o + 6));
    assert(text.subrange(from + o, from + o + 6) == text.subrange(from, open).subrange(o, o + 6));
    assert(whole.subrange(c, c + 7) == whole.subrange(0, g).subrange(c, c + 7));
    assert(text.subrange(from + c, from + c + 7) == text.subrange(from, open).subrange(c, c + 7));
    assert forall|k: int| from + o + 6 <= k < from + c implies !occurs_at(text, "</link>"@, k) by {
        if occurs_at(text, "</link>"@, k) {
            assert(text.subrange(k, k + 7) == text.subrange(from, open).subrange(
                k - from,
                k - from + 7,
            ));
            assert(whole.subrange(k - from, k - from + 7) == whole.subrange(0, g).subrange(
                k - from,
                k - from + 7,
            ));
            assert(occurs_at(whole, "</link>"@, k - from));
        }
    }
    assert forall|k: int| from + o + 6 <= k < from + c implies #[trigger] text[k] != '\n' by {
        assert(whole[k - from] != '\n');
        assert(whole[k - from] == whole.subrange(0, g)[k - from]);
        assert(text[k] == text.subrange(from, open)[k - from]);
    }
}

/// An opening tag of the spliced text before the new element, with no line
/// feed up to the new element, opens an element of the text it was made
/// from, where an element follows there.
pub proof fn lemma_element_across(
    whole: Seq<char>,
    text: Seq<char>,
    from: int,
    open: int,
    close: int,
    body: Seq<char>,
    o: int,
) -> (first: int)
    requires
        spliced(whole, text, from, open, body),
        link_element(text, open, close),
        occurs_at(whole, "<link>"@, o),
        0 <= o,
        o + 6 <= open - from,
        forall|k: int| o + 6 <= k < open - from ==> #[trigger] whole[k] != '\n',
    ensures
        link_element(text, from + o, first),
{
    lemma_tags();
    let g = open - from;
    assert(whole.subrange(o, o + 6) == whole.subrange(0, g).subrange(o, o + 6));
    assert(text.subrange(from + o, from + o + 6) == text.subrange(from, open).subrange(o, o + 6));
    let first = lemma_first_occurrence_exists(text, "</link>"@, from + o + 6, close);
    assert forall|k: int| from + o + 6 <= k < first implies #[trigger] text[k] != '\n' by {
        if k < open {
            assert(whole[k - from] != '\n');
            assert(whole[k - from] == whole.subrange(0, g)[k - from]);
            assert(text[k] == text.subrange(from, open)[k - from]);
        } else if k < open + 6 {
            assert(text.subrange(open, open + 6)[k - open] == text[k]);
        }
    }
    first
}

/// In the spliced text the new element is the first one, where the text it
/// was made from has its first element at `open`.
pub proof fn lemma_new_element_is_first(
    whole: Seq<char>,
    text: Seq<char>,
    from: int,
    open: int,
    close: int,
    body: Seq<char>,
)
    requires
        spliced(whole, text, from, open, body),
        first_link_element(text, from, open, close),
        plain_body(body),
    ensures
        first_link_element(whole, 0, open - from, open - from + 6 + body.len()),
{
    lemma_tags();
    let g = open - from;
    lemma_new_element_stands(whole, text, from, open, body);
    assert(whole[g] == whole.subrange(g, g + 6)[0]);
    assert forall|o: int, c: int| 0 <= o < g implies !#[trigger] link_element(whole, o, c) by {
        if link_element(whole, o, c) {
            lemma_open_tag_ends_before(whole, g, o);
            if c < g {
                lemma_close_tag_ends_before(whole, g, c);
                lemma_element_before(whole, text, from, open, body, o, c);
                assert(link_element(text, from + o, from + c));
            } else {
                let first = lemma_element_across(whole, text, from, open, close, body, o);
                assert(link_element(text, from + o, first));
            }
        }
    }
}

/// Where a `link` element begins at `from` or later, there is a first one.
pub proof fn lemma_first_link_exists(text: Seq<char>, from: int, o: int, c: int) -> (first: (
    int,
    int,
))
    requires
        from <= o,
        link_element(text, o, c),
    ensures
        first_link_element(text, from, first.0, first.1),
    decreases o - from,
{
    if from == o {
        (o, c)
    } else if exists|close: int| link_element(text, from, close) {
        let close = choose|close: int| link_element(text, from, close);
        (from, close)
    } else {
        let first = lemma_first_link_exists(text, from + 1, o, c);
        assert forall|o2: int, c2: int| from <= o2 < first.0 implies !#[trigger] link_element(
            text,
            o2,
            c2,
        ) by {
            if o2 == from && link_element(text, o2, c2) {
                assert(link_element(text, from, c2));
            }
        }
        first
    }
}

/// After the replacement every `link` element holds the new content: the
/// feed has as many elements as before, from `from` on, and the content of
/// each is `body`.
pub proof fn lemma_replaced_links_from(text: Seq<char>, from: int, body: Seq<char>)
    requires
        0 <= from <= text.len(),
        plain_body(body),
    ensures
        link_bodies(links_replaced_from(text, from, body)) == Seq::new(
            link_bodies_from(text, from).len(),
            |i: int| body,
        ),
    decreases text.len() - from,
{
    lemma_tags();
    let whole = links_replaced_from(text, from, body);
    if exists|open: int, close: int| first_link_element(text, from, open, close) {
        let (open, close) = choose|open: int, close: int|
            first_link_element(text, from, open, close);
        lemma_first_link_decides(text, from, open, close, body);
        let rest = links_replaced_from(text, close + 7, body);
        let front = text.subrange(from, open) + "<link>"@ + body + "</link>"@;
        let g = open - from;
        let b = body.len() as int;
        assert(whole == front + rest);
        assert(whole.subrange(0, g) == text.subrange(from, open));
        assert(whole.subrange(g, g + 6) == "<link>"@);
        assert(whole.subrange(g + 6, g + 6 + b) == body);
        assert(whole.subrange(g + 6 + b, g + 6 + b + 7) == "</link>"@);
        lemma_new_element_is_first(whole, text, from, open, close, body);
        lemma_first_link_decides(whole, 0, g, g + 6 + b, body);
        lemma_link_bodies_in_back(front, rest, 0);
        lemma_replaced_links_from(text, close + 7, body);
        let fewer = link_bodies_from(text, close + 7).len();
        assert(link_bodies(whole) == seq![body] + Seq::new(fewer, |i: int| body));
        assert(seq![body] + Seq::new(fewer, |i: int| body) =~= Seq::new(
            fewer + 1,
            |i: int| body,
        ));
    } else {
        assert forall|o: int, c: int| from <= o implies !#[trigger] link_element(text, o, c) by {
            if link_element(text, o, c) {
                let first = lemma_first_link_exists(text, from, o, c);
            }
        }
        lemma_no_link_decides(text, from, body);
        assert(whole == text.skip(from));
        assert(text == text.take(from) + text.skip(from));
        assert forall|o: int, c: int| 0 <= o implies !#[trigger] link_element(whole, o, c) by {
            if link_element(whole, o, c) {
                lemma_link_element_in_back(text.take(from), text.skip(from), o, c);
                let first = lemma_first_link_exists(text, from, from + o, from + c);
            }
        }
        lemma_no_link_decides(whole, 0, body);
        assert(link_bodies(whole) =~= Seq::new(0, |i: int| body));
    }
}

/// However many `link` elements a feed has and whatever they hold, after
/// the replacement it has as many, and each holds the new content, where
/// that content is plain: without a line feed and without a closing tag.
pub proof fn lemma_every_link_holds_the_body(text: Seq<char>, body: Seq<char>)
    requires
        plain_body(body),
    ensures
        link_bodies(links_replaced(text, body)) == Seq::new(
            link_bodies(text).len(),
            |i: int| body,
        ),
{
    lemma_replaced_links_from(text, 0, body);
}

} // verus!
