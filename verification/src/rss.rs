//! Rewriting of a feed: the address of every forwardable enclosure is
//! replaced by a link to the forwarding endpoint that carries the address,
//! and the content of every `link` element by the address of the podcast's
//! web site.

use vstd::prelude::*;
use vstd::string::StringExecFns;
use crate::escape::{escape_markup, escaped};
use crate::markup::{
    enclosure_urls, extract_enclosures, extract_link_bodies, link_bodies, links_replaced,
    replace_links,
};
use crate::link_laws::{lemma_every_link_holds_the_body, plain_body};
use crate::markup::{lemma_no_link_decides, no_link_element};
use crate::text::{
    chars_of, joined, lemma_every_occurrence_replaced, replace_all, replaced, same_chars, split_by,
    string_of, views,
};
use crate::weburl::{
    audio_path, forwardable, pair_fits, parsed_url, path_fits, url_query_pairs, url_views,
    url_with_path, url_with_query_pair, web_scheme, Url, UrlParts,
};

verus! {

/// `url` with `prefix` put before its path: the URL that is read again
/// from the serialization that the change leaves.  Where that serialization
/// is no URL, `url` stays as it is.
pub open spec fn prefixed(url: UrlParts, prefix: Seq<char>) -> UrlParts {
    match parsed_url(url_with_path(url.href, prefix + url.path)) {
        Some(moved) => moved,
        None => url,
    }
}

/// The address at the forwarding endpoint `base` with the path of
/// `original`.  There is none where the change would pass what the `url`
/// crate can count, or leaves no URL.
pub open spec fn placed_url(original: UrlParts, base: UrlParts) -> Option<UrlParts> {
    if path_fits(base.href, original.path) {
        parsed_url(url_with_path(base.href, original.path))
    } else {
        None
    }
}

/// `placed` with `prefix` before its path, where one is given.
pub open spec fn moved_url(placed: UrlParts, prefix: Option<Seq<char>>) -> Option<UrlParts> {
    match prefix {
        Some(p) => if path_fits(placed.href, p + placed.path) {
            parsed_url(url_with_path(placed.href, p + placed.path))
        } else {
            None
        },
        None => Some(placed),
    }
}

/// `moved` with the whole of `original` as the value of the query parameter
/// `ref`.
pub open spec fn referring_url(moved: UrlParts, original: UrlParts) -> Option<UrlParts> {
    if pair_fits(moved.href, "ref"@, original.href) {
        parsed_url(url_with_query_pair(moved.href, "ref"@, original.href))
    } else {
        None
    }
}

/// The address at the forwarding endpoint `base` with the path of
/// `original`, behind `prefix` where one is given.
pub open spec fn target_url(original: UrlParts, base: UrlParts, prefix: Option<Seq<char>>) -> Option<
    UrlParts,
> {
    match placed_url(original, base) {
        Some(placed) => moved_url(placed, prefix),
        None => None,
    }
}

/// The address at the forwarding endpoint `base` that stands for
/// `original`: the path of `original`, behind `prefix` where one is given,
/// and the whole of `original` as the value of the query parameter `ref`.
/// There is none where a change on the way would pass what the `url` crate
/// can count, or leaves no URL.
pub open spec fn forward_url(original: UrlParts, base: UrlParts, prefix: Option<Seq<char>>) -> Option<
    UrlParts,
> {
    match target_url(original, base, prefix) {
        Some(moved) => referring_url(moved, original),
        None => None,
    }
}

/// `linked` has the pairs of `moved` and, behind them, `ref` with the
/// serialization of `original`.
pub open spec fn carries_reference(linked: UrlParts, moved: UrlParts, original: UrlParts) -> bool {
    url_query_pairs(linked.href) == url_query_pairs(moved.href).push(("ref"@, original.href))
}

/// The forwarding address for `original`, escaped for markup.
pub open spec fn forward_link(original: UrlParts, base: UrlParts, prefix: Option<Seq<char>>) -> Option<
    Seq<char>,
> {
    match forward_url(original, base, prefix) {
        Some(url) => Some(escaped(url.href)),
        None => None,
    }
}

/// What the address `literal`, as it stands in a feed, is replaced by: the
/// forwarding link of the URL it denotes, if it denotes a forwardable one.
pub open spec fn rewrite_of(literal: Seq<char>, base: UrlParts, prefix: Option<Seq<char>>) -> Option<
    Seq<char>,
> {
    match parsed_url(literal) {
        Some(url) => if forwardable(url) {
            forward_link(url, base, prefix)
        } else {
            None
        },
        None => None,
    }
}

/// The forwardable URLs among `candidates`, in their order.
pub open spec fn forwardable_urls(candidates: Seq<Seq<char>>) -> Seq<UrlParts>
    decreases candidates.len(),
{
    if candidates.len() == 0 {
        Seq::empty()
    } else {
        let before = forwardable_urls(candidates.drop_last());
        match parsed_url(candidates.last()) {
            Some(url) => if forwardable(url) {
                before.push(url)
            } else {
                before
            },
            None => before,
        }
    }
}

/// Only forwardable URLs are kept: each URL that is kept is fetched over
/// HTTP, has a path that ends in `mp3` or `aac`, and is what one of the
/// candidates denotes.
pub proof fn lemma_only_forwardable_kept(candidates: Seq<Seq<char>>)
    ensures
        forall|i: int|
            0 <= i < forwardable_urls(candidates).len() ==> {
                let url = #[trigger] forwardable_urls(candidates)[i];
                &&& web_scheme(url.scheme)
                &&& audio_path(url.path)
                &&& exists|k: int|
                    0 <= k < candidates.len() && parsed_url(#[trigger] candidates[k]) == Some(url)
            },
    decreases candidates.len(),
{
    if candidates.len() > 0 {
        let shorter = candidates.drop_last();
        lemma_only_forwardable_kept(shorter);
        let before = forwardable_urls(shorter);
        assert forall|i: int| 0 <= i < forwardable_urls(candidates).len() implies {
            let url = #[trigger] forwardable_urls(candidates)[i];
            &&& web_scheme(url.scheme)
            &&& audio_path(url.path)
            &&& exists|k: int|
                0 <= k < candidates.len() && parsed_url(#[trigger] candidates[k]) == Some(url)
        } by {
            let url = forwardable_urls(candidates)[i];
            if i < before.len() {
                assert(url == before[i]);
                let k = choose|k: int|
                    0 <= k < shorter.len() && parsed_url(#[trigger] shorter[k]) == Some(url);
                assert(candidates[k] == shorter[k]);
            } else {
                assert(parsed_url(candidates[candidates.len() - 1]) == Some(url));
            }
        }
    }
}

/// An address is rewritten only if it denotes a forwardable URL: one with
/// any other scheme, or none, or a path with another ending, stays.
pub proof fn lemma_rewrite_needs_forwardable(
    literal: Seq<char>,
    base: UrlParts,
    prefix: Option<Seq<char>>,
)
    requires
        rewrite_of(literal, base, prefix) is Some,
    ensures
        parsed_url(literal) is Some,
        web_scheme(parsed_url(literal)->0.scheme),
        audio_path(parsed_url(literal)->0.path),
{
}

/// Every key of the table of replacements is a candidate that denotes a
/// forwardable URL, and no key stands twice.
pub proof fn lemma_table_keys(candidates: Seq<Seq<char>>, base: UrlParts, prefix: Option<Seq<char>>)
    ensures
        forall|i: int|
            0 <= i < rewrite_table(candidates, base, prefix).len() ==> {
                let entry = #[trigger] rewrite_table(candidates, base, prefix)[i];
                &&& candidates.contains(entry.0)
                &&& rewrite_of(entry.0, base, prefix) == Some(entry.1)
            },
        forall|i: int, j: int|
            0 <= i < j < rewrite_table(candidates, base, prefix).len() ==> (
            #[trigger] rewrite_table(candidates, base, prefix)[i]).0 != (#[trigger] rewrite_table(
                candidates,
                base,
                prefix,
            )[j]).0,
    decreases candidates.len(),
{
    if candidates.len() > 0 {
        let shorter = candidates.drop_last();
        lemma_table_keys(shorter, base, prefix);
        let before = rewrite_table(shorter, base, prefix);
        let table = rewrite_table(candidates, base, prefix);
        assert forall|i: int| 0 <= i < table.len() implies {
            let entry = #[trigger] table[i];
            &&& candidates.contains(entry.0)
            &&& rewrite_of(entry.0, base, prefix) == Some(entry.1)
        } by {
            if i < before.len() {
                assert(table[i] == before[i]);
                let k = choose|k: int| 0 <= k < shorter.len() && shorter[k] == before[i].0;
                assert(candidates[k] == shorter[k]);
            } else {
                assert(candidates[candidates.len() - 1] == table[i].0);
            }
        }
        assert forall|i: int, j: int| 0 <= i < j < table.len() implies (#[trigger] table[i]).0 != (
        #[trigger] table[j]).0 by {
            if j < before.len() {
                assert(table[i] == before[i] && table[j] == before[j]);
            } else {
                assert(table[i] == before[i]);
                if table[i].0 == table[j].0 {
                    assert(has_key(before, candidates.last()));
                }
            }
        }
    }
}

/// `table` has an entry for `key`.
pub open spec fn has_key(table: Seq<(Seq<char>, Seq<char>)>, key: Seq<char>) -> bool {
    exists|i: int| 0 <= i < table.len() && (#[trigger] table[i]).0 == key
}

/// The table of replacements for `candidates`: one entry for each address
/// that is rewritten, in the order in which the addresses first occur.
pub open spec fn rewrite_table(
    candidates: Seq<Seq<char>>,
    base: UrlParts,
    prefix: Option<Seq<char>>,
) -> Seq<(Seq<char>, Seq<char>)>
    decreases candidates.len(),
{
    if candidates.len() == 0 {
        Seq::empty()
    } else {
        let before = rewrite_table(candidates.drop_last(), base, prefix);
        let literal = candidates.last();
        match rewrite_of(literal, base, prefix) {
            Some(link) => if has_key(before, literal) {
                before
            } else {
                before.push((literal, link))
            },
            None => before,
        }
    }
}

/// `text` after the replacements of `table`, made one after the other, each
/// on the whole text and at every occurrence.
pub open spec fn applied(text: Seq<char>, table: Seq<(Seq<char>, Seq<char>)>) -> Seq<char>
    decreases table.len(),
{
    if table.len() == 0 {
        text
    } else {
        replaced(applied(text, table.drop_last()), table.last().0, table.last().1)
    }
}

/// What a replacer is made of.
pub struct ReplacerParts {
    /// The address of the podcast's web site.
    pub link_url: UrlParts,
    /// The address of the forwarding endpoint.
    pub forward_url: UrlParts,
    /// What is put before the path of every forwarded address.
    pub path_prefix: Option<Seq<char>>,
}

/// The feed `text` as `replacer` rewrites it.
pub open spec fn rewritten(text: Seq<char>, replacer: ReplacerParts) -> Seq<char> {
    links_replaced(forwarded(text, replacer), replacer.link_url.href)
}

/// The feed `text` after its addresses were replaced, before its `link`
/// elements are.
pub open spec fn forwarded(text: Seq<char>, replacer: ReplacerParts) -> Seq<char> {
    applied(text, rewrite_table(enclosure_urls(text), replacer.forward_url, replacer.path_prefix))
}

/// However many `link` elements the feed has and whatever they hold, in
/// the rewritten feed each holds the address of the web site, where that
/// address is written without a line feed and without a closing tag.
pub proof fn lemma_links_hold_the_site(text: Seq<char>, replacer: ReplacerParts)
    requires
        plain_body(replacer.link_url.href),
    ensures
        link_bodies(rewritten(text, replacer)) == Seq::new(
            link_bodies(forwarded(text, replacer)).len(),
            |i: int| replacer.link_url.href,
        ),
{
    lemma_every_link_holds_the_body(forwarded(text, replacer), replacer.link_url.href);
}

/// Every occurrence of a rewritten address is replaced, and each by the
/// same link: where the feed gives one address to rewrite, and is made of
/// pieces with that address between them and nowhere else, the feed after
/// the replacement is the same pieces with the link between them.  Where
/// that holds no `link` element, it is the rewritten feed.
pub proof fn lemma_address_replaced_everywhere(
    parts: Seq<Seq<char>>,
    key: Seq<char>,
    link: Seq<char>,
    replacer: ReplacerParts,
)
    requires
        key.len() > 0,
        split_by(parts, key),
        rewrite_table(
            enclosure_urls(joined(parts, key)),
            replacer.forward_url,
            replacer.path_prefix,
        ) == seq![(key, link)],
    ensures
        forwarded(joined(parts, key), replacer) == joined(parts, link),
        no_link_element(joined(parts, link), 0) ==> rewritten(joined(parts, key), replacer)
            == joined(parts, link),
{
    let text = joined(parts, key);
    let table = seq![(key, link)];
    assert(table.drop_last() == Seq::<(Seq<char>, Seq<char>)>::empty());
    assert(applied(text, table.drop_last()) == text);
    assert(applied(text, table) == replaced(text, key, link));
    lemma_every_occurrence_replaced(parts, key, link);
    if no_link_element(joined(parts, link), 0) {
        lemma_no_link_decides(joined(parts, link), 0, replacer.link_url.href);
        assert(joined(parts, link).skip(0) == joined(parts, link));
    }
}

/// The views of a table of replacements.
pub open spec fn table_view(table: Seq<(Vec<char>, Vec<char>)>) -> Seq<(Seq<char>, Seq<char>)> {
    table.map_values(|entry: (Vec<char>, Vec<char>)| (entry.0@, entry.1@))
}

/// Puts `prefix` before the path of `url`: with the prefix `/r`, the path
/// `/podcast.mp3` becomes `/r/podcast.mp3`.
///
/// The URL and the prefix must be short enough for the `url` crate to count
/// the positions of the result.
pub fn set_prefix<'a>(url: &'a mut Url, prefix: &str) -> (out: &'a mut Url)
    requires
        path_fits(old(url)@.href, prefix@ + old(url)@.path),
    ensures
        (*out)@ == prefixed(old(url)@, prefix@),
        *final(url) == *final(out),
{
    let mut path = String::from_str(prefix);
    path.append(url.path());
    match url.with_path(path.as_str()) {
        Some(next) => {
            *url = next;
        },
        None => {},
    }
    url
}

/// Rewrites the enclosures and the `link` elements of a feed.
pub struct Replacer {
    link_url: Url,
    forward_url: Url,
    path_prefix: Option<String>,
}

impl View for Replacer {
    type V = ReplacerParts;

    closed spec fn view(&self) -> ReplacerParts {
        ReplacerParts {
            link_url: self.link_url@,
            forward_url: self.forward_url@,
            path_prefix: match self.path_prefix {
                Some(p) => Some(p@),
                None => None,
            },
        }
    }
}

impl Replacer {
    /// A replacer for the forwarding endpoint at `forward_url`, which puts
    /// `path_prefix` before the path of every forwarded address and writes
    /// `link_url` into every `link` element.
    pub fn new(link_url: Url, forward_url: Url, path_prefix: Option<&str>) -> (replacer: Replacer)
        ensures
            replacer@ == (ReplacerParts {
                link_url: link_url@,
                forward_url: forward_url@,
                path_prefix: match path_prefix {
                    Some(p) => Some(p@),
                    None => None,
                },
            }),
    {
        let path_prefix = match path_prefix {
            Some(p) => Some(p.to_owned()),
            None => None,
        };
        Replacer { link_url, forward_url, path_prefix }
    }

    /// The address of the podcast's web site.
    pub fn link_url(&self) -> (url: &Url)
        ensures
            url@ == self@.link_url,
    {
        &self.link_url
    }

    /// The address of the forwarding endpoint.
    pub fn forward_url(&self) -> (url: &Url)
        ensures
            url@ == self@.forward_url,
    {
        &self.forward_url
    }

    /// The addresses of the enclosures of `input`, as they stand there, in
    /// their order.
    pub fn extract(&self, input: &str) -> (out: Vec<String>)
        ensures
            views(out@) == enclosure_urls(input@),
    {
        let text = chars_of(input);
        extract_enclosures(text.as_slice())
    }

    /// The contents of the `link` elements of `input`, in their order.
    pub fn extract_links(&self, input: &str) -> (out: Vec<String>)
        ensures
            views(out@) == link_bodies(input@),
    {
        let text = chars_of(input);
        extract_link_bodies(text.as_slice())
    }

    /// The forwardable URLs among `candidates`, in their order.
    pub fn filter_forwardable(candidates: &Vec<String>) -> (out: Vec<Url>)
        ensures
            url_views(out@) == forwardable_urls(views(candidates@)),
            forall|i: int| 0 <= i < out@.len() ==> forwardable(#[trigger] out@[i]@),
    {
        let mut out: Vec<Url> = Vec::new();
        let mut i: usize = 0;
        assert(url_views(out@) =~= Seq::<UrlParts>::empty());
        assert(views(candidates@).take(0) =~= Seq::<Seq<char>>::empty());
        while i < candidates.len()
            invariant
                i <= candidates@.len(),
                url_views(out@) == forwardable_urls(views(candidates@).take(i as int)),
                forall|k: int| 0 <= k < out@.len() ==> forwardable(#[trigger] out@[k]@),
            decreases candidates.len() - i,
        {
            let ghost before = url_views(out@);
            assert(views(candidates@).take(i + 1).drop_last() =~= views(candidates@).take(i as int));
            assert(views(candidates@).take(i + 1).last() == candidates@[i as int]@);
            match Url::parse(candidates[i].as_str()) {
                Some(url) => {
                    if url.is_forwardable() {
                        out.push(url);
                        assert(url_views(out@) =~= before.push(url@));
                    }
                },
                None => {},
            }
            i += 1;
        }
        assert(views(candidates@).take(candidates@.len() as int) =~= views(candidates@));
        out
    }

    /// The forwardable URLs that the enclosures of `input` give, in their
    /// order: those fetched over HTTP whose path ends in `mp3` or `aac`.
    pub fn extract_mp3s(&self, input: &str) -> (out: Vec<Url>)
        ensures
            url_views(out@) == forwardable_urls(enclosure_urls(input@)),
            forall|i: int| 0 <= i < out@.len() ==> forwardable(#[trigger] out@[i]@),
    {
        let candidates = self.extract(input);
        Self::filter_forwardable(&candidates)
    }

    /// `input` with the content of every `link` element replaced by the
    /// address of the podcast's web site.
    pub fn replace_links(&self, input: &str) -> (out: String)
        ensures
            out@ == links_replaced(input@, self@.link_url.href),
    {
        let text = chars_of(input);
        let body = chars_of(self.link_url.as_str());
        let out = replace_links(text.as_slice(), body.as_slice());
        string_of(out.as_slice())
    }

    /// The address at the forwarding endpoint that stands for `original`.
    /// It carries the serialization of `original` as the last pair of its
    /// query, under the name `ref`.  There is none where a change on the way
    /// would pass what the `url` crate can count, or leaves no URL.
    pub fn forward_address(&self, original: &Url) -> (out: Option<Url>)
        ensures
            match forward_url(original@, self@.forward_url, self@.path_prefix) {
                Some(linked) => out is Some && out->0@ == linked && carries_reference(
                    linked,
                    target_url(original@, self@.forward_url, self@.path_prefix)->0,
                    original@,
                ),
                None => out is None,
            },
    {
        if !self.forward_url.path_fits_in(original.path()) {
            return None;
        }
        let mut placed = match self.forward_url.with_path(original.path()) {
            Some(placed) => placed,
            None => {
                return None;
            },
        };
        match &self.path_prefix {
            Some(prefix) => {
                let mut path = String::from_str(prefix.as_str());
                path.append(placed.path());
                if !placed.path_fits_in(path.as_str()) {
                    return None;
                }
                placed = match placed.with_path(path.as_str()) {
                    Some(moved) => moved,
                    None => {
                        return None;
                    },
                };
            },
            None => {},
        }
        if !placed.pair_fits_in("ref", original.as_str()) {
            return None;
        }
        placed.with_query_pair("ref", original.as_str())
    }

    /// The link to the forwarding endpoint that stands for `original`: its
    /// address there, escaped for markup.
    pub fn build_forward(&self, original: &Url) -> (out: Option<String>)
        ensures
            match out {
                Some(link) => forward_link(original@, self@.forward_url, self@.path_prefix)
                    == Some(link@),
                None => forward_link(original@, self@.forward_url, self@.path_prefix) is None,
            },
    {
        match self.forward_address(original) {
            Some(url) => Some(escape_markup(url.as_str())),
            None => None,
        }
    }

    /// What the address `literal` of a feed is replaced by, if it is
    /// replaced.
    pub fn rewrite(&self, literal: &str) -> (out: Option<String>)
        ensures
            match out {
                Some(link) => rewrite_of(literal@, self@.forward_url, self@.path_prefix) == Some(
                    link@,
                ),
                None => rewrite_of(literal@, self@.forward_url, self@.path_prefix) is None,
            },
    {
        match Url::parse(literal) {
            Some(url) => {
                if url.is_forwardable() {
                    self.build_forward(&url)
                } else {
                    None
                }
            },
            None => None,
        }
    }

    /// The table of replacements for the addresses `candidates`.
    fn table_for(&self, candidates: &Vec<String>) -> (table: Vec<(Vec<char>, Vec<char>)>)
        ensures
            table_view(table@) == rewrite_table(
                views(candidates@),
                self@.forward_url,
                self@.path_prefix,
            ),
    {
        let mut table: Vec<(Vec<char>, Vec<char>)> = Vec::new();
        let mut i: usize = 0;
        assert(table_view(table@) =~= Seq::<(Seq<char>, Seq<char>)>::empty());
        assert(views(candidates@).take(0) =~= Seq::<Seq<char>>::empty());
        while i < candidates.len()
            invariant
                i <= candidates@.len(),
                table_view(table@) == rewrite_table(
                    views(candidates@).take(i as int),
                    self@.forward_url,
                    self@.path_prefix,
                ),
            decreases candidates.len() - i,
        {
            let ghost before = table_view(table@);
            assert(views(candidates@).take(i + 1).drop_last() =~= views(candidates@).take(i as int));
            assert(views(candidates@).take(i + 1).last() == candidates@[i as int]@);
            match self.rewrite(candidates[i].as_str()) {
                Some(link) => {
                    let key = chars_of(candidates[i].as_str());
                    if !holds_key(&table, key.as_slice()) {
                        let value = chars_of(link.as_str());
                        table.push((key, value));
                        assert(table_view(table@) =~= before.push((key@, value@)));
                    }
                },
                None => {},
            }
            i += 1;
        }
        assert(views(candidates@).take(candidates@.len() as int) =~= views(candidates@));
        table
    }

    /// The feed `input` rewritten: every occurrence of the address of a
    /// forwardable enclosure is replaced by its forwarding link, and the
    /// content of every `link` element by the address of the podcast's web
    /// site.
    pub fn replace(&self, input: String) -> (out: String)
        ensures
            out@ == rewritten(input@, self@),
    {
        let text = chars_of(input.as_str());
        let candidates = extract_enclosures(text.as_slice());
        let table = self.table_for(&candidates);
        let document = apply_table(text, &table);
        let body = chars_of(self.link_url.as_str());
        let out = replace_links(document.as_slice(), body.as_slice());
        string_of(out.as_slice())
    }
}

/// Whether `table` has an entry for `key`.
fn holds_key(table: &Vec<(Vec<char>, Vec<char>)>, key: &[char]) -> (found: bool)
    ensures
        found == has_key(table_view(table@), key@),
{
    let mut i: usize = 0;
    while i < table.len()
        invariant
            i <= table@.len(),
            forall|k: int| 0 <= k < i ==> (#[trigger] table_view(table@)[k]).0 != key@,
        decreases table.len() - i,
    {
        if same_chars(table[i].0.as_slice(), key) {
            assert(table_view(table@)[i as int].0 == key@);
            return true;
        }
        i += 1;
    }
    false
}

/// `text` after the replacements of `table`, made one after the other.
fn apply_table(text: Vec<char>, table: &Vec<(Vec<char>, Vec<char>)>) -> (out: Vec<char>)
    ensures
        out@ == applied(text@, table_view(table@)),
{
    let mut document = text;
    let mut i: usize = 0;
    assert(table_view(table@).take(0) =~= Seq::<(Seq<char>, Seq<char>)>::empty());
    while i < table.len()
        invariant
            i <= table@.len(),
            document@ == applied(text@, table_view(table@).take(i as int)),
        decreases table.len() - i,
    {
        assert(table_view(table@).take(i + 1).drop_last() =~= table_view(table@).take(i as int));
        assert(table_view(table@).take(i + 1).last() == (table@[i as int].0@, table@[i as int].1@));
        document = replace_all(document.as_slice(), table[i].0.as_slice(), table[i].1.as_slice());
        i += 1;
    }
    assert(table_view(table@).take(table@.len() as int) =~= table_view(table@));
    document
}

} // verus!
