use vstd::prelude::*;

use crate::location::{joined, uri_join, BaseUri};
use crate::text::same_text;

verus! {

/// An element of a parsed feed document: its name, its attributes in
/// document order, and its child elements.
pub struct FeedElement {
    pub name: String,
    pub attributes: Vec<(String, String)>,
    pub children: Vec<FeedElement>,
}

/// The texts that a list of strings holds.
pub open spec fn texts(v: Seq<String>) -> Seq<Seq<char>> {
    v.map_values(|s: String| s@)
}

/// The value of the first attribute named `key`, from position `i` on.
pub open spec fn attr_from(attrs: Seq<(String, String)>, key: Seq<char>, i: int) -> Option<
    Seq<char>,
>
    decreases attrs.len() - i,
{
    if i < 0 || i >= attrs.len() {
        None
    } else if attrs[i].0@ == key {
        Some(attrs[i].1@)
    } else {
        attr_from(attrs, key, i + 1)
    }
}

pub open spec fn attr_spec(e: FeedElement, key: Seq<char>) -> Option<Seq<char>> {
    attr_from(e.attributes@, key, 0)
}

/// The `href` of the first `link` child, from position `i` on, whose `rel`
/// is `enclosure` and that has an `href`.
pub open spec fn link_href_from(cs: Seq<FeedElement>, i: int) -> Option<Seq<char>>
    decreases cs.len() - i,
{
    if i < 0 || i >= cs.len() {
        None
    } else if cs[i].name@ == "link"@ && attr_spec(cs[i], "rel"@) == Some("enclosure"@)
        && attr_spec(cs[i], "href"@).is_some() {
        attr_spec(cs[i], "href"@)
    } else {
        link_href_from(cs, i + 1)
    }
}

/// The `url` of the first `content` child, from position `i` on, that has one.
pub open spec fn content_url_from(cs: Seq<FeedElement>, i: int) -> Option<Seq<char>>
    decreases cs.len() - i,
{
    if i < 0 || i >= cs.len() {
        None
    } else if cs[i].name@ == "content"@ && attr_spec(cs[i], "url"@).is_some() {
        attr_spec(cs[i], "url"@)
    } else {
        content_url_from(cs, i + 1)
    }
}

/// The enclosure of a feed item: an enclosure link first, else a content url.
pub open spec fn enclosure_of(item: FeedElement) -> Option<Seq<char>> {
    match link_href_from(item.children@, 0) {
        Some(h) => Some(h),
        None => content_url_from(item.children@, 0),
    }
}

/// The URL, if any, that an item leads to.
pub open spec fn item_url(item: FeedElement, base: BaseUri) -> Seq<Seq<char>> {
    match enclosure_of(item) {
        Some(h) => match joined(base, h) {
            Some(u) => seq![u],
            None => seq![],
        },
        None => seq![],
    }
}

/// The URLs of the elements named `name` among `cs`, in order.
pub open spec fn named_urls(cs: Seq<FeedElement>, name: Seq<char>, base: BaseUri) -> Seq<
    Seq<char>,
>
    decreases cs.len(),
{
    if cs.len() == 0 {
        seq![]
    } else if cs.last().name@ == name {
        named_urls(cs.drop_last(), name, base) + item_url(cs.last(), base)
    } else {
        named_urls(cs.drop_last(), name, base)
    }
}

/// The URLs of the items of each `channel` among `cs`, channel after channel.
pub open spec fn channel_urls(cs: Seq<FeedElement>, base: BaseUri) -> Seq<Seq<char>>
    decreases cs.len(),
{
    if cs.len() == 0 {
        seq![]
    } else if cs.last().name@ == "channel"@ {
        channel_urls(cs.drop_last(), base) + named_urls(cs.last().children@, "item"@, base)
    } else {
        channel_urls(cs.drop_last(), base)
    }
}

/// The URLs that a feed leads to: those of its RSS items, then those of its
/// Atom entries.
pub open spec fn feed_urls(root: FeedElement, base: BaseUri) -> Seq<Seq<char>> {
    channel_urls(root.children@, base) + named_urls(root.children@, "entry"@, base)
}

impl FeedElement {
    /// The value of the first attribute named `key`.
    pub fn attribute(&self, key: &str) -> (r: Option<String>)
        ensures
            match r {
                Some(v) => attr_spec(*self, key@) == Some(v@),
                None => attr_spec(*self, key@) is None,
            },
    {
        let mut i: usize = 0;
        while i < self.attributes.len()
            invariant
                i <= self.attributes@.len(),
                attr_spec(*self, key@) == attr_from(self.attributes@, key@, i as int),
            decreases self.attributes.len() - i,
        {
            if same_text(self.attributes[i].0.as_str(), key) {
                return Some(self.attributes[i].1.clone());
            }
            i = i + 1;
        }
        None
    }
}

/// Picks the enclosure of a feed item: the `href` of the first `link` whose
/// `rel` is `enclosure`; failing that, the `url` of the first `content`.
pub fn item_enclosure(item: &FeedElement) -> (r: Option<String>)
    ensures
        match r {
            Some(v) => enclosure_of(*item) == Some(v@),
            None => enclosure_of(*item) is None,
        },
{
    let cs = &item.children;
    let mut i: usize = 0;
    while i < cs.len()
        invariant
            i <= cs@.len(),
            cs == &item.children,
            link_href_from(cs@, 0) == link_href_from(cs@, i as int),
        decreases cs.len() - i,
    {
        let c = &cs[i];
        if same_text(c.name.as_str(), "link") {
            let rel = c.attribute("rel");
            let href = c.attribute("href");
            match (rel, href) {
                (Some(rel), Some(href)) => {
                    if same_text(rel.as_str(), "enclosure") {
                        assert(link_href_from(cs@, i as int) == Some(href@));
                        return Some(href);
                    }
                },
                _ => {},
            }
        }
        i = i + 1;
    }
    let mut j: usize = 0;
    while j < cs.len()
        invariant
            j <= cs@.len(),
            cs == &item.children,
            link_href_from(cs@, 0) is None,
            content_url_from(cs@, 0) == content_url_from(cs@, j as int),
        decreases cs.len() - j,
    {
        let c = &cs[j];
        if same_text(c.name.as_str(), "content") {
            if let Some(url) = c.attribute("url") {
                assert(content_url_from(cs@, j as int) == Some(url@));
                return Some(url);
            }
        }
        j = j + 1;
    }
    None
}

/// Appends the URL that `item` leads to, if any.
fn push_item_url(out: &mut Vec<String>, item: &FeedElement, base: &BaseUri)
    ensures
        texts(final(out)@) == texts(old(out)@) + item_url(*item, *base),
{
    let ghost before = texts(out@);
    match item_enclosure(item) {
        Some(href) => match uri_join(base, href.as_str()) {
            Some(url) => {
                out.push(url);
                assert(texts(out@) =~= before + item_url(*item, *base));
            },
            None => {
                assert(texts(out@) =~= before + item_url(*item, *base));
            },
        },
        None => {
            assert(texts(out@) =~= before + item_url(*item, *base));
        },
    }
}

/// Appends the URLs of the elements named `name` among `cs`.
fn push_named_urls(out: &mut Vec<String>, cs: &Vec<FeedElement>, name: &str, base: &BaseUri)
    ensures
        texts(final(out)@) == texts(old(out)@) + named_urls(cs@, name@, *base),
{
    let ghost before = texts(out@);
    let mut i: usize = 0;
    assert(before =~= before + named_urls(cs@.subrange(0, 0), name@, *base));
    while i < cs.len()
        invariant
            i <= cs@.len(),
            texts(out@) == before + named_urls(cs@.subrange(0, i as int), name@, *base),
        decreases cs.len() - i,
    {
        let ghost mid = texts(out@);
        assert(cs@.subrange(0, i + 1).drop_last() =~= cs@.subrange(0, i as int));
        if same_text(cs[i].name.as_str(), name) {
            push_item_url(out, &cs[i], base);
            assert(texts(out@) =~= before + named_urls(cs@.subrange(0, i + 1), name@, *base));
        }
        i = i + 1;
    }
    assert(cs@.subrange(0, cs@.len() as int) =~= cs@);
}

/// The URLs that a feed document leads to, in the order they are visited:
/// for each `channel` under the root, the enclosures of its `item`s; then the
/// enclosures of the root's `entry` elements. Relative links are resolved
/// against `base`; items without an enclosure, or whose link cannot be
/// resolved, are passed over.
pub fn feed_enclosures(root: &FeedElement, base: &BaseUri) -> (r: Vec<String>)
    ensures
        texts(r@) == feed_urls(*root, *base),
{
    let mut out: Vec<String> = Vec::new();
    let cs = &root.children;
    let mut i: usize = 0;
    assert(texts(out@) =~= channel_urls(cs@.subrange(0, 0), *base));
    while i < cs.len()
        invariant
            i <= cs@.len(),
            cs == &root.children,
            texts(out@) == channel_urls(cs@.subrange(0, i as int), *base),
        decreases cs.len() - i,
    {
        assert(cs@.subrange(0, i + 1).drop_last() =~= cs@.subrange(0, i as int));
        if same_text(cs[i].name.as_str(), "channel") {
            push_named_urls(&mut out, &cs[i].children, "item", base);
        }
        i = i + 1;
    }
    assert(cs@.subrange(0, cs@.len() as int) =~= cs@);
    push_named_urls(&mut out, cs, "entry", base);
    out
}

/// An item's enclosure link wins over its content url, wherever each
/// stands among the item's children.
pub proof fn lemma_link_wins(item: FeedElement, i: int)
    requires
        0 <= i < item.children@.len(),
        item.children@[i].name@ == "link"@,
        attr_spec(item.children@[i], "rel"@) == Some("enclosure"@),
        attr_spec(item.children@[i], "href"@).is_some(),
    ensures
        enclosure_of(item).is_some(),
        enclosure_of(item) == link_href_from(item.children@, 0),
{
    lemma_link_found(item.children@, 0, i);
}

proof fn lemma_link_found(cs: Seq<FeedElement>, from: int, i: int)
    requires
        0 <= from <= i < cs.len(),
        cs[i].name@ == "link"@,
        attr_spec(cs[i], "rel"@) == Some("enclosure"@),
        attr_spec(cs[i], "href"@).is_some(),
    ensures
        link_href_from(cs, from).is_some(),
    decreases i - from,
{
    if from < i {
        lemma_link_found(cs, from + 1, i);
    }
}

} // verus!
