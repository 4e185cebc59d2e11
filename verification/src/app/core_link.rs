//! CoRE Link Format (RFC 6690) entries that describe discoverable resources, and the
//! `/.well-known/core` response built from them.
use vstd::prelude::*;
use vstd::string::StringExecFns;

use crate::app::assoc::map_of_pairs;
use crate::app::option_value::{decode_string_option, string_option_value};
use crate::app::text::{decimal, join_with, push_char, u32_to_decimal};

verus! {

/// The value of one link attribute.
#[derive(Debug, Clone)]
pub enum LinkAttributeValue {
    /// A text value, always written quoted.
    Text(String),
    /// A number, written in decimal.
    U32(u32),
    /// A content format, written as its numeric code.
    ContentFormat(u32),
    /// A flag without value, written as `key=`.
    Empty,
}

/// Abstract attribute value.
pub enum AttrValueView {
    Text(Seq<char>),
    Number(nat),
    Empty,
}

impl LinkAttributeValue {
    /// The abstract value.
    pub open spec fn view(&self) -> AttrValueView {
        match self {
            LinkAttributeValue::Text(s) => AttrValueView::Text(s@),
            LinkAttributeValue::U32(n) => AttrValueView::Number(*n as nat),
            LinkAttributeValue::ContentFormat(n) => AttrValueView::Number(*n as nat),
            LinkAttributeValue::Empty => AttrValueView::Empty,
        }
    }

    /// The value as text, as compared with the values of a discovery query.
    pub fn format_for_comparison(&self) -> (r: String)
        ensures
            r@ == comparison_text(self.view()),
    {
        match self {
            LinkAttributeValue::Text(s) => s.clone(),
            LinkAttributeValue::U32(n) => u32_to_decimal(*n),
            LinkAttributeValue::ContentFormat(n) => u32_to_decimal(*n),
            LinkAttributeValue::Empty => String::new(),
        }
    }
}

/// A value as text: the text itself, a number in decimal, or nothing.
pub open spec fn comparison_text(v: AttrValueView) -> Seq<char> {
    match v {
        AttrValueView::Text(s) => s,
        AttrValueView::Number(n) => decimal(n),
        AttrValueView::Empty => Seq::empty(),
    }
}

/// `s` with a backslash before every `"` and `\`.
pub open spec fn escape_quoted(s: Seq<char>) -> Seq<char>
    decreases s.len(),
{
    if s.len() == 0 {
        Seq::empty()
    } else if s.last() == '"' || s.last() == '\\' {
        escape_quoted(s.drop_last()).push('\\').push(s.last())
    } else {
        escape_quoted(s.drop_last()).push(s.last())
    }
}

/// One attribute in link format: `;key="text"`, `;key=number` or `;key=`.
pub open spec fn attr_text(key: Seq<char>, v: AttrValueView) -> Seq<char> {
    ";"@ + key + "="@ + match v {
        AttrValueView::Text(s) => "\""@ + escape_quoted(s) + "\""@,
        AttrValueView::Number(n) => decimal(n),
        AttrValueView::Empty => Seq::<char>::empty(),
    }
}

/// The attributes in link format, in order.
pub open spec fn attrs_text(attrs: Seq<(Seq<char>, AttrValueView)>) -> Seq<char>
    decreases attrs.len(),
{
    if attrs.len() == 0 {
        Seq::empty()
    } else {
        attrs_text(attrs.drop_last()) + attr_text(attrs.last().0, attrs.last().1)
    }
}

/// A single link in link format: `<path>` followed by its attributes.
pub open spec fn link_text(path: Seq<char>, attrs: Seq<(Seq<char>, AttrValueView)>) -> Seq<char> {
    "<"@ + path + ">"@ + attrs_text(attrs)
}

/// Abstract form of attribute pairs.
pub open spec fn attr_views(attrs: Seq<(String, LinkAttributeValue)>) -> Seq<(Seq<char>, AttrValueView)> {
    attrs.map_values(|p: (String, LinkAttributeValue)| (p.0@, p.1.view()))
}

/// Appends `s` with a backslash before every double quote and backslash.
fn append_escaped(out: &mut String, s: &str)
    ensures
        final(out)@ == old(out)@ + escape_quoted(s@),
{
    let ghost base = out@;
    let n = s.unicode_len();
    let mut i: usize = 0;
    assert(s@.take(0) =~= Seq::<char>::empty());
    assert(base + escape_quoted(Seq::<char>::empty()) =~= base);
    while i < n
        invariant
            n == s@.len(),
            i <= n,
            out@ == base + escape_quoted(s@.take(i as int)),
        decreases n - i,
    {
        let c = s.get_char(i);
        assert(s@.take(i as int + 1).drop_last() =~= s@.take(i as int));
        assert(s@.take(i as int + 1).last() == c);
        if c == '"' || c == '\\' {
            push_char(out, '\\');
        }
        push_char(out, c);
        assert(out@ =~= base + escape_quoted(s@.take(i as int + 1)));
        i = i + 1;
    }
    assert(s@.take(n as int) =~= s@);
}

/// Appends one attribute in link format.
fn append_attr(out: &mut String, key: &str, value: &LinkAttributeValue)
    ensures
        final(out)@ == old(out)@ + attr_text(key@, value.view()),
{
    let ghost base = out@;
    out.append(";");
    out.append(key);
    out.append("=");
    match value {
        LinkAttributeValue::Text(s) => {
            out.append("\"");
            append_escaped(out, s.as_str());
            out.append("\"");
        },
        LinkAttributeValue::U32(n) => {
            let d = u32_to_decimal(*n);
            out.append(d.as_str());
        },
        LinkAttributeValue::ContentFormat(n) => {
            let d = u32_to_decimal(*n);
            out.append(d.as_str());
        },
        LinkAttributeValue::Empty => {},
    }
    assert(out@ =~= base + attr_text(key@, value.view()));
}

/// A resource's path and the attributes announced for it by resource discovery.
#[derive(Debug, Clone)]
pub struct CoreLink {
    path: String,
    attributes: Vec<(String, LinkAttributeValue)>,
}

impl CoreLink {
    /// The path.
    pub closed spec fn path(&self) -> Seq<char> {
        self.path@
    }

    /// The attributes, in the order they were added.
    pub closed spec fn attrs(&self) -> Seq<(Seq<char>, AttrValueView)> {
        attr_views(self.attributes@)
    }

    /// A link to `path` without attributes.
    pub fn new(path: &str) -> (r: Self)
        ensures
            r.path() == path@,
            r.attrs() == Seq::<(Seq<char>, AttrValueView)>::empty(),
    {
        let r = CoreLink { path: String::from_str(path), attributes: Vec::new() };
        assert(r.attrs() =~= Seq::<(Seq<char>, AttrValueView)>::empty());
        r
    }

    /// Adds the attribute `key` with `value`.
    pub fn attr(&mut self, key: &str, value: LinkAttributeValue)
        ensures
            final(self).path() == old(self).path(),
            final(self).attrs() == old(self).attrs().push((key@, value.view())),
    {
        let ghost before = self.attributes@;
        self.attributes.push((String::from_str(key), value));
        assert(attr_views(self.attributes@) =~= attr_views(before).push((key@, value.view())));
    }

    /// The link in link format (RFC 6690, as `coap_lite`'s link format writer writes it),
    /// e.g. `</a>;rt="a";ct=50`.
    pub fn format_single_link(&self) -> (r: String)
        ensures
            r@ == link_text(self.path(), self.attrs()),
    {
        let mut out = String::from_str("<");
        out.append(self.path.as_str());
        out.append(">");
        let ghost head = out@;
        let ghost attrs = self.attrs();
        let mut i: usize = 0;
        assert(attrs.take(0) =~= Seq::<(Seq<char>, AttrValueView)>::empty());
        assert(head + attrs_text(attrs.take(0)) =~= head);
        while i < self.attributes.len()
            invariant
                i <= self.attributes@.len(),
                attrs == attr_views(self.attributes@),
                out@ == head + attrs_text(attrs.take(i as int)),
            decreases self.attributes@.len() - i,
        {
            assert(attrs.take(i as int + 1).drop_last() =~= attrs.take(i as int));
            assert(attrs.take(i as int + 1).last() == (self.attributes@[i as int].0@, self.attributes@[i as int].1.view()));
            append_attr(&mut out, self.attributes[i].0.as_str(), &self.attributes[i].1);
            assert(out@ =~= head + attrs_text(attrs.take(i as int + 1)));
            i = i + 1;
        }
        assert(attrs.take(i as int) =~= attrs);
        assert(out@ =~= link_text(self.path(), self.attrs()));
        out
    }
}

/// What discovery keeps of a resource: its link, formatted once, and its attributes as text
/// for matching against query filters.
#[derive(Debug, Clone)]
pub struct DiscoverableResource {
    pub link_str: String,
    pub attributes_as_string: Vec<(String, String)>,
}

/// Abstract form of text pairs.
pub open spec fn text_pairs(pairs: Seq<(String, String)>) -> Seq<(Seq<char>, Seq<char>)> {
    pairs.map_values(|p: (String, String)| (p.0@, p.1@))
}

impl DiscoverableResource {
    /// The attributes as a map from key to text (a later attribute with the same key wins).
    pub open spec fn attribute_map(&self) -> Map<Seq<char>, Seq<char>> {
        map_of_pairs(text_pairs(self.attributes_as_string@))
    }

    /// The link and the attribute texts.
    pub open spec fn view(&self) -> (Seq<char>, Seq<(Seq<char>, Seq<char>)>) {
        (self.link_str@, text_pairs(self.attributes_as_string@))
    }

    /// The discovery entry of `src`.
    pub fn from_link(src: CoreLink) -> (r: Self)
        ensures
            r.view() == (
                link_text(src.path(), src.attrs()),
                src.attrs().map_values(|p: (Seq<char>, AttrValueView)| (p.0, comparison_text(p.1))),
            ),
    {
        let link_str = src.format_single_link();
        let mut attributes_as_string: Vec<(String, String)> = Vec::new();
        let mut i: usize = 0;
        while i < src.attributes.len()
            invariant
                i <= src.attributes@.len(),
                text_pairs(attributes_as_string@) == src.attrs().take(i as int).map_values(
                    |p: (Seq<char>, AttrValueView)| (p.0, comparison_text(p.1)),
                ),
            decreases src.attributes@.len() - i,
        {
            let ghost before = attributes_as_string@;
            let key = src.attributes[i].0.clone();
            let text = src.attributes[i].1.format_for_comparison();
            attributes_as_string.push((key, text));
            assert(text_pairs(attributes_as_string@) =~= text_pairs(before).push((key@, text@)));
            assert(src.attrs().take(i as int + 1) =~= src.attrs().take(i as int).push(src.attrs()[i as int]));
            assert(src.attrs().take(i as int + 1).map_values(
                |p: (Seq<char>, AttrValueView)| (p.0, comparison_text(p.1)),
            ) =~= src.attrs().take(i as int).map_values(
                |p: (Seq<char>, AttrValueView)| (p.0, comparison_text(p.1)),
            ).push((key@, text@)));
            i = i + 1;
        }
        assert(src.attrs().take(i as int) =~= src.attrs());
        DiscoverableResource { link_str, attributes_as_string }
    }
}

/// Whether the pair `s[j]` is the last one with its key.
pub open spec fn is_last_for_key<K, V>(s: Seq<(K, V)>, j: int) -> bool {
    forall|t: int| j < t < s.len() ==> #[trigger] s[t].0 != s[j].0
}

proof fn lemma_map_of_pairs_last<K, V>(s: Seq<(K, V)>, j: int)
    requires
        0 <= j < s.len(),
        is_last_for_key(s, j),
    ensures
        map_of_pairs(s).contains_key(s[j].0),
        map_of_pairs(s)[s[j].0] == s[j].1,
    decreases s.len(),
{
    if j < s.len() - 1 {
        assert(s[s.len() - 1].0 != s[j].0);
        assert(s.drop_last()[j] == s[j]);
        assert forall|t: int| j < t < s.drop_last().len() implies #[trigger] s.drop_last()[t].0 != s.drop_last()[j].0 by {
            assert(s[t].0 != s[j].0);
        }
        lemma_map_of_pairs_last(s.drop_last(), j);
    }
}

proof fn lemma_map_of_pairs_absent<K, V>(s: Seq<(K, V)>, k: K)
    requires
        forall|t: int| 0 <= t < s.len() ==> #[trigger] s[t].0 != k,
    ensures
        !map_of_pairs(s).contains_key(k),
{
    crate::app::assoc::lemma_map_of_pairs_contains(s, k);
}

/// The text held for `key` in `pairs`, the last pair with that key winning.
fn last_value<'a>(pairs: &'a Vec<(String, String)>, key: &String) -> (r: Option<&'a String>)
    ensures
        map_of_pairs(text_pairs(pairs@)).contains_key(key@) <==> r is Some,
        r matches Some(v) ==> map_of_pairs(text_pairs(pairs@))[key@] == v@,
{
    let ghost tp = text_pairs(pairs@);
    let mut i: usize = pairs.len();
    while i > 0
        invariant
            i <= pairs@.len(),
            tp == text_pairs(pairs@),
            forall|t: int| i <= t < pairs@.len() ==> #[trigger] tp[t].0 != key@,
        decreases i,
    {
        i = i - 1;
        if pairs[i].0 == *key {
            proof {
                assert forall|t: int| i < t < tp.len() implies #[trigger] tp[t].0 != tp[i as int].0 by {}
                lemma_map_of_pairs_last(tp, i as int);
            }
            return Some(&pairs[i].1);
        }
    }
    proof {
        lemma_map_of_pairs_absent(tp, key@);
    }
    None
}

/// Whether the resource's attributes hold every key/value of the query filter.
pub open spec fn matches_query(attrs: Map<Seq<char>, Seq<char>>, queries: Map<Seq<char>, Seq<char>>) -> bool {
    forall|k: Seq<char>| #[trigger] queries.contains_key(k) ==> attrs.contains_key(k) && attrs[k] == queries[k]
}

/// Whether `resource` passes the discovery filter `queries` (key/value pairs, a later pair
/// with the same key winning): each queried attribute must be present with exactly the
/// queried text.
pub fn filter_by_query(resource: &DiscoverableResource, queries: &Vec<(String, String)>) -> (r: bool)
    ensures
        r == matches_query(resource.attribute_map(), map_of_pairs(text_pairs(queries@))),
{
    let ghost qm = map_of_pairs(text_pairs(queries@));
    let ghost am = resource.attribute_map();
    let mut i: usize = 0;
    while i < queries.len()
        invariant
            i <= queries@.len(),
            qm == map_of_pairs(text_pairs(queries@)),
            am == resource.attribute_map(),
            forall|t: int|
                0 <= t < i ==> am.contains_key(#[trigger] text_pairs(queries@)[t].0) && am[text_pairs(
                    queries@,
                )[t].0] == qm[text_pairs(queries@)[t].0],
        decreases queries@.len() - i,
    {
        let key = &queries[i].0;
        let wanted = last_value(queries, key);
        proof {
            crate::app::assoc::lemma_map_of_pairs_contains(text_pairs(queries@), key@);
            assert(text_pairs(queries@)[i as int].0 == key@);
        }
        let have = last_value(&resource.attributes_as_string, key);
        match (wanted, have) {
            (Some(w), Some(h)) => {
                if *w != *h {
                    return false;
                }
            },
            _ => {
                return false;
            },
        }
        i = i + 1;
    }
    proof {
        assert forall|k: Seq<char>| #[trigger] qm.contains_key(k) implies am.contains_key(k) && am[k] == qm[k] by {
            crate::app::assoc::lemma_map_of_pairs_contains(text_pairs(queries@), k);
            let t = choose|t: int| 0 <= t < text_pairs(queries@).len() && #[trigger] text_pairs(queries@)[t].0 == k;
        }
    }
    true
}

/// The links of the resources that pass the filter, in order.
pub open spec fn selected_links(resources: Seq<DiscoverableResource>, queries: Map<Seq<char>, Seq<char>>) -> Seq<Seq<char>>
    decreases resources.len(),
{
    if resources.len() == 0 {
        Seq::empty()
    } else if matches_query(resources.last().attribute_map(), queries) {
        selected_links(resources.drop_last(), queries).push(resources.last().link_str@)
    } else {
        selected_links(resources.drop_last(), queries)
    }
}

/// Without a query filter, discovery lists the link of every resource, in order.
pub proof fn law_unfiltered_discovery_lists_every_link(resources: Seq<DiscoverableResource>)
    ensures
        selected_links(resources, Map::empty()) == resources.map_values(|d: DiscoverableResource| d.link_str@),
    decreases resources.len(),
{
    if resources.len() > 0 {
        law_unfiltered_discovery_lists_every_link(resources.drop_last());
        assert(resources.map_values(|d: DiscoverableResource| d.link_str@).drop_last() =~= resources.drop_last().map_values(
            |d: DiscoverableResource| d.link_str@,
        ));
    } else {
        assert(resources.map_values(|d: DiscoverableResource| d.link_str@) =~= Seq::<Seq<char>>::empty());
    }
}

/// The payload of a `/.well-known/core` response: the links of the resources that pass the
/// query filter, separated by ','.
pub fn core_payload(resources: &Vec<DiscoverableResource>, queries: &Vec<(String, String)>) -> (r: String)
    ensures
        r@ == join_with(selected_links(resources@, map_of_pairs(text_pairs(queries@))), ","@),
{
    let ghost qm = map_of_pairs(text_pairs(queries@));
    let mut out = String::new();
    let mut count: usize = 0;
    let mut i: usize = 0;
    while i < resources.len()
        invariant
            i <= resources@.len(),
            qm == map_of_pairs(text_pairs(queries@)),
            count == selected_links(resources@.take(i as int), qm).len(),
            out@ == join_with(selected_links(resources@.take(i as int), qm), ","@),
            count <= i,
        decreases resources@.len() - i,
    {
        let ghost prev = selected_links(resources@.take(i as int), qm);
        assert(resources@.take(i as int + 1).drop_last() =~= resources@.take(i as int));
        assert(resources@.take(i as int + 1).last() == resources@[i as int]);
        if filter_by_query(&resources[i], queries) {
            let ghost next = prev.push(resources@[i as int].link_str@);
            assert(next.drop_last() =~= prev);
            if count > 0 {
                out.append(",");
            } else {
                assert(prev.len() == 0);
                assert(out@ == Seq::<char>::empty());
                assert(out@ + resources@[i as int].link_str@ =~= resources@[i as int].link_str@);
            }
            out.append(resources[i].link_str.as_str());
            count = count + 1;
        }
        i = i + 1;
    }
    assert(resources@.take(i as int) =~= resources@);
    out
}

/// A discovery query `key=value`, split at its first '='; `None` without '='.
pub open spec fn split_query(q: Seq<char>) -> Option<(Seq<char>, Seq<char>)> {
    if exists|i: int| 0 <= i < q.len() && q[i] == '=' {
        let i = choose|i: int| 0 <= i < q.len() && q[i] == '=' && forall|j: int| 0 <= j < i ==> q[j] != '=';
        Some((q.take(i), q.skip(i + 1)))
    } else {
        None
    }
}

/// Splits a query at its first '='.
pub fn parse_query(q: &str) -> (r: Option<(String, String)>)
    ensures
        r matches Some(p) ==> split_query(q@) == Some((p.0@, p.1@)),
        r is None ==> split_query(q@) is None,
{
    let n = q.unicode_len();
    let mut key = String::new();
    let mut i: usize = 0;
    while i < n
        invariant
            n == q@.len(),
            i <= n,
            key@ == q@.take(i as int),
            forall|j: int| 0 <= j < i ==> q@[j] != '=',
        decreases n - i,
    {
        let c = q.get_char(i);
        if c == '=' {
            let mut value = String::new();
            let mut k: usize = i + 1;
            while k < n
                invariant
                    n == q@.len(),
                    i < k <= n,
                    value@ == q@.subrange(i as int + 1, k as int),
                decreases n - k,
            {
                let d = q.get_char(k);
                push_char(&mut value, d);
                assert(q@.subrange(i as int + 1, k as int + 1) =~= q@.subrange(i as int + 1, k as int).push(d));
                k = k + 1;
            }
            proof {
                let ii = i as int;
                assert(q@[ii] == '=');
                let w = choose|w: int| 0 <= w < q@.len() && q@[w] == '=' && forall|j: int| 0 <= j < w ==> q@[j] != '=';
                if w < ii {
                    assert(q@[w] != '=');
                }
                if ii < w {
                    assert(q@[ii] != '=');
                }
                assert(q@.skip(ii + 1) =~= q@.subrange(ii + 1, n as int));
            }
            return Some((key, value));
        }
        push_char(&mut key, c);
        assert(q@.take(i as int + 1) =~= q@.take(i as int).push(c));
        i = i + 1;
    }
    None
}

/// The discovery filter of a request, from its Uri-Query option values: each value that is
/// text and holds a '=' gives a key/value pair; other values are skipped.
pub open spec fn queries_of(options: Seq<Seq<u8>>) -> Seq<(Seq<char>, Seq<char>)>
    decreases options.len(),
{
    if options.len() == 0 {
        Seq::empty()
    } else {
        let rest = queries_of(options.drop_last());
        match string_option_value(options.last()) {
            Ok(text) => match split_query(text) {
                Some(p) => rest.push(p),
                None => rest,
            },
            Err(_) => rest,
        }
    }
}

/// Reads the discovery filter from the request's Uri-Query option values.
pub fn request_queries(options: &Vec<Vec<u8>>) -> (r: Vec<(String, String)>)
    ensures
        text_pairs(r@) == queries_of(options@.map_values(|o: Vec<u8>| o@)),
{
    let ghost ov = options@.map_values(|o: Vec<u8>| o@);
    let mut r: Vec<(String, String)> = Vec::new();
    let mut i: usize = 0;
    while i < options.len()
        invariant
            i <= options@.len(),
            ov == options@.map_values(|o: Vec<u8>| o@),
            text_pairs(r@) == queries_of(ov.take(i as int)),
        decreases options@.len() - i,
    {
        assert(ov.take(i as int + 1).drop_last() =~= ov.take(i as int));
        assert(ov.take(i as int + 1).last() == options@[i as int]@);
        let ghost before = r@;
        match decode_string_option(&options[i]) {
            Ok(text) => {
                match parse_query(text.as_str()) {
                    Some(p) => {
                        r.push(p);
                        assert(text_pairs(r@) =~= text_pairs(before).push((r@.last().0@, r@.last().1@)));
                    },
                    None => {},
                }
            },
            Err(_) => {},
        }
        i = i + 1;
    }
    assert(ov.take(i as int) =~= ov);
    r
}

/// The discovery filter compares texts exactly: a resource passes only if each queried key is
/// among its attributes with exactly the queried text (a prefix or other near match does
/// not pass), and it passes whenever that holds for every queried key.
pub proof fn law_query_filter_is_exact(
    attrs: Map<Seq<char>, Seq<char>>,
    queries: Map<Seq<char>, Seq<char>>,
    k: Seq<char>,
)
    ensures
        matches_query(attrs, queries) && queries.contains_key(k) ==> attrs.contains_key(k) && attrs[k] == queries[k],
        queries.contains_key(k) && attrs.contains_key(k) && attrs[k] != queries[k] ==> !matches_query(attrs, queries),
        queries.contains_key(k) && !attrs.contains_key(k) ==> !matches_query(attrs, queries),
        (forall|j: Seq<char>| queries.contains_key(j) ==> #[trigger] attrs.contains_key(j) && attrs[j] == queries[j])
            ==> matches_query(attrs, queries),
        matches_query(attrs, Map::empty()),
        matches_query(attrs, attrs),
{
}

} // verus!
