//! Text extraction: from the text nodes of each post-text container to one
//! normalized string per container.
use vstd::prelude::*;
use crate::chars::{
    contains, has_content, has_text, join_with_space, joined, lemma_removed_len, occurs_at,
    remove_all, removed, trim, trimmed, views,
};
use crate::colon::{
    colons_attached, colons_spaced_or_last, fix_colon_spacing, has_colon_run, lemma_tidy, tidy,
    well_punctuated,
};

verus! {

/// The scheme prefix `https://`.
pub open spec fn https_scheme() -> Seq<char> {
    seq!['h', 't', 't', 'p', 's', ':', '/', '/']
}

/// The scheme prefix `http://`.
pub open spec fn http_scheme() -> Seq<char> {
    seq!['h', 't', 't', 'p', ':', '/', '/']
}

/// One removal pass: every `https://` taken out, then every `http://`.
pub open spec fn strip_once(s: Seq<char>) -> Seq<char> {
    removed(removed(s, https_scheme()), http_scheme())
}

/// `s` with removal passes repeated until a pass removes nothing, so that no
/// scheme prefix is left, not even one that an earlier removal formed.
pub open spec fn strip_schemes(s: Seq<char>) -> Seq<char>
    decreases s.len(),
{
    if strip_once(s).len() < s.len() {
        strip_schemes(strip_once(s))
    } else {
        s
    }
}

/// True when `t` holds neither scheme prefix.
pub open spec fn scheme_free(t: Seq<char>) -> bool {
    !contains(t, https_scheme()) && !contains(t, http_scheme())
}

/// Every part trimmed, in order; a part that trims to nothing stays as an
/// empty piece.
pub open spec fn trimmed_pieces(parts: Seq<Seq<char>>) -> Seq<Seq<char>>
    decreases parts.len(),
{
    if parts.len() == 0 {
        Seq::empty()
    } else {
        trimmed_pieces(parts.drop_last()).push(trimmed(parts.last()))
    }
}

/// The text of a container's direct text nodes: each trimmed, joined with a
/// space, scheme prefixes stripped.
pub open spec fn node_text(nodes: Seq<Seq<char>>) -> Seq<char> {
    strip_schemes(joined(trimmed_pieces(nodes)))
}

/// A container's descendant text joined with a space and trimmed, scheme
/// prefixes stripped.
pub open spec fn all_text_of(all: Seq<Seq<char>>) -> Seq<char> {
    strip_schemes(trimmed(joined(all)))
}

/// The text of a container before colon re-punctuation: that of its direct
/// text nodes where it has any, else that of all its descendant text.
pub open spec fn raw_text(nodes: Seq<Seq<char>>, all: Seq<Seq<char>>) -> Seq<char> {
    if nodes.len() > 0 {
        node_text(nodes)
    } else {
        all_text_of(all)
    }
}

/// The normalized text of a container: re-punctuated and trimmed.
pub open spec fn normalized(nodes: Seq<Seq<char>>, all: Seq<Seq<char>>) -> Seq<char> {
    tidy(raw_text(nodes, all))
}

/// A container's direct text nodes and all its text, as character views.
pub type ContainerView = (Seq<Seq<char>>, Seq<Seq<char>>);

/// A post-text container, as the text that extraction reads from it.
pub struct TextContainer {
    /// The container's direct child text nodes, in document order.
    pub text_nodes: Vec<String>,
    /// All text under the container, in document order.
    pub all_text: Vec<String>,
}

impl TextContainer {
    pub open spec fn nodes(&self) -> Seq<Seq<char>> {
        views(self.text_nodes@)
    }

    pub open spec fn all(&self) -> Seq<Seq<char>> {
        views(self.all_text@)
    }

    pub fn new(text_nodes: Vec<String>, all_text: Vec<String>) -> (r: TextContainer)
        ensures
            r.text_nodes@ == text_nodes@,
            r.all_text@ == all_text@,
    {
        TextContainer { text_nodes, all_text }
    }
}

/// The views of a sequence of containers.
pub open spec fn container_views(cs: Seq<TextContainer>) -> Seq<ContainerView> {
    cs.map_values(|c: TextContainer| (c.nodes(), c.all()))
}

/// The normalized texts of the containers whose normalized text is not
/// empty, in order.
pub open spec fn kept_texts(cs: Seq<ContainerView>) -> Seq<Seq<char>>
    decreases cs.len(),
{
    if cs.len() == 0 {
        Seq::empty()
    } else {
        let t = normalized(cs.last().0, cs.last().1);
        let rest = kept_texts(cs.drop_last());
        if has_content(t) {
            rest.push(t)
        } else {
            rest
        }
    }
}

proof fn lemma_strip_schemes_clean(s: Seq<char>)
    ensures
        scheme_free(strip_schemes(s)),
    decreases s.len(),
{
    let h = removed(s, https_scheme());
    lemma_removed_len(s, https_scheme());
    lemma_removed_len(h, http_scheme());
    if strip_once(s).len() < s.len() {
        lemma_strip_schemes_clean(strip_once(s));
    }
}

fn strip_once_exec(s: &str) -> (r: String)
    ensures
        r@ == strip_once(s@),
{
    proof {
        reveal_strlit("https://");
        reveal_strlit("http://");
    }
    assert("https://"@ =~= https_scheme());
    assert("http://"@ =~= http_scheme());
    let a = remove_all(s, "https://");
    remove_all(a.as_str(), "http://")
}

/// `s` with every `https://` and `http://` removed, repeatedly, until none
/// is left.
pub fn strip_scheme_prefixes(s: &str) -> (r: String)
    ensures
        r@ == strip_schemes(s@),
        scheme_free(r@),
{
    let mut cur = String::from_str(s);
    loop
        invariant
            strip_schemes(cur@) == strip_schemes(s@),
        decreases cur@.len(),
    {
        let next = strip_once_exec(cur.as_str());
        if next.as_str().unicode_len() < cur.as_str().unicode_len() {
            cur = next;
        } else {
            proof {
                lemma_strip_schemes_clean(cur@);
            }
            return cur;
        }
    }
}

/// Joins text nodes, each trimmed, with a space, then removes every
/// `https://` and `http://`.
pub fn join_text_nodes(text_nodes: Vec<String>) -> (r: String)
    ensures
        r@ == node_text(views(text_nodes@)),
        scheme_free(r@),
{
    let mut pieces: Vec<String> = Vec::new();
    let mut k: usize = 0;
    while k < text_nodes.len()
        invariant
            k <= text_nodes@.len(),
            views(pieces@) == trimmed_pieces(views(text_nodes@).take(k as int)),
        decreases text_nodes@.len() - k,
    {
        let t = trim(text_nodes[k].as_str());
        let ghost before = pieces@;
        let ghost upto = views(text_nodes@).take(k + 1);
        assert(upto.drop_last() =~= views(text_nodes@).take(k as int));
        assert(upto.last() == text_nodes@[k as int]@);
        pieces.push(t);
        assert(views(pieces@) =~= views(before).push(t@));
        k = k + 1;
    }
    assert(views(text_nodes@).take(text_nodes@.len() as int) =~= views(text_nodes@));
    let joined_text = join_with_space(&pieces);
    strip_scheme_prefixes(joined_text.as_str())
}

/// A container's descendant text joined with a space and trimmed, then with
/// every `https://` and `http://` removed.
pub fn join_all_text(all_text: &Vec<String>) -> (r: String)
    ensures
        r@ == all_text_of(views(all_text@)),
        scheme_free(r@),
{
    let all = join_with_space(all_text);
    let t = trim(all.as_str());
    strip_scheme_prefixes(t.as_str())
}

/// The normalized text of one container: its text nodes joined (or, where it
/// has none, all its text joined and trimmed), scheme prefixes stripped,
/// colons re-punctuated, the result trimmed.
pub fn container_text(c: &TextContainer) -> (r: String)
    ensures
        r@ == normalized(c.nodes(), c.all()),
{
    let raw = if c.text_nodes.len() > 0 {
        join_text_nodes(c.text_nodes.clone())
    } else {
        join_all_text(&c.all_text)
    };
    let fixed = fix_colon_spacing(raw.as_str());
    trim(fixed.as_str())
}

/// The normalized texts of the containers, in order, leaving out those that
/// are empty.
pub fn extract_text(containers: &Vec<TextContainer>) -> (r: Vec<String>)
    ensures
        views(r@) == kept_texts(container_views(containers@)),
{
    let mut out: Vec<String> = Vec::new();
    let mut k: usize = 0;
    while k < containers.len()
        invariant
            k <= containers@.len(),
            views(out@) == kept_texts(container_views(containers@.take(k as int))),
        decreases containers@.len() - k,
    {
        let t = container_text(&containers[k]);
        let ghost before = out@;
        let ghost upto = container_views(containers@.take(k + 1));
        assert(upto.drop_last() =~= container_views(containers@.take(k as int)));
        assert(upto.last() == (containers@[k as int].nodes(), containers@[k as int].all()));
        if has_text(t.as_str()) {
            out.push(t);
            assert(views(out@) =~= views(before).push(t@));
        }
        k = k + 1;
    }
    assert(containers@.take(containers@.len() as int) =~= containers@);
    out
}

/// Well-punctuated text holds no scheme prefix: each of its colons is its
/// last character or is followed by a space, never by a slash.
pub proof fn lemma_well_punctuated_scheme_free(t: Seq<char>)
    requires
        well_punctuated(t),
    ensures
        scheme_free(t),
{
    if contains(t, https_scheme()) {
        let i = choose|i: int| occurs_at(t, https_scheme(), i);
        assert(t.subrange(i, i + 8)[5] == ':' && t.subrange(i, i + 8)[6] == '/');
        assert(t[i + 5] == ':');
    }
    if contains(t, http_scheme()) {
        let i = choose|i: int| occurs_at(t, http_scheme(), i);
        assert(t.subrange(i, i + 7)[4] == ':' && t.subrange(i, i + 7)[5] == '/');
        assert(t[i + 4] == ':');
    }
}

/// Every extracted text neither begins nor ends with whitespace, holds no
/// scheme prefix, and has each colon last or followed by exactly one space.
pub proof fn lemma_extracted_texts_well_punctuated(cs: Seq<ContainerView>)
    ensures
        forall|j: int|
            0 <= j < kept_texts(cs).len() ==> well_punctuated(#[trigger] kept_texts(cs)[j])
                && scheme_free(kept_texts(cs)[j]),
    decreases cs.len(),
{
    if cs.len() > 0 {
        lemma_extracted_texts_well_punctuated(cs.drop_last());
        let t = raw_text(cs.last().0, cs.last().1);
        lemma_tidy(t);
        lemma_well_punctuated_scheme_free(tidy(t));
        let kept = kept_texts(cs);
        let rest = kept_texts(cs.drop_last());
        assert forall|j: int| 0 <= j < kept.len() implies well_punctuated(#[trigger] kept[j])
            && scheme_free(kept[j]) by {
            if j < rest.len() {
                assert(kept[j] == rest[j]);
            }
        }
    }
}

/// Unless two colons of a container's text before re-punctuation stand with
/// only whitespace between them, no colon of its normalized text comes after
/// whitespace.
pub proof fn lemma_extracted_colons_attached(nodes: Seq<Seq<char>>, all: Seq<Seq<char>>)
    requires
        !has_colon_run(raw_text(nodes, all)),
    ensures
        colons_attached(normalized(nodes, all)),
{
    lemma_tidy(raw_text(nodes, all));
}

} // verus!
