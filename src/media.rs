//! Media links: the source URLs of media images, without profile images.
use vstd::prelude::*;
use crate::chars::views;

verus! {

/// True when `s` begins with `p`.
pub open spec fn starts_with(s: Seq<char>, p: Seq<char>) -> bool {
    p.len() <= s.len() && s.take(p.len() as int) == p
}

/// The character views of a sequence of optional strings.
pub open spec fn source_views(v: Seq<Option<String>>) -> Seq<Option<Seq<char>>> {
    v.map_values(
        |o: Option<String>|
            match o {
                Some(s) => Some(s@),
                None => None,
            },
    )
}

/// The sources that are present and do not begin with `prefix`, in order.
pub open spec fn media_of(srcs: Seq<Option<Seq<char>>>, prefix: Seq<char>) -> Seq<Seq<char>>
    decreases srcs.len(),
{
    if srcs.len() == 0 {
        Seq::empty()
    } else {
        let rest = media_of(srcs.drop_last(), prefix);
        match srcs.last() {
            Some(u) => if starts_with(u, prefix) {
                rest
            } else {
                rest.push(u)
            },
            None => rest,
        }
    }
}

/// Whether `src` begins with `prefix`.
pub fn is_profile_image(src: &str, prefix: &str) -> (r: bool)
    ensures
        r == starts_with(src@, prefix@),
{
    let n = src.unicode_len();
    let m = prefix.unicode_len();
    if m > n {
        return false;
    }
    let mut k: usize = 0;
    while k < m
        invariant
            n == src@.len(),
            m == prefix@.len(),
            m <= n,
            k <= m,
            forall|t: int| 0 <= t < k ==> src@[t] == prefix@[t],
        decreases m - k,
    {
        if src.get_char(k) != prefix.get_char(k) {
            assert(src@.take(m as int)[k as int] != prefix@[k as int]);
            return false;
        }
        k = k + 1;
    }
    assert(src@.take(m as int) =~= prefix@);
    true
}

/// The media links among image sources: each source that is present and
/// does not begin with the profile-image prefix, in order, duplicates kept.
pub fn extract_media_links(sources: &Vec<Option<String>>, profile_prefix: &str) -> (r: Vec<
    String,
>)
    ensures
        views(r@) == media_of(source_views(sources@), profile_prefix@),
{
    let mut out: Vec<String> = Vec::new();
    let mut k: usize = 0;
    while k < sources.len()
        invariant
            k <= sources@.len(),
            views(out@) == media_of(source_views(sources@).take(k as int), profile_prefix@),
        decreases sources@.len() - k,
    {
        let ghost before = out@;
        let ghost srcs = source_views(sources@).take(k + 1);
        assert(srcs.drop_last() =~= source_views(sources@).take(k as int));
        assert(srcs.last() == source_views(sources@)[k as int]);
        match &sources[k] {
            Some(src) => {
                if !is_profile_image(src.as_str(), profile_prefix) {
                    out.push(src.clone());
                    assert(views(out@) =~= views(before).push(src@));
                }
            },
            None => {},
        }
        k = k + 1;
    }
    assert(source_views(sources@).take(sources@.len() as int) =~= source_views(sources@));
    out
}

/// No media link begins with the profile-image prefix, and every source
/// that is present and does not begin with it is among the media links.
pub proof fn lemma_media_links_filtered(srcs: Seq<Option<Seq<char>>>, prefix: Seq<char>)
    ensures
        forall|j: int|
            0 <= j < media_of(srcs, prefix).len() ==> !starts_with(
                #[trigger] media_of(srcs, prefix)[j],
                prefix,
            ),
        forall|i: int|
            0 <= i < srcs.len() && (#[trigger] srcs[i]) is Some && !starts_with(
                srcs[i]->Some_0,
                prefix,
            ) ==> media_of(srcs, prefix).contains(srcs[i]->Some_0),
    decreases srcs.len(),
{
    if srcs.len() > 0 {
        let rest_srcs = srcs.drop_last();
        lemma_media_links_filtered(rest_srcs, prefix);
        let m = media_of(srcs, prefix);
        let rest = media_of(rest_srcs, prefix);
        assert forall|j: int| 0 <= j < m.len() implies !starts_with(#[trigger] m[j], prefix) by {
            if j < rest.len() {
                assert(m[j] == rest[j]);
            }
        }
        assert forall|i: int|
            0 <= i < srcs.len() && (#[trigger] srcs[i]) is Some && !starts_with(
                srcs[i]->Some_0,
                prefix,
            ) implies m.contains(srcs[i]->Some_0) by {
            if i < srcs.len() - 1 {
                assert(rest_srcs[i] == srcs[i]);
                let w = choose|w: int| 0 <= w < rest.len() && rest[w] == srcs[i]->Some_0;
                assert(m[w] == rest[w]);
            } else {
                assert(m[m.len() - 1] == srcs[i]->Some_0);
            }
        }
    }
}

} // verus!
