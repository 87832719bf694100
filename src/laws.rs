use vstd::prelude::*;
use crate::post::{frontmatter_of, FieldView, TemplateView};
use crate::slugs::{ascii_slug, fold_char, slug_of};
use vstd::utf8::is_ascii_chars;

verus! {

/// The slug, the title and the tags of a post always win: whatever
/// properties were set, also under the keys `slug`, `title` or `tags`, the
/// frontmatter holds the post's own slug, title and tags under those keys,
/// and every other property as it was set.
pub proof fn lemma_derived_fields_win(
    meta: Map<Seq<char>, FieldView>,
    title: Seq<char>,
    slug: Seq<char>,
    tags: Seq<Seq<char>>,
)
    ensures
        frontmatter_of(meta, title, slug, tags)["slug"@] == FieldView::Text(slug),
        frontmatter_of(meta, title, slug, tags)["title"@] == FieldView::Text(title),
        frontmatter_of(meta, title, slug, tags)["tags"@] == FieldView::List(tags),
        frontmatter_of(meta, title, slug, tags).dom() == meta.dom().insert("slug"@).insert(
            "title"@,
        ).insert("tags"@),
        forall|k: Seq<char>|
            k != "slug"@ && k != "title"@ && k != "tags"@ && meta.contains_key(k) ==> #[trigger] frontmatter_of(
                meta,
                title,
                slug,
                tags,
            )[k] == meta[k],
{
    reveal_strlit("slug");
    reveal_strlit("title");
    reveal_strlit("tags");
    assert("slug"@ != "title"@ && "slug"@ != "tags"@ && "title"@ != "tags"@) by {
        assert("slug"@[1] != "title"@[1]);
        assert("slug"@[1] != "tags"@[1]);
        assert("title"@[1] != "tags"@[1]);
    }
}

/// Adding the same tag twice leaves the same template as adding it once.
pub proof fn lemma_tag_twice(v: TemplateView, t: Seq<char>)
    ensures
        v.with_tag(t).with_tag(t) == v.with_tag(t),
{
    assert(v.with_tag(t).tags.insert(slug_of(t)) =~= v.with_tag(t).tags);
}

/// Two tags that normalize alike count once: adding the second after the
/// first changes nothing, and on a template without tags they leave exactly
/// one tag.
pub proof fn lemma_equivalent_tags_one_member(v: TemplateView, t1: Seq<char>, t2: Seq<char>)
    requires
        slug_of(t1) == slug_of(t2),
    ensures
        v.with_tag(t1).with_tag(t2) == v.with_tag(t1),
        v.tags.is_empty() ==> v.with_tag(t1).with_tag(t2).tags == set![slug_of(t1)],
        v.tags.is_empty() ==> v.with_tag(t1).with_tag(t2).tags.len() == 1,
{
    lemma_tag_twice(v, t1);
    if v.tags.is_empty() {
        assert(v.tags =~= Set::empty());
        assert(v.with_tag(t1).with_tag(t2).tags =~= set![slug_of(t1)]);
        assert(set![slug_of(t1)].len() == 1) by {
            assert(set![slug_of(t1)] == Set::<Seq<char>>::empty().insert(slug_of(t1)));
        }
    }
}

/// ASCII strings that differ only in the case of their letters, or in which
/// character stands between two words, normalize alike.
pub proof fn lemma_case_and_separator_insensitive(s1: Seq<char>, s2: Seq<char>)
    requires
        is_ascii_chars(s1),
        is_ascii_chars(s2),
        s1.len() == s2.len(),
        forall|i: int| 0 <= i < s1.len() ==> fold_char(#[trigger] s1[i]) == fold_char(s2[i]),
    ensures
        ascii_slug(s1) == ascii_slug(s2),
{
    assert(s1.map_values(|c: char| fold_char(c)) =~= s2.map_values(|c: char| fold_char(c)));
}

} // verus!
