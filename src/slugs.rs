use vstd::prelude::*;
use vstd::utf8::is_ascii_chars;

verus! {

/// What `slug::slugify` returns for a string with these characters.
pub uninterp spec fn slug_of(s: Seq<char>) -> Seq<char>;

/// A slug: lowercase ASCII letters, digits and `-`, with no `-` at either
/// end and never two in a row.
pub open spec fn is_slug(s: Seq<char>) -> bool {
    &&& forall|i: int| 0 <= i < s.len() ==> slug_char(#[trigger] s[i])
    &&& s.len() > 0 ==> s[0] != '-' && s[s.len() - 1] != '-'
    &&& forall|i: int| 0 <= i < s.len() - 1 ==> !(#[trigger] s[i] == '-' && s[i + 1] == '-')
}

/// How `slug::slugify` reads an ASCII character: a lowercase letter or a
/// digit stays, an uppercase letter becomes lowercase, anything else
/// separates words and is written `-`.
pub open spec fn fold_char(c: char) -> char {
    if ('a' <= c <= 'z') || ('0' <= c <= '9') {
        c
    } else if 'A' <= c <= 'Z' {
        ((c as u8) + 32) as u8 as char
    } else {
        '-'
    }
}

/// Folded characters with each run of `-` written once, and a leading run
/// dropped where `dash` holds.
pub open spec fn collapse_dashes(f: Seq<char>, dash: bool) -> Seq<char>
    decreases f.len(),
{
    if f.len() == 0 {
        Seq::empty()
    } else if f[0] != '-' {
        seq![f[0]] + collapse_dashes(f.drop_first(), false)
    } else if dash {
        collapse_dashes(f.drop_first(), true)
    } else {
        seq!['-'] + collapse_dashes(f.drop_first(), true)
    }
}

/// The slug of an ASCII string: folded, runs of `-` collapsed, and no `-`
/// at either end.
pub open spec fn ascii_slug(s: Seq<char>) -> Seq<char> {
    let r = collapse_dashes(s.map_values(|c: char| fold_char(c)), true);
    if r.len() > 0 && r.last() == '-' {
        r.drop_last()
    } else {
        r
    }
}

/// A character that may stand in a slug.
pub open spec fn slug_char(c: char) -> bool {
    ('a' <= c <= 'z') || ('0' <= c <= '9') || c == '-'
}

proof fn lemma_fold_char(c: char)
    ensures
        slug_char(fold_char(c)),
{
    if 'A' <= c <= 'Z' {
        assert(65 <= c as u8 <= 90);
        assert('a' <= (((c as u8) + 32) as u8 as char) <= 'z');
    }
}

proof fn lemma_collapse_dashes(f: Seq<char>, dash: bool)
    requires
        forall|i: int| 0 <= i < f.len() ==> slug_char(#[trigger] f[i]),
    ensures
        forall|i: int|
            0 <= i < collapse_dashes(f, dash).len() ==> slug_char(
                #[trigger] collapse_dashes(f, dash)[i],
            ),
        forall|i: int|
            0 <= i < collapse_dashes(f, dash).len() - 1 ==> !(#[trigger] collapse_dashes(f, dash)[i]
                == '-' && collapse_dashes(f, dash)[i + 1] == '-'),
        dash && collapse_dashes(f, dash).len() > 0 ==> collapse_dashes(f, dash)[0] != '-',
    decreases f.len(),
{
    if f.len() > 0 {
        let rest = f.drop_first();
        lemma_collapse_dashes(rest, f[0] == '-');
        lemma_collapse_dashes(rest, true);
        lemma_collapse_dashes(rest, false);
        let r = collapse_dashes(f, dash);
        if f[0] != '-' {
            assert(r == seq![f[0]] + collapse_dashes(rest, false));
        } else if !dash {
            assert(r == seq!['-'] + collapse_dashes(rest, true));
        }
    }
}

/// Every ASCII slug is a slug.
pub proof fn lemma_ascii_slug_is_slug(s: Seq<char>)
    ensures
        is_slug(ascii_slug(s)),
{
    let f = s.map_values(|c: char| fold_char(c));
    assert forall|i: int| 0 <= i < f.len() implies slug_char(#[trigger] f[i]) by {
        lemma_fold_char(s[i]);
    }
    lemma_collapse_dashes(f, true);
    let r = collapse_dashes(f, true);
    if r.len() > 0 && r.last() == '-' {
        let t = r.drop_last();
        assert(t.len() > 0 ==> t[t.len() - 1] == r[r.len() - 2]);
    }
}

/// Relies on `slug::slugify`: its result depends on the characters alone,
/// and its documentation promises only `a-z`, `0-9` and `-`, never a
/// leading or trailing `-`, and never two `-` in a row. On ASCII input its
/// source works character by character as `ascii_slug` states.
#[verifier::external_body]
fn slugify_str(s: &str) -> (r: String)
    ensures
        r@ == slug_of(s@),
        is_slug(r@),
        is_ascii_chars(s@) ==> r@ == ascii_slug(s@),
{
    slug::slugify(s)
}

/// Normalizes a title or tag to a URL-safe slug.
pub fn normalize(s: &str) -> (r: String)
    ensures
        r@ == slug_of(s@),
        is_slug(r@),
        is_ascii_chars(s@) ==> r@ == ascii_slug(s@),
{
    slugify_str(s)
}

} // verus!
