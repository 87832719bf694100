//! Builds a blog post from a fluent builder and renders it as a YAML
//! frontmatter block followed by the post body.

mod laws;
mod order;
mod post;
mod slugs;
mod sorted;

pub use laws::{
    lemma_case_and_separator_insensitive, lemma_derived_fields_win,
    lemma_equivalent_tags_one_member, lemma_tag_twice,
};
pub use order::{str_less, text_lt};
pub use post::{
    frontmatter_of, render_entries, yaml_entry, BlogPost, FieldValue, FieldView, PostView,
    Template, TemplateView,
};
pub use slugs::{
    ascii_slug, collapse_dashes, fold_char, is_slug, lemma_ascii_slug_is_slug, normalize, slug_char,
    slug_of,
};
pub use sorted::{
    ascending, entry_views, has_key, index_of, keys_of, lemma_ascending_unique, map_of, texts,
};
