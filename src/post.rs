use vstd::prelude::*;
use crate::slugs::{normalize, slug_of};
use crate::sorted::{ascending, entry_views, insert_entry, insert_text, keys_of, map_of, texts};

verus! {

broadcast use vstd::string::group_string_axioms;

/// `serde_json::Value`, the type of a property's value: carried through
/// unopened.
#[verifier::external_type_specification]
#[verifier::external_body]
pub struct ExJsonValue(serde_json::Value);

/// A value of the frontmatter.
#[derive(Debug, PartialEq)]
pub enum FieldValue {
    /// A string, as the slug and the title are kept.
    Text(String),
    /// A list of strings, as the tags are kept.
    List(Vec<String>),
    /// A JSON value that the caller set as a property.
    Json(serde_json::Value),
}

/// What a frontmatter value stands for.
pub enum FieldView {
    Text(Seq<char>),
    List(Seq<Seq<char>>),
    Json(serde_json::Value),
}

impl View for FieldValue {
    type V = FieldView;

    open spec fn view(&self) -> FieldView {
        match self {
            FieldValue::Text(s) => FieldView::Text(s@),
            FieldValue::List(v) => FieldView::List(texts(v@)),
            FieldValue::Json(j) => FieldView::Json(*j),
        }
    }
}

/// The frontmatter of a post: the properties that were set, where the slug,
/// the title and the tags always win over a property of the same key.
pub open spec fn frontmatter_of(
    meta: Map<Seq<char>, FieldView>,
    title: Seq<char>,
    slug: Seq<char>,
    tags: Seq<Seq<char>>,
) -> Map<Seq<char>, FieldView> {
    meta.insert("slug"@, FieldView::Text(slug)).insert("title"@, FieldView::Text(title)).insert(
        "tags"@,
        FieldView::List(tags),
    )
}

/// A blog post under construction.
pub struct Template {
    title: String,
    slug: String,
    tags: Vec<String>,
    meta: Vec<(String, FieldValue)>,
}

/// What a `Template` holds: its title, its slug, its set of tags and the
/// properties set on it.
pub struct TemplateView {
    pub title: Seq<char>,
    pub slug: Seq<char>,
    pub tags: Set<Seq<char>>,
    pub meta: Map<Seq<char>, FieldView>,
}

impl TemplateView {
    /// The template after its slug is set from `s`.
    pub open spec fn with_slug(self, s: Seq<char>) -> TemplateView {
        TemplateView { slug: slug_of(s), ..self }
    }

    /// The template after the tag `t` is added.
    pub open spec fn with_tag(self, t: Seq<char>) -> TemplateView {
        TemplateView { tags: self.tags.insert(slug_of(t)), ..self }
    }

    /// The template after the property `key` is set to `value`.
    pub open spec fn with_property(self, key: Seq<char>, value: serde_json::Value) -> TemplateView {
        TemplateView { meta: self.meta.insert(key, FieldView::Json(value)), ..self }
    }
}

impl View for Template {
    type V = TemplateView;

    closed spec fn view(&self) -> TemplateView {
        TemplateView {
            title: self.title@,
            slug: self.slug@,
            tags: texts(self.tags@).to_set(),
            meta: map_of(entry_views(self.meta@)),
        }
    }
}

/// A finished blog post.
#[derive(Debug, PartialEq)]
pub struct BlogPost {
    frontmatter: Vec<(String, FieldValue)>,
    title: String,
    slug: String,
    tags: Vec<String>,
    body: String,
}

/// What a `BlogPost` holds. The frontmatter and the tags are in ascending
/// order.
pub struct PostView {
    pub frontmatter: Seq<(Seq<char>, FieldView)>,
    pub title: Seq<char>,
    pub slug: Seq<char>,
    pub tags: Seq<Seq<char>>,
    pub body: Seq<char>,
}

impl PostView {
    /// The frontmatter as a mapping from key to value.
    pub open spec fn fields(self) -> Map<Seq<char>, FieldView> {
        map_of(self.frontmatter)
    }
}

impl View for BlogPost {
    type V = PostView;

    closed spec fn view(&self) -> PostView {
        PostView {
            frontmatter: entry_views(self.frontmatter@),
            title: self.title@,
            slug: self.slug@,
            tags: texts(self.tags@),
            body: self.body@,
        }
    }
}

impl Template {
    pub closed spec fn wf(&self) -> bool {
        &&& ascending(texts(self.tags@))
        &&& ascending(keys_of(entry_views(self.meta@)))
    }

    /// Sets the slug, normalized.
    pub fn slug(&mut self, slug: &str) -> (r: &mut Template)
        requires
            old(self).wf(),
        ensures
            r.wf(),
            r@ == old(self)@.with_slug(slug@),
            *final(self) == *final(r),
    {
        self.slug = normalize(slug);
        self
    }

    /// Adds a tag, normalized; a tag that is there already changes nothing.
    pub fn tag(&mut self, tag: &str) -> (r: &mut Template)
        requires
            old(self).wf(),
        ensures
            r.wf(),
            r@ == old(self)@.with_tag(tag@),
            *final(self) == *final(r),
    {
        let t = normalize(tag);
        insert_text(&mut self.tags, t);
        self
    }

    /// Sets a property of the frontmatter, replacing any earlier value of
    /// that key.
    pub fn property(&mut self, key: String, value: serde_json::Value) -> (r: &mut Template)
        requires
            old(self).wf(),
        ensures
            r.wf(),
            r@ == old(self)@.with_property(key@, value),
            *final(self) == *final(r),
    {
        insert_entry(&mut self.meta, key, FieldValue::Json(value));
        self
    }

    /// Finishes the post with its body.
    pub fn post(self, blog_post: String) -> (r: BlogPost)
        requires
            self.wf(),
        ensures
            r.wf(),
            r@.title == self@.title,
            r@.slug == self@.slug,
            ascending(r@.tags),
            r@.tags.to_set() == self@.tags,
            ascending(keys_of(r@.frontmatter)),
            r@.body == blog_post@,
            r@.fields() == frontmatter_of(self@.meta, self@.title, self@.slug, r@.tags),
    {
        BlogPost::from_template(self, blog_post)
    }
}

/// The YAML text that `serde_yaml` gives a one-entry mapping from `key` to
/// `value`.
pub uninterp spec fn yaml_entry(key: Seq<char>, value: FieldView) -> Seq<char>;

/// The frontmatter text: one YAML entry after another, in the order given.
pub open spec fn render_entries(e: Seq<(Seq<char>, FieldView)>) -> Seq<char>
    decreases e.len(),
{
    if e.len() == 0 {
        Seq::empty()
    } else {
        render_entries(e.drop_last()) + yaml_entry(e.last().0, e.last().1)
    }
}

/// Relies on `serde_yaml::to_string` for a map of one string key to a
/// `serde_json::Value`: the text depends on the key and the value alone. It
/// returns no error here: serde_yaml fails only on byte arrays and nested
/// enums, which a `serde_json::Value` never hands it, and its emitter writes
/// to memory.
#[verifier::external_body]
fn yaml_entry_text(key: &String, value: &FieldValue) -> (r: String)
    ensures
        r@ == yaml_entry(key@, value@),
{
    let json = match value {
        FieldValue::Text(s) => serde_json::Value::String(s.clone()),
        FieldValue::List(v) => serde_json::Value::from(v.clone()),
        FieldValue::Json(j) => j.clone(),
    };
    serde_yaml::to_string(&std::collections::BTreeMap::from([(key, json)])).unwrap()
}

impl BlogPost {
    pub closed spec fn wf(&self) -> bool {
        &&& ascending(texts(self.tags@))
        &&& ascending(keys_of(entry_views(self.frontmatter@)))
    }

    /// Starts a post with `title`; its slug is the title normalized.
    pub fn new(title: String) -> (r: Template)
        ensures
            r.wf(),
            r@ == (TemplateView {
                title: title@,
                slug: slug_of(title@),
                tags: Set::empty(),
                meta: Map::empty(),
            }),
    {
        let slug = normalize(title.as_str());
        let r = Template { slug, title, tags: Vec::new(), meta: Vec::new() };
        proof {
            assert(texts(r.tags@).to_set() =~= Set::empty());
            assert(map_of(entry_views(r.meta@)) =~= Map::empty());
        }
        r
    }

    /// Turns a template into a post with `body`: the frontmatter is the
    /// properties set, with the slug, the title and the tags put over them.
    pub fn from_template(template: Template, body: String) -> (r: BlogPost)
        requires
            template.wf(),
        ensures
            r.wf(),
            r@.title == template@.title,
            r@.slug == template@.slug,
            ascending(r@.tags),
            r@.tags.to_set() == template@.tags,
            ascending(keys_of(r@.frontmatter)),
            r@.body == body@,
            r@.fields() == frontmatter_of(template@.meta, template@.title, template@.slug, r@.tags),
    {
        let Template { title, slug, tags, meta } = template;
        let mut frontmatter = meta;
        insert_entry(&mut frontmatter, "slug".to_string(), FieldValue::Text(slug.clone()));
        insert_entry(&mut frontmatter, "title".to_string(), FieldValue::Text(title.clone()));
        let listed = tags.clone();
        proof {
            assert(listed@ =~= tags@);
        }
        insert_entry(&mut frontmatter, "tags".to_string(), FieldValue::List(listed));
        BlogPost { frontmatter, title, slug, tags, body }
    }

    /// The frontmatter entries, in ascending order of key.
    pub fn frontmatter(&self) -> (r: &Vec<(String, FieldValue)>)
        ensures
            entry_views(r@) == self@.frontmatter,
    {
        &self.frontmatter
    }

    pub fn title(&self) -> (r: &String)
        ensures
            r@ == self@.title,
    {
        &self.title
    }

    pub fn slug(&self) -> (r: &String)
        ensures
            r@ == self@.slug,
    {
        &self.slug
    }

    /// The tags, in ascending order.
    pub fn tags(&self) -> (r: &Vec<String>)
        ensures
            texts(r@) == self@.tags,
    {
        &self.tags
    }

    pub fn body(&self) -> (r: &String)
        ensures
            r@ == self@.body,
    {
        &self.body
    }

    /// The frontmatter as YAML: an entry for each key, in ascending order. The
    /// text of a block mapping is the text of its entries one after another.
    pub fn as_frontmatter(&self) -> (r: String)
        requires
            self.wf(),
        ensures
            r@ == render_entries(self@.frontmatter),
            ascending(keys_of(self@.frontmatter)),
    {
        let mut r = String::new();
        let mut i: usize = 0;
        while i < self.frontmatter.len()
            invariant
                i <= self.frontmatter@.len(),
                r@ == render_entries(self@.frontmatter.take(i as int)),
            decreases self.frontmatter@.len() - i,
        {
            let entry = yaml_entry_text(&self.frontmatter[i].0, &self.frontmatter[i].1);
            proof {
                assert(self@.frontmatter.take(i + 1).drop_last() =~= self@.frontmatter.take(i as int));
            }
            r.append(entry.as_str());
            i = i + 1;
        }
        proof {
            assert(self@.frontmatter.take(i as int) =~= self@.frontmatter);
        }
        r
    }

    /// The whole file: the frontmatter, a `---` line, an empty line and the
    /// body.
    pub fn as_file(&self) -> (r: String)
        requires
            self.wf(),
        ensures
            r@ == render_entries(self@.frontmatter) + "---\n\n"@ + self@.body,
    {
        let mut r = self.as_frontmatter();
        r.append("---\n\n");
        r.append(self.body.as_str());
        r
    }
}

} // verus!
