use vstd::prelude::*;

use crate::calendar::{date_text, CalendarDate};
use crate::convert::{
    convert, converted, has_invalid_number, offsets_in_range, offsets_valid, RenderError,
};
use crate::inject::{inject, injected};
use crate::json::{comma_joined, json_text, lemma_comma_joined_push, to_json};
use crate::text::text_equal;
use crate::value::{StructuredModel, StructuredValue};

verus! {

broadcast use vstd::std_specs::vec::group_vec_axioms, vstd::seq::group_seq_axioms;

/// The parameters of one release: versions, tweet, PVT line range and jiras.
#[derive(Debug)]
pub struct Context {
    pub name: String,
    pub current_version: String,
    pub next_version: String,
    pub tweet: String,
    pub pvt_line_range: String,
    pub jiras: Vec<String>,
    pub wip_jiras: Vec<String>,
}

impl Context {
    pub fn new(
        name: String,
        current_version: String,
        next_version: String,
        tweet: String,
        pvt_line_range: String,
        jiras: Vec<String>,
        wip_jiras: Vec<String>,
    ) -> (r: Context)
        ensures
            r.name == name,
            r.current_version == current_version,
            r.next_version == next_version,
            r.tweet == tweet,
            r.pvt_line_range == pvt_line_range,
            r.jiras == jiras,
            r.wip_jiras == wip_jiras,
    {
        Context { name, current_version, next_version, tweet, pvt_line_range, jiras, wip_jiras }
    }
}

/// One document of a release, rendered into one JSON object.
#[derive(Debug)]
pub struct Template {
    pub id: String,
    pub content: StructuredValue,
}

/// The JSON text of a template's content: converted, then injected at the root.
pub open spec fn template_text(content: StructuredModel, ctx: Context, today: Seq<char>) -> Seq<
    char,
> {
    json_text(injected(converted(content, ctx), ctx, today))
}

/// Whether every timestamp of every template has its offset in range.
pub open spec fn all_offsets_in_range(templates: Seq<Template>) -> bool {
    forall|i: int| 0 <= i < templates.len() ==> offsets_in_range(#[trigger] templates[i].content@)
}

/// Whether every timestamp of every template has its offset in range.
pub fn templates_offsets_valid(templates: &Vec<Template>) -> (r: bool)
    ensures
        r == all_offsets_in_range(templates@),
{
    let mut i: usize = 0;
    while i < templates.len()
        invariant
            i <= templates.len(),
            forall|j: int| 0 <= j < i ==> offsets_in_range(#[trigger] templates@[j].content@),
        decreases templates.len() - i,
    {
        if !offsets_valid(&templates[i].content) {
            return false;
        }
        i = i + 1;
    }
    true
}

/// Whether some template of the sequence holds a float that JSON cannot hold.
pub open spec fn some_invalid_number(templates: Seq<Template>) -> bool {
    exists|i: int| 0 <= i < templates.len() && has_invalid_number(#[trigger] templates[i].content@)
}

/// The texts of the templates, in their order.
pub open spec fn template_texts(templates: Seq<Template>, ctx: Context, today: Seq<char>) -> Seq<
    Seq<char>,
> {
    Seq::new(templates.len(), |i: int| template_text(templates[i].content@, ctx, today))
}

/// The JSON array of the templates' texts, in their order.
pub open spec fn release_text(templates: Seq<Template>, ctx: Context, today: Seq<char>) -> Seq<
    char,
> {
    "["@ + comma_joined(template_texts(templates, ctx, today)) + "]"@
}

/// Two templates render as a two-element array that holds the first
/// template's text, then the second's, each rendered with the same context.
pub proof fn lemma_two_templates_in_order(templates: Seq<Template>, ctx: Context, today: Seq<char>)
    requires
        templates.len() == 2,
    ensures
        release_text(templates, ctx, today) == "["@ + template_text(templates[0].content@, ctx, today)
            + ","@ + template_text(templates[1].content@, ctx, today) + "]"@,
{
    let texts = template_texts(templates, ctx, today);
    assert(texts.drop_last() =~= seq![texts[0]]);
    reveal_with_fuel(comma_joined, 2);
    assert(comma_joined(texts) == texts[0] + ","@ + texts[1]);
    assert(release_text(templates, ctx, today) =~= "["@ + texts[0] + ","@ + texts[1] + "]"@);
}

impl Template {
    pub fn new(id: String, content: StructuredValue) -> (r: Template)
        ensures
            r.id == id,
            r.content == content,
    {
        Template { id, content }
    }

    /// The template's JSON text, with `today` as the default release date.
    pub fn print(&self, ctx: &Context, today: &CalendarDate) -> (r: Result<String, RenderError>)
        requires
            offsets_in_range(self.content@),
        ensures
            r is Err <==> has_invalid_number(self.content@),
            r is Err ==> r == Err::<String, RenderError>(RenderError::InvalidNumber),
            r is Ok ==> r->Ok_0@ == template_text(self.content@, *ctx, date_text(*today)),
    {
        let json = convert(&self.content, ctx)?;
        let date = today.text();
        let root = inject(json, ctx, date.as_str());
        Ok(to_json(&root))
    }
}

/// A named group of templates.
#[derive(Debug)]
pub struct Release {
    pub name: String,
    pub templates: Vec<Template>,
}

impl Release {
    pub fn templates(&self) -> (r: &Vec<Template>)
        ensures
            r == &self.templates,
    {
        &self.templates
    }
}

/// Whether `i` is the first position of a release named `name`.
pub open spec fn first_release_at(releases: Seq<Release>, name: Seq<char>, i: int) -> bool {
    0 <= i < releases.len() && releases[i].name@ == name && forall|j: int|
        0 <= j < i ==> #[trigger] releases[j].name@ != name
}

/// The configuration: the releases, in the order the file gives them.
#[derive(Debug)]
pub struct Conf {
    pub releases: Vec<Release>,
}

impl Conf {
    /// The first release named `name`.
    pub fn release(&self, name: &str) -> (r: Option<&Release>)
        ensures
            r is None <==> forall|i: int|
                0 <= i < self.releases.len() ==> #[trigger] self.releases[i].name@ != name@,
            r is Some ==> exists|i: int|
                first_release_at(self.releases@, name@, i) && *r->Some_0 == self.releases[i],
    {
        let mut i: usize = 0;
        while i < self.releases.len()
            invariant
                i <= self.releases.len(),
                forall|j: int| 0 <= j < i ==> #[trigger] self.releases[j].name@ != name@,
            decreases self.releases.len() - i,
        {
            if text_equal(self.releases[i].name.as_str(), name) {
                assert(first_release_at(self.releases@, name@, i as int));
                return Some(&self.releases[i]);
            }
            i = i + 1;
        }
        None
    }
}

/// Renders the templates of a release as one JSON array.
pub struct Console {}

impl Console {
    pub fn new() -> (r: Console) {
        Console {}
    }

    /// The JSON array of the templates' texts, in their order; nothing where
    /// one of them fails.
    pub fn render(&self, templates: &Vec<Template>, ctx: &Context, today: &CalendarDate) -> (r:
        Result<String, RenderError>)
        requires
            all_offsets_in_range(templates@),
        ensures
            r is Err <==> some_invalid_number(templates@),
            r is Err ==> r == Err::<String, RenderError>(RenderError::InvalidNumber),
            r is Ok ==> r->Ok_0@ == release_text(templates@, *ctx, date_text(*today)),
    {
        let texts = Ghost(template_texts(templates@, *ctx, date_text(*today)));
        let mut r = String::new();
        r.append("[");
        proof {
            reveal_strlit("[");
            reveal_strlit("]");
            reveal_strlit(",");
        }
        let mut i: usize = 0;
        while i < templates.len()
            invariant
                texts@ == template_texts(templates@, *ctx, date_text(*today)),
                i <= templates.len(),
                forall|j: int| 0 <= j < i ==> !has_invalid_number(#[trigger] templates[j].content@),
                all_offsets_in_range(templates@),
                r@ == "["@ + comma_joined(texts@.subrange(0, i as int)),
            decreases templates.len() - i,
        {
            proof {
                lemma_comma_joined_push(texts@, i as int);
            }
            assert(offsets_in_range(templates@[i as int].content@));
            let part = templates[i].print(ctx, today)?;
            if i > 0 {
                r.append(",");
            }
            r.append(part.as_str());
            i = i + 1;
            assert(r@ =~= "["@ + comma_joined(texts@.subrange(0, i as int)));
        }
        r.append("]");
        assert(texts@.subrange(0, i as int) =~= texts@);
        Ok(r)
    }
}

} // verus!
