//! The order in which a page's wikitext becomes HTML: its live template,
//! show-to stripping, includes, ListPages modules at the page shown,
//! comments and FTML's preprocessor, then FTML's parser and renderer. The
//! steps that read the database are the caller's; this module says which
//! comes next and runs the others.

use crate::render::preprocess::{finish_preprocessing, ftml_preprocessed};
use crate::render::show_to::{cut_regions, regions_of, strip_show_to_regions};
use crate::render::wikidot_comments::strip_from;
use crate::import::opt_view;
use crate::search::strings_view;
use ftml::data::{PageInfo, PageRef, ScoreValue};
use ftml::tree::CodeBlock;
use ftml::layout::Layout;
use ftml::render::Render;
use ftml::render::html::HtmlRender;
use ftml::settings::{WikitextMode, WikitextSettings};
use vstd::prelude::*;

verus! {

/// Where a render stands.
#[derive(Debug, Clone, Copy, PartialEq, Eq, Structural)]
pub enum RenderStage {
    /// Nothing done yet; the event is the page source.
    Begin,
    /// The live template was asked for; the event is the templated source.
    Templated,
    /// Includes were asked for; the event is the expanded source.
    Included,
    /// ListPages modules were asked for; the event is the expanded source.
    Listed,
    /// The text to render was handed out.
    Done,
}

/// A render in progress: its stage, and the ListPages page shown for a
/// published page body (`None` for fragments such as navigation pages and
/// previews).
#[derive(Debug, Clone, Copy, PartialEq, Eq, Structural)]
pub struct RenderState {
    pub stage: RenderStage,
    pub list_page: Option<usize>,
}

/// What the caller does next.
#[derive(Debug)]
pub enum RenderAction {
    /// Fill the page's category live template from this source.
    ApplyLiveTemplate(String),
    /// Expand the includes of this source.
    ExpandIncludes(String),
    /// Expand the ListPages modules of this source, showing this page.
    ExpandListPages(String, usize),
    /// Parse and render this wikitext (`parse_body`, `render_body`). The
    /// published FTML renders without link titles fetched beforehand.
    Render(String),
}

/// A text with its show-to regions removed, as shared output has it.
pub open spec fn show_to_stripped(text: Seq<char>) -> Seq<char> {
    cut_regions(text, regions_of(text, None), 0)
}

/// The wikitext FTML tokenizes, from a source whose modules are expanded.
pub open spec fn tokenized_text(text: Seq<char>) -> Seq<char> {
    ftml_preprocessed(strip_from(text, 0))
}

/// The next step of a render, given the text the last step produced (the
/// page source at the start). A published body gets its live template
/// first; every source is stripped of its show-to regions before includes
/// are expanded; ListPages modules show the requested page, the first for a
/// fragment; comments go and FTML's preprocessor runs last.
pub fn render_step(state: RenderState, text: String) -> (out: (RenderState, RenderAction))
    ensures
        out.0.list_page == state.list_page,
        match state.stage {
            RenderStage::Begin => match state.list_page {
                Some(_) => out.0.stage == RenderStage::Templated && (out.1 matches RenderAction::ApplyLiveTemplate(t) && t@ == text@),
                None => out.0.stage == RenderStage::Included
                    && (out.1 matches RenderAction::ExpandIncludes(t) && t@ == show_to_stripped(text@)),
            },
            RenderStage::Templated => out.0.stage == RenderStage::Included
                && (out.1 matches RenderAction::ExpandIncludes(t) && t@ == show_to_stripped(text@)),
            RenderStage::Included => out.0.stage == RenderStage::Listed
                && (out.1 matches RenderAction::ExpandListPages(t, n) && t@ == text@
                    && n == match state.list_page { Some(p) => p, None => 1 }),
            RenderStage::Listed => out.0.stage == RenderStage::Done
                && (out.1 matches RenderAction::Render(t) && t@ == tokenized_text(text@)),
            RenderStage::Done => out.0.stage == RenderStage::Done
                && (out.1 matches RenderAction::Render(t) && t@ == text@),
        },
{
    match state.stage {
        RenderStage::Begin => match state.list_page {
            Some(_) => (RenderState { stage: RenderStage::Templated, list_page: state.list_page }, RenderAction::ApplyLiveTemplate(text)),
            None => (RenderState { stage: RenderStage::Included, list_page: state.list_page }, RenderAction::ExpandIncludes(strip_show_to_regions(text))),
        },
        RenderStage::Templated => (RenderState { stage: RenderStage::Included, list_page: state.list_page }, RenderAction::ExpandIncludes(strip_show_to_regions(text))),
        RenderStage::Included => {
            let n = match state.list_page {
                Some(p) => p,
                None => 1,
            };
            (RenderState { stage: RenderStage::Listed, list_page: state.list_page }, RenderAction::ExpandListPages(text, n))
        },
        RenderStage::Listed => (RenderState { stage: RenderStage::Done, list_page: state.list_page }, RenderAction::Render(finish_preprocessing(text))),
        RenderStage::Done => (state, RenderAction::Render(text)),
    }
}

/// FTML's render modes for page bodies.
#[derive(Debug, Clone, Copy, PartialEq, Eq, Structural)]
pub enum RenderMode {
    /// A page body.
    Page,
    /// A navigation page shown on another page.
    PageNav,
}

/// FTML's HTML layouts.
#[derive(Debug, Clone, Copy, PartialEq, Eq, Structural)]
pub enum RenderLayout {
    Wikidot,
    Wikijump,
}

/// What FTML knows of the page it renders. The score is an integer score.
#[derive(Debug)]
pub struct PageFacts {
    pub page: String,
    pub category: Option<String>,
    pub site: String,
    pub title: String,
    pub alt_title: Option<String>,
    pub score: i64,
    pub tags: Vec<String>,
    pub language: String,
}

/// What a `PageFacts` says, as plain values.
pub struct PageFactsView {
    pub page: Seq<char>,
    pub category: Option<Seq<char>>,
    pub site: Seq<char>,
    pub title: Seq<char>,
    pub alt_title: Option<Seq<char>>,
    pub score: i64,
    pub tags: Seq<Seq<char>>,
    pub language: Seq<char>,
}

impl View for PageFacts {
    type V = PageFactsView;

    open spec fn view(&self) -> PageFactsView {
        PageFactsView {
            page: self.page@,
            category: opt_view(self.category),
            site: self.site@,
            title: self.title@,
            alt_title: opt_view(self.alt_title),
            score: self.score,
            tags: strings_view(self.tags@),
            language: self.language@,
        }
    }
}

/// FTML's description of the page being rendered.
#[verifier::external_type_specification]
#[verifier::external_body]
pub struct ExPageInfo<'a>(PageInfo<'a>);

/// FTML's `PageInfo` with the facts' values, an integer score among them.
#[verifier::external_body]
fn ftml_page_info(facts: &PageFacts) -> (out: PageInfo<'static>)
{
    PageInfo {
        page: facts.page.clone().into(), category: facts.category.clone().map(Into::into),
        site: facts.site.clone().into(), title: facts.title.clone().into(),
        alt_title: facts.alt_title.clone().map(Into::into), score: ScoreValue::Integer(facts.score),
        tags: facts.tags.iter().map(|t| t.clone().into()).collect(), language: facts.language.clone().into(),
    }
}

/// A page made ready for FTML: its facts, and FTML's `PageInfo` made from
/// them when the page was. Only `RenderPage::new` makes one, so the two
/// always agree.
#[derive(Debug)]
pub struct RenderPage {
    facts: PageFacts,
    info: PageInfo<'static>,
}

impl RenderPage {
    /// The facts the page was made from.
    pub closed spec fn facts_view(&self) -> PageFactsView {
        self.facts@
    }

    pub fn new(facts: PageFacts) -> (out: RenderPage)
        ensures
            out.facts_view() == facts@,
    {
        let info = ftml_page_info(&facts);
        RenderPage { facts, info }
    }
}

/// FTML's render settings.
#[verifier::external_type_specification]
#[verifier::external_body]
pub struct ExWikitextSettings(WikitextSettings);

/// `WikitextSettings::from_mode` for a page body or a navigation page.
#[verifier::external_body]
fn ftml_settings(mode: RenderMode, layout: RenderLayout) -> (out: WikitextSettings)
{
    let layout = match layout { RenderLayout::Wikidot => Layout::Wikidot, RenderLayout::Wikijump => Layout::Wikijump };
    match mode {
        RenderMode::Page => WikitextSettings::from_mode(WikitextMode::Page, layout),
        RenderMode::PageNav => WikitextSettings::from_mode(WikitextMode::PageNav, layout),
    }
}

/// A mode and layout made ready for FTML: FTML's settings for them, made
/// when these were. Only `RenderSettings::new` makes one, so the settings
/// always are those of the mode and layout.
#[derive(Debug)]
pub struct RenderSettings {
    mode: RenderMode,
    layout: RenderLayout,
    settings: WikitextSettings,
}

impl RenderSettings {
    pub closed spec fn mode(&self) -> RenderMode {
        self.mode
    }

    pub closed spec fn layout(&self) -> RenderLayout {
        self.layout
    }

    pub fn new(mode: RenderMode, layout: RenderLayout) -> (out: RenderSettings)
        ensures
            out.mode() == mode,
            out.layout() == layout,
    {
        RenderSettings { mode, layout, settings: ftml_settings(mode, layout) }
    }
}

/// A page named in rendered output: its site when another, its name, and
/// what followed the name (an anchor or path), as FTML's `PageRef` holds it.
#[derive(Debug)]
pub struct PageRefText {
    pub site: Option<String>,
    pub page: String,
    pub extra: Option<String>,
}

pub open spec fn page_ref_view(r: PageRefText) -> (Option<Seq<char>>, Seq<char>, Option<Seq<char>>) {
    (opt_view(r.site), r.page@, opt_view(r.extra))
}

/// A `[[code]]` block of a page: its text, language and name.
#[derive(Debug)]
pub struct CodeBlockText {
    pub contents: String,
    pub language: Option<String>,
    pub name: Option<String>,
}

pub open spec fn code_block_view(c: CodeBlockText) -> (Seq<char>, Option<Seq<char>>, Option<Seq<char>>) {
    (c.contents@, opt_view(c.language), opt_view(c.name))
}

/// What FTML renders of a page: the HTML body, the pages it includes and
/// links to, and its outside links.
#[derive(Debug)]
pub struct RenderedPage {
    pub body: String,
    pub included_pages: Vec<PageRefText>,
    pub internal_links: Vec<PageRefText>,
    pub external_links: Vec<String>,
}

/// What a `RenderedPage` says, as plain values.
pub struct RenderedView {
    pub body: Seq<char>,
    pub included_pages: Seq<(Option<Seq<char>>, Seq<char>, Option<Seq<char>>)>,
    pub internal_links: Seq<(Option<Seq<char>>, Seq<char>, Option<Seq<char>>)>,
    pub external_links: Seq<Seq<char>>,
}

impl View for RenderedPage {
    type V = RenderedView;

    open spec fn view(&self) -> RenderedView {
        RenderedView {
            body: self.body@,
            included_pages: self.included_pages@.map_values(|r: PageRefText| page_ref_view(r)),
            internal_links: self.internal_links@.map_values(|r: PageRefText| page_ref_view(r)),
            external_links: strings_view(self.external_links@),
        }
    }
}

/// What FTML's parser finds in a page: the kind of each parse error, and
/// the `[[html]]` and `[[code]]` blocks the page stores.
#[derive(Debug)]
pub struct ParsedPage {
    pub errors: Vec<String>,
    pub html_blocks: Vec<String>,
    pub code_blocks: Vec<CodeBlockText>,
}

/// What a `ParsedPage` says, as plain values.
pub struct ParsedView {
    pub errors: Seq<Seq<char>>,
    pub html_blocks: Seq<Seq<char>>,
    pub code_blocks: Seq<(Seq<char>, Option<Seq<char>>, Option<Seq<char>>)>,
}

impl View for ParsedPage {
    type V = ParsedView;

    open spec fn view(&self) -> ParsedView {
        ParsedView {
            errors: strings_view(self.errors@),
            html_blocks: strings_view(self.html_blocks@),
            code_blocks: self.code_blocks@.map_values(|c: CodeBlockText| code_block_view(c)),
        }
    }
}

/// Whether `out` is a rendering FTML can give of `text` for this page in
/// this mode and layout. FTML draws some element IDs at random, so one
/// input has many renderings; which one comes out is not said.
pub uninterp spec fn ftml_renders(text: Seq<char>, page: PageFactsView, mode: RenderMode, layout: RenderLayout, out: RenderedView) -> bool;

/// Whether `out` is what FTML's parser gives of `text` for this page in this
/// mode and layout.
pub uninterp spec fn ftml_parses(text: Seq<char>, page: PageFactsView, mode: RenderMode, layout: RenderLayout, out: ParsedView) -> bool;

/// `ftml::tokenize`, `ftml::parse` and `HtmlRender`'s `render` in turn on
/// the given wikitext, the page's `PageInfo` and the settings' FTML settings, giving the HTML body and
/// the output's backlinks. Claimed: the result is one of the renderings
/// FTML gives of exactly these arguments (`ftml_renders`), the page's
/// `PageInfo` and the FTML settings being the ones made of its facts and of
/// the mode and layout. Not claimed: which one (its
/// element IDs are random), nor that FTML never panics; ftml has internal
/// `panic!`s that no input is known to reach.
#[verifier::external_body]
fn ftml_render(text: &str, page: &RenderPage, settings: &RenderSettings) -> (out: RenderedPage)
    ensures
        ftml_renders(text@, page.facts_view(), settings.mode(), settings.layout(), out@),
{
    let tokens = ftml::tokenize(text);
    let (tree, _) = ftml::parse(&tokens, &page.info, &settings.settings).into();
    let html = HtmlRender.render(&tree, &page.info, &settings.settings);
    let refs = |v: Vec<PageRef>| v.into_iter().map(|r| PageRefText { site: r.site, page: r.page, extra: r.extra }).collect();
    let external_links = html.backlinks.external_links.iter().map(|l| l.to_string()).collect();
    RenderedPage { body: html.body, included_pages: refs(html.backlinks.included_pages), internal_links: refs(html.backlinks.internal_links), external_links }
}

/// `ftml::tokenize` and `ftml::parse` on the given wikitext, the page's
/// `PageInfo` and the FTML settings, giving the kind of each parse
/// error and the tree's `[[html]]` and `[[code]]` blocks. Claimed: this is
/// what FTML's parser gives of exactly these arguments (`ftml_parses`). Not
/// claimed: that FTML never panics (see `ftml_render`).
#[verifier::external_body]
fn ftml_parse(text: &str, page: &RenderPage, settings: &RenderSettings) -> (out: ParsedPage)
    ensures
        ftml_parses(text@, page.facts_view(), settings.mode(), settings.layout(), out@),
{
    let tokens = ftml::tokenize(text);
    let (tree, errors) = ftml::parse(&tokens, &page.info, &settings.settings).into();
    let errors = errors.iter().map(|e| e.kind().name().to_string()).collect();
    let html_blocks = tree.html_blocks.iter().map(|b| b.to_string()).collect();
    let code = |c: &CodeBlock| CodeBlockText { contents: c.contents.to_string(), language: c.language.as_deref().map(Into::into), name: c.name.as_deref().map(Into::into) };
    ParsedPage { errors, html_blocks, code_blocks: tree.code_blocks.iter().map(code).collect() }
}

/// A page's wikitext rendered by FTML, as `render_step` hands it out, in
/// the settings' mode and layout: one of the renderings FTML gives of exactly
/// this text and page (some element IDs are drawn at random).
pub fn render_body(text: &str, page: &RenderPage, settings: &RenderSettings) -> (out: RenderedPage)
    ensures
        ftml_renders(text@, page.facts_view(), settings.mode(), settings.layout(), out@),
{
    ftml_render(text, page, settings)
}

/// What FTML's parser finds in a page's wikitext, as `render_step` hands it
/// out, in the settings' mode and layout: its parse errors, and the `[[html]]` and `[[code]]` blocks stored
/// with a published page.
pub fn parse_body(text: &str, page: &RenderPage, settings: &RenderSettings) -> (out: ParsedPage)
    ensures
        ftml_parses(text@, page.facts_view(), settings.mode(), settings.layout(), out@),
{
    ftml_parse(text, page, settings)
}

} // verus!
