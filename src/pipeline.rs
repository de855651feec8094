//! The extraction pipeline: from a rendered page to an extraction result,
//! and the result's console and service forms.
use vstd::prelude::*;
use crate::chars::{is_ws, join_with_space, joined, trim, views};
use crate::colon::{colons_attached, fix_colon_spacing, has_colon_run, lemma_tidy, tidy, well_punctuated};
use crate::document::{image_sources_of, select_image_sources, select_text_containers, text_containers_of};
use crate::media::{extract_media_links, lemma_media_links_filtered, media_of, source_views, starts_with};
use crate::text::{
    container_views, extract_text, kept_texts, lemma_extracted_texts_well_punctuated,
    lemma_well_punctuated_scheme_free, scheme_free, ContainerView, TextContainer,
};

verus! {

/// Where the post text and the media images are found on a page, and which
/// images are avatars.
pub struct ExtractionConfig {
    /// Selector of the post-text containers.
    pub text_selector: String,
    /// Selector of the media images.
    pub image_selector: String,
    /// Image sources that begin with this prefix are profile images.
    pub profile_prefix: String,
}

impl ExtractionConfig {
    pub fn new(text_selector: String, image_selector: String, profile_prefix: String) -> (r:
        ExtractionConfig)
        ensures
            r.text_selector@ == text_selector@,
            r.image_selector@ == image_selector@,
            r.profile_prefix@ == profile_prefix@,
    {
        ExtractionConfig { text_selector, image_selector, profile_prefix }
    }

    /// The selectors and the profile-image prefix of the platform's current
    /// markup.
    pub fn platform_default() -> (r: ExtractionConfig)
        ensures
            r.text_selector@ == TEXT_SELECTOR@,
            r.image_selector@ == IMAGE_SELECTOR@,
            r.profile_prefix@ == PROFILE_IMAGE_PREFIX@,
    {
        ExtractionConfig {
            text_selector: String::from_str(TEXT_SELECTOR),
            image_selector: String::from_str(IMAGE_SELECTOR),
            profile_prefix: String::from_str(PROFILE_IMAGE_PREFIX),
        }
    }
}

/// The post-text containers.
pub const TEXT_SELECTOR: &'static str = "div[data-testid=\"tweetText\"]";

/// The media images; the class name follows the platform's markup.
pub const IMAGE_SELECTOR: &'static str = "img.css-9pa8cd";

/// Sources of profile images begin with this.
pub const PROFILE_IMAGE_PREFIX: &'static str = "https://pbs.twimg.com/profile_images";

/// Why a page could not be had.
pub enum ExtractionError {
    /// The page could not be reached or loaded.
    Navigation(String),
    /// The post-text container did not appear in time.
    Timeout(String),
}

impl ExtractionError {
    pub open spec fn message(&self) -> Seq<char> {
        match self {
            ExtractionError::Navigation(m) => m@,
            ExtractionError::Timeout(m) => m@,
        }
    }

    /// The error's description.
    pub fn description(&self) -> (r: String)
        ensures
            r@ == self.message(),
    {
        match self {
            ExtractionError::Navigation(m) => m.clone(),
            ExtractionError::Timeout(m) => m.clone(),
        }
    }

    pub fn is_timeout(&self) -> (r: bool)
        ensures
            r == (self is Timeout),
    {
        match self {
            ExtractionError::Timeout(_) => true,
            _ => false,
        }
    }
}

/// The text and the media links of one post.
pub struct ExtractionResult {
    /// The normalized text of each container that had text, in order.
    pub texts: Vec<String>,
    /// The texts joined with a space, colons re-punctuated, trimmed.
    pub text: String,
    /// The media links, in document order.
    pub media_links: Vec<String>,
}

/// The lines, each followed by a newline.
pub open spec fn lines(parts: Seq<Seq<char>>) -> Seq<char>
    decreases parts.len(),
{
    if parts.len() == 0 {
        Seq::empty()
    } else {
        lines(parts.drop_last()) + parts.last() + seq!['\n']
    }
}

impl ExtractionResult {
    pub open spec fn wf(&self) -> bool {
        self.text@ == tidy(joined(views(self.texts@)))
    }

    /// The text, a newline, and the media links joined with a space.
    pub open spec fn payload(&self) -> Seq<char> {
        self.text@ + seq!['\n'] + joined(views(self.media_links@))
    }

    /// The console form: the texts, the media links and the payload, under
    /// their headings.
    pub open spec fn console_form(&self) -> Seq<char> {
        "\nTweet Text:\n"@ + lines(views(self.texts@)) + "\nMedia Links:\n"@ + lines(
            views(self.media_links@),
        ) + "\nResult:\n"@ + self.payload() + seq!['\n']
    }

    /// The combined two-line payload.
    pub fn combined(&self) -> (r: String)
        ensures
            r@ == self.payload(),
    {
        let mut out = self.text.clone();
        proof {
            reveal_strlit("\n");
        }
        out.append("\n");
        let links = join_with_space(&self.media_links);
        out.append(links.as_str());
        out
    }

    /// The console form of the result.
    pub fn console_report(&self) -> (r: String)
        ensures
            r@ == self.console_form(),
    {
        proof {
            reveal_strlit("\nTweet Text:\n");
            reveal_strlit("\nMedia Links:\n");
            reveal_strlit("\nResult:\n");
            reveal_strlit("\n");
        }
        let mut out = String::new();
        out.append("\nTweet Text:\n");
        append_lines(&mut out, &self.texts);
        out.append("\nMedia Links:\n");
        append_lines(&mut out, &self.media_links);
        out.append("\nResult:\n");
        let payload = self.combined();
        out.append(payload.as_str());
        out.append("\n");
        assert(out@ =~= self.console_form());
        out
    }
}

fn append_lines(out: &mut String, parts: &Vec<String>)
    ensures
        final(out)@ == old(out)@ + lines(views(parts@)),
{
    let ghost start = out@;
    let mut k: usize = 0;
    while k < parts.len()
        invariant
            k <= parts@.len(),
            out@ == start + lines(views(parts@).take(k as int)),
        decreases parts@.len() - k,
    {
        proof {
            reveal_strlit("\n");
        }
        let ghost before = out@;
        out.append(parts[k].as_str());
        out.append("\n");
        let ghost next = views(parts@).take(k + 1);
        assert(next.drop_last() =~= views(parts@).take(k as int));
        assert(next.last() == parts@[k as int]@);
        assert(lines(next) == lines(views(parts@).take(k as int)) + parts@[k as int]@ + seq!['\n']);
        assert(out@ =~= before + parts@[k as int]@ + seq!['\n']);
        assert(out@ =~= start + lines(next));
        k = k + 1;
    }
    assert(views(parts@).take(parts@.len() as int) =~= views(parts@));
}

/// The result of the given containers and image sources.
pub open spec fn result_of(
    r: ExtractionResult,
    cs: Seq<ContainerView>,
    srcs: Seq<Option<Seq<char>>>,
    prefix: Seq<char>,
) -> bool {
    &&& views(r.texts@) == kept_texts(cs)
    &&& r.text@ == tidy(joined(kept_texts(cs)))
    &&& views(r.media_links@) == media_of(srcs, prefix)
}

/// The result that a page gives under a configuration.
pub open spec fn result_of_page(r: ExtractionResult, html: Seq<char>, config: ExtractionConfig) -> bool {
    result_of(
        r,
        text_containers_of(html, config.text_selector@),
        image_sources_of(html, config.image_selector@),
        config.profile_prefix@,
    )
}

/// What holds of every assembled result: the text and each of the texts
/// neither begin nor end with whitespace, hold no scheme prefix, and have
/// each colon last or followed by exactly one space; no colon of the text
/// follows whitespace unless two colons of the joined texts stand with only
/// whitespace between them; no media link begins with the profile-image
/// prefix.
pub open spec fn clean(r: ExtractionResult, prefix: Seq<char>) -> bool {
    &&& r.wf()
    &&& well_punctuated(r.text@)
    &&& scheme_free(r.text@)
    &&& !has_colon_run(joined(views(r.texts@))) ==> colons_attached(r.text@)
    &&& forall|j: int|
        0 <= j < r.texts@.len() ==> well_punctuated(#[trigger] r.texts@[j]@) && scheme_free(
            r.texts@[j]@,
        )
    &&& forall|j: int|
        0 <= j < r.media_links@.len() ==> !starts_with(#[trigger] r.media_links@[j]@, prefix)
}

/// Builds the result from the containers and the image sources of a page.
pub fn assemble(
    containers: &Vec<TextContainer>,
    sources: &Vec<Option<String>>,
    config: &ExtractionConfig,
) -> (r: ExtractionResult)
    ensures
        result_of(r, container_views(containers@), source_views(sources@), config.profile_prefix@),
        clean(r, config.profile_prefix@),
{
    let texts = extract_text(containers);
    let joined_text = join_with_space(&texts);
    let fixed = fix_colon_spacing(joined_text.as_str());
    let text = trim(fixed.as_str());
    let media_links = extract_media_links(sources, config.profile_prefix.as_str());
    let r = ExtractionResult { texts, text, media_links };
    proof {
        lemma_assembled_clean(r, container_views(containers@), source_views(sources@), config.profile_prefix@);
    }
    r
}

/// Every result of containers and image sources is clean.
pub proof fn lemma_assembled_clean(
    r: ExtractionResult,
    cs: Seq<ContainerView>,
    srcs: Seq<Option<Seq<char>>>,
    prefix: Seq<char>,
)
    requires
        result_of(r, cs, srcs, prefix),
    ensures
        clean(r, prefix),
{
    lemma_extracted_texts_well_punctuated(cs);
    lemma_tidy(joined(kept_texts(cs)));
    lemma_well_punctuated_scheme_free(r.text@);
    lemma_media_links_filtered(srcs, prefix);
    assert forall|j: int| 0 <= j < r.texts@.len() implies well_punctuated(#[trigger] r.texts@[j]@)
        && scheme_free(r.texts@[j]@) by {
        assert(views(r.texts@)[j] == r.texts@[j]@);
    }
    assert forall|j: int| 0 <= j < r.media_links@.len() implies !starts_with(
        #[trigger] r.media_links@[j]@,
        prefix,
    ) by {
        assert(views(r.media_links@)[j] == r.media_links@[j]@);
    }
}

/// Extracts the post text and the media links of a rendered page. A selector
/// that does not parse selects nothing.
pub fn extract(html: &str, config: &ExtractionConfig) -> (r: ExtractionResult)
    ensures
        result_of_page(r, html@, *config),
        clean(r, config.profile_prefix@),
{
    let containers = select_text_containers(html, config.text_selector.as_str());
    let sources = select_image_sources(html, config.image_selector.as_str());
    assemble(&containers, &sources, config)
}

/// Finishes a request: a page that could not be had fails with its error,
/// and no result; a rendered page gives its extraction.
pub fn process_page(page: Result<String, ExtractionError>, config: &ExtractionConfig) -> (r: Result<
    ExtractionResult,
    ExtractionError,
>)
    ensures
        page is Err ==> r == Err::<ExtractionResult, ExtractionError>(page->Err_0),
        page is Ok ==> r is Ok && result_of_page(r->Ok_0, page->Ok_0@, *config) && clean(
            r->Ok_0,
            config.profile_prefix@,
        ),
{
    match page {
        Ok(html) => Ok(extract(html.as_str(), config)),
        Err(e) => Err(e),
    }
}

/// A response of the service: its status code and body.
pub struct Response {
    pub status: u16,
    pub body: String,
}

/// The service's response to the outcome of a request: the payload with
/// status 200, or status 500 with the error's description.
pub fn response_for(outcome: &Result<ExtractionResult, ExtractionError>) -> (r: Response)
    ensures
        outcome is Ok ==> r.status == 200 && r.body@ == outcome->Ok_0.payload(),
        outcome is Err ==> r.status == 500 && r.body@ == "Processing error: "@
            + outcome->Err_0.message(),
{
    match outcome {
        Ok(res) => Response { status: 200, body: res.combined() },
        Err(e) => {
            proof {
                reveal_strlit("Processing error: ");
            }
            let mut body = String::from_str("Processing error: ");
            let d = e.description();
            body.append(d.as_str());
            Response { status: 500, body }
        },
    }
}

} // verus!
