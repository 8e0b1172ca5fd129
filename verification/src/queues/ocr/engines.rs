//! OCR engines: what a page engine takes and gives, and which engine serves
//! which model.

use vstd::prelude::*;
use crate::drivers::{Cost, LlmOpts, TokenUsage};
use crate::json::{Json, JsonNumber};
use crate::page_iter::{Page, PageIterOptions};
use crate::queues::ocr::OcrAnalysis;
use crate::rate_limit::{RateLimit, RateLimitPeriod};
use crate::text::{chars_to_string, find_char, has_prefix_at, has_prefix_at_spec, index_of_char,
    str_eq, str_to_chars};

pub mod llm;
pub mod split_pages;
pub mod textract;

verus! {

/// Input record describing a page to OCR.
#[derive(Debug)]
pub struct OcrPageInput {
    /// The ID of the document.
    pub id: Json,
    /// The index of the page within the document.
    pub page_idx: usize,
    /// The page to OCR.
    pub page: Page,
}

/// Output record describing the result of OCRing a page.
#[derive(Debug)]
pub struct OcrPageOutput {
    /// The text, if the OCR succeeded for this page.
    pub text: Option<String>,
    /// Any errors that occurred during OCR.
    pub errors: Vec<String>,
    /// Any defects in the page that make it difficult to OCR.
    pub analysis: Option<OcrAnalysis>,
    /// How much do we think we spent on this page?
    pub estimated_cost: Option<Cost>,
    /// How many tokens did the LLM use?
    pub token_usage: Option<TokenUsage>,
}

/// The ID under which a page of a document is submitted to the chat queue:
/// the array of the document's ID and the index of the page.
pub fn page_work_id(id: Json, page_idx: usize) -> (page_id: Json)
    ensures
        page_id matches Json::Array(items) && items@ == seq![
            id,
            Json::Number(JsonNumber::PosInt(page_idx as u64)),
        ],
{
    let mut items: Vec<Json> = Vec::new();
    items.push(id);
    items.push(Json::Number(JsonNumber::PosInt(page_idx as u64)));
    Json::Array(items)
}

/// The engines that can OCR a document.
#[derive(Clone, Copy, Debug, PartialEq, Eq, Structural)]
pub enum OcrEngineKind {
    /// `pdftotext`, on the whole file.
    PdfToText,
    /// `tesseract`, page by page.
    Tesseract,
    /// AWS Textract, page by page.
    Textract,
    /// AWS Textract on a whole file in S3.
    TextractAsync,
    /// An LLM, page by page.
    Llm,
}

/// Why an engine cannot be used with the options given.
#[derive(Clone, Copy, Debug, PartialEq, Eq, Structural)]
pub enum OcrEngineError {
    /// `pdftotext` reads text, not images.
    PdfToTextWithRasterize,
    /// `tesseract` reads images only.
    TesseractWithoutRasterize,
    /// Textract on a whole file takes the file as it is.
    TextractAsyncWithPageOptions,
}

impl OcrEngineError {
    /// The sentence that `message` returns.
    pub open spec fn message_spec(&self) -> Seq<char> {
        match self {
            OcrEngineError::PdfToTextWithRasterize => "pdftotext does not work with --rasterize"@,
            OcrEngineError::TesseractWithoutRasterize => "tesseract requires --rasterize"@,
            OcrEngineError::TextractAsyncWithPageOptions =>
                "textract-async does not work with --max-pages or --rasterize"@,
        }
    }

    /// A sentence that describes the error.
    pub fn message(&self) -> (s: String)
        ensures
            s@ == self.message_spec(),
    {
        match self {
            OcrEngineError::PdfToTextWithRasterize => String::from_str(
                "pdftotext does not work with --rasterize",
            ),
            OcrEngineError::TesseractWithoutRasterize => String::from_str(
                "tesseract requires --rasterize",
            ),
            OcrEngineError::TextractAsyncWithPageOptions => String::from_str(
                "textract-async does not work with --max-pages or --rasterize",
            ),
        }
    }
}

impl OcrEngineKind {
    /// The engine that the model name `model` stands for: any name that is not
    /// the name of a classical engine is taken as the name of an LLM.
    pub open spec fn for_model(model: Seq<char>) -> OcrEngineKind {
        if model == "pdftotext"@ {
            OcrEngineKind::PdfToText
        } else if model == "tesseract"@ {
            OcrEngineKind::Tesseract
        } else if model == "textract"@ {
            OcrEngineKind::Textract
        } else if model == "textract-async"@ {
            OcrEngineKind::TextractAsync
        } else {
            OcrEngineKind::Llm
        }
    }

    /// Whether the engine takes a whole file, or else one page at a time.
    pub open spec fn whole_file(self) -> bool {
        self == OcrEngineKind::PdfToText || self == OcrEngineKind::TextractAsync
    }

    /// Whether the engine takes a whole file, or else one page at a time.
    pub fn is_whole_file(self) -> (b: bool)
        ensures
            b == self.whole_file(),
    {
        match self {
            OcrEngineKind::PdfToText => true,
            OcrEngineKind::TextractAsync => true,
            _ => false,
        }
    }

    /// What stands against using the engine with `options`, if anything.
    pub open spec fn conflict(self, options: PageIterOptions) -> Option<OcrEngineError> {
        match self {
            OcrEngineKind::PdfToText => if options.rasterize {
                Some(OcrEngineError::PdfToTextWithRasterize)
            } else {
                None
            },
            OcrEngineKind::Tesseract => if options.rasterize {
                None
            } else {
                Some(OcrEngineError::TesseractWithoutRasterize)
            },
            OcrEngineKind::TextractAsync => if options.max_pages.is_some() || options.rasterize {
                Some(OcrEngineError::TextractAsyncWithPageOptions)
            } else {
                None
            },
            _ => None,
        }
    }
}

/// Get the OCR engine for the specified model, or the reason why the engine
/// does not work with `page_iter_opts`.
pub fn ocr_engine_for_model(model: &str, page_iter_opts: &PageIterOptions) -> (r: Result<
    OcrEngineKind,
    OcrEngineError,
>)
    ensures
        r == match OcrEngineKind::for_model(model@).conflict(*page_iter_opts) {
            Some(e) => Err::<OcrEngineKind, OcrEngineError>(e),
            None => Ok(OcrEngineKind::for_model(model@)),
        },
{
    if str_eq(model, "pdftotext") {
        match PdfToTextOcrEngine::new(false, page_iter_opts) {
            Ok(_) => Ok(OcrEngineKind::PdfToText),
            Err(e) => Err(e),
        }
    } else if str_eq(model, "tesseract") {
        match TesseractOcrEngine::new(page_iter_opts) {
            Ok(_) => Ok(OcrEngineKind::Tesseract),
            Err(e) => Err(e),
        }
    } else if str_eq(model, "textract") {
        Ok(OcrEngineKind::Textract)
    } else if str_eq(model, "textract-async") {
        if page_iter_opts.max_pages.is_some() || page_iter_opts.rasterize {
            Err(OcrEngineError::TextractAsyncWithPageOptions)
        } else {
            Ok(OcrEngineKind::TextractAsync)
        }
    } else {
        Ok(OcrEngineKind::Llm)
    }
}

/// "OCR" engine wrapping the `pdftotext` CLI tool from `poppler-utils`.
///
/// This will miss any "non-searchable" text in a PDF, but sometimes you just
/// want cheap and fast.
#[derive(Clone, Copy, Debug, PartialEq, Eq, Structural)]
pub struct PdfToTextOcrEngine {
    /// Whether pages are separated by a form feed in the output.
    pub include_page_breaks: bool,
    /// The page options of the run.
    pub page_iter_opts: PageIterOptions,
}

impl PdfToTextOcrEngine {
    /// Create a new `pdftotext` engine.
    pub fn new(include_page_breaks: bool, page_iter_opts: &PageIterOptions) -> (r: Result<
        Self,
        OcrEngineError,
    >)
        ensures
            r == if page_iter_opts.rasterize {
                Err::<Self, OcrEngineError>(OcrEngineError::PdfToTextWithRasterize)
            } else {
                Ok(PdfToTextOcrEngine { include_page_breaks, page_iter_opts: *page_iter_opts })
            },
    {
        if page_iter_opts.rasterize {
            Err(OcrEngineError::PdfToTextWithRasterize)
        } else {
            Ok(PdfToTextOcrEngine { include_page_breaks, page_iter_opts: *page_iter_opts })
        }
    }

    /// The text of a file as the engine returns it: where page breaks are
    /// kept, one form feed at the very end is dropped, since the other engines
    /// put none there.
    pub open spec fn trimmed(&self, text: Seq<char>) -> Seq<char> {
        if self.include_page_breaks && text.len() > 0 && text.last() == '\x0c' {
            text.drop_last()
        } else {
            text
        }
    }

    /// Drop the final form feed of the tool's output where page breaks are
    /// kept.
    pub fn trim_final_page_break(&self, text: &str) -> (trimmed: String)
        ensures
            trimmed@ == self.trimmed(text@),
    {
        let chars = str_to_chars(text);
        let n = chars.len();
        if self.include_page_breaks && n > 0 && chars[n - 1] == '\x0c' {
            let s = chars_to_string(&chars, 0, n - 1);
            assert(chars@.subrange(0, n - 1) =~= chars@.drop_last());
            s
        } else {
            let s = chars_to_string(&chars, 0, n);
            assert(chars@.subrange(0, n as int) =~= chars@);
            s
        }
    }
}

/// The arguments of `pdftotext`: `-layout INPUT OUTPUT`, then `-nopgbrk`
/// where page breaks are not kept, `-l LAST` where the pages are limited, and
/// `-upw PASSWORD` where the file has a password.
pub open spec fn pdftotext_args_spec(
    engine: PdfToTextOcrEngine,
    input: Seq<char>,
    output: Seq<char>,
    password: Option<Seq<char>>,
) -> Seq<Seq<char>> {
    seq!["-layout"@, input, output] + (if engine.include_page_breaks {
        Seq::empty()
    } else {
        seq!["-nopgbrk"@]
    }) + (match engine.page_iter_opts.max_pages {
        Some(max_pages) => seq!["-l"@, crate::text::decimal_digits(max_pages as nat)],
        None => Seq::empty(),
    }) + (match password {
        Some(p) => seq!["-upw"@, p],
        None => Seq::empty(),
    })
}

impl PdfToTextOcrEngine {
    /// The arguments with which `pdftotext` writes the text of `input` to
    /// `output`. The limit on pages is handed on as it is: the tool ignores a
    /// last page beyond the end of the file.
    pub fn args(&self, input: &str, output: &str, password: Option<&str>) -> (args: Vec<String>)
        ensures
            crate::text::texts_of(args@) == pdftotext_args_spec(
                *self,
                input@,
                output@,
                match password {
                    Some(p) => Some(p@),
                    None => None,
                },
            ),
    {
        let mut args: Vec<String> = Vec::new();
        args.push(String::from_str("-layout"));
        args.push(String::from_str(input));
        args.push(String::from_str(output));
        if !self.include_page_breaks {
            args.push(String::from_str("-nopgbrk"));
        }
        match self.page_iter_opts.max_pages {
            Some(max_pages) => {
                args.push(String::from_str("-l"));
                args.push(crate::text::decimal_string(max_pages as u64));
            },
            None => {},
        }
        match password {
            Some(p) => {
                args.push(String::from_str("-upw"));
                args.push(String::from_str(p));
            },
            None => {},
        }
        assert(crate::text::texts_of(args@) =~= pdftotext_args_spec(
            *self,
            input@,
            output@,
            match password {
                Some(p) => Some(p@),
                None => None,
            },
        ));
        args
    }

    /// The record of a file that is no PDF: the engine reads PDFs only.
    pub fn reject_non_pdf(id: Json, path: String) -> (out: crate::queues::work::WorkOutput<
        crate::queues::ocr::OcrOutput,
    >)
        ensures
            out.id == id,
            out.status == crate::queues::work::WorkStatus::Failed,
            out.estimated_cost.is_none(),
            out.token_usage.is_none(),
            out.errors@.len() == 1,
            out.errors@[0]@ == "pdftotext only works with PDFs"@,
            out.data.path == path,
            out.data.text.is_none(),
            out.data.page_count.is_none(),
            out.data.analysis.is_none(),
    {
        let mut errors: Vec<String> = Vec::new();
        errors.push(String::from_str("pdftotext only works with PDFs"));
        crate::queues::work::WorkOutput {
            id,
            status: crate::queues::work::WorkStatus::Failed,
            estimated_cost: None,
            token_usage: None,
            errors,
            data: crate::queues::ocr::OcrOutput {
                path,
                text: None,
                page_count: None,
                analysis: None,
            },
        }
    }

    /// The record of a file whose text the tool wrote: `text` is what the tool
    /// wrote, and the record holds it without the final form feed.
    pub fn text_output(&self, id: Json, path: String, text: &str) -> (out:
        crate::queues::work::WorkOutput<crate::queues::ocr::OcrOutput>)
        ensures
            out.id == id,
            out.status == crate::queues::work::WorkStatus::Okay,
            out.estimated_cost.is_none(),
            out.token_usage.is_none(),
            out.errors@.len() == 0,
            out.data.path == path,
            out.data.text matches Some(t) && t@ == self.trimmed(text@),
            out.data.page_count.is_none(),
            out.data.analysis.is_none(),
    {
        crate::queues::work::WorkOutput {
            id,
            status: crate::queues::work::WorkStatus::Okay,
            estimated_cost: None,
            token_usage: None,
            errors: Vec::new(),
            data: crate::queues::ocr::OcrOutput {
                path,
                text: Some(self.trim_final_page_break(text)),
                page_count: None,
                analysis: None,
            },
        }
    }
}

/// OCR engine wrapping the `tesseract` CLI tool.
#[derive(Clone, Copy, Debug, PartialEq, Eq, Structural)]
pub struct TesseractOcrEngine {}

impl TesseractOcrEngine {
    /// Create a new `tesseract` engine.
    pub fn new(page_iter_opts: &PageIterOptions) -> (r: Result<Self, OcrEngineError>)
        ensures
            r == if page_iter_opts.rasterize {
                Ok::<Self, OcrEngineError>(TesseractOcrEngine {  })
            } else {
                Err(OcrEngineError::TesseractWithoutRasterize)
            },
    {
        if page_iter_opts.rasterize {
            Ok(TesseractOcrEngine {  })
        } else {
            Err(OcrEngineError::TesseractWithoutRasterize)
        }
    }
}

/// The rate limit of the Textract engines: the one given in the options, and
/// without one as many requests per second as the concurrency limit.
pub fn textract_rate_limit(concurrency_limit: usize, llm_opts: &LlmOpts) -> (limit: RateLimit)
    ensures
        limit == match llm_opts.rate_limit {
            Some(l) => l,
            None => RateLimit {
                max_requests: concurrency_limit,
                per_period: RateLimitPeriod::Second,
            },
        },
{
    match llm_opts.rate_limit {
        Some(l) => l,
        None => RateLimit::new(concurrency_limit, RateLimitPeriod::Second),
    }
}

/// Why a text is not an S3 URI.
#[derive(Clone, Copy, Debug, PartialEq, Eq, Structural)]
pub enum S3UriError {
    /// The text does not start with `s3://`.
    MissingScheme,
    /// There is no `/` between a bucket and a key.
    MissingKey,
}

/// The bucket and the key of an S3 URI: what stands between `s3://` and the
/// next `/`, and everything after that `/`.
pub open spec fn parse_s3_uri_spec(uri: Seq<char>) -> Result<(Seq<char>, Seq<char>), S3UriError> {
    let scheme = "s3://"@;
    if has_prefix_at_spec(uri, 0, scheme) {
        let rest = uri.skip(scheme.len() as int);
        let cut = index_of_char(rest, '/');
        if cut < rest.len() {
            Ok((rest.take(cut), rest.skip(cut + 1)))
        } else {
            Err(S3UriError::MissingKey)
        }
    } else {
        Err(S3UriError::MissingScheme)
    }
}

/// Parse an S3 URI into bucket and key.
pub fn parse_s3_uri(uri: &str) -> (r: Result<(String, String), S3UriError>)
    ensures
        match r {
            Ok((bucket, key)) => parse_s3_uri_spec(uri@) == Ok::<
                (Seq<char>, Seq<char>),
                S3UriError,
            >((bucket@, key@)),
            Err(e) => parse_s3_uri_spec(uri@) == Err::<(Seq<char>, Seq<char>), S3UriError>(e),
        },
{
    let chars = str_to_chars(uri);
    let scheme = str_to_chars("s3://");
    if !has_prefix_at(&chars, 0, &scheme) {
        return Err(S3UriError::MissingScheme);
    }
    let start = scheme.len();
    let cut = find_char(&chars, start, '/');
    if start + cut >= chars.len() {
        return Err(S3UriError::MissingKey);
    }
    let bucket = chars_to_string(&chars, start, start + cut);
    let key = chars_to_string(&chars, start + cut + 1, chars.len());
    proof {
        let rest = chars@.skip(start as int);
        assert(rest.take(cut as int) =~= chars@.subrange(start as int, start + cut));
        assert(rest.skip(cut + 1) =~= chars@.subrange(start + cut + 1, chars@.len() as int));
    }
    Ok((bucket, key))
}

} // verus!

verus! {

/// The state of a Textract job.
#[derive(Clone, Copy, Debug, PartialEq, Eq, Structural)]
pub enum JobStatus {
    /// The job is still running.
    InProgress,
    /// The job is done and read every page.
    Succeeded,
    /// The job failed.
    Failed,
    /// The job is done and could not read every page.
    PartialSuccess,
    /// A state that this library does not know.
    Unknown,
}

/// Why a Textract job gave no document.
#[derive(Clone, Copy, Debug, PartialEq, Eq, Structural)]
pub enum TextractJobError {
    /// The answer to a poll held no job status.
    NoJobStatus,
    /// The job was still running after the last poll allowed.
    TimedOut,
    /// The job failed.
    JobFailed,
    /// The job is in a state that this library does not know.
    UnknownStatus,
}

/// What follows a poll of a Textract job.
#[derive(Clone, Copy, Debug, PartialEq, Eq, Structural)]
pub enum PollStep {
    /// Wait five seconds and poll again; `polls` polls have been made.
    Wait { polls: u32 },
    /// The job is done and its document has this status.
    Done { status: crate::queues::work::WorkStatus },
    /// The job gives no document.
    Fail { error: TextractJobError },
}

/// How many times a Textract job is polled at most: with five seconds between
/// two polls, five minutes.
pub const TEXTRACT_MAX_POLLS: u32 = 60;

/// What follows a poll that found the job in `status`, after `polls` earlier
/// polls that found it running.
pub open spec fn poll_step_spec(status: Option<JobStatus>, polls: u32) -> PollStep {
    match status {
        None => PollStep::Fail { error: TextractJobError::NoJobStatus },
        Some(JobStatus::InProgress) => if polls + 1 >= TEXTRACT_MAX_POLLS {
            PollStep::Fail { error: TextractJobError::TimedOut }
        } else {
            PollStep::Wait { polls: (polls + 1) as u32 }
        },
        Some(JobStatus::Succeeded) => PollStep::Done {
            status: crate::queues::work::WorkStatus::Okay,
        },
        Some(JobStatus::PartialSuccess) => PollStep::Done {
            status: crate::queues::work::WorkStatus::Incomplete,
        },
        Some(JobStatus::Failed) => PollStep::Fail { error: TextractJobError::JobFailed },
        Some(JobStatus::Unknown) => PollStep::Fail { error: TextractJobError::UnknownStatus },
    }
}

/// Decide what follows a poll of a Textract job.
pub fn textract_poll_step(status: Option<JobStatus>, polls: u32) -> (step: PollStep)
    ensures
        step == poll_step_spec(status, polls),
{
    match status {
        None => PollStep::Fail { error: TextractJobError::NoJobStatus },
        Some(JobStatus::InProgress) => if polls >= TEXTRACT_MAX_POLLS - 1 {
            PollStep::Fail { error: TextractJobError::TimedOut }
        } else {
            PollStep::Wait { polls: polls + 1 }
        },
        Some(JobStatus::Succeeded) => PollStep::Done {
            status: crate::queues::work::WorkStatus::Okay,
        },
        Some(JobStatus::PartialSuccess) => PollStep::Done {
            status: crate::queues::work::WorkStatus::Incomplete,
        },
        Some(JobStatus::Failed) => PollStep::Fail { error: TextractJobError::JobFailed },
        Some(JobStatus::Unknown) => PollStep::Fail { error: TextractJobError::UnknownStatus },
    }
}

/// What Textract is taken to charge for a page, in picodollars: 0.004 US
/// dollars.
pub const TEXTRACT_PAGE_COST: u64 = 4_000_000_000;

/// The estimated cost of a document of `page_count` pages; a count below zero
/// counts as no page.
pub open spec fn textract_cost_spec(page_count: i32) -> Cost {
    Cost {
        picodollars: ((if page_count < 0 { 0 } else { page_count as int })
            * TEXTRACT_PAGE_COST) as u64,
    }
}

/// The estimated cost of a document of `page_count` pages; a count below zero
/// counts as no page.
pub fn textract_cost(page_count: i32) -> (cost: Cost)
    ensures
        cost == textract_cost_spec(page_count),
        cost.picodollars == (if page_count < 0 { 0 } else { page_count as int })
            * TEXTRACT_PAGE_COST,
{
    let pages: u64 = if page_count < 0 { 0 } else { page_count as u64 };
    assert(pages * TEXTRACT_PAGE_COST <= 0x7fff_ffff * 4_000_000_000) by (nonlinear_arith)
        requires
            pages <= 0x7fff_ffff,
            TEXTRACT_PAGE_COST == 4_000_000_000,
    ;
    Cost { picodollars: pages * TEXTRACT_PAGE_COST }
}

} // verus!
