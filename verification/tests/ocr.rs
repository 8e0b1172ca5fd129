use prompt_scaler::drivers::{Cost, DriverType, LlmOpts, TokenUsage};
use prompt_scaler::json::{Json, JsonNumber};
use prompt_scaler::page_iter::PageIterOptions;
use prompt_scaler::queues::ocr::engines::split_pages::{promote_page_errors, SplitPagesOcrEngine};
use prompt_scaler::queues::ocr::engines::{
    ocr_engine_for_model, page_work_id, parse_s3_uri, textract_cost, textract_poll_step,
    textract_rate_limit, JobStatus, OcrEngineError, OcrEngineKind, OcrPageOutput,
    PdfToTextOcrEngine, PollStep, S3UriError, TesseractOcrEngine, TextractJobError,
};
use prompt_scaler::queues::ocr::{ocr_file, ImageSource, OcrAnalysis, OcrOutput};
use prompt_scaler::queues::work::{WorkOutput, WorkStatus};
use prompt_scaler::rate_limit::{RateLimit, RateLimitPeriod};

fn options(rasterize: bool, max_pages: Option<usize>) -> PageIterOptions {
    PageIterOptions { rasterize, rasterize_dpi: 300, max_pages }
}

fn engine(include_page_breaks: bool) -> SplitPagesOcrEngine {
    SplitPagesOcrEngine::new(options(true, None), 4, include_page_breaks)
}

fn page(text: Option<&str>, errors: Vec<&str>) -> OcrPageOutput {
    OcrPageOutput {
        text: text.map(|t| t.to_string()),
        errors: errors.into_iter().map(|e| e.to_string()).collect(),
        analysis: None,
        estimated_cost: None,
        token_usage: None,
    }
}

fn assemble(
    engine: &SplitPagesOcrEngine,
    pages: Vec<OcrPageOutput>,
    incomplete: Option<&str>,
) -> WorkOutput<OcrOutput> {
    assert!(SplitPagesOcrEngine::can_assemble(&pages));
    engine.ocr_file(
        Json::Text("doc".to_string()),
        "a.pdf".to_string(),
        vec![],
        incomplete.map(|e| e.to_string()),
        pages,
        false,
    )
}

#[test]
fn failed_page_in_the_middle() {
    // A PDF of three pages of which the second fails with a fatal parse error.
    let pages = vec![
        page(Some("<one>"), vec![]),
        page(None, vec!["fatal: could not parse the response"]),
        page(Some("<three>"), vec![]),
    ];
    let out = assemble(&engine(false), pages, None);
    assert_eq!(out.status.as_str(), "incomplete");
    assert_eq!(out.data.text.as_deref(), Some("<one>\n\n**COULD_NOT_OCR_PAGE**\n\n<three>"));
    assert!(out.errors.len() >= 1);
    assert_eq!(out.data.page_count, Some(3));
    assert_eq!(out.id, Json::Text("doc".to_string()));
    assert_eq!(out.data.path, "a.pdf");
}

#[test]
fn all_pages_good_is_ok() {
    let out = assemble(&engine(false), vec![page(Some("a"), vec![]), page(Some("b"), vec![])], None);
    assert_eq!(out.status, WorkStatus::Okay);
    assert_eq!(out.data.text.as_deref(), Some("a\n\nb"));
    assert!(out.errors.is_empty());
    assert_eq!(out.estimated_cost, None);
    assert_eq!(out.token_usage, None);
    assert_eq!(out.data.analysis, None);
}

#[test]
fn no_good_page_is_failed_with_markers() {
    let out = assemble(&engine(false), vec![page(None, vec!["e1"]), page(None, vec!["e2"])], None);
    assert_eq!(out.status, WorkStatus::Failed);
    assert_eq!(out.data.text.as_deref(), Some("**COULD_NOT_OCR_PAGE**\n\n**COULD_NOT_OCR_PAGE**"));
    assert_eq!(out.data.page_count, Some(2));
    assert_eq!(out.errors, vec!["e1".to_string(), "e2".to_string()]);
}

#[test]
fn truncated_iterator_is_incomplete() {
    let out = assemble(
        &engine(false),
        vec![page(Some("a"), vec![])],
        Some("this iterator is partial: 1 pages requested, but only 3 pages available"),
    );
    assert_eq!(out.status, WorkStatus::Incomplete);
    assert_eq!(
        out.errors,
        vec!["this iterator is partial: 1 pages requested, but only 3 pages available".to_string()]
    );
    // Cut short and without any page that could be read, the document has failed.
    let out = assemble(&engine(false), vec![page(None, vec![])], Some("partial"));
    assert_eq!(out.status, WorkStatus::Failed);
}

#[test]
fn document_without_pages_is_ok_without_text() {
    let out = assemble(&engine(false), vec![], None);
    assert_eq!(out.status, WorkStatus::Okay);
    assert_eq!(out.data.text, None);
    assert_eq!(out.data.page_count, Some(0));
}

#[test]
fn page_breaks_are_form_feeds_on_their_own_line() {
    let pages = vec![page(Some("a"), vec![]), page(None, vec![]), page(Some("c"), vec![])];
    let out = assemble(&engine(true), pages, None);
    assert_eq!(out.data.text.as_deref(), Some("a\n\x0C\n**COULD_NOT_OCR_PAGE**\n\x0C\nc"));
    assert_eq!(engine(true).page_break(), "\n\x0C\n");
    assert_eq!(engine(false).page_break(), "\n\n");
}

#[test]
fn errors_come_in_order_after_the_warnings() {
    let pages = vec![page(Some("a"), vec!["w0-a", "w0-b"]), page(None, vec!["w1"])];
    let out = engine(false).ocr_file(
        Json::Null,
        "a.pdf".to_string(),
        vec!["warning 1".to_string(), "warning 2".to_string()],
        Some("partial".to_string()),
        pages,
        false,
    );
    assert_eq!(
        out.errors,
        vec!["warning 1", "warning 2", "w0-a", "w0-b", "w1", "partial"]
            .into_iter()
            .map(|e| e.to_string())
            .collect::<Vec<_>>()
    );
}

#[test]
fn totals_are_taken_over_good_pages() {
    let mut good = page(Some("a"), vec![]);
    good.estimated_cost = Some(Cost { picodollars: 40 });
    good.token_usage = Some(TokenUsage { prompt_tokens: 100, completion_tokens: 7 });
    let mut good2 = page(Some("b"), vec![]);
    good2.estimated_cost = Some(Cost { picodollars: 2 });
    good2.token_usage = Some(TokenUsage { prompt_tokens: 1, completion_tokens: 1 });
    let mut bad = page(None, vec![]);
    bad.estimated_cost = Some(Cost { picodollars: 1000 });
    bad.token_usage = Some(TokenUsage { prompt_tokens: 1000, completion_tokens: 1000 });
    let out = assemble(&engine(false), vec![good, bad, good2], None);
    assert_eq!(out.estimated_cost, Some(Cost { picodollars: 42 }));
    assert_eq!(out.token_usage, Some(TokenUsage { prompt_tokens: 101, completion_tokens: 8 }));
}

#[test]
fn totals_that_do_not_fit_are_reported() {
    let mut a = page(Some("a"), vec![]);
    a.estimated_cost = Some(Cost { picodollars: u64::MAX });
    let mut b = page(Some("b"), vec![]);
    b.estimated_cost = Some(Cost { picodollars: 1 });
    assert!(!SplitPagesOcrEngine::can_assemble(&vec![a, b]));
    let mut c = page(None, vec![]);
    c.estimated_cost = Some(Cost { picodollars: u64::MAX });
    let mut d = page(Some("d"), vec![]);
    d.estimated_cost = Some(Cost { picodollars: u64::MAX });
    assert!(SplitPagesOcrEngine::can_assemble(&vec![c, d]));
}

#[test]
fn analysis_is_merged_and_reported_on_request() {
    let clean = OcrAnalysis::default();
    let mut scan = clean;
    scan.image_source = ImageSource::Scan;
    scan.contains_handwriting = true;
    let mut photo = clean;
    photo.image_source = ImageSource::PhotoOrVideo;
    photo.glare_on_some_text = true;
    let mut ignored = clean;
    ignored.contains_cutoff_text = true;
    let pages = || {
        let mut zeroth = page(Some("a"), vec![]);
        zeroth.analysis = Some(scan);
        let mut first = page(Some("b"), vec![]);
        first.analysis = Some(photo);
        let mut second = page(None, vec![]);
        second.analysis = Some(ignored);
        vec![zeroth, first, second]
    };
    let reported =
        engine(false).ocr_file(Json::Null, "a".to_string(), vec![], None, pages(), true);
    let mut expected = clean;
    expected.image_source = ImageSource::PhotoOrVideo;
    expected.contains_handwriting = true;
    expected.glare_on_some_text = true;
    assert_eq!(reported.data.analysis, Some(expected));
    let silent = engine(false).ocr_file(Json::Null, "a".to_string(), vec![], None, pages(), false);
    assert_eq!(silent.data.analysis, None);
}

#[test]
fn merge_takes_the_worst_source_and_ors_the_flags() {
    assert_eq!(ImageSource::Scan.merge(ImageSource::Digital), ImageSource::Scan);
    assert_eq!(ImageSource::Digital.merge(ImageSource::PhotoOrVideo), ImageSource::PhotoOrVideo);
    assert_eq!(ImageSource::Scan.merge(ImageSource::Scan), ImageSource::Scan);
    assert_eq!(ImageSource::default(), ImageSource::Digital);
    let mut a = OcrAnalysis::default();
    a.background_is_noisy = true;
    let mut b = OcrAnalysis::default();
    b.contains_faint_text = true;
    b.image_source = ImageSource::Scan;
    let merged = a.merge(&b);
    assert!(merged.background_is_noisy && merged.contains_faint_text);
    assert!(!merged.contains_blurred_text);
    assert_eq!(merged.image_source, ImageSource::Scan);
    assert_eq!(merged, b.merge(&a));
}

#[test]
fn a_failed_page_does_not_end_the_document() {
    let results = vec![
        Ok(page(Some("<one>"), vec![])),
        Err("could not parse the response".to_string()),
        Ok(page(Some("<three>"), vec!["a warning"])),
    ];
    let pages = promote_page_errors(results);
    assert_eq!(pages.len(), 3);
    assert_eq!(pages[0].text.as_deref(), Some("<one>"));
    assert_eq!(pages[1].text, None);
    assert_eq!(pages[1].errors, vec!["could not parse the response".to_string()]);
    assert_eq!(pages[1].estimated_cost, None);
    assert_eq!(pages[1].token_usage, None);
    assert_eq!(pages[2].errors, vec!["a warning".to_string()]);
    let out = assemble(&engine(false), pages, None);
    assert_eq!(out.status, WorkStatus::Incomplete);
    assert_eq!(out.data.text.as_deref(), Some("<one>\n\n**COULD_NOT_OCR_PAGE**\n\n<three>"));
    assert_eq!(
        out.errors,
        vec!["could not parse the response".to_string(), "a warning".to_string()]
    );
    assert_eq!(out.data.page_count, Some(3));
    assert!(promote_page_errors(vec![]).is_empty());
}

#[test]
fn a_document_without_a_good_page_is_all_markers() {
    let pages = promote_page_errors(vec![Err("first".to_string()), Err("second".to_string())]);
    let out = assemble(&engine(true), pages, None);
    assert_eq!(out.status, WorkStatus::Failed);
    assert_eq!(
        out.data.text.as_deref(),
        Some("**COULD_NOT_OCR_PAGE**\n\u{c}\n**COULD_NOT_OCR_PAGE**")
    );
    assert_eq!(out.errors, vec!["first".to_string(), "second".to_string()]);
    assert_eq!(out.data.page_count, Some(2));
    let single = assemble(&engine(false), vec![page(None, vec![])], Some("cut short"));
    assert_eq!(single.status, WorkStatus::Failed);
    assert_eq!(single.data.text.as_deref(), Some("**COULD_NOT_OCR_PAGE**"));
    let none = assemble(&engine(false), vec![], None);
    assert_eq!(none.data.text, None);
    assert_eq!(none.data.page_count, Some(0));
}

#[test]
fn engine_failure_becomes_a_failed_record() {
    let out = ocr_file(
        Json::Text("x".to_string()),
        "broken.pdf".to_string(),
        Err("Failed to separate \"broken.pdf\" into pages".to_string()),
    );
    assert_eq!(out.id, Json::Text("x".to_string()));
    assert_eq!(out.status, WorkStatus::Failed);
    assert_eq!(out.errors, vec!["Failed to separate \"broken.pdf\" into pages".to_string()]);
    assert_eq!(out.data.path, "broken.pdf");
    assert_eq!(out.data.text, None);
    assert_eq!(out.data.page_count, None);
    let good = assemble(&engine(false), vec![page(Some("a"), vec![])], None);
    let out = ocr_file(Json::Null, "ignored".to_string(), Ok(good));
    assert_eq!(out.status, WorkStatus::Okay);
    assert_eq!(out.data.path, "a.pdf");
}

#[test]
fn flat_records_join_errors_and_write_ids_as_text() {
    let mut out = assemble(&engine(false), vec![page(Some("a"), vec!["e1", "e2"])], None);
    let flat = out.to_flat_with("\"doc\"");
    assert_eq!(flat.id, "doc");
    let flat = out.to_flat();
    assert_eq!(flat.id, "doc");
    assert_eq!(flat.status, WorkStatus::Okay);
    assert_eq!(flat.errors.as_deref(), Some("e1\n\ne2"));
    assert_eq!(flat.path, "a.pdf");
    assert_eq!(flat.text.as_deref(), Some("a"));
    out.id = Json::Number(JsonNumber::PosInt(17));
    out.errors.clear();
    let flat = out.to_flat();
    assert_eq!(flat.id, "17");
    assert_eq!(flat.errors, None);
    assert_eq!(out.to_flat_with("other").id, "other");
    out.id = Json::Array(vec![Json::Text("doc".to_string()), Json::Number(JsonNumber::PosInt(3))]);
    assert_eq!(out.to_flat().id, "[\"doc\",3]");
}

#[test]
fn page_ids_pair_document_and_index() {
    assert_eq!(
        page_work_id(Json::Text("doc".to_string()), 3),
        Json::Array(vec![Json::Text("doc".to_string()), Json::Number(JsonNumber::PosInt(3))])
    );
}

#[test]
fn engines_by_model_name() {
    let raster = options(true, None);
    let plain = options(false, None);
    assert_eq!(ocr_engine_for_model("pdftotext", &plain), Ok(OcrEngineKind::PdfToText));
    assert_eq!(
        ocr_engine_for_model("pdftotext", &raster),
        Err(OcrEngineError::PdfToTextWithRasterize)
    );
    assert_eq!(ocr_engine_for_model("tesseract", &raster), Ok(OcrEngineKind::Tesseract));
    assert_eq!(
        ocr_engine_for_model("tesseract", &plain),
        Err(OcrEngineError::TesseractWithoutRasterize)
    );
    assert_eq!(ocr_engine_for_model("textract", &plain), Ok(OcrEngineKind::Textract));
    assert_eq!(ocr_engine_for_model("textract-async", &plain), Ok(OcrEngineKind::TextractAsync));
    assert_eq!(
        ocr_engine_for_model("textract-async", &options(false, Some(2))),
        Err(OcrEngineError::TextractAsyncWithPageOptions)
    );
    assert_eq!(
        ocr_engine_for_model("textract-async", &raster),
        Err(OcrEngineError::TextractAsyncWithPageOptions)
    );
    assert_eq!(ocr_engine_for_model("gemini-2.0-flash", &plain), Ok(OcrEngineKind::Llm));
    assert_eq!(ocr_engine_for_model("Tesseract", &plain), Ok(OcrEngineKind::Llm));
    assert!(OcrEngineKind::PdfToText.is_whole_file());
    assert!(OcrEngineKind::TextractAsync.is_whole_file());
    assert!(!OcrEngineKind::Llm.is_whole_file());
    assert!(!OcrEngineKind::Tesseract.is_whole_file());
    assert_eq!(
        OcrEngineError::TesseractWithoutRasterize.message(),
        "tesseract requires --rasterize"
    );
    assert_eq!(
        OcrEngineError::PdfToTextWithRasterize.message(),
        "pdftotext does not work with --rasterize"
    );
}

#[test]
fn classical_engines_check_their_options() {
    assert!(TesseractOcrEngine::new(&options(true, None)).is_ok());
    assert_eq!(
        TesseractOcrEngine::new(&options(false, None)),
        Err(OcrEngineError::TesseractWithoutRasterize)
    );
    let engine = PdfToTextOcrEngine::new(true, &options(false, Some(3))).unwrap();
    assert!(engine.include_page_breaks);
    assert_eq!(engine.page_iter_opts.max_pages, Some(3));
    assert_eq!(engine.trim_final_page_break("one\x0ctwo\x0c"), "one\x0ctwo");
    assert_eq!(engine.trim_final_page_break("one\x0c\x0c"), "one\x0c");
    assert_eq!(engine.trim_final_page_break("one"), "one");
    assert_eq!(engine.trim_final_page_break(""), "");
    let keep = PdfToTextOcrEngine::new(false, &options(false, None)).unwrap();
    assert_eq!(keep.trim_final_page_break("one\x0c"), "one\x0c");
}

#[test]
fn s3_uris() {
    assert_eq!(
        parse_s3_uri("s3://bucket/path/to/file.pdf"),
        Ok(("bucket".to_string(), "path/to/file.pdf".to_string()))
    );
    assert_eq!(parse_s3_uri("s3://bucket/"), Ok(("bucket".to_string(), "".to_string())));
    assert_eq!(parse_s3_uri("s3://bucket"), Err(S3UriError::MissingKey));
    assert_eq!(parse_s3_uri("https://bucket/key"), Err(S3UriError::MissingScheme));
    assert_eq!(parse_s3_uri(""), Err(S3UriError::MissingScheme));
}

#[test]
fn textract_polling() {
    assert_eq!(textract_poll_step(Some(JobStatus::InProgress), 0), PollStep::Wait { polls: 1 });
    assert_eq!(textract_poll_step(Some(JobStatus::InProgress), 58), PollStep::Wait { polls: 59 });
    assert_eq!(
        textract_poll_step(Some(JobStatus::InProgress), 59),
        PollStep::Fail { error: TextractJobError::TimedOut }
    );
    assert_eq!(
        textract_poll_step(Some(JobStatus::InProgress), u32::MAX),
        PollStep::Fail { error: TextractJobError::TimedOut }
    );
    assert_eq!(
        textract_poll_step(Some(JobStatus::Succeeded), 3),
        PollStep::Done { status: WorkStatus::Okay }
    );
    assert_eq!(
        textract_poll_step(Some(JobStatus::PartialSuccess), 3),
        PollStep::Done { status: WorkStatus::Incomplete }
    );
    assert_eq!(
        textract_poll_step(Some(JobStatus::Failed), 0),
        PollStep::Fail { error: TextractJobError::JobFailed }
    );
    assert_eq!(
        textract_poll_step(Some(JobStatus::Unknown), 0),
        PollStep::Fail { error: TextractJobError::UnknownStatus }
    );
    assert_eq!(textract_poll_step(None, 0), PollStep::Fail { error: TextractJobError::NoJobStatus });
}

#[test]
fn textract_costs_and_limits() {
    assert_eq!(textract_cost(3), Cost { picodollars: 12_000_000_000 });
    assert_eq!(textract_cost(0), Cost { picodollars: 0 });
    assert_eq!(textract_cost(-5), Cost { picodollars: 0 });
    let mut opts = LlmOpts {
        driver: DriverType::default(),
        max_completion_tokens: None,
        temperature: None,
        top_p: None,
        timeout: None,
        rate_limit: None,
    };
    assert_eq!(textract_rate_limit(8, &opts), RateLimit::new(8, RateLimitPeriod::Second));
    opts.rate_limit = Some(RateLimit::new(100, RateLimitPeriod::Minute));
    assert_eq!(textract_rate_limit(8, &opts), RateLimit::new(100, RateLimitPeriod::Minute));
}

#[test]
fn pdftotext_arguments_and_records() {
    let engine = PdfToTextOcrEngine::new(false, &options(false, Some(3))).unwrap();
    assert_eq!(
        engine.args("in.pdf", "/tmp/x/output.txt", Some("pw")),
        vec!["-layout", "in.pdf", "/tmp/x/output.txt", "-nopgbrk", "-l", "3", "-upw", "pw"]
    );
    let engine = PdfToTextOcrEngine::new(true, &options(false, None)).unwrap();
    assert_eq!(engine.args("in.pdf", "out.txt", None), vec!["-layout", "in.pdf", "out.txt"]);
    let out = engine.text_output(Json::Null, "in.pdf".to_string(), "one\x0ctwo\x0c");
    assert_eq!(out.status, WorkStatus::Okay);
    assert_eq!(out.data.text.as_deref(), Some("one\x0ctwo"));
    assert_eq!(out.data.page_count, None);
    assert!(out.errors.is_empty());
    let out = PdfToTextOcrEngine::reject_non_pdf(Json::Null, "in.png".to_string());
    assert_eq!(out.status, WorkStatus::Failed);
    assert_eq!(out.errors, vec!["pdftotext only works with PDFs".to_string()]);
    assert_eq!(out.data.text, None);
    assert_eq!(out.data.path, "in.png");
}

#[test]
fn sums_stop_at_what_a_counter_holds() {
    let mut a = page(Some("a"), vec![]);
    a.estimated_cost = Some(Cost { picodollars: u64::MAX - 1 });
    a.token_usage = Some(TokenUsage { prompt_tokens: u64::MAX, completion_tokens: 1 });
    let mut b = page(Some("b"), vec![]);
    b.estimated_cost = Some(Cost { picodollars: 5 });
    b.token_usage = Some(TokenUsage { prompt_tokens: 1, completion_tokens: 2 });
    let pages = vec![a, b];
    assert!(!SplitPagesOcrEngine::can_assemble(&pages));
    let out = engine(false).ocr_file(Json::Null, "p".to_string(), vec![], None, pages, false);
    assert_eq!(out.estimated_cost, Some(Cost { picodollars: u64::MAX }));
    assert_eq!(out.token_usage, Some(TokenUsage { prompt_tokens: u64::MAX, completion_tokens: 3 }));
    assert_eq!(out.status, WorkStatus::Okay);
}
