//! An OCR engine that splits a document into pages, OCRs each page and puts
//! the pages together again.

use vstd::prelude::*;
use crate::drivers::{Cost, TokenUsage};
use crate::json::Json;
use crate::page_iter::PageIterOptions;
use crate::queues::ocr::engines::OcrPageOutput;
use crate::queues::ocr::{OcrAnalysis, OcrOutput};
use crate::queues::work::{opt_text, WorkOutput, WorkStatus};
use crate::text::join_spec;

verus! {

/// An OCR engine that splits a document into pages, and OCRs each page.
#[derive(Clone, Copy, Debug, PartialEq, Eq, Structural)]
pub struct SplitPagesOcrEngine {
    /// How the document is split.
    pub page_iter_opts: PageIterOptions,
    /// How many pages are processed at a time.
    pub concurrency_limit: usize,
    /// Whether pages are separated by a form feed.
    pub include_page_breaks: bool,
}

/// What stands for a page that could not be read.
pub open spec fn could_not_ocr_page() -> Seq<char> {
    "**COULD_NOT_OCR_PAGE**"@
}

/// The text that a page contributes to its document: its own, or the marker
/// of a page that could not be read.
pub open spec fn page_part(page: OcrPageOutput) -> Seq<char> {
    match page.text {
        Some(text) => text@,
        None => could_not_ocr_page(),
    }
}

/// What each page contributes to the text of the document, in order.
pub open spec fn page_parts(pages: Seq<OcrPageOutput>) -> Seq<Seq<char>> {
    Seq::new(pages.len(), |i: int| page_part(pages[i]))
}

/// The number of pages that have a text.
pub open spec fn good_pages(pages: Seq<OcrPageOutput>) -> nat
    decreases pages.len(),
{
    if pages.len() == 0 {
        0
    } else {
        good_pages(pages.drop_last()) + (if pages.last().text.is_some() { 1nat } else { 0nat })
    }
}

/// The errors of all pages, page after page.
pub open spec fn page_errors(pages: Seq<OcrPageOutput>) -> Seq<String>
    decreases pages.len(),
{
    if pages.len() == 0 {
        Seq::empty()
    } else {
        page_errors(pages.drop_last()) + pages.last().errors@
    }
}

/// The sums over the pages that have a text: their cost in picodollars, their
/// prompt tokens and their completion tokens.
pub open spec fn page_totals(pages: Seq<OcrPageOutput>) -> (nat, nat, nat)
    decreases pages.len(),
{
    if pages.len() == 0 {
        (0, 0, 0)
    } else {
        let before = page_totals(pages.drop_last());
        let page = pages.last();
        if page.text.is_some() {
            (
                before.0 + (match page.estimated_cost {
                    Some(c) => c.picodollars as nat,
                    None => 0nat,
                }),
                before.1 + (match page.token_usage {
                    Some(u) => u.prompt_tokens as nat,
                    None => 0nat,
                }),
                before.2 + (match page.token_usage {
                    Some(u) => u.completion_tokens as nat,
                    None => 0nat,
                }),
            )
        } else {
            before
        }
    }
}

/// The analyses of the pages that have a text, merged; `None` where no such
/// page has an analysis.
pub open spec fn merged_analysis(pages: Seq<OcrPageOutput>) -> Option<OcrAnalysis>
    decreases pages.len(),
{
    if pages.len() == 0 {
        None
    } else {
        let before = merged_analysis(pages.drop_last());
        let page = pages.last();
        if page.text.is_some() && page.analysis.is_some() {
            Some(
                (match before {
                    Some(a) => a,
                    None => OcrAnalysis::clean(),
                }).merged(page.analysis->Some_0),
            )
        } else {
            before
        }
    }
}

/// The status of a document of `total` pages of which `good` have a text:
/// `Okay` where every page has one and the page iterator was complete,
/// `Incomplete` where some page has one, `Failed` where none has.
pub open spec fn document_status(good: nat, total: nat, complete: bool) -> WorkStatus {
    if complete && good == total {
        WorkStatus::Okay
    } else if good > 0 {
        WorkStatus::Incomplete
    } else {
        WorkStatus::Failed
    }
}

/// A sum as a counter of an output record holds it: the sum itself, or the
/// greatest number that the counter holds where the sum is greater.
pub open spec fn counted(sum: nat) -> u64 {
    if sum <= u64::MAX {
        sum as u64
    } else {
        u64::MAX
    }
}

/// Whether the sums over `pages` fit the counters of an output record.
pub open spec fn totals_fit(pages: Seq<OcrPageOutput>) -> bool {
    let t = page_totals(pages);
    t.0 <= u64::MAX && t.1 <= u64::MAX && t.2 <= u64::MAX
}

/// No more pages have a text than there are pages.
pub proof fn lemma_good_pages_bound(pages: Seq<OcrPageOutput>)
    ensures
        good_pages(pages) <= pages.len(),
    decreases pages.len(),
{
    if pages.len() > 0 {
        lemma_good_pages_bound(pages.drop_last());
    }
}

/// The sums over a prefix of the pages are no greater than over all pages.
pub proof fn lemma_page_totals_prefix(pages: Seq<OcrPageOutput>, k: int)
    requires
        0 <= k <= pages.len(),
    ensures
        page_totals(pages.take(k)).0 <= page_totals(pages).0,
        page_totals(pages.take(k)).1 <= page_totals(pages).1,
        page_totals(pages.take(k)).2 <= page_totals(pages).2,
        good_pages(pages.take(k)) <= good_pages(pages),
        good_pages(pages) <= pages.len(),
    decreases pages.len() - k,
{
    if k == pages.len() {
        assert(pages.take(k) =~= pages);
        lemma_good_pages_bound(pages);
    } else {
        lemma_page_totals_prefix(pages, k + 1);
        assert(pages.take(k + 1).drop_last() =~= pages.take(k));
    }
}

/// Whether `page` stands for what the OCR of a page gave: the page's own
/// output where there is one, and for a failure a page without text whose
/// only error is the failure.
pub open spec fn stands_for(page: OcrPageOutput, result: Result<OcrPageOutput, String>) -> bool {
    match result {
        Ok(output) => page == output,
        Err(error) => {
            &&& page.text.is_none()
            &&& page.errors@ == seq![error]
            &&& page.analysis.is_none()
            &&& page.estimated_cost.is_none()
            &&& page.token_usage.is_none()
        },
    }
}

/// Keep the failure of a page as an error of that page: a page that could
/// not be read does not end its document. Every page stays at its place.
pub fn promote_page_errors(results: Vec<Result<OcrPageOutput, String>>) -> (pages: Vec<
    OcrPageOutput,
>)
    ensures
        pages@.len() == results@.len(),
        forall|i: int| 0 <= i < results@.len() ==> stands_for(#[trigger] pages@[i], results@[i]),
{
    let mut pages: Vec<OcrPageOutput> = Vec::new();
    let ghost all = results@;
    for result in it: results
        invariant
            it.seq() == all,
            pages@.len() == it.index(),
            forall|i: int| 0 <= i < it.index() ==> stands_for(#[trigger] pages@[i], all[i]),
    {
        match result {
            Ok(output) => {
                pages.push(output);
            },
            Err(error) => {
                let mut errors: Vec<String> = Vec::new();
                errors.push(error);
                assert(errors@ =~= seq![error]);
                pages.push(
                    OcrPageOutput {
                        text: None,
                        errors,
                        analysis: None,
                        estimated_cost: None,
                        token_usage: None,
                    },
                );
            },
        }
    }
    pages
}

/// Add to a counter what one page adds to the sum.
fn add_counted(counter: u64, more: u64) -> (r: u64)
    ensures
        r == counted((counter + more) as nat),
{
    if more > u64::MAX - counter {
        u64::MAX
    } else {
        counter + more
    }
}

impl SplitPagesOcrEngine {
    /// Create a new `SplitPagesOcrEngine`.
    pub fn new(page_iter_opts: PageIterOptions, concurrency_limit: usize, include_page_breaks: bool)
        -> (engine: Self)
        ensures
            engine.page_iter_opts == page_iter_opts,
            engine.concurrency_limit == concurrency_limit,
            engine.include_page_breaks == include_page_breaks,
    {
        Self { page_iter_opts, concurrency_limit, include_page_breaks }
    }

    /// What separates two pages in the text of a document: an empty line, or a
    /// form feed on a line of its own where page breaks are kept.
    pub open spec fn page_break_spec(&self) -> Seq<char> {
        if self.include_page_breaks {
            "\n\x0C\n"@
        } else {
            "\n\n"@
        }
    }

    /// What separates two pages in the text of a document.
    pub fn page_break(&self) -> (sep: &'static str)
        ensures
            sep@ == self.page_break_spec(),
    {
        if self.include_page_breaks {
            "\n\x0C\n"
        } else {
            "\n\n"
        }
    }

    /// Whether the costs and tokens of `page_outputs` add up to sums that the
    /// counters of an output record hold, so that `ocr_file` reports the sums
    /// themselves.
    pub fn can_assemble(page_outputs: &Vec<OcrPageOutput>) -> (fit: bool)
        ensures
            fit == totals_fit(page_outputs@),
    {
        let mut cost: u64 = 0;
        let mut prompt: u64 = 0;
        let mut completion: u64 = 0;
        let mut i: usize = 0;
        while i < page_outputs.len()
            invariant
                i <= page_outputs.len(),
                cost == page_totals(page_outputs@.take(i as int)).0,
                prompt == page_totals(page_outputs@.take(i as int)).1,
                completion == page_totals(page_outputs@.take(i as int)).2,
            decreases page_outputs.len() - i,
        {
            let page = &page_outputs[i];
            proof {
                assert(page_outputs@.take(i + 1).drop_last() =~= page_outputs@.take(i as int));
                lemma_page_totals_prefix(page_outputs@, i + 1);
            }
            if page.text.is_some() {
                match page.estimated_cost {
                    Some(c) => {
                        if c.picodollars > u64::MAX - cost {
                            return false;
                        }
                        cost = cost + c.picodollars;
                    },
                    None => {},
                }
                match page.token_usage {
                    Some(u) => {
                        if u.prompt_tokens > u64::MAX - prompt || u.completion_tokens > u64::MAX
                            - completion {
                            return false;
                        }
                        prompt = prompt + u.prompt_tokens;
                        completion = completion + u.completion_tokens;
                    },
                    None => {},
                }
            }
            i += 1;
        }
        assert(page_outputs@.take(page_outputs.len() as int) =~= page_outputs@);
        true
    }

    /// Put the pages of a document together.
    ///
    /// `warnings` are what the tools printed while the document was split and
    /// `incomplete` is the complaint of the page iterator where it was cut
    /// short. The errors of the record are the warnings, the errors of every
    /// page and that complaint, in this order. The text joins the pages with
    /// the page break, a page without a text standing as
    /// `**COULD_NOT_OCR_PAGE**`; only a document without any page has no
    /// text. Cost, tokens and analysis are taken over the pages that have a
    /// text; a sum of zero is left out, a sum that is greater than a counter
    /// holds is reported as the greatest number that it holds, and the
    /// analysis is reported only where `report_analysis` asks for it.
    pub fn ocr_file(
        &self,
        id: Json,
        path: String,
        warnings: Vec<String>,
        incomplete: Option<String>,
        page_outputs: Vec<OcrPageOutput>,
        report_analysis: bool,
    ) -> (out: WorkOutput<OcrOutput>)
        ensures
            out.id == id,
            out.data.path == path,
            out.status == document_status(
                good_pages(page_outputs@),
                page_outputs@.len(),
                incomplete.is_none(),
            ),
            out.errors@ == warnings@ + page_errors(page_outputs@) + (match incomplete {
                Some(e) => seq![e],
                None => Seq::empty(),
            }),
            opt_text(out.data.text) == if page_outputs@.len() > 0 {
                Some(join_spec(page_parts(page_outputs@), self.page_break_spec()))
            } else {
                None
            },
            out.data.page_count == Some(page_outputs@.len() as usize),
            out.estimated_cost == if page_totals(page_outputs@).0 > 0 {
                Some(Cost { picodollars: counted(page_totals(page_outputs@).0) })
            } else {
                None
            },
            out.token_usage == if page_totals(page_outputs@).1 == 0 && page_totals(
                page_outputs@,
            ).2 == 0 {
                None
            } else {
                Some(
                    TokenUsage {
                        prompt_tokens: counted(page_totals(page_outputs@).1),
                        completion_tokens: counted(page_totals(page_outputs@).2),
                    },
                )
            },
            out.data.analysis == if report_analysis {
                merged_analysis(page_outputs@)
            } else {
                None
            },
    {
        let ghost all = page_outputs@;
        let sep = self.page_break();
        let total_page_count = page_outputs.len();
        let mut errors = warnings;
        let mut text = String::new();
        let mut good_page_count: usize = 0;
        let mut seen: usize = 0;
        let mut analysis: Option<OcrAnalysis> = None;
        let mut estimated_cost: u64 = 0;
        let mut token_usage = TokenUsage { prompt_tokens: 0, completion_tokens: 0 };
        assert(errors@ =~= warnings@ + page_errors(all.take(0)));
        for page_output in it: page_outputs
            invariant
                it.seq() == all,
                seen == it.index(),
                all.len() == total_page_count,
                sep@ == self.page_break_spec(),
                errors@ == warnings@ + page_errors(all.take(it.index() as int)),
                text@ == join_spec(page_parts(all.take(it.index() as int)), sep@),
                good_page_count == good_pages(all.take(it.index() as int)),
                analysis == merged_analysis(all.take(it.index() as int)),
                estimated_cost == counted(page_totals(all.take(it.index() as int)).0),
                token_usage.prompt_tokens == counted(page_totals(all.take(it.index() as int)).1),
                token_usage.completion_tokens == counted(
                    page_totals(all.take(it.index() as int)).2,
                ),
        {
            let ghost i = it.index() as int;
            proof {
                assert(all.take(i + 1).drop_last() =~= all.take(i));
                assert(all.take(i + 1).last() == page_output);
                assert(page_parts(all.take(i + 1)).drop_last() =~= page_parts(all.take(i)));
                assert(page_parts(all.take(i + 1)).last() == page_part(page_output));
                lemma_page_totals_prefix(all, i + 1);
                lemma_good_pages_bound(all.take(i));
                if i == 0 {
                    assert(Seq::<char>::empty() + page_part(page_output) =~= page_part(
                        page_output,
                    ));
                }
            }
            let OcrPageOutput {
                text: page_text,
                errors: mut page_errs,
                analysis: page_analysis,
                estimated_cost: page_cost,
                token_usage: page_usage,
            } = page_output;
            errors.append(&mut page_errs);
            assert(errors@ =~= warnings@ + page_errors(all.take(i + 1)));
            if seen > 0 {
                text.append(sep);
            }
            seen = seen + 1;
            match page_text {
                Some(t) => {
                    text.append(t.as_str());
                    good_page_count = good_page_count + 1;
                    match page_analysis {
                        Some(a) => {
                            let base = match analysis {
                                Some(b) => b,
                                None => OcrAnalysis::default(),
                            };
                            analysis = Some(base.merge(&a));
                        },
                        None => {},
                    }
                    match page_cost {
                        Some(c) => {
                            estimated_cost = add_counted(estimated_cost, c.picodollars);
                        },
                        None => {},
                    }
                    match page_usage {
                        Some(u) => {
                            token_usage.prompt_tokens = add_counted(
                                token_usage.prompt_tokens,
                                u.prompt_tokens,
                            );
                            token_usage.completion_tokens = add_counted(
                                token_usage.completion_tokens,
                                u.completion_tokens,
                            );
                        },
                        None => {},
                    }
                },
                None => {
                    text.append("**COULD_NOT_OCR_PAGE**");
                },
            }
        }
        assert(all.take(all.len() as int) =~= all);
        let complete = incomplete.is_none();
        match incomplete {
            Some(e) => {
                errors.push(e);
            },
            None => {
                assert(errors@ + Seq::<String>::empty() =~= errors@);
            },
        }
        let status = if complete && good_page_count == total_page_count {
            WorkStatus::Okay
        } else if good_page_count > 0 {
            WorkStatus::Incomplete
        } else {
            WorkStatus::Failed
        };
        WorkOutput {
            id,
            status,
            errors,
            estimated_cost: if estimated_cost > 0 {
                Some(Cost { picodollars: estimated_cost })
            } else {
                None
            },
            token_usage: if token_usage.is_zero() {
                None
            } else {
                Some(token_usage)
            },
            data: OcrOutput {
                path,
                text: if total_page_count > 0 {
                    Some(text)
                } else {
                    None
                },
                page_count: Some(total_page_count),
                analysis: if report_analysis {
                    analysis
                } else {
                    None
                },
            },
        }
    }
}

} // verus!

verus! {

/// The indices of the pages that have a text.
pub open spec fn good_set(pages: Seq<OcrPageOutput>) -> Set<int> {
    Set::new(|i: int| 0 <= i < pages.len() && pages[i].text.is_some())
}

/// `good_pages` counts the pages that have a text.
pub proof fn lemma_good_set_len(pages: Seq<OcrPageOutput>)
    ensures
        good_set(pages).finite(),
        good_set(pages).len() == good_pages(pages),
    decreases pages.len(),
{
    if pages.len() == 0 {
        assert(good_set(pages) =~= Set::<int>::empty());
    } else {
        let before = pages.drop_last();
        let last = pages.len() - 1;
        lemma_good_set_len(before);
        if pages.last().text.is_some() {
            assert(good_set(pages) =~= good_set(before).insert(last));
            assert(!good_set(before).contains(last));
        } else {
            assert(good_set(pages) =~= good_set(before));
        }
    }
}

/// Page joining. For a document of `M` pages, one at least, of which the set
/// `G` have a text: the text of the document joins `M` entries, the page's own
/// text for each page in `G` and the marker `**COULD_NOT_OCR_PAGE**` for each
/// of the `M - |G|` others. The status is `Okay` exactly where `G` is every
/// page and the iterator was complete; `Incomplete` exactly where `G` is not
/// empty and either is not every page or the iterator was cut short; and
/// `Failed` exactly where `G` is empty.
pub proof fn lemma_page_joining(pages: Seq<OcrPageOutput>, complete: bool)
    requires
        pages.len() > 0,
    ensures
        page_parts(pages).len() == pages.len(),
        forall|i: int|
            0 <= i < pages.len() ==> #[trigger] page_parts(pages)[i] == (if good_set(
                pages,
            ).contains(i) {
                pages[i].text->Some_0@
            } else {
                could_not_ocr_page()
            }),
        good_set(pages).finite(),
        good_set(pages).len() <= pages.len(),
        document_status(good_pages(pages), pages.len(), complete) == WorkStatus::Okay <==> (
        good_set(pages).len() == pages.len() && complete),
        document_status(good_pages(pages), pages.len(), complete) == WorkStatus::Incomplete <==> (
        good_set(pages).len() > 0 && (good_set(pages).len() < pages.len() || !complete)),
        document_status(good_pages(pages), pages.len(), complete) == WorkStatus::Failed <==> (
        good_set(pages).len() == 0),
        document_status(good_pages(pages), pages.len(), complete) != WorkStatus::Skipped,
{
    lemma_good_set_len(pages);
    lemma_good_pages_bound(pages);
}

/// Every error of every page is an error of the document.
pub proof fn lemma_page_errors_hold(pages: Seq<OcrPageOutput>, i: int, k: int)
    requires
        0 <= i < pages.len(),
        0 <= k < pages[i].errors@.len(),
    ensures
        page_errors(pages).contains(pages[i].errors@[k]),
    decreases pages.len(),
{
    let before = page_errors(pages.drop_last());
    if i == pages.len() - 1 {
        assert((before + pages.last().errors@)[before.len() + k] == pages[i].errors@[k]);
    } else {
        lemma_page_errors_hold(pages.drop_last(), i, k);
        let at = choose|at: int| 0 <= at < before.len() && before[at] == pages[i].errors@[k];
        assert((before + pages.last().errors@)[at] == pages[i].errors@[k]);
    }
}

/// A page that failed does not end its document. Where `pages` stand for the
/// results of the pages and the page at `i` failed: the marker
/// `**COULD_NOT_OCR_PAGE**` stands at its place in the text, its failure is
/// among the errors of the document, and the document is not `Okay`; it is
/// `Incomplete` exactly where another page has a text, and `Failed` otherwise.
pub proof fn lemma_page_failure_kept(
    results: Seq<Result<OcrPageOutput, String>>,
    pages: Seq<OcrPageOutput>,
    i: int,
    complete: bool,
)
    requires
        pages.len() == results.len(),
        forall|k: int| 0 <= k < results.len() ==> stands_for(#[trigger] pages[k], results[k]),
        0 <= i < results.len(),
        results[i] is Err,
    ensures
        page_parts(pages)[i] == could_not_ocr_page(),
        page_errors(pages).contains(results[i]->Err_0),
        good_pages(pages) < pages.len(),
        document_status(good_pages(pages), pages.len(), complete) == (if good_pages(pages) > 0 {
            WorkStatus::Incomplete
        } else {
            WorkStatus::Failed
        }),
{
    assert(stands_for(pages[i], results[i]));
    assert(pages[i].errors@[0] == results[i]->Err_0);
    lemma_page_errors_hold(pages, i, 0);
    lemma_good_set_len(pages);
    let others = Set::new(|k: int| 0 <= k < pages.len()).remove(i);
    vstd::set_lib::lemma_int_range(0, pages.len() as int);
    assert(Set::new(|k: int| 0 <= k < pages.len()) =~= vstd::set_lib::set_int_range(
        0,
        pages.len() as int,
    ));
    assert(good_set(pages).subset_of(others));
    vstd::set_lib::lemma_len_subset(good_set(pages), others);
}

} // verus!
