//! Pages of a document: what a page is, how a file is split into pages, and
//! what the tools that split it are asked and allowed to say.

use vstd::prelude::*;
use crate::data_url::{base64_standard, data_url, data_url_spec, encodable};
use crate::text::{
    chars_to_string, contains_folded, contains_ignoring_case, decimal_digits, decimal_string,
    find_char, index_of_char, line_bounds, lines_spec, parse_usize, parse_usize_spec, push_decimal,
    push_signed, signed_digits, slice_chars, sort_texts, str_eq, str_to_chars, texts_of,
    texts_sorted, trim_bounds, trim_spec, has_prefix_at,
};

verus! {

/// Information about a page of a file to process.
#[derive(Debug)]
pub struct Page {
    /// The MIME type of our data: one of the supported image types or, if no
    /// rasterization has been requested, `application/pdf`.
    pub mime_type: String,
    /// The data for our page.
    pub data: Vec<u8>,
}

impl Page {
    /// Convert to a data URL.
    pub fn to_data_url(&self) -> (url: String)
        requires
            encodable(self.data@),
        ensures
            url@ == data_url_spec(self.mime_type@, base64_standard(self.data@)),
    {
        data_url(self.mime_type.as_str(), self.data.as_slice())
    }
}

/// Options for constructing a [`PageIter`].
#[derive(Clone, Copy, Debug, PartialEq, Eq, Structural)]
pub struct PageIterOptions {
    /// Should we rasterize any PDFs to images? Required for most models.
    pub rasterize: bool,
    /// The DPI to use for rasterization.
    pub rasterize_dpi: u32,
    /// The maximum number of pages to process. If this is set, we will stop
    /// processing after this many pages and record an error.
    pub max_pages: Option<usize>,
}

} // verus!

verus! {

/// Whether pages of the MIME type `mime_type` are handed on as they are: PNG,
/// JPEG, WebP and GIF images.
pub open spec fn is_supported_image_type(mime_type: Seq<char>) -> bool {
    mime_type == "image/png"@ || mime_type == "image/jpeg"@ || mime_type == "image/webp"@
        || mime_type == "image/gif"@
}

/// How the pages of a file are made.
#[derive(Clone, Copy, Debug, PartialEq, Eq, Structural)]
pub enum PagePlan {
    /// The file is an image and its own single page.
    SingleImage,
    /// The pages of a PDF are drawn as PNG images by `pdftocairo`.
    RasterizedPdf,
    /// The pages of a PDF are split into PDFs of one page by `pdfseparate`.
    SplitPdf,
    /// The images of a TIFF are decoded and written as PNG images.
    Tiff,
}

/// Why no pages can be made of a file.
#[derive(Clone, Copy, Debug, PartialEq, Eq, Structural)]
pub enum PagePlanError {
    /// The file is neither a supported image nor a PDF nor a TIFF.
    UnsupportedMimeType,
}

/// The plan for a file of the MIME type `mime_type`.
///
/// A PDF is rasterized where that is asked for. A PDF with a password is
/// rasterized as well, since it cannot be split.
pub open spec fn plan_spec(mime_type: Seq<char>, rasterize: bool, has_password: bool) -> Result<
    PagePlan,
    PagePlanError,
> {
    if is_supported_image_type(mime_type) {
        Ok(PagePlan::SingleImage)
    } else if mime_type == "application/pdf"@ {
        if rasterize || has_password {
            Ok(PagePlan::RasterizedPdf)
        } else {
            Ok(PagePlan::SplitPdf)
        }
    } else if mime_type == "image/tiff"@ {
        Ok(PagePlan::Tiff)
    } else {
        Err(PagePlanError::UnsupportedMimeType)
    }
}

/// Decide how the pages of a file are made from its MIME type.
pub fn plan_pages(mime_type: &str, options: &PageIterOptions, has_password: bool) -> (r: Result<
    PagePlan,
    PagePlanError,
>)
    ensures
        r == plan_spec(mime_type@, options.rasterize, has_password),
{
    if str_eq(mime_type, "image/png") || str_eq(mime_type, "image/jpeg") || str_eq(
        mime_type,
        "image/webp",
    ) || str_eq(mime_type, "image/gif") {
        Ok(PagePlan::SingleImage)
    } else if str_eq(mime_type, "application/pdf") {
        if options.rasterize || has_password {
            Ok(PagePlan::RasterizedPdf)
        } else {
            Ok(PagePlan::SplitPdf)
        }
    } else if str_eq(mime_type, "image/tiff") {
        Ok(PagePlan::Tiff)
    } else {
        Err(PagePlanError::UnsupportedMimeType)
    }
}

/// The last page that a tool is asked for, counted from 1: the page limit
/// where the document has more pages than that, and none otherwise.
pub open spec fn last_page_spec(max_pages: Option<usize>, total_pages: usize) -> Option<usize> {
    match max_pages {
        Some(max) => if total_pages > max {
            Some(max)
        } else {
            None
        },
        None => None,
    }
}

/// The last page to ask a tool for, if the document is to be cut short.
pub fn last_page_arg(options: &PageIterOptions, total_pages: usize) -> (last: Option<usize>)
    ensures
        last == last_page_spec(options.max_pages, total_pages),
{
    match options.max_pages {
        Some(max_pages) => if total_pages > max_pages {
            Some(max_pages)
        } else {
            None
        },
        None => None,
    }
}

/// The arguments `-l LAST`, where the document is to be cut short.
pub open spec fn last_page_args(max_pages: Option<usize>, total_pages: usize) -> Seq<Seq<char>> {
    match last_page_spec(max_pages, total_pages) {
        Some(last) => seq!["-l"@, decimal_digits(last as nat)],
        None => Seq::empty(),
    }
}

/// The arguments of `pdftocairo`: `-png -r DPI [-opw PASSWORD] [-l LAST] INPUT
/// OUTPUT`.
pub open spec fn pdftocairo_args_spec(
    options: PageIterOptions,
    password: Option<Seq<char>>,
    total_pages: usize,
    input: Seq<char>,
    output: Seq<char>,
) -> Seq<Seq<char>> {
    seq!["-png"@, "-r"@, decimal_digits(options.rasterize_dpi as nat)] + (match password {
        Some(p) => seq!["-opw"@, p],
        None => Seq::empty(),
    }) + last_page_args(options.max_pages, total_pages) + seq![input, output]
}

/// The arguments of `pdfseparate`: `[-l LAST] INPUT OUTPUT`.
pub open spec fn pdfseparate_args_spec(
    options: PageIterOptions,
    total_pages: usize,
    input: Seq<char>,
    output: Seq<char>,
) -> Seq<Seq<char>> {
    last_page_args(options.max_pages, total_pages) + seq![input, output]
}

fn push_last_page_args(args: &mut Vec<String>, options: &PageIterOptions, total_pages: usize)
    ensures
        texts_of(final(args)@) == texts_of(old(args)@) + last_page_args(
            options.max_pages,
            total_pages,
        ),
{
    match last_page_arg(options, total_pages) {
        Some(last) => {
            args.push(String::from_str("-l"));
            args.push(decimal_string(last as u64));
            assert(texts_of(args@) =~= texts_of(old(args)@) + last_page_args(
                options.max_pages,
                total_pages,
            ));
        },
        None => {
            assert(texts_of(args@) =~= texts_of(old(args)@) + last_page_args(
                options.max_pages,
                total_pages,
            ));
        },
    }
}

/// The arguments with which `pdftocairo` draws the pages of `input` as PNG
/// images named after `output`.
pub fn pdftocairo_args(
    options: &PageIterOptions,
    password: Option<&str>,
    total_pages: usize,
    input: &str,
    output: &str,
) -> (args: Vec<String>)
    ensures
        texts_of(args@) == pdftocairo_args_spec(
            *options,
            match password {
                Some(p) => Some(p@),
                None => None,
            },
            total_pages,
            input@,
            output@,
        ),
{
    let mut args: Vec<String> = Vec::new();
    args.push(String::from_str("-png"));
    args.push(String::from_str("-r"));
    args.push(decimal_string(options.rasterize_dpi as u64));
    let ghost head = texts_of(args@);
    assert(head =~= seq!["-png"@, "-r"@, decimal_digits(options.rasterize_dpi as nat)]);
    match password {
        Some(p) => {
            args.push(String::from_str("-opw"));
            args.push(String::from_str(p));
            assert(texts_of(args@) =~= head + seq!["-opw"@, p@]);
        },
        None => {
            assert(texts_of(args@) =~= head + Seq::<Seq<char>>::empty());
        },
    }
    push_last_page_args(&mut args, options, total_pages);
    let ghost middle = texts_of(args@);
    args.push(String::from_str(input));
    args.push(String::from_str(output));
    assert(texts_of(args@) =~= middle + seq![input@, output@]);
    args
}

/// The arguments with which `pdfseparate` splits `input` into files named
/// after the pattern `output`.
pub fn pdfseparate_args(options: &PageIterOptions, total_pages: usize, input: &str, output: &str)
    -> (args: Vec<String>)
    ensures
        texts_of(args@) == pdfseparate_args_spec(*options, total_pages, input@, output@),
{
    let mut args: Vec<String> = Vec::new();
    assert(texts_of(args@) =~= Seq::<Seq<char>>::empty());
    push_last_page_args(&mut args, options, total_pages);
    let ghost middle = texts_of(args@);
    assert(middle =~= last_page_args(options.max_pages, total_pages));
    args.push(String::from_str(input));
    args.push(String::from_str(output));
    assert(texts_of(args@) =~= middle + seq![input@, output@]);
    args
}

/// What a command left behind: how it ended and what it printed.
#[derive(Debug)]
pub struct CommandOutput {
    /// Whether the command ended with success.
    pub success: bool,
    /// The exit code, where the command ended with one.
    pub code: Option<i32>,
    /// What the command printed to standard output.
    pub stdout: String,
    /// What the command printed to standard error.
    pub stderr: String,
}

/// Whether a line that a tool printed reports an error: it holds `error` in
/// any case, and it is not the harmless complaint `error: xref num` of
/// poppler.
pub open spec fn is_error_line_spec(line: Seq<char>) -> bool {
    contains_folded(line, "error"@) && !contains_folded(line, "error: xref num"@)
}

/// Whether one of `lines` reports an error.
pub open spec fn has_error_line(lines: Seq<Seq<char>>) -> bool {
    exists|i: int| 0 <= i < lines.len() && is_error_line_spec(#[trigger] lines[i])
}

/// Whether a line that a tool printed reports an error.
pub fn is_error_line(line: &str) -> (b: bool)
    ensures
        b == is_error_line_spec(line@),
{
    let chars = str_to_chars(line);
    assert(chars@.subrange(0, chars@.len() as int) =~= chars@);
    is_error_line_in(&chars, 0, chars.len())
}

fn is_error_line_in(chars: &Vec<char>, from: usize, to: usize) -> (b: bool)
    requires
        from <= to <= chars.len(),
    ensures
        b == is_error_line_spec(chars@.subrange(from as int, to as int)),
{
    let error = str_to_chars("error");
    let harmless = str_to_chars("error: xref num");
    contains_ignoring_case(chars, from, to, &error) && !contains_ignoring_case(
        chars,
        from,
        to,
        &harmless,
    )
}

/// The complaint about a command, if it failed. A command fails where it did
/// not end with success, and, where `check_error_lines` is set, where a line
/// of its standard error reports an error. The complaint carries the whole
/// standard error.
pub open spec fn command_failure(
    command_name: Seq<char>,
    output: CommandOutput,
    check_error_lines: bool,
) -> Option<Seq<char>> {
    if output.success {
        if check_error_lines && has_error_line(lines_spec(output.stderr@)) {
            Some(command_name + " printed error output:\n"@ + output.stderr@)
        } else {
            None
        }
    } else {
        match output.code {
            Some(code) => Some(
                command_name + " failed with exit code "@ + signed_digits(code as int)
                    + " and error output:\n"@ + output.stderr@,
            ),
            None => Some(command_name + " failed with error output:\n"@ + output.stderr@),
        }
    }
}

/// Report any command failures, and include any error output.
pub fn check_for_command_failure(
    command_name: &str,
    output: &CommandOutput,
    check_error_lines: bool,
) -> (r: Result<(), String>)
    ensures
        match r {
            Ok(_) => command_failure(command_name@, *output, check_error_lines).is_none(),
            Err(message) => command_failure(command_name@, *output, check_error_lines) == Some(
                message@,
            ),
        },
{
    if output.success {
        if check_error_lines {
            let chars = str_to_chars(output.stderr.as_str());
            let bounds = line_bounds(&chars);
            let ghost lines = lines_spec(chars@);
            let mut i: usize = 0;
            while i < bounds.len()
                invariant
                    i <= bounds@.len(),
                    output.success,
                    check_error_lines,
                    chars@ == output.stderr@,
                    lines == lines_spec(chars@),
                    bounds@.len() == lines.len(),
                    forall|k: int|
                        0 <= k < bounds@.len() ==> (#[trigger] bounds@[k]).0 <= bounds@[k].1
                            <= chars@.len() && chars@.subrange(
                            bounds@[k].0 as int,
                            bounds@[k].1 as int,
                        ) == lines[k],
                    forall|k: int| 0 <= k < i ==> !is_error_line_spec(#[trigger] lines[k]),
                decreases bounds.len() - i,
            {
                let (from, to) = bounds[i];
                assert(bounds@[i as int].0 <= bounds@[i as int].1);
                if is_error_line_in(&chars, from, to) {
                    assert(is_error_line_spec(lines[i as int]));
                    let mut message = String::from_str(command_name);
                    message.append(" printed error output:\n");
                    message.append(output.stderr.as_str());
                    assert(has_error_line(lines_spec(output.stderr@)));
                    return Err(message);
                }
                i += 1;
            }
            assert(!has_error_line(lines));
        }
        Ok(())
    } else {
        let mut message = String::from_str(command_name);
        match output.code {
            Some(code) => {
                message.append(" failed with exit code ");
                push_signed(&mut message, code);
                message.append(" and error output:\n");
            },
            None => {
                message.append(" failed with error output:\n");
            },
        }
        message.append(output.stderr.as_str());
        Err(message)
    }
}

/// The lines of `text`, each without the white space around it.
pub open spec fn trimmed_lines(text: Seq<char>) -> Seq<Seq<char>> {
    Seq::new(lines_spec(text).len(), |i: int| trim_spec(lines_spec(text)[i]))
}

fn push_trimmed_lines(warnings: &mut Vec<String>, text: &str)
    ensures
        texts_of(final(warnings)@) == texts_of(old(warnings)@) + trimmed_lines(text@),
{
    let chars = str_to_chars(text);
    let bounds = line_bounds(&chars);
    let ghost lines = lines_spec(chars@);
    let ghost start = texts_of(warnings@);
    let mut i: usize = 0;
    assert(texts_of(warnings@) =~= start + trimmed_lines(text@).take(0));
    while i < bounds.len()
        invariant
            i <= bounds@.len(),
            chars@ == text@,
            lines == lines_spec(chars@),
            bounds@.len() == lines.len(),
            forall|k: int|
                0 <= k < bounds@.len() ==> (#[trigger] bounds@[k]).0 <= bounds@[k].1
                    <= chars@.len() && chars@.subrange(bounds@[k].0 as int, bounds@[k].1 as int)
                    == lines[k],
            texts_of(warnings@) == start + trimmed_lines(text@).take(i as int),
        decreases bounds.len() - i,
    {
        let (from, to) = bounds[i];
        assert(bounds@[i as int].0 <= bounds@[i as int].1);
        let (a, b) = trim_bounds(&chars, from, to);
        let line = chars_to_string(&chars, a, b);
        let ghost before = texts_of(warnings@);
        warnings.push(line);
        proof {
            assert(line@ == trim_spec(lines[i as int]));
            assert(texts_of(warnings@) =~= before.push(line@));
            assert(trimmed_lines(text@).take(i + 1) =~= trimmed_lines(text@).take(i as int).push(
                trim_spec(lines[i as int]),
            ));
            assert(texts_of(warnings@) =~= start + trimmed_lines(text@).take(i + 1));
        }
        i += 1;
    }
    assert(trimmed_lines(text@).take(bounds@.len() as int) =~= trimmed_lines(text@));
}

/// What a command printed, as warnings: the lines of its standard output and
/// then those of its standard error, each without the white space around it.
pub fn command_warnings(output: &CommandOutput) -> (warnings: Vec<String>)
    ensures
        texts_of(warnings@) == trimmed_lines(output.stdout@) + trimmed_lines(output.stderr@),
{
    let mut warnings: Vec<String> = Vec::new();
    assert(texts_of(warnings@) =~= Seq::<Seq<char>>::empty());
    push_trimmed_lines(&mut warnings, output.stdout.as_str());
    assert(texts_of(warnings@) =~= trimmed_lines(output.stdout@));
    push_trimmed_lines(&mut warnings, output.stderr.as_str());
    warnings
}

} // verus!

verus! {

/// Why the output of `pdfinfo` gives no page count.
#[derive(Clone, Copy, Debug, PartialEq, Eq, Structural)]
pub enum PdfInfoError {
    /// No line gives a property named `Pages`.
    MissingPageCount,
    /// The value of `Pages` is not a number that fits a `usize`.
    InvalidPageCount,
}

impl PdfInfoError {
    /// The sentence that `message` returns.
    pub open spec fn message_spec(&self) -> Seq<char> {
        match self {
            PdfInfoError::MissingPageCount => "failed to find page count in pdfinfo output"@,
            PdfInfoError::InvalidPageCount => "failed to parse page count from pdfinfo output"@,
        }
    }

    /// A sentence that describes the error.
    pub fn message(&self) -> (s: String)
        ensures
            s@ == self.message_spec(),
    {
        match self {
            PdfInfoError::MissingPageCount => String::from_str(
                "failed to find page count in pdfinfo output",
            ),
            PdfInfoError::InvalidPageCount => String::from_str(
                "failed to parse page count from pdfinfo output",
            ),
        }
    }
}

/// The name of the property that a line of `pdfinfo` gives: what stands
/// before the first `:`, without the white space around it.
pub open spec fn property_key(line: Seq<char>) -> Seq<char> {
    trim_spec(line.take(index_of_char(line, ':')))
}

/// The value of the property that a line of `pdfinfo` gives: what stands
/// after the first `:`, without the white space around it; empty where the
/// line has no `:`.
pub open spec fn property_value(line: Seq<char>) -> Seq<char> {
    let cut = index_of_char(line, ':');
    if cut < line.len() {
        trim_spec(line.skip(cut + 1))
    } else {
        Seq::empty()
    }
}

/// The value of the property `Pages`, as the last line that names it gives
/// it.
pub open spec fn pages_value(lines: Seq<Seq<char>>) -> Option<Seq<char>>
    decreases lines.len(),
{
    if lines.len() == 0 {
        None
    } else if property_key(lines.last()) == "Pages"@ {
        Some(property_value(lines.last()))
    } else {
        pages_value(lines.drop_last())
    }
}

/// The number of pages that the output of `pdfinfo` reports.
pub open spec fn page_count_spec(output: Seq<char>) -> Result<usize, PdfInfoError> {
    match pages_value(lines_spec(output)) {
        None => Err(PdfInfoError::MissingPageCount),
        Some(value) => match parse_usize_spec(value) {
            Some(n) => Ok(n),
            None => Err(PdfInfoError::InvalidPageCount),
        },
    }
}

fn find_char_in(chars: &Vec<char>, from: usize, to: usize, c: char) -> (r: usize)
    requires
        from <= to <= chars.len(),
    ensures
        r == index_of_char(chars@.subrange(from as int, to as int), c),
        from + r <= to,
{
    let ghost s = chars@.subrange(from as int, to as int);
    let mut i: usize = from;
    while i < to && chars[i] != c
        invariant
            from <= i <= to <= chars.len(),
            s == chars@.subrange(from as int, to as int),
            forall|k: int| 0 <= k < i - from ==> s[k] != c,
        decreases to - i,
    {
        i += 1;
    }
    proof {
        if i < to {
            assert(s[i - from] == chars@[i as int]);
        }
        crate::text::lemma_index_of_char_unique(s, c, i - from);
    }
    i - from
}

/// Get the number of pages of a PDF from what `pdfinfo` printed about it.
pub fn parse_pdfinfo_page_count(output: &str) -> (r: Result<usize, PdfInfoError>)
    ensures
        r == page_count_spec(output@),
{
    let chars = str_to_chars(output);
    let pages = str_to_chars("Pages");
    let bounds = line_bounds(&chars);
    let ghost lines = lines_spec(chars@);
    let mut found: Option<(usize, usize)> = None;
    let mut i: usize = 0;
    assert(lines.take(0) =~= Seq::<Seq<char>>::empty());
    while i < bounds.len()
        invariant
            i <= bounds@.len(),
            pages@ == "Pages"@,
            lines == lines_spec(chars@),
            bounds@.len() == lines.len(),
            forall|k: int|
                0 <= k < bounds@.len() ==> (#[trigger] bounds@[k]).0 <= bounds@[k].1
                    <= chars@.len() && chars@.subrange(bounds@[k].0 as int, bounds@[k].1 as int)
                    == lines[k],
            match found {
                Some((a, b)) => a <= b <= chars@.len() && pages_value(lines.take(i as int))
                    == Some(chars@.subrange(a as int, b as int)),
                None => pages_value(lines.take(i as int)).is_none(),
            },
        decreases bounds.len() - i,
    {
        let (from, to) = bounds[i];
        assert(bounds@[i as int].0 <= bounds@[i as int].1);
        let ghost line = lines[i as int];
        proof {
            assert(lines.take(i + 1).drop_last() =~= lines.take(i as int));
            assert(lines.take(i + 1).last() == line);
        }
        let cut = find_char_in(&chars, from, to, ':');
        let (ka, kb) = trim_bounds(&chars, from, from + cut);
        assert(line.take(cut as int) =~= chars@.subrange(from as int, from + cut));
        let key_is_pages = kb - ka == pages.len() && has_prefix_at(&chars, ka, &pages);
        proof {
            let key = chars@.subrange(ka as int, kb as int);
            assert(key == property_key(line));
            if key_is_pages {
                assert(key =~= chars@.subrange(ka as int, ka + pages@.len()));
            } else if key == pages@ {
                assert(chars@.subrange(ka as int, ka + pages@.len()) =~= key);
            }
        }
        if key_is_pages {
            if from + cut < to {
                let (va, vb) = trim_bounds(&chars, from + cut + 1, to);
                assert(line.skip(cut + 1) =~= chars@.subrange(from + cut + 1, to as int));
                found = Some((va, vb));
            } else {
                assert(chars@.subrange(to as int, to as int) =~= Seq::<char>::empty());
                found = Some((to, to));
            }
        }
        i += 1;
    }
    assert(lines.take(bounds@.len() as int) =~= lines);
    match found {
        None => Err(PdfInfoError::MissingPageCount),
        Some((a, b)) => {
            let value = slice_chars(&chars, a, b);
            match parse_usize(&value) {
                Some(n) => Ok(n),
                None => Err(PdfInfoError::InvalidPageCount),
            }
        },
    }
}

/// A file that holds a page.
#[derive(Debug)]
pub struct PageFile {
    /// The path of the file.
    pub path: String,
    /// Whether the file is to be deleted once it has been read: it is a
    /// scratch file of the iterator.
    pub delete_after_read: bool,
}

/// The pages of a document, as the files that hold them.
///
/// The files are handed out at most once each and in order. Where they are
/// scratch files they lie in a temporary directory of the caller, which the
/// caller removes when it lets go of the iterator.
#[derive(Debug)]
pub struct PageIter {
    /// The MIME type of our outputs.
    pub mime_type: String,
    /// The files of the pages, in order.
    pub paths: Vec<String>,
    /// How many of the files have been handed out.
    pub position: usize,
    /// Expected number of pages in the document.
    pub total_pages: usize,
    /// The maximum number of pages we are allowed to process.
    pub max_pages: Option<usize>,
    /// Any warnings that occurred while processing the document.
    pub warnings: Vec<String>,
    /// Whether the files lie in a temporary directory.
    pub in_tempdir: bool,
}

impl PageIter {
    /// No more files have been handed out than there are.
    pub open spec fn wf(&self) -> bool {
        self.position <= self.paths@.len()
    }

    /// The pages of a file that is an image and its own single page.
    pub fn single_image(path: String, mime_type: String, options: &PageIterOptions) -> (iter: Self)
        ensures
            iter.wf(),
            iter.mime_type == mime_type,
            iter.paths@ == seq![path],
            iter.position == 0,
            iter.total_pages == 1,
            iter.max_pages == options.max_pages,
            iter.warnings@.len() == 0,
            !iter.in_tempdir,
    {
        let mut paths: Vec<String> = Vec::new();
        paths.push(path);
        PageIter {
            mime_type,
            paths,
            position: 0,
            total_pages: 1,
            max_pages: options.max_pages,
            warnings: Vec::new(),
            in_tempdir: false,
        }
    }

    /// The pages that a tool wrote into a temporary directory: the files of
    /// the directory in lexical order, with what the tool printed as
    /// warnings.
    pub fn from_tempdir(
        options: &PageIterOptions,
        mime_type: String,
        total_pages: usize,
        dir_paths: Vec<String>,
        output: &CommandOutput,
    ) -> (iter: Self)
        ensures
            iter.wf(),
            iter.mime_type == mime_type,
            texts_sorted(iter.paths@),
            iter.paths@.to_multiset() == dir_paths@.to_multiset(),
            iter.paths@.len() == dir_paths@.len(),
            iter.position == 0,
            iter.total_pages == total_pages,
            iter.max_pages == options.max_pages,
            texts_of(iter.warnings@) == trimmed_lines(output.stdout@) + trimmed_lines(
                output.stderr@,
            ),
            iter.in_tempdir,
    {
        let paths = sort_texts(dir_paths);
        let warnings = command_warnings(output);
        PageIter {
            mime_type,
            paths,
            position: 0,
            total_pages,
            max_pages: options.max_pages,
            warnings,
            in_tempdir: true,
        }
    }

    /// Get any warnings that occurred while processing the document.
    pub fn warnings(&self) -> (w: &Vec<String>)
        ensures
            *w == self.warnings,
    {
        &self.warnings
    }

    /// Whether the document has more pages than the limit allows.
    pub open spec fn incomplete(&self) -> bool {
        match self.max_pages {
            Some(max_pages) => self.total_pages > max_pages,
            None => false,
        }
    }

    /// Will this iterator return only an incomplete set of pages?
    pub fn is_incomplete(&self) -> (b: bool)
        ensures
            b == self.incomplete(),
    {
        match self.max_pages {
            Some(max_pages) => self.total_pages > max_pages,
            None => false,
        }
    }

    /// The complaint of an iterator that was cut short.
    pub open spec fn incomplete_text(&self) -> Seq<char> {
        "this iterator is partial: "@ + decimal_digits(self.max_pages->Some_0 as nat)
            + " pages requested, but only "@ + decimal_digits(self.total_pages as nat)
            + " pages available"@
    }

    /// If this iterator will return only an incomplete set of pages, return
    /// an error that says so.
    pub fn check_complete(&self) -> (r: Result<(), String>)
        ensures
            r is Err <==> self.incomplete(),
            r matches Err(message) ==> message@ == self.incomplete_text(),
    {
        match self.max_pages {
            Some(max_pages) => {
                if self.total_pages > max_pages {
                    let mut message = String::from_str("this iterator is partial: ");
                    push_decimal(&mut message, max_pages as u64);
                    message.append(" pages requested, but only ");
                    push_decimal(&mut message, self.total_pages as u64);
                    message.append(" pages available");
                    Err(message)
                } else {
                    Ok(())
                }
            },
            None => Ok(()),
        }
    }

    /// How many files are still to come, as the lower and the upper bound of a
    /// size hint.
    pub fn size_hint(&self) -> (hint: (usize, Option<usize>))
        requires
            self.wf(),
        ensures
            hint.0 == self.paths@.len() - self.position,
            hint.1 == Some(hint.0),
    {
        let left = self.paths.len() - self.position;
        (left, Some(left))
    }

    /// Hand out the file of the next page, if there is one.
    pub fn next_file(&mut self) -> (file: Option<PageFile>)
        requires
            old(self).wf(),
        ensures
            final(self).wf(),
            final(self).paths == old(self).paths,
            final(self).mime_type == old(self).mime_type,
            final(self).total_pages == old(self).total_pages,
            final(self).max_pages == old(self).max_pages,
            final(self).warnings == old(self).warnings,
            final(self).in_tempdir == old(self).in_tempdir,
            old(self).position < old(self).paths@.len() ==> (file matches Some(f) && f.path@
                == old(self).paths@[old(self).position as int]@ && f.delete_after_read == old(
                self).in_tempdir && final(self).position == old(self).position + 1),
            old(self).position >= old(self).paths@.len() ==> file.is_none() && final(self).position
                == old(self).position,
    {
        if self.position < self.paths.len() {
            let path = self.paths[self.position].clone();
            self.position = self.position + 1;
            Some(PageFile { path, delete_after_read: self.in_tempdir })
        } else {
            None
        }
    }

    /// The page that the bytes of a file of this iterator make.
    pub fn page(&self, data: Vec<u8>) -> (page: Page)
        ensures
            page.mime_type@ == self.mime_type@,
            page.data == data,
    {
        Page { mime_type: self.mime_type.clone(), data }
    }
}

/// The bits of `NewSubfileType` that mark an image as one that is no page of
/// its own: a reduced-resolution copy (bit 0), a transparency mask (bit 2),
/// and the bits that DNG adds for a depth map (0x8), enhanced image data
/// (0x10) and an alternative preview (0x10000).
pub const SAFE_SUBFILE_BITS: u32 = 0x1_001d;

/// Whether a SubIFD with this `NewSubfileType` may be passed over: at least
/// one bit is set, and every bit that is set marks an image that is no page
/// of its own. Zero, the bit of a single page of a multi-page image (0x2)
/// and every unknown bit leave the SubIFD ambiguous.
pub open spec fn safe_to_skip(new_subfile_type: u32) -> bool {
    new_subfile_type != 0 && (new_subfile_type & !SAFE_SUBFILE_BITS) == 0
}

/// Whether a SubIFD with this `NewSubfileType` may be passed over.
pub fn is_safe_to_skip(new_subfile_type: u32) -> (safe: bool)
    ensures
        safe == safe_to_skip(new_subfile_type),
{
    new_subfile_type != 0 && (new_subfile_type & !SAFE_SUBFILE_BITS) == 0
}

/// A main image of a TIFF, as far as the walk over the file reads it: the
/// `NewSubfileType` of each of its SubIFDs, zero where the field is absent.
#[derive(Debug)]
pub struct TiffIfd {
    /// The `NewSubfileType` of each SubIFD, in order.
    pub sub_ifd_types: Vec<u32>,
}

/// A SubIFD that may hold a page of its own.
#[derive(Clone, Copy, Debug, PartialEq, Eq, Structural)]
pub struct AmbiguousSubIfd {
    /// The index of the main image.
    pub ifd: usize,
    /// The index of the SubIFD in the main image.
    pub sub_ifd: usize,
    /// The `NewSubfileType` of the SubIFD.
    pub new_subfile_type: u32,
}

impl AmbiguousSubIfd {
    /// The sentence that `message` returns.
    pub open spec fn message_spec(&self) -> Seq<char> {
        "TIFF IFD "@ + decimal_digits(self.ifd as nat) + " has SubIFD "@ + decimal_digits(
            self.sub_ifd as nat,
        ) + " with NewSubfileType "@ + decimal_digits(self.new_subfile_type as nat)
            + ", which may hold a page of its own; convert the file to PDF and try again"@
    }

    /// A sentence that names the SubIFD and says what to do.
    pub fn message(&self) -> (s: String)
        ensures
            s@ == self.message_spec(),
    {
        let mut s = String::from_str("TIFF IFD ");
        push_decimal(&mut s, self.ifd as u64);
        s.append(" has SubIFD ");
        push_decimal(&mut s, self.sub_ifd as u64);
        s.append(" with NewSubfileType ");
        push_decimal(&mut s, self.new_subfile_type as u64);
        s.append(", which may hold a page of its own; convert the file to PDF and try again");
        s
    }
}

/// Whether every SubIFD of every main image may be passed over.
pub open spec fn all_sub_ifds_safe(ifds: Seq<TiffIfd>) -> bool {
    forall|i: int, j: int|
        0 <= i < ifds.len() && 0 <= j < ifds[i].sub_ifd_types@.len() ==> safe_to_skip(
            #[trigger] ifds[i].sub_ifd_types@[j],
        )
}

/// Check the SubIFDs of a TIFF before any of its pages is made.
///
/// Returns the number of pages, one for each main image, exactly where every
/// SubIFD may be passed over. Otherwise the TIFF gives no page at all, and
/// the error names the first SubIFD that may hold a page of its own: to fail
/// loudly is better than to drop a page of a document in silence.
pub fn check_tiff_sub_ifds(ifds: &Vec<TiffIfd>) -> (r: Result<usize, AmbiguousSubIfd>)
    ensures
        r is Ok <==> all_sub_ifds_safe(ifds@),
        r matches Ok(pages) ==> pages == ifds@.len(),
        r matches Err(e) ==> {
            &&& e.ifd < ifds@.len()
            &&& e.sub_ifd < ifds@[e.ifd as int].sub_ifd_types@.len()
            &&& e.new_subfile_type == ifds@[e.ifd as int].sub_ifd_types@[e.sub_ifd as int]
            &&& !safe_to_skip(e.new_subfile_type)
            &&& forall|i: int, j: int|
                0 <= i < ifds@.len() && 0 <= j < ifds@[i].sub_ifd_types@.len() && (i < e.ifd || (i
                    == e.ifd && j < e.sub_ifd)) ==> safe_to_skip(
                    #[trigger] ifds@[i].sub_ifd_types@[j],
                )
        },
{
    let mut i: usize = 0;
    while i < ifds.len()
        invariant
            i <= ifds@.len(),
            forall|a: int, b: int|
                0 <= a < i && 0 <= b < ifds@[a].sub_ifd_types@.len() ==> safe_to_skip(
                    #[trigger] ifds@[a].sub_ifd_types@[b],
                ),
        decreases ifds.len() - i,
    {
        let types = &ifds[i].sub_ifd_types;
        let mut j: usize = 0;
        while j < types.len()
            invariant
                i < ifds@.len(),
                j <= types@.len(),
                *types == ifds@[i as int].sub_ifd_types,
                forall|a: int, b: int|
                    0 <= a < i && 0 <= b < ifds@[a].sub_ifd_types@.len() ==> safe_to_skip(
                        #[trigger] ifds@[a].sub_ifd_types@[b],
                    ),
                forall|b: int| 0 <= b < j ==> safe_to_skip(#[trigger] types@[b]),
            decreases types.len() - j,
        {
            if !is_safe_to_skip(types[j]) {
                return Err(AmbiguousSubIfd { ifd: i, sub_ifd: j, new_subfile_type: types[j] });
            }
            j += 1;
        }
        i += 1;
    }
    Ok(ifds.len())
}

/// A sample of 16 bits as one of 8 bits: its upper half.
pub fn downshift_sample(sample: u16) -> (byte: u8)
    ensures
        byte == sample / 256,
{
    (sample / 256) as u8
}

/// Samples of 16 bits as samples of 8 bits, each by its upper half.
pub fn downshift_samples(samples: &Vec<u16>) -> (bytes: Vec<u8>)
    ensures
        bytes@.len() == samples@.len(),
        forall|i: int| 0 <= i < samples@.len() ==> #[trigger] bytes@[i] == samples@[i] / 256,
{
    let mut bytes: Vec<u8> = Vec::new();
    let mut i: usize = 0;
    while i < samples.len()
        invariant
            i <= samples@.len(),
            bytes@.len() == i,
            forall|k: int| 0 <= k < i ==> #[trigger] bytes@[k] == samples@[k] / 256,
        decreases samples.len() - i,
    {
        bytes.push(downshift_sample(samples[i]));
        i += 1;
    }
    bytes
}

} // verus!
