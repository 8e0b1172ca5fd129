//! The OCR pipeline: the records of a document and the assembly of its pages.

use vstd::prelude::*;
use crate::drivers::{Cost, TokenUsage};
use crate::json::Json;
use crate::queues::work::{opt_text, WorkInput, WorkOutput, WorkStatus};
use crate::text::{join_spec, join_strings, texts_of};

pub mod engines;

verus! {

/// A input record describing a file to OCR.
#[derive(Debug)]
pub struct OcrInput {
    /// The path to the PDF file.
    pub path: String,
    /// The password to decrypt the PDF file, if any.
    pub password: Option<String>,
}

/// An output record describing an OCRed PDF.
#[derive(Debug)]
pub struct OcrOutput {
    /// The input path.
    pub path: String,
    /// The text extracted from the PDF. If errors occur on specific pages,
    /// those pages will be replaced with `**COULD_NOT_OCR_PAGE**`.
    pub text: Option<String>,
    /// The number of pages in the PDF, if known.
    pub page_count: Option<usize>,
    /// Any defects in the page that make it difficult to OCR.
    pub analysis: Option<OcrAnalysis>,
}

/// Flat version of an OCR output record, for CSV output.
///
/// Does not contain anything but essential fields.
#[derive(Debug)]
pub struct FlatOcrOutput {
    /// The ID of the input record.
    pub id: String,
    /// The status of the output record.
    pub status: WorkStatus,
    /// Any errors that occurred during processing.
    pub errors: Option<String>,
    /// The path to the PDF file.
    pub path: String,
    /// The text extracted from the PDF.
    pub text: Option<String>,
}

/// How was this image generated?
#[derive(Clone, Copy, Debug, PartialOrd, Ord, PartialEq, Eq, Structural)]
pub enum ImageSource {
    /// The image appears to be a photo, video, or rendering.
    PhotoOrVideo,
    /// The image appears to have been scanned.
    Scan,
    /// The image appears to be a native digital document.
    Digital,
}

impl Default for ImageSource {
    fn default() -> (s: ImageSource)
        ensures
            s == ImageSource::Digital,
    {
        ImageSource::Digital
    }
}

impl ImageSource {
    /// The place of the source from the hardest to read to the easiest.
    pub open spec fn rank(self) -> nat {
        match self {
            ImageSource::PhotoOrVideo => 0,
            ImageSource::Scan => 1,
            ImageSource::Digital => 2,
        }
    }

    /// The worse of two sources.
    pub open spec fn merged(self, other: ImageSource) -> ImageSource {
        if self.rank() < other.rank() {
            self
        } else {
            other
        }
    }

    fn rank_of(self) -> (r: u8)
        ensures
            r == self.rank(),
    {
        match self {
            ImageSource::PhotoOrVideo => 0,
            ImageSource::Scan => 1,
            ImageSource::Digital => 2,
        }
    }

    /// Merge two image sources, taking the worst.
    pub fn merge(self, other: Self) -> (m: Self)
        ensures
            m == self.merged(other),
    {
        if self.rank_of() < other.rank_of() {
            self
        } else {
            other
        }
    }
}

/// Flags describing defects in the page that make it difficult to OCR.
#[derive(Clone, Copy, Debug, PartialEq, Eq, Structural)]
pub struct OcrAnalysis {
    /// The source of this image.
    pub image_source: ImageSource,
    /// The document contains handwriting.
    pub contains_handwriting: bool,
    /// The document contains text that may not have been OCRed correctly.
    pub contains_unreadable_or_ambiguous_text: bool,
    /// The background behind the text is noisy.
    pub background_is_noisy: bool,
    /// The document contains text that is faint or low-contrast.
    pub contains_faint_text: bool,
    /// The document contains text is blurred or out of focus.
    pub contains_blurred_text: bool,
    /// The document contains distorted text, including from crinkled paper,
    /// perspective distortion, or other artifacts.
    pub contains_distorted_text: bool,
    /// The document contains text that is cut off.
    pub contains_cutoff_text: bool,
    /// The image contains glare obscuring the text.
    pub glare_on_some_text: bool,
}

impl Default for OcrAnalysis {
    fn default() -> (a: OcrAnalysis)
        ensures
            a == OcrAnalysis::clean(),
    {
        OcrAnalysis {
            image_source: ImageSource::Digital,
            contains_handwriting: false,
            contains_unreadable_or_ambiguous_text: false,
            background_is_noisy: false,
            contains_faint_text: false,
            contains_blurred_text: false,
            contains_distorted_text: false,
            contains_cutoff_text: false,
            glare_on_some_text: false,
        }
    }
}

impl OcrAnalysis {
    /// The analysis of a digital page without a defect.
    pub open spec fn clean() -> OcrAnalysis {
        OcrAnalysis {
            image_source: ImageSource::Digital,
            contains_handwriting: false,
            contains_unreadable_or_ambiguous_text: false,
            background_is_noisy: false,
            contains_faint_text: false,
            contains_blurred_text: false,
            contains_distorted_text: false,
            contains_cutoff_text: false,
            glare_on_some_text: false,
        }
    }

    /// Two analyses as one: the worse source, and each flag set where either
    /// has it set.
    pub open spec fn merged(self, other: OcrAnalysis) -> OcrAnalysis {
        OcrAnalysis {
            image_source: self.image_source.merged(other.image_source),
            contains_handwriting: self.contains_handwriting || other.contains_handwriting,
            contains_unreadable_or_ambiguous_text: self.contains_unreadable_or_ambiguous_text
                || other.contains_unreadable_or_ambiguous_text,
            background_is_noisy: self.background_is_noisy || other.background_is_noisy,
            contains_faint_text: self.contains_faint_text || other.contains_faint_text,
            contains_blurred_text: self.contains_blurred_text || other.contains_blurred_text,
            contains_distorted_text: self.contains_distorted_text || other.contains_distorted_text,
            contains_cutoff_text: self.contains_cutoff_text || other.contains_cutoff_text,
            glare_on_some_text: self.glare_on_some_text || other.glare_on_some_text,
        }
    }

    /// Merge two sets of flags using OR.
    pub fn merge(&self, other: &Self) -> (m: Self)
        ensures
            m == self.merged(*other),
    {
        Self {
            image_source: self.image_source.merge(other.image_source),
            contains_handwriting: self.contains_handwriting || other.contains_handwriting,
            contains_unreadable_or_ambiguous_text: self.contains_unreadable_or_ambiguous_text
                || other.contains_unreadable_or_ambiguous_text,
            background_is_noisy: self.background_is_noisy || other.background_is_noisy,
            contains_faint_text: self.contains_faint_text || other.contains_faint_text,
            contains_blurred_text: self.contains_blurred_text || other.contains_blurred_text,
            contains_distorted_text: self.contains_distorted_text || other.contains_distorted_text,
            contains_cutoff_text: self.contains_cutoff_text || other.contains_cutoff_text,
            glare_on_some_text: self.glare_on_some_text || other.glare_on_some_text,
        }
    }
}

/// Merging is idempotent, commutative and associative, and a clean analysis
/// changes nothing: the order in which the pages of a document are merged
/// does not matter.
pub proof fn lemma_merge_laws(a: OcrAnalysis, b: OcrAnalysis, c: OcrAnalysis)
    ensures
        a.merged(a) == a,
        a.merged(b) == b.merged(a),
        a.merged(b).merged(c) == a.merged(b.merged(c)),
        OcrAnalysis::clean().merged(a) == a,
{
}

/// Process the result of an engine for one document: a failure of the engine
/// becomes a failed record for the document, so that one corrupt file does
/// not end a whole batch.
pub fn ocr_file(id: Json, path: String, result: Result<WorkOutput<OcrOutput>, String>) -> (out:
    WorkOutput<OcrOutput>)
    ensures
        match result {
            Ok(output) => out == output,
            Err(error) => {
                &&& out.id == id
                &&& out.status == WorkStatus::Failed
                &&& out.errors@ == seq![error]
                &&& out.estimated_cost.is_none()
                &&& out.token_usage.is_none()
                &&& out.data.path == path
                &&& out.data.text.is_none()
                &&& out.data.page_count.is_none()
                &&& out.data.analysis.is_none()
            },
        },
{
    match result {
        Ok(output) => output,
        Err(error) => {
            let mut errors: Vec<String> = Vec::new();
            errors.push(error);
            WorkOutput {
                id,
                status: WorkStatus::Failed,
                errors,
                estimated_cost: None,
                token_usage: None,
                data: OcrOutput { path, text: None, page_count: None, analysis: None },
            }
        },
    }
}

} // verus!

verus! {

/// What separates two errors in a flat record.
pub open spec fn flat_error_separator() -> Seq<char> {
    "\n\n"@
}

impl WorkOutput<OcrOutput> {
    /// Convert this output record to a flat version for CSV output.
    ///
    /// The ID of a flat record is a text: the ID itself where that is a JSON
    /// string, and otherwise the JSON text of the ID. The errors become one
    /// text, joined by empty lines, and are left out where there are none.
    pub fn to_flat(&self) -> (flat: FlatOcrOutput)
        ensures
            flat.id@ == (match self.id {
                Json::Text(id) => id@,
                other => crate::json::compact_json(other@),
            }),
            flat.status == self.status,
            opt_text(flat.errors) == (if self.errors@.len() == 0 {
                None
            } else {
                Some(join_spec(texts_of(self.errors@), flat_error_separator()))
            }),
            flat.path@ == self.data.path@,
            opt_text(flat.text) == opt_text(self.data.text),
    {
        match &self.id {
            Json::Text(_) => self.to_flat_with(""),
            other => {
                let id_text = other.to_json_string();
                self.to_flat_with(id_text.as_str())
            },
        }
    }

    /// Convert this output record to a flat version, with `id_text` as the
    /// text of an ID that is no JSON string.
    pub fn to_flat_with(&self, id_text: &str) -> (flat: FlatOcrOutput)
        ensures
            flat.id@ == (match self.id {
                Json::Text(id) => id@,
                _ => id_text@,
            }),
            flat.status == self.status,
            opt_text(flat.errors) == (if self.errors@.len() == 0 {
                None
            } else {
                Some(join_spec(texts_of(self.errors@), flat_error_separator()))
            }),
            flat.path@ == self.data.path@,
            opt_text(flat.text) == opt_text(self.data.text),
    {
        FlatOcrOutput {
            id: match &self.id {
                Json::Text(id) => id.clone(),
                _ => String::from_str(id_text),
            },
            status: self.status,
            errors: if self.errors.len() == 0 {
                None
            } else {
                Some(join_strings(&self.errors, "\n\n"))
            },
            path: self.data.path.clone(),
            text: match &self.data.text {
                Some(text) => Some(text.clone()),
                None => None,
            },
        }
    }
}

} // verus!
