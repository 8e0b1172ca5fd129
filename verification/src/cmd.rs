//! Options shared by the commands that process streams of records.

use vstd::prelude::*;
use crate::queues::work::{FailureRate, OutputSequencer};

verus! {

/// Common options for subcommands that process data streams.
#[derive(Debug, Clone, Copy, PartialEq, Eq, Structural)]
pub struct StreamOpts {
    /// Max number of requests to process at a time.
    pub job_count: usize,
    /// Limit processing to the first N records.
    pub limit: Option<usize>,
    /// Offset the start of processing by N records.
    pub offset: usize,
    /// Allow reordering of the output stream. May help increase thoughput if
    /// some requests take much longer than others.
    pub allow_reordering: bool,
    /// What portion of inputs should we allow to fail?
    pub allowed_failure_rate: FailureRate,
}

impl StreamOpts {
    /// Whether the record at `index` of the input is processed: the first
    /// `offset` records are passed over, and of the rest at most `limit` are
    /// taken.
    pub open spec fn selects(&self, index: nat) -> bool {
        index >= self.offset && match self.limit {
            Some(limit) => index - self.offset < limit,
            None => true,
        }
    }

    /// Whether the record at `index` of the input is processed.
    pub fn admits(&self, index: usize) -> (b: bool)
        ensures
            b == self.selects(index as nat),
    {
        index >= self.offset && match self.limit {
            Some(limit) => index - self.offset < limit,
            None => true,
        }
    }

    /// Whether no record at or after `index` is processed, so that reading
    /// the input can stop.
    pub fn is_past_end(&self, index: usize) -> (b: bool)
        ensures
            b == forall|later: nat| later >= index ==> !self.selects(later),
    {
        match self.limit {
            Some(limit) => {
                let past = index >= self.offset && index - self.offset >= limit;
                proof {
                    if !past {
                        let witness: nat = if index >= self.offset {
                            index as nat
                        } else {
                            self.offset as nat
                        };
                        if limit > 0 {
                            assert(self.selects(witness));
                        }
                    }
                }
                past || limit == 0
            },
            None => {
                proof {
                    let witness: nat = if index >= self.offset {
                        index as nat
                    } else {
                        self.offset as nat
                    };
                    assert(self.selects(witness));
                }
                false
            },
        }
    }

    /// Apply the offset and the limit to the records of an input.
    pub fn apply_stream_input_opts<T>(&self, input: Vec<T>) -> (selected: Vec<T>)
        ensures
            selected@ == input@.subrange(
                self.first_selected(input@.len()) as int,
                self.end_selected(input@.len()) as int,
            ),
    {
        let n = input.len();
        let first = if self.offset < n { self.offset } else { n };
        let end = match self.limit {
            Some(limit) => if limit < n - first { first + limit } else { n },
            None => n,
        };
        let mut selected: Vec<T> = Vec::new();
        let ghost all = input@;
        let mut index: usize = 0;
        for record in it: input
            invariant
                it.seq() == all,
                index == it.index(),
                n == all.len(),
                first <= end <= n,
                selected@ == all.subrange(
                    first as int,
                    if index < first { first as int } else if index < end { index as int } else {
                        end as int
                    },
                ),
        {
            if first <= index && index < end {
                let ghost before = selected@;
                selected.push(record);
                assert(selected@ =~= all.subrange(first as int, index + 1));
            }
            index = index + 1;
        }
        selected
    }

    /// The index of the first record that is processed, in an input of `len`
    /// records.
    pub open spec fn first_selected(&self, len: nat) -> nat {
        if self.offset < len {
            self.offset as nat
        } else {
            len
        }
    }

    /// The index after the last record that is processed, in an input of
    /// `len` records.
    pub open spec fn end_selected(&self, len: nat) -> nat {
        match self.limit {
            Some(limit) => if limit < len - self.first_selected(len) {
                self.first_selected(len) + limit as nat
            } else {
                len
            },
            None => len,
        }
    }

    /// The sequencer that puts the outputs of a run into the order that these
    /// options ask for.
    pub fn apply_stream_buffering_opts<Output>(&self) -> (sequencer: OutputSequencer<Output>)
        ensures
            sequencer.wf(),
            sequencer.allow_reordering == self.allow_reordering,
            sequencer.next_ticket == 0,
            sequencer.held@.len() == 0,
    {
        OutputSequencer::new(self.allow_reordering)
    }
}

/// The different schema types we support.
#[derive(Debug, Clone, Copy, PartialEq, Eq, Structural)]
pub enum SchemaType {
    /// Chat input.
    ChatInput,
    /// Chat output.
    ChatOutput,
    /// Chat prompt.
    ChatPrompt,
    /// OCR input.
    OcrInput,
    /// OCR output.
    OcrOutput,
}

impl SchemaType {
    /// The title of the schema of this type: the name of the type.
    pub open spec fn title_spec(self) -> Seq<char> {
        match self {
            SchemaType::ChatInput => "ChatInput"@,
            SchemaType::ChatOutput => "ChatOutput"@,
            SchemaType::ChatPrompt => "ChatPrompt"@,
            SchemaType::OcrInput => "OcrInput"@,
            SchemaType::OcrOutput => "OcrOutput"@,
        }
    }

    /// The title of the schema of this type.
    pub fn title(self) -> (t: &'static str)
        ensures
            t@ == self.title_spec(),
    {
        match self {
            SchemaType::ChatInput => "ChatInput",
            SchemaType::ChatOutput => "ChatOutput",
            SchemaType::ChatPrompt => "ChatPrompt",
            SchemaType::OcrInput => "OcrInput",
            SchemaType::OcrOutput => "OcrOutput",
        }
    }
}

/// Schema command line arguments.
#[derive(Debug)]
pub struct SchemaOpts {
    /// The schema type to generate.
    pub schema_type: SchemaType,
    /// The output path to write the schema to.
    pub output_path: Option<String>,
}

impl SchemaOpts {
    /// Are we using stdout for output?
    pub fn using_stdout_for_output(&self) -> (b: bool)
        ensures
            b == self.output_path.is_none(),
    {
        self.output_path.is_none()
    }
}

} // verus!
