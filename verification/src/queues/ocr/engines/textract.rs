//! The text of a document that Textract has analyzed: the blocks of the
//! analysis, walked in order and written out as plain text.

use vstd::prelude::*;
use crate::json::Json;
use crate::queues::ocr::engines::{textract_cost, OcrPageOutput};
use crate::queues::ocr::OcrOutput;
use crate::queues::work::{WorkOutput, WorkStatus};
use crate::text::{chars_to_string, has_prefix_at, str_eq, str_to_chars};

verus! {

/// The type of a block, as far as the text depends on it.
#[derive(Debug, Clone, Copy, PartialEq, Eq, Structural)]
pub enum BlockType {
    /// A page of the document.
    Page,
    /// A line of text.
    Line,
    /// A word.
    Word,
    /// An element of the layout: a title, a paragraph, a list and so on.
    Layout,
    /// Any other block.
    Other,
}

/// The type that a name stands for. The layout types are those whose name
/// begins with `LAYOUT_`.
pub open spec fn block_type_spec(name: Seq<char>) -> BlockType {
    if name == "PAGE"@ {
        BlockType::Page
    } else if name == "LINE"@ {
        BlockType::Line
    } else if name == "WORD"@ {
        BlockType::Word
    } else if crate::text::has_prefix_at_spec(name, 0, "LAYOUT_"@) {
        BlockType::Layout
    } else {
        BlockType::Other
    }
}

/// The type that a name stands for.
pub fn block_type_of(name: &str) -> (t: BlockType)
    ensures
        t == block_type_spec(name@),
{
    if str_eq(name, "PAGE") {
        BlockType::Page
    } else if str_eq(name, "LINE") {
        BlockType::Line
    } else if str_eq(name, "WORD") {
        BlockType::Word
    } else if has_prefix_at(&str_to_chars(name), 0, &str_to_chars("LAYOUT_")) {
        BlockType::Layout
    } else {
        BlockType::Other
    }
}

/// A block of an analysis.
#[derive(Debug, Clone, PartialEq, Eq)]
pub struct Block {
    /// The name of the block, by which other blocks refer to it.
    pub id: Option<String>,
    /// The type of the block.
    pub block_type: Option<BlockType>,
    /// The text of the block, where it has one.
    pub text: Option<String>,
    /// The names of the children of the block, in order.
    pub children: Vec<String>,
}

/// Whether a block has a name.
pub open spec fn is_named(block: Block, id: Seq<char>) -> bool {
    block.id matches Some(name) && name@ == id
}

/// The index of the block that a name refers to: the last block of that
/// name. Negative where no block has the name.
pub open spec fn block_index(blocks: Seq<Block>, id: Seq<char>) -> int
    decreases blocks.len(),
{
    if blocks.len() == 0 {
        -1
    } else if is_named(blocks.last(), id) {
        blocks.len() - 1
    } else {
        block_index(blocks.drop_last(), id)
    }
}

/// `block_index` is below the number of blocks, and the block there has the
/// name.
pub proof fn lemma_block_index(blocks: Seq<Block>, id: Seq<char>)
    ensures
        -1 <= block_index(blocks, id) < blocks.len(),
        block_index(blocks, id) >= 0 ==> is_named(blocks[block_index(blocks, id)], id),
        forall|k: int|
            0 <= k < blocks.len() && is_named(#[trigger] blocks[k], id) ==> block_index(blocks, id)
                >= k,
    decreases blocks.len(),
{
    if blocks.len() > 0 {
        lemma_block_index(blocks.drop_last(), id);
        assert forall|k: int|
            0 <= k < blocks.len() && is_named(#[trigger] blocks[k], id) implies block_index(
            blocks,
            id,
        ) >= k by {
            if k < blocks.len() - 1 {
                assert(blocks.drop_last()[k] == blocks[k]);
            }
        }
    }
}

/// Find the block that a name refers to.
///
/// The names are strings, so the blocks are searched in their `Vec`: of a
/// map with strings as keys Verus knows too little to prove what is found.
/// What a map would give is kept: of the blocks of one name the last.
pub fn find_block(blocks: &Vec<Block>, id: &str) -> (r: Option<usize>)
    ensures
        match r {
            Some(index) => index == block_index(blocks@, id@),
            None => block_index(blocks@, id@) < 0,
        },
{
    let mut i: usize = blocks.len();
    assert(blocks@.take(i as int) =~= blocks@);
    while i > 0
        invariant
            i <= blocks@.len(),
            block_index(blocks@, id@) == block_index(blocks@.take(i as int), id@),
        decreases i,
    {
        proof {
            assert(blocks@.take(i as int).drop_last() =~= blocks@.take(i - 1));
            assert(blocks@.take(i as int).last() == blocks@[i - 1]);
        }
        let found = match &blocks[i - 1].id {
            Some(name) => str_eq(name.as_str(), id),
            None => false,
        };
        if found {
            return Some(i - 1);
        }
        i -= 1;
    }
    None
}

/// How far the writing of a document has come: the text so far, and for each
/// block whether it has been written under its name.
pub struct Assembly {
    pub output: Seq<char>,
    pub printed: Seq<bool>,
}

/// The number of blocks not yet written.
pub open spec fn unprinted(printed: Seq<bool>) -> nat
    decreases printed.len(),
{
    if printed.len() == 0 {
        0
    } else {
        unprinted(printed.drop_last()) + (if printed.last() {
            0nat
        } else {
            1nat
        })
    }
}

/// To mark a block as written makes one block less to write.
pub proof fn lemma_mark(printed: Seq<bool>, index: int)
    requires
        0 <= index < printed.len(),
        !printed[index],
    ensures
        unprinted(printed.update(index, true)) + 1 == unprinted(printed),
    decreases printed.len(),
{
    let marked = printed.update(index, true);
    if index == printed.len() - 1 {
        assert(marked.drop_last() =~= printed.drop_last());
    } else {
        lemma_mark(printed.drop_last(), index);
        assert(marked.drop_last() =~= printed.drop_last().update(index, true));
    }
}

/// What a block writes of its own: its text, unless the block above it has
/// written a text already, with a line break after a line and a space after a
/// word.
pub open spec fn own_text(block: Block, printed_parent: bool) -> Seq<char> {
    match block.text {
        Some(text) => if printed_parent {
            Seq::empty()
        } else {
            text@ + (match block.block_type {
                Some(BlockType::Line) => seq!['\n'],
                Some(BlockType::Word) => seq![' '],
                _ => Seq::empty(),
            })
        },
        None => Seq::empty(),
    }
}

/// Whether a block writes a text of its own.
pub open spec fn prints_itself(block: Block, printed_parent: bool) -> bool {
    !printed_parent && block.text.is_some()
}

/// Write the children of the block at `index` from the child at `pos` on.
///
/// A child is the block that its name refers to; a name that refers to no
/// block is an error, which holds the name. A child that has been written
/// is passed over. Another is marked as written and writes its own text, and
/// then its children. The two tests on the number of blocks not yet written
/// hold always: they stand here to show that the writing ends.
pub open spec fn write_children(
    blocks: Seq<Block>,
    state: Assembly,
    index: int,
    pos: int,
    printed_self: bool,
) -> Result<Assembly, Seq<char>>
    decreases unprinted(state.printed), blocks[index].children@.len() - pos,
{
    let children = blocks[index].children@;
    if !(0 <= index < blocks.len()) || pos < 0 || pos >= children.len() || state.printed.len()
        != blocks.len() {
        Ok(state)
    } else {
        let child = block_index(blocks, children[pos]@);
        if child < 0 || child >= blocks.len() {
            Err(children[pos]@)
        } else if state.printed[child] {
            write_children(blocks, state, index, pos + 1, printed_self)
        } else {
            let entered = Assembly {
                output: state.output + own_text(blocks[child], printed_self),
                printed: state.printed.update(child, true),
            };
            if unprinted(entered.printed) < unprinted(state.printed) {
                match write_children(
                    blocks,
                    entered,
                    child,
                    0,
                    prints_itself(blocks[child], printed_self),
                ) {
                    Err(id) => Err(id),
                    Ok(after) => if unprinted(after.printed) <= unprinted(state.printed) {
                        write_children(blocks, after, index, pos + 1, printed_self)
                    } else {
                        Ok(after)
                    },
                }
            } else {
                Ok(state)
            }
        }
    }
}

/// Writing the children of a block only adds to the text and to the blocks
/// that are written, so the two tests in `write_children` always hold.
pub proof fn lemma_writing_ends(
    blocks: Seq<Block>,
    state: Assembly,
    index: int,
    pos: int,
    printed_self: bool,
)
    requires
        state.printed.len() == blocks.len(),
    ensures
        write_children(blocks, state, index, pos, printed_self) matches Ok(after) ==> {
            &&& after.printed.len() == blocks.len()
            &&& unprinted(after.printed) <= unprinted(state.printed)
            &&& after.output.len() >= state.output.len()
        },
        forall|child: int|
            0 <= child < blocks.len() && !state.printed[child] ==> unprinted(
                #[trigger] state.printed.update(child, true),
            ) < unprinted(state.printed),
    decreases unprinted(state.printed), blocks[index].children@.len() - pos,
{
    assert forall|child: int| 0 <= child < blocks.len() && !state.printed[child] implies unprinted(
        #[trigger] state.printed.update(child, true),
    ) < unprinted(state.printed) by {
        lemma_mark(state.printed, child);
    }
    let children = blocks[index].children@;
    if 0 <= index < blocks.len() && 0 <= pos < children.len() {
        let child = block_index(blocks, children[pos]@);
        if 0 <= child < blocks.len() {
            if state.printed[child] {
                lemma_writing_ends(blocks, state, index, pos + 1, printed_self);
            } else {
                let entered = Assembly {
                    output: state.output + own_text(blocks[child], printed_self),
                    printed: state.printed.update(child, true),
                };
                lemma_mark(state.printed, child);
                lemma_writing_ends(
                    blocks,
                    entered,
                    child,
                    0,
                    prints_itself(blocks[child], printed_self),
                );
                match write_children(
                    blocks,
                    entered,
                    child,
                    0,
                    prints_itself(blocks[child], printed_self),
                ) {
                    Ok(after) => {
                        lemma_writing_ends(blocks, after, index, pos + 1, printed_self);
                    },
                    Err(_) => {},
                }
            }
        }
    }
}

/// Write the block at `index` as an element of the layout: unless a block of
/// its name has been written, it is marked as written and writes its text and
/// then its children.
pub open spec fn write_layout(blocks: Seq<Block>, state: Assembly, index: int) -> Result<
    Assembly,
    Seq<char>,
> {
    let block = blocks[index];
    let named = match block.id {
        Some(name) => block_index(blocks, name@),
        None => -1,
    };
    if 0 <= named < state.printed.len() && state.printed[named] {
        Ok(state)
    } else {
        write_children(
            blocks,
            Assembly {
                output: state.output + own_text(block, false),
                printed: if 0 <= named < state.printed.len() {
                    state.printed.update(named, true)
                } else {
                    state.printed
                },
            },
            index,
            0,
            prints_itself(block, false),
        )
    }
}

/// The break between two pages: a form feed, on a line of its own.
pub open spec fn with_page_break(output: Seq<char>) -> Seq<char> {
    (if output.len() > 0 && output.last() == '\n' {
        output
    } else {
        output.push('\n')
    }).push('\u{c}')
}

/// Write the blocks of a document from `from` on.
///
/// A block without a type is passed over. Where page breaks are asked for,
/// each page but the first begins with a break. Of the other blocks only the
/// elements of the layout are written, each followed by a line break where it
/// wrote anything.
pub open spec fn write_document(
    blocks: Seq<Block>,
    state: Assembly,
    first_page: bool,
    from: int,
    include_page_breaks: bool,
) -> Result<Seq<char>, Seq<char>>
    decreases blocks.len() - from,
{
    if from < 0 || from >= blocks.len() {
        Ok(state.output)
    } else {
        match blocks[from].block_type {
            None => write_document(blocks, state, first_page, from + 1, include_page_breaks),
            Some(block_type) => if include_page_breaks && block_type == BlockType::Page {
                if first_page {
                    write_document(blocks, state, false, from + 1, include_page_breaks)
                } else {
                    write_document(
                        blocks,
                        Assembly { output: with_page_break(state.output), printed: state.printed },
                        false,
                        from + 1,
                        include_page_breaks,
                    )
                }
            } else if block_type != BlockType::Layout {
                write_document(blocks, state, first_page, from + 1, include_page_breaks)
            } else {
                match write_layout(blocks, state, from) {
                    Err(id) => Err(id),
                    Ok(after) => write_document(
                        blocks,
                        if after.output.len() > state.output.len() {
                            Assembly { output: after.output.push('\n'), printed: after.printed }
                        } else {
                            after
                        },
                        first_page,
                        from + 1,
                        include_page_breaks,
                    ),
                }
            }
        }
    }
}

/// The text of a document, or the name of a child that refers to no block.
pub open spec fn document_text(blocks: Seq<Block>, include_page_breaks: bool) -> Result<
    Seq<char>,
    Seq<char>,
> {
    write_document(
        blocks,
        Assembly { output: Seq::empty(), printed: Seq::new(blocks.len(), |i: int| false) },
        true,
        0,
        include_page_breaks,
    )
}

fn push_text(output: &mut Vec<char>, text: &str)
    ensures
        final(output)@ == old(output)@ + text@,
{
    let ghost before = output@;
    for c in it: text.chars()
        invariant
            it.seq() == text@,
            output@ == before + text@.take(it.index() as int),
    {
        proof {
            assert(text@.take(it.index() + 1) =~= text@.take(it.index() as int).push(c));
        }
        output.push(c);
    }
    proof {
        assert(text@.take(text@.len() as int) =~= text@);
    }
}

fn push_own_text(output: &mut Vec<char>, block: &Block, printed_parent: bool) -> (printed_self:
    bool)
    ensures
        final(output)@ == old(output)@ + own_text(*block, printed_parent),
        printed_self == prints_itself(*block, printed_parent),
{
    if printed_parent {
        assert(old(output)@ + Seq::<char>::empty() =~= old(output)@);
        return false;
    }
    match &block.text {
        Some(text) => {
            push_text(output, text.as_str());
            match block.block_type {
                Some(BlockType::Line) => {
                    output.push('\n');
                },
                Some(BlockType::Word) => {
                    output.push(' ');
                },
                _ => {},
            }
            assert(output@ =~= old(output)@ + own_text(*block, printed_parent));
            true
        },
        None => {
            assert(old(output)@ + Seq::<char>::empty() =~= old(output)@);
            false
        },
    }
}

fn write_children_of(
    blocks: &Vec<Block>,
    output: &mut Vec<char>,
    printed: &mut Vec<bool>,
    index: usize,
    printed_self: bool,
) -> (r: Result<(), String>)
    requires
        index < blocks@.len(),
        old(printed)@.len() == blocks@.len(),
    ensures
        final(printed)@.len() == blocks@.len(),
        unprinted(final(printed)@) <= unprinted(old(printed)@),
        match write_children(
            blocks@,
            Assembly { output: old(output)@, printed: old(printed)@ },
            index as int,
            0,
            printed_self,
        ) {
            Ok(after) => r is Ok && final(output)@ == after.output && final(printed)@
                == after.printed,
            Err(id) => r matches Err(name) && name@ == id,
        },
    decreases unprinted(old(printed)@),
{
    let children = &blocks[index].children;
    let ghost start = Assembly { output: output@, printed: printed@ };
    let mut pos: usize = 0;
    while pos < children.len()
        invariant
            pos <= children@.len(),
            index < blocks@.len(),
            *children == blocks@[index as int].children,
            printed@.len() == blocks@.len(),
            unprinted(printed@) <= unprinted(start.printed),
            start == (Assembly { output: old(output)@, printed: old(printed)@ }),
            write_children(blocks@, start, index as int, 0, printed_self) == write_children(
                blocks@,
                Assembly { output: output@, printed: printed@ },
                index as int,
                pos as int,
                printed_self,
            ),
        decreases children.len() - pos,
    {
        let ghost here = Assembly { output: output@, printed: printed@ };
        let child = match find_block(blocks, children[pos].as_str()) {
            Some(child) => child,
            None => {
                return Err(children[pos].clone());
            },
        };
        proof {
            lemma_block_index(blocks@, children@[pos as int]@);
        }
        if !printed[child] {
            proof {
                lemma_mark(printed@, child as int);
            }
            printed.set(child, true);
            let child_prints = push_own_text(output, &blocks[child], printed_self);
            match write_children_of(blocks, output, printed, child, child_prints) {
                Ok(()) => {},
                Err(name) => {
                    return Err(name);
                },
            }
        }
        pos += 1;
    }
    Ok(())
}

/// Write out the text of a document that Textract has analyzed.
///
/// The result is the text of the document, or, where a block names a child
/// that is no block of the analysis, that name.
pub fn assemble_text(blocks: &Vec<Block>, include_page_breaks: bool) -> (r: Result<String, String>)
    ensures
        match document_text(blocks@, include_page_breaks) {
            Ok(text) => r matches Ok(found) && found@ == text,
            Err(id) => r matches Err(name) && name@ == id,
        },
{
    let mut output: Vec<char> = Vec::new();
    let mut printed: Vec<bool> = Vec::new();
    let mut k: usize = 0;
    while k < blocks.len()
        invariant
            k <= blocks@.len(),
            printed@.len() == k,
            forall|i: int| 0 <= i < k ==> !(#[trigger] printed@[i]),
        decreases blocks.len() - k,
    {
        printed.push(false);
        k += 1;
    }
    assert(printed@ =~= Seq::new(blocks@.len(), |i: int| false));
    let mut first_page = true;
    let mut from: usize = 0;
    while from < blocks.len()
        invariant
            from <= blocks@.len(),
            printed@.len() == blocks@.len(),
            document_text(blocks@, include_page_breaks) == write_document(
                blocks@,
                Assembly { output: output@, printed: printed@ },
                first_page,
                from as int,
                include_page_breaks,
            ),
        decreases blocks.len() - from,
    {
        let block = &blocks[from];
        match block.block_type {
            None => {},
            Some(block_type) => {
                if include_page_breaks && block_type == BlockType::Page {
                    if first_page {
                        first_page = false;
                    } else {
                        if !(output.len() > 0 && output[output.len() - 1] == '\n') {
                            output.push('\n');
                        }
                        output.push('\u{c}');
                    }
                } else if block_type == BlockType::Layout {
                    let before = output.len();
                    let ghost state = Assembly { output: output@, printed: printed@ };
                    let named = match &block.id {
                        Some(name) => find_block(blocks, name.as_str()),
                        None => None,
                    };
                    let seen = match named {
                        Some(named) => {
                            proof {
                                lemma_block_index(blocks@, block.id->Some_0@);
                            }
                            printed[named]
                        },
                        None => false,
                    };
                    if !seen {
                        match named {
                            Some(named) => {
                                printed.set(named, true);
                            },
                            None => {},
                        }
                        let prints = push_own_text(&mut output, block, false);
                        match write_children_of(blocks, &mut output, &mut printed, from, prints) {
                            Ok(()) => {},
                            Err(name) => {
                                return Err(name);
                            },
                        }
                    }
                    assert(write_layout(blocks@, state, from as int) == Ok::<Assembly, Seq<char>>(
                        Assembly { output: output@, printed: printed@ },
                    ));
                    if output.len() > before {
                        output.push('\n');
                    }
                }
            },
        }
        from += 1;
    }
    let total = output.len();
    let text = chars_to_string(&output, 0, total);
    assert(output@.subrange(0, total as int) =~= output@);
    Ok(text)
}

} // verus!

verus! {

/// The sentence for a child that is no block of the analysis.
pub open spec fn missing_child_message(id: Seq<char>) -> Seq<char> {
    "Textract child block "@ + id + " not found"@
}

fn missing_child(id: &str) -> (s: String)
    ensures
        s@ == missing_child_message(id@),
{
    let mut s = String::from_str("Textract child block ");
    s.append(id);
    s.append(" not found");
    s
}

/// The number of pages that a record holds for a count that the service
/// reports: none for a count below zero.
pub open spec fn pages_of(page_count: i32) -> Option<usize> {
    if page_count < 0 {
        None
    } else {
        Some(page_count as usize)
    }
}

/// The record of a document whose analysis is done.
///
/// `status` is the status that the job ended with, `page_count` the number of
/// pages that the service reports, taken as zero where it reports none. The
/// record holds the text of the blocks and the estimated cost of the pages.
/// An analysis with a child that is no block gives no record but the
/// sentence that names the child.
pub fn document_output(
    id: Json,
    path: String,
    status: WorkStatus,
    blocks: &Vec<Block>,
    include_page_breaks: bool,
    page_count: Option<i32>,
) -> (r: Result<WorkOutput<OcrOutput>, String>)
    ensures
        match document_text(blocks@, include_page_breaks) {
            Err(child) => r matches Err(message) && message@ == missing_child_message(child),
            Ok(text) => r matches Ok(out) && out.id == id && out.status == status
                && out.errors@.len() == 0 && out.token_usage.is_none() && out.estimated_cost
                == Some(
                crate::queues::ocr::engines::textract_cost_spec(
                    match page_count {
                        Some(n) => n,
                        None => 0,
                    },
                ),
            ) && out.data.path == path && (out.data.text matches Some(found) && found@ == text)
                && out.data.page_count == pages_of(
                match page_count {
                    Some(n) => n,
                    None => 0,
                },
            ) && out.data.analysis.is_none(),
        },
{
    let text = match assemble_text(blocks, include_page_breaks) {
        Ok(text) => text,
        Err(child) => {
            return Err(missing_child(child.as_str()));
        },
    };
    let pages: i32 = match page_count {
        Some(n) => n,
        None => 0,
    };
    Ok(
        WorkOutput {
            id,
            status,
            estimated_cost: Some(textract_cost(pages)),
            token_usage: None,
            errors: Vec::new(),
            data: OcrOutput {
                path,
                text: Some(text),
                page_count: if pages < 0 {
                    None
                } else {
                    Some(pages as usize)
                },
                analysis: None,
            },
        },
    )
}

/// The record of a page whose analysis is done: the text of its blocks, and
/// the estimated cost of one page.
pub fn page_output(blocks: &Vec<Block>) -> (r: Result<OcrPageOutput, String>)
    ensures
        match document_text(blocks@, false) {
            Err(child) => r matches Err(message) && message@ == missing_child_message(child),
            Ok(text) => r matches Ok(out) && (out.text matches Some(found) && found@ == text)
                && out.errors@.len() == 0 && out.analysis.is_none() && out.estimated_cost == Some(
                crate::queues::ocr::engines::textract_cost_spec(1),
            ) && out.token_usage.is_none(),
        },
{
    match assemble_text(blocks, false) {
        Ok(text) => Ok(
            OcrPageOutput {
                text: Some(text),
                errors: Vec::new(),
                analysis: None,
                estimated_cost: Some(textract_cost(1)),
                token_usage: None,
            },
        ),
        Err(child) => Err(missing_child(child.as_str())),
    }
}

/// The record of a page that the service could not analyze: it holds the
/// failure and nothing else.
pub fn page_failure(failure: &str) -> (out: OcrPageOutput)
    ensures
        out.text.is_none(),
        out.errors@.len() == 1,
        out.errors@[0]@ == "AWS Textract error: "@ + failure@,
        out.analysis.is_none(),
        out.estimated_cost.is_none(),
        out.token_usage.is_none(),
{
    let mut message = String::from_str("AWS Textract error: ");
    message.append(failure);
    let mut errors: Vec<String> = Vec::new();
    errors.push(message);
    OcrPageOutput { text: None, errors, analysis: None, estimated_cost: None, token_usage: None }
}

} // verus!
