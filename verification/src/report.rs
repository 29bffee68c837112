//! The report: how many regions were found, and each with its place and text.

use vstd::prelude::*;
use crate::ast::Crate;
use crate::codemap::{CodeMap, SourceFileView, SpanSnippetError, location_text, snippet_text};
use crate::paint::{paint_yellow, yellow};
use crate::span::Span;
use crate::text::{decimal, push_decimal};
use crate::visit::{
    UnsafeNode,
    UnsafeVisitor,
    lemma_count_in_crate,
    lemma_nothing_marked,
    unsafe_blocks_in_nodes,
    unsafe_fns_in_nodes,
    unsafe_in_crate,
    walk_crate,
};

verus! {

/// What a front end hands over once it has parsed: the syntax tree, if
/// parsing gave one, and the source files.
pub struct CompileState {
    pub krate: Option<Crate>,
    pub codemap: CodeMap,
}

/// The region whose text could not be had, and why.
#[derive(Clone, Copy, Debug, PartialEq, Eq, Structural)]
pub struct SnippetFailure {
    /// The place of the region in the list of those found, counted from 0.
    pub index: usize,
    pub error: SpanSnippetError,
}

/// Why an analysis ended without a full report.
#[derive(Clone, Copy, Debug, PartialEq, Eq, Structural)]
pub enum AnalysisError {
    /// There is no syntax tree. This is not the same as a tree without
    /// regions, which gives a report that counts none.
    MissingCrate,
    /// The text of a region could not be had.
    Snippet(SnippetFailure),
}

/// The first line of a report, and the empty line that follows it.
pub open spec fn header_text(count: nat) -> Seq<char> {
    "Found "@ + decimal(count) + " unsafe blocks or functions.\n\n"@
}

/// One entry of a report: the place, highlighted, and a colon on a line of
/// their own; then the source text as it stands in the file; then an empty
/// line. Meant for a span whose text can be had.
pub open spec fn entry_text(files: Seq<SourceFileView>, sp: Span) -> Seq<char>
    recommends
        snippet_text(files, sp) is Ok,
{
    yellow(location_text(files, sp)) + ":\n"@ + snippet_text(files, sp).unwrap() + "\n\n"@
}

/// The entries for a list of regions, one behind the other, in the list's
/// order.
pub open spec fn entries_text(files: Seq<SourceFileView>, nodes: Seq<UnsafeNode>) -> Seq<char>
    decreases nodes.len(),
{
    if nodes.len() == 0 {
        Seq::empty()
    } else {
        entries_text(files, nodes.drop_last()) + entry_text(files, nodes.last().span)
    }
}

/// A whole report: the header with the number of regions, then every entry.
pub open spec fn report_text(files: Seq<SourceFileView>, nodes: Seq<UnsafeNode>) -> Seq<char> {
    header_text(nodes.len()) + entries_text(files, nodes)
}

/// Whether the text of every region of a list can be had.
pub open spec fn all_readable(files: Seq<SourceFileView>, nodes: Seq<UnsafeNode>) -> bool {
    forall|j: int| 0 <= j < nodes.len() ==> snippet_text(files, #[trigger] nodes[j].span) is Ok
}

/// What [`report`] has done when it returns `r`, `before` and `after` being
/// the sink's contents. Either every region's text could be had and the whole
/// report was written. Or the report was written up to the first region
/// whose text could not be had, nothing was written for that one or any
/// behind it, and the error names it.
pub open spec fn reported(
    files: Seq<SourceFileView>,
    nodes: Seq<UnsafeNode>,
    before: Seq<char>,
    after: Seq<char>,
    r: Result<(), SnippetFailure>,
) -> bool {
    match r {
        Ok(()) => {
            &&& all_readable(files, nodes)
            &&& after == before + report_text(files, nodes)
        },
        Err(failure) => {
            &&& failure.index < nodes.len()
            &&& all_readable(files, nodes.take(failure.index as int))
            &&& snippet_text(files, nodes[failure.index as int].span) == Err::<
                Seq<char>,
                SpanSnippetError,
            >(failure.error)
            &&& after == before + header_text(nodes.len()) + entries_text(
                files,
                nodes.take(failure.index as int),
            )
        },
    }
}

/// Writes the entry for one region to `out`. Where the text of the region
/// cannot be had, nothing is written.
pub fn dump_snippet(out: &mut String, codemap: &CodeMap, span: Span) -> (r: Result<
    (),
    SpanSnippetError,
>)
    ensures
        match r {
            Ok(()) => {
                &&& snippet_text(codemap@, span) is Ok
                &&& final(out)@ == old(out)@ + entry_text(codemap@, span)
            },
            Err(e) => {
                &&& snippet_text(codemap@, span) == Err::<Seq<char>, SpanSnippetError>(e)
                &&& final(out)@ == old(out)@
            },
        },
{
    match codemap.span_to_snippet(span) {
        Ok(snippet) => {
            let location = paint_yellow(codemap.span_to_string(span).as_str());
            out.append(location.as_str());
            out.append(":\n");
            out.append(snippet.as_str());
            out.append("\n\n");
            assert(out@ =~= old(out)@ + entry_text(codemap@, span));
            Ok(())
        },
        Err(e) => Err(e),
    }
}

/// Writes the report for a list of regions to `out`: the header, then the
/// entries in the list's order. Stops at the first region whose text cannot
/// be had.
pub fn report(out: &mut String, nodes: &Vec<UnsafeNode>, codemap: &CodeMap) -> (r: Result<
    (),
    SnippetFailure,
>)
    ensures
        reported(codemap@, nodes@, old(out)@, final(out)@, r),
{
    out.append("Found ");
    push_decimal(out, nodes.len() as u128);
    out.append(" unsafe blocks or functions.\n\n");
    let mut k: usize = 0;
    while k < nodes.len()
        invariant
            k <= nodes.len(),
            all_readable(codemap@, nodes@.take(k as int)),
            out@ == old(out)@ + header_text(nodes@.len()) + entries_text(
                codemap@,
                nodes@.take(k as int),
            ),
        decreases nodes.len() - k,
    {
        match dump_snippet(out, codemap, nodes[k].span) {
            Ok(()) => {},
            Err(error) => {
                return Err(SnippetFailure { index: k, error });
            },
        }
        assert(nodes@.take(k + 1).drop_last() == nodes@.take(k as int));
        k = k + 1;
    }
    assert(nodes@.take(k as int) == nodes@);
    assert(out@ =~= old(out)@ + report_text(codemap@, nodes@));
    Ok(())
}

/// Analyses what the front end has parsed: walks the tree once, then writes
/// the report to `out`. Nothing is written before the walk is over, and
/// nothing at all if there is no tree.
pub fn process_ast(out: &mut String, state: &CompileState) -> (r: Result<(), AnalysisError>)
    ensures
        match state.krate {
            None => r == Err::<(), AnalysisError>(AnalysisError::MissingCrate) && final(out)@
                == old(out)@,
            Some(krate) => match r {
                Ok(()) => reported(
                    state.codemap@,
                    unsafe_in_crate(krate),
                    old(out)@,
                    final(out)@,
                    Ok(()),
                ),
                Err(AnalysisError::Snippet(failure)) => reported(
                    state.codemap@,
                    unsafe_in_crate(krate),
                    old(out)@,
                    final(out)@,
                    Err(failure),
                ),
                Err(AnalysisError::MissingCrate) => false,
            },
        },
{
    match &state.krate {
        None => Err(AnalysisError::MissingCrate),
        Some(krate) => {
            let mut visitor = UnsafeVisitor::new();
            walk_crate(&mut visitor, krate);
            assert(visitor.unsafe_nodes@ =~= unsafe_in_crate(*krate));
            match report(out, &visitor.unsafe_nodes, &state.codemap) {
                Ok(()) => Ok(()),
                Err(failure) => Err(AnalysisError::Snippet(failure)),
            }
        },
    }
}

/// Law: an analysis can be repeated. Two runs on the same program, the same
/// files and the same sink contents record the same regions in the same
/// order, write the same text and return the same result.
pub proof fn lemma_analysis_repeatable(
    files: Seq<SourceFileView>,
    krate: Crate,
    before: Seq<char>,
    nodes1: Seq<UnsafeNode>,
    after1: Seq<char>,
    r1: Result<(), SnippetFailure>,
    nodes2: Seq<UnsafeNode>,
    after2: Seq<char>,
    r2: Result<(), SnippetFailure>,
)
    requires
        nodes1 == unsafe_in_crate(krate),
        nodes2 == unsafe_in_crate(krate),
        reported(files, nodes1, before, after1, r1),
        reported(files, nodes2, before, after2, r2),
    ensures
        nodes1 == nodes2,
        after1 == after2,
        r1 == r2,
{
    let nodes = unsafe_in_crate(krate);
    match (r1, r2) {
        (Ok(()), Ok(())) => {
            assert(r1->Ok_0 == r2->Ok_0);
        },
        (Ok(()), Err(f)) => {
            assert(snippet_text(files, nodes[f.index as int].span) is Ok);
        },
        (Err(f), Ok(())) => {
            assert(snippet_text(files, nodes[f.index as int].span) is Ok);
        },
        (Err(f), Err(g)) => {
            if f.index < g.index {
                assert(nodes.take(g.index as int)[f.index as int] == nodes[f.index as int]);
                assert(snippet_text(files, nodes.take(g.index as int)[f.index as int].span) is Ok);
            } else if g.index < f.index {
                assert(nodes.take(f.index as int)[g.index as int] == nodes[g.index as int]);
                assert(snippet_text(files, nodes.take(f.index as int)[g.index as int].span) is Ok);
            }
        },
    }
}

/// Law: the number in the header of a program's report is the number of its
/// marked blocks plus the number of its functions declared `unsafe`.
pub proof fn lemma_reported_count(files: Seq<SourceFileView>, krate: Crate)
    ensures
        report_text(files, unsafe_in_crate(krate)) == header_text(
            unsafe_blocks_in_nodes(krate.nodes@) + unsafe_fns_in_nodes(krate.nodes@),
        ) + entries_text(files, unsafe_in_crate(krate)),
{
    lemma_count_in_crate(krate);
}

/// Law: for a program without a marked block and without a function declared
/// `unsafe`, the report is the header that counts none, and nothing else.
pub proof fn lemma_report_of_nothing(files: Seq<SourceFileView>, krate: Crate)
    requires
        unsafe_blocks_in_nodes(krate.nodes@) == 0,
        unsafe_fns_in_nodes(krate.nodes@) == 0,
    ensures
        all_readable(files, unsafe_in_crate(krate)),
        report_text(files, unsafe_in_crate(krate)) == header_text(0),
{
    lemma_nothing_marked(krate);
    assert(report_text(files, unsafe_in_crate(krate)) =~= header_text(0));
}

} // verus!
