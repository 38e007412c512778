//! Resolution of pipelines to chunkers and parsers of the registries.

use vstd::prelude::*;
use crate::config::{PipelineConfig, PipelineConfigView};
use crate::error::{BenchError, BenchErrorView};
use crate::provenance::{
    effective_pipelines, label_among, pipeline_label_among, pipeline_views, position_of,
};
use crate::registry::{
    available_chunkers, build_parsers, chunker_registry, parser_registry, parser_views, ParserInfo,
    ParserView,
};
use crate::text::{collected, join, joined, opt_text, same_text, texts};

verus! {

/// A pipeline resolved against the registries, ready to ingest.
#[derive(Debug)]
pub struct ResolvedPipeline {
    /// Stable label, which doubles as part of the provenance name.
    pub label: String,
    /// The parsers to use, by their positions in the registry.
    pub parsers: Vec<usize>,
    /// The chunker by its position in the registry; `None` = the Markdown
    /// chunker.
    pub chunker: Option<usize>,
}

/// A [`ResolvedPipeline`] with its label as a character sequence.
pub struct ResolvedPipelineView {
    pub label: Seq<char>,
    pub parsers: Seq<usize>,
    pub chunker: Option<usize>,
}

impl View for ResolvedPipeline {
    type V = ResolvedPipelineView;

    open spec fn view(&self) -> ResolvedPipelineView {
        ResolvedPipelineView { label: self.label@, parsers: self.parsers@, chunker: self.chunker }
    }
}

/// The views of a list of resolved pipelines.
pub open spec fn resolved_views(v: Seq<ResolvedPipeline>) -> Seq<ResolvedPipelineView> {
    Seq::new(v.len(), |i: int| v[i]@)
}

// ── Parsers ─────────────────────────────────────────────────────────────────

/// The parser handles PDF files.
pub open spec fn handles_pdf(p: ParserView) -> bool {
    p.extensions.contains("pdf"@)
}

/// The names of the PDF parsers, in the order of the registry.
pub open spec fn pdf_parser_names(parsers: Seq<ParserView>) -> Seq<Seq<char>>
    decreases parsers.len(),
{
    if parsers.len() == 0 {
        Seq::empty()
    } else if handles_pdf(parsers.last()) {
        pdf_parser_names(parsers.drop_last()).push(parsers.last().name)
    } else {
        pdf_parser_names(parsers.drop_last())
    }
}

/// A choice keeps a parser: no name keeps them all, a name keeps the parser of
/// that name and those of the other formats.
pub open spec fn keeps(choice: Option<Seq<char>>, p: ParserView) -> bool {
    match choice {
        None => true,
        Some(name) => p.name == name || !handles_pdf(p),
    }
}

/// The positions of the parsers that a choice keeps, in order.
pub open spec fn kept_parsers(choice: Option<Seq<char>>, parsers: Seq<ParserView>) -> Seq<usize>
    decreases parsers.len(),
{
    if parsers.len() == 0 {
        Seq::empty()
    } else if keeps(choice, parsers.last()) {
        kept_parsers(choice, parsers.drop_last()).push((parsers.len() - 1) as usize)
    } else {
        kept_parsers(choice, parsers.drop_last())
    }
}

/// The parsers for a choice, or the error for a name that no PDF parser has.
pub open spec fn parsers_among(
    choice: Option<Seq<char>>,
    parsers: Seq<ParserView>,
) -> Result<Seq<usize>, BenchErrorView> {
    match choice {
        Some(name) => if pdf_parser_names(parsers).contains(name) {
            Ok(kept_parsers(choice, parsers))
        } else {
            Err(
                BenchErrorView::UnknownPdfParser {
                    name,
                    available: joined(pdf_parser_names(parsers), ", "@),
                },
            )
        },
        None => Ok(kept_parsers(choice, parsers)),
    }
}

fn is_pdf_parser(p: &ParserInfo) -> (r: bool)
    ensures
        r == handles_pdf(p@),
{
    match position_of(&p.extensions, "pdf") {
        Some(i) => {
            assert(p@.extensions[i as int] == "pdf"@);
            true
        },
        None => false,
    }
}

fn list_pdf_parsers(parsers: &Vec<ParserInfo>) -> (r: Vec<String>)
    ensures
        texts(r@) == pdf_parser_names(parser_views(parsers@)),
{
    let ghost all = parser_views(parsers@);
    let mut r: Vec<String> = Vec::new();
    let mut i: usize = 0;
    assert(texts(r@) =~= pdf_parser_names(all.take(0)));
    while i < parsers.len()
        invariant
            i <= parsers@.len(),
            all == parser_views(parsers@),
            texts(r@) == pdf_parser_names(all.take(i as int)),
        decreases parsers@.len() - i,
    {
        let ghost before = texts(r@);
        assert(all.take(i + 1).drop_last() =~= all.take(i as int));
        if is_pdf_parser(&parsers[i]) {
            r.push(parsers[i].name.clone());
            assert(texts(r@) =~= before.push(all[i as int].name));
        }
        i += 1;
    }
    assert(all.take(parsers@.len() as int) =~= all);
    r
}

/// The parsers of this registry for a pipeline.  No name keeps every parser; a
/// name selects that PDF parser while keeping the parsers of the other formats.
pub fn parsers_for_among(choice: &Option<String>, parsers: &Vec<ParserInfo>) -> (r: Result<
    Vec<usize>,
    BenchError,
>)
    ensures
        match r {
            Ok(kept) => parsers_among(opt_text(*choice), parser_views(parsers@)) == Ok::<
                Seq<usize>,
                BenchErrorView,
            >(kept@),
            Err(e) => parsers_among(opt_text(*choice), parser_views(parsers@)) == Err::<
                Seq<usize>,
                BenchErrorView,
            >(e@),
        },
{
    let ghost all = parser_views(parsers@);
    if let Some(name) = choice {
        let names: Vec<String> = list_pdf_parsers(parsers);
        match position_of(&names, name.as_str()) {
            Some(i) => {
                assert(texts(names@)[i as int] == name@);
            },
            None => {
                return Err(
                    BenchError::UnknownPdfParser {
                        name: name.clone(),
                        available: join(&names, ", "),
                    },
                );
            },
        }
    }
    let mut kept: Vec<usize> = Vec::new();
    let mut i: usize = 0;
    assert(kept@ =~= kept_parsers(opt_text(*choice), all.take(0)));
    while i < parsers.len()
        invariant
            i <= parsers@.len(),
            all == parser_views(parsers@),
            kept@ == kept_parsers(opt_text(*choice), all.take(i as int)),
        decreases parsers@.len() - i,
    {
        assert(all.take(i + 1).drop_last() =~= all.take(i as int));
        let keep: bool = match choice {
            None => true,
            Some(name) => same_text(parsers[i].name.as_str(), name.as_str()) || !is_pdf_parser(
                &parsers[i],
            ),
        };
        if keep {
            kept.push(i);
        }
        i += 1;
    }
    assert(all.take(parsers@.len() as int) =~= all);
    Ok(kept)
}

/// The parsers of the registry for a pipeline.
pub fn parsers_for(choice: &Option<String>) -> (r: Result<Vec<usize>, BenchError>)
    ensures
        match r {
            Ok(kept) => parsers_among(opt_text(*choice), parser_registry()) == Ok::<
                Seq<usize>,
                BenchErrorView,
            >(kept@),
            Err(e) => parsers_among(opt_text(*choice), parser_registry()) == Err::<
                Seq<usize>,
                BenchErrorView,
            >(e@),
        },
{
    let parsers: Vec<ParserInfo> = build_parsers();
    parsers_for_among(choice, &parsers)
}

// ── Pipelines ───────────────────────────────────────────────────────────────

/// The first chunker of this name.
pub open spec fn is_first_named(chunkers: Seq<Seq<char>>, name: Seq<char>, i: int) -> bool {
    0 <= i < chunkers.len() && chunkers[i] == name && forall|k: int|
        0 <= k < i ==> chunkers[k] != name
}

/// The position of the first chunker of this name, if there is one.
pub open spec fn chunker_position(chunkers: Seq<Seq<char>>, name: Seq<char>) -> Option<usize> {
    if exists|i: usize| is_first_named(chunkers, name, i as int) {
        Some(choose|i: usize| is_first_named(chunkers, name, i as int))
    } else {
        None
    }
}

/// A pipeline resolved against these registries.  An unknown chunker is
/// reported before an unknown parser.
pub open spec fn resolved_among(
    p: PipelineConfigView,
    chunkers: Seq<Seq<char>>,
    parsers: Seq<ParserView>,
) -> Result<ResolvedPipelineView, BenchErrorView> {
    match label_among(p, chunkers) {
        Err(e) => Err(e),
        Ok(label) => match parsers_among(p.parser, parsers) {
            Err(e) => Err(e),
            Ok(kept) => Ok(
                ResolvedPipelineView {
                    label,
                    parsers: kept,
                    chunker: match p.chunker {
                        Some(name) => chunker_position(chunkers, name),
                        None => None,
                    },
                },
            ),
        },
    }
}

/// The outcome of a resolution, with its texts as character sequences.
pub open spec fn resolved_result(r: Result<ResolvedPipeline, BenchError>) -> Result<
    ResolvedPipelineView,
    BenchErrorView,
> {
    match r {
        Ok(p) => Ok(p@),
        Err(e) => Err(e@),
    }
}

/// Resolves one pipeline against these registries.
pub fn resolve_pipeline_among(
    spec: &PipelineConfig,
    chunkers: &Vec<String>,
    parsers: &Vec<ParserInfo>,
) -> (r: Result<ResolvedPipeline, BenchError>)
    ensures
        resolved_result(r) == resolved_among(
            spec@,
            texts(chunkers@),
            parser_views(parsers@),
        ),
{
    let chunker: Option<usize> = match &spec.chunker {
        Some(name) => {
            match position_of(chunkers, name.as_str()) {
                Some(i) => {
                    proof {
                        let names = texts(chunkers@);
                        assert(is_first_named(names, name@, i as int));
                        let k = choose|k: usize| is_first_named(names, name@, k as int);
                        assert(k == i);
                    }
                    Some(i)
                },
                None => {
                    return Err(
                        BenchError::UnknownChunker {
                            name: name.clone(),
                            available: join(chunkers, ", "),
                        },
                    );
                },
            }
        },
        None => None,
    };
    match pipeline_label_among(spec, chunkers) {
        Err(e) => Err(e),
        Ok(label) => match parsers_for_among(&spec.parser, parsers) {
            Err(e) => Err(e),
            Ok(kept) => Ok(ResolvedPipeline { label, parsers: kept, chunker }),
        },
    }
}

/// A list of pipelines resolved against these registries: all of them, or the
/// error of the first that fails.
pub open spec fn all_resolved_among(
    specs: Seq<PipelineConfigView>,
    chunkers: Seq<Seq<char>>,
    parsers: Seq<ParserView>,
) -> Result<Seq<ResolvedPipelineView>, BenchErrorView> {
    let all = effective_pipelines(specs);
    collected(Seq::new(all.len(), |i: int| resolved_among(all[i], chunkers, parsers)))
}

/// The outcome of resolving a list, with its texts as character sequences.
pub open spec fn all_resolved_result(r: Result<Vec<ResolvedPipeline>, BenchError>) -> Result<
    Seq<ResolvedPipelineView>,
    BenchErrorView,
> {
    match r {
        Ok(v) => Ok(resolved_views(v@)),
        Err(e) => Err(e@),
    }
}

/// Resolves a list of pipelines against these registries.
pub fn resolve_pipelines_among(
    specs: &[PipelineConfig],
    chunkers: &Vec<String>,
    parsers: &Vec<ParserInfo>,
) -> (r: Result<Vec<ResolvedPipeline>, BenchError>)
    ensures
        all_resolved_result(r) == all_resolved_among(
            pipeline_views(specs@),
            texts(chunkers@),
            parser_views(parsers@),
        ),
{
    let ghost all = effective_pipelines(pipeline_views(specs@));
    let ghost results = Seq::new(
        all.len(),
        |i: int| resolved_among(all[i], texts(chunkers@), parser_views(parsers@)),
    );
    let mut resolved: Vec<ResolvedPipeline> = Vec::new();
    assert(resolved_views(resolved@) =~= Seq::empty());
    if specs.len() == 0 {
        let single: PipelineConfig = PipelineConfig { parser: None, chunker: None };
        proof {
            assert(results.take(0) =~= Seq::empty());
            assert(results.take(1) =~= results);
            crate::text::lemma_collected_step(results, 0);
        }
        return match resolve_pipeline_among(&single, chunkers, parsers) {
            Ok(p) => {
                resolved.push(p);
                assert(resolved_views(resolved@) =~= Seq::empty().push(p@));
                Ok(resolved)
            },
            Err(e) => Err(e),
        };
    }
    let mut i: usize = 0;
    while i < specs.len()
        invariant
            i <= specs@.len(),
            specs@.len() > 0,
            all == effective_pipelines(pipeline_views(specs@)),
            results == Seq::new(
                all.len(),
                |i: int| resolved_among(all[i], texts(chunkers@), parser_views(parsers@)),
            ),
            collected(results.take(i as int)) == Ok::<Seq<ResolvedPipelineView>, BenchErrorView>(
                resolved_views(resolved@),
            ),
        decreases specs@.len() - i,
    {
        let ghost before = resolved_views(resolved@);
        proof {
            crate::text::lemma_collected_step(results, i as int);
        }
        match resolve_pipeline_among(&specs[i], chunkers, parsers) {
            Ok(p) => {
                resolved.push(p);
                assert(resolved_views(resolved@) =~= before.push(p@));
            },
            Err(e) => {
                proof {
                    crate::text::lemma_collected_error(results, i + 1);
                }
                return Err(e);
            },
        }
        i += 1;
    }
    assert(results.take(specs@.len() as int) =~= results);
    Ok(resolved)
}

/// Resolves the pipeline list.  An empty list yields one default pipeline: the
/// full parser registry and the Markdown chunker.
pub fn resolve_pipelines(specs: &[PipelineConfig]) -> (r: Result<
    Vec<ResolvedPipeline>,
    BenchError,
>)
    ensures
        all_resolved_result(r) == all_resolved_among(
            pipeline_views(specs@),
            chunker_registry(),
            parser_registry(),
        ),
{
    let chunkers: Vec<String> = available_chunkers();
    let parsers: Vec<ParserInfo> = build_parsers();
    resolve_pipelines_among(specs, &chunkers, &parsers)
}

} // verus!
