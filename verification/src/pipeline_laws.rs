//! What names, labels and resolved pipelines promise, in terms of the
//! configuration and the registries.

use vstd::prelude::*;
use crate::config::{PipelineConfig, PipelineConfigView};
use crate::error::BenchErrorView;
use crate::naming_laws::law_kept_parsers;
use crate::pipelines::{
    all_resolved_among, is_first_named, pdf_parser_names, resolved_among, resolved_views,
    ResolvedPipeline, ResolvedPipelineView,
};
use crate::provenance::{
    label_among, labels_among, name_of_corpus, names_of_corpora, pipeline_views, scoped,
    CellFilter, ChunkOrigin,
};
use crate::registry::{parser_views, ParserInfo, ParserView};
use crate::text::{collected, joined};
use crate::text_laws::{law_collecting_stops_at_the_first_error, law_split_at_the_first};

verus! {

// ── Views ───────────────────────────────────────────────────────────────────

/// A pipeline is seen with its own parser and its own chunker, and a list of
/// pipelines in its order.
pub proof fn law_pipelines_are_seen_as_they_are(p: PipelineConfig, v: Seq<PipelineConfig>, i: int)
    ensures
        p@.parser is Some <==> p.parser is Some,
        p.parser is Some ==> p@.parser->0 == p.parser->0@,
        p@.chunker is Some <==> p.chunker is Some,
        p.chunker is Some ==> p@.chunker->0 == p.chunker->0@,
        pipeline_views(v).len() == v.len(),
        0 <= i < v.len() ==> pipeline_views(v)[i] == v[i]@,
{
}

/// A resolved pipeline is seen with its own label, parsers and chunker, and a
/// list of them in its order.
pub proof fn law_resolved_pipelines_are_seen_as_they_are(
    p: ResolvedPipeline,
    v: Seq<ResolvedPipeline>,
    i: int,
)
    ensures
        p@.label == p.label@,
        p@.parsers == p.parsers@,
        p@.chunker == p.chunker,
        resolved_views(v).len() == v.len(),
        0 <= i < v.len() ==> resolved_views(v)[i] == v[i]@,
{
}

/// A parser is seen with its own name and extensions, and a list of parsers in
/// its order.
pub proof fn law_parsers_are_seen_as_they_are(
    p: ParserInfo,
    v: Seq<ParserInfo>,
    i: int,
)
    ensures
        p@.name == p.name@,
        p@.extensions.len() == p.extensions@.len(),
        0 <= i < p.extensions@.len() ==> p@.extensions[i] == p.extensions@[i]@,
        parser_views(v).len() == v.len(),
        0 <= i < v.len() ==> parser_views(v)[i] == v[i]@,
{
}

// ── Corpus names ────────────────────────────────────────────────────────────

/// The name of a corpus entry is what stands before its first equals sign; an
/// entry without one is malformed.
pub proof fn law_corpus_names(name: Seq<char>, path: Seq<char>)
    requires
        forall|i: int| 0 <= i < name.len() ==> #[trigger] name[i] != '=',
    ensures
        name_of_corpus(name + seq!['='] + path) == Ok::<Seq<char>, BenchErrorView>(name),
        name_of_corpus(name) == Err::<Seq<char>, BenchErrorView>(
            BenchErrorView::MalformedCorpus { spec: name },
        ),
{
    law_split_at_the_first(name, '=', path);
}

/// The names of several entries are the names of each, in order, or the fault
/// of the first that has none.
pub proof fn law_corpus_names_keep_the_order(specs: Seq<Seq<char>>, n: int)
    requires
        0 <= n <= specs.len(),
        forall|i: int| 0 <= i < n ==> name_of_corpus(#[trigger] specs[i]) is Ok,
        n < specs.len() ==> name_of_corpus(specs[n]) is Err,
    ensures
        n == specs.len() ==> names_of_corpora(specs) is Ok && names_of_corpora(specs)->Ok_0.len()
            == n && forall|i: int|
            0 <= i < n ==> name_of_corpus(#[trigger] specs[i]) == Ok::<Seq<char>, BenchErrorView>(
                names_of_corpora(specs)->Ok_0[i],
            ),
        n < specs.len() ==> names_of_corpora(specs) == Err::<Seq<Seq<char>>, BenchErrorView>(
            name_of_corpus(specs[n])->Err_0,
        ),
{
    let results = Seq::new(specs.len(), |i: int| name_of_corpus(specs[i]));
    assert forall|i: int| 0 <= i < n implies (#[trigger] results[i]) is Ok by {
        assert(name_of_corpus(specs[i]) is Ok);
    }
    law_collecting_stops_at_the_first_error(results, n);
    if n == specs.len() {
        assert forall|i: int| 0 <= i < n implies name_of_corpus(#[trigger] specs[i]) == Ok::<
            Seq<char>,
            BenchErrorView,
        >(names_of_corpora(specs)->Ok_0[i]) by {
            assert(results[i] == Ok::<Seq<char>, BenchErrorView>(collected(results)->Ok_0[i]));
        }
    }
}

/// A scoped name is the corpus, two colons and the pipeline.
pub proof fn law_scoped_names(corpus: Seq<char>, pipeline: Seq<char>)
    ensures
        scoped(corpus, pipeline) == corpus + "::"@ + pipeline,
{
}

/// A filter selects exactly the chunks of its corpus and its pipeline.
pub proof fn law_filters_select_one_cell(filter: CellFilter, corpus: Seq<char>, pipeline: Seq<char>)
    ensures
        filter.selects(ChunkOrigin { corpus, pipeline }) <==> filter.corpus@ == corpus
            && filter.pipeline@ == pipeline,
{
}

// ── Labels ──────────────────────────────────────────────────────────────────

/// A label names the parser, or all parsers, and the chunker, or `markdown`.
/// A pipeline has one unless it names a chunker that there is not; then the
/// fault names that chunker and those that there are.
pub proof fn law_labels_name_the_components(p: PipelineConfigView, chunkers: Seq<Seq<char>>)
    ensures
        p.chunker is None || chunkers.contains(p.chunker->0) ==> label_among(p, chunkers) == Ok::<
            Seq<char>,
            BenchErrorView,
        >(
            (if p.parser is Some {
                p.parser->0
            } else {
                "all-parsers"@
            }) + " · "@ + (if p.chunker is Some {
                p.chunker->0
            } else {
                "markdown"@
            }),
        ),
        p.chunker is Some && !chunkers.contains(p.chunker->0) ==> label_among(p, chunkers) == Err::<
            Seq<char>,
            BenchErrorView,
        >(
            BenchErrorView::UnknownChunker {
                name: p.chunker->0,
                available: joined(chunkers, ", "@),
            },
        ),
{
}

/// Several pipelines have the label of each, in order, or the fault of the
/// first that has none.
pub proof fn law_labels_keep_the_order(
    specs: Seq<PipelineConfigView>,
    chunkers: Seq<Seq<char>>,
    n: int,
)
    requires
        specs.len() > 0,
        0 <= n <= specs.len(),
        forall|i: int| 0 <= i < n ==> label_among(#[trigger] specs[i], chunkers) is Ok,
        n < specs.len() ==> label_among(specs[n], chunkers) is Err,
    ensures
        n == specs.len() ==> labels_among(specs, chunkers) is Ok && labels_among(
            specs,
            chunkers,
        )->Ok_0.len() == n && forall|i: int|
            0 <= i < n ==> label_among(#[trigger] specs[i], chunkers) == Ok::<
                Seq<char>,
                BenchErrorView,
            >(labels_among(specs, chunkers)->Ok_0[i]),
        n < specs.len() ==> labels_among(specs, chunkers) == Err::<Seq<Seq<char>>, BenchErrorView>(
            label_among(specs[n], chunkers)->Err_0,
        ),
{
    let results = Seq::new(specs.len(), |i: int| label_among(specs[i], chunkers));
    assert forall|i: int| 0 <= i < n implies (#[trigger] results[i]) is Ok by {
        assert(label_among(specs[i], chunkers) is Ok);
    }
    law_collecting_stops_at_the_first_error(results, n);
    if n == specs.len() {
        assert forall|i: int| 0 <= i < n implies label_among(#[trigger] specs[i], chunkers)
            == Ok::<Seq<char>, BenchErrorView>(labels_among(specs, chunkers)->Ok_0[i]) by {
            assert(results[i] == Ok::<Seq<char>, BenchErrorView>(collected(results)->Ok_0[i]));
        }
    }
}

// ── Resolution ──────────────────────────────────────────────────────────────

/// The parser reads PDF files and has this name.
pub open spec fn is_pdf_parser_named(p: ParserView, name: Seq<char>) -> bool {
    p.name == name && p.extensions.contains("pdf"@)
}

proof fn lemma_pdf_names(parsers: Seq<ParserView>, name: Seq<char>)
    ensures
        pdf_parser_names(parsers).contains(name) <==> exists|i: int|
            0 <= i < parsers.len() && is_pdf_parser_named(#[trigger] parsers[i], name),
    decreases parsers.len(),
{
    if parsers.len() > 0 {
        let before = parsers.drop_last();
        let names = pdf_parser_names(parsers);
        let earlier = pdf_parser_names(before);
        lemma_pdf_names(before, name);
        if is_pdf_parser_named(parsers[parsers.len() - 1], name) {
            assert(names[names.len() - 1] == name);
        }
        if earlier.contains(name) {
            let k = choose|k: int| 0 <= k < earlier.len() && earlier[k] == name;
            assert(names[k] == name);
            let i = choose|i: int|
                0 <= i < before.len() && is_pdf_parser_named(#[trigger] before[i], name);
            assert(is_pdf_parser_named(parsers[i], name));
        }
        if names.contains(name) && !earlier.contains(name) {
            let k = choose|k: int| 0 <= k < names.len() && names[k] == name;
            if k < earlier.len() {
                assert(earlier[k] == name);
            }
            assert(is_pdf_parser_named(parsers[parsers.len() - 1], name));
        }
        if exists|i: int| 0 <= i < parsers.len() && is_pdf_parser_named(#[trigger] parsers[i], name) {
            let i = choose|i: int|
                0 <= i < parsers.len() && is_pdf_parser_named(#[trigger] parsers[i], name);
            if i < before.len() {
                assert(is_pdf_parser_named(before[i], name));
            }
        }
    }
}

/// The list of PDF parsers grows with each parser that reads PDF files, by its
/// name, and with no other.
pub proof fn law_pdf_parsers_are_listed(parsers: Seq<ParserView>, p: ParserView)
    ensures
        pdf_parser_names(Seq::empty()).len() == 0,
        pdf_parser_names(parsers.push(p)) == if p.extensions.contains("pdf"@) {
            pdf_parser_names(parsers).push(p.name)
        } else {
            pdf_parser_names(parsers)
        },
{
    assert(parsers.push(p).drop_last() =~= parsers);
}

/// A pipeline can be resolved exactly where the chunker that it names is there
/// and the parser that it names reads PDF files; a missing chunker is reported
/// before a missing parser, each with what there is.
pub proof fn law_pipelines_resolve_where_their_components_are(
    p: PipelineConfigView,
    chunkers: Seq<Seq<char>>,
    parsers: Seq<ParserView>,
)
    ensures
        ({
            let r = resolved_among(p, chunkers, parsers);
            let chunker_is_there = p.chunker is None || chunkers.contains(p.chunker->0);
            let parser_is_there = p.parser is None || exists|i: int|
                0 <= i < parsers.len() && is_pdf_parser_named(#[trigger] parsers[i], p.parser->0);
            &&& r is Ok <==> chunker_is_there && parser_is_there
            &&& !chunker_is_there ==> r == Err::<ResolvedPipelineView, BenchErrorView>(
                BenchErrorView::UnknownChunker {
                    name: p.chunker->0,
                    available: joined(chunkers, ", "@),
                },
            )
            &&& chunker_is_there && !parser_is_there ==> r == Err::<
                ResolvedPipelineView,
                BenchErrorView,
            >(
                BenchErrorView::UnknownPdfParser {
                    name: p.parser->0,
                    available: joined(pdf_parser_names(parsers), ", "@),
                },
            )
        }),
{
    if let Some(name) = p.parser {
        lemma_pdf_names(parsers, name);
    }
}

/// A resolved pipeline uses the chunker that its configuration names, the first
/// of that name, whatever its parser; where none is named, it uses none of the
/// registry.
pub proof fn law_resolved_pipelines_use_their_chunker(
    p: PipelineConfigView,
    chunkers: Seq<Seq<char>>,
    parsers: Seq<ParserView>,
)
    requires
        resolved_among(p, chunkers, parsers) is Ok,
        chunkers.len() <= usize::MAX,
    ensures
        ({
            let used = resolved_among(p, chunkers, parsers)->Ok_0.chunker;
            &&& used is None <==> p.chunker is None
            &&& used is Some ==> used->0 < chunkers.len() && chunkers[used->0 as int]
                == p.chunker->0 && forall|k: int|
                0 <= k < used->0 ==> #[trigger] chunkers[k] != p.chunker->0
        }),
{
    if let Some(name) = p.chunker {
        let i = choose|i: int| 0 <= i < chunkers.len() && chunkers[i] == name;
        lemma_first_of_a_name(chunkers, name, i);
        let first = choose|k: int| is_first_named(chunkers, name, k);
        assert(is_first_named(chunkers, name, (first as usize) as int));
    }
}

proof fn lemma_first_of_a_name(chunkers: Seq<Seq<char>>, name: Seq<char>, i: int)
    requires
        0 <= i < chunkers.len(),
        chunkers[i] == name,
    ensures
        exists|k: int| is_first_named(chunkers, name, k),
    decreases i,
{
    if exists|k: int| 0 <= k < i && chunkers[k] == name {
        let k = choose|k: int| 0 <= k < i && chunkers[k] == name;
        lemma_first_of_a_name(chunkers, name, k);
    } else {
        assert(is_first_named(chunkers, name, i));
    }
}

/// A resolved pipeline uses, in the order of the registry and each once, the
/// parser that its configuration names and all parsers of other formats;
/// where none is named, it uses every parser.
pub proof fn law_resolved_pipelines_use_their_parsers(
    p: PipelineConfigView,
    chunkers: Seq<Seq<char>>,
    parsers: Seq<ParserView>,
    i: usize,
)
    requires
        resolved_among(p, chunkers, parsers) is Ok,
        parsers.len() <= usize::MAX,
    ensures
        ({
            let used = resolved_among(p, chunkers, parsers)->Ok_0.parsers;
            &&& used.contains(i) <==> i < parsers.len() && (p.parser is None
                || parsers[i as int].name == p.parser->0
                || !parsers[i as int].extensions.contains("pdf"@))
            &&& forall|a: int, b: int| 0 <= a < b < used.len() ==> used[a] < used[b]
        }),
{
    law_kept_parsers(p.parser, parsers);
}

/// A resolved pipeline has the label that its configuration has.
pub proof fn law_resolved_pipelines_have_their_label(
    p: PipelineConfigView,
    chunkers: Seq<Seq<char>>,
    parsers: Seq<ParserView>,
)
    requires
        resolved_among(p, chunkers, parsers) is Ok,
    ensures
        resolved_among(p, chunkers, parsers)->Ok_0.label == (if p.parser is Some {
            p.parser->0
        } else {
            "all-parsers"@
        }) + " · "@ + (if p.chunker is Some {
            p.chunker->0
        } else {
            "markdown"@
        }),
{
}

/// Several pipelines are resolved each for itself, in order; the first that
/// cannot be resolved is the fault of them all.
pub proof fn law_resolved_pipelines_keep_the_order(
    specs: Seq<PipelineConfigView>,
    chunkers: Seq<Seq<char>>,
    parsers: Seq<ParserView>,
    n: int,
)
    requires
        specs.len() > 0,
        0 <= n <= specs.len(),
        forall|i: int| 0 <= i < n ==> resolved_among(#[trigger] specs[i], chunkers, parsers) is Ok,
        n < specs.len() ==> resolved_among(specs[n], chunkers, parsers) is Err,
    ensures
        ({
            let all = all_resolved_among(specs, chunkers, parsers);
            &&& n == specs.len() ==> all is Ok && all->Ok_0.len() == n && forall|i: int|
                0 <= i < n ==> resolved_among(#[trigger] specs[i], chunkers, parsers) == Ok::<
                    ResolvedPipelineView,
                    BenchErrorView,
                >(all->Ok_0[i])
            &&& n < specs.len() ==> all == Err::<Seq<ResolvedPipelineView>, BenchErrorView>(
                resolved_among(specs[n], chunkers, parsers)->Err_0,
            )
        }),
{
    let results = Seq::new(specs.len(), |i: int| resolved_among(specs[i], chunkers, parsers));
    assert forall|i: int| 0 <= i < n implies (#[trigger] results[i]) is Ok by {
        assert(resolved_among(specs[i], chunkers, parsers) is Ok);
    }
    law_collecting_stops_at_the_first_error(results, n);
    let all = all_resolved_among(specs, chunkers, parsers);
    if n == specs.len() {
        assert forall|i: int| 0 <= i < n implies resolved_among(
            #[trigger] specs[i],
            chunkers,
            parsers,
        ) == Ok::<ResolvedPipelineView, BenchErrorView>(all->Ok_0[i]) by {
            assert(results[i] == Ok::<ResolvedPipelineView, BenchErrorView>(
                collected(results)->Ok_0[i],
            ));
        }
    }
}

/// Without pipelines in the configuration there is one, which uses every parser
/// and no chunker of the registry.
pub proof fn law_no_pipelines_resolve_to_the_default(
    chunkers: Seq<Seq<char>>,
    parsers: Seq<ParserView>,
    i: usize,
)
    requires
        parsers.len() <= usize::MAX,
    ensures
        ({
            let all = all_resolved_among(Seq::empty(), chunkers, parsers);
            &&& all is Ok
            &&& all->Ok_0.len() == 1
            &&& all->Ok_0[0].label == "all-parsers"@ + " · "@ + "markdown"@
            &&& all->Ok_0[0].chunker is None
            &&& all->Ok_0[0].parsers.contains(i) <==> i < parsers.len()
        }),
{
    let single = PipelineConfigView { parser: None, chunker: None };
    let specs = seq![single];
    assert(PipelineConfigView::default_pipeline() == single);
    law_pipelines_resolve_where_their_components_are(single, chunkers, parsers);
    assert(resolved_among(specs[0], chunkers, parsers) is Ok);
    law_resolved_pipelines_keep_the_order(specs, chunkers, parsers, 1);
    assert(all_resolved_among(Seq::empty(), chunkers, parsers) == all_resolved_among(
        specs,
        chunkers,
        parsers,
    ));
    law_resolved_pipelines_use_their_parsers(single, chunkers, parsers, i);
    let all = all_resolved_among(specs, chunkers, parsers);
    assert(resolved_among(specs[0], chunkers, parsers) == Ok::<ResolvedPipelineView, BenchErrorView>(
        all->Ok_0[0],
    ));
}

} // verus!
