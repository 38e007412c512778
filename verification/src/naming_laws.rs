//! What the provenance names promise: both processes derive the same ones, and
//! different cells of the matrix never share one.

use vstd::prelude::*;
use crate::config::PipelineConfigView;
use crate::corpora::{law_both_sides_agree_on_corpora, resolution};
use crate::error::BenchErrorView;
use crate::pipelines::{
    all_resolved_among, keeps, kept_parsers, pdf_parser_names, resolved_among,
    ResolvedPipelineView,
};
use crate::provenance::{
    chunker_label, effective_pipelines, label_among, label_text, labels_among, names_of_corpora,
    parser_label, scoped, CellFilter, ChunkOrigin,
};
use crate::registry::{chunker_registry, parser_registry, ParserView};
use crate::text::{collected, lemma_collected_values};

verus! {

// ── The two processes agree ─────────────────────────────────────────────────

/// Where ingestion can resolve the pipelines, interaction derives a label for
/// each of them, in the same order, and it is the label that ingestion used.
pub proof fn law_both_sides_agree_on_labels(
    specs: Seq<PipelineConfigView>,
    chunkers: Seq<Seq<char>>,
    parsers: Seq<ParserView>,
)
    requires
        all_resolved_among(specs, chunkers, parsers) is Ok,
    ensures
        labels_among(specs, chunkers) is Ok,
        ({
            let resolved = all_resolved_among(specs, chunkers, parsers)->Ok_0;
            let labels = labels_among(specs, chunkers)->Ok_0;
            &&& resolved.len() == effective_pipelines(specs).len()
            &&& labels.len() == resolved.len()
            &&& forall|i: int| 0 <= i < labels.len() ==> #[trigger] labels[i] == resolved[i].label
        }),
{
    let all = effective_pipelines(specs);
    let sides = Seq::new(all.len(), |i: int| resolved_among(all[i], chunkers, parsers));
    let results = Seq::new(all.len(), |i: int| label_among(all[i], chunkers));
    lemma_collected_values(sides);
    assert forall|i: int| 0 <= i < results.len() implies (#[trigger] results[i]) is Ok by {
        assert(sides[i] is Ok);
    }
    lemma_collected_values(results);
    let resolved = collected(sides)->Ok_0;
    let labels = collected(results)->Ok_0;
    assert forall|i: int| 0 <= i < labels.len() implies #[trigger] labels[i]
        == resolved[i].label by {
        assert(sides[i] == Ok::<ResolvedPipelineView, BenchErrorView>(resolved[i]));
        assert(results[i] == Ok::<Seq<char>, BenchErrorView>(labels[i]));
    }
}

/// Interaction addresses what ingestion built: where ingestion resolves the
/// corpora and the pipelines of a configuration, interaction derives for every
/// cell the corpus name, the label and the scoped name that ingestion used for
/// that pair.
pub proof fn law_interaction_addresses_what_ingestion_built(
    corpora: Seq<Seq<char>>,
    extracted: Seq<Seq<char>>,
    pipelines: Seq<PipelineConfigView>,
    chunkers: Seq<Seq<char>>,
    parsers: Seq<ParserView>,
    p: int,
    c: int,
)
    requires
        resolution(corpora, true, extracted).progress is Complete,
        all_resolved_among(pipelines, chunkers, parsers) is Ok,
        0 <= p < effective_pipelines(pipelines).len(),
        0 <= c < corpora.len(),
    ensures
        names_of_corpora(corpora) is Ok,
        labels_among(pipelines, chunkers) is Ok,
        ({
            let built = all_resolved_among(pipelines, chunkers, parsers)->Ok_0[p];
            let source = resolution(corpora, true, extracted).corpora[c];
            let name = names_of_corpora(corpora)->Ok_0[c];
            let label = labels_among(pipelines, chunkers)->Ok_0[p];
            &&& name == source.name
            &&& label == built.label
            &&& scoped(name, label) == scoped(source.name, built.label)
        }),
{
    law_both_sides_agree_on_labels(pipelines, chunkers, parsers);
    law_both_sides_agree_on_corpora(corpora, true, extracted);
    assert(labels_among(pipelines, chunkers)->Ok_0[p] == all_resolved_among(
        pipelines,
        chunkers,
        parsers,
    )->Ok_0[p].label);
}

/// Without pipelines in the configuration there is one, whose label is
/// `all-parsers · markdown`.
pub proof fn law_no_pipelines_mean_the_default(chunkers: Seq<Seq<char>>)
    ensures
        labels_among(Seq::empty(), chunkers) == Ok::<Seq<Seq<char>>, BenchErrorView>(
            seq!["all-parsers"@ + " · "@ + "markdown"@],
        ),
{
    let all = effective_pipelines(Seq::empty());
    let results = Seq::new(all.len(), |i: int| label_among(all[i], chunkers));
    assert(results.drop_last() =~= Seq::empty());
    assert(results.last() == Ok::<Seq<char>, BenchErrorView>(
        "all-parsers"@ + " · "@ + "markdown"@,
    ));
    assert(collected(results.drop_last()) == Ok::<Seq<Seq<char>>, BenchErrorView>(Seq::empty()));
    assert(collected(results)->Ok_0 =~= seq!["all-parsers"@ + " · "@ + "markdown"@]);
}

// ── Names of the registries ─────────────────────────────────────────────────

/// The text holds neither of the characters that join names.
pub open spec fn plain_name(s: Seq<char>) -> bool {
    forall|i: int| 0 <= i < s.len() ==> s[i] != ':' && s[i] != '·'
}

proof fn lemma_chunker_names_are_plain(name: Seq<char>)
    requires
        chunker_registry().contains(name),
    ensures
        plain_name(name),
{
    reveal_strlit("markdown");
    reveal_strlit("token");
    reveal_strlit("chunkedrs-recursive");
    reveal_strlit("chunkedrs-markdown");
    reveal_strlit("chunkedrs-code");
    reveal_strlit("chunkedrs-html");
    assert(plain_name("markdown"@));
    assert(plain_name("token"@));
    assert(plain_name("chunkedrs-recursive"@));
    assert(plain_name("chunkedrs-markdown"@));
    assert(plain_name("chunkedrs-code"@));
    assert(plain_name("chunkedrs-html"@));
}

proof fn lemma_pdf_name_is_parser_name(parsers: Seq<ParserView>, name: Seq<char>)
    requires
        pdf_parser_names(parsers).contains(name),
    ensures
        exists|i: int| 0 <= i < parsers.len() && #[trigger] parsers[i].name == name,
    decreases parsers.len(),
{
    if parsers.len() > 0 {
        let before = parsers.drop_last();
        if parsers.last().name == name {
            assert(parsers[parsers.len() - 1].name == name);
        } else {
            let names = pdf_parser_names(parsers);
            let k = choose|k: int| 0 <= k < names.len() && names[k] == name;
            assert(pdf_parser_names(before).contains(name)) by {
                assert(pdf_parser_names(before)[k] == name);
            }
            lemma_pdf_name_is_parser_name(before, name);
            let i = choose|i: int| 0 <= i < before.len() && #[trigger] before[i].name == name;
            assert(parsers[i].name == name);
        }
    }
}

proof fn lemma_parser_names_are_plain(name: Seq<char>)
    requires
        pdf_parser_names(parser_registry()).contains(name),
    ensures
        plain_name(name),
        name != "all-parsers"@,
{
    lemma_pdf_name_is_parser_name(parser_registry(), name);
    reveal_strlit("unpdf");
    reveal_strlit("pdfsink");
    reveal_strlit("pdf-extract");
    reveal_strlit("sloppy-pdf");
    reveal_strlit("epub-parser");
    reveal_strlit("html");
    reveal_strlit("docx");
    reveal_strlit("markdown");
    reveal_strlit("all-parsers");
    assert(plain_name("unpdf"@));
    assert(plain_name("pdfsink"@));
    assert(plain_name("pdf-extract"@));
    assert(plain_name("sloppy-pdf"@));
    assert(plain_name("epub-parser"@));
    assert(plain_name("html"@));
    assert(plain_name("docx"@));
    assert(plain_name("markdown"@));
    assert("pdf-extract"@[0] == 'p');
    assert("epub-parser"@[0] == 'e');
    assert("all-parsers"@[0] == 'a');
}

/// The pipeline can be resolved against the registries of this build.
pub open spec fn resolvable(p: PipelineConfigView) -> bool {
    resolved_among(p, chunker_registry(), parser_registry()) is Ok
}

/// The pipeline has a label in this build: its chunker is in the registry.
/// Its parser need not be.
pub open spec fn has_label(p: PipelineConfigView) -> bool {
    label_among(p, chunker_registry()) is Ok
}

/// The text holds no colon.
pub open spec fn colon_free(s: Seq<char>) -> bool {
    forall|i: int| 0 <= i < s.len() ==> s[i] != ':'
}

proof fn lemma_chunker_label_is_plain(p: PipelineConfigView)
    requires
        has_label(p),
    ensures
        plain_name(chunker_label(p.chunker)),
{
    reveal_strlit("markdown");
    if let Some(name) = p.chunker {
        lemma_chunker_names_are_plain(name);
    }
}

/// A pipeline that can be resolved has a label; the label holds no colon; and
/// its parser is not called what stands for all parsers.
pub proof fn law_resolvable_pipelines_have_plain_labels(p: PipelineConfigView)
    requires
        resolvable(p),
    ensures
        has_label(p),
        colon_free(parser_label(p.parser)),
        colon_free(label_text(p)),
        p.parser != Some("all-parsers"@),
{
    reveal_strlit("all-parsers");
    assert(plain_name("all-parsers"@));
    if let Some(name) = p.parser {
        lemma_parser_names_are_plain(name);
    }
    lemma_label_is_colon_free(p);
}

proof fn lemma_label_is_colon_free(p: PipelineConfigView)
    requires
        has_label(p),
        colon_free(parser_label(p.parser)),
    ensures
        colon_free(label_text(p)),
{
    lemma_chunker_label_is_plain(p);
    reveal_strlit(" · ");
    let a = parser_label(p.parser);
    let c = chunker_label(p.chunker);
    let l = label_text(p);
    assert forall|i: int| 0 <= i < l.len() implies l[i] != ':' by {
        if i < a.len() {
            assert(l[i] == a[i]);
        } else if i >= a.len() + 3 {
            assert(l[i] == c[i - a.len() - 3]);
        } else {
            assert(l[i] == " · "@[i - a.len()]);
        }
    }
}

// ── Labels identify pipelines ───────────────────────────────────────────────

/// The two use the same parser and the same chunker.  Leaving the chunker out
/// is choosing `markdown`; a parser called `all-parsers` reads like none.
pub open spec fn same_components(p: PipelineConfigView, q: PipelineConfigView) -> bool {
    &&& parser_label(p.parser) == parser_label(q.parser)
    &&& chunker_label(p.chunker) == chunker_label(q.chunker)
    &&& p.parser != Some("all-parsers"@) && q.parser != Some("all-parsers"@) ==> p.parser
        == q.parser
}

/// Two pipelines have the same label only where they use the same parser and
/// the same chunker, whatever the parsers are called.
pub proof fn law_labels_identify_pipelines(p: PipelineConfigView, q: PipelineConfigView)
    requires
        has_label(p),
        has_label(q),
        label_text(p) == label_text(q),
    ensures
        same_components(p, q),
{
    lemma_chunker_label_is_plain(p);
    lemma_chunker_label_is_plain(q);
    reveal_strlit(" · ");
    let l = label_text(p);
    let a = parser_label(p.parser);
    let b = parser_label(q.parser);
    let c = chunker_label(p.chunker);
    let d = chunker_label(q.chunker);
    assert(l.len() == a.len() + 3 + c.len());
    assert(l == b + " · "@ + d);
    assert(l.len() == b.len() + 3 + d.len());
    assert(l[a.len() as int + 1] == '·');
    assert((b + " · "@ + d)[b.len() as int + 1] == '·');
    if a.len() < b.len() {
        lemma_dot_is_last(a, c, b.len() as int + 1);
    } else if b.len() < a.len() {
        lemma_dot_is_last(b, d, a.len() as int + 1);
    }
    assert forall|i: int| 0 <= i < a.len() implies a[i] == b[i] by {
        assert(l[i] == a[i]);
        assert(l[i] == b[i]);
    }
    assert(a =~= b);
    assert forall|i: int| 0 <= i < c.len() implies c[i] == d[i] by {
        assert(l[a.len() + 3 + i] == c[i]);
        assert(l[b.len() + 3 + i] == d[i]);
    }
    assert(c =~= d);
}

/// Behind the dot of a label there is no other.
proof fn lemma_dot_is_last(a: Seq<char>, c: Seq<char>, i: int)
    requires
        plain_name(c),
        0 <= i < (a + " · "@ + c).len(),
        (a + " · "@ + c)[i] == '·',
    ensures
        i <= a.len() + 1,
{
    reveal_strlit(" · ");
    let l = a + " · "@ + c;
    if i >= a.len() + 3 {
        assert(l[i] == c[i - a.len() - 3]);
    }
}

// ── Scoped names identify cells ─────────────────────────────────────────────

/// A scoped corpus name belongs to one corpus and one pipeline: no two
/// (corpus, pipeline) pairs share a name, as long as no parser name holds a
/// colon, whatever the corpora are called, or no corpus name holds one,
/// whatever the parsers are called.
pub proof fn law_scoped_names_identify_cells(
    corpus: Seq<char>,
    p: PipelineConfigView,
    other_corpus: Seq<char>,
    q: PipelineConfigView,
)
    requires
        has_label(p),
        has_label(q),
        colon_free(parser_label(p.parser)) && colon_free(parser_label(q.parser)) || colon_free(
            corpus,
        ) && colon_free(other_corpus),
        scoped(corpus, label_text(p)) == scoped(other_corpus, label_text(q)),
    ensures
        corpus == other_corpus,
        label_text(p) == label_text(q),
        same_components(p, q),
{
    reveal_strlit("::");
    let n = scoped(corpus, label_text(p));
    let l = label_text(p);
    let m = label_text(q);
    assert(n.len() == corpus.len() + 2 + l.len());
    assert(n == other_corpus + "::"@ + m);
    assert(n.len() == other_corpus.len() + 2 + m.len());
    assert(n[corpus.len() as int] == ':' && n[corpus.len() as int + 1] == ':');
    assert((other_corpus + "::"@ + m)[other_corpus.len() as int] == ':');
    assert((other_corpus + "::"@ + m)[other_corpus.len() as int + 1] == ':');
    if colon_free(parser_label(p.parser)) && colon_free(parser_label(q.parser)) {
        lemma_label_is_colon_free(p);
        lemma_label_is_colon_free(q);
        if l.len() < m.len() {
            let i = m.len() - l.len() - 1;
            assert((other_corpus + "::"@ + m)[corpus.len() as int + 1] == m[i]);
        } else if m.len() < l.len() {
            let i = l.len() - m.len() - 1;
            assert((corpus + "::"@ + l)[other_corpus.len() as int + 1] == l[i]);
        }
    } else {
        if corpus.len() < other_corpus.len() {
            assert((other_corpus + "::"@ + m)[corpus.len() as int] == other_corpus[corpus.len() as int]);
        } else if other_corpus.len() < corpus.len() {
            assert((corpus + "::"@ + l)[other_corpus.len() as int] == corpus[other_corpus.len() as int]);
        }
    }
    assert(corpus.len() == other_corpus.len());
    assert forall|i: int| 0 <= i < corpus.len() implies corpus[i] == other_corpus[i] by {
        assert(n[i] == corpus[i]);
        assert(n[i] == other_corpus[i]);
    }
    assert(corpus =~= other_corpus);
    assert forall|i: int| 0 <= i < l.len() implies l[i] == m[i] by {
        assert(n[corpus.len() + 2 + i] == l[i]);
        assert(n[other_corpus.len() + 2 + i] == m[i]);
    }
    assert(l =~= m);
    law_labels_identify_pipelines(p, q);
}

/// Pipelines never mix during retrieval: the filter of a cell selects a chunk
/// only where the chunk was indexed from the same corpus by the same parser
/// and the same chunker.
pub proof fn law_cells_never_mix(
    filter: CellFilter,
    corpus: Seq<char>,
    p: PipelineConfigView,
    other_corpus: Seq<char>,
    q: PipelineConfigView,
)
    requires
        has_label(p),
        has_label(q),
        filter.corpus@ == corpus,
        filter.pipeline@ == label_text(p),
        filter.selects(ChunkOrigin { corpus: other_corpus, pipeline: label_text(q) }),
    ensures
        corpus == other_corpus,
        same_components(p, q),
{
    law_labels_identify_pipelines(p, q);
}

// ── Parser selection ────────────────────────────────────────────────────────

/// A choice of PDF parser keeps, in the order of the registry, exactly the
/// parser of that name and the parsers of the other formats; no choice keeps
/// them all.
pub proof fn law_kept_parsers(choice: Option<Seq<char>>, parsers: Seq<ParserView>)
    requires
        parsers.len() <= usize::MAX,
    ensures
        forall|i: usize| #[trigger]
            kept_parsers(choice, parsers).contains(i) <==> i < parsers.len() && keeps(
                choice,
                parsers[i as int],
            ),
        forall|a: int, b: int|
            0 <= a < b < kept_parsers(choice, parsers).len() ==> kept_parsers(choice, parsers)[a]
                < kept_parsers(choice, parsers)[b],
    decreases parsers.len(),
{
    if parsers.len() > 0 {
        let before = parsers.drop_last();
        let kept = kept_parsers(choice, before);
        let all = kept_parsers(choice, parsers);
        let last = (parsers.len() - 1) as usize;
        law_kept_parsers(choice, before);
        assert forall|a: int| 0 <= a < kept.len() implies kept[a] < last by {
            assert(kept.contains(kept[a]));
        }
        assert forall|i: usize| #[trigger]
            all.contains(i) <==> i < parsers.len() && keeps(choice, parsers[i as int]) by {
            if kept.contains(i) {
                let k = choose|k: int| 0 <= k < kept.len() && kept[k] == i;
                assert(all[k] == i);
                assert(before[i as int] == parsers[i as int]);
            } else if i == last {
                if keeps(choice, parsers.last()) {
                    assert(all[all.len() - 1] == i);
                }
            } else if all.contains(i) {
                let k = choose|k: int| 0 <= k < all.len() && all[k] == i;
                assert(kept[k] == i);
            } else if i < before.len() {
                assert(before[i as int] == parsers[i as int]);
            }
        }
    }
}

} // verus!
