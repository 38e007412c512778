use ragrig_bench::config::PipelineConfig;
use ragrig_bench::error::BenchError;
use ragrig_bench::pipelines::{
    parsers_for, parsers_for_among, resolve_pipelines, resolve_pipelines_among,
};
use ragrig_bench::provenance::{
    cell_filter, corpus_name, corpus_names, pipeline_label, pipeline_label_among, pipeline_labels,
    scoped_corpus_name,
};
use ragrig_bench::registry::ParserInfo;

fn strings(list: &[&str]) -> Vec<String> {
    list.iter().map(|s| s.to_string()).collect()
}

fn pipeline(parser: Option<&str>, chunker: Option<&str>) -> PipelineConfig {
    PipelineConfig {
        parser: parser.map(|s| s.to_string()),
        chunker: chunker.map(|s| s.to_string()),
    }
}

const CHUNKERS: &str =
    "markdown, token, chunkedrs-recursive, chunkedrs-markdown, chunkedrs-code, chunkedrs-html";

#[test]
fn corpus_name_is_what_precedes_the_first_equals_sign() {
    assert_eq!(corpus_name("coursework=~/Documents/coursework").unwrap(), "coursework");
    assert_eq!(corpus_name("a=b=c").unwrap(), "a");
    assert_eq!(corpus_name("=path").unwrap(), "");
    assert_eq!(corpus_name("größe=x").unwrap(), "größe");
}

#[test]
fn corpus_without_equals_sign_is_malformed() {
    let e = corpus_name("coursework").unwrap_err();
    assert!(matches!(&e, BenchError::MalformedCorpus { spec } if spec == "coursework"));
    assert_eq!(e.message(), "corpus 'coursework' must have the form 'name=path'");
    assert!(e.source().is_none());
}

#[test]
fn corpus_names_keep_the_order() {
    let names = corpus_names(&strings(&["b=1", "a=2", "b=3"])).unwrap();
    assert_eq!(names, strings(&["b", "a", "b"]));
    assert!(corpus_names(&[]).unwrap().is_empty());
}

#[test]
fn corpus_names_report_the_first_malformed_entry() {
    let e = corpus_names(&strings(&["a=1", "bad", "worse"])).unwrap_err();
    assert_eq!(e.message(), "corpus 'bad' must have the form 'name=path'");
}

#[test]
fn default_pipeline_label() {
    assert_eq!(pipeline_label(&PipelineConfig::default()).unwrap(), "all-parsers · markdown");
    assert_eq!(pipeline_labels(&[]).unwrap(), strings(&["all-parsers · markdown"]));
}

#[test]
fn pipeline_label_names_parser_and_chunker() {
    assert_eq!(
        pipeline_label(&pipeline(Some("unpdf"), Some("token"))).unwrap(),
        "unpdf · token"
    );
    assert_eq!(
        pipeline_label(&pipeline(None, Some("chunkedrs-html"))).unwrap(),
        "all-parsers · chunkedrs-html"
    );
    // The label does not look at the parser registry.
    assert_eq!(pipeline_label(&pipeline(Some("nonsense"), None)).unwrap(), "nonsense · markdown");
}

#[test]
fn unknown_chunker_is_refused_with_the_registry() {
    let e = pipeline_label(&pipeline(None, Some("paragraph"))).unwrap_err();
    assert!(matches!(&e, BenchError::UnknownChunker { name, .. } if name == "paragraph"));
    assert_eq!(e.message(), format!("unknown chunker 'paragraph'. Available: {CHUNKERS}"));
}

#[test]
fn pipeline_label_among_other_chunkers() {
    let chunkers = strings(&["x", "y"]);
    assert_eq!(
        pipeline_label_among(&pipeline(None, Some("y")), &chunkers).unwrap(),
        "all-parsers · y"
    );
    let e = pipeline_label_among(&pipeline(None, Some("z")), &chunkers).unwrap_err();
    assert_eq!(e.message(), "unknown chunker 'z'. Available: x, y");
}

#[test]
fn pipeline_labels_stop_at_the_first_unknown_chunker() {
    let specs = [pipeline(None, Some("token")), pipeline(None, Some("no")), pipeline(None, Some("nor"))];
    let e = pipeline_labels(&specs).unwrap_err();
    assert_eq!(e.message(), format!("unknown chunker 'no'. Available: {CHUNKERS}"));
}

#[test]
fn scoped_names_join_corpus_and_pipeline() {
    assert_eq!(scoped_corpus_name("docs", "unpdf · token"), "docs::unpdf · token");
}

#[test]
fn scoped_names_differ_between_cells() {
    // The corpus name may hold the joining mark itself.
    let a = scoped_corpus_name("x::unpdf · token", "all-parsers · markdown");
    let b = scoped_corpus_name("x", "unpdf · token");
    assert_ne!(a, b);
    // A parser name may hold it where the corpus names do not.
    assert_ne!(
        scoped_corpus_name("x", "y::z · token"),
        scoped_corpus_name("xy", "z · token")
    );
    // With the mark in both, two cells can share a name.
    assert_eq!(
        scoped_corpus_name("a", "b::x · token"),
        scoped_corpus_name("a::b", "x · token")
    );
}

#[test]
fn cell_filter_names_corpus_and_pipeline() {
    let f = cell_filter("docs", "unpdf · token");
    assert_eq!(f.corpus, "docs");
    assert_eq!(f.pipeline, "unpdf · token");
}

#[test]
fn resolved_labels_are_the_derived_labels() {
    let specs = [
        pipeline(None, None),
        pipeline(Some("unpdf"), Some("chunkedrs-code")),
        pipeline(Some("sloppy-pdf"), None),
    ];
    let resolved = resolve_pipelines(&specs).unwrap();
    let labels: Vec<String> = resolved.iter().map(|p| p.label.clone()).collect();
    assert_eq!(labels, pipeline_labels(&specs).unwrap());
}

#[test]
fn empty_pipeline_list_resolves_to_the_default() {
    let resolved = resolve_pipelines(&[]).unwrap();
    assert_eq!(resolved.len(), 1);
    assert_eq!(resolved[0].label, "all-parsers · markdown");
    assert_eq!(resolved[0].parsers, vec![0, 1, 2, 3, 4, 5, 6, 7]);
    assert_eq!(resolved[0].chunker, None);
}

#[test]
fn chunkers_resolve_to_their_places_in_the_registry() {
    let resolved = resolve_pipelines(&[pipeline(None, Some("markdown")), pipeline(None, Some("chunkedrs-code"))]).unwrap();
    assert_eq!(resolved[0].chunker, Some(0));
    assert_eq!(resolved[1].chunker, Some(4));
    let registry = ragrig::available_chunkers();
    assert_eq!(registry[4].name(), "chunkedrs-code");
}

#[test]
fn a_pdf_parser_keeps_the_parsers_of_other_formats() {
    assert_eq!(parsers_for(&Some("pdfsink".to_string())).unwrap(), vec![1, 4, 5, 6, 7]);
    let registry = ragrig::parsers::build_parsers();
    assert_eq!(registry[1].name(), "pdfsink");
    assert_eq!(registry.len(), 8);
    assert_eq!(registry[4].name(), "epub-parser");
}

#[test]
fn parsers_of_other_formats_cannot_be_chosen() {
    let e = parsers_for(&Some("html".to_string())).unwrap_err();
    assert!(matches!(&e, BenchError::UnknownPdfParser { name, .. } if name == "html"));
    assert_eq!(
        e.message(),
        "unknown PDF parser 'html'. Available: unpdf, pdfsink, pdf-extract, sloppy-pdf"
    );
}

#[test]
fn parsers_among_another_registry() {
    let registry = vec![
        ParserInfo { name: "a".to_string(), extensions: strings(&["pdf", "ps"]) },
        ParserInfo { name: "b".to_string(), extensions: strings(&["txt"]) },
        ParserInfo { name: "a".to_string(), extensions: strings(&["pdf"]) },
        ParserInfo { name: "c".to_string(), extensions: strings(&["pdf"]) },
    ];
    assert_eq!(parsers_for_among(&None, &registry).unwrap(), vec![0, 1, 2, 3]);
    assert_eq!(parsers_for_among(&Some("a".to_string()), &registry).unwrap(), vec![0, 1, 2]);
    let e = parsers_for_among(&Some("b".to_string()), &registry).unwrap_err();
    assert_eq!(e.message(), "unknown PDF parser 'b'. Available: a, a, c");
}

#[test]
fn unknown_chunker_is_reported_before_unknown_parser() {
    let e = resolve_pipelines(&[pipeline(Some("no"), Some("no"))]).unwrap_err();
    assert!(matches!(e, BenchError::UnknownChunker { .. }));
    let e = resolve_pipelines(&[pipeline(Some("no"), Some("token"))]).unwrap_err();
    assert!(matches!(e, BenchError::UnknownPdfParser { .. }));
}

#[test]
fn first_chunker_of_a_name_is_taken() {
    let resolved = resolve_pipelines_among(
        &[pipeline(None, Some("y"))],
        &strings(&["x", "y", "y"]),
        &Vec::new(),
    )
    .unwrap();
    assert_eq!(resolved[0].chunker, Some(1));
    assert!(resolved[0].parsers.is_empty());
}

#[test]
fn registries_of_this_build() {
    let chunkers: Vec<&str> = ragrig::available_chunkers().iter().map(|c| c.name()).collect();
    assert_eq!(chunkers.join(", "), CHUNKERS);
    let parsers: Vec<String> = ragrig::parsers::build_parsers()
        .iter()
        .map(|p| format!("{}: {}", p.name(), p.extensions().join(" ")))
        .collect();
    assert_eq!(
        parsers,
        strings(&[
            "unpdf: pdf",
            "pdfsink: pdf",
            "pdf-extract: pdf",
            "sloppy-pdf: pdf",
            "epub-parser: epub",
            "html: html htm",
            "docx: docx",
            "markdown: md rmd qmd Rmd Qmd",
        ])
    );
}

#[test]
fn filters_of_different_cells_differ() {
    let a = cell_filter("docs", &pipeline_label(&pipeline(None, Some("token"))).unwrap());
    let b = cell_filter("docs", &pipeline_label(&pipeline(Some("unpdf"), Some("token"))).unwrap());
    assert_eq!(a.corpus, b.corpus);
    assert_ne!(a.pipeline, b.pipeline);
}

#[test]
fn labels_tell_pipelines_apart_whatever_the_parser_is_called() {
    let specs = [
        pipeline(None, None),
        pipeline(Some("a · token"), None),
        pipeline(Some("a"), Some("token")),
        pipeline(Some("a · markdown"), Some("token")),
        pipeline(Some(""), None),
    ];
    let mut labels = pipeline_labels(&specs).unwrap();
    labels.sort();
    labels.dedup();
    assert_eq!(labels.len(), specs.len());
    // The one name that reads like no parser at all.
    assert_eq!(
        pipeline_label(&pipeline(Some("all-parsers"), None)).unwrap(),
        pipeline_label(&pipeline(None, None)).unwrap()
    );
}
