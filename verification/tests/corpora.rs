use ragrig_bench::corpora::{
    resolve_corpora, resolve_folder_corpora, CorpusSource, IngestCorpus, Progress,
};
use ragrig_bench::error::BenchError;
use ragrig_bench::number::{decimal_of, padded_of, parse_usize, NumberError};
use ragrig_bench::pipelines::resolve_pipelines;
use ragrig_bench::provenance::{corpus_names, pipeline_labels, scoped_corpus_name};

fn strings(list: &[&str]) -> Vec<String> {
    list.iter().map(|s| s.to_string()).collect()
}

#[test]
fn folders_and_mocks_resolve_at_once() {
    let r = resolve_corpora(&strings(&["notes=~/notes", "synth=@mock/12", "x="]), &[]);
    assert!(matches!(r.progress, Progress::Complete));
    assert_eq!(r.corpora.len(), 3);
    assert_eq!(r.corpora[0].name, "notes");
    assert!(matches!(&r.corpora[0].source, CorpusSource::Folder(p) if p == "~/notes"));
    assert!(matches!(&r.corpora[1].source, CorpusSource::Mock(12)));
    assert!(matches!(&r.corpora[2].source, CorpusSource::Folder(p) if p.is_empty()));
    assert!(r.corpora.iter().all(|c| c.extraction.is_none()));
    assert_eq!(r.notes, strings(&["  Mock corpus 'synth': 12 synthetic documents."]));
    assert_eq!(r.used, 0);
}

#[test]
fn fixtures_are_asked_for_one_after_the_other() {
    let specs = strings(&["a=@fixtures/pdf", "b=dir", "c=@fixtures/html"]);
    let first = resolve_corpora(&specs, &[]);
    assert!(matches!(&first.progress, Progress::NeedsFixtures { format } if format == "pdf"));
    assert!(first.corpora.is_empty());
    let second = resolve_corpora(&specs, &strings(&["/tmp/one"]));
    assert!(matches!(&second.progress, Progress::NeedsFixtures { format } if format == "html"));
    assert_eq!(second.corpora.len(), 2);
    assert_eq!(second.notes, strings(&["  Extracted pdf fixtures → /tmp/one"]));
    let third = resolve_corpora(&specs, &strings(&["/tmp/one", "/tmp/two"]));
    assert!(matches!(third.progress, Progress::Complete));
    assert_eq!(third.used, 2);
    assert_eq!(third.corpora[0].extraction, Some(0));
    assert_eq!(third.corpora[1].extraction, None);
    assert_eq!(third.corpora[2].extraction, Some(1));
    assert!(matches!(&third.corpora[2].source, CorpusSource::Folder(p) if p == "/tmp/two"));
    assert_eq!(
        third.notes,
        strings(&["  Extracted pdf fixtures → /tmp/one", "  Extracted html fixtures → /tmp/two"])
    );
}

#[test]
fn resolution_goes_on_where_it_stopped() {
    let specs = strings(&["m=@mock/1", "a=@fixtures/rmd", "n=@mock/2"]);
    let before = resolve_corpora(&specs, &[]);
    let after = resolve_corpora(&specs, &strings(&["/tmp/x"]));
    assert_eq!(before.notes.len(), 1);
    assert_eq!(after.notes[..1], before.notes[..]);
    assert_eq!(after.notes.len(), 3);
}

#[test]
fn malformed_entry_stops_resolution() {
    let r = resolve_corpora(&strings(&["a=@mock/1", "broken", "b=x"]), &[]);
    assert_eq!(r.corpora.len(), 1);
    assert!(matches!(
        &r.progress,
        Progress::Failed(BenchError::MalformedCorpus { spec }) if spec == "broken"
    ));
}

#[test]
fn mock_size_must_be_a_number() {
    let r = resolve_corpora(&strings(&["a=@mock/many"]), &[]);
    match r.progress {
        Progress::Failed(e) => {
            assert!(matches!(
                &e,
                BenchError::MockCorpusSize { reason: NumberError::InvalidDigit, .. }
            ));
            assert_eq!(e.message(), "mock corpus size 'many' in corpus 'a=@mock/many'");
            assert_eq!(e.source().unwrap(), "invalid digit found in string");
        }
        other => panic!("{other:?}"),
    }
    let r = resolve_corpora(&strings(&["a=@mock/"]), &[]);
    match r.progress {
        Progress::Failed(e) => {
            assert_eq!(e.source().unwrap(), "cannot parse integer from empty string")
        }
        other => panic!("{other:?}"),
    }
    let r = resolve_corpora(&strings(&["a=@mock/99999999999999999999999"]), &[]);
    match r.progress {
        Progress::Failed(e) => {
            assert_eq!(e.source().unwrap(), "number too large to fit in target type")
        }
        other => panic!("{other:?}"),
    }
}

#[test]
fn number_explanations_are_those_of_std() {
    for text in ["", "+", "-1", "x", "1_000", " 1", "99999999999999999999999", "0007", "+5"] {
        match (text.parse::<usize>(), parse_usize(text)) {
            (Ok(a), Ok(b)) => assert_eq!(a, b),
            (Err(a), Err(reason)) => {
                let e = BenchError::MockCorpusSize {
                    count: String::new(),
                    spec: String::new(),
                    reason,
                };
                assert_eq!(a.to_string(), e.source().unwrap(), "{text:?}");
            }
            (a, b) => panic!("{text:?}: {a:?} {b:?}"),
        }
    }
}

#[test]
fn numbers_are_written_as_std_writes_them() {
    for n in [0, 7, 10, 99, 100, 1234567890, usize::MAX] {
        assert_eq!(decimal_of(n), n.to_string());
        assert_eq!(parse_usize(&decimal_of(n)), Ok(n));
        assert_eq!(padded_of(n, 3), format!("{n:03}"));
        assert_eq!(parse_usize(&padded_of(n, 30)), Ok(n));
    }
}

#[test]
fn without_mocks_the_prefix_is_a_path() {
    let r = resolve_folder_corpora(&strings(&["a=@mock/many", "b=@fixtures/pdf"]), &strings(&["/t"]));
    assert!(matches!(r.progress, Progress::Complete));
    assert!(matches!(&r.corpora[0].source, CorpusSource::Folder(p) if p == "@mock/many"));
    assert_eq!(r.corpora[1].extraction, Some(0));
    assert_eq!(r.notes, strings(&["  Extracted pdf fixtures → /t"]));
}

#[test]
fn resolved_names_are_the_derived_names() {
    let specs = strings(&["a=1", "b=@mock/3", "c=@fixtures/pdf"]);
    let r = resolve_corpora(&specs, &strings(&["/t"]));
    let names: Vec<String> = r.corpora.iter().map(|c| c.name.clone()).collect();
    assert_eq!(names, corpus_names(&specs).unwrap());
}

#[test]
fn corpus_for_a_pipeline_has_a_scoped_name() {
    let r = resolve_corpora(&strings(&["a=dir", "b=@mock/3"]), &[]);
    let pipelines = resolve_pipelines(&[]).unwrap();
    assert_eq!(r.corpora[0].scoped_name(&pipelines[0]), "a::all-parsers · markdown");
    match r.corpora[0].corpus_for(&pipelines[0]) {
        IngestCorpus::Folder { name, path } => {
            assert_eq!(name, "a::all-parsers · markdown");
            assert_eq!(path, "dir");
        }
        other => panic!("{other:?}"),
    }
    match r.corpora[1].corpus_for(&pipelines[0]) {
        IngestCorpus::Mock(corpus) => {
            assert_eq!(corpus.name(), "b::all-parsers · markdown");
            assert_eq!(corpus.documents().len(), 3);
        }
        other => panic!("{other:?}"),
    }
    match r.corpora[1].unscoped_corpus() {
        IngestCorpus::Mock(corpus) => assert_eq!(corpus.name(), "b"),
        other => panic!("{other:?}"),
    }
}

#[test]
fn interaction_addresses_what_ingestion_built() {
    let specs = strings(&["a=dir", "b=@mock/3"]);
    let corpora = resolve_corpora(&specs, &[]).corpora;
    let pipelines = resolve_pipelines(&[]).unwrap();
    let names = corpus_names(&specs).unwrap();
    let labels = pipeline_labels(&[]).unwrap();
    for (corpus, name) in corpora.iter().zip(&names) {
        for (pipeline, label) in pipelines.iter().zip(&labels) {
            assert_eq!(corpus.scoped_name(pipeline), scoped_corpus_name(name, label));
        }
    }
}
