//! Resolution of corpus entries to the places their documents come from.
//!
//! Extracting a fixture set writes files, so resolution stops where it needs
//! one and goes on when it is called again with the extractions made so far.

use vstd::prelude::*;
use vstd::string::StringExecFns;
use crate::error::{BenchError, BenchErrorView};
use crate::mock::MockCorpus;
use crate::number::{decimal, decimal_of, parse_usize, parsed_usize};
use crate::pipelines::ResolvedPipeline;
use crate::provenance::{name_of_corpus, names_of_corpora, scoped, scoped_corpus_name};
use crate::text::{
    after_prefix, collected, lemma_collected_values, opt_text, split_at_first, split_once,
    strip_prefix, texts,
};

verus! {

// ── Resolved corpora ────────────────────────────────────────────────────────

/// Where the raw documents of a corpus come from.
#[derive(Debug)]
pub enum CorpusSource {
    /// A directory of documents.
    Folder(String),
    /// This many synthetic documents.
    Mock(usize),
}

/// A corpus source resolved from the configuration.
#[derive(Debug)]
pub struct ResolvedCorpus {
    /// The name that the configuration gives it.
    pub name: String,
    pub source: CorpusSource,
    /// Which extraction it lives in, where it is a fixture set.  The files
    /// stay as long as the caller keeps that extraction.
    pub extraction: Option<usize>,
}

/// A [`CorpusSource`] with its path as a character sequence.
pub enum CorpusSourceView {
    Folder(Seq<char>),
    Mock(usize),
}

/// A [`ResolvedCorpus`] with its texts as character sequences.
pub struct ResolvedCorpusView {
    pub name: Seq<char>,
    pub source: CorpusSourceView,
    pub extraction: Option<usize>,
}

impl View for CorpusSource {
    type V = CorpusSourceView;

    open spec fn view(&self) -> CorpusSourceView {
        match self {
            CorpusSource::Folder(path) => CorpusSourceView::Folder(path@),
            CorpusSource::Mock(count) => CorpusSourceView::Mock(*count),
        }
    }
}

impl View for ResolvedCorpus {
    type V = ResolvedCorpusView;

    open spec fn view(&self) -> ResolvedCorpusView {
        ResolvedCorpusView {
            name: self.name@,
            source: self.source@,
            extraction: self.extraction,
        }
    }
}

/// The views of a list of resolved corpora.
pub open spec fn corpus_views(v: Seq<ResolvedCorpus>) -> Seq<ResolvedCorpusView> {
    Seq::new(v.len(), |i: int| v[i]@)
}

// ── What to ingest ──────────────────────────────────────────────────────────

/// A corpus to ingest, under the name that its chunks are stored with.
#[derive(Debug)]
pub enum IngestCorpus {
    /// The documents of a directory.
    Folder { name: String, path: String },
    /// Synthetic documents.
    Mock(MockCorpus),
}

impl IngestCorpus {
    /// The corpus takes its documents from `source` and is called `name`.
    pub open spec fn is_named(&self, name: Seq<char>, source: CorpusSourceView) -> bool {
        match (self, source) {
            (IngestCorpus::Folder { name: n, path }, CorpusSourceView::Folder(from)) => n@ == name
                && path@ == from,
            (IngestCorpus::Mock(corpus), CorpusSourceView::Mock(count)) => corpus.name@ == name
                && corpus.count == count,
            _ => false,
        }
    }
}

impl ResolvedCorpus {
    /// The store-level corpus name for one pipeline.
    pub fn scoped_name(&self, pipeline: &ResolvedPipeline) -> (r: String)
        ensures
            r@ == scoped(self.name@, pipeline.label@),
    {
        scoped_corpus_name(self.name.as_str(), pipeline.label.as_str())
    }

    fn called(&self, name: String) -> (r: IngestCorpus)
        ensures
            r.is_named(name@, self.source@),
    {
        match &self.source {
            CorpusSource::Folder(path) => IngestCorpus::Folder { name, path: path.clone() },
            CorpusSource::Mock(count) => IngestCorpus::Mock(MockCorpus { name, count: *count }),
        }
    }

    /// The corpus to ingest for one pipeline, under the name that it has for
    /// that pipeline alone.
    pub fn corpus_for(&self, pipeline: &ResolvedPipeline) -> (r: IngestCorpus)
        ensures
            r.is_named(scoped(self.name@, pipeline.label@), self.source@),
    {
        self.called(self.scoped_name(pipeline))
    }

    /// The corpus to ingest under its own name, where the pipeline is stamped
    /// on every chunk instead.
    pub fn unscoped_corpus(&self) -> (r: IngestCorpus)
        ensures
            r.is_named(self.name@, self.source@),
    {
        self.called(self.name.clone())
    }
}

// ── One entry ───────────────────────────────────────────────────────────────

/// What an entry asks for.
enum Entry {
    Fixtures { name: String, format: String },
    Mock { name: String, count: usize },
    Folder { name: String, path: String },
}

/// What an entry asks for: a fixture set, synthetic documents or a directory.
pub enum EntryView {
    Fixtures { name: Seq<char>, format: Seq<char> },
    Mock { name: Seq<char>, count: usize },
    Folder { name: Seq<char>, path: Seq<char> },
}

impl View for Entry {
    type V = EntryView;

    closed spec fn view(&self) -> EntryView {
        match self {
            Entry::Fixtures { name, format } => EntryView::Fixtures {
                name: name@,
                format: format@,
            },
            Entry::Mock { name, count } => EntryView::Mock { name: name@, count: *count },
            Entry::Folder { name, path } => EntryView::Folder { name: name@, path: path@ },
        }
    }
}

/// The size of the synthetic corpus of the entry `spec`, written as `count`.
pub open spec fn mock_entry(name: Seq<char>, count: Seq<char>, spec: Seq<char>) -> Result<
    EntryView,
    BenchErrorView,
> {
    match parsed_usize(count) {
        Ok(n) => Ok(EntryView::Mock { name, count: n as usize }),
        Err(reason) => Err(BenchErrorView::MockCorpusSize { count, spec, reason }),
    }
}

/// What the entry `spec` asks for.  Without `mocks` an entry cannot ask for
/// synthetic documents: `@mock/` starts a path like any other.
pub open spec fn entry(spec: Seq<char>, mocks: bool) -> Result<EntryView, BenchErrorView> {
    match split_once(spec, seq!['=']) {
        None => Err(BenchErrorView::MalformedCorpus { spec }),
        Some((name, raw)) => match after_prefix(raw, "@fixtures/"@) {
            Some(format) => Ok(EntryView::Fixtures { name, format }),
            None => match after_prefix(raw, "@mock/"@) {
                Some(count) => if mocks {
                    mock_entry(name, count, spec)
                } else {
                    Ok(EntryView::Folder { name, path: raw })
                },
                None => Ok(EntryView::Folder { name, path: raw }),
            },
        },
    }
}

fn read_entry(spec: &String, mocks: bool) -> (r: Result<Entry, BenchError>)
    ensures
        match r {
            Ok(e) => entry(spec@, mocks) == Ok::<EntryView, BenchErrorView>(e@),
            Err(e) => entry(spec@, mocks) == Err::<EntryView, BenchErrorView>(e@),
        },
{
    match split_at_first(spec.as_str(), '=') {
        None => Err(BenchError::MalformedCorpus { spec: spec.clone() }),
        Some((name, raw)) => {
            if let Some(format) = strip_prefix(raw.as_str(), "@fixtures/") {
                return Ok(Entry::Fixtures { name, format });
            }
            if mocks {
                if let Some(count) = strip_prefix(raw.as_str(), "@mock/") {
                    return match parse_usize(count.as_str()) {
                        Ok(n) => Ok(Entry::Mock { name, count: n }),
                        Err(reason) => Err(
                            BenchError::MockCorpusSize { count, spec: spec.clone(), reason },
                        ),
                    };
                }
            }
            Ok(Entry::Folder { name, path: raw })
        },
    }
}

// ── All entries ─────────────────────────────────────────────────────────────

/// How far resolution came.
#[derive(Debug)]
pub enum Progress {
    /// Every entry is resolved.
    Complete,
    /// The next entry needs this fixture set extracted.
    NeedsFixtures { format: String },
    /// The next entry cannot be resolved.
    Failed(BenchError),
}

/// [`Progress`] with its texts as character sequences.
pub enum ProgressView {
    Complete,
    NeedsFixtures { format: Seq<char> },
    Failed(BenchErrorView),
}

impl View for Progress {
    type V = ProgressView;

    open spec fn view(&self) -> ProgressView {
        match self {
            Progress::Complete => ProgressView::Complete,
            Progress::NeedsFixtures { format } => ProgressView::NeedsFixtures { format: format@ },
            Progress::Failed(e) => ProgressView::Failed(e@),
        }
    }
}

/// The corpora resolved so far, the notes for the log, and how far it came.
#[derive(Debug)]
pub struct Resolution {
    pub corpora: Vec<ResolvedCorpus>,
    pub notes: Vec<String>,
    /// How many extractions are in use.
    pub used: usize,
    pub progress: Progress,
}

/// A [`Resolution`] with its texts as character sequences.
pub struct ResolutionView {
    pub corpora: Seq<ResolvedCorpusView>,
    pub notes: Seq<Seq<char>>,
    pub used: nat,
    pub progress: ProgressView,
}

impl View for Resolution {
    type V = ResolutionView;

    open spec fn view(&self) -> ResolutionView {
        ResolutionView {
            corpora: corpus_views(self.corpora@),
            notes: texts(self.notes@),
            used: self.used as nat,
            progress: self.progress@,
        }
    }
}

/// The note on an extracted fixture set.
pub open spec fn fixtures_note(format: Seq<char>, path: Seq<char>) -> Seq<char> {
    "  Extracted "@ + format + " fixtures → "@ + path
}

/// The note on a synthetic corpus.
pub open spec fn mock_note(name: Seq<char>, count: nat) -> Seq<char> {
    "  Mock corpus '"@ + name + "': "@ + decimal(count) + " synthetic documents."@
}

/// A resolution with one more corpus and perhaps a note on it.
pub open spec fn resolved_further(
    r: ResolutionView,
    corpus: ResolvedCorpusView,
    note: Option<Seq<char>>,
) -> ResolutionView {
    ResolutionView {
        corpora: r.corpora.push(corpus),
        notes: match note {
            Some(text) => r.notes.push(text),
            None => r.notes,
        },
        used: if corpus.extraction is Some {
            r.used + 1
        } else {
            r.used
        },
        progress: ProgressView::Complete,
    }
}

/// A resolution that stopped.
pub open spec fn stopped(r: ResolutionView, progress: ProgressView) -> ResolutionView {
    ResolutionView { corpora: r.corpora, notes: r.notes, used: r.used, progress }
}

/// A resolution after the entry `spec`, with the directories `extracted` at
/// hand.  One that stopped stays where it is.
pub open spec fn after_entry(
    r: ResolutionView,
    spec: Seq<char>,
    mocks: bool,
    extracted: Seq<Seq<char>>,
) -> ResolutionView {
    if r.progress !is Complete {
        r
    } else {
        match entry(spec, mocks) {
            Err(e) => stopped(r, ProgressView::Failed(e)),
            Ok(EntryView::Fixtures { name, format }) => if r.used < extracted.len() {
                resolved_further(
                    r,
                    ResolvedCorpusView {
                        name,
                        source: CorpusSourceView::Folder(extracted[r.used as int]),
                        extraction: Some(r.used as usize),
                    },
                    Some(fixtures_note(format, extracted[r.used as int])),
                )
            } else {
                stopped(r, ProgressView::NeedsFixtures { format })
            },
            Ok(EntryView::Mock { name, count }) => resolved_further(
                r,
                ResolvedCorpusView {
                    name,
                    source: CorpusSourceView::Mock(count),
                    extraction: None,
                },
                Some(mock_note(name, count as nat)),
            ),
            Ok(EntryView::Folder { name, path }) => resolved_further(
                r,
                ResolvedCorpusView {
                    name,
                    source: CorpusSourceView::Folder(path),
                    extraction: None,
                },
                None,
            ),
        }
    }
}

/// The resolution of the entries in order, with the directories `extracted`
/// at hand: each fixture set takes the next of them.
pub open spec fn resolution(
    specs: Seq<Seq<char>>,
    mocks: bool,
    extracted: Seq<Seq<char>>,
) -> ResolutionView
    decreases specs.len(),
{
    if specs.len() == 0 {
        ResolutionView {
            corpora: Seq::empty(),
            notes: Seq::empty(),
            used: 0,
            progress: ProgressView::Complete,
        }
    } else {
        after_entry(
            resolution(specs.drop_last(), mocks, extracted),
            specs.last(),
            mocks,
            extracted,
        )
    }
}

proof fn lemma_stopped_stays(
    specs: Seq<Seq<char>>,
    n: int,
    mocks: bool,
    extracted: Seq<Seq<char>>,
)
    requires
        0 <= n <= specs.len(),
        resolution(specs.take(n), mocks, extracted).progress !is Complete,
    ensures
        resolution(specs, mocks, extracted) == resolution(specs.take(n), mocks, extracted),
    decreases specs.len() - n,
{
    if n == specs.len() {
        assert(specs.take(n) =~= specs);
    } else {
        assert(specs.take(n + 1).drop_last() =~= specs.take(n));
        lemma_stopped_stays(specs, n + 1, mocks, extracted);
    }
}

proof fn lemma_used_is_bounded(specs: Seq<Seq<char>>, mocks: bool, extracted: Seq<Seq<char>>)
    ensures
        resolution(specs, mocks, extracted).used <= extracted.len(),
    decreases specs.len(),
{
    if specs.len() > 0 {
        lemma_used_is_bounded(specs.drop_last(), mocks, extracted);
    }
}

fn note_fixtures(format: &str, path: &str) -> (r: String)
    ensures
        r@ == fixtures_note(format@, path@),
{
    let mut note: String = String::from_str("  Extracted ");
    note.append(format);
    note.append(" fixtures → ");
    note.append(path);
    note
}

fn note_mock(name: &str, count: usize) -> (r: String)
    ensures
        r@ == mock_note(name@, count as nat),
{
    let mut note: String = String::from_str("  Mock corpus '");
    note.append(name);
    note.append("': ");
    note.append(decimal_of(count).as_str());
    note.append(" synthetic documents.");
    note
}

fn resolve_with(specs: &[String], mocks: bool, extracted: &[String]) -> (r: Resolution)
    ensures
        r@ == resolution(texts(specs@), mocks, texts(extracted@)),
{
    let ghost all = texts(specs@);
    let ghost at_hand = texts(extracted@);
    let mut r: Resolution = Resolution {
        corpora: Vec::new(),
        notes: Vec::new(),
        used: 0,
        progress: Progress::Complete,
    };
    let mut i: usize = 0;
    proof {
        assert(corpus_views(r.corpora@) =~= Seq::empty());
        assert(texts(r.notes@) =~= Seq::empty());
        assert(r@ == resolution(all.take(0), mocks, at_hand));
    }
    while i < specs.len()
        invariant
            i <= specs@.len(),
            all == texts(specs@),
            at_hand == texts(extracted@),
            r@ == resolution(all.take(i as int), mocks, at_hand),
            r.progress is Complete,
        decreases specs@.len() - i,
    {
        let ghost before = r@;
        proof {
            assert(all.take(i + 1).drop_last() =~= all.take(i as int));
            assert(all.take(i + 1).last() == specs@[i as int]@);
            lemma_used_is_bounded(all.take(i as int), mocks, at_hand);
        }
        let (name, source, extraction, note): (
            String,
            CorpusSource,
            Option<usize>,
            Option<String>,
        ) = match read_entry(&specs[i], mocks) {
            Err(e) => {
                r.progress = Progress::Failed(e);
                proof {
                    assert(r@ == resolution(all.take(i + 1), mocks, at_hand));
                    lemma_stopped_stays(all, i + 1, mocks, at_hand);
                }
                return r;
            },
            Ok(Entry::Fixtures { name, format }) => {
                if r.used >= extracted.len() {
                    r.progress = Progress::NeedsFixtures { format };
                    proof {
                        assert(r@ == resolution(all.take(i + 1), mocks, at_hand));
                        lemma_stopped_stays(all, i + 1, mocks, at_hand);
                    }
                    return r;
                }
                let path: String = extracted[r.used].clone();
                let note: String = note_fixtures(format.as_str(), path.as_str());
                (name, CorpusSource::Folder(path), Some(r.used), Some(note))
            },
            Ok(Entry::Mock { name, count }) => {
                let note: String = note_mock(name.as_str(), count);
                (name, CorpusSource::Mock(count), None, Some(note))
            },
            Ok(Entry::Folder { name, path }) => (name, CorpusSource::Folder(path), None, None),
        };
        let ghost corpus = ResolvedCorpusView { name: name@, source: source@, extraction };
        let ghost text = opt_text(note);
        assert(resolution(all.take(i + 1), mocks, at_hand) == resolved_further(
            before,
            corpus,
            text,
        ));
        if extraction.is_some() {
            r.used = r.used + 1;
        }
        r.corpora.push(ResolvedCorpus { name, source, extraction });
        assert(corpus_views(r.corpora@) =~= before.corpora.push(corpus));
        if let Some(line) = note {
            r.notes.push(line);
            assert(texts(r.notes@) =~= before.notes.push(line@));
        }
        i += 1;
    }
    assert(all.take(i as int) =~= all);
    r
}

/// Resolves the `name=path` entries in order.  `@fixtures/<format>` takes the
/// next of the directories in `extracted`, and resolution stops where there
/// is none left; `@mock/<n>` stands for `n` synthetic documents.
pub fn resolve_corpora(specs: &[String], extracted: &[String]) -> (r: Resolution)
    ensures
        r@ == resolution(texts(specs@), true, texts(extracted@)),
{
    resolve_with(specs, true, extracted)
}

/// Resolves the `name=path` entries in order as [`resolve_corpora`] does, but
/// without synthetic documents: every path that names no fixture set is a
/// directory.
pub fn resolve_folder_corpora(specs: &[String], extracted: &[String]) -> (r: Resolution)
    ensures
        r@ == resolution(texts(specs@), false, texts(extracted@)),
{
    resolve_with(specs, false, extracted)
}

// ── Laws ────────────────────────────────────────────────────────────────────

proof fn lemma_resolved_names(
    specs: Seq<Seq<char>>,
    mocks: bool,
    extracted: Seq<Seq<char>>,
)
    requires
        resolution(specs, mocks, extracted).progress is Complete,
    ensures
        ({
            let r = resolution(specs, mocks, extracted);
            &&& r.corpora.len() == specs.len()
            &&& forall|i: int|
                0 <= i < specs.len() ==> name_of_corpus(specs[i]) == Ok::<Seq<char>, BenchErrorView>(
                    (#[trigger] r.corpora[i]).name,
                )
        }),
    decreases specs.len(),
{
    if specs.len() > 0 {
        let before = specs.drop_last();
        lemma_resolved_names(before, mocks, extracted);
        let r = resolution(specs, mocks, extracted);
        assert forall|i: int| 0 <= i < specs.len() implies name_of_corpus(specs[i]) == Ok::<
            Seq<char>,
            BenchErrorView,
        >((#[trigger] r.corpora[i]).name) by {
            if i < before.len() {
                let earlier = resolution(before, mocks, extracted);
                assert(earlier.corpora[i] == r.corpora[i]);
                assert(before[i] == specs[i]);
            }
        }
    }
}

/// A complete resolution has one corpus per entry, in order, under the name
/// that interaction derives from the same entry.
pub proof fn law_both_sides_agree_on_corpora(
    specs: Seq<Seq<char>>,
    mocks: bool,
    extracted: Seq<Seq<char>>,
)
    requires
        resolution(specs, mocks, extracted).progress is Complete,
    ensures
        names_of_corpora(specs) is Ok,
        names_of_corpora(specs)->Ok_0 == Seq::new(
            specs.len(),
            |i: int| resolution(specs, mocks, extracted).corpora[i].name,
        ),
        resolution(specs, mocks, extracted).corpora.len() == specs.len(),
{
    lemma_resolved_names(specs, mocks, extracted);
    let r = resolution(specs, mocks, extracted);
    let results = Seq::new(specs.len(), |i: int| name_of_corpus(specs[i]));
    assert forall|i: int| 0 <= i < results.len() implies (#[trigger] results[i]) is Ok by {
        assert(r.corpora[i].name == r.corpora[i].name);
    }
    lemma_collected_values(results);
    assert forall|i: int| 0 <= i < specs.len() implies names_of_corpora(specs)->Ok_0[i]
        == r.corpora[i].name by {
        assert(results[i] == Ok::<Seq<char>, BenchErrorView>(collected(results)->Ok_0[i]));
    }
    assert(names_of_corpora(specs)->Ok_0 =~= Seq::new(specs.len(), |i: int| r.corpora[i].name));
}

/// Going on with more extractions keeps what was resolved: the corpora and the
/// notes are the earlier ones, with more behind them where there was a stop
/// for want of an extraction.
pub proof fn law_resolution_resumes(
    specs: Seq<Seq<char>>,
    mocks: bool,
    extracted: Seq<Seq<char>>,
    more: Seq<Seq<char>>,
)
    ensures
        resolution(specs, mocks, extracted).corpora.is_prefix_of(
            resolution(specs, mocks, extracted + more).corpora,
        ),
        resolution(specs, mocks, extracted).notes.is_prefix_of(
            resolution(specs, mocks, extracted + more).notes,
        ),
        resolution(specs, mocks, extracted).progress !is NeedsFixtures ==> resolution(
            specs,
            mocks,
            extracted + more,
        ) == resolution(specs, mocks, extracted),
    decreases specs.len(),
{
    if specs.len() > 0 {
        let before = specs.drop_last();
        law_resolution_resumes(before, mocks, extracted, more);
        lemma_used_is_bounded(before, mocks, extracted);
        let a = resolution(before, mocks, extracted);
        let b = resolution(before, mocks, extracted + more);
        if a.progress is Complete {
            assert(a == b);
            if a.used < extracted.len() {
                assert((extracted + more)[a.used as int] == extracted[a.used as int]);
            }
        }
    }
}

/// The extractions are taken in order: the fixture sets of a resolution are
/// numbered from zero, and each lives in the directory of its number.
pub proof fn law_extractions_are_taken_in_order(
    specs: Seq<Seq<char>>,
    mocks: bool,
    extracted: Seq<Seq<char>>,
    i: int,
)
    requires
        0 <= i < resolution(specs, mocks, extracted).corpora.len(),
        extracted.len() <= usize::MAX,
    ensures
        ({
            let r = resolution(specs, mocks, extracted);
            match r.corpora[i].extraction {
                Some(k) => k < r.used <= extracted.len() && r.corpora[i].source
                    == CorpusSourceView::Folder(extracted[k as int]) && forall|j: int|
                    0 <= j < i && (#[trigger] r.corpora[j]).extraction is Some
                        ==> r.corpora[j].extraction->0 < k,
                None => true,
            }
        }),
    decreases specs.len(),
{
    lemma_used_is_bounded(specs, mocks, extracted);
    if specs.len() > 0 {
        let before = specs.drop_last();
        let a = resolution(before, mocks, extracted);
        let r = resolution(specs, mocks, extracted);
        lemma_used_is_bounded(before, mocks, extracted);
        if i < a.corpora.len() {
            law_extractions_are_taken_in_order(before, mocks, extracted, i);
            assert(r.corpora[i] == a.corpora[i]);
            assert forall|j: int| 0 <= j < i implies (#[trigger] r.corpora[j]) == a.corpora[j] by {}
        } else {
            assert forall|j: int|
                0 <= j < i && (#[trigger] r.corpora[j]).extraction is Some implies r.corpora[j].extraction->0
                < a.used by {
                law_extractions_are_taken_in_order(before, mocks, extracted, j);
                assert(r.corpora[j] == a.corpora[j]);
            }
        }
    }
}

} // verus!
