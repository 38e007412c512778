//! What resolving corpus entries promises, entry by entry.

use vstd::prelude::*;
use crate::corpora::{
    resolution, CorpusSource, CorpusSourceView, IngestCorpus, Progress, ProgressView, Resolution,
    ResolvedCorpus, ResolvedCorpusView,
};
use crate::error::BenchErrorView;
use crate::number::{decimal, digit_value, parsed_usize, read_digits};
use crate::text::{after_prefix, occurs_at};
use crate::text_laws::{law_prefixes_come_off, law_split_at_the_first};

verus! {

// ── Views ───────────────────────────────────────────────────────────────────

/// A resolved corpus is seen with its own name, source and extraction.
pub proof fn law_resolved_corpora_are_seen_as_they_are(c: ResolvedCorpus)
    ensures
        c@.name == c.name@,
        c@.extraction == c.extraction,
        c.source matches CorpusSource::Folder(path) ==> c@.source == CorpusSourceView::Folder(
            path@,
        ),
        c.source matches CorpusSource::Mock(count) ==> c@.source == CorpusSourceView::Mock(count),
{
}

/// A resolution is seen with its corpora and notes in order, and with how far
/// it came.
pub proof fn law_resolutions_are_seen_as_they_are(r: Resolution, i: int)
    ensures
        r@.corpora.len() == r.corpora@.len(),
        0 <= i < r.corpora@.len() ==> r@.corpora[i] == r.corpora@[i]@,
        r@.notes.len() == r.notes@.len(),
        0 <= i < r.notes@.len() ==> r@.notes[i] == r.notes@[i]@,
        r@.used == r.used,
        r.progress is Complete <==> r@.progress is Complete,
        r.progress matches Progress::NeedsFixtures { format } ==> r@.progress
            == (ProgressView::NeedsFixtures { format: format@ }),
        r.progress matches Progress::Failed(e) ==> r@.progress == ProgressView::Failed(e@),
{
}

/// A corpus to ingest has the name that was asked for and the documents of the
/// source: the same directory, or as many synthetic documents.
pub proof fn law_ingested_corpora_keep_their_source(
    c: IngestCorpus,
    name: Seq<char>,
    source: CorpusSourceView,
)
    requires
        c.is_named(name, source),
    ensures
        source matches CorpusSourceView::Folder(from) ==> (c matches IngestCorpus::Folder {
            name: n,
            path,
        } && n@ == name && path@ == from),
        source matches CorpusSourceView::Mock(count) ==> (c matches IngestCorpus::Mock(m)
            && m.name@ == name && m.count == count),
{
}

// ── One entry ───────────────────────────────────────────────────────────────

/// The last of several entries, written as a name, an equals sign and a path,
/// where the entries before it are resolved.
pub open spec fn last_is(
    specs: Seq<Seq<char>>,
    mocks: bool,
    extracted: Seq<Seq<char>>,
    name: Seq<char>,
    path: Seq<char>,
) -> bool {
    &&& specs.len() > 0
    &&& specs[specs.len() - 1] == name + seq!['='] + path
    &&& forall|i: int| 0 <= i < name.len() ==> #[trigger] name[i] != '='
    &&& resolution(specs.drop_last(), mocks, extracted).progress is Complete
}

/// The path names neither fixtures nor synthetic documents.
pub open spec fn names_a_directory(path: Seq<char>) -> bool {
    &&& forall|rest: Seq<char>| path != "@fixtures/"@ + rest
    &&& forall|rest: Seq<char>| path != "@mock/"@ + rest
}

proof fn lemma_other_start(a: Seq<char>, b: Seq<char>)
    ensures
        after_prefix("@mock/"@ + a, "@fixtures/"@) is None,
        after_prefix("@fixtures/"@ + b, "@mock/"@) is None,
{
    reveal_strlit("@mock/");
    reveal_strlit("@fixtures/");
    let m = "@mock/"@ + a;
    let f = "@fixtures/"@ + b;
    assert(m[1] == 'm');
    assert(f[1] == 'f');
    if occurs_at(m, "@fixtures/"@, 0) {
        assert(m.subrange(0, 10)[1] == m[1]);
    }
    if occurs_at(f, "@mock/"@, 0) {
        assert(f.subrange(0, 6)[1] == f[1]);
    }
}

proof fn lemma_no_prefix(path: Seq<char>, prefix: Seq<char>)
    requires
        forall|rest: Seq<char>| path != prefix + rest,
    ensures
        after_prefix(path, prefix) is None,
{
    law_prefixes_come_off(path, prefix, Seq::empty());
    if after_prefix(path, prefix) is Some {
        assert(path == prefix + after_prefix(path, prefix)->0);
    }
}

/// A directory is taken as it is written, character for character, and there
/// is nothing to note about it.
pub proof fn law_directories_are_taken_as_written(
    specs: Seq<Seq<char>>,
    mocks: bool,
    extracted: Seq<Seq<char>>,
    name: Seq<char>,
    path: Seq<char>,
)
    requires
        last_is(specs, mocks, extracted, name, path),
        names_a_directory(path),
    ensures
        ({
            let before = resolution(specs.drop_last(), mocks, extracted);
            let r = resolution(specs, mocks, extracted);
            &&& r.progress is Complete
            &&& r.corpora == before.corpora.push(
                ResolvedCorpusView {
                    name,
                    source: CorpusSourceView::Folder(path),
                    extraction: None,
                },
            )
            &&& r.notes == before.notes
            &&& r.used == before.used
        }),
{
    law_split_at_the_first(name, '=', path);
    lemma_no_prefix(path, "@fixtures/"@);
    lemma_no_prefix(path, "@mock/"@);
}

/// Where there are no synthetic documents, a path that would name them is a
/// directory like any other.
pub proof fn law_without_mocks_they_are_directories(
    specs: Seq<Seq<char>>,
    extracted: Seq<Seq<char>>,
    name: Seq<char>,
    count: Seq<char>,
)
    requires
        last_is(specs, false, extracted, name, "@mock/"@ + count),
    ensures
        ({
            let before = resolution(specs.drop_last(), false, extracted);
            let r = resolution(specs, false, extracted);
            &&& r.progress is Complete
            &&& r.corpora == before.corpora.push(
                ResolvedCorpusView {
                    name,
                    source: CorpusSourceView::Folder("@mock/"@ + count),
                    extraction: None,
                },
            )
            &&& r.notes == before.notes
            &&& r.used == before.used
        }),
{
    law_split_at_the_first(name, '=', "@mock/"@ + count);
    lemma_other_start(count, Seq::empty());
    law_prefixes_come_off("@mock/"@ + count, "@mock/"@, count);
}

/// As many synthetic documents are taken as the number behind `@mock/` says,
/// with a note on them; where that is no number, resolution fails and says
/// which entry it was and why.
pub proof fn law_mock_entries_say_how_many(
    specs: Seq<Seq<char>>,
    extracted: Seq<Seq<char>>,
    name: Seq<char>,
    count: Seq<char>,
)
    requires
        last_is(specs, true, extracted, name, "@mock/"@ + count),
    ensures
        ({
            let before = resolution(specs.drop_last(), true, extracted);
            let r = resolution(specs, true, extracted);
            &&& r.used == before.used
            &&& match parsed_usize(count) {
                Ok(n) => {
                    &&& r.progress is Complete
                    &&& r.corpora == before.corpora.push(
                        ResolvedCorpusView {
                            name,
                            source: CorpusSourceView::Mock(n as usize),
                            extraction: None,
                        },
                    )
                    &&& n <= usize::MAX
                    &&& r.notes == before.notes.push(
                        "  Mock corpus '"@ + name + "': "@ + decimal(n) + " synthetic documents."@,
                    )
                },
                Err(reason) => {
                    &&& r.corpora == before.corpora
                    &&& r.notes == before.notes
                    &&& r.progress == ProgressView::Failed(
                        BenchErrorView::MockCorpusSize {
                            count,
                            spec: name + seq!['='] + ("@mock/"@ + count),
                            reason,
                        },
                    )
                },
            }
        }),
{
    law_split_at_the_first(name, '=', "@mock/"@ + count);
    lemma_other_start(count, Seq::empty());
    law_prefixes_come_off("@mock/"@ + count, "@mock/"@, count);
    lemma_parsed_is_bounded(count);
}

proof fn lemma_parsed_is_bounded(s: Seq<char>)
    ensures
        parsed_usize(s) matches Ok(n) ==> n <= usize::MAX,
{
    if s.len() > 1 && s[0] == '+' {
        lemma_read_is_bounded(s.drop_first(), 0);
    } else if s.len() > 0 {
        lemma_read_is_bounded(s, 0);
    }
}

proof fn lemma_read_is_bounded(s: Seq<char>, so_far: nat)
    requires
        so_far <= usize::MAX,
    ensures
        read_digits(s, so_far) matches Ok(n) ==> n <= usize::MAX,
    decreases s.len(),
{
    if s.len() > 0 {
        match digit_value(s[0]) {
            None => {},
            Some(d) => {
                if so_far * 10 + d <= usize::MAX {
                    lemma_read_is_bounded(s.drop_first(), so_far * 10 + d);
                }
            },
        }
    }
}

/// A fixture set lives in the next directory that was extracted and not used
/// yet, with a note on it; where there is none, resolution stops and says which
/// format it needs.
pub proof fn law_fixture_entries_take_the_next_extraction(
    specs: Seq<Seq<char>>,
    mocks: bool,
    extracted: Seq<Seq<char>>,
    name: Seq<char>,
    format: Seq<char>,
)
    requires
        last_is(specs, mocks, extracted, name, "@fixtures/"@ + format),
    ensures
        ({
            let before = resolution(specs.drop_last(), mocks, extracted);
            let r = resolution(specs, mocks, extracted);
            let k = before.used;
            if k < extracted.len() {
                &&& r.progress is Complete
                &&& r.used == k + 1
                &&& r.corpora == before.corpora.push(
                    ResolvedCorpusView {
                        name,
                        source: CorpusSourceView::Folder(extracted[k as int]),
                        extraction: Some(k as usize),
                    },
                )
                &&& r.notes == before.notes.push(
                    "  Extracted "@ + format + " fixtures → "@ + extracted[k as int],
                )
            } else {
                &&& r.progress == (ProgressView::NeedsFixtures { format })
                &&& r.used == k
                &&& r.corpora == before.corpora
                &&& r.notes == before.notes
            }
        }),
{
    law_split_at_the_first(name, '=', "@fixtures/"@ + format);
    law_prefixes_come_off("@fixtures/"@ + format, "@fixtures/"@, format);
}

/// An entry without an equals sign fails, with itself in the error; what was
/// resolved before it stays.
pub proof fn law_malformed_entries_fail(
    specs: Seq<Seq<char>>,
    mocks: bool,
    extracted: Seq<Seq<char>>,
)
    requires
        specs.len() > 0,
        forall|i: int|
            0 <= i < specs[specs.len() - 1].len() ==> #[trigger] specs[specs.len() - 1][i] != '=',
        resolution(specs.drop_last(), mocks, extracted).progress is Complete,
    ensures
        ({
            let before = resolution(specs.drop_last(), mocks, extracted);
            let r = resolution(specs, mocks, extracted);
            &&& r.progress == ProgressView::Failed(
                BenchErrorView::MalformedCorpus { spec: specs[specs.len() - 1] },
            )
            &&& r.corpora == before.corpora
            &&& r.notes == before.notes
            &&& r.used == before.used
        }),
{
    law_split_at_the_first(specs[specs.len() - 1], '=', Seq::empty());
}

/// Nothing is resolved behind an entry that stopped the resolution, and without
/// entries there is nothing to resolve.
pub proof fn law_a_stop_is_final(specs: Seq<Seq<char>>, mocks: bool, extracted: Seq<Seq<char>>)
    ensures
        specs.len() > 0 && resolution(specs.drop_last(), mocks, extracted).progress !is Complete
            ==> resolution(specs, mocks, extracted) == resolution(
            specs.drop_last(),
            mocks,
            extracted,
        ),
        specs.len() == 0 ==> ({
            let r = resolution(specs, mocks, extracted);
            r.corpora.len() == 0 && r.notes.len() == 0 && r.used == 0 && r.progress is Complete
        }),
{
}

} // verus!
