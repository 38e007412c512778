//! What is logged while indexing and asking.

use vstd::prelude::*;
use vstd::string::StringExecFns;
use vstd::utf8::{
    decode_utf8, decode_utf8_encode_utf8, decode_utf8_split, encode_scalar, encode_utf8,
    encode_utf8_decode_utf8, encode_utf8_valid_utf8, is_char_boundary, valid_utf8_split,
};
use crate::number::{decimal, decimal_of};
use crate::text::{chars_of, string_of};

verus! {

// ── Questions ───────────────────────────────────────────────────────────────

/// How many bytes of a question are shown while it is asked.
pub const EXCERPT_BYTES: usize = 60;

/// The start of a question as it is shown: its longest prefix of at most so
/// many bytes.
pub open spec fn excerpt_text(question: Seq<char>) -> Seq<char>
    decreases question.len(),
{
    if question.len() == 0 || encode_utf8(question).len() <= EXCERPT_BYTES {
        question
    } else {
        excerpt_text(question.drop_last())
    }
}

proof fn lemma_encode_push(s: Seq<char>, c: char)
    ensures
        encode_utf8(s.push(c)) == encode_utf8(s) + encode_scalar(c as u32),
    decreases s.len(),
{
    let t = s.push(c);
    reveal_with_fuel(encode_utf8, 2);
    if s.len() == 0 {
        assert(t.drop_first() =~= s);
        assert(encode_utf8(t) =~= encode_utf8(s) + encode_scalar(c as u32));
    } else {
        assert(t.drop_first() =~= s.drop_first().push(c));
        lemma_encode_push(s.drop_first(), c);
        assert(t[0] == s[0]);
        assert(encode_utf8(t) =~= encode_utf8(s) + encode_scalar(c as u32));
    }
}

proof fn lemma_longer_prefix_has_more_bytes(s: Seq<char>, m: int, n: int)
    requires
        0 <= m <= n <= s.len(),
    ensures
        encode_utf8(s.take(m)).len() + (n - m) <= encode_utf8(s.take(n)).len(),
    decreases n - m,
{
    if m < n {
        lemma_longer_prefix_has_more_bytes(s, m, n - 1);
        assert(s.take(n) =~= s.take(n - 1).push(s[n - 1]));
        lemma_encode_push(s.take(n - 1), s[n - 1]);
    }
}

/// The excerpt, by its length: a prefix that is short enough, while one
/// character more would be too long.
proof fn lemma_excerpt(question: Seq<char>, n: int)
    requires
        0 <= n <= question.len(),
        encode_utf8(question.take(n)).len() <= EXCERPT_BYTES,
        n < question.len() ==> encode_utf8(question.take(n + 1)).len() > EXCERPT_BYTES,
    ensures
        excerpt_text(question) == question.take(n),
    decreases question.len(),
{
    if n == question.len() {
        assert(question.take(n) =~= question);
    } else {
        let shorter = question.drop_last();
        lemma_longer_prefix_has_more_bytes(question, n + 1, question.len() as int);
        assert(question.take(question.len() as int) =~= question);
        assert(shorter.take(n) =~= question.take(n));
        if n < shorter.len() {
            assert(shorter.take(n + 1) =~= question.take(n + 1));
        }
        lemma_excerpt(shorter, n);
    }
}

/// How many bytes a character takes.
fn width(c: char) -> (r: usize)
    ensures
        r == encode_scalar(c as u32).len(),
        1 <= r <= 4,
{
    let n: u32 = c as u32;
    if n <= 0x7F {
        1
    } else if n <= 0x7FF {
        2
    } else if n <= 0xFFFF {
        3
    } else {
        4
    }
}

/// The start of a question.
pub fn excerpt(question: &str) -> (r: String)
    ensures
        r@ == excerpt_text(question@),
{
    let chars: Vec<char> = chars_of(question);
    let n: usize = chars.len();
    let mut bytes: usize = 0;
    let mut i: usize = 0;
    assert(chars@.take(0) =~= Seq::empty());
    while i < n
        invariant
            i <= n == chars@.len(),
            chars@ == question@,
            bytes == encode_utf8(chars@.take(i as int)).len(),
            bytes <= EXCERPT_BYTES,
        decreases n - i,
    {
        let next: usize = bytes + width(chars[i]);
        proof {
            assert(chars@.take(i + 1) =~= chars@.take(i as int).push(chars@[i as int]));
            lemma_encode_push(chars@.take(i as int), chars@[i as int]);
        }
        if next > EXCERPT_BYTES {
            proof {
                lemma_excerpt(chars@, i as int);
            }
            return string_of(&chars, 0, i);
        }
        bytes = next;
        i += 1;
    }
    proof {
        lemma_excerpt(chars@, n as int);
    }
    string_of(&chars, 0, n)
}

/// A question that is asked at some place.
pub open spec fn asking_text(place: Seq<char>, question: Seq<char>) -> Seq<char> {
    "  "@ + place + " ← \""@ + excerpt_text(question) + "\""@
}

fn write_asking(place: &str, question: &str) -> (r: String)
    ensures
        r@ == asking_text(place@, question@),
{
    let mut r: String = String::from_str("  ");
    r.append(place);
    r.append(" ← \"");
    r.append(excerpt(question).as_str());
    r.append("\"");
    r
}

/// A query is asked of one agent, pipeline and corpus.
pub fn asking_query(agent: &str, pipeline: &str, corpus: &str, question: &str) -> (r: String)
    ensures
        r@ == asking_text(agent@ + " / "@ + pipeline@ + " / "@ + corpus@, question@),
{
    let mut place: String = String::from_str(agent);
    place.append(" / ");
    place.append(pipeline);
    place.append(" / ");
    place.append(corpus);
    write_asking(place.as_str(), question)
}

/// A query is asked of one agent, pipeline, corpus and ranker.
pub fn asking_ranked_query(
    agent: &str,
    pipeline: &str,
    corpus: &str,
    ranker: &str,
    question: &str,
) -> (r: String)
    ensures
        r@ == asking_text(
            agent@ + " / "@ + pipeline@ + " / "@ + corpus@ + " / "@ + ranker@,
            question@,
        ),
{
    let mut place: String = String::from_str(agent);
    place.append(" / ");
    place.append(pipeline);
    place.append(" / ");
    place.append(corpus);
    place.append(" / ");
    place.append(ranker);
    write_asking(place.as_str(), question)
}

/// A message of a chat is sent to one agent on one corpus.
pub fn asking_chat(agent: &str, corpus: &str, question: &str) -> (r: String)
    ensures
        r@ == asking_text(agent@ + " / "@ + corpus@, question@),
{
    let mut place: String = String::from_str(agent);
    place.append(" / ");
    place.append(corpus);
    write_asking(place.as_str(), question)
}

/// The excerpt is a prefix of the question and is short enough; no prefix that
/// is short enough is longer; a question that is short enough is shown whole.
pub proof fn law_excerpt_is_the_longest_prefix(question: Seq<char>, n: int)
    requires
        0 <= n <= question.len(),
    ensures
        excerpt_text(question).is_prefix_of(question),
        encode_utf8(excerpt_text(question)).len() <= EXCERPT_BYTES,
        encode_utf8(question.take(n)).len() <= EXCERPT_BYTES ==> question.take(n).is_prefix_of(
            excerpt_text(question),
        ),
        encode_utf8(question).len() <= EXCERPT_BYTES ==> excerpt_text(question) == question,
    decreases question.len(),
{
    if question.len() > 0 && encode_utf8(question).len() > EXCERPT_BYTES {
        let shorter = question.drop_last();
        assert(question.take(question.len() as int) =~= question);
        if n < question.len() {
            law_excerpt_is_the_longest_prefix(shorter, n);
            assert(shorter.take(n) =~= question.take(n));
        } else {
            law_excerpt_is_the_longest_prefix(shorter, 0);
        }
    } else {
        assert(question.take(n).is_prefix_of(question));
    }
}

/// Where the limit falls between two characters, the excerpt takes exactly so
/// many bytes: they are the first bytes of the question.
pub proof fn law_excerpt_fills_the_limit(question: Seq<char>)
    requires
        encode_utf8(question).len() >= EXCERPT_BYTES,
        is_char_boundary(encode_utf8(question), EXCERPT_BYTES as int),
    ensures
        encode_utf8(excerpt_text(question)) == encode_utf8(question).subrange(
            0,
            EXCERPT_BYTES as int,
        ),
{
    let bytes = encode_utf8(question);
    let k = EXCERPT_BYTES as int;
    encode_utf8_valid_utf8(question);
    encode_utf8_decode_utf8(question);
    valid_utf8_split(bytes, k);
    decode_utf8_split(bytes, k);
    let start = decode_utf8(bytes.subrange(0, k));
    decode_utf8_encode_utf8(bytes.subrange(0, k));
    let n = start.len() as int;
    assert(question.take(n) =~= start);
    if n < question.len() {
        lemma_longer_prefix_has_more_bytes(question, n, n + 1);
    }
    lemma_excerpt(question, n);
}

// ── Indexing ────────────────────────────────────────────────────────────────

/// The workspace with the embedder that its database is bound to.
pub open spec fn workspace_text(
    workspace: Seq<char>,
    backend: Seq<char>,
    model: Seq<char>,
    dimensions: nat,
) -> Seq<char> {
    "Workspace: "@ + workspace + " — embedder: "@ + backend + "/"@ + model + " ("@ + decimal(
        dimensions,
    ) + " dims)"@
}

/// The workspace with the embedder that its database is bound to.
pub fn workspace_line(workspace: &str, backend: &str, model: &str, dimensions: usize) -> (r: String)
    ensures
        r@ == workspace_text(workspace@, backend@, model@, dimensions as nat),
{
    let mut r: String = String::from_str("Workspace: ");
    r.append(workspace);
    r.append(" — embedder: ");
    r.append(backend);
    r.append("/");
    r.append(model);
    r.append(" (");
    r.append(decimal_of(dimensions).as_str());
    r.append(" dims)");
    r
}

/// The old database goes.
pub open spec fn reindex_text(database: Seq<char>) -> Seq<char> {
    "Reindex: removing existing vector database "@ + database + " …"@
}

/// The old database goes.
pub fn reindex_line(database: &str) -> (r: String)
    ensures
        r@ == reindex_text(database@),
{
    let mut r: String = String::from_str("Reindex: removing existing vector database ");
    r.append(database);
    r.append(" …");
    r
}

/// A pipeline takes on a corpus.
pub open spec fn ingesting_text(pipeline: Seq<char>, corpus: Seq<char>) -> Seq<char> {
    "Ingesting pipeline '"@ + pipeline + "' into corpus '"@ + corpus + "' …"@
}

/// A pipeline takes on a corpus.
pub fn ingesting_line(pipeline: &str, corpus: &str) -> (r: String)
    ensures
        r@ == ingesting_text(pipeline@, corpus@),
{
    let mut r: String = String::from_str("Ingesting pipeline '");
    r.append(pipeline);
    r.append("' into corpus '");
    r.append(corpus);
    r.append("' …");
    r
}

/// A pipeline takes on all corpora.
pub open spec fn indexing_text(pipeline: Seq<char>) -> Seq<char> {
    "Indexing pipeline '"@ + pipeline + "' …"@
}

/// A pipeline takes on all corpora.
pub fn indexing_line(pipeline: &str) -> (r: String)
    ensures
        r@ == indexing_text(pipeline@),
{
    let mut r: String = String::from_str("Indexing pipeline '");
    r.append(pipeline);
    r.append("' …");
    r
}

/// What the store holds after indexing.
pub open spec fn stored_text(stored: nat, indexed: nat) -> Seq<char> {
    "  "@ + decimal(stored) + " chunks in store ("@ + decimal(indexed) + " indexed in this run)."@
}

/// What the store holds after indexing.
pub fn stored_line(stored: usize, indexed: usize) -> (r: String)
    ensures
        r@ == stored_text(stored as nat, indexed as nat),
{
    let mut r: String = String::from_str("  ");
    r.append(decimal_of(stored).as_str());
    r.append(" chunks in store (");
    r.append(decimal_of(indexed).as_str());
    r.append(" indexed in this run).");
    r
}

/// What the store of a one-shot query holds.
pub open spec fn ready_text(stored: nat, indexed: nat) -> Seq<char> {
    "Store: "@ + decimal(stored) + " chunks ready ("@ + decimal(indexed) + " in this run)."@
}

/// What the store of a one-shot query holds.
pub fn ready_line(stored: usize, indexed: usize) -> (r: String)
    ensures
        r@ == ready_text(stored as nat, indexed as nat),
{
    let mut r: String = String::from_str("Store: ");
    r.append(decimal_of(stored).as_str());
    r.append(" chunks ready (");
    r.append(decimal_of(indexed).as_str());
    r.append(" in this run).");
    r
}

/// Every provenance is indexed.
pub open spec fn done_text(provenances: nat, workspace: Seq<char>) -> Seq<char> {
    "Done: "@ + decimal(provenances) + " provenance(s) indexed in "@ + workspace + "."@
}

/// Every provenance is indexed.
pub fn done_line(provenances: usize, workspace: &str) -> (r: String)
    ensures
        r@ == done_text(provenances as nat, workspace@),
{
    let mut r: String = String::from_str("Done: ");
    r.append(decimal_of(provenances).as_str());
    r.append(" provenance(s) indexed in ");
    r.append(workspace);
    r.append(".");
    r
}

} // verus!
