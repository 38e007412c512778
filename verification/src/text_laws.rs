//! What searching, splitting, replacing, trimming and joining promise, in
//! terms of the texts that go in and come out.

use vstd::prelude::*;
use crate::text::{
    after_last, after_prefix, ascii_lowercase, before_first, collected, fields, first_occurrence,
    is_alphanumeric, is_ascii_text, is_first, is_last, is_white_space, is_wide_alphanumeric,
    joined, last_occurrence,
    leading, lemma_collected_error, lemma_collected_step, lemma_collected_values,
    lemma_first_occurrence, lemma_no_occurrence, lowercase, occurs_at,
    opt_text, replaced, split_once, texts, trim_end, trim_start, trimmed, white_space_fields,
    wide_lowercase, words,
};

verus! {

// ── Views and lists ─────────────────────────────────────────────────────────

/// The texts of a list of strings are those of its strings, in order.
pub proof fn law_texts_are_those_of_the_strings(v: Seq<String>, i: int)
    requires
        0 <= i < v.len(),
    ensures
        texts(v).len() == v.len(),
        texts(v)[i] == v[i]@,
{
}

/// An optional string has a text exactly where it is there.
pub proof fn law_optional_texts(o: Option<String>)
    ensures
        opt_text(o) is Some <==> o is Some,
        o is Some ==> opt_text(o)->0 == o->0@,
{
}

/// Collecting gives every value, in order, where there is no error, and else
/// the error that comes first.
pub proof fn law_collecting_stops_at_the_first_error<A, E>(results: Seq<Result<A, E>>, n: int)
    requires
        0 <= n <= results.len(),
        forall|i: int| 0 <= i < n ==> (#[trigger] results[i]) is Ok,
        n < results.len() ==> results[n] is Err,
    ensures
        n == results.len() ==> collected(results) is Ok && collected(results)->Ok_0.len() == n
            && forall|i: int|
            0 <= i < n ==> #[trigger] results[i] == Ok::<A, E>(collected(results)->Ok_0[i]),
        n < results.len() ==> collected(results) == Err::<Seq<A>, E>(results[n]->Err_0),
{
    if n == results.len() {
        lemma_collected_values(results);
    } else {
        let before = results.take(n);
        assert forall|i: int| 0 <= i < before.len() implies (#[trigger] before[i]) is Ok by {
            assert(results[i] is Ok);
        }
        lemma_collected_values(before);
        lemma_collected_step(results, n);
        lemma_collected_error(results, n + 1);
    }
}

// ── Characters ──────────────────────────────────────────────────────────────

/// White space: the control characters from tab to carriage return, the next
/// line character, the space, and the wider spaces and separators of Unicode.
pub proof fn law_white_space(c: char)
    ensures
        is_white_space(c) <==> c == '\u{9}' || c == '\u{A}' || c == '\u{B}' || c == '\u{C}' || c
            == '\u{D}' || c == ' ' || c == '\u{85}' || c == '\u{A0}' || c == '\u{1680}'
            || '\u{2000}' <= c <= '\u{200A}' || c == '\u{2028}' || c == '\u{2029}' || c
            == '\u{202F}' || c == '\u{205F}' || c == '\u{3000}',
{
}

/// No character is both white space and a letter or digit of ASCII, and the
/// ASCII letters and digits are words.
pub proof fn law_ascii_words(c: char)
    requires
        (c as u32) < 128,
    ensures
        is_alphanumeric(c) <==> 48 <= c as u32 <= 57 || 65 <= c as u32 <= 90 || 97 <= c as u32
            <= 122,
        is_alphanumeric(c) ==> !is_white_space(c),
{
}

/// Beyond ASCII the letters and digits are those of Unicode.
pub proof fn law_wide_words(c: char)
    requires
        (c as u32) >= 128,
    ensures
        is_alphanumeric(c) <==> is_wide_alphanumeric(c),
{
}

/// The lowercase form of an ASCII text has its length, and differs from it in
/// the capitals alone, each of which is 32 places further on.
pub proof fn law_ascii_lowercase(s: Seq<char>, i: int)
    requires
        forall|k: int| 0 <= k < s.len() ==> (#[trigger] s[k] as u32) < 128,
        0 <= i < s.len(),
    ensures
        lowercase(s).len() == s.len(),
        lowercase(s)[i] as u32 == if 65 <= s[i] as u32 <= 90 {
            s[i] as u32 + 32
        } else {
            s[i] as u32 as int
        },
        lowercase(lowercase(s)) == lowercase(s),
{
    assert(is_ascii_text(s));
    let t = ascii_lowercase(s);
    assert(t[i] == crate::text::ascii_small(s[i]));
    assert(is_ascii_text(t));
    assert(ascii_lowercase(t) =~= t);
}

/// Beyond ASCII the lowercase form is that of the standard library; nothing is
/// nothing in lowercase.
pub proof fn law_wide_lowercase(s: Seq<char>, i: int)
    requires
        0 <= i < s.len(),
        (s[i] as u32) >= 128,
    ensures
        lowercase(s) == wide_lowercase(s),
        lowercase(Seq::empty()).len() == 0,
{
}

// ── Searching ───────────────────────────────────────────────────────────────

/// A pattern stands at a place where its characters follow each other there.
pub proof fn law_occurrences(s: Seq<char>, pat: Seq<char>, i: int)
    ensures
        occurs_at(s, pat, i) <==> 0 <= i && i + pat.len() <= s.len() && forall|k: int|
            0 <= k < pat.len() ==> s[i + k] == #[trigger] pat[k],
{
    if 0 <= i && i + pat.len() <= s.len() {
        let part = s.subrange(i, i + pat.len());
        if occurs_at(s, pat, i) {
            assert forall|k: int| 0 <= k < pat.len() implies s[i + k] == #[trigger] pat[k] by {
                assert(part[k] == pat[k]);
            }
        }
        if forall|k: int| 0 <= k < pat.len() ==> s[i + k] == #[trigger] pat[k] {
            assert(part =~= pat);
        }
    }
}

proof fn lemma_down_to_first(s: Seq<char>, pat: Seq<char>, j: int)
    requires
        occurs_at(s, pat, j),
    ensures
        exists|i: int| is_first(s, pat, i),
    decreases j,
{
    if exists|k: int| 0 <= k < j && occurs_at(s, pat, k) {
        let k = choose|k: int| 0 <= k < j && occurs_at(s, pat, k);
        lemma_down_to_first(s, pat, k);
    } else {
        assert(is_first(s, pat, j));
    }
}

proof fn lemma_up_to_last(s: Seq<char>, pat: Seq<char>, j: int)
    requires
        occurs_at(s, pat, j),
    ensures
        exists|i: int| is_last(s, pat, i),
    decreases s.len() - j,
{
    if exists|k: int| j < k && occurs_at(s, pat, k) {
        let k = choose|k: int| j < k && occurs_at(s, pat, k);
        lemma_up_to_last(s, pat, k);
    } else {
        assert(is_last(s, pat, j));
    }
}

/// The first occurrence of a pattern is an occurrence with none before it, and
/// there is one wherever the pattern occurs at all.
pub proof fn law_first_occurrence(s: Seq<char>, pat: Seq<char>, j: int)
    ensures
        first_occurrence(s, pat) is Some ==> occurs_at(s, pat, first_occurrence(s, pat)->0),
        occurs_at(s, pat, j) ==> first_occurrence(s, pat) is Some && first_occurrence(s, pat)->0
            <= j,
{
    if occurs_at(s, pat, j) {
        lemma_down_to_first(s, pat, j);
    }
}

/// The last occurrence of a pattern is an occurrence with none behind it, and
/// there is one wherever the pattern occurs at all.
pub proof fn law_last_occurrence(s: Seq<char>, pat: Seq<char>, j: int)
    ensures
        last_occurrence(s, pat) is Some ==> occurs_at(s, pat, last_occurrence(s, pat)->0),
        occurs_at(s, pat, j) ==> last_occurrence(s, pat) is Some && last_occurrence(s, pat)->0
            >= j,
{
    if occurs_at(s, pat, j) {
        lemma_up_to_last(s, pat, j);
    }
}

// ── Splitting ───────────────────────────────────────────────────────────────

/// A text without the separating character, the character and any rest are
/// split into that text and that rest; a text without the character is not
/// split.
pub proof fn law_split_at_the_first(head: Seq<char>, sep: char, tail: Seq<char>)
    requires
        forall|i: int| 0 <= i < head.len() ==> #[trigger] head[i] != sep,
    ensures
        split_once(head + seq![sep] + tail, seq![sep]) == Some((head, tail)),
        split_once(head, seq![sep]) is None,
{
    let pat = seq![sep];
    let s = head + pat + tail;
    let n = head.len() as int;
    assert(s.subrange(n, n + 1) =~= pat);
    assert forall|j: int| 0 <= j < n implies !occurs_at(s, pat, j) by {
        if occurs_at(s, pat, j) {
            assert(s.subrange(j, j + 1)[0] == sep);
            assert(s[j] == head[j]);
        }
    }
    lemma_first_occurrence(s, pat, n);
    assert(s.take(n) =~= head);
    assert(s.skip(n + 1) =~= tail);
    assert forall|j: int| !occurs_at(head, pat, j) by {
        if occurs_at(head, pat, j) {
            assert(head.subrange(j, j + 1)[0] == sep);
            assert(head[j] == sep);
        }
    }
    lemma_no_occurrence(head, pat);
}

/// A prefix is taken off exactly where the text is that prefix and a rest, and
/// the rest is what stays.
pub proof fn law_prefixes_come_off(s: Seq<char>, prefix: Seq<char>, rest: Seq<char>)
    ensures
        after_prefix(prefix + rest, prefix) == Some(rest),
        after_prefix(s, prefix) is Some ==> s == prefix + after_prefix(s, prefix)->0,
        after_prefix(s, prefix) is None ==> s != prefix + rest,
{
    let t = prefix + rest;
    assert(t.subrange(0, prefix.len() as int) =~= prefix);
    assert(t.skip(prefix.len() as int) =~= rest);
    if after_prefix(s, prefix) is Some {
        assert(s.subrange(0, prefix.len() as int) == prefix);
        assert(s =~= prefix + after_prefix(s, prefix)->0);
    }
}

/// What follows the last occurrence of a pattern holds no further one, and
/// stands behind one where there is one at all.
pub proof fn law_after_the_last(s: Seq<char>, pat: Seq<char>, j: int)
    requires
        pat.len() > 0,
    ensures
        ({
            let rest = after_last(s, pat);
            &&& rest == s || exists|n: int| #[trigger]
                occurs_at(s, pat, n) && rest == s.skip(n + pat.len())
            &&& !occurs_at(rest, pat, j)
            &&& occurs_at(s, pat, j) ==> rest.len() + j + pat.len() <= s.len()
        }),
{
    law_last_occurrence(s, pat, j);
    let rest = after_last(s, pat);
    match last_occurrence(s, pat) {
        Some(n) => {
            assert(occurs_at(s, pat, n));
            if occurs_at(rest, pat, j) {
                let from = n + pat.len();
                crate::text::lemma_occurs_in_suffix(s, pat, from, j);
                law_last_occurrence(s, pat, from + j);
            }
        },
        None => {},
    }
}

/// What precedes the first occurrence of a pattern is a prefix of the text that
/// ends before every occurrence, and the whole text where there is none.
pub proof fn law_before_the_first(s: Seq<char>, pat: Seq<char>, j: int)
    ensures
        before_first(s, pat).is_prefix_of(s),
        occurs_at(s, pat, j) ==> before_first(s, pat).len() <= j,
        before_first(s, pat) == s || occurs_at(s, pat, before_first(s, pat).len() as int),
{
    law_first_occurrence(s, pat, j);
}

// ── Replacing ───────────────────────────────────────────────────────────────

/// Replacing leaves a text without the pattern as it is, and in any other puts
/// the replacement in the place of the first occurrence and goes on behind it.
pub proof fn law_replacing(s: Seq<char>, pat: Seq<char>, with: Seq<char>, i: int)
    requires
        pat.len() > 0,
    ensures
        (forall|j: int| !occurs_at(s, pat, j)) ==> replaced(s, pat, with) == s,
        occurs_at(s, pat, i) && (forall|j: int| 0 <= j < i ==> !occurs_at(s, pat, j))
            ==> replaced(s, pat, with) == s.take(i) + with + replaced(
            s.skip(i + pat.len()),
            pat,
            with,
        ),
{
    if forall|j: int| !occurs_at(s, pat, j) {
        lemma_no_occurrence(s, pat);
    }
    if occurs_at(s, pat, i) && (forall|j: int| 0 <= j < i ==> !occurs_at(s, pat, j)) {
        lemma_first_occurrence(s, pat, i);
    }
}

// ── Trimming ────────────────────────────────────────────────────────────────

proof fn lemma_trim_start_over(left: Seq<char>, s: Seq<char>)
    requires
        forall|i: int| 0 <= i < left.len() ==> is_white_space(#[trigger] left[i]),
    ensures
        trim_start(left + s) == trim_start(s),
    decreases left.len(),
{
    if left.len() == 0 {
        assert(left + s =~= s);
    } else {
        assert((left + s).drop_first() =~= left.drop_first() + s);
        assert((left + s)[0] == left[0]);
        lemma_trim_start_over(left.drop_first(), s);
    }
}

proof fn lemma_trim_end_over(s: Seq<char>, right: Seq<char>)
    requires
        forall|i: int| 0 <= i < right.len() ==> is_white_space(#[trigger] right[i]),
    ensures
        trim_end(s + right) == trim_end(s),
    decreases right.len(),
{
    if right.len() == 0 {
        assert(s + right =~= s);
    } else {
        assert((s + right).drop_last() =~= s + right.drop_last());
        assert((s + right).last() == right[right.len() - 1]);
        lemma_trim_end_over(s, right.drop_last());
    }
}

/// Trimming takes the white space off the two ends and nothing else: a text
/// that neither starts nor ends with white space comes out of any white space
/// around it.
pub proof fn law_trimming(left: Seq<char>, core: Seq<char>, right: Seq<char>)
    requires
        forall|i: int| 0 <= i < left.len() ==> is_white_space(#[trigger] left[i]),
        forall|i: int| 0 <= i < right.len() ==> is_white_space(#[trigger] right[i]),
        core.len() > 0 ==> !is_white_space(core[0]) && !is_white_space(core[core.len() - 1]),
    ensures
        trimmed(left + core + right) == core,
{
    assert(left + core + right =~= left + (core + right));
    lemma_trim_start_over(left, core + right);
    if core.len() > 0 {
        assert((core + right)[0] == core[0]);
        lemma_trim_end_over(core, right);
    } else {
        assert(core + right =~= right + core);
        lemma_trim_start_over(right, core);
    }
}

// ── Fields ──────────────────────────────────────────────────────────────────

proof fn lemma_single_field(s: Seq<char>, separates: spec_fn(char) -> bool)
    requires
        s.len() > 0,
        forall|i: int| 0 <= i < s.len() ==> !separates(#[trigger] s[i]),
    ensures
        fields(s, separates) == seq![s],
    decreases s.len(),
{
    let before = s.drop_last();
    assert(!separates(s[s.len() - 1]));
    if s.len() == 1 {
        assert(fields(before, separates).len() == 0);
        assert(seq![s.last()] =~= s);
        assert(fields(s, separates) =~= seq![s]);
    } else {
        lemma_single_field(before, separates);
        assert(before.push(s.last()) =~= s);
        assert(fields(s, separates) =~= seq![s]);
    }
}

/// A text without letters and numbers has no words; one of nothing else is one
/// word.
pub proof fn law_words_of_simple_texts(s: Seq<char>)
    ensures
        (forall|i: int| 0 <= i < s.len() ==> !is_alphanumeric(#[trigger] s[i])) ==> words(s).len()
            == 0,
        s.len() > 0 && (forall|i: int| 0 <= i < s.len() ==> is_alphanumeric(#[trigger] s[i]))
            ==> words(s) == seq![s],
    decreases s.len(),
{
    let separates = |c: char| !is_alphanumeric(c);
    if forall|i: int| 0 <= i < s.len() ==> !is_alphanumeric(#[trigger] s[i]) {
        if s.len() > 0 {
            assert(!is_alphanumeric(s[s.len() - 1]));
            law_words_of_simple_texts(s.drop_last());
        }
    }
    if s.len() > 0 && (forall|i: int| 0 <= i < s.len() ==> is_alphanumeric(#[trigger] s[i])) {
        lemma_single_field(s, separates);
    }
}

/// A text of white space has no fields; one without is one field.
pub proof fn law_fields_of_simple_texts(s: Seq<char>)
    ensures
        (forall|i: int| 0 <= i < s.len() ==> is_white_space(#[trigger] s[i]))
            ==> white_space_fields(s).len() == 0,
        s.len() > 0 && (forall|i: int| 0 <= i < s.len() ==> !is_white_space(#[trigger] s[i]))
            ==> white_space_fields(s) == seq![s],
    decreases s.len(),
{
    let separates = |c: char| is_white_space(c);
    if forall|i: int| 0 <= i < s.len() ==> is_white_space(#[trigger] s[i]) {
        if s.len() > 0 {
            assert(is_white_space(s[s.len() - 1]));
            law_fields_of_simple_texts(s.drop_last());
        }
    }
    if s.len() > 0 && (forall|i: int| 0 <= i < s.len() ==> !is_white_space(#[trigger] s[i])) {
        lemma_single_field(s, separates);
    }
}

/// Two texts with white space between them have the fields of both.
pub proof fn law_separated_texts_keep_their_fields(a: Seq<char>, sep: char, b: Seq<char>)
    requires
        is_white_space(sep),
    ensures
        white_space_fields(a.push(sep) + b) == white_space_fields(a) + white_space_fields(b),
{
    crate::mock_laws::lemma_fields_of_joined(a, sep, b, |c: char| is_white_space(c));
}

// ── Joining ─────────────────────────────────────────────────────────────────

/// Joining puts the separator between neighbours and nowhere else.
pub proof fn law_joining(parts: Seq<Seq<char>>, part: Seq<char>, sep: Seq<char>)
    ensures
        joined(Seq::empty(), sep) == Seq::<char>::empty(),
        joined(seq![part], sep) == part,
        parts.len() > 0 ==> joined(parts.push(part), sep) == joined(parts, sep) + sep + part,
{
    assert(parts.push(part).drop_last() =~= parts);
}

/// The start of a text is a prefix, as long as the limit allows.
pub proof fn law_leading(s: Seq<char>, n: int)
    requires
        n >= 0,
    ensures
        leading(s, n).is_prefix_of(s),
        leading(s, n).len() == if s.len() <= n {
            s.len() as int
        } else {
            n
        },
{
}

} // verus!
