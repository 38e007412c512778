//! Character sequences: searching, splitting, replacing, trimming, joining.

use vstd::prelude::*;
use vstd::string::StringExecFns;

verus! {

// ── Standard-library functions without a specification in vstd ──────────────

/// `String::push` appends one character to the end of the string.
pub assume_specification[ String::push ](s: &mut String, c: char)
    ensures
        final(s)@ == old(s)@.push(c),
;

/// Whether a character has the Unicode property `White_Space`.
pub open spec fn is_white_space(c: char) -> bool {
    let n = c as u32;
    ||| 0x0009 <= n <= 0x000D
    ||| n == 0x0020
    ||| n == 0x0085
    ||| n == 0x00A0
    ||| n == 0x1680
    ||| 0x2000 <= n <= 0x200A
    ||| n == 0x2028
    ||| n == 0x2029
    ||| n == 0x202F
    ||| n == 0x205F
    ||| n == 0x3000
}

/// Whether a character is white space.
fn char_is_white_space(c: char) -> (r: bool)
    ensures
        r == is_white_space(c),
{
    let n: u32 = c as u32;
    (0x0009 <= n && n <= 0x000D) || n == 0x0020 || n == 0x0085 || n == 0x00A0 || n == 0x1680 || (
    0x2000 <= n && n <= 0x200A) || n == 0x2028 || n == 0x2029 || n == 0x202F || n == 0x205F || n
        == 0x3000
}

/// Whether a character outside ASCII is a letter or a number in the sense of
/// Unicode, which is what `char::is_alphanumeric` tests.
pub uninterp spec fn is_wide_alphanumeric(c: char) -> bool;

/// An ASCII letter or digit.
pub open spec fn is_ascii_alphanumeric(c: char) -> bool {
    '0' <= c <= '9' || 'A' <= c <= 'Z' || 'a' <= c <= 'z'
}

/// Whether a character is a letter or a number.
pub open spec fn is_alphanumeric(c: char) -> bool {
    if (c as u32) < 0x80 {
        is_ascii_alphanumeric(c)
    } else {
        is_wide_alphanumeric(c)
    }
}

/// Calls `char::is_alphanumeric`.  Claimed of it: of the ASCII characters the
/// letters and digits are alphanumeric, and of any other character the answer
/// depends on the character alone.
#[verifier::external_body]
fn char_is_alphanumeric(c: char) -> (r: bool)
    ensures
        (c as u32) < 0x80 ==> r == is_ascii_alphanumeric(c),
        (c as u32) >= 0x80 ==> r == is_wide_alphanumeric(c),
{
    c.is_alphanumeric()
}

/// Every character is an ASCII character.
pub open spec fn is_ascii_text(s: Seq<char>) -> bool {
    forall|i: int| 0 <= i < s.len() ==> (s[i] as u32) < 0x80
}

/// The small letter for an ASCII capital; any other character as it is.
pub open spec fn ascii_small(c: char) -> char {
    if 'A' <= c <= 'Z' {
        (c as u32 + 32) as char
    } else {
        c
    }
}

/// A text with small letters for its ASCII capitals.
pub open spec fn ascii_lowercase(s: Seq<char>) -> Seq<char> {
    Seq::new(s.len(), |i: int| ascii_small(s[i]))
}

/// The Unicode lowercase form of a text that is not all ASCII, as
/// `str::to_lowercase` gives it.
pub uninterp spec fn wide_lowercase(s: Seq<char>) -> Seq<char>;

/// The lowercase form of a text.
pub open spec fn lowercase(s: Seq<char>) -> Seq<char> {
    if is_ascii_text(s) {
        ascii_lowercase(s)
    } else {
        wide_lowercase(s)
    }
}

/// Calls `str::to_lowercase`.  Claimed of it: of an ASCII text each capital
/// becomes its small letter and every other character stays; of any other text
/// the result depends on the text alone.
#[verifier::external_body]
pub(crate) fn to_lowercase(s: &str) -> (r: String)
    ensures
        is_ascii_text(s@) ==> r@ == ascii_lowercase(s@),
        !is_ascii_text(s@) ==> r@ == wide_lowercase(s@),
{
    s.to_lowercase()
}

// ── Views of string collections ─────────────────────────────────────────────

/// The texts of a sequence of strings.
pub open spec fn texts(v: Seq<String>) -> Seq<Seq<char>> {
    Seq::new(v.len(), |i: int| v[i]@)
}

/// The text of an optional string.
pub open spec fn opt_text(o: Option<String>) -> Option<Seq<char>> {
    match o {
        Some(s) => Some(s@),
        None => None,
    }
}

/// A copy of an optional string.
pub fn copy_opt(o: &Option<String>) -> (r: Option<String>)
    ensures
        r == *o,
{
    match o {
        Some(s) => Some(s.clone()),
        None => None,
    }
}

/// The first error of a sequence of results, or all their values in order.
pub open spec fn collected<A, E>(results: Seq<Result<A, E>>) -> Result<Seq<A>, E>
    decreases results.len(),
{
    if results.len() == 0 {
        Ok(Seq::empty())
    } else {
        match collected(results.drop_last()) {
            Err(e) => Err(e),
            Ok(values) => match results.last() {
                Err(e) => Err(e),
                Ok(value) => Ok(values.push(value)),
            },
        }
    }
}

/// An error among the first results is the outcome of them all.
pub proof fn lemma_collected_error<A, E>(results: Seq<Result<A, E>>, n: int)
    requires
        0 <= n <= results.len(),
        collected(results.take(n)) is Err,
    ensures
        collected(results) == collected(results.take(n)),
    decreases results.len(),
{
    if n < results.len() {
        let before = results.drop_last();
        assert(before.take(n) =~= results.take(n));
        lemma_collected_error(before, n);
    } else {
        assert(results.take(n) =~= results);
    }
}

/// The outcome of one more result.
pub proof fn lemma_collected_step<A, E>(results: Seq<Result<A, E>>, n: int)
    requires
        0 <= n < results.len(),
    ensures
        collected(results.take(n + 1)) == match collected(results.take(n)) {
            Err(e) => Err(e),
            Ok(values) => match results[n] {
                Err(e) => Err(e),
                Ok(value) => Ok(values.push(value)),
            },
        },
{
    assert(results.take(n + 1).drop_last() =~= results.take(n));
}

/// All results are fine exactly where the outcome is, and then it holds their
/// values in order.
pub proof fn lemma_collected_values<A, E>(results: Seq<Result<A, E>>)
    ensures
        collected(results) is Ok <==> forall|i: int|
            0 <= i < results.len() ==> (#[trigger] results[i]) is Ok,
        collected(results) matches Ok(values) ==> values.len() == results.len() && forall|i: int|
            0 <= i < results.len() ==> (#[trigger] results[i]) == Ok::<A, E>(values[i]),
    decreases results.len(),
{
    if results.len() > 0 {
        let before = results.drop_last();
        lemma_collected_values(before);
        assert forall|i: int| 0 <= i < before.len() implies before[i] == results[i] by {}
        if collected(results) is Ok {
            assert forall|i: int| 0 <= i < results.len() implies (#[trigger] results[i]) == Ok::<
                A,
                E,
            >(collected(results)->Ok_0[i]) by {
                if i < before.len() {
                    assert(before[i] == results[i]);
                }
            }
        } else if forall|i: int| 0 <= i < results.len() ==> (#[trigger] results[i]) is Ok {
            assert forall|i: int| 0 <= i < before.len() implies (#[trigger] before[i]) is Ok by {
                assert(results[i] is Ok);
            }
            assert(results[results.len() - 1] is Ok);
        }
    }
}

// ── Strings and characters ──────────────────────────────────────────────────

/// The characters of `s`, in order.
pub fn chars_of(s: &str) -> (r: Vec<char>)
    ensures
        r@ == s@,
{
    let mut r: Vec<char> = Vec::new();
    for c in it: s.chars()
        invariant
            r@ == it.seq().take(it.index()),
            it.seq() == s@,
    {
        r.push(c);
    }
    r
}

/// The string made of `chars[from..to]`.
pub fn string_of(chars: &Vec<char>, from: usize, to: usize) -> (r: String)
    requires
        from <= to <= chars@.len(),
    ensures
        r@ == chars@.subrange(from as int, to as int),
{
    let mut r: String = String::new();
    let mut i: usize = from;
    while i < to
        invariant
            from <= i <= to <= chars@.len(),
            r@ == chars@.subrange(from as int, i as int),
        decreases to - i,
    {
        r.push(chars[i]);
        i += 1;
    }
    r
}

/// Whether two strings hold the same text.
pub fn same_text(a: &str, b: &str) -> (r: bool)
    ensures
        r == (a@ == b@),
{
    a.to_owned() == b.to_owned()
}

// ── Searching ───────────────────────────────────────────────────────────────

/// `pat` stands in `s` at position `i`.
pub open spec fn occurs_at(s: Seq<char>, pat: Seq<char>, i: int) -> bool {
    0 <= i && i + pat.len() <= s.len() && s.subrange(i, i + pat.len()) == pat
}

/// `pat` stands in `s` at `i` and at no smaller position.
pub open spec fn is_first(s: Seq<char>, pat: Seq<char>, i: int) -> bool {
    occurs_at(s, pat, i) && forall|j: int| 0 <= j < i ==> !occurs_at(s, pat, j)
}

/// `pat` stands in `s` at `i` and at no greater position.
pub open spec fn is_last(s: Seq<char>, pat: Seq<char>, i: int) -> bool {
    occurs_at(s, pat, i) && forall|j: int| i < j ==> !occurs_at(s, pat, j)
}

/// Where `pat` first stands in `s`, if anywhere.
pub open spec fn first_occurrence(s: Seq<char>, pat: Seq<char>) -> Option<int> {
    if exists|i: int| is_first(s, pat, i) {
        Some(choose|i: int| is_first(s, pat, i))
    } else {
        None
    }
}

/// Where `pat` last stands in `s`, if anywhere.
pub open spec fn last_occurrence(s: Seq<char>, pat: Seq<char>) -> Option<int> {
    if exists|i: int| is_last(s, pat, i) {
        Some(choose|i: int| is_last(s, pat, i))
    } else {
        None
    }
}

pub proof fn lemma_first_occurrence(s: Seq<char>, pat: Seq<char>, i: int)
    requires
        is_first(s, pat, i),
    ensures
        first_occurrence(s, pat) == Some(i),
{
    let k = choose|k: int| is_first(s, pat, k);
    assert(is_first(s, pat, k));
    if k < i {
        assert(!occurs_at(s, pat, k));
    } else if i < k {
        assert(!occurs_at(s, pat, i));
    }
}

pub proof fn lemma_no_occurrence(s: Seq<char>, pat: Seq<char>)
    requires
        forall|i: int| !occurs_at(s, pat, i),
    ensures
        first_occurrence(s, pat) is None,
        last_occurrence(s, pat) is None,
{
}

pub proof fn lemma_last_occurrence(s: Seq<char>, pat: Seq<char>, i: int)
    requires
        is_last(s, pat, i),
    ensures
        last_occurrence(s, pat) == Some(i),
{
    let k = choose|k: int| is_last(s, pat, k);
    assert(is_last(s, pat, k));
    if i < k {
        assert(!occurs_at(s, pat, k));
    } else if k < i {
        assert(!occurs_at(s, pat, i));
    }
}

/// What stands behind `from` stands in the rest of the text.
pub proof fn lemma_occurs_in_suffix(s: Seq<char>, pat: Seq<char>, from: int, i: int)
    requires
        0 <= from <= s.len(),
        0 <= i,
    ensures
        occurs_at(s.skip(from), pat, i) == occurs_at(s, pat, from + i),
{
    if i + pat.len() <= s.len() - from {
        assert(s.skip(from).subrange(i, i + pat.len()) =~= s.subrange(
            from + i,
            from + i + pat.len(),
        ));
    }
}

/// Whether `pat` stands in `s` at position `at`.
pub fn matches_at(s: &Vec<char>, pat: &Vec<char>, at: usize) -> (r: bool)
    ensures
        r == occurs_at(s@, pat@, at as int),
{
    if at > s.len() || pat.len() > s.len() - at {
        return false;
    }
    let n: usize = s.len();
    let mut k: usize = 0;
    while k < pat.len()
        invariant
            k <= pat@.len(),
            at + pat@.len() <= s@.len() == n,
            s@.subrange(at as int, at + k) == pat@.take(k as int),
        decreases pat@.len() - k,
    {
        if s[at + k] != pat[k] {
            assert(s@.subrange(at as int, at + pat@.len())[k as int] != pat@[k as int]);
            return false;
        }
        k += 1;
    }
    assert(pat@.take(pat@.len() as int) =~= pat@);
    true
}

/// The first position from `from` on at which `pat` stands in `s`.
pub fn find_from(s: &Vec<char>, pat: &Vec<char>, from: usize) -> (r: Option<usize>)
    requires
        from <= s@.len(),
    ensures
        match r {
            Some(i) => from <= i && first_occurrence(s@.skip(from as int), pat@) == Some(i - from)
                && occurs_at(s@, pat@, i as int),
            None => first_occurrence(s@.skip(from as int), pat@) is None && forall|j: int|
                from <= j ==> !occurs_at(s@, pat@, j),
        },
{
    let n: usize = s.len();
    if pat.len() <= n - from {
        let end: usize = n - pat.len();
        let mut i: usize = from;
        while i <= end
            invariant
                from <= i,
                end + pat@.len() == s@.len() == n,
                forall|j: int| from <= j < i ==> !occurs_at(s@, pat@, j),
            ensures
                forall|j: int| from <= j ==> !occurs_at(s@, pat@, j),
            decreases end + 1 - i,
        {
            if matches_at(s, pat, i) {
                proof {
                    let rest = s@.skip(from as int);
                    assert forall|j: int| 0 <= j < i - from implies !occurs_at(rest, pat@, j) by {
                        lemma_occurs_in_suffix(s@, pat@, from as int, j);
                    }
                    lemma_occurs_in_suffix(s@, pat@, from as int, i - from);
                    lemma_first_occurrence(rest, pat@, i - from);
                }
                return Some(i);
            }
            if i == end {
                break;
            }
            i += 1;
        }
    }
    proof {
        let rest = s@.skip(from as int);
        assert forall|j: int| !occurs_at(rest, pat@, j) by {
            if 0 <= j {
                lemma_occurs_in_suffix(s@, pat@, from as int, j);
            }
        }
        lemma_no_occurrence(rest, pat@);
    }
    None
}

/// The last position at which `pat` stands in `s`.
pub fn find_last(s: &Vec<char>, pat: &Vec<char>) -> (r: Option<usize>)
    ensures
        match r {
            Some(i) => last_occurrence(s@, pat@) == Some(i as int) && occurs_at(
                s@,
                pat@,
                i as int,
            ),
            None => last_occurrence(s@, pat@) is None && forall|j: int| !occurs_at(s@, pat@, j),
        },
{
    if pat.len() > s.len() {
        proof {
            lemma_no_occurrence(s@, pat@);
        }
        return None;
    }
    let mut i: usize = s.len() - pat.len();
    loop
        invariant
            i + pat@.len() <= s@.len(),
            forall|j: int| i < j ==> !occurs_at(s@, pat@, j),
        decreases i,
    {
        if matches_at(s, pat, i) {
            proof {
                lemma_last_occurrence(s@, pat@, i as int);
            }
            return Some(i);
        }
        if i == 0 {
            proof {
                lemma_no_occurrence(s@, pat@);
            }
            return None;
        }
        i -= 1;
    }
}

// ── Splitting ───────────────────────────────────────────────────────────────

/// The text before and after the first `sep` in `s`, as `str::split_once`
/// gives them.
pub open spec fn split_once(s: Seq<char>, sep: Seq<char>) -> Option<(Seq<char>, Seq<char>)> {
    match first_occurrence(s, sep) {
        Some(i) => Some((s.take(i), s.skip(i + sep.len()))),
        None => None,
    }
}

/// Splits `s` at the first `sep`.
pub fn split_at_first(s: &str, sep: char) -> (r: Option<(String, String)>)
    ensures
        match r {
            Some((head, tail)) => split_once(s@, seq![sep]) == Some((head@, tail@)),
            None => split_once(s@, seq![sep]) is None,
        },
{
    let chars: Vec<char> = chars_of(s);
    let mut pat: Vec<char> = Vec::new();
    pat.push(sep);
    assert(pat@ =~= seq![sep]);
    assert(chars@.skip(0) =~= chars@);
    match find_from(&chars, &pat, 0) {
        Some(i) => {
            let n: usize = chars.len();
            let head: String = string_of(&chars, 0, i);
            let tail: String = string_of(&chars, i + 1, n);
            Some((head, tail))
        },
        None => None,
    }
}

/// What follows `prefix` in `s`, where `s` starts with it.
pub open spec fn after_prefix(s: Seq<char>, prefix: Seq<char>) -> Option<Seq<char>> {
    if occurs_at(s, prefix, 0) {
        Some(s.skip(prefix.len() as int))
    } else {
        None
    }
}

/// Strips `prefix` from the start of `s`.
pub fn strip_prefix(s: &str, prefix: &str) -> (r: Option<String>)
    ensures
        opt_text(r) == after_prefix(s@, prefix@),
{
    let chars: Vec<char> = chars_of(s);
    let pat: Vec<char> = chars_of(prefix);
    if matches_at(&chars, &pat, 0) {
        Some(string_of(&chars, pat.len(), chars.len()))
    } else {
        None
    }
}

/// Whether `s` starts with `prefix`.
pub fn starts_with(s: &str, prefix: &str) -> (r: bool)
    ensures
        r == occurs_at(s@, prefix@, 0),
{
    let chars: Vec<char> = chars_of(s);
    let pat: Vec<char> = chars_of(prefix);
    matches_at(&chars, &pat, 0)
}

/// What follows the last `pat` in `s`; all of `s` where there is none.
pub open spec fn after_last(s: Seq<char>, pat: Seq<char>) -> Seq<char> {
    match last_occurrence(s, pat) {
        Some(i) => s.skip(i + pat.len()),
        None => s,
    }
}

/// What precedes the first `pat` in `s`; all of `s` where there is none.
pub open spec fn before_first(s: Seq<char>, pat: Seq<char>) -> Seq<char> {
    match first_occurrence(s, pat) {
        Some(i) => s.take(i),
        None => s,
    }
}

// ── Replacing ───────────────────────────────────────────────────────────────

/// `s` with every occurrence of `pat`, found from left to right without
/// overlap, replaced by `with`.
pub open spec fn replaced(s: Seq<char>, pat: Seq<char>, with: Seq<char>) -> Seq<char>
    decreases s.len(),
{
    match first_occurrence(s, pat) {
        Some(i) => if 0 <= i && i + pat.len() <= s.len() && pat.len() > 0 {
            s.take(i) + with + replaced(s.skip(i + pat.len()), pat, with)
        } else {
            s
        },
        None => s,
    }
}

/// Replaces every `pat` in `s` by `with`.
pub fn replace_all(s: &str, pat: &str, with: &str) -> (r: String)
    requires
        pat@.len() > 0,
    ensures
        r@ == replaced(s@, pat@, with@),
{
    let chars: Vec<char> = chars_of(s);
    let pattern: Vec<char> = chars_of(pat);
    let n: usize = chars.len();
    let mut out: String = String::new();
    let mut from: usize = 0;
    assert(chars@.skip(0) =~= chars@);
    assert(replaced(s@, pat@, with@) =~= out@ + replaced(chars@.skip(0), pat@, with@));
    loop
        invariant
            from <= chars@.len() == n,
            chars@ == s@,
            pattern@ == pat@,
            pat@.len() > 0,
            replaced(s@, pat@, with@) == out@ + replaced(chars@.skip(from as int), pat@, with@),
        decreases chars@.len() - from,
    {
        match find_from(&chars, &pattern, from) {
            Some(i) => {
                let ghost rest = chars@.skip(from as int);
                let head: String = string_of(&chars, from, i);
                let ghost before = out@;
                out.append(head.as_str());
                out.append(with);
                let next: usize = i + pattern.len();
                proof {
                    let k = i - from;
                    assert(rest.take(k) =~= chars@.subrange(from as int, i as int));
                    assert(rest.skip(k + pat@.len()) =~= chars@.skip(next as int));
                    assert(replaced(rest, pat@, with@) == rest.take(k) + with@ + replaced(
                        chars@.skip(next as int),
                        pat@,
                        with@,
                    ));
                    assert(replaced(s@, pat@, with@) =~= out@ + replaced(
                        chars@.skip(next as int),
                        pat@,
                        with@,
                    ));
                }
                from = next;
            },
            None => {
                let tail: String = string_of(&chars, from, n);
                out.append(tail.as_str());
                assert(chars@.skip(from as int) =~= chars@.subrange(
                    from as int,
                    chars@.len() as int,
                ));
                return out;
            },
        }
    }
}

// ── Trimming ────────────────────────────────────────────────────────────────

/// `s` without the white space at its start.
pub open spec fn trim_start(s: Seq<char>) -> Seq<char>
    decreases s.len(),
{
    if s.len() > 0 && is_white_space(s[0]) {
        trim_start(s.drop_first())
    } else {
        s
    }
}

/// `s` without the white space at its end.
pub open spec fn trim_end(s: Seq<char>) -> Seq<char>
    decreases s.len(),
{
    if s.len() > 0 && is_white_space(s.last()) {
        trim_end(s.drop_last())
    } else {
        s
    }
}

/// `s` without the white space at its two ends.
pub open spec fn trimmed(s: Seq<char>) -> Seq<char> {
    trim_end(trim_start(s))
}

/// Trims `chars[from..to]`.
pub fn trim_range(chars: &Vec<char>, from: usize, to: usize) -> (r: String)
    requires
        from <= to <= chars@.len(),
    ensures
        r@ == trimmed(chars@.subrange(from as int, to as int)),
{
    let mut a: usize = from;
    while a < to && char_is_white_space(chars[a])
        invariant
            from <= a <= to <= chars@.len(),
            trim_start(chars@.subrange(from as int, to as int)) == trim_start(
                chars@.subrange(a as int, to as int),
            ),
        decreases to - a,
    {
        assert(chars@.subrange(a as int, to as int).drop_first() =~= chars@.subrange(
            a + 1,
            to as int,
        ));
        a += 1;
    }
    let ghost started = chars@.subrange(a as int, to as int);
    assert(trim_start(started) == started);
    let mut b: usize = to;
    while a < b && char_is_white_space(chars[b - 1])
        invariant
            a <= b <= to <= chars@.len(),
            started == chars@.subrange(a as int, to as int),
            trim_end(started) == trim_end(chars@.subrange(a as int, b as int)),
        decreases b,
    {
        assert(chars@.subrange(a as int, b as int).drop_last() =~= chars@.subrange(
            a as int,
            b - 1,
        ));
        b -= 1;
    }
    assert(trim_end(chars@.subrange(a as int, b as int)) == chars@.subrange(a as int, b as int));
    string_of(chars, a, b)
}

/// Trims a text.
pub fn trim_text(s: &str) -> (r: String)
    ensures
        r@ == trimmed(s@),
{
    let chars: Vec<char> = chars_of(s);
    assert(chars@.subrange(0, chars@.len() as int) =~= chars@);
    trim_range(&chars, 0, chars.len())
}

// ── Fields ──────────────────────────────────────────────────────────────────

/// The maximal runs of characters that are no separators, in order.
pub open spec fn fields(s: Seq<char>, separates: spec_fn(char) -> bool) -> Seq<Seq<char>>
    decreases s.len(),
{
    if s.len() == 0 {
        Seq::empty()
    } else {
        let before = fields(s.drop_last(), separates);
        if separates(s.last()) {
            before
        } else if s.len() > 1 && !separates(s[s.len() - 2]) {
            before.drop_last().push(before.last().push(s.last()))
        } else {
            before.push(seq![s.last()])
        }
    }
}

/// Where the last character is no separator, the last field is the run that
/// it ends.
proof fn lemma_last_field(s: Seq<char>, separates: spec_fn(char) -> bool, start: int)
    requires
        0 <= start < s.len(),
        forall|i: int| start <= i < s.len() ==> !separates(s[i]),
        start > 0 ==> separates(s[start - 1]),
    ensures
        fields(s, separates) == fields(s.take(start), separates).push(s.skip(start)),
    decreases s.len(),
{
    if start == s.len() - 1 {
        assert(s.drop_last() =~= s.take(start));
        assert(s.skip(start) =~= seq![s.last()]);
    } else {
        let before = s.drop_last();
        lemma_last_field(before, separates, start);
        assert(before.take(start) =~= s.take(start));
        assert(s[s.len() - 2] == before.last());
        assert(before.skip(start).push(s.last()) =~= s.skip(start));
        assert(fields(s, separates) =~= fields(s.take(start), separates).push(s.skip(start)));
    }
}

/// The fields of `chars`, where `separator[i]` says whether `chars[i]`
/// separates.
fn split_fields(
    chars: &Vec<char>,
    separator: &Vec<bool>,
    Ghost(separates): Ghost<spec_fn(char) -> bool>,
) -> (r: Vec<String>)
    requires
        separator@.len() == chars@.len(),
        forall|i: int| 0 <= i < chars@.len() ==> separator@[i] == separates(chars@[i]),
    ensures
        texts(r@) == fields(chars@, separates),
{
    let n: usize = chars.len();
    let mut r: Vec<String> = Vec::new();
    let mut i: usize = 0;
    assert(texts(r@) =~= fields(chars@.take(0), separates));
    while i < n
        invariant
            i <= n,
            n == chars@.len() == separator@.len(),
            forall|k: int| 0 <= k < n ==> separator@[k] == separates(chars@[k]),
            i < n && i > 0 && !separator@[i as int] ==> separator@[i - 1],
            texts(r@) == fields(chars@.take(i as int), separates),
        decreases n - i,
    {
        let start: usize = i;
        while i < n && !separator[i]
            invariant
                start <= i <= n,
                n == separator@.len(),
                forall|k: int| start <= k < i ==> !separator@[k],
            decreases n - i,
        {
            i += 1;
        }
        if start < i {
            let ghost done = texts(r@);
            let ghost run = chars@.subrange(start as int, i as int);
            r.push(string_of(chars, start, i));
            proof {
                let s = chars@.take(i as int);
                assert forall|k: int| start <= k < s.len() implies !separates(s[k]) by {
                    assert(!separator@[k]);
                }
                lemma_last_field(s, separates, start as int);
                assert(s.take(start as int) =~= chars@.take(start as int));
                assert(s.skip(start as int) =~= run);
                assert(texts(r@) =~= done.push(run));
            }
        } else {
            proof {
                assert(chars@.take(i + 1).drop_last() =~= chars@.take(i as int));
                assert(separates(chars@.take(i + 1).last()));
            }
            i += 1;
        }
    }
    assert(chars@.take(n as int) =~= chars@);
    r
}

/// The words of a text: its maximal runs of letters and numbers.
pub open spec fn words(s: Seq<char>) -> Seq<Seq<char>> {
    fields(s, |c: char| !is_alphanumeric(c))
}

/// The words of `s`.
pub fn words_of(s: &str) -> (r: Vec<String>)
    ensures
        texts(r@) == words(s@),
{
    let chars: Vec<char> = chars_of(s);
    let mut separator: Vec<bool> = Vec::new();
    let mut i: usize = 0;
    while i < chars.len()
        invariant
            i <= chars@.len(),
            separator@.len() == i,
            forall|k: int| 0 <= k < i ==> separator@[k] == !is_alphanumeric(chars@[k]),
        decreases chars@.len() - i,
    {
        separator.push(!char_is_alphanumeric(chars[i]));
        i += 1;
    }
    split_fields(&chars, &separator, Ghost(|c: char| !is_alphanumeric(c)))
}

/// The runs of a text between white space.
pub open spec fn white_space_fields(s: Seq<char>) -> Seq<Seq<char>> {
    fields(s, |c: char| is_white_space(c))
}

/// The runs of `s` between white space.
pub fn white_space_fields_of(s: &str) -> (r: Vec<String>)
    ensures
        texts(r@) == white_space_fields(s@),
{
    let chars: Vec<char> = chars_of(s);
    let mut separator: Vec<bool> = Vec::new();
    let mut i: usize = 0;
    while i < chars.len()
        invariant
            i <= chars@.len(),
            separator@.len() == i,
            forall|k: int| 0 <= k < i ==> separator@[k] == is_white_space(chars@[k]),
        decreases chars@.len() - i,
    {
        separator.push(char_is_white_space(chars[i]));
        i += 1;
    }
    split_fields(&chars, &separator, Ghost(|c: char| is_white_space(c)))
}

/// No field holds a separator, and none is empty.
pub proof fn lemma_fields_are_clean(s: Seq<char>, separates: spec_fn(char) -> bool, i: int)
    requires
        0 <= i < fields(s, separates).len(),
    ensures
        fields(s, separates)[i].len() > 0,
        forall|k: int|
            0 <= k < fields(s, separates)[i].len() ==> !separates(
                #[trigger] fields(s, separates)[i][k],
            ),
    decreases s.len(),
{
    if s.len() > 0 {
        let before = fields(s.drop_last(), separates);
        if i < before.len() {
            lemma_fields_are_clean(s.drop_last(), separates, i);
        }
    }
}

// ── Joining ─────────────────────────────────────────────────────────────────

/// The parts one after the other with `sep` between neighbours.
pub open spec fn joined(parts: Seq<Seq<char>>, sep: Seq<char>) -> Seq<char>
    decreases parts.len(),
{
    if parts.len() == 0 {
        Seq::empty()
    } else if parts.len() == 1 {
        parts[0]
    } else {
        joined(parts.drop_last(), sep) + sep + parts.last()
    }
}

/// Every character of a joined text comes from a part or from the separator.
pub proof fn lemma_joined_chars(parts: Seq<Seq<char>>, sep: Seq<char>, k: int)
    requires
        0 <= k < joined(parts, sep).len(),
    ensures
        sep.contains(joined(parts, sep)[k]) || exists|i: int|
            0 <= i < parts.len() && (#[trigger] parts[i]).contains(joined(parts, sep)[k]),
    decreases parts.len(),
{
    let c = joined(parts, sep)[k];
    if parts.len() == 1 {
        assert(parts[0].contains(c));
    } else {
        let before = parts.drop_last();
        let head = joined(before, sep);
        if k < head.len() {
            lemma_joined_chars(before, sep, k);
            if !sep.contains(c) {
                let i = choose|i: int|
                    0 <= i < before.len() && (#[trigger] before[i]).contains(c);
                assert(parts[i].contains(c));
            }
        } else if k < head.len() + sep.len() {
            assert(sep[k - head.len()] == c);
        } else {
            assert(parts.last()[k - head.len() - sep.len()] == c);
            assert(parts[parts.len() - 1].contains(c));
        }
    }
}

/// Joins `parts` with `sep`.
pub fn join(parts: &Vec<String>, sep: &str) -> (r: String)
    ensures
        r@ == joined(texts(parts@), sep@),
{
    let mut r: String = String::new();
    let mut i: usize = 0;
    while i < parts.len()
        invariant
            i <= parts@.len(),
            r@ == joined(texts(parts@).take(i as int), sep@),
        decreases parts@.len() - i,
    {
        let ghost so_far = texts(parts@).take(i as int);
        if i > 0 {
            r.append(sep);
        }
        r.append(parts[i].as_str());
        proof {
            let next = texts(parts@).take(i + 1);
            assert(next.drop_last() =~= so_far);
            assert(next.last() == parts@[i as int]@);
            if i == 0 {
                assert(r@ =~= next[0]);
            }
        }
        i += 1;
    }
    assert(texts(parts@).take(parts@.len() as int) =~= texts(parts@));
    r
}

/// At most the first `n` characters of `s`.
pub open spec fn leading(s: Seq<char>, n: int) -> Seq<char> {
    if s.len() <= n {
        s
    } else {
        s.take(n)
    }
}

/// At most the first `n` characters of `s`.
pub fn leading_chars(s: &str, n: usize) -> (r: String)
    ensures
        r@ == leading(s@, n as int),
{
    let chars: Vec<char> = chars_of(s);
    let end: usize = if chars.len() <= n {
        chars.len()
    } else {
        n
    };
    assert(chars@.subrange(0, chars@.len() as int) =~= chars@);
    string_of(&chars, 0, end)
}

} // verus!
