//! The ingestion walk: every pipeline over every corpus.

use vstd::prelude::*;

verus! {

/// The sum of a list of counts.
pub open spec fn sum(counts: Seq<usize>) -> nat
    decreases counts.len(),
{
    if counts.len() == 0 {
        0
    } else {
        sum(counts.drop_last()) + counts.last() as nat
    }
}

proof fn lemma_sum_of_prefix(counts: Seq<usize>, n: int)
    requires
        0 <= n <= counts.len(),
    ensures
        sum(counts.take(n)) <= sum(counts),
    decreases counts.len() - n,
{
    if n == counts.len() {
        assert(counts.take(n) =~= counts);
    } else {
        assert(counts.take(n + 1).drop_last() =~= counts.take(n));
        lemma_sum_of_prefix(counts, n + 1);
    }
}

/// How many chunks were indexed, given how many each document gave; nothing
/// where the number is too large to hold.
pub fn total_chunks(counts: &[usize]) -> (r: Option<usize>)
    ensures
        match r {
            Some(total) => total == sum(counts@),
            None => sum(counts@) > usize::MAX,
        },
{
    let mut total: usize = 0;
    let mut i: usize = 0;
    while i < counts.len()
        invariant
            i <= counts@.len(),
            total == sum(counts@.take(i as int)),
        decreases counts@.len() - i,
    {
        proof {
            assert(counts@.take(i + 1).drop_last() =~= counts@.take(i as int));
            assert(counts@.take(i + 1).last() == counts@[i as int]);
            lemma_sum_of_prefix(counts@, i + 1);
        }
        match total.checked_add(counts[i]) {
            Some(more) => {
                total = more;
            },
            None => {
                return None;
            },
        }
        i += 1;
    }
    assert(counts@.take(i as int) =~= counts@);
    Some(total)
}

/// The pairs of pipeline and corpus from pipeline `p` and corpus `c` on: the
/// rest of the corpora of `p`, then every corpus of each later pipeline.
pub open spec fn walk_from(pipelines: nat, corpora: nat, p: nat, c: nat) -> Seq<(usize, usize)>
    decreases pipelines - p, corpora - c,
{
    if p >= pipelines {
        Seq::empty()
    } else if c >= corpora {
        walk_from(pipelines, corpora, p + 1, 0)
    } else {
        seq![(p as usize, c as usize)] + walk_from(pipelines, corpora, p, c + 1)
    }
}

/// Every pair of pipeline and corpus, in the order in which they are
/// ingested.  Its length is the number of provenances.
pub fn ingestion_walk(pipelines: usize, corpora: usize) -> (r: Vec<(usize, usize)>)
    ensures
        r@ == walk_from(pipelines as nat, corpora as nat, 0, 0),
{
    let ghost all = walk_from(pipelines as nat, corpora as nat, 0, 0);
    let mut r: Vec<(usize, usize)> = Vec::new();
    let mut p: usize = 0;
    assert(r@ + all =~= all);
    while p < pipelines
        invariant
            p <= pipelines,
            all == r@ + walk_from(pipelines as nat, corpora as nat, p as nat, 0),
        decreases pipelines - p,
    {
        let mut c: usize = 0;
        while c < corpora
            invariant
                p < pipelines,
                c <= corpora,
                all == r@ + walk_from(pipelines as nat, corpora as nat, p as nat, c as nat),
            decreases corpora - c,
        {
            let ghost before = r@;
            r.push((p, c));
            proof {
                let rest = walk_from(pipelines as nat, corpora as nat, p as nat, (c + 1) as nat);
                assert(before + (seq![(p, c)] + rest) =~= r@ + rest);
            }
            c += 1;
        }
        p += 1;
    }
    assert(all =~= r@);
    r
}

// ── Laws ────────────────────────────────────────────────────────────────────

proof fn lemma_walk_members(pipelines: nat, corpora: nat, p: nat, c: nat, x: (usize, usize))
    requires
        pipelines <= usize::MAX,
        corpora <= usize::MAX,
    ensures
        walk_from(pipelines, corpora, p, c).contains(x) <==> x.0 < pipelines && x.1 < corpora && (
        x.0 > p || x.0 == p && x.1 >= c),
    decreases pipelines - p, corpora - c,
{
    let walk = walk_from(pipelines, corpora, p, c);
    if p >= pipelines {
    } else if c >= corpora {
        lemma_walk_members(pipelines, corpora, p + 1, 0, x);
    } else {
        let rest = walk_from(pipelines, corpora, p, c + 1);
        lemma_walk_members(pipelines, corpora, p, c + 1, x);
        assert(walk[0] == (p as usize, c as usize));
        if rest.contains(x) {
            let k = choose|k: int| 0 <= k < rest.len() && rest[k] == x;
            assert(walk[k + 1] == x);
        }
        if walk.contains(x) {
            let k = choose|k: int| 0 <= k < walk.len() && walk[k] == x;
            if k > 0 {
                assert(rest[k - 1] == x);
            }
        }
    }
}

proof fn lemma_walk_is_distinct(pipelines: nat, corpora: nat, p: nat, c: nat)
    requires
        pipelines <= usize::MAX,
        corpora <= usize::MAX,
    ensures
        walk_from(pipelines, corpora, p, c).no_duplicates(),
    decreases pipelines - p, corpora - c,
{
    if p >= pipelines {
    } else if c >= corpora {
        lemma_walk_is_distinct(pipelines, corpora, p + 1, 0);
    } else {
        let walk = walk_from(pipelines, corpora, p, c);
        let rest = walk_from(pipelines, corpora, p, c + 1);
        let first = (p as usize, c as usize);
        lemma_walk_is_distinct(pipelines, corpora, p, c + 1);
        lemma_walk_members(pipelines, corpora, p, c + 1, first);
        assert forall|i: int, j: int|
            0 <= i < walk.len() && 0 <= j < walk.len() && i != j implies walk[i] != walk[j] by {
            if i > 0 && j > 0 {
                assert(walk[i] == rest[i - 1]);
                assert(walk[j] == rest[j - 1]);
            } else if i > 0 {
                assert(rest.contains(rest[i - 1]));
            } else {
                assert(rest.contains(rest[j - 1]));
            }
        }
    }
}

proof fn lemma_walk_len(pipelines: nat, corpora: nat, p: nat, c: nat)
    requires
        p < pipelines,
        c <= corpora,
    ensures
        walk_from(pipelines, corpora, p, c).len() == (corpora - c) + (pipelines - p - 1) * corpora,
    decreases pipelines - p, corpora - c,
{
    if c >= corpora {
        if p + 1 < pipelines {
            lemma_walk_len(pipelines, corpora, p + 1, 0);
            assert(corpora + (pipelines - (p + 1) - 1) * corpora == (pipelines - p - 1) * corpora)
                by (nonlinear_arith)
                requires
                    p + 1 < pipelines,
            ;
        } else {
            assert(walk_from(pipelines, corpora, p + 1, 0) =~= Seq::empty());
            assert((pipelines - p - 1) * corpora == 0) by (nonlinear_arith)
                requires
                    p + 1 == pipelines,
            ;
        }
    } else {
        lemma_walk_len(pipelines, corpora, p, c + 1);
    }
}

/// Ingestion walks every pipeline over every corpus, each pair once, and
/// nothing else.
pub proof fn law_walk_covers_every_provenance(
    pipelines: usize,
    corpora: usize,
    pipeline: usize,
    corpus: usize,
)
    ensures
        walk_from(pipelines as nat, corpora as nat, 0, 0).contains((pipeline, corpus))
            <==> pipeline < pipelines && corpus < corpora,
        walk_from(pipelines as nat, corpora as nat, 0, 0).no_duplicates(),
        walk_from(pipelines as nat, corpora as nat, 0, 0).len() == pipelines * corpora,
{
    lemma_walk_members(pipelines as nat, corpora as nat, 0, 0, (pipeline, corpus));
    lemma_walk_is_distinct(pipelines as nat, corpora as nat, 0, 0);
    if pipelines > 0 {
        lemma_walk_len(pipelines as nat, corpora as nat, 0, 0);
        assert(corpora + (pipelines - 1) * corpora == pipelines * corpora) by (nonlinear_arith);
    } else {
        assert(pipelines * corpora == 0) by (nonlinear_arith)
            requires
                pipelines == 0,
        ;
    }
}

} // verus!
