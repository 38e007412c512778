//! The order in which a run visits the matrix, and that it visits all of it.

use vstd::prelude::*;
use crate::matrix::{Cursor, EventView, RunView, Shape};

verus! {

// ── The stops of a run ──────────────────────────────────────────────────────

/// The turns from `q` on under one ranker.
pub open spec fn turns_from(s: Shape, a: int, p: int, c: int, r: int, q: int) -> Seq<Cursor>
    decreases s.turns - q,
{
    if q < s.turns {
        seq![s.at_turn(a, p, c, r, q)] + turns_from(s, a, p, c, r, q + 1)
    } else {
        Seq::empty()
    }
}

/// The rankers from `r` on under one corpus, each with its turns.
pub open spec fn rankers_from(s: Shape, a: int, p: int, c: int, r: int) -> Seq<Cursor>
    decreases s.rankers - r,
{
    if r < s.rankers {
        seq![s.at_ranker(a, p, c, r)] + turns_from(s, a, p, c, r, 0) + rankers_from(
            s,
            a,
            p,
            c,
            r + 1,
        )
    } else {
        Seq::empty()
    }
}

/// The corpora from `c` on under one pipeline, each with its rankers where it
/// is indexed.
pub open spec fn corpora_from(
    s: Shape,
    indexed: spec_fn(int, int, int) -> bool,
    a: int,
    p: int,
    c: int,
) -> Seq<Cursor>
    decreases s.corpora - c,
{
    if c < s.corpora {
        seq![s.at_corpus(a, p, c)] + (if indexed(a, p, c) {
            rankers_from(s, a, p, c, 0)
        } else {
            Seq::empty()
        }) + corpora_from(s, indexed, a, p, c + 1)
    } else {
        Seq::empty()
    }
}

/// The pipelines from `p` on under one agent, each with its corpora.
pub open spec fn pipelines_from(
    s: Shape,
    indexed: spec_fn(int, int, int) -> bool,
    a: int,
    p: int,
) -> Seq<Cursor>
    decreases s.pipelines - p,
{
    if p < s.pipelines {
        seq![s.at_pipeline(a, p)] + corpora_from(s, indexed, a, p, 0) + pipelines_from(
            s,
            indexed,
            a,
            p + 1,
        )
    } else {
        Seq::empty()
    }
}

/// The agents from `a` on, each with its pipelines.
pub open spec fn agents_from(
    s: Shape,
    indexed: spec_fn(int, int, int) -> bool,
    a: int,
) -> Seq<Cursor>
    decreases s.agents - a,
{
    if a < s.agents {
        seq![s.at_agent(a)] + pipelines_from(s, indexed, a, 0) + agents_from(s, indexed, a + 1)
    } else {
        Seq::empty()
    }
}

/// Every stop that a run at `at` has before it, `at` first, where `indexed`
/// says of each agent, pipeline and corpus whether the store holds its chunks.
pub open spec fn itinerary(
    s: Shape,
    indexed: spec_fn(int, int, int) -> bool,
    at: Cursor,
) -> Seq<Cursor> {
    match at {
        Cursor::Agent { agent } => agents_from(s, indexed, agent as int),
        Cursor::Pipeline { agent, pipeline } => pipelines_from(
            s,
            indexed,
            agent as int,
            pipeline as int,
        ) + agents_from(s, indexed, agent + 1),
        Cursor::Corpus { agent, pipeline, corpus } => corpora_from(
            s,
            indexed,
            agent as int,
            pipeline as int,
            corpus as int,
        ) + pipelines_from(s, indexed, agent as int, pipeline + 1) + agents_from(
            s,
            indexed,
            agent + 1,
        ),
        Cursor::Ranker { agent, pipeline, corpus, ranker } => rankers_from(
            s,
            agent as int,
            pipeline as int,
            corpus as int,
            ranker as int,
        ) + corpora_from(s, indexed, agent as int, pipeline as int, corpus + 1) + pipelines_from(
            s,
            indexed,
            agent as int,
            pipeline + 1,
        ) + agents_from(s, indexed, agent + 1),
        Cursor::Turn { agent, pipeline, corpus, ranker, turn } => turns_from(
            s,
            agent as int,
            pipeline as int,
            corpus as int,
            ranker as int,
            turn as int,
        ) + rankers_from(s, agent as int, pipeline as int, corpus as int, ranker + 1)
            + corpora_from(s, indexed, agent as int, pipeline as int, corpus + 1) + pipelines_from(
            s,
            indexed,
            agent as int,
            pipeline + 1,
        ) + agents_from(s, indexed, agent + 1),
        Cursor::Finished => Seq::empty(),
    }
}

/// Whether the chunks counted at `at` agree with `indexed`.
pub open spec fn agrees(
    indexed: spec_fn(int, int, int) -> bool,
    at: Cursor,
    event: EventView,
) -> bool {
    match (at, event) {
        (Cursor::Corpus { agent, pipeline, corpus }, EventView::Matching { chunks }) => indexed(
            agent as int,
            pipeline as int,
            corpus as int,
        ) == (chunks > 0),
        _ => true,
    }
}

proof fn lemma_at_agent(s: Shape, indexed: spec_fn(int, int, int) -> bool, a: int)
    requires
        0 <= a <= s.agents,
    ensures
        itinerary(s, indexed, s.at_agent(a)) == agents_from(s, indexed, a),
{
}

proof fn lemma_at_pipeline(s: Shape, indexed: spec_fn(int, int, int) -> bool, a: int, p: int)
    requires
        0 <= a < s.agents,
        0 <= p <= s.pipelines,
    ensures
        itinerary(s, indexed, s.at_pipeline(a, p)) =~= pipelines_from(s, indexed, a, p)
            + agents_from(s, indexed, a + 1),
{
    lemma_at_agent(s, indexed, a + 1);
}

proof fn lemma_at_corpus(
    s: Shape,
    indexed: spec_fn(int, int, int) -> bool,
    a: int,
    p: int,
    c: int,
)
    requires
        0 <= a < s.agents,
        0 <= p < s.pipelines,
        0 <= c <= s.corpora,
    ensures
        itinerary(s, indexed, s.at_corpus(a, p, c)) =~= corpora_from(s, indexed, a, p, c)
            + pipelines_from(s, indexed, a, p + 1) + agents_from(s, indexed, a + 1),
{
    lemma_at_pipeline(s, indexed, a, p + 1);
}

proof fn lemma_at_ranker(
    s: Shape,
    indexed: spec_fn(int, int, int) -> bool,
    a: int,
    p: int,
    c: int,
    r: int,
)
    requires
        0 <= a < s.agents,
        0 <= p < s.pipelines,
        0 <= c < s.corpora,
        0 <= r <= s.rankers,
    ensures
        itinerary(s, indexed, s.at_ranker(a, p, c, r)) =~= rankers_from(s, a, p, c, r)
            + corpora_from(s, indexed, a, p, c + 1) + pipelines_from(s, indexed, a, p + 1)
            + agents_from(s, indexed, a + 1),
{
    lemma_at_corpus(s, indexed, a, p, c + 1);
}

proof fn lemma_at_turn(
    s: Shape,
    indexed: spec_fn(int, int, int) -> bool,
    a: int,
    p: int,
    c: int,
    r: int,
    q: int,
)
    requires
        0 <= a < s.agents,
        0 <= p < s.pipelines,
        0 <= c < s.corpora,
        0 <= r < s.rankers,
        0 <= q <= s.turns,
    ensures
        itinerary(s, indexed, s.at_turn(a, p, c, r, q)) =~= turns_from(s, a, p, c, r, q)
            + rankers_from(s, a, p, c, r + 1) + corpora_from(s, indexed, a, p, c + 1)
            + pipelines_from(s, indexed, a, p + 1) + agents_from(s, indexed, a + 1),
{
    lemma_at_ranker(s, indexed, a, p, c, r + 1);
}

/// Each step of a run takes exactly the first stop off its itinerary, so the
/// run makes the stops in that order, misses none and comes to an end.
pub proof fn law_step_follows_itinerary(
    run: RunView,
    event: EventView,
    indexed: spec_fn(int, int, int) -> bool,
)
    requires
        run.shape.holds(run.cursor),
        run.expects(event),
        agrees(indexed, run.cursor, event),
    ensures
        itinerary(run.shape, indexed, run.cursor) =~= seq![run.cursor] + itinerary(
            run.shape,
            indexed,
            run.after(event).cursor,
        ),
{
    let s = run.shape;
    match run.cursor {
        Cursor::Agent { agent } => {
            lemma_at_pipeline(s, indexed, agent as int, 0);
        },
        Cursor::Pipeline { agent, pipeline } => {
            lemma_at_corpus(s, indexed, agent as int, pipeline as int, 0);
        },
        Cursor::Corpus { agent, pipeline, corpus } => {
            lemma_at_ranker(s, indexed, agent as int, pipeline as int, corpus as int, 0);
            lemma_at_corpus(s, indexed, agent as int, pipeline as int, corpus + 1);
        },
        Cursor::Ranker { agent, pipeline, corpus, ranker } => {
            lemma_at_turn(
                s,
                indexed,
                agent as int,
                pipeline as int,
                corpus as int,
                ranker as int,
                0,
            );
        },
        Cursor::Turn { agent, pipeline, corpus, ranker, turn } => {
            lemma_at_turn(
                s,
                indexed,
                agent as int,
                pipeline as int,
                corpus as int,
                ranker as int,
                turn + 1,
            );
        },
        Cursor::Finished => {},
    }
}

// ── All of it, in order, once ───────────────────────────────────────────────

/// The stops that the matrix has: every agent, pipeline and corpus, and the
/// rankers and turns of the corpora that are indexed.
pub open spec fn is_stop(
    s: Shape,
    indexed: spec_fn(int, int, int) -> bool,
    x: Cursor,
) -> bool {
    &&& s.holds(x)
    &&& match x {
        Cursor::Ranker { agent, pipeline, corpus, .. } => indexed(
            agent as int,
            pipeline as int,
            corpus as int,
        ),
        Cursor::Turn { agent, pipeline, corpus, .. } => indexed(
            agent as int,
            pipeline as int,
            corpus as int,
        ),
        Cursor::Finished => false,
        _ => true,
    }
}

/// The indices of a stop, outermost first; -1 stands where there is none.
pub open spec fn position(x: Cursor) -> (int, int, int, int, int) {
    match x {
        Cursor::Agent { agent } => (agent as int, -1, -1, -1, -1),
        Cursor::Pipeline { agent, pipeline } => (agent as int, pipeline as int, -1, -1, -1),
        Cursor::Corpus { agent, pipeline, corpus } => (
            agent as int,
            pipeline as int,
            corpus as int,
            -1,
            -1,
        ),
        Cursor::Ranker { agent, pipeline, corpus, ranker } => (
            agent as int,
            pipeline as int,
            corpus as int,
            ranker as int,
            -1,
        ),
        Cursor::Turn { agent, pipeline, corpus, ranker, turn } => (
            agent as int,
            pipeline as int,
            corpus as int,
            ranker as int,
            turn as int,
        ),
        Cursor::Finished => (-1, -1, -1, -1, -1),
    }
}

/// The order of stops: by agent, then pipeline, corpus, ranker and turn, each
/// before what belongs to it.
pub open spec fn precedes(x: Cursor, y: Cursor) -> bool {
    let a = position(x);
    let b = position(y);
    a.0 < b.0 || (a.0 == b.0 && (a.1 < b.1 || (a.1 == b.1 && (a.2 < b.2 || (a.2 == b.2 && (a.3
        < b.3 || (a.3 == b.3 && a.4 < b.4)))))))
}

/// Every stop precedes every later one.
pub open spec fn ordered(v: Seq<Cursor>) -> bool {
    forall|i: int, j: int| 0 <= i < j < v.len() ==> precedes(#[trigger] v[i], #[trigger] v[j])
}

proof fn lemma_concat(v: Seq<Cursor>, w: Seq<Cursor>)
    requires
        ordered(v),
        ordered(w),
        forall|x: Cursor, y: Cursor|
            #[trigger] v.contains(x) && #[trigger] w.contains(y) ==> precedes(x, y),
    ensures
        ordered(v + w),
        forall|x: Cursor| #[trigger] (v + w).contains(x) <==> v.contains(x) || w.contains(x),
{
    let u = v + w;
    assert forall|i: int, j: int| 0 <= i < j < u.len() implies precedes(
        #[trigger] u[i],
        #[trigger] u[j],
    ) by {
        if j < v.len() {
            assert(u[i] == v[i] && u[j] == v[j]);
        } else if i >= v.len() {
            assert(u[i] == w[i - v.len()] && u[j] == w[j - v.len()]);
        } else {
            assert(v.contains(u[i]) && w.contains(u[j]));
        }
    }
    assert forall|x: Cursor| #[trigger] u.contains(x) <==> v.contains(x) || w.contains(x) by {
        if v.contains(x) {
            let i = choose|i: int| 0 <= i < v.len() && v[i] == x;
            assert(u[i] == x);
        }
        if w.contains(x) {
            let i = choose|i: int| 0 <= i < w.len() && w[i] == x;
            assert(u[v.len() + i] == x);
        }
    }
}

proof fn lemma_single(x: Cursor)
    ensures
        ordered(seq![x]),
        forall|y: Cursor| #[trigger] seq![x].contains(y) <==> y == x,
{
    assert(seq![x][0] == x);
}

proof fn lemma_turns(s: Shape, a: int, p: int, c: int, r: int, q: int)
    requires
        0 <= a < s.agents,
        0 <= p < s.pipelines,
        0 <= c < s.corpora,
        0 <= r < s.rankers,
        0 <= q <= s.turns,
    ensures
        ordered(turns_from(s, a, p, c, r, q)),
        forall|x: Cursor| #[trigger]
            turns_from(s, a, p, c, r, q).contains(x) <==> x is Turn && s.holds(x) && position(x).0
                == a && position(x).1 == p && position(x).2 == c && position(x).3 == r
                && position(x).4 >= q,
    decreases s.turns - q,
{
    if q < s.turns {
        lemma_turns(s, a, p, c, r, q + 1);
        lemma_single(s.at_turn(a, p, c, r, q));
        lemma_concat(seq![s.at_turn(a, p, c, r, q)], turns_from(s, a, p, c, r, q + 1));
    }
}

proof fn lemma_rankers(s: Shape, a: int, p: int, c: int, r: int)
    requires
        0 <= a < s.agents,
        0 <= p < s.pipelines,
        0 <= c < s.corpora,
        0 <= r <= s.rankers,
    ensures
        ordered(rankers_from(s, a, p, c, r)),
        forall|x: Cursor| #[trigger]
            rankers_from(s, a, p, c, r).contains(x) <==> (x is Ranker || x is Turn) && s.holds(x)
                && position(x).0 == a && position(x).1 == p && position(x).2 == c && position(x).3
                >= r,
    decreases s.rankers - r,
{
    if r < s.rankers {
        let head = seq![s.at_ranker(a, p, c, r)];
        let inner = turns_from(s, a, p, c, r, 0);
        let rest = rankers_from(s, a, p, c, r + 1);
        lemma_rankers(s, a, p, c, r + 1);
        lemma_turns(s, a, p, c, r, 0);
        lemma_single(s.at_ranker(a, p, c, r));
        lemma_concat(head, inner);
        lemma_concat(head + inner, rest);
    }
}

proof fn lemma_corpora(
    s: Shape,
    indexed: spec_fn(int, int, int) -> bool,
    a: int,
    p: int,
    c: int,
)
    requires
        0 <= a < s.agents,
        0 <= p < s.pipelines,
        0 <= c <= s.corpora,
    ensures
        ordered(corpora_from(s, indexed, a, p, c)),
        forall|x: Cursor| #[trigger]
            corpora_from(s, indexed, a, p, c).contains(x) <==> (x is Corpus || x is Ranker
                || x is Turn) && is_stop(s, indexed, x) && position(x).0 == a && position(x).1 == p
                && position(x).2 >= c,
    decreases s.corpora - c,
{
    if c < s.corpora {
        let head = seq![s.at_corpus(a, p, c)];
        let inner = if indexed(a, p, c) {
            rankers_from(s, a, p, c, 0)
        } else {
            Seq::empty()
        };
        let rest = corpora_from(s, indexed, a, p, c + 1);
        lemma_corpora(s, indexed, a, p, c + 1);
        lemma_rankers(s, a, p, c, 0);
        lemma_single(s.at_corpus(a, p, c));
        lemma_concat(head, inner);
        lemma_concat(head + inner, rest);
    }
}

proof fn lemma_pipelines(s: Shape, indexed: spec_fn(int, int, int) -> bool, a: int, p: int)
    requires
        0 <= a < s.agents,
        0 <= p <= s.pipelines,
    ensures
        ordered(pipelines_from(s, indexed, a, p)),
        forall|x: Cursor| #[trigger]
            pipelines_from(s, indexed, a, p).contains(x) <==> !(x is Agent) && is_stop(
                s,
                indexed,
                x,
            ) && position(x).0 == a && position(x).1 >= p,
    decreases s.pipelines - p,
{
    if p < s.pipelines {
        let head = seq![s.at_pipeline(a, p)];
        let inner = corpora_from(s, indexed, a, p, 0);
        let rest = pipelines_from(s, indexed, a, p + 1);
        lemma_pipelines(s, indexed, a, p + 1);
        lemma_corpora(s, indexed, a, p, 0);
        lemma_single(s.at_pipeline(a, p));
        lemma_concat(head, inner);
        lemma_concat(head + inner, rest);
    }
}

proof fn lemma_agents(s: Shape, indexed: spec_fn(int, int, int) -> bool, a: int)
    requires
        0 <= a <= s.agents,
    ensures
        ordered(agents_from(s, indexed, a)),
        forall|x: Cursor| #[trigger]
            agents_from(s, indexed, a).contains(x) <==> is_stop(s, indexed, x) && position(x).0
                >= a,
    decreases s.agents - a,
{
    if a < s.agents {
        let head = seq![s.at_agent(a)];
        let inner = pipelines_from(s, indexed, a, 0);
        let rest = agents_from(s, indexed, a + 1);
        lemma_agents(s, indexed, a + 1);
        lemma_pipelines(s, indexed, a, 0);
        lemma_single(s.at_agent(a));
        lemma_concat(head, inner);
        lemma_concat(head + inner, rest);
    }
}

/// A run makes every stop of the matrix, and no other: each agent, pipeline
/// and corpus, and each ranker and turn of every indexed corpus.
pub proof fn law_run_covers_the_matrix(
    shape: Shape,
    chat: bool,
    indexed: spec_fn(int, int, int) -> bool,
    x: Cursor,
)
    ensures
        itinerary(shape, indexed, RunView::start(shape, chat).cursor).contains(x) <==> is_stop(
            shape,
            indexed,
            x,
        ),
{
    lemma_agents(shape, indexed, 0);
    lemma_at_agent(shape, indexed, 0);
}

/// A run makes its stops in order: all stops of an agent before those of the
/// next, and so for pipelines, corpora, rankers and turns.  So it makes each
/// stop once; in particular it builds each agent once.
pub proof fn law_run_is_ordered(
    shape: Shape,
    chat: bool,
    indexed: spec_fn(int, int, int) -> bool,
)
    ensures
        ordered(itinerary(shape, indexed, RunView::start(shape, chat).cursor)),
        itinerary(shape, indexed, RunView::start(shape, chat).cursor).no_duplicates(),
{
    lemma_agents(shape, indexed, 0);
    lemma_at_agent(shape, indexed, 0);
}

// ── Conversations ───────────────────────────────────────────────────────────

/// The state after the next turns were answered so.
pub open spec fn after_answers(run: RunView, answers: Seq<(Seq<char>, Seq<char>)>) -> RunView
    decreases answers.len(),
{
    if answers.len() == 0 {
        run
    } else {
        after_answers(run, answers.drop_last()).after(
            EventView::Answered { question: answers.last().0, answer: answers.last().1 },
        )
    }
}

/// In a chat the question of each turn is asked with the questions and answers
/// of the turns before it under the same ranker, and with nothing else.
pub proof fn law_chat_carries_the_transcript(
    run: RunView,
    answers: Seq<(Seq<char>, Seq<char>)>,
)
    requires
        run.chat,
        run.shape.holds(run.cursor),
        run.cursor is Ranker,
        answers.len() < run.shape.turns,
    ensures
        ({
            let then = after_answers(run.after(EventView::Ready), answers);
            &&& then.transcript == answers
            &&& then.cursor is Turn
            &&& position(then.cursor).4 == answers.len()
            &&& position(then.cursor).3 == position(run.cursor).3
        }),
    decreases answers.len(),
{
    if answers.len() > 0 {
        law_chat_carries_the_transcript(run, answers.drop_last());
        lemma_answers_keep(run.after(EventView::Ready), answers.drop_last());
        let then = after_answers(run.after(EventView::Ready), answers);
        assert(then.transcript =~= answers);
    } else {
        assert(run.after(EventView::Ready).transcript =~= answers);
    }
}

proof fn lemma_answers_keep(run: RunView, answers: Seq<(Seq<char>, Seq<char>)>)
    ensures
        after_answers(run, answers).shape == run.shape,
        after_answers(run, answers).chat == run.chat,
    decreases answers.len(),
{
    if answers.len() > 0 {
        lemma_answers_keep(run, answers.drop_last());
    }
}

/// Outside a chat no question carries a history: the transcript stays empty
/// from the start on, whatever happens.
pub proof fn law_queries_stay_independent(run: RunView, event: EventView)
    requires
        !run.chat,
        run.transcript.len() == 0,
    ensures
        run.after(event).transcript.len() == 0,
        !run.after(event).chat,
        RunView::start(run.shape, run.chat).transcript.len() == 0,
{
}

} // verus!
