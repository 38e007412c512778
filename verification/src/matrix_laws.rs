//! How a run moves through the matrix, step by step, and what it remembers.

use vstd::prelude::*;
use crate::matrix::{turns_text, Cursor, Event, EventView, RunView, Shape};

verus! {

// ── Views ───────────────────────────────────────────────────────────────────

/// An event is seen with its own count, its own question and its own answer.
pub proof fn law_events_are_seen_as_they_are(e: Event)
    ensures
        e@ is Ready <==> e is Ready,
        e matches Event::Matching { chunks } ==> e@ == (EventView::Matching { chunks: chunks as nat }),
        e matches Event::Answered { question, answer } ==> e@ == (EventView::Answered {
            question: question@,
            answer: answer@,
        }),
{
}

/// A transcript is seen pair by pair, the question before the answer.
pub proof fn law_transcripts_are_seen_as_they_are(v: Seq<(String, String)>, i: int)
    ensures
        turns_text(v).len() == v.len(),
        0 <= i < v.len() ==> turns_text(v)[i].0 == v[i].0@ && turns_text(v)[i].1 == v[i].1@,
{
}

// ── Places ──────────────────────────────────────────────────────────────────

/// A place is inside a matrix exactly where each of its indices is below the
/// size of its own dimension; the end is inside every matrix.
pub proof fn law_places_are_inside_where_each_index_is(
    s: Shape,
    agent: usize,
    pipeline: usize,
    corpus: usize,
    ranker: usize,
    turn: usize,
)
    ensures
        s.holds(Cursor::Agent { agent }) <==> agent < s.agents,
        s.holds(Cursor::Pipeline { agent, pipeline }) <==> agent < s.agents && pipeline
            < s.pipelines,
        s.holds(Cursor::Corpus { agent, pipeline, corpus }) <==> agent < s.agents && pipeline
            < s.pipelines && corpus < s.corpora,
        s.holds(Cursor::Ranker { agent, pipeline, corpus, ranker }) <==> agent < s.agents
            && pipeline < s.pipelines && corpus < s.corpora && ranker < s.rankers,
        s.holds(Cursor::Turn { agent, pipeline, corpus, ranker, turn }) <==> agent < s.agents
            && pipeline < s.pipelines && corpus < s.corpora && ranker < s.rankers && turn < s.turns,
        s.holds(Cursor::Finished),
{
}

/// Where a run goes that is through with a pipeline.
pub open spec fn past_pipeline(s: Shape, agent: usize, pipeline: usize) -> Cursor {
    if pipeline + 1 < s.pipelines {
        Cursor::Pipeline { agent, pipeline: (pipeline + 1) as usize }
    } else if agent + 1 < s.agents {
        Cursor::Agent { agent: (agent + 1) as usize }
    } else {
        Cursor::Finished
    }
}

/// Where a run goes that is through with a corpus.
pub open spec fn past_corpus(s: Shape, agent: usize, pipeline: usize, corpus: usize) -> Cursor {
    if corpus + 1 < s.corpora {
        Cursor::Corpus { agent, pipeline, corpus: (corpus + 1) as usize }
    } else {
        past_pipeline(s, agent, pipeline)
    }
}

/// Where a run goes that is through with a ranker.
pub open spec fn past_ranker(
    s: Shape,
    agent: usize,
    pipeline: usize,
    corpus: usize,
    ranker: usize,
) -> Cursor {
    if ranker + 1 < s.rankers {
        Cursor::Ranker { agent, pipeline, corpus, ranker: (ranker + 1) as usize }
    } else {
        past_corpus(s, agent, pipeline, corpus)
    }
}

/// A run enters a matrix at its first agent.
pub proof fn law_runs_start_at_the_first_agent(s: Shape, chat: bool)
    ensures
        ({
            let start = RunView::start(s, chat);
            &&& start.shape == s
            &&& start.chat == chat
            &&& start.transcript.len() == 0
            &&& s.agents > 0 ==> start.cursor == (Cursor::Agent { agent: 0 })
            &&& s.agents == 0 ==> start.cursor is Finished
        }),
{
}

/// An agent opens with its first pipeline, a pipeline with its first corpus, a
/// corpus that is indexed with its first ranker, a ranker with its first turn.
pub proof fn law_stops_open_with_their_first(
    s: Shape,
    agent: usize,
    pipeline: usize,
    corpus: usize,
    ranker: usize,
    indexed: bool,
)
    requires
        s.pipelines > 0,
        s.corpora > 0,
        s.rankers > 0,
        s.turns > 0,
    ensures
        s.following(Cursor::Agent { agent }, indexed) == (Cursor::Pipeline { agent, pipeline: 0 }),
        s.following(Cursor::Pipeline { agent, pipeline }, indexed) == (Cursor::Corpus {
            agent,
            pipeline,
            corpus: 0,
        }),
        s.following(Cursor::Corpus { agent, pipeline, corpus }, true) == (Cursor::Ranker {
            agent,
            pipeline,
            corpus,
            ranker: 0,
        }),
        s.following(Cursor::Ranker { agent, pipeline, corpus, ranker }, indexed) == (Cursor::Turn {
            agent,
            pipeline,
            corpus,
            ranker,
            turn: 0,
        }),
{
}

/// What has nothing in it is passed at once.
pub proof fn law_empty_stops_are_passed(
    s: Shape,
    agent: usize,
    pipeline: usize,
    corpus: usize,
    ranker: usize,
    indexed: bool,
)
    requires
        agent < s.agents,
        pipeline < s.pipelines || s.pipelines == 0,
        corpus < s.corpora || s.corpora == 0,
        ranker < s.rankers || s.rankers == 0,
    ensures
        s.pipelines == 0 ==> s.following(Cursor::Agent { agent }, indexed) == if agent + 1
            < s.agents {
            Cursor::Agent { agent: (agent + 1) as usize }
        } else {
            Cursor::Finished
        },
        s.corpora == 0 && s.pipelines > 0 ==> s.following(
            Cursor::Pipeline { agent, pipeline },
            indexed,
        ) == past_pipeline(s, agent, pipeline),
        s.rankers == 0 && s.corpora > 0 && s.pipelines > 0 ==> s.following(
            Cursor::Corpus { agent, pipeline, corpus },
            true,
        ) == past_corpus(s, agent, pipeline, corpus),
        s.turns == 0 && s.rankers > 0 && s.corpora > 0 && s.pipelines > 0 ==> s.following(
            Cursor::Ranker { agent, pipeline, corpus, ranker },
            indexed,
        ) == past_ranker(s, agent, pipeline, corpus, ranker),
{
}

/// A turn is followed by the next turn, the last by what comes after its
/// ranker; a corpus that is not indexed by what comes after it; the end by
/// nothing.
pub proof fn law_stops_close_with_the_next(
    s: Shape,
    agent: usize,
    pipeline: usize,
    corpus: usize,
    ranker: usize,
    turn: usize,
    indexed: bool,
)
    requires
        s.holds(Cursor::Turn { agent, pipeline, corpus, ranker, turn }),
    ensures
        s.following(Cursor::Turn { agent, pipeline, corpus, ranker, turn }, indexed) == if turn + 1
            < s.turns {
            Cursor::Turn { agent, pipeline, corpus, ranker, turn: (turn + 1) as usize }
        } else {
            past_ranker(s, agent, pipeline, corpus, ranker)
        },
        s.following(Cursor::Corpus { agent, pipeline, corpus }, false) == past_corpus(
            s,
            agent,
            pipeline,
            corpus,
        ),
        s.following(Cursor::Finished, indexed) is Finished,
{
}

/// A corpus that is not indexed is passed over, whatever else the matrix holds.
pub proof fn law_missing_corpora_are_passed(
    s: Shape,
    agent: usize,
    pipeline: usize,
    corpus: usize,
)
    requires
        agent < s.agents,
        pipeline < s.pipelines,
        corpus < s.corpora,
    ensures
        s.following(Cursor::Corpus { agent, pipeline, corpus }, false) == past_corpus(
            s,
            agent,
            pipeline,
            corpus,
        ),
{
}

// ── Steps ───────────────────────────────────────────────────────────────────

/// A run takes a count at a corpus, an answer at a turn, nothing at the end,
/// and the word that all is ready elsewhere; what it does not take changes
/// nothing.
pub proof fn law_runs_take_what_fits_the_stop(run: RunView, event: EventView)
    ensures
        run.expects(event) <==> {
            ||| run.cursor is Corpus && event is Matching
            ||| run.cursor is Turn && event is Answered
            ||| (run.cursor is Agent || run.cursor is Pipeline || run.cursor is Ranker)
                && event is Ready
        },
        !run.expects(event) ==> run.after(event) == run,
        run.after(event).shape == run.shape,
        run.after(event).chat == run.chat,
{
}

/// A run goes on to what follows; a corpus counts as indexed where at least
/// one chunk was counted.
pub proof fn law_runs_go_on(run: RunView, event: EventView)
    requires
        run.expects(event),
    ensures
        event matches EventView::Matching { chunks } ==> run.after(event).cursor
            == run.shape.following(run.cursor, chunks > 0),
        event !is Matching ==> run.after(event).cursor == run.shape.following(run.cursor, true),
{
}

/// A conversation grows by a question and its answer, in a chat only; a ranker
/// starts a new one; at every other stop it is kept.
pub proof fn law_runs_remember_the_conversation(run: RunView, event: EventView)
    requires
        run.expects(event),
    ensures
        run.cursor is Ranker ==> run.after(event).transcript.len() == 0,
        run.cursor !is Ranker && !(run.chat && run.cursor is Turn) ==> run.after(event).transcript
            == run.transcript,
        run.chat && run.cursor is Turn ==> {
            let later = run.after(event).transcript;
            &&& later.len() == run.transcript.len() + 1
            &&& later.drop_last() == run.transcript
            &&& later.last().0 == event->question
            &&& later.last().1 == event->answer
        },
{
    if run.chat && run.cursor is Turn {
        assert(run.after(event).transcript.drop_last() =~= run.transcript);
    }
}

} // verus!
