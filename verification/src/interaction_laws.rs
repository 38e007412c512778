//! What an interaction asks, remembers and writes, in terms of its headings,
//! its questions and what came of its stops.

use vstd::prelude::*;
use crate::interaction::{reached, Answer, InteractionView, LayoutView, Outcome};
use crate::matrix::{Cursor, Shape};
use crate::matrix_laws::past_corpus;
use crate::report::{
    answer_text, gate_text, plain_stats_text, question_text, reported, retrieved_text,
    search_text, stats_text,
};

verus! {

/// A layout fits a matrix exactly where it names every agent, pipeline, corpus
/// and ranker, and has every question.
pub proof fn law_layouts_fit_where_all_is_named(layout: LayoutView, shape: Shape)
    ensures
        layout.fits(shape) <==> {
            &&& layout.headings.agents.len() == shape.agents
            &&& layout.headings.pipelines.len() == shape.pipelines
            &&& layout.headings.corpora.len() == shape.corpora
            &&& layout.headings.rankers.len() == shape.rankers
            &&& layout.questions.len() == shape.turns
        },
{
}

/// An interaction is in order where its layout fits its matrix, both agree
/// whether it is a chat, and it stands inside its matrix.
pub proof fn law_interactions_in_order(state: InteractionView)
    ensures
        state.well_formed() <==> state.layout.fits(state.run.shape) && state.layout.chat
            == state.run.chat && state.run.shape.holds(state.run.cursor),
{
}

// ── Steps ───────────────────────────────────────────────────────────────────

/// At a turn an interaction takes an answer and nothing else.  In a chat the
/// conversation grows by the question of that turn and the text of the answer,
/// in that order; outside a chat it stays as it is.
pub proof fn law_answers_join_the_conversation(
    state: InteractionView,
    agent: usize,
    pipeline: usize,
    corpus: usize,
    ranker: usize,
    turn: usize,
    a: Answer,
    chunks: usize,
)
    requires
        state.well_formed(),
        state.run.cursor == (Cursor::Turn { agent, pipeline, corpus, ranker, turn }),
    ensures
        state.expects(Outcome::Answered(a)),
        !state.expects(Outcome::Ready),
        !state.expects(Outcome::Counted { chunks }),
        state.after(Outcome::Ready) == state,
        state.after(Outcome::Counted { chunks }) == state,
        ({
            let next = state.after(Outcome::Answered(a));
            &&& next.layout == state.layout
            &&& next.run.shape == state.run.shape
            &&& next.run.chat == state.run.chat
            &&& state.run.chat ==> next.run.transcript == state.run.transcript + seq![
                (state.layout.questions[turn as int], a.text@),
            ]
            &&& !state.run.chat ==> next.run.transcript == state.run.transcript
            &&& turn + 1 < state.layout.questions.len() ==> next.run.cursor == (Cursor::Turn {
                agent,
                pipeline,
                corpus,
                ranker,
                turn: (turn + 1) as usize,
            })
            &&& turn + 1 == state.layout.questions.len() ==> next.run.cursor !is Turn
        }),
{
    let next = state.after(Outcome::Answered(a));
    if state.run.chat {
        assert(next.run.transcript =~= state.run.transcript + seq![
            (state.layout.questions[turn as int], a.text@),
        ]);
    }
}

/// At a ranker an interaction takes the word that it is set and nothing else;
/// a new conversation starts, with the first question where there is one.
pub proof fn law_rankers_start_a_conversation(
    state: InteractionView,
    agent: usize,
    pipeline: usize,
    corpus: usize,
    ranker: usize,
    a: Answer,
    chunks: usize,
)
    requires
        state.well_formed(),
        state.run.cursor == (Cursor::Ranker { agent, pipeline, corpus, ranker }),
    ensures
        state.expects(Outcome::Ready),
        !state.expects(Outcome::Answered(a)),
        !state.expects(Outcome::Counted { chunks }),
        state.after(Outcome::Answered(a)) == state,
        state.after(Outcome::Counted { chunks }) == state,
        ({
            let next = state.after(Outcome::Ready);
            &&& next.layout == state.layout
            &&& next.run.shape == state.run.shape
            &&& next.run.chat == state.run.chat
            &&& next.run.transcript.len() == 0
            &&& state.layout.questions.len() > 0 ==> next.run.cursor == (Cursor::Turn {
                agent,
                pipeline,
                corpus,
                ranker,
                turn: 0,
            })
        }),
{
}

/// At a corpus an interaction takes a count, and in the plain style the word
/// that all is ready too.  It goes on to the first ranker where the corpus is
/// indexed, and past the corpus where no chunk was counted.
pub proof fn law_corpora_are_asked_where_they_are_indexed(
    state: InteractionView,
    agent: usize,
    pipeline: usize,
    corpus: usize,
    a: Answer,
    chunks: usize,
)
    requires
        state.well_formed(),
        state.run.cursor == (Cursor::Corpus { agent, pipeline, corpus }),
    ensures
        state.expects(Outcome::Counted { chunks }),
        state.expects(Outcome::Ready) <==> state.layout.style is Plain,
        !state.expects(Outcome::Answered(a)),
        state.after(Outcome::Answered(a)) == state,
        state.layout.style is Staged ==> state.after(Outcome::Ready) == state,
        state.after(Outcome::Counted { chunks }).layout == state.layout,
        state.after(Outcome::Counted { chunks }).run.transcript == state.run.transcript,
        state.after(Outcome::Ready).run.transcript == state.run.transcript,
        chunks == 0 ==> state.after(Outcome::Counted { chunks }).run.cursor == past_corpus(
            state.run.shape,
            agent,
            pipeline,
            corpus,
        ),
        chunks > 0 && state.run.shape.rankers > 0 ==> state.after(
            Outcome::Counted { chunks },
        ).run.cursor == (Cursor::Ranker { agent, pipeline, corpus, ranker: 0 }),
        state.layout.style is Plain && state.run.shape.rankers > 0 ==> state.after(
            Outcome::Ready,
        ).run.cursor == (Cursor::Ranker { agent, pipeline, corpus, ranker: 0 }),
{
}

/// At an agent and at a pipeline an interaction takes the word that all is
/// ready and nothing else, and goes on; at the end it takes nothing.
pub proof fn law_agents_and_pipelines_go_on(state: InteractionView, a: Answer, chunks: usize)
    requires
        state.well_formed(),
        state.run.cursor is Agent || state.run.cursor is Pipeline || state.run.cursor is Finished,
    ensures
        state.expects(Outcome::Ready) <==> state.run.cursor !is Finished,
        !state.expects(Outcome::Answered(a)),
        !state.expects(Outcome::Counted { chunks }),
        state.after(Outcome::Answered(a)) == state,
        state.after(Outcome::Counted { chunks }) == state,
        state.after(Outcome::Ready).layout == state.layout,
        state.after(Outcome::Ready).run.transcript == state.run.transcript,
        state.after(Outcome::Ready).run.cursor == state.run.shape.following(
            state.run.cursor,
            true,
        ),
{
}

// ── The conversation ────────────────────────────────────────────────────────

/// The pairs of the questions from `turn` on with the texts of `answers`.
pub open spec fn asked_and_answered(
    questions: Seq<Seq<char>>,
    turn: int,
    answers: Seq<Answer>,
) -> Seq<(Seq<char>, Seq<char>)> {
    Seq::new(answers.len(), |i: int| (questions[turn + i], answers[i].text@))
}

/// These answers, one after the other, as outcomes.
pub open spec fn all_answered(answers: Seq<Answer>) -> Seq<Outcome> {
    Seq::new(answers.len(), |i: int| Outcome::Answered(answers[i]))
}

/// From any turn of a ranker on, each answer joins the conversation behind the
/// question that it answers, and outside a chat none does.
pub proof fn law_conversations_grow_turn_by_turn(
    state: InteractionView,
    agent: usize,
    pipeline: usize,
    corpus: usize,
    ranker: usize,
    turn: usize,
    answers: Seq<Answer>,
)
    requires
        state.well_formed(),
        state.run.cursor == (Cursor::Turn { agent, pipeline, corpus, ranker, turn }),
        turn + answers.len() <= state.layout.questions.len(),
    ensures
        ({
            let end = reached(state, all_answered(answers));
            &&& end.layout == state.layout
            &&& state.run.chat ==> end.run.transcript == state.run.transcript + asked_and_answered(
                state.layout.questions,
                turn as int,
                answers,
            )
            &&& !state.run.chat ==> end.run.transcript == state.run.transcript
            &&& turn + answers.len() < state.layout.questions.len() ==> end.run.cursor
                == (Cursor::Turn {
                agent,
                pipeline,
                corpus,
                ranker,
                turn: (turn + answers.len()) as usize,
            })
        }),
    decreases answers.len(),
{
    let outcomes = all_answered(answers);
    let questions = state.layout.questions;
    if answers.len() == 0 {
        assert(state.run.transcript + asked_and_answered(questions, turn as int, answers)
            =~= state.run.transcript);
    } else {
        let a = answers[0];
        let rest = answers.drop_first();
        let next = state.after(Outcome::Answered(a));
        law_answers_join_the_conversation(state, agent, pipeline, corpus, ranker, turn, a, 0);
        assert(outcomes[0] == Outcome::Answered(a));
        assert(outcomes.drop_first() =~= all_answered(rest));
        assert(reached(state, outcomes) == reached(next, all_answered(rest)));
        if rest.len() == 0 {
            assert(state.run.transcript + asked_and_answered(questions, turn as int, answers)
                =~= state.run.transcript + seq![(questions[turn as int], a.text@)]);
        } else {
            let later = (turn + 1) as usize;
            law_conversations_grow_turn_by_turn(
                next,
                agent,
                pipeline,
                corpus,
                ranker,
                later,
                rest,
            );
            assert(state.run.transcript + seq![(questions[turn as int], a.text@)]
                + asked_and_answered(questions, later as int, rest) =~= state.run.transcript
                + asked_and_answered(questions, turn as int, answers));
        }
    }
}

/// In a chat, once a ranker is set and its first turns came out with these
/// answers, the conversation is exactly the questions of those turns with the
/// texts of their answers: whatever was said before, nothing of it is left.
/// Outside a chat there is no conversation.
pub proof fn law_conversations_are_questions_with_their_answers(
    state: InteractionView,
    answers: Seq<Answer>,
)
    requires
        state.well_formed(),
        state.run.cursor is Ranker,
        answers.len() <= state.layout.questions.len(),
    ensures
        ({
            let end = reached(state, seq![Outcome::Ready] + all_answered(answers));
            let said = end.run.transcript;
            &&& state.run.chat ==> said.len() == answers.len() && forall|i: int|
                0 <= i < answers.len() ==> (#[trigger] said[i]).0 == state.layout.questions[i]
                    && said[i].1 == answers[i].text@
            &&& !state.run.chat ==> said.len() == 0
        }),
{
    let outcomes = seq![Outcome::Ready] + all_answered(answers);
    let next = state.after(Outcome::Ready);
    assert(outcomes[0] == Outcome::Ready);
    assert(outcomes.drop_first() =~= all_answered(answers));
    assert(reached(state, outcomes) == reached(next, all_answered(answers)));
    if let Cursor::Ranker { agent, pipeline, corpus, ranker } = state.run.cursor {
        if answers.len() > 0 {
            law_conversations_grow_turn_by_turn(
                next,
                agent,
                pipeline,
                corpus,
                ranker,
                0,
                answers,
            );
            assert(next.run.transcript + asked_and_answered(state.layout.questions, 0, answers)
                =~= asked_and_answered(state.layout.questions, 0, answers));
        }
    }
}

// ── What is written ─────────────────────────────────────────────────────────

/// A turn opens with its own question, except in a chat of the plain style,
/// where nothing is written before the answer; every other stop opens with its
/// heading.
pub proof fn law_stops_open_with_question_or_heading(layout: LayoutView, stop: Cursor)
    ensures
        stop matches Cursor::Turn { turn, .. } ==> layout.opening(stop) == if layout.style is Plain
            && layout.chat {
            Seq::empty()
        } else {
            question_text(layout.chat, turn as nat, layout.questions[turn as int])
        },
        stop !is Turn ==> layout.opening(stop) == layout.headings.at(stop),
{
}

/// A count at a corpus closes with what is said of that very pipeline and that
/// very corpus.
pub proof fn law_counts_close_with_what_is_missing(
    layout: LayoutView,
    agent: usize,
    pipeline: usize,
    corpus: usize,
    chunks: usize,
)
    ensures
        layout.closing(
            Cursor::Corpus { agent, pipeline, corpus },
            Outcome::Counted { chunks },
        ) == gate_text(
            chunks as nat,
            layout.headings.pipelines[pipeline as int],
            layout.headings.corpora[corpus as int],
            layout.workspace,
        ),
{
}

/// An answer closes, in the staged style, with its figures under the ranker of
/// the turn, the chunks that it is based on, and its text; in the plain style
/// with its search, in a chat the question of the turn, its figures, and its
/// text.
pub proof fn law_answers_close_with_figures_and_text(
    layout: LayoutView,
    agent: usize,
    pipeline: usize,
    corpus: usize,
    ranker: usize,
    turn: usize,
    a: Answer,
)
    ensures
        ({
            let stop = Cursor::Turn { agent, pipeline, corpus, ranker, turn };
            let text = layout.closing(stop, Outcome::Answered(a));
            &&& layout.style is Staged ==> text == stats_text(
                layout.headings.rankers[ranker as int],
                a.stats,
                a.stages,
            ) + retrieved_text(reported(a.chunks), a.text@) + answer_text(a.text@)
            &&& layout.style is Plain && a.search is Some && layout.chat ==> text == search_text(
                a.search->0,
            ) + question_text(true, turn as nat, layout.questions[turn as int]) + plain_stats_text(
                a.stats,
            ) + answer_text(a.text@)
            &&& layout.style is Plain && a.search is Some && !layout.chat ==> text == search_text(
                a.search->0,
            ) + plain_stats_text(a.stats) + answer_text(a.text@)
            &&& layout.style is Plain && a.search is None && layout.chat ==> text == question_text(
                true,
                turn as nat,
                layout.questions[turn as int],
            ) + plain_stats_text(a.stats) + answer_text(a.text@)
            &&& layout.style is Plain && a.search is None && !layout.chat ==> text
                == plain_stats_text(a.stats) + answer_text(a.text@)
        }),
{
    let none = Seq::<char>::empty();
    if layout.style is Plain {
        let stop = Cursor::Turn { agent, pipeline, corpus, ranker, turn };
        let text = layout.closing(stop, Outcome::Answered(a));
        let q = question_text(true, turn as nat, layout.questions[turn as int]);
        let rest = plain_stats_text(a.stats);
        assert(none + q =~= q);
        assert(none + none + rest =~= rest);
        if let Some(found) = a.search {
            assert(search_text(found) + none =~= search_text(found));
        }
    }
}

/// Where all is ready, and where an outcome does not belong to its stop, a stop
/// closes with nothing.
pub proof fn law_other_stops_close_with_nothing(
    layout: LayoutView,
    stop: Cursor,
    chunks: usize,
    a: Answer,
)
    ensures
        layout.closing(stop, Outcome::Ready).len() == 0,
        stop !is Corpus ==> layout.closing(stop, Outcome::Counted { chunks }).len() == 0,
        stop !is Turn ==> layout.closing(stop, Outcome::Answered(a)).len() == 0,
{
}

/// The log names the agent and the corpus of a turn of a chat; of another turn
/// the pipeline too, and in the staged style the ranker.
pub proof fn law_turns_are_placed_by_name(
    layout: LayoutView,
    agent: usize,
    pipeline: usize,
    corpus: usize,
    ranker: usize,
    turn: usize,
)
    ensures
        ({
            let place = layout.place(Cursor::Turn { agent, pipeline, corpus, ranker, turn });
            let a = layout.headings.agents[agent as int];
            let p = layout.headings.pipelines[pipeline as int];
            let c = layout.headings.corpora[corpus as int];
            let r = layout.headings.rankers[ranker as int];
            &&& layout.chat ==> place == a + " / "@ + c
            &&& !layout.chat && layout.style is Plain ==> place == a + " / "@ + p + " / "@ + c
            &&& !layout.chat && layout.style is Staged ==> place == a + " / "@ + p + " / "@ + c
                + " / "@ + r
        }),
{
}

} // verus!
