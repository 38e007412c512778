//! The interaction: a run over the matrix together with the report that it
//! writes.
//!
//! At each stop the program writes the opening, does what the cursor says, and
//! hands the outcome over; what comes back is the rest of the stop's text.

use vstd::prelude::*;
use vstd::string::StringExecFns;
use crate::itinerary::{agrees, itinerary, law_step_follows_itinerary};
use crate::matrix::{turns_text, Cursor, Event, EventView, Run, RunView, Shape};
use crate::progress::{asking_chat, asking_query, asking_ranked_query, asking_text};
use crate::report::{
    answer, answer_text, error_answer, error_answer_text, gate, gate_text, plain_stats,
    plain_stats_text, question, question_text, reported, retrieved, retrieved_text, search,
    search_text, stats, stats_text, CellStats, Headings, HeadingsView, RetrievedChunk,
    SearchOutcome, StageStats,
};
use crate::text::texts;

verus! {

// ── Layout ──────────────────────────────────────────────────────────────────

/// How a report is written.
#[derive(Clone, Copy, Debug, PartialEq, Eq, Structural)]
pub enum Style {
    /// Against a database that another process built: provenances may be
    /// missing, rankers are swept, the answer comes with the chunks it is
    /// based on.
    Staged,
    /// In the process that indexed the corpora: nothing is missing, no ranker
    /// is swept, the chunks come from a search of their own.
    Plain,
}

/// What an agent answered, with its figures.
#[derive(Debug)]
pub struct Answer {
    pub text: String,
    pub stats: CellStats,
    pub stages: StageStats,
    /// The chunks that the agent reports.
    pub chunks: Option<Vec<RetrievedChunk>>,
    /// The search made beside the answer, if any.
    pub search: Option<SearchOutcome>,
}

/// What an agent replied, before the settings are known that it was asked with.
#[derive(Debug)]
pub struct Reply {
    pub text: String,
    /// How many chunks went into the context, where that is reported.
    pub chunks_retrieved: Option<usize>,
    /// The chunks themselves, where they are reported.
    pub retrieved: Option<Vec<RetrievedChunk>>,
    /// Seconds of the whole reply, where they were measured.
    pub total_secs: Option<String>,
    /// Seconds of the embedding.
    pub embed_secs: String,
    /// Seconds of the generation.
    pub generate_secs: String,
}

/// The answer that a reply gives, or that a failure to reply gives: then the
/// text says what failed, nothing was retrieved, and no time was measured.
pub fn answer_of(
    reply: Result<Reply, String>,
    threshold: String,
    top_k: usize,
    context_tokens: usize,
) -> (r: Answer)
    ensures
        r.stats.threshold == threshold,
        r.stats.top_k == top_k,
        r.stats.context_tokens == context_tokens,
        r.search is None,
        match reply {
            Ok(p) => {
                &&& r.text == p.text
                &&& r.chunks == p.retrieved
                &&& r.stats.chunks == p.chunks_retrieved
                &&& r.stats.total_secs@ == match p.total_secs {
                    Some(secs) => secs@,
                    None => "0.0"@,
                }
                &&& r.stages.embed_secs == p.embed_secs
                &&& r.stages.generate_secs == p.generate_secs
            },
            Err(cause) => {
                &&& r.text@ == error_answer_text(cause@)
                &&& r.chunks is None
                &&& r.stats.chunks is None
                &&& r.stats.total_secs@ == "0.0"@
                &&& r.stages.embed_secs@ == "0.0"@
                &&& r.stages.generate_secs@ == "0.0"@
            },
        },
{
    match reply {
        Ok(p) => {
            let total_secs: String = match p.total_secs {
                Some(secs) => secs,
                None => String::from_str("0.0"),
            };
            Answer {
                text: p.text,
                stats: CellStats {
                    threshold,
                    top_k,
                    chunks: p.chunks_retrieved,
                    context_tokens,
                    total_secs,
                },
                stages: StageStats { embed_secs: p.embed_secs, generate_secs: p.generate_secs },
                chunks: p.retrieved,
                search: None,
            }
        },
        Err(cause) => Answer {
            text: error_answer(cause.as_str()),
            stats: CellStats {
                threshold,
                top_k,
                chunks: None,
                context_tokens,
                total_secs: String::from_str("0.0"),
            },
            stages: StageStats {
                embed_secs: String::from_str("0.0"),
                generate_secs: String::from_str("0.0"),
            },
            chunks: None,
            search: None,
        },
    }
}

/// What came of a stop.
#[derive(Debug)]
pub enum Outcome {
    /// An agent was built, a ranker set, or there was nothing to do.
    Ready,
    /// So many chunks of the store belong to the provenance of the corpus.
    Counted { chunks: usize },
    /// The agent answered the question.
    Answered(Answer),
}

/// What the text of a report depends on besides the outcomes.
pub struct LayoutView {
    pub style: Style,
    pub chat: bool,
    pub headings: HeadingsView,
    pub questions: Seq<Seq<char>>,
    pub workspace: Seq<char>,
}

impl LayoutView {
    /// The layout is made for a matrix of this shape.
    pub open spec fn fits(self, shape: Shape) -> bool {
        self.headings.fits(shape) && self.questions.len() == shape.turns
    }

    /// What is written before the step at a stop: its heading, or the question
    /// of a turn.  In a chat of the plain style the question follows the
    /// search.
    pub open spec fn opening(self, stop: Cursor) -> Seq<char> {
        match stop {
            Cursor::Turn { turn, .. } => if self.style is Plain && self.chat {
                Seq::empty()
            } else {
                question_text(self.chat, turn as nat, self.questions[turn as int])
            },
            _ => self.headings.at(stop),
        }
    }

    /// A cell below its question: figures, chunks, answer.
    pub open spec fn staged_cell(self, ranker: int, a: Answer) -> Seq<char> {
        stats_text(self.headings.rankers[ranker], a.stats, a.stages) + retrieved_text(
            reported(a.chunks),
            a.text@,
        ) + answer_text(a.text@)
    }

    /// A cell of the plain style: the search, the question of a chat, figures,
    /// answer.
    pub open spec fn plain_cell(self, turn: int, a: Answer) -> Seq<char> {
        (match a.search {
            Some(outcome) => search_text(outcome),
            None => Seq::empty(),
        }) + (if self.chat {
            question_text(true, turn as nat, self.questions[turn])
        } else {
            Seq::empty()
        }) + plain_stats_text(a.stats) + answer_text(a.text@)
    }

    /// What is written after the step at a stop.
    pub open spec fn closing(self, stop: Cursor, outcome: Outcome) -> Seq<char> {
        match (stop, outcome) {
            (Cursor::Corpus { pipeline, corpus, .. }, Outcome::Counted { chunks }) => gate_text(
                chunks as nat,
                self.headings.pipelines[pipeline as int],
                self.headings.corpora[corpus as int],
                self.workspace,
            ),
            (Cursor::Turn { ranker, turn, .. }, Outcome::Answered(a)) => match self.style {
                Style::Staged => self.staged_cell(ranker as int, a),
                Style::Plain => self.plain_cell(turn as int, a),
            },
            _ => Seq::empty(),
        }
    }

    /// All that a stop adds to the report.
    pub open spec fn block(self, stop: Cursor, outcome: Outcome) -> Seq<char> {
        self.opening(stop) + self.closing(stop, outcome)
    }

    /// The outcome as an event of the run.  In the plain style a corpus needs
    /// no count: it is indexed.
    pub open spec fn event(self, stop: Cursor, outcome: Outcome) -> EventView {
        match (stop, outcome) {
            (Cursor::Corpus { .. }, Outcome::Ready) => if self.style is Plain {
                EventView::Matching { chunks: 1 }
            } else {
                EventView::Ready
            },
            (_, Outcome::Ready) => EventView::Ready,
            (_, Outcome::Counted { chunks }) => EventView::Matching { chunks: chunks as nat },
            (Cursor::Turn { turn, .. }, Outcome::Answered(a)) => EventView::Answered {
                question: self.questions[turn as int],
                answer: a.text@,
            },
            (_, Outcome::Answered(a)) => EventView::Answered {
                question: Seq::empty(),
                answer: a.text@,
            },
        }
    }

    /// Where the question of a turn is asked, for the log.
    pub open spec fn place(self, stop: Cursor) -> Seq<char> {
        match stop {
            Cursor::Turn { agent, pipeline, corpus, ranker, .. } => {
                let a = self.headings.agents[agent as int];
                let p = self.headings.pipelines[pipeline as int];
                let c = self.headings.corpora[corpus as int];
                if self.chat {
                    a + " / "@ + c
                } else if self.style is Plain {
                    a + " / "@ + p + " / "@ + c
                } else {
                    a + " / "@ + p + " / "@ + c + " / "@ + self.headings.rankers[ranker as int]
                }
            },
            _ => Seq::empty(),
        }
    }
}

// ── The interaction ─────────────────────────────────────────────────────────

/// The state of an interaction.
pub struct InteractionView {
    pub layout: LayoutView,
    pub run: RunView,
}

impl InteractionView {
    /// The layout is made for the run, and the run stands inside its matrix.
    pub open spec fn well_formed(self) -> bool {
        &&& self.layout.fits(self.run.shape)
        &&& self.layout.chat == self.run.chat
        &&& self.run.shape.holds(self.run.cursor)
    }

    /// Whether `outcome` can be what came of the stop at the cursor.
    pub open spec fn expects(self, outcome: Outcome) -> bool {
        self.run.expects(self.layout.event(self.run.cursor, outcome))
    }

    /// The state after `outcome`.
    pub open spec fn after(self, outcome: Outcome) -> InteractionView {
        InteractionView {
            layout: self.layout,
            run: self.run.after(self.layout.event(self.run.cursor, outcome)),
        }
    }
}

/// A run over the matrix together with the report that it writes.
pub struct Interaction {
    style: Style,
    chat: bool,
    headings: Headings,
    questions: Vec<String>,
    workspace: String,
    run: Run,
}

impl View for Interaction {
    type V = InteractionView;

    closed spec fn view(&self) -> InteractionView {
        InteractionView {
            layout: LayoutView {
                style: self.style,
                chat: self.chat,
                headings: self.headings@,
                questions: texts(self.questions@),
                workspace: self.workspace@,
            },
            run: self.run@,
        }
    }
}

impl Interaction {
    /// An interaction at its start: every agent is asked all questions, one
    /// after the other in a chat, each for itself otherwise.
    pub fn begin(
        style: Style,
        chat: bool,
        headings: Headings,
        questions: Vec<String>,
        workspace: String,
    ) -> (r: Interaction)
        ensures
            r@.well_formed(),
            r@.layout == (LayoutView {
                style,
                chat,
                headings: headings@,
                questions: texts(questions@),
                workspace: workspace@,
            }),
            exists|shape: Shape| #[trigger]
                r@.layout.fits(shape) && r@.run == RunView::start(shape, chat),
    {
        let shape: Shape = headings.shape(questions.len());
        let run: Run = Run::begin(shape, chat);
        let r = Interaction { style, chat, headings, questions, workspace, run };
        assert(r@.layout.fits(shape));
        r
    }

    /// What to do next.
    pub fn cursor(&self) -> (r: Cursor)
        ensures
            r == self@.run.cursor,
    {
        self.run.cursor()
    }

    /// The conversation that precedes the next question.
    pub fn transcript(&self) -> (r: &Vec<(String, String)>)
        ensures
            turns_text(r@) == self@.run.transcript,
    {
        self.run.transcript()
    }

    /// The question at the cursor, where it is a turn.
    pub fn question(&self) -> (r: Option<&String>)
        requires
            self@.well_formed(),
        ensures
            match self@.run.cursor {
                Cursor::Turn { turn, .. } => r is Some && r->0@ == self@.layout.questions[turn as int],
                _ => r is None,
            },
    {
        match self.run.cursor() {
            Cursor::Turn { turn, .. } => Some(&self.questions[turn]),
            _ => None,
        }
    }

    /// What is logged when a question is asked.
    pub fn announcement(&self) -> (r: String)
        requires
            self@.well_formed(),
        ensures
            match self@.run.cursor {
                Cursor::Turn { turn, .. } => r@ == asking_text(
                    self@.layout.place(self@.run.cursor),
                    self@.layout.questions[turn as int],
                ),
                _ => r@ == Seq::<char>::empty(),
            },
    {
        match self.run.cursor() {
            Cursor::Turn { agent, pipeline, corpus, ranker, turn } => {
                let a: &str = self.headings.agents[agent].as_str();
                let p: &str = self.headings.pipelines[pipeline].as_str();
                let c: &str = self.headings.corpora[corpus].as_str();
                let text: &str = self.questions[turn].as_str();
                if self.chat {
                    asking_chat(a, c, text)
                } else {
                    match self.style {
                        Style::Plain => asking_query(a, p, c, text),
                        Style::Staged => asking_ranked_query(
                            a,
                            p,
                            c,
                            self.headings.rankers[ranker].as_str(),
                            text,
                        ),
                    }
                }
            },
            _ => String::new(),
        }
    }

    /// What is written before the step at the cursor.
    pub fn opening(&self) -> (r: String)
        requires
            self@.well_formed(),
        ensures
            r@ == self@.layout.opening(self@.run.cursor),
    {
        let stop: Cursor = self.run.cursor();
        match stop {
            Cursor::Turn { turn, .. } => {
                let n: usize = self.questions.len();
                assert(turn < n);
                let plain: bool = match self.style {
                    Style::Plain => true,
                    Style::Staged => false,
                };
                if plain && self.chat {
                    String::new()
                } else {
                    question(self.chat, turn, self.questions[turn].as_str())
                }
            },
            _ => {
                assert(self@.layout.headings.fits(self@.run.shape));
                self.headings.heading(stop)
            },
        }
    }

    fn staged_cell(&self, ranker: usize, a: &Answer) -> (r: String)
        requires
            ranker < self@.layout.headings.rankers.len(),
        ensures
            r@ == self@.layout.staged_cell(ranker as int, *a),
    {
        let mut r: String = stats(self.headings.rankers[ranker].as_str(), &a.stats, &a.stages);
        r.append(retrieved(&a.chunks, a.text.as_str()).as_str());
        r.append(answer(a.text.as_str()).as_str());
        r
    }

    fn plain_cell(&self, turn: usize, a: &Answer) -> (r: String)
        requires
            turn < self@.layout.questions.len(),
        ensures
            r@ == self@.layout.plain_cell(turn as int, *a),
    {
        let n: usize = self.questions.len();
        assert(turn < n);
        let mut r: String = match &a.search {
            Some(outcome) => search(outcome),
            None => String::new(),
        };
        let asked: String = if self.chat {
            question(true, turn, self.questions[turn].as_str())
        } else {
            String::new()
        };
        r.append(asked.as_str());
        r.append(plain_stats(&a.stats).as_str());
        r.append(answer(a.text.as_str()).as_str());
        r
    }

    /// What is written after the step at a stop.
    fn closing(&self, stop: Cursor, outcome: &Outcome) -> (r: String)
        requires
            self@.layout.fits(self@.run.shape),
            self@.run.shape.holds(stop),
        ensures
            r@ == self@.layout.closing(stop, *outcome),
    {
        match (stop, outcome) {
            (Cursor::Corpus { pipeline, corpus, .. }, Outcome::Counted { chunks }) => gate(
                *chunks,
                self.headings.pipelines[pipeline].as_str(),
                self.headings.corpora[corpus].as_str(),
                self.workspace.as_str(),
            ),
            (Cursor::Turn { ranker, turn, .. }, Outcome::Answered(a)) => match self.style {
                Style::Staged => self.staged_cell(ranker, a),
                Style::Plain => self.plain_cell(turn, a),
            },
            _ => String::new(),
        }
    }

    /// Takes what came of the stop at the cursor, moves on, and gives the rest
    /// of the text of that stop.  Where it cannot be what came of the stop,
    /// nothing changes and there is no text.
    pub fn conclude(&mut self, outcome: Outcome) -> (r: Option<String>)
        requires
            old(self)@.well_formed(),
        ensures
            final(self)@.well_formed(),
            final(self)@ == old(self)@.after(outcome),
            match r {
                Some(text) => old(self)@.expects(outcome) && text@ == old(self)@.layout.closing(
                    old(self)@.run.cursor,
                    outcome,
                ),
                None => !old(self)@.expects(outcome),
            },
    {
        let stop: Cursor = self.run.cursor();
        let text: String = self.closing(stop, &outcome);
        let plain: bool = match self.style {
            Style::Plain => true,
            Style::Staged => false,
        };
        let event: Event = match (stop, outcome) {
            (Cursor::Corpus { .. }, Outcome::Ready) => if plain {
                Event::Matching { chunks: 1 }
            } else {
                Event::Ready
            },
            (_, Outcome::Ready) => Event::Ready,
            (_, Outcome::Counted { chunks }) => Event::Matching { chunks },
            (Cursor::Turn { turn, .. }, Outcome::Answered(a)) => Event::Answered {
                question: self.questions[turn].clone(),
                answer: a.text,
            },
            (_, Outcome::Answered(a)) => Event::Answered {
                question: String::new(),
                answer: a.text,
            },
        };
        assert(event@ == self@.layout.event(stop, outcome));
        if self.run.advance(event) {
            Some(text)
        } else {
            None
        }
    }
}

// ── Laws ────────────────────────────────────────────────────────────────────

/// What an interaction writes from `state` on when the stops come out so.
pub open spec fn written(state: InteractionView, outcomes: Seq<Outcome>) -> Seq<char>
    decreases outcomes.len(),
{
    if outcomes.len() == 0 {
        Seq::empty()
    } else {
        state.layout.opening(state.run.cursor) + state.layout.closing(
            state.run.cursor,
            outcomes[0],
        ) + written(state.after(outcomes[0]), outcomes.drop_first())
    }
}

/// The state from `state` on when the stops come out so.
pub open spec fn reached(state: InteractionView, outcomes: Seq<Outcome>) -> InteractionView
    decreases outcomes.len(),
{
    if outcomes.len() == 0 {
        state
    } else {
        reached(state.after(outcomes[0]), outcomes.drop_first())
    }
}

/// The blocks of these stops, one after the other.
pub open spec fn blocks(
    layout: LayoutView,
    stops: Seq<Cursor>,
    outcome_at: spec_fn(Cursor) -> Outcome,
) -> Seq<char>
    decreases stops.len(),
{
    if stops.len() == 0 {
        Seq::empty()
    } else {
        layout.block(stops[0], outcome_at(stops[0])) + blocks(
            layout,
            stops.drop_first(),
            outcome_at,
        )
    }
}

/// What comes of every stop of the matrix fits the stop, and counts agree with
/// `indexed`.
pub open spec fn plausible(
    layout: LayoutView,
    shape: Shape,
    indexed: spec_fn(int, int, int) -> bool,
    outcome_at: spec_fn(Cursor) -> Outcome,
) -> bool {
    forall|stop: Cursor|
        shape.holds(stop) && stop !is Finished ==> {
            let event = layout.event(stop, #[trigger] outcome_at(stop));
            &&& agrees(indexed, stop, event)
            &&& match stop {
                Cursor::Corpus { .. } => event is Matching,
                Cursor::Turn { .. } => event is Answered,
                _ => event is Ready,
            }
        }
}

/// The report is the blocks of the stops of the matrix in the order of the
/// itinerary, each once, and with the last of them the interaction is over:
/// whatever the agents answer, the layout is that of the matrix.
pub proof fn law_report_follows_the_matrix(
    state: InteractionView,
    indexed: spec_fn(int, int, int) -> bool,
    outcome_at: spec_fn(Cursor) -> Outcome,
)
    requires
        state.well_formed(),
        plausible(state.layout, state.run.shape, indexed, outcome_at),
    ensures
        ({
            let stops = itinerary(state.run.shape, indexed, state.run.cursor);
            let outcomes = Seq::new(stops.len(), |i: int| outcome_at(stops[i]));
            &&& written(state, outcomes) == blocks(state.layout, stops, outcome_at)
            &&& reached(state, outcomes).run.cursor is Finished
        }),
    decreases itinerary(state.run.shape, indexed, state.run.cursor).len(),
{
    let at = state.run.cursor;
    let stops = itinerary(state.run.shape, indexed, at);
    let outcomes = Seq::new(stops.len(), |i: int| outcome_at(stops[i]));
    if at is Finished {
        assert(stops.len() == 0);
    } else {
        let outcome = outcome_at(at);
        let event = state.layout.event(at, outcome);
        assert(state.run.expects(event));
        law_step_follows_itinerary(state.run, event, indexed);
        let next = state.after(outcome);
        lemma_following_holds(state.run.shape, at, event matches EventView::Matching { chunks } ==> chunks > 0);
        let rest = itinerary(next.run.shape, indexed, next.run.cursor);
        assert(stops == seq![at] + rest);
        assert(stops.drop_first() =~= rest);
        assert(stops[0] == at);
        law_report_follows_the_matrix(next, indexed, outcome_at);
        let later = Seq::new(rest.len(), |i: int| outcome_at(rest[i]));
        assert(outcomes.drop_first() =~= later);
        assert(outcomes[0] == outcome);
        assert(written(state, outcomes) =~= state.layout.block(at, outcome) + written(next, later));
    }
}

proof fn lemma_following_holds(shape: Shape, at: Cursor, indexed: bool)
    requires
        shape.holds(at),
    ensures
        shape.holds(shape.following(at, indexed)),
{
}

} // verus!
