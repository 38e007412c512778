//! The benchmark matrix: agents × pipelines × corpora × rankers × turns.
//!
//! A run is a machine.  [`Run::cursor`] says what to do next, the program does
//! it, and [`Run::advance`] takes the outcome and moves on.

use vstd::prelude::*;

verus! {

// ── Where a run stands ──────────────────────────────────────────────────────

/// How many of each the matrix has.
#[derive(Clone, Copy, Debug, PartialEq, Eq, Structural)]
pub struct Shape {
    pub agents: usize,
    pub pipelines: usize,
    pub corpora: usize,
    pub rankers: usize,
    /// Queries, or messages of the chat.
    pub turns: usize,
}

/// The next thing to do.
#[derive(Clone, Copy, Debug, PartialEq, Eq, Structural)]
pub enum Cursor {
    /// Build the agent and write its heading.
    Agent { agent: usize },
    /// Write the pipeline's heading.
    Pipeline { agent: usize, pipeline: usize },
    /// Write the corpus's heading and count the chunks of its provenance.
    Corpus { agent: usize, pipeline: usize, corpus: usize },
    /// Write the ranker's heading and put the ranker into the store.
    Ranker { agent: usize, pipeline: usize, corpus: usize, ranker: usize },
    /// Ask one question.
    Turn { agent: usize, pipeline: usize, corpus: usize, ranker: usize, turn: usize },
    /// Nothing is left.
    Finished,
}

impl Shape {
    /// The cursor stands inside the matrix.
    pub open spec fn holds(self, at: Cursor) -> bool {
        match at {
            Cursor::Agent { agent } => agent < self.agents,
            Cursor::Pipeline { agent, pipeline } => agent < self.agents && pipeline
                < self.pipelines,
            Cursor::Corpus { agent, pipeline, corpus } => agent < self.agents && pipeline
                < self.pipelines && corpus < self.corpora,
            Cursor::Ranker { agent, pipeline, corpus, ranker } => agent < self.agents && pipeline
                < self.pipelines && corpus < self.corpora && ranker < self.rankers,
            Cursor::Turn { agent, pipeline, corpus, ranker, turn } => agent < self.agents
                && pipeline < self.pipelines && corpus < self.corpora && ranker < self.rankers
                && turn < self.turns,
            Cursor::Finished => true,
        }
    }

    /// The agent `a`, or the end where there is none.
    pub open spec fn at_agent(self, a: int) -> Cursor {
        if a < self.agents {
            Cursor::Agent { agent: a as usize }
        } else {
            Cursor::Finished
        }
    }

    /// The pipeline `p`, or what follows the last pipeline.
    pub open spec fn at_pipeline(self, a: int, p: int) -> Cursor {
        if p < self.pipelines {
            Cursor::Pipeline { agent: a as usize, pipeline: p as usize }
        } else {
            self.at_agent(a + 1)
        }
    }

    /// The corpus `c`, or what follows the last corpus.
    pub open spec fn at_corpus(self, a: int, p: int, c: int) -> Cursor {
        if c < self.corpora {
            Cursor::Corpus { agent: a as usize, pipeline: p as usize, corpus: c as usize }
        } else {
            self.at_pipeline(a, p + 1)
        }
    }

    /// The ranker `r`, or what follows the last ranker.
    pub open spec fn at_ranker(self, a: int, p: int, c: int, r: int) -> Cursor {
        if r < self.rankers {
            Cursor::Ranker {
                agent: a as usize,
                pipeline: p as usize,
                corpus: c as usize,
                ranker: r as usize,
            }
        } else {
            self.at_corpus(a, p, c + 1)
        }
    }

    /// The turn `q`, or what follows the last turn.
    pub open spec fn at_turn(self, a: int, p: int, c: int, r: int, q: int) -> Cursor {
        if q < self.turns {
            Cursor::Turn {
                agent: a as usize,
                pipeline: p as usize,
                corpus: c as usize,
                ranker: r as usize,
                turn: q as usize,
            }
        } else {
            self.at_ranker(a, p, c, r + 1)
        }
    }

    /// What follows `at`; `indexed` says, of a corpus, whether the store holds
    /// chunks of its provenance.
    pub open spec fn following(self, at: Cursor, indexed: bool) -> Cursor {
        match at {
            Cursor::Agent { agent } => self.at_pipeline(agent as int, 0),
            Cursor::Pipeline { agent, pipeline } => self.at_corpus(
                agent as int,
                pipeline as int,
                0,
            ),
            Cursor::Corpus { agent, pipeline, corpus } => if indexed {
                self.at_ranker(agent as int, pipeline as int, corpus as int, 0)
            } else {
                self.at_corpus(agent as int, pipeline as int, corpus + 1)
            },
            Cursor::Ranker { agent, pipeline, corpus, ranker } => self.at_turn(
                agent as int,
                pipeline as int,
                corpus as int,
                ranker as int,
                0,
            ),
            Cursor::Turn { agent, pipeline, corpus, ranker, turn } => self.at_turn(
                agent as int,
                pipeline as int,
                corpus as int,
                ranker as int,
                turn + 1,
            ),
            Cursor::Finished => Cursor::Finished,
        }
    }

    fn to_agent(&self, a: usize) -> (r: Cursor)
        ensures
            r == self.at_agent(a as int),
            self.holds(r),
    {
        if a < self.agents {
            Cursor::Agent { agent: a }
        } else {
            Cursor::Finished
        }
    }

    fn to_pipeline(&self, a: usize, p: usize) -> (r: Cursor)
        requires
            a < self.agents,
        ensures
            r == self.at_pipeline(a as int, p as int),
            self.holds(r),
    {
        if p < self.pipelines {
            Cursor::Pipeline { agent: a, pipeline: p }
        } else {
            self.to_agent(a + 1)
        }
    }

    fn to_corpus(&self, a: usize, p: usize, c: usize) -> (r: Cursor)
        requires
            a < self.agents,
            p < self.pipelines,
        ensures
            r == self.at_corpus(a as int, p as int, c as int),
            self.holds(r),
    {
        if c < self.corpora {
            Cursor::Corpus { agent: a, pipeline: p, corpus: c }
        } else {
            self.to_pipeline(a, p + 1)
        }
    }

    fn to_ranker(&self, a: usize, p: usize, c: usize, r: usize) -> (next: Cursor)
        requires
            a < self.agents,
            p < self.pipelines,
            c < self.corpora,
        ensures
            next == self.at_ranker(a as int, p as int, c as int, r as int),
            self.holds(next),
    {
        if r < self.rankers {
            Cursor::Ranker { agent: a, pipeline: p, corpus: c, ranker: r }
        } else {
            self.to_corpus(a, p, c + 1)
        }
    }

    fn to_turn(&self, a: usize, p: usize, c: usize, r: usize, q: usize) -> (next: Cursor)
        requires
            a < self.agents,
            p < self.pipelines,
            c < self.corpora,
            r < self.rankers,
        ensures
            next == self.at_turn(a as int, p as int, c as int, r as int, q as int),
            self.holds(next),
    {
        if q < self.turns {
            Cursor::Turn { agent: a, pipeline: p, corpus: c, ranker: r, turn: q }
        } else {
            self.to_ranker(a, p, c, r + 1)
        }
    }

    /// What follows `at` in the matrix.
    pub fn next(&self, at: Cursor, indexed: bool) -> (r: Cursor)
        requires
            self.holds(at),
        ensures
            r == self.following(at, indexed),
            self.holds(r),
    {
        match at {
            Cursor::Agent { agent } => self.to_pipeline(agent, 0),
            Cursor::Pipeline { agent, pipeline } => self.to_corpus(agent, pipeline, 0),
            Cursor::Corpus { agent, pipeline, corpus } => if indexed {
                self.to_ranker(agent, pipeline, corpus, 0)
            } else {
                self.to_corpus(agent, pipeline, corpus + 1)
            },
            Cursor::Ranker { agent, pipeline, corpus, ranker } => self.to_turn(
                agent,
                pipeline,
                corpus,
                ranker,
                0,
            ),
            Cursor::Turn { agent, pipeline, corpus, ranker, turn } => self.to_turn(
                agent,
                pipeline,
                corpus,
                ranker,
                turn + 1,
            ),
            Cursor::Finished => Cursor::Finished,
        }
    }
}

// ── The run ─────────────────────────────────────────────────────────────────

/// What came of the step at the cursor.
pub enum Event {
    /// An agent was built, a heading written, a ranker set.
    Ready,
    /// So many chunks of the store belong to the provenance of the corpus.
    Matching { chunks: usize },
    /// The agent answered the question.
    Answered { question: String, answer: String },
}

/// An event with its texts as character sequences.
pub enum EventView {
    Ready,
    Matching { chunks: nat },
    Answered { question: Seq<char>, answer: Seq<char> },
}

impl View for Event {
    type V = EventView;

    open spec fn view(&self) -> EventView {
        match self {
            Event::Ready => EventView::Ready,
            Event::Matching { chunks } => EventView::Matching { chunks: *chunks as nat },
            Event::Answered { question, answer } => EventView::Answered {
                question: question@,
                answer: answer@,
            },
        }
    }
}

/// The state of a run.
pub struct RunView {
    pub shape: Shape,
    /// Whether the answers feed back into the conversation.
    pub chat: bool,
    pub cursor: Cursor,
    /// The conversation so far: questions with their answers.
    pub transcript: Seq<(Seq<char>, Seq<char>)>,
}

impl RunView {
    /// The state at the start: nothing said, the first agent next.
    pub open spec fn start(shape: Shape, chat: bool) -> RunView {
        RunView { shape, chat, cursor: shape.at_agent(0), transcript: Seq::empty() }
    }

    /// Whether `event` can be the outcome of the step at the cursor.
    pub open spec fn expects(self, event: EventView) -> bool {
        match self.cursor {
            Cursor::Agent { .. } => event is Ready,
            Cursor::Pipeline { .. } => event is Ready,
            Cursor::Corpus { .. } => event is Matching,
            Cursor::Ranker { .. } => event is Ready,
            Cursor::Turn { .. } => event is Answered,
            Cursor::Finished => false,
        }
    }

    /// The state after `event`: a corpus without chunks is passed over, a
    /// ranker starts a new conversation, an answer in a chat extends it.
    pub open spec fn after(self, event: EventView) -> RunView {
        if !self.expects(event) {
            self
        } else {
            RunView {
                shape: self.shape,
                chat: self.chat,
                cursor: self.shape.following(
                    self.cursor,
                    event matches EventView::Matching { chunks } ==> chunks > 0,
                ),
                transcript: if self.cursor is Ranker {
                    Seq::empty()
                } else if self.chat {
                    match event {
                        EventView::Answered { question, answer } => self.transcript.push(
                            (question, answer),
                        ),
                        _ => self.transcript,
                    }
                } else {
                    self.transcript
                },
            }
        }
    }
}

/// A run of the benchmark matrix.
pub struct Run {
    shape: Shape,
    chat: bool,
    cursor: Cursor,
    transcript: Vec<(String, String)>,
}

/// The texts of a transcript.
pub open spec fn turns_text(v: Seq<(String, String)>) -> Seq<(Seq<char>, Seq<char>)> {
    Seq::new(v.len(), |i: int| (v[i].0@, v[i].1@))
}

impl View for Run {
    type V = RunView;

    closed spec fn view(&self) -> RunView {
        RunView {
            shape: self.shape,
            chat: self.chat,
            cursor: self.cursor,
            transcript: turns_text(self.transcript@),
        }
    }
}

impl Run {
    /// The cursor stands inside the matrix.
    pub open spec fn well_formed(&self) -> bool {
        self@.shape.holds(self@.cursor)
    }

    /// A run over a matrix of this shape, at its start.
    pub fn begin(shape: Shape, chat: bool) -> (r: Run)
        ensures
            r.well_formed(),
            r@ == RunView::start(shape, chat),
    {
        let r = Run { shape, chat, cursor: shape.to_agent(0), transcript: Vec::new() };
        assert(r@.transcript =~= Seq::empty());
        r
    }

    /// What to do next.
    pub fn cursor(&self) -> (r: Cursor)
        ensures
            r == self@.cursor,
    {
        self.cursor
    }

    /// The conversation that precedes the next question.
    pub fn transcript(&self) -> (r: &Vec<(String, String)>)
        ensures
            turns_text(r@) == self@.transcript,
    {
        &self.transcript
    }

    /// Takes the outcome of the step at the cursor and moves on.  An event
    /// that cannot be that outcome changes nothing; the result says whether it
    /// could.
    pub fn advance(&mut self, event: Event) -> (r: bool)
        requires
            old(self).well_formed(),
        ensures
            final(self).well_formed(),
            r == old(self)@.expects(event@),
            final(self)@ == old(self)@.after(event@),
    {
        let indexed: bool = match &event {
            Event::Matching { chunks } => *chunks > 0,
            _ => true,
        };
        let expected: bool = match (&self.cursor, &event) {
            (Cursor::Agent { .. }, Event::Ready) => true,
            (Cursor::Pipeline { .. }, Event::Ready) => true,
            (Cursor::Corpus { .. }, Event::Matching { .. }) => true,
            (Cursor::Ranker { .. }, Event::Ready) => true,
            (Cursor::Turn { .. }, Event::Answered { .. }) => true,
            _ => false,
        };
        if !expected {
            return false;
        }
        let at: Cursor = self.cursor;
        self.cursor = self.shape.next(at, indexed);
        let fresh: bool = match at {
            Cursor::Ranker { .. } => true,
            _ => false,
        };
        if fresh {
            self.transcript = Vec::new();
            assert(self@.transcript =~= Seq::empty());
        } else if self.chat {
            if let Event::Answered { question, answer } = event {
                self.transcript.push((question, answer));
                assert(self@.transcript =~= old(self)@.transcript.push((question@, answer@)));
            }
        }
        true
    }
}

} // verus!
