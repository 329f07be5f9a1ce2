//! Work on an open connection, one engine call at a time.
//!
//! A function of the library does not call the engine. It answers with a `Step`:
//! either the work is done, or the engine is to do something and the `Task` waits
//! for what came of it. Whoever holds the connection performs the action and
//! hands the reply to `Task::step`.
use crate::append;
use crate::append::{AppendTask, AppendTaskView};
use crate::inbound::{DuckValue, EngineValue};
use crate::oleaut::VARIANT;
use crate::query;
use crate::query::{QueryTask, QueryTaskView};
use crate::raw::{DataChunk, ParseReply, QueryResult};
use crate::variant;
use crate::variant::Answer;
use vstd::prelude::*;

verus! {

/// What the engine is to do next.
#[derive(Debug)]
pub enum Action {
    /// Split the text into statements and prepare each.
    Parse(String),
    /// Run the text.
    Run(String),
    /// Bind a value to a parameter of the prepared statement, counted from 1.
    Bind { index: usize, value: DuckValue },
    /// Run the prepared statement.
    RunPrepared,
    /// Fetch the next rows of the result.
    Fetch,
    /// Open the table with this name for appending.
    OpenAppender(String),
    /// Append a value to the row.
    Append(DuckValue),
    /// End the row.
    EndRow,
    /// Write what was appended to the table.
    Flush,
    /// Close the table that was opened for appending.
    CloseAppender,
}

/// What came of handing the engine a value.
#[derive(Debug)]
pub enum Handover {
    Taken,
    /// The engine made no value of it.
    NoValue,
    /// The engine refused the value, with this message.
    Refused(String),
}

/// What came of the action. The texts are the engine's messages.
#[derive(Debug)]
pub enum Reply {
    Parsed(ParseReply),
    Ran(Result<QueryResult, String>),
    Bound(Handover),
    /// `None` behind the last rows.
    Fetched(Option<DataChunk>),
    /// How many columns the table has.
    AppenderOpened(Result<usize, String>),
    Appended(Handover),
    RowEnded(Result<(), String>),
    Flushed(Result<(), String>),
    AppenderClosed,
}

/// Work that waits for a reply.
#[derive(Debug)]
pub enum Task {
    Query(QueryTask),
    Append(AppendTask),
}

/// How far the work has come.
#[derive(Debug)]
pub enum Step {
    Ask { action: Action, task: Task },
    Done(Result<VARIANT, String>),
}

/// The contents of an `Action`.
#[verifier::ext_equal]
pub enum ActionView {
    Parse(Seq<char>),
    Run(Seq<char>),
    Bind { index: int, value: EngineValue },
    RunPrepared,
    Fetch,
    OpenAppender(Seq<char>),
    Append(EngineValue),
    EndRow,
    Flush,
    CloseAppender,
}

/// The contents of a `Task`.
#[verifier::ext_equal]
pub enum TaskView {
    Query(QueryTaskView),
    Append(AppendTaskView),
}

/// The contents of a `Step`.
#[verifier::ext_equal]
pub enum StepView {
    Ask { action: ActionView, task: TaskView },
    Done(Result<Answer, Seq<char>>),
}

impl View for Action {
    type V = ActionView;

    open spec fn view(&self) -> ActionView {
        match *self {
            Action::Parse(s) => ActionView::Parse(s@),
            Action::Run(s) => ActionView::Run(s@),
            Action::Bind { index, value } => ActionView::Bind {
                index: index as int,
                value: value@,
            },
            Action::RunPrepared => ActionView::RunPrepared,
            Action::Fetch => ActionView::Fetch,
            Action::OpenAppender(s) => ActionView::OpenAppender(s@),
            Action::Append(v) => ActionView::Append(v@),
            Action::EndRow => ActionView::EndRow,
            Action::Flush => ActionView::Flush,
            Action::CloseAppender => ActionView::CloseAppender,
        }
    }
}

impl View for Task {
    type V = TaskView;

    open spec fn view(&self) -> TaskView {
        match *self {
            Task::Query(q) => TaskView::Query(q@),
            Task::Append(a) => TaskView::Append(a@),
        }
    }
}

impl View for Step {
    type V = StepView;

    open spec fn view(&self) -> StepView {
        match *self {
            Step::Ask { action, task } => StepView::Ask { action: action@, task: task@ },
            Step::Done(r) => StepView::Done(variant::outcome_of(r)),
        }
    }
}

impl Task {
    /// What the task holds is whole.
    pub open spec fn wf(self) -> bool {
        match self {
            Task::Query(q) => q.wf(),
            Task::Append(a) => a.wf(),
        }
    }
}

impl Step {
    /// What a waiting task holds is whole.
    pub open spec fn wf(self) -> bool {
        self matches Step::Ask { action, task } ==> task.wf()
    }
}

/// The reply answers what was asked.
pub open spec fn answers(task: TaskView, reply: Reply) -> bool {
    match task {
        TaskView::Query(q) => query::answers(q, reply),
        TaskView::Append(a) => append::answers(a, reply),
    }
}

/// How the work goes on.
pub open spec fn step_after(task: TaskView, reply: Reply) -> StepView {
    match task {
        TaskView::Query(q) => query::step_after(q, reply),
        TaskView::Append(a) => append::step_after(a, reply),
    }
}

/// The work ends with an error.
pub open spec fn failed(message: Seq<char>) -> StepView {
    StepView::Done(Err(message))
}

impl Task {
    /// Goes on with what came of the last action.
    pub fn step(self, reply: Reply) -> (r: Step)
        requires
            self.wf(),
            answers(self@, reply),
        ensures
            r@ == step_after(self@, reply),
            r.wf(),
    {
        match self {
            Task::Query(q) => query::step(q, reply),
            Task::Append(a) => append::step(a, reply),
        }
    }
}

/// Where the work stands after these replies.
pub open spec fn after(start: StepView, replies: Seq<Reply>) -> StepView
    decreases replies.len(),
{
    if replies.len() == 0 {
        start
    } else {
        match after(start, replies.drop_last()) {
            StepView::Ask { action, task } => step_after(task, replies.last()),
            end => end,
        }
    }
}

/// Some replies and then others lead where the others lead from where the first led.
pub(crate) proof fn lemma_after_both(start: StepView, first: Seq<Reply>, rest: Seq<Reply>)
    ensures
        after(start, first + rest) == after(after(start, first), rest),
    decreases rest.len(),
{
    if rest.len() == 0 {
        assert(first + rest == first);
    } else {
        lemma_after_both(start, first, rest.drop_last());
        assert((first + rest).drop_last() == first + rest.drop_last());
    }
}

/// One reply leads one step on.
pub(crate) proof fn lemma_after_one(start: StepView, reply: Reply)
    requires
        start is Ask,
    ensures
        after(start, seq![reply]) == step_after(start->task, reply),
{
    assert(seq![reply].drop_last() == Seq::<Reply>::empty());
    assert(after(start, seq![reply].drop_last()) == start);
}

/// Each of the replies answers what was asked.
pub open spec fn conversation(start: StepView, replies: Seq<Reply>) -> bool {
    forall|i: int|
        0 <= i < replies.len() ==> (after(start, #[trigger] replies.take(i)) matches StepView::Ask {
            action,
            task,
        } && answers(task, replies[i]))
}

/// A conversation without its last reply is one too, and the last reply answers
/// what was asked at its end.
pub(crate) proof fn lemma_conversation(start: StepView, replies: Seq<Reply>)
    requires
        conversation(start, replies),
        replies.len() > 0,
    ensures
        conversation(start, replies.drop_last()),
        after(start, replies.drop_last()) is Ask,
        answers(after(start, replies.drop_last())->task, replies.last()),
        after(start, replies) == step_after(
            after(start, replies.drop_last())->task,
            replies.last(),
        ),
{
    let before = replies.drop_last();
    assert forall|i: int| 0 <= i < before.len() implies (after(start, #[trigger] before.take(i))
        is Ask && answers(after(start, before.take(i))->task, before[i])) by {
        assert(replies.take(i) == before.take(i));
    }
}

} // verus!
