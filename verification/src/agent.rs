//! The agent loop: what one answer of the model means for the conversation,
//! which tools it asks for, and how their results go back.

use vstd::prelude::*;
use crate::api::{
    BlockView, ContentBlock, ContentView, Message, MessageContent, MessageView, Response,
};
use crate::conversation::{
    adjacent, all_results, assistant_blocks, lemma_append_other, lemma_append_results,
    referenced_ids, tool_result_only, tool_use_ids, use_ids, user_blocks, user_text, Conversation,
};
use crate::json::{Json, JsonValue};
use crate::text::{join, join_with, lines, split_lines};

verus! {

/// What the loop tells an observer while it runs.
#[derive(Debug, PartialEq, Eq)]
pub enum AgentEvent {
    /// One line of the model's text.
    Text(String),
    /// The model asks for a tool.
    ToolCall { name: String, description: String },
    /// A tool has ended; holds the first line of its result.
    ToolResult { preview: String },
    /// The task list has changed.
    TasksUpdated { done: usize, total: usize },
}

/// The mathematical value of an [`AgentEvent`].
pub ghost enum EventView {
    Text(Seq<char>),
    ToolCall { name: Seq<char>, description: Seq<char> },
    ToolResult { preview: Seq<char> },
    TasksUpdated { done: usize, total: usize },
}

impl View for AgentEvent {
    type V = EventView;

    open spec fn view(&self) -> EventView {
        match self {
            AgentEvent::Text(line) => EventView::Text(line@),
            AgentEvent::ToolCall { name, description } => EventView::ToolCall {
                name: name@,
                description: description@,
            },
            AgentEvent::ToolResult { preview } => EventView::ToolResult { preview: preview@ },
            AgentEvent::TasksUpdated { done, total } => EventView::TasksUpdated {
                done: *done,
                total: *total,
            },
        }
    }
}

impl DeepView for AgentEvent {
    type V = EventView;

    open spec fn deep_view(&self) -> EventView {
        self@
    }
}

/// A tool call that the model asked for.
#[derive(Debug, PartialEq, Eq)]
pub struct ToolCall {
    pub id: String,
    pub name: String,
    pub input: Json,
}

/// The mathematical value of a [`ToolCall`].
pub ghost struct ToolCallView {
    pub id: Seq<char>,
    pub name: Seq<char>,
    pub input: JsonValue,
}

impl View for ToolCall {
    type V = ToolCallView;

    open spec fn view(&self) -> ToolCallView {
        ToolCallView { id: self.id@, name: self.name@, input: self.input@ }
    }
}

impl DeepView for ToolCall {
    type V = ToolCallView;

    open spec fn deep_view(&self) -> ToolCallView {
        self@
    }
}

/// What a tool call shows of itself: the `command` of its input where that
/// is a string, else nothing.
pub open spec fn description_of(input: JsonValue) -> Seq<char> {
    match input.get("command"@) {
        Some(JsonValue::Text(command)) => command,
        _ => Seq::empty(),
    }
}

/// One text event for each line.
pub open spec fn text_events(texts: Seq<Seq<char>>) -> Seq<EventView> {
    Seq::new(texts.len(), |i: int| EventView::Text(texts[i]))
}

/// The events that one block gives rise to: a text block its lines, a
/// tool-use block the call, a tool-result block nothing.
pub open spec fn events_of_block(block: BlockView) -> Seq<EventView> {
    match block {
        BlockView::Text { text } => text_events(lines(text)),
        BlockView::ToolUse { id, name, input } => seq![
            EventView::ToolCall { name, description: description_of(input) },
        ],
        BlockView::ToolResult { .. } => Seq::empty(),
    }
}

/// The events that the blocks of an answer give rise to, in order.
pub open spec fn events_of(blocks: Seq<BlockView>) -> Seq<EventView>
    decreases blocks.len(),
{
    if blocks.len() == 0 {
        Seq::empty()
    } else {
        events_of(blocks.drop_last()) + events_of_block(blocks.last())
    }
}

/// The tool calls among the blocks of an answer, in order.
pub open spec fn calls_of(blocks: Seq<BlockView>) -> Seq<ToolCallView>
    decreases blocks.len(),
{
    if blocks.len() == 0 {
        Seq::empty()
    } else {
        let rest = calls_of(blocks.drop_last());
        match blocks.last() {
            BlockView::ToolUse { id, name, input } => rest.push(ToolCallView { id, name, input }),
            _ => rest,
        }
    }
}

/// The ids of `calls`, in order.
pub open spec fn call_ids(calls: Seq<ToolCallView>) -> Seq<Seq<char>> {
    Seq::new(calls.len(), |i: int| calls[i].id)
}

/// What an observer is shown of a tool's result: its first line, or
/// `(empty)` where it has no line.
pub open spec fn preview_of(content: Seq<char>) -> Seq<char> {
    if lines(content).len() > 0 {
        lines(content)[0]
    } else {
        "(empty)"@
    }
}

/// The block that carries the outcome of `call`: the output of a call that
/// succeeded, or the error text of one that failed, marked as an error.
pub open spec fn result_block(call: ToolCallView, outcome: Result<Seq<char>, Seq<char>>) -> BlockView {
    match outcome {
        Ok(output) => BlockView::ToolResult { tool_use_id: call.id, content: output, is_error: None },
        Err(error) => BlockView::ToolResult {
            tool_use_id: call.id,
            content: error,
            is_error: Some(true),
        },
    }
}

/// The value of a tool's outcome.
pub open spec fn outcome_view(outcome: Result<String, String>) -> Result<Seq<char>, Seq<char>> {
    match outcome {
        Ok(output) => Ok(output@),
        Err(error) => Err(error@),
    }
}

/// The text that an outcome carries.
pub open spec fn outcome_text(outcome: Result<Seq<char>, Seq<char>>) -> Seq<char> {
    match outcome {
        Ok(output) => output,
        Err(error) => error,
    }
}

/// Each result answers the call at its place.
pub open spec fn results_match(calls: Seq<ToolCallView>, results: Seq<BlockView>) -> bool {
    &&& results.len() <= calls.len()
    &&& forall|i: int|
        0 <= i < results.len() ==> (#[trigger] results[i]) is ToolResult
            && results[i]->ToolResult_tool_use_id == calls[i].id
}

/// The ids of the tool-use blocks are the ids of the calls taken from them.
pub proof fn lemma_call_ids(blocks: Seq<BlockView>)
    ensures
        call_ids(calls_of(blocks)) == use_ids(blocks),
    decreases blocks.len(),
{
    if blocks.len() > 0 {
        lemma_call_ids(blocks.drop_last());
        assert(call_ids(calls_of(blocks)) =~= use_ids(blocks));
    } else {
        assert(call_ids(calls_of(blocks)) =~= use_ids(blocks));
    }
}

/// Results that answer every call refer to the calls' ids, one for one, and
/// consist of tool results alone.
pub proof fn lemma_result_ids(calls: Seq<ToolCallView>, results: Seq<BlockView>)
    requires
        results_match(calls, results),
    ensures
        referenced_ids(results) == call_ids(calls.take(results.len() as int)),
        all_results(results),
    decreases results.len(),
{
    if results.len() > 0 {
        let fewer = results.drop_last();
        assert(results_match(calls, fewer)) by {
            assert forall|i: int| 0 <= i < fewer.len() implies (#[trigger] fewer[i]) is ToolResult
                && fewer[i]->ToolResult_tool_use_id == calls[i].id by {
                assert(fewer[i] == results[i]);
            }
        }
        lemma_result_ids(calls, fewer);
        assert(results.last() == results[results.len() - 1]);
        assert(referenced_ids(results) =~= call_ids(calls.take(results.len() as int)));
    } else {
        assert(referenced_ids(results) =~= call_ids(calls.take(results.len() as int)));
    }
}

/// A sequence of blocks that holds a tool call does not consist of tool
/// results alone.
pub proof fn lemma_calls_exclude_results_only(blocks: Seq<BlockView>)
    requires
        calls_of(blocks).len() > 0,
    ensures
        !all_results(blocks),
    decreases blocks.len(),
{
    if blocks.len() > 0 {
        if blocks.last() is ToolUse {
            assert(!(blocks[blocks.len() - 1] is ToolResult));
        } else {
            lemma_calls_exclude_results_only(blocks.drop_last());
            if all_results(blocks) {
                assert forall|i: int| 0 <= i < blocks.drop_last().len() implies (
                #[trigger] blocks.drop_last()[i]) is ToolResult by {
                    assert(blocks.drop_last()[i] == blocks[i]);
                }
            }
        }
    }
}

/// The stage of the loop.
#[derive(Debug, PartialEq, Eq, Clone, Copy)]
pub enum LoopState {
    /// An answer of the model is awaited.
    Requesting,
    /// The tool calls of the last answer are being carried out.
    Executing,
    /// The turn is over.
    Terminal,
}

/// The loop that drives one turn: it takes each answer of the model, hands
/// out the tool calls one after another, and puts their results into the
/// conversation.
#[derive(Debug)]
pub struct AgentLoop {
    state: LoopState,
    calls: Vec<ToolCall>,
    results: Vec<ContentBlock>,
}

/// The mathematical value of an [`AgentLoop`].
pub ghost struct LoopView {
    pub state: LoopState,
    pub calls: Seq<ToolCallView>,
    pub results: Seq<BlockView>,
}

impl LoopView {
    /// While tools are carried out there is at least one call, and each
    /// result so far answers the call at its place.
    pub open spec fn wf(self) -> bool {
        self.state is Executing ==> self.calls.len() > 0 && results_match(self.calls, self.results)
    }
}

impl AgentLoop {
    /// What holds of every loop.
    #[verifier::type_invariant]
    spec fn valid(self) -> bool {
        self@.wf()
    }
}

impl View for AgentLoop {
    type V = LoopView;

    closed spec fn view(&self) -> LoopView {
        LoopView {
            state: self.state,
            calls: self.calls.deep_view(),
            results: self.results.deep_view(),
        }
    }
}

/// The events and the calls of the blocks of one answer.
fn classify(blocks: &Vec<ContentBlock>) -> (out: (Vec<AgentEvent>, Vec<ToolCall>))
    ensures
        out.0.deep_view() == events_of(blocks.deep_view()),
        out.1.deep_view() == calls_of(blocks.deep_view()),
{
    let ghost all = blocks.deep_view();
    let mut events: Vec<AgentEvent> = Vec::new();
    let mut calls: Vec<ToolCall> = Vec::new();
    let mut i: usize = 0;
    assert(all.take(0) =~= Seq::<BlockView>::empty());
    assert(events.deep_view() =~= Seq::<EventView>::empty());
    assert(calls.deep_view() =~= Seq::<ToolCallView>::empty());
    while i < blocks.len()
        invariant
            i <= blocks.len(),
            all == blocks.deep_view(),
            events.deep_view() == events_of(all.take(i as int)),
            calls.deep_view() == calls_of(all.take(i as int)),
        decreases blocks.len() - i,
    {
        let ghost events_before = events.deep_view();
        let ghost calls_before = calls.deep_view();
        assert(all.take(i + 1).drop_last() =~= all.take(i as int));
        assert(all.take(i + 1).last() == blocks@[i as int]@);
        match &blocks[i] {
            ContentBlock::Text { text } => {
                let parts = split_lines(text.as_str());
                let mut k: usize = 0;
                assert(events_before + text_events(parts.deep_view().take(0)) =~= events_before);
                while k < parts.len()
                    invariant
                        k <= parts.len(),
                        events.deep_view() == events_before + text_events(
                            parts.deep_view().take(k as int),
                        ),
                    decreases parts.len() - k,
                {
                    let ghost sofar = events.deep_view();
                    let line = parts[k].clone();
                    events.push(AgentEvent::Text(line));
                    assert(events.deep_view() =~= sofar.push(EventView::Text(line@)));
                    k += 1;
                    assert(events.deep_view() =~= events_before + text_events(
                        parts.deep_view().take(k as int),
                    ));
                }
                assert(parts.deep_view().take(parts.len() as int) =~= parts.deep_view());
            },
            ContentBlock::ToolUse { id, name, input } => {
                let description = match input.get("command") {
                    Some(Json::Text(command)) => command.clone(),
                    _ => String::new(),
                };
                let event = AgentEvent::ToolCall { name: name.clone(), description };
                events.push(event);
                assert(events.deep_view() =~= events_before + seq![event@]);
                let call = ToolCall { id: id.clone(), name: name.clone(), input: input.clone() };
                calls.push(call);
                assert(calls.deep_view() =~= calls_before.push(call@));
            },
            ContentBlock::ToolResult { .. } => {
                assert(events.deep_view() =~= events_before + Seq::<EventView>::empty());
            },
        }
        i += 1;
    }
    assert(all.take(blocks.len() as int) =~= all);
    (events, calls)
}

impl AgentLoop {
    /// A loop at the start of a turn.
    pub fn new() -> (out: AgentLoop)
        ensures
            out@.state is Requesting,
            out@.calls.len() == 0,
            out@.results.len() == 0,
            out@.wf(),
    {
        let calls: Vec<ToolCall> = Vec::new();
        let results: Vec<ContentBlock> = Vec::new();
        AgentLoop { state: LoopState::Requesting, calls, results }
    }

    /// The stage of the loop.
    pub fn state(&self) -> (out: LoopState)
        ensures
            out == self@.state,
    {
        self.state
    }

    /// Takes an answer of the model: its blocks go into the conversation as
    /// one assistant message, unchanged and in order, and the observer's
    /// events are returned. Without a tool call the turn is over; else the
    /// calls are carried out next, in the order in which they came.
    pub fn on_response(&mut self, history: &mut Conversation, response: Response) -> (events: Vec<
        AgentEvent,
    >)
        requires
            old(self)@.state is Requesting,
        ensures
            final(history)@ == old(history)@.push(assistant_blocks(response.content.deep_view())),
            events.deep_view() == events_of(response.content.deep_view()),
            final(self)@.calls == calls_of(response.content.deep_view()),
            final(self)@.results == Seq::<BlockView>::empty(),
            final(self)@.state == if calls_of(response.content.deep_view()).len() == 0 {
                LoopState::Terminal
            } else {
                LoopState::Executing
            },
            final(self)@.wf(),
            call_ids(final(self)@.calls) == tool_use_ids(final(history)@.last().content),
            adjacent(old(history)@) && !tool_result_only(
                ContentView::Blocks(response.content.deep_view()),
            ) ==> adjacent(final(history)@),
    {
        let (events, calls) = classify(&response.content);
        proof {
            lemma_call_ids(response.content.deep_view());
        }
        let message = Message {
            role: "assistant".to_owned(),
            content: MessageContent::Blocks(response.content),
        };
        history.push(message);
        let state = if calls.len() == 0 {
            LoopState::Terminal
        } else {
            LoopState::Executing
        };
        let results: Vec<ContentBlock> = Vec::new();
        assert(results.deep_view() =~= Seq::<BlockView>::empty());
        self.calls = calls;
        self.results = results;
        self.state = state;
        events
    }

    /// Takes a failure of the round trip to the model: the turn is over, and
    /// nothing is appended for it.
    pub fn on_failure(&mut self)
        requires
            old(self)@.state is Requesting,
        ensures
            final(self)@ == (LoopView { state: LoopState::Terminal, ..old(self)@ }),
            final(self)@.wf(),
    {
        self.state = LoopState::Terminal;
    }

    /// The call to carry out next: the first one without a result.
    pub fn next_call(&self) -> (out: Option<&ToolCall>)
        ensures
            match out {
                Some(call) => self@.state is Executing && self@.results.len() < self@.calls.len()
                    && call@ == self@.calls[self@.results.len() as int],
                None => !(self@.state is Executing && self@.results.len() < self@.calls.len()),
            },
    {
        match self.state {
            LoopState::Executing => {
                if self.results.len() < self.calls.len() {
                    Some(&self.calls[self.results.len()])
                } else {
                    None
                }
            },
            _ => None,
        }
    }

    /// Takes the outcome of the call that was handed out last: it becomes the
    /// tool result of that call, marked as an error where the call failed,
    /// and the observer is shown its first line.
    pub fn on_tool_done(&mut self, outcome: Result<String, String>) -> (event: AgentEvent)
        requires
            old(self)@.state is Executing,
            old(self)@.results.len() < old(self)@.calls.len(),
        ensures
            final(self)@.wf(),
            final(self)@ == (LoopView {
                results: old(self)@.results.push(
                    result_block(
                        old(self)@.calls[old(self)@.results.len() as int],
                        outcome_view(outcome),
                    ),
                ),
                ..old(self)@
            }),
            event@ == (EventView::ToolResult {
                preview: preview_of(outcome_text(outcome_view(outcome))),
            }),
    {
        proof {
            use_type_invariant(&*self);
        }
        let ghost before = self.results.deep_view();
        let ghost calls = self.calls.deep_view();
        let at = self.results.len();
        let id = self.calls[at].id.clone();
        let (content, is_error) = match outcome {
            Ok(output) => (output, None),
            Err(error) => (error, Some(true)),
        };
        let parts = split_lines(content.as_str());
        let preview = if parts.len() > 0 {
            parts[0].clone()
        } else {
            "(empty)".to_owned()
        };
        let block = ContentBlock::ToolResult { tool_use_id: id, content, is_error };
        let mut results: Vec<ContentBlock> = Vec::new();
        assert(results.deep_view() =~= Seq::<BlockView>::empty());
        std::mem::swap(&mut results, &mut self.results);
        results.push(block);
        proof {
            let after = results.deep_view();
            assert(after =~= before.push(block@));
            assert forall|i: int| 0 <= i < after.len() implies (#[trigger] after[i]) is ToolResult
                && after[i]->ToolResult_tool_use_id == calls[i].id by {
                if i < before.len() {
                    assert(after[i] == before[i]);
                }
            }
        }
        self.results = results;
        AgentEvent::ToolResult { preview }
    }

    /// Ends the carrying out of the calls: their results go into the
    /// conversation as one user message, in the order of the calls. What the
    /// user wrote meanwhile follows as one more user message, the entries
    /// separated by a blank line. The model is asked again next.
    pub fn finish_tools(&mut self, history: &mut Conversation, pending: Vec<String>)
        requires
            old(self)@.state is Executing,
            old(self)@.results.len() == old(self)@.calls.len(),
        ensures
            final(self)@ == (LoopView {
                state: LoopState::Requesting,
                results: Seq::empty(),
                ..old(self)@
            }),
            final(self)@.wf(),
            final(history)@ == if pending.len() == 0 {
                old(history)@.push(user_blocks(old(self)@.results))
            } else {
                old(history)@.push(user_blocks(old(self)@.results)).push(
                    user_text(join(pending.deep_view(), "\n\n"@)),
                )
            },
            adjacent(old(history)@) && old(history)@.len() > 0 && tool_use_ids(
                old(history)@.last().content,
            ) == call_ids(old(self)@.calls) ==> adjacent(final(history)@),
    {
        let ghost results = self.results.deep_view();
        let ghost calls = self.calls.deep_view();
        proof {
            use_type_invariant(&*self);
            lemma_result_ids(calls, results);
            assert(calls.take(results.len() as int) =~= calls);
        }
        let mut taken: Vec<ContentBlock> = Vec::new();
        assert(taken.deep_view() =~= Seq::<BlockView>::empty());
        std::mem::swap(&mut taken, &mut self.results);
        history.push(Message { role: "user".to_owned(), content: MessageContent::Blocks(taken) });
        if pending.len() > 0 {
            let text = join_with(&pending, "\n\n");
            history.push_user_text(text);
        }
        self.state = LoopState::Requesting;
    }
}

/// A whole step of the loop keeps the adjacency rule: after the assistant's
/// message with its tool calls come the results of exactly these calls, and
/// then, if at all, plain text.
pub proof fn lemma_step_keeps_adjacency(
    history: Seq<MessageView>,
    blocks: Seq<BlockView>,
    results: Seq<BlockView>,
    pending: Seq<char>,
)
    requires
        adjacent(history),
        calls_of(blocks).len() > 0,
        results.len() == calls_of(blocks).len(),
        results_match(calls_of(blocks), results),
    ensures
        adjacent(history.push(assistant_blocks(blocks))),
        adjacent(history.push(assistant_blocks(blocks)).push(user_blocks(results))),
        adjacent(
            history.push(assistant_blocks(blocks)).push(user_blocks(results)).push(
                user_text(pending),
            ),
        ),
{
    lemma_calls_exclude_results_only(blocks);
    lemma_append_other(history, assistant_blocks(blocks));
    let first = history.push(assistant_blocks(blocks));
    lemma_call_ids(blocks);
    lemma_result_ids(calls_of(blocks), results);
    assert(calls_of(blocks).take(results.len() as int) =~= calls_of(blocks));
    lemma_append_results(first, user_blocks(results));
    lemma_append_other(first.push(user_blocks(results)), user_text(pending));
}

/// A last step of the loop, whose answer holds no tool call, keeps the
/// adjacency rule unless the answer consists of tool results alone.
pub proof fn lemma_last_step_keeps_adjacency(history: Seq<MessageView>, blocks: Seq<BlockView>)
    requires
        adjacent(history),
        !(blocks.len() > 0 && all_results(blocks)),
    ensures
        adjacent(history.push(assistant_blocks(blocks))),
{
    lemma_append_other(history, assistant_blocks(blocks));
}

} // verus!
