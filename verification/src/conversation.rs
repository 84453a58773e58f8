//! The conversation: an append-only sequence of messages, and the rule that
//! ties every message of tool results to the message that asked for them.

use vstd::prelude::*;
use crate::api::{clone_messages, BlockView, ContentView, Message, MessageContent, MessageView};

verus! {

/// The ids of the tool-use blocks among `blocks`, in order.
pub open spec fn use_ids(blocks: Seq<BlockView>) -> Seq<Seq<char>>
    decreases blocks.len(),
{
    if blocks.len() == 0 {
        Seq::empty()
    } else {
        let rest = use_ids(blocks.drop_last());
        match blocks.last() {
            BlockView::ToolUse { id, .. } => rest.push(id),
            _ => rest,
        }
    }
}

/// The tool-use ids that a message content carries; plain text carries none.
pub open spec fn tool_use_ids(content: ContentView) -> Seq<Seq<char>> {
    match content {
        ContentView::Text(_) => Seq::empty(),
        ContentView::Blocks(blocks) => use_ids(blocks),
    }
}

/// Every block is a tool result.
pub open spec fn all_results(blocks: Seq<BlockView>) -> bool {
    forall|i: int| 0 <= i < blocks.len() ==> (#[trigger] blocks[i]) is ToolResult
}

/// The content consists of tool results and of nothing else.
pub open spec fn tool_result_only(content: ContentView) -> bool {
    match content {
        ContentView::Text(_) => false,
        ContentView::Blocks(blocks) => blocks.len() > 0 && all_results(blocks),
    }
}

/// The ids that the tool results among `blocks` refer to, in order.
pub open spec fn referenced_ids(blocks: Seq<BlockView>) -> Seq<Seq<char>>
    decreases blocks.len(),
{
    if blocks.len() == 0 {
        Seq::empty()
    } else {
        let rest = referenced_ids(blocks.drop_last());
        match blocks.last() {
            BlockView::ToolResult { tool_use_id, .. } => rest.push(tool_use_id),
            _ => rest,
        }
    }
}

/// The ids that a message content refers to.
pub open spec fn result_ids(content: ContentView) -> Seq<Seq<char>> {
    match content {
        ContentView::Text(_) => Seq::empty(),
        ContentView::Blocks(blocks) => referenced_ids(blocks),
    }
}

/// The adjacency rule: every message that consists of tool results directly
/// follows a message whose tool-use ids are the ids it refers to, one for
/// one and in the same order.
pub open spec fn adjacent(history: Seq<MessageView>) -> bool {
    forall|i: int|
        0 <= i < history.len() && tool_result_only((#[trigger] history[i]).content) ==> i > 0
            && tool_use_ids(history[i - 1].content) == result_ids(history[i].content)
}

/// A user's message of plain text.
pub open spec fn user_text(text: Seq<char>) -> MessageView {
    MessageView { role: "user"@, content: ContentView::Text(text) }
}

/// A user's message of blocks.
pub open spec fn user_blocks(blocks: Seq<BlockView>) -> MessageView {
    MessageView { role: "user"@, content: ContentView::Blocks(blocks) }
}

/// The assistant's message of blocks.
pub open spec fn assistant_blocks(blocks: Seq<BlockView>) -> MessageView {
    MessageView { role: "assistant"@, content: ContentView::Blocks(blocks) }
}

/// Appending a message that does not consist of tool results keeps the
/// adjacency rule.
pub proof fn lemma_append_other(history: Seq<MessageView>, message: MessageView)
    requires
        adjacent(history),
        !tool_result_only(message.content),
    ensures
        adjacent(history.push(message)),
{
    let after = history.push(message);
    assert forall|i: int|
        0 <= i < after.len() && tool_result_only((#[trigger] after[i]).content) implies i > 0
        && tool_use_ids(after[i - 1].content) == result_ids(after[i].content) by {
        assert(after[i] == history[i]);
        assert(after[i - 1] == history[i - 1]);
    }
}

/// Appending a message directly after the message whose tool-use ids it
/// refers to keeps the adjacency rule.
pub proof fn lemma_append_results(history: Seq<MessageView>, message: MessageView)
    requires
        adjacent(history),
        history.len() > 0,
        tool_use_ids(history.last().content) == result_ids(message.content),
    ensures
        adjacent(history.push(message)),
{
    let after = history.push(message);
    assert forall|i: int|
        0 <= i < after.len() && tool_result_only((#[trigger] after[i]).content) implies i > 0
        && tool_use_ids(after[i - 1].content) == result_ids(after[i].content) by {
        if i < history.len() {
            assert(after[i] == history[i]);
            assert(after[i - 1] == history[i - 1]);
        } else {
            assert(after[i - 1] == history.last());
        }
    }
}

/// The messages of one conversation, oldest first.
#[derive(Debug)]
pub struct Conversation {
    messages: Vec<Message>,
}

impl View for Conversation {
    type V = Seq<MessageView>;

    closed spec fn view(&self) -> Seq<MessageView> {
        self.messages.deep_view()
    }
}

impl Conversation {
    /// The empty conversation.
    pub fn new() -> (out: Conversation)
        ensures
            out@ == Seq::<MessageView>::empty(),
            adjacent(out@),
    {
        let messages: Vec<Message> = Vec::new();
        assert(messages.deep_view() =~= Seq::<MessageView>::empty());
        Conversation { messages }
    }

    /// The number of messages.
    pub fn len(&self) -> (out: usize)
        ensures
            out == self@.len(),
    {
        self.messages.len()
    }

    /// The messages, oldest first.
    pub fn messages(&self) -> (out: &Vec<Message>)
        ensures
            out.deep_view() == self@,
    {
        &self.messages
    }

    /// A copy of the messages, to be handed out while the conversation
    /// itself stays where it is.
    pub fn snapshot(&self) -> (out: Vec<Message>)
        ensures
            out.deep_view() == self@,
    {
        clone_messages(&self.messages)
    }

    /// Starts a new conversation: every message goes.
    pub fn clear(&mut self)
        ensures
            final(self)@ == Seq::<MessageView>::empty(),
            adjacent(final(self)@),
    {
        self.messages.clear();
        assert(self.messages.deep_view() =~= Seq::<MessageView>::empty());
    }

    /// Appends `message`.
    pub(crate) fn push(&mut self, message: Message)
        ensures
            final(self)@ == old(self)@.push(message@),
            adjacent(old(self)@) && !tool_result_only(message@.content) ==> adjacent(final(self)@),
            adjacent(old(self)@) && old(self)@.len() > 0 && tool_use_ids(
                old(self)@.last().content,
            ) == result_ids(message@.content) ==> adjacent(final(self)@),
    {
        let ghost before = self.messages.deep_view();
        self.messages.push(message);
        assert(self.messages.deep_view() =~= before.push(message@));
        proof {
            if adjacent(before) && !tool_result_only(message@.content) {
                lemma_append_other(before, message@);
            }
            if adjacent(before) && before.len() > 0 && tool_use_ids(before.last().content)
                == result_ids(message@.content) {
                lemma_append_results(before, message@);
            }
        }
    }

    /// Appends what the user wrote.
    pub fn push_user_text(&mut self, text: String)
        ensures
            final(self)@ == old(self)@.push(user_text(text@)),
            adjacent(old(self)@) ==> adjacent(final(self)@),
    {
        self.push(Message { role: "user".to_owned(), content: MessageContent::Text(text) });
    }
}

} // verus!
