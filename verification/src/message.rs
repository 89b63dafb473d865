//! Messages of a conversation with a model.

use crate::dup::{dup_all, Dup};
use crate::split;
use crate::text::empty;
use vstd::prelude::*;
use vstd::string::*;

verus! {

broadcast use split::lemma_views_push;

/// A call of a tool by the model.
#[derive(Debug)]
pub struct ToolCall {
    pub id: String,
    pub name: String,
    /// The arguments as JSON.
    pub input: String,
}

/// The model of [`ToolCall`].
#[verifier::ext_equal]
pub struct ToolCallView {
    pub id: Seq<char>,
    pub name: Seq<char>,
    pub input: Seq<char>,
}

impl View for ToolCall {
    type V = ToolCallView;

    open spec fn view(&self) -> ToolCallView {
        ToolCallView {
            id: self.id@,
            name: self.name@,
            input: self.input@,
        }
    }
}

impl Dup for ToolCall {
    fn dup(&self) -> (r: ToolCall) {
        ToolCall {
            id: self.id.as_str().to_string(),
            name: self.name.as_str().to_string(),
            input: self.input.as_str().to_string(),
        }
    }
}

/// An image sent with a message.
#[derive(Debug)]
pub struct Image {
    pub mime: String,
    /// In base64.
    pub data: String,
}

/// The model of [`Image`].
#[verifier::ext_equal]
pub struct ImageView {
    pub mime: Seq<char>,
    pub data: Seq<char>,
}

impl View for Image {
    type V = ImageView;

    open spec fn view(&self) -> ImageView {
        ImageView {
            mime: self.mime@,
            data: self.data@,
        }
    }
}

impl Dup for Image {
    fn dup(&self) -> (r: Image) {
        Image {
            mime: self.mime.as_str().to_string(),
            data: self.data.as_str().to_string(),
        }
    }
}

/// A message of the conversation.
#[derive(Debug)]
pub struct Message {
    pub role: String,
    pub content: String,
    pub tool_calls: Vec<ToolCall>,
    pub tool_use_id: String,
    pub tool_call_id: String,
    pub images: Vec<Image>,
    pub is_error: bool,
}

/// The model of [`Message`].
#[verifier::ext_equal]
pub struct MessageView {
    pub role: Seq<char>,
    pub content: Seq<char>,
    pub tool_calls: Seq<ToolCallView>,
    pub tool_use_id: Seq<char>,
    pub tool_call_id: Seq<char>,
    pub images: Seq<ImageView>,
    pub is_error: bool,
}

impl View for Message {
    type V = MessageView;

    open spec fn view(&self) -> MessageView {
        MessageView {
            role: self.role@,
            content: self.content@,
            tool_calls: split::views(self.tool_calls@),
            tool_use_id: self.tool_use_id@,
            tool_call_id: self.tool_call_id@,
            images: split::views(self.images@),
            is_error: self.is_error,
        }
    }
}

impl Dup for Message {
    fn dup(&self) -> (r: Message) {
        Message {
            role: self.role.as_str().to_string(),
            content: self.content.as_str().to_string(),
            tool_calls: dup_all(&self.tool_calls),
            tool_use_id: self.tool_use_id.as_str().to_string(),
            tool_call_id: self.tool_call_id.as_str().to_string(),
            images: dup_all(&self.images),
            is_error: self.is_error,
        }
    }
}


/// A message with a role and a text, and nothing else.
pub open spec fn plain_message(role: Seq<char>, content: Seq<char>) -> MessageView {
    MessageView {
        role,
        content,
        tool_calls: Seq::empty(),
        tool_use_id: Seq::empty(),
        tool_call_id: Seq::empty(),
        images: Seq::empty(),
        is_error: false,
    }
}

/// A message of the user.
pub open spec fn user_message(content: Seq<char>) -> MessageView {
    plain_message("user"@, content)
}

/// The result of a tool call.
pub open spec fn tool_message(id: Seq<char>, content: Seq<char>, is_error: bool) -> MessageView {
    MessageView {
        tool_use_id: id,
        tool_call_id: id,
        is_error,
        ..plain_message("tool"@, content)
    }
}

impl Message {
    /// A message with a role and a text.
    pub fn plain(role: &str, content: String) -> (r: Message)
        ensures
            r@ == plain_message(role@, content@),
    {
        let r = Message {
            role: role.to_string(),
            content,
            tool_calls: Vec::new(),
            tool_use_id: empty(),
            tool_call_id: empty(),
            images: Vec::new(),
            is_error: false,
        };
        assert(r@ =~= plain_message(role@, content@));
        r
    }

    /// A message of the user.
    pub fn new_user(content: String) -> (r: Message)
        ensures
            r@ == user_message(content@),
    {
        Message::plain("user", content)
    }

    /// The result of a tool call.
    pub fn tool(id: &str, content: String, is_error: bool) -> (r: Message)
        ensures
            r@ == tool_message(id@, content@, is_error),
    {
        let mut r = Message::plain("tool", content);
        r.tool_use_id = id.to_string();
        r.tool_call_id = id.to_string();
        r.is_error = is_error;
        r
    }
}

/// A message keeps its words and its role; the result of a tool is tied to its call
/// by both ids and keeps whether it failed.
pub proof fn law_messages(id: Seq<char>, content: Seq<char>, is_error: bool)
    ensures
        user_message(content).role == "user"@,
        user_message(content).content == content,
        user_message(content).tool_calls.len() == 0,
        !user_message(content).is_error,
        tool_message(id, content, is_error).role == "tool"@,
        tool_message(id, content, is_error).content == content,
        tool_message(id, content, is_error).tool_use_id == id,
        tool_message(id, content, is_error).tool_call_id == id,
        tool_message(id, content, is_error).is_error == is_error,
{
}

} // verus!
