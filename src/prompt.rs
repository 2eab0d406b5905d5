use vstd::prelude::*;
use crate::agent::Message;
use crate::text::{contains, match_at, push_str, text_of};

verus! {

/// The standing instruction that opens every prompt.
pub open spec fn system_base() -> Seq<char> {
    "You are a helpful AI assistant running locally on the user's computer. Be concise and helpful."@
}

/// One turn in the chat markup the model was trained on.
pub open spec fn turn_text(role: Seq<char>, content: Seq<char>) -> Seq<char> {
    "<|im_start|>"@ + role + "\n"@ + content + "<|im_end|>\n"@
}

/// The turns of a conversation, one after the other.
pub open spec fn turns_text(msgs: Seq<(Seq<char>, Seq<char>)>) -> Seq<char>
    decreases msgs.len(),
{
    if msgs.len() == 0 {
        seq![]
    } else {
        turns_text(msgs.drop_last()) + turn_text(msgs.last().0, msgs.last().1)
    }
}

/// The system turn: the standing instruction, then the tool instructions
/// after a blank line when there are any.
pub open spec fn system_text(tools: Option<Seq<char>>) -> Seq<char> {
    match tools {
        Some(t) => system_base() + "\n\n"@ + t,
        None => system_base(),
    }
}

/// The whole prompt: the system turn, the conversation, and an open
/// assistant turn for the model to complete.
pub open spec fn chat_prompt(tools: Option<Seq<char>>, msgs: Seq<(Seq<char>, Seq<char>)>) -> Seq<char> {
    "<|im_start|>system\n"@ + system_text(tools) + "<|im_end|>\n"@ + turns_text(msgs)
        + "<|im_start|>assistant\n"@
}

/// The prompt for `messages`, with the tool instructions in the system turn
/// when given.
pub fn chat_prompt_text(messages: &Vec<Message>, tool_definitions: Option<&str>) -> (r: String)
    ensures
        r@ == chat_prompt(
            match tool_definitions {
                Some(t) => Some(t@),
                None => None,
            },
            messages@.map_values(|m: Message| m@),
        ),
{
    let ghost msgs = messages@.map_values(|m: Message| m@);
    let mut out: Vec<char> = Vec::new();
    push_str(&mut out, "<|im_start|>system\n");
    push_str(&mut out, "You are a helpful AI assistant running locally on the user's computer. Be concise and helpful.");
    match tool_definitions {
        Some(t) => {
            push_str(&mut out, "\n\n");
            push_str(&mut out, t);
        },
        None => {},
    }
    push_str(&mut out, "<|im_end|>\n");
    let ghost head = out@;
    let mut i: usize = 0;
    while i < messages.len()
        invariant
            0 <= i <= messages@.len(),
            msgs == messages@.map_values(|m: Message| m@),
            out@ == head + turns_text(msgs.subrange(0, i as int)),
        decreases messages@.len() - i,
    {
        let m = &messages[i];
        push_str(&mut out, "<|im_start|>");
        push_str(&mut out, m.role.as_str());
        push_str(&mut out, "\n");
        push_str(&mut out, m.content.as_str());
        push_str(&mut out, "<|im_end|>\n");
        assert(msgs.subrange(0, i + 1).drop_last() =~= msgs.subrange(0, i as int));
        i = i + 1;
    }
    assert(msgs.subrange(0, i as int) =~= msgs);
    push_str(&mut out, "<|im_start|>assistant\n");
    text_of(&out)
}

/// A generated piece holds the end-of-turn marker, where generation stops.
pub fn ends_turn(piece: &str) -> (r: bool)
    ensures
        r == exists|i: int| match_at(piece@, "<|im_end|>"@, i),
{
    contains(piece, "<|im_end|>")
}

} // verus!
