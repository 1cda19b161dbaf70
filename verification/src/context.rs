//! The context builder: a pure transformation from a snapshot of recent turns
//! and a new prompt to the ordered message list of a completion request.

use vstd::prelude::*;

use crate::store::ChatTurn;

verus! {

/// One request message: a role and its content, derived verbatim from a
/// stored turn, or carrying the new prompt. Transient; never persisted.
#[derive(Debug)]
pub struct Message {
    pub role: String,
    pub content: String,
}

impl View for Message {
    type V = (Seq<char>, Seq<char>);

    open spec fn view(&self) -> (Seq<char>, Seq<char>) {
        (self.role@, self.content@)
    }
}

impl Clone for Message {
    fn clone(&self) -> (r: Self)
        ensures
            r@ == self@,
    {
        Message { role: self.role.clone(), content: self.content.clone() }
    }
}

/// Builds the request messages: each turn of `history` verbatim and in order,
/// then one final user message carrying `prompt`.
pub fn build_messages(history: &Vec<ChatTurn>, prompt: &str) -> (r: Vec<Message>)
    ensures
        r@.len() == history@.len() + 1,
        forall|i: int|
            0 <= i < history@.len() ==> (#[trigger] r@[i])@ == (history@[i]@.1, history@[i]@.2),
        r@.last()@ == ("user"@, prompt@),
{
    let mut msgs: Vec<Message> = Vec::new();
    let mut i: usize = 0;
    while i < history.len()
        invariant
            i <= history@.len(),
            msgs@.len() == i,
            forall|j: int|
                0 <= j < i ==> (#[trigger] msgs@[j])@ == (history@[j]@.1, history@[j]@.2),
        decreases history@.len() - i,
    {
        let t = &history[i];
        msgs.push(Message { role: t.role.clone(), content: t.content.clone() });
        i = i + 1;
    }
    msgs.push(Message { role: "user".to_owned(), content: prompt.to_owned() });
    msgs
}

} // verus!
