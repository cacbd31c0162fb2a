//! The conversation: ordered messages, the JSON request body sent for each
//! turn, and the decision that ends or continues the interactive loop.

use vstd::prelude::*;
use vstd::string::*;
use crate::chars::{chars_eq_str, chars_of, trim_spec, trim_str};
use crate::json::{append_json_str, append_str, json_string_spec};

verus! {

/// Who said a message.
#[derive(PartialEq, Eq, Structural, Clone, Copy, Debug)]
pub enum Role {
    System,
    User,
    Assistant,
}

/// One turn of the conversation, oldest first in the transcript.
pub struct Message {
    pub role: Role,
    pub content: String,
}

/// The wire name of a role.
pub open spec fn role_name_spec(r: Role) -> Seq<char> {
    match r {
        Role::System => "system"@,
        Role::User => "user"@,
        Role::Assistant => "assistant"@,
    }
}

/// The JSON object for one message.
pub open spec fn message_json_spec(m: Message) -> Seq<char> {
    "{\"role\":"@ + json_string_spec(role_name_spec(m.role)) + ",\"content\":"@
        + json_string_spec(m.content@) + "}"@
}

/// The comma-separated message objects, without the surrounding brackets.
pub open spec fn messages_inner_spec(ms: Seq<Message>) -> Seq<char>
    decreases ms.len(),
{
    if ms.len() == 0 {
        Seq::<char>::empty()
    } else if ms.len() == 1 {
        message_json_spec(ms[0])
    } else {
        message_json_spec(ms[0]) + ","@ + messages_inner_spec(ms.drop_first())
    }
}

/// The JSON array of messages.
pub open spec fn messages_json_spec(ms: Seq<Message>) -> Seq<char> {
    "["@ + messages_inner_spec(ms) + "]"@
}

/// The complete request body: model, transcript, and reasoning effort.
pub open spec fn request_body_spec(
    model: Seq<char>,
    ms: Seq<Message>,
    effort: Seq<char>,
) -> Seq<char> {
    "{\"model\":"@ + json_string_spec(model) + ",\"messages\":"@ + messages_json_spec(ms)
        + ",\"reasoning\":{\"effort\":"@ + json_string_spec(effort) + "}}"@
}

/// One more message at the end extends the comma-separated list at its end.
proof fn lemma_messages_inner_push(ms: Seq<Message>, m: Message)
    ensures
        messages_inner_spec(ms.push(m)) == if ms.len() == 0 {
            message_json_spec(m)
        } else {
            messages_inner_spec(ms) + ","@ + message_json_spec(m)
        },
    decreases ms.len(),
{
    let p = ms.push(m);
    assert(p[0] == if ms.len() == 0 { m } else { ms[0] });
    if ms.len() == 0 {
        assert(messages_inner_spec(p) == message_json_spec(m));
    } else if ms.len() == 1 {
        assert(p.drop_first() =~= ms.drop_first().push(m));
        lemma_messages_inner_push(ms.drop_first(), m);
        assert(messages_inner_spec(p) =~= messages_inner_spec(ms) + ","@ + message_json_spec(m));
    } else {
        assert(p.drop_first() =~= ms.drop_first().push(m));
        lemma_messages_inner_push(ms.drop_first(), m);
        assert(messages_inner_spec(p) =~= messages_inner_spec(ms) + ","@ + message_json_spec(m));
    }
}

/// Appends the JSON object for one message to `out`.
fn append_message_json(out: &mut Vec<char>, m: &Message)
    ensures
        final(out)@ == old(out)@ + message_json_spec(*m),
{
    let ghost orig = out@;
    append_str(out, "{\"role\":");
    match m.role {
        Role::System => append_json_str(out, "system"),
        Role::User => append_json_str(out, "user"),
        Role::Assistant => append_json_str(out, "assistant"),
    }
    append_str(out, ",\"content\":");
    append_json_str(out, m.content.as_str());
    append_str(out, "}");
    assert(out@ =~= orig + message_json_spec(*m));
}

/// The JSON request body for one turn, exactly as it goes on the wire.
pub fn request_body_json(model: &str, messages: &Vec<Message>, effort: &str) -> (r: String)
    ensures
        r@ == request_body_spec(model@, messages@, effort@),
{
    let mut out: Vec<char> = Vec::new();
    append_str(&mut out, "{\"model\":");
    append_json_str(&mut out, model);
    append_str(&mut out, ",\"messages\":");
    append_str(&mut out, "[");
    let ghost head = out@;
    let n = messages.len();
    let mut i: usize = 0;
    while i < n
        invariant
            n == messages@.len(),
            i <= n,
            out@ == head + messages_inner_spec(messages@.take(i as int)),
        decreases n - i,
    {
        if i > 0 {
            append_str(&mut out, ",");
        }
        append_message_json(&mut out, &messages[i]);
        proof {
            assert(messages@.take(i + 1 as int) =~= messages@.take(i as int).push(
                messages@[i as int],
            ));
            lemma_messages_inner_push(messages@.take(i as int), messages@[i as int]);
            assert(out@ =~= head + messages_inner_spec(messages@.take(i + 1 as int)));
        }
        i = i + 1;
    }
    assert(messages@.take(n as int) =~= messages@);
    append_str(&mut out, "]");
    append_str(&mut out, ",\"reasoning\":{\"effort\":");
    append_json_str(&mut out, effort);
    append_str(&mut out, "}}");
    let r = crate::chars::string_of_chars(&out);
    proof {
        assert(r@ =~= request_body_spec(model@, messages@, effort@));
    }
    r
}

/// Builds the opening transcript: the system instruction, where one is sent,
/// then the first user prompt.
pub fn initial_messages(system_instruction: Option<String>, prompt: String) -> (v: Vec<Message>)
    ensures
        (match system_instruction {
            Some(s) => v@.len() == 2 && v@[0].role == Role::System && v@[0].content@ == s@
                && v@[1].role == Role::User && v@[1].content@ == prompt@,
            None => v@.len() == 1 && v@[0].role == Role::User && v@[0].content@ == prompt@,
        }),
{
    let mut v: Vec<Message> = Vec::new();
    match system_instruction {
        Some(s) => {
            v.push(Message { role: Role::System, content: s });
        },
        None => {},
    }
    v.push(Message { role: Role::User, content: prompt });
    v
}

/// Appends the assistant's reply to the transcript; nothing else changes.
pub fn push_assistant(v: &mut Vec<Message>, content: String)
    ensures
        final(v)@.len() == old(v)@.len() + 1,
        final(v)@.take(old(v)@.len() as int) == old(v)@,
        final(v)@.last().role == Role::Assistant,
        final(v)@.last().content@ == content@,
{
    let ghost orig = v@;
    v.push(Message { role: Role::Assistant, content });
    assert(v@.take(orig.len() as int) =~= orig);
}

/// Appends the user's next line to the transcript; nothing else changes.
pub fn push_user(v: &mut Vec<Message>, content: String)
    ensures
        final(v)@.len() == old(v)@.len() + 1,
        final(v)@.take(old(v)@.len() as int) == old(v)@,
        final(v)@.last().role == Role::User,
        final(v)@.last().content@ == content@,
{
    let ghost orig = v@;
    v.push(Message { role: Role::User, content });
    assert(v@.take(orig.len() as int) =~= orig);
}

/// The text a response yields: the first choice's content, trimmed, and the
/// empty text where the response carried no choice at all.
pub open spec fn primary_output_spec(contents: Seq<Seq<char>>) -> Seq<char> {
    if contents.len() > 0 {
        trim_spec(contents[0])
    } else {
        Seq::<char>::empty()
    }
}

/// Extracts the primary output from the choices of a response, given as
/// their content texts in order.
pub fn primary_output(contents: &Vec<String>) -> (r: String)
    ensures
        r@ == primary_output_spec(contents@.map_values(|s: String| s@)),
{
    if contents.len() > 0 {
        let r = trim_str(contents[0].as_str());
        assert(contents@.map_values(|s: String| s@)[0] == contents@[0]@);
        r
    } else {
        String::new()
    }
}

/// What the interactive loop does after reading a line: stop, or send the
/// trimmed line as the next user message.
pub enum TurnAction {
    Stop,
    Send(String),
}

/// The loop must stop: the read failed, or the trimmed line is empty or the
/// exact exit word.
pub open spec fn should_stop_spec(line: Option<Seq<char>>) -> bool {
    match line {
        None => true,
        Some(l) => trim_spec(l).len() == 0 || trim_spec(l) == "/exit"@,
    }
}

/// The view of the line the loop read, `None` on a read error.
pub open spec fn read_view(line: Option<&str>) -> Option<Seq<char>> {
    match line {
        Some(l) => Some(l@),
        None => None,
    }
}

/// Decides the next step of the interactive loop. No request follows a read
/// error, an empty line, or the exit word; any other line is sent trimmed.
pub fn plan_next_turn(line: Option<&str>) -> (a: TurnAction)
    ensures
        (match a {
            TurnAction::Stop => should_stop_spec(read_view(line)),
            TurnAction::Send(s) => !should_stop_spec(read_view(line)) && (match line {
                Some(l) => s@ == trim_spec(l@),
                None => false,
            }),
        }),
{
    match line {
        None => TurnAction::Stop,
        Some(l) => {
            let t = trim_str(l);
            let tv = chars_of(t.as_str());
            if tv.len() == 0 {
                TurnAction::Stop
            } else if chars_eq_str(&tv, "/exit") {
                TurnAction::Stop
            } else {
                TurnAction::Send(t)
            }
        },
    }
}

/// The loop stops exactly on a read error, an empty trimmed line, or the
/// exact exit word; every other line is sent onward.
pub proof fn lemma_loop_termination(line: Option<Seq<char>>)
    ensures
        should_stop_spec(line) <==> (line is None || trim_spec(line->0).len() == 0 || trim_spec(
            line->0,
        ) == "/exit"@),
{
}

} // verus!
