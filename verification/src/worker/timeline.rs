use vstd::prelude::*;
use vstd::string::*;

use crate::worker::model::{AgentResult, AgentStep, ChatRole, ConversationEntry, Message, copy_opt_action, copy_opt_string};

verus! {

/// The chat messages of a timeline, as roles and texts, in order; steps are skipped.
pub open spec fn timeline_messages(t: Seq<ConversationEntry>) -> Seq<(ChatRole, Seq<char>)>
    decreases t.len(),
{
    if t.len() == 0 {
        Seq::empty()
    } else {
        let prev = timeline_messages(t.drop_last());
        match t.last() {
            ConversationEntry::ChatMsg { role, content } => prev.push((role, content@)),
            _ => prev,
        }
    }
}

/// Messages as roles and texts.
pub open spec fn messages_view(s: Seq<Message>) -> Seq<(ChatRole, Seq<char>)> {
    s.map_values(|m: Message| (m.role, m.content@))
}

/// The chat messages of the timeline, in order.
pub fn timeline_to_messages(timeline: &Vec<ConversationEntry>) -> (out: Vec<Message>)
    ensures
        messages_view(out@) == timeline_messages(timeline@),
{
    let mut out: Vec<Message> = Vec::new();
    for i in 0..timeline.len()
        invariant
            messages_view(out@) == timeline_messages(timeline@.take(i as int)),
    {
        proof {
            assert(timeline@.take(i + 1).drop_last() == timeline@.take(i as int));
            assert(timeline@.take(i + 1).last() == timeline@[i as int]);
        }
        let ghost before = messages_view(out@);
        match &timeline[i] {
            ConversationEntry::ChatMsg { role, content } => {
                out.push(Message { role: *role, content: content.clone() });
                assert(messages_view(out@) =~= before.push((*role, content@)));
            },
            _ => {},
        }
    }
    assert(timeline@.take(timeline@.len() as int) == timeline@);
    out
}

/// The timeline entry that records a reasoning step.
pub open spec fn step_entry(s: AgentStep) -> ConversationEntry {
    ConversationEntry::Step { thought: s.thought, action: s.action, observation: s.observation }
}

/// The entries that record one turn: the user's message, each reasoning step, and the final
/// answer as an assistant message when it is not empty.
pub open spec fn turn_entries(user: Message, result: AgentResult) -> Seq<ConversationEntry> {
    let head = seq![ConversationEntry::ChatMsg { role: user.role, content: user.content }];
    let steps = result.reasoning_steps@.map_values(|s: AgentStep| step_entry(s));
    if result.final_answer@.len() > 0 {
        head + steps + seq![ConversationEntry::ChatMsg { role: ChatRole::Assistant, content: result.final_answer }]
    } else {
        head + steps
    }
}

/// The timeline entries that record a turn (see `turn_entries`).
pub fn build_timeline_entries(user_msg: &Message, agent_result: &AgentResult) -> (out: Vec<ConversationEntry>)
    ensures
        out@ == turn_entries(*user_msg, *agent_result),
{
    let mut out: Vec<ConversationEntry> = Vec::new();
    out.push(ConversationEntry::ChatMsg { role: user_msg.role, content: user_msg.content.clone() });
    let steps = &agent_result.reasoning_steps;
    let ghost head = out@;
    for i in 0..steps.len()
        invariant
            out@ == head + steps@.take(i as int).map_values(|s: AgentStep| step_entry(s)),
    {
        let s = &steps[i];
        out.push(ConversationEntry::Step {
            thought: s.thought.clone(),
            action: copy_opt_action(&s.action),
            observation: copy_opt_string(&s.observation),
        });
        assert(steps@.take(i + 1).map_values(|s: AgentStep| step_entry(s)) =~= steps@.take(i as int).map_values(|s: AgentStep| step_entry(s)).push(step_entry(*s)));
    }
    assert(steps@.take(steps@.len() as int) == steps@);
    if !agent_result.final_answer.as_str().is_empty() {
        out.push(ConversationEntry::ChatMsg { role: ChatRole::Assistant, content: agent_result.final_answer.clone() });
    }
    out
}

proof fn lemma_timeline_messages_concat(a: Seq<ConversationEntry>, b: Seq<ConversationEntry>)
    ensures
        timeline_messages(a + b) == timeline_messages(a) + timeline_messages(b),
    decreases b.len(),
{
    if b.len() == 0 {
        assert(a + b == a);
    } else {
        lemma_timeline_messages_concat(a, b.drop_last());
        assert((a + b).drop_last() == a + b.drop_last());
    }
}

proof fn lemma_steps_have_no_messages(steps: Seq<AgentStep>)
    ensures
        timeline_messages(steps.map_values(|s: AgentStep| step_entry(s))) == Seq::<(ChatRole, Seq<char>)>::empty(),
    decreases steps.len(),
{
    if steps.len() > 0 {
        lemma_steps_have_no_messages(steps.drop_last());
        assert(steps.map_values(|s: AgentStep| step_entry(s)).drop_last() == steps.drop_last().map_values(|s: AgentStep| step_entry(s)));
    }
}

/// Reading back the messages of a recorded turn gives the user's message, then the final
/// answer as an assistant message when it is not empty; the steps are not messages.
pub proof fn lemma_turn_messages_round_trip(user: Message, result: AgentResult)
    ensures
        timeline_messages(turn_entries(user, result)) == if result.final_answer@.len() > 0 {
            seq![(user.role, user.content@), (ChatRole::Assistant, result.final_answer@)]
        } else {
            seq![(user.role, user.content@)]
        },
{
    let head = seq![ConversationEntry::ChatMsg { role: user.role, content: user.content }];
    let steps = result.reasoning_steps@.map_values(|s: AgentStep| step_entry(s));
    let tail = seq![ConversationEntry::ChatMsg { role: ChatRole::Assistant, content: result.final_answer }];
    lemma_steps_have_no_messages(result.reasoning_steps@);
    lemma_timeline_messages_concat(head, steps);
    assert(timeline_messages(head) == seq![(user.role, user.content@)]) by {
        reveal_with_fuel(timeline_messages, 2);
        assert(head.drop_last() == Seq::<ConversationEntry>::empty());
    }
    assert(timeline_messages(tail) == seq![(ChatRole::Assistant, result.final_answer@)]) by {
        reveal_with_fuel(timeline_messages, 2);
        assert(tail.drop_last() == Seq::<ConversationEntry>::empty());
    }
    lemma_timeline_messages_concat(head + steps, tail);
}

} // verus!
