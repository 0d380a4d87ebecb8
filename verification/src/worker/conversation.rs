use vstd::prelude::*;
use vstd::string::*;

use crate::text::opt_str_view;
use crate::worker::summary::{should_summarize, should_summarize_spec};
use crate::worker::think_agent::{AgentAction, AgentResult, AgentStep, Message};

verus! {

/// An entry of a stored conversation whose roles are written out: a message or a
/// reasoning step.
#[derive(Debug)]
pub enum ConversationEntry {
    Message { role: String, content: String },
    Step { thought: String, action: Option<AgentAction>, observation: Option<String> },
}

/// A stored conversation; the times are milliseconds since the Unix epoch, in UTC.
#[derive(Debug)]
pub struct ConversationDoc {
    pub conversation_id: String,
    pub created_at_ms: i64,
    pub updated_at_ms: i64,
    pub summary: Option<String>,
    pub total_tokens: u32,
    pub timeline: Vec<ConversationEntry>,
}

/// Reads the clock with `chrono::Utc::now` and returns the milliseconds since the Unix
/// epoch (`DateTime::timestamp_millis`). Nothing is claimed of the value: it is the time.
#[verifier::external_body]
fn utc_now_millis() -> (t: i64) {
    chrono::Utc::now().timestamp_millis()
}

/// The messages of a timeline, as roles and texts, in order; steps are skipped.
pub open spec fn timeline_messages(t: Seq<ConversationEntry>) -> Seq<(Seq<char>, Seq<char>)>
    decreases t.len(),
{
    if t.len() == 0 {
        Seq::empty()
    } else {
        let prev = timeline_messages(t.drop_last());
        match t.last() {
            ConversationEntry::Message { role, content } => prev.push((role@, content@)),
            _ => prev,
        }
    }
}

/// Messages as roles and texts.
pub open spec fn messages_view(s: Seq<Message>) -> Seq<(Seq<char>, Seq<char>)> {
    s.map_values(|m: Message| (m.role@, m.content@))
}

/// The messages of a timeline, in order.
pub fn timeline_to_messages(timeline: &Vec<ConversationEntry>) -> (out: Vec<Message>)
    ensures
        messages_view(out@) == timeline_messages(timeline@),
{
    let mut out: Vec<Message> = Vec::new();
    for i in 0..timeline.len()
        invariant
            messages_view(out@) == timeline_messages(timeline@.take(i as int)),
    {
        proof {
            assert(timeline@.take(i + 1).drop_last() == timeline@.take(i as int));
            assert(timeline@.take(i + 1).last() == timeline@[i as int]);
        }
        let ghost before = messages_view(out@);
        match &timeline[i] {
            ConversationEntry::Message { role, content } => {
                out.push(Message { role: role.clone(), content: content.clone() });
                assert(messages_view(out@) =~= before.push((role@, content@)));
            },
            _ => {},
        }
    }
    assert(timeline@.take(timeline@.len() as int) == timeline@);
    out
}

/// The timeline entry that records a reasoning step.
pub open spec fn step_entry(s: AgentStep) -> ConversationEntry {
    ConversationEntry::Step { thought: s.thought, action: s.action, observation: s.observation }
}

/// A copy of a step's entry fields.
fn step_to_entry(s: &AgentStep) -> (e: ConversationEntry)
    ensures
        e == step_entry(*s),
{
    ConversationEntry::Step {
        thought: s.thought.clone(),
        action: match &s.action {
            Some(AgentAction::ExecuteTool { tool_name, tool_input }) => Some(
                AgentAction::ExecuteTool { tool_name: tool_name.clone(), tool_input: tool_input.clone() },
            ),
            None => None,
        },
        observation: match &s.observation {
            Some(o) => Some(o.clone()),
            None => None,
        },
    }
}

/// The steps of a turn as timeline entries.
pub open spec fn step_entries(steps: Seq<AgentStep>) -> Seq<ConversationEntry> {
    steps.map_values(|s: AgentStep| step_entry(s))
}

proof fn lemma_timeline_messages_concat(a: Seq<ConversationEntry>, b: Seq<ConversationEntry>)
    ensures
        timeline_messages(a + b) == timeline_messages(a) + timeline_messages(b),
    decreases b.len(),
{
    if b.len() == 0 {
        assert(a + b == a);
    } else {
        lemma_timeline_messages_concat(a, b.drop_last());
        assert((a + b).drop_last() == a + b.drop_last());
    }
}

proof fn lemma_steps_have_no_messages(steps: Seq<AgentStep>)
    ensures
        timeline_messages(step_entries(steps)) == Seq::<(Seq<char>, Seq<char>)>::empty(),
    decreases steps.len(),
{
    if steps.len() > 0 {
        lemma_steps_have_no_messages(steps.drop_last());
        assert(step_entries(steps).drop_last() == step_entries(steps.drop_last()));
    }
}

/// The timeline entries that record a turn: the user's message, each reasoning step, and
/// the final answer as an "assistant" message when it is not empty. Reading the messages
/// back gives the user's message and that answer.
pub fn build_timeline_entries(user_msg: &Message, agent_result: &AgentResult) -> (out: Vec<ConversationEntry>)
    ensures
        out@.len() == 1 + agent_result.reasoning_steps@.len() + (if agent_result.final_answer@.len() > 0 {
            1int
        } else {
            0int
        }),
        out@[0] == (ConversationEntry::Message { role: user_msg.role, content: user_msg.content }),
        out@.subrange(1, 1 + agent_result.reasoning_steps@.len() as int) == step_entries(agent_result.reasoning_steps@),
        agent_result.final_answer@.len() > 0 ==> (out@.last() matches ConversationEntry::Message { role, content }
            && role@ == "assistant"@ && content == agent_result.final_answer),
        timeline_messages(out@) == (if agent_result.final_answer@.len() > 0 {
            seq![(user_msg.role@, user_msg.content@), ("assistant"@, agent_result.final_answer@)]
        } else {
            seq![(user_msg.role@, user_msg.content@)]
        }),
{
    let mut out: Vec<ConversationEntry> = Vec::new();
    out.push(ConversationEntry::Message { role: user_msg.role.clone(), content: user_msg.content.clone() });
    let steps = &agent_result.reasoning_steps;
    let ghost head = out@;
    for i in 0..steps.len()
        invariant
            out@ == head + step_entries(steps@.take(i as int)),
    {
        out.push(step_to_entry(&steps[i]));
        assert(step_entries(steps@.take(i + 1)) =~= step_entries(steps@.take(i as int)).push(step_entry(steps@[i as int])));
    }
    assert(steps@.take(steps@.len() as int) == steps@);
    let ghost body = out@;
    proof {
        lemma_steps_have_no_messages(steps@);
        lemma_timeline_messages_concat(head, step_entries(steps@));
        assert(timeline_messages(head) == seq![(user_msg.role@, user_msg.content@)]) by {
            reveal_with_fuel(timeline_messages, 2);
            assert(head.drop_last() == Seq::<ConversationEntry>::empty());
        }
        assert(body.subrange(1, 1 + steps@.len() as int) =~= step_entries(steps@));
    }
    if !agent_result.final_answer.as_str().is_empty() {
        let last = ConversationEntry::Message { role: "assistant".to_string(), content: agent_result.final_answer.clone() };
        out.push(last);
        proof {
            assert(timeline_messages(out@) == timeline_messages(body).push(("assistant"@, agent_result.final_answer@))) by {
                assert(out@.drop_last() == body);
            }
            assert(out@.subrange(1, 1 + steps@.len() as int) =~= step_entries(steps@));
        }
    }
    out
}

/// The transcript of messages: "[role]: content" and a line feed for each, in order.
pub open spec fn transcript(ms: Seq<(Seq<char>, Seq<char>)>) -> Seq<char>
    decreases ms.len(),
{
    if ms.len() == 0 {
        Seq::empty()
    } else {
        transcript(ms.drop_last()) + "["@ + ms.last().0 + "]: "@ + ms.last().1 + "\n"@
    }
}

/// The part of the prompt that carries an earlier summary; empty when there is none or it
/// is empty.
pub open spec fn previous_summary_spec(existing: Option<Seq<char>>) -> Seq<char> {
    match existing {
        Some(s) => if s.len() > 0 {
            "\n## Previous Summary\n"@ + s + "\n"@
        } else {
            Seq::empty()
        },
        None => Seq::empty(),
    }
}

/// The opening of the prompt that asks for a combined summary.
pub const COMBINED_SUMMARY_HEAD: &'static str = "You are a conversation summarizer. Produce a concise, combined summary of the entire conversation history.\nOutput ONLY the summary text, no JSON, no formatting.\n";

/// The prompt that asks for one summary combining an earlier summary with new messages.
pub open spec fn combined_prompt_spec(ms: Seq<(Seq<char>, Seq<char>)>, existing: Option<Seq<char>>) -> Seq<char> {
    COMBINED_SUMMARY_HEAD@ + previous_summary_spec(existing) + "\n## New Messages to Incorporate\n"@
        + transcript(ms) + "\n## Combined Summary"@
}

/// The prompt that asks the model to fold `messages` into `existing_summary` (see
/// `combined_prompt_spec`).
pub fn build_summarization_prompt(messages: &Vec<Message>, existing_summary: Option<&str>) -> (r: String)
    ensures
        r@ == combined_prompt_spec(messages_view(messages@), opt_str_view(existing_summary)),
{
    let ghost ms = messages_view(messages@);
    let mut text = String::new();
    for i in 0..messages.len()
        invariant
            ms == messages_view(messages@),
            text@ == transcript(ms.take(i as int)),
    {
        proof {
            assert(ms.take(i + 1).drop_last() == ms.take(i as int));
            assert(ms.take(i + 1).last() == (messages@[i as int].role@, messages@[i as int].content@));
        }
        text.append("[");
        text.append(messages[i].role.as_str());
        text.append("]: ");
        text.append(messages[i].content.as_str());
        text.append("\n");
    }
    assert(ms.take(messages@.len() as int) == ms);
    let previous = match existing_summary {
        Some(s) => {
            if !s.is_empty() {
                let mut b = "\n## Previous Summary\n".to_string();
                b.append(s);
                b.append("\n");
                b
            } else {
                String::new()
            }
        },
        None => String::new(),
    };
    let mut r = COMBINED_SUMMARY_HEAD.to_string();
    r.append(previous.as_str());
    r.append("\n## New Messages to Incorporate\n");
    r.append(text.as_str());
    r.append("\n## Combined Summary");
    r
}

/// The key under which a conversation is cached: "conv:" followed by its id.
pub fn conversation_key(conversation_id: &str) -> (r: String)
    ensures
        r@ == "conv:"@ + conversation_id@,
{
    let mut k = "conv:".to_string();
    k.append(conversation_id);
    k
}

/// The messages to fold into the summary now, when one is due: of the messages older than
/// the last `history_max`, the last `interval` (all of them when there are no more).
pub open spec fn summary_batch_spec(total: u64, ms: Seq<Message>, history_max: u32, interval: u32) -> Option<Seq<Message>> {
    if !should_summarize_spec(total, history_max, interval) || ms.len() <= history_max {
        None
    } else {
        let older = ms.take(ms.len() - history_max);
        let batch = if older.len() <= interval {
            older
        } else {
            older.skip(older.len() - interval)
        };
        if batch.len() == 0 {
            None
        } else {
            Some(batch)
        }
    }
}

/// A batch is returned exactly when a summary is due and there are more messages than are
/// kept; it then ends where the kept last `history_max` messages begin and holds the
/// `interval` messages just before them, or all the older ones when there are no more.
pub proof fn lemma_summary_batch_precedes_kept(total: u64, ms: Seq<Message>, history_max: u32, interval: u32)
    requires
        total > history_max ==> interval > 0,
    ensures
        summary_batch_spec(total, ms, history_max, interval) is Some <==> (total > history_max && (total
            - history_max) % (interval as int) == 0 && ms.len() > history_max),
        summary_batch_spec(total, ms, history_max, interval) matches Some(b) ==> b == ms.subrange(
            if ms.len() - history_max <= interval {
                0
            } else {
                ms.len() - history_max - interval
            },
            ms.len() - history_max,
        ),
{
    if should_summarize_spec(total, history_max, interval) && ms.len() > history_max {
        let older = ms.take(ms.len() - history_max);
        if older.len() <= interval {
            assert(older =~= ms.subrange(0, ms.len() - history_max));
        } else {
            assert(older.skip(older.len() - interval) =~= ms.subrange(
                ms.len() - history_max - interval,
                ms.len() - history_max,
            ));
        }
    }
}

/// The batch of older messages to summarize, if a summary is due (see `summary_batch_spec`).
pub fn summary_batch(total: u64, messages: &Vec<Message>, history_max: u32, interval: u32) -> (r: Option<Vec<Message>>)
    requires
        total > history_max ==> interval > 0,
    ensures
        match (r, summary_batch_spec(total, messages@, history_max, interval)) {
            (Some(v), Some(s)) => v@ == s,
            (None, None) => true,
            _ => false,
        },
{
    if !should_summarize(total, history_max, interval) {
        return None;
    }
    let keep = history_max as usize;
    let n = messages.len();
    if n <= keep {
        return None;
    }
    let older_len = n - keep;
    let start: usize = if older_len <= interval as usize { 0 } else { older_len - interval as usize };
    if start == older_len {
        return None;
    }
    let mut batch: Vec<Message> = Vec::new();
    let mut i: usize = start;
    while i < older_len
        invariant
            start <= i <= older_len <= n == messages@.len(),
            batch@.len() == i - start,
            forall|k: int| 0 <= k < batch@.len() ==> #[trigger] batch@[k] == messages@[start + k],
        decreases older_len - i,
    {
        batch.push(Message { role: messages[i].role.clone(), content: messages[i].content.clone() });
        i = i + 1;
    }
    assert(batch@ =~= messages@.take(older_len as int).skip(start as int));
    assert(messages@.take(older_len as int).skip(0) == messages@.take(older_len as int));
    Some(batch)
}

impl ConversationDoc {
    /// An empty conversation, created and updated now.
    pub fn new(conversation_id: String) -> (r: Self)
        ensures
            r.conversation_id == conversation_id,
            r.created_at_ms == r.updated_at_ms,
            r.summary is None,
            r.total_tokens == 0,
            r.timeline@.len() == 0,
    {
        let now = utc_now_millis();
        ConversationDoc {
            conversation_id,
            created_at_ms: now,
            updated_at_ms: now,
            summary: None,
            total_tokens: 0,
            timeline: Vec::new(),
        }
    }

    /// The messages of the timeline, in order (see `timeline_messages`).
    pub fn to_messages(&self) -> (out: Vec<Message>)
        ensures
            messages_view(out@) == timeline_messages(self.timeline@),
    {
        timeline_to_messages(&self.timeline)
    }

    /// The number of messages in the timeline.
    pub fn message_count(&self) -> (n: usize)
        ensures
            n == timeline_messages(self.timeline@).len(),
    {
        let mut n: usize = 0;
        for i in 0..self.timeline.len()
            invariant
                n == timeline_messages(self.timeline@.take(i as int)).len(),
                n <= i,
        {
            proof {
                assert(self.timeline@.take(i + 1).drop_last() == self.timeline@.take(i as int));
                assert(self.timeline@.take(i + 1).last() == self.timeline@[i as int]);
            }
            match &self.timeline[i] {
                ConversationEntry::Message { .. } => {
                    n = n + 1;
                },
                _ => {},
            }
        }
        assert(self.timeline@.take(self.timeline@.len() as int) == self.timeline@);
        n
    }

    /// The messages of the timeline but the last `keep_last`, in order; none when there are
    /// no more than `keep_last`.
    pub fn older_messages(&self, keep_last: u32) -> (out: Vec<Message>)
        ensures
            messages_view(out@) == (if timeline_messages(self.timeline@).len() <= keep_last {
                Seq::<(Seq<char>, Seq<char>)>::empty()
            } else {
                timeline_messages(self.timeline@).take(timeline_messages(self.timeline@).len() - keep_last)
            }),
    {
        let all = timeline_to_messages(&self.timeline);
        let keep = keep_last as usize;
        if all.len() <= keep {
            let out: Vec<Message> = Vec::new();
            assert(messages_view(out@) =~= Seq::<(Seq<char>, Seq<char>)>::empty());
            return out;
        }
        let n = all.len() - keep;
        let mut out: Vec<Message> = Vec::new();
        for i in 0..n
            invariant
                n <= all@.len(),
                out@ == all@.take(i as int),
        {
            out.push(Message { role: all[i].role.clone(), content: all[i].content.clone() });
            assert(out@ == all@.take(i + 1));
        }
        assert(messages_view(out@) =~= messages_view(all@).take(n as int));
        out
    }
}

} // verus!
