//! The ReAct (Reason-Act-Observe) loop: the context it reasons over, how a
//! model response is read as a tool call or a final answer, and the loop's
//! decisions from one observation to the next.
use vstd::prelude::*;
use crate::json::{is_json_text, json_text_is_valid};
use crate::memory::EntryView;
use crate::state::AgentState;
use crate::text::{
    is_white, matches_at, chars_of, contains, contains_chars, find, find_chars, lines, lines_chars, starts_with,
    starts_with_chars, string_of, sub_chars, trim, trim_chars, trim_start_matches,
    trim_start_matches_chars, views,
};

verus! {

/// Maximum default iterations for the ReAct loop.
pub const DEFAULT_MAX_ITERATIONS: u32 = 5;

/// The instructions before the goal.
pub const CONTEXT_HEAD: &'static str = "You are an autonomous AI agent operating in GOD_MODE within the NEXUS_OMNI system.\nYour task is to achieve the following goal using the ReAct (Reason-Act-Observe) pattern.\n\nGOAL: ";

/// The instructions after the goal.
pub const CONTEXT_TAIL: &'static str = "\n\nAVAILABLE TOOLS:\n- web_search: Search the web for information. Input: {\"query\": \"search terms\"}\n- code_execute: Execute code snippets. Input: {\"language\": \"python|rust|js\", \"code\": \"...\"}  \n- memory_store: Store information for later. Input: {\"key\": \"name\", \"value\": \"data\"}\n- memory_recall: Recall stored information. Input: {\"key\": \"name\"}\n\nRESPONSE FORMAT:\nEither provide a tool call:\nThought: [Your reasoning about what to do next]\nAction: [tool_name]\nAction Input: [JSON input for the tool]\n\nOr provide the final answer:\nThought: [Your final reasoning]\nFinal Answer: [Your complete response to the goal]\n\nBEGIN:\n";

/// The heading of the remembered context.
pub const PREVIOUS_CONTEXT: &'static str = "\nPREVIOUS CONTEXT:\n";

/// The offline model's answer: its opening, up to the goal line.
pub const MOCK_HEAD: &'static str = "Thought: I have analyzed the goal \"";

/// The offline model's answer: after the goal line, up to the final answer.
pub const MOCK_MIDDLE: &'static str = "\". Since this is a test environment, I will provide a direct response.\n\n";

/// The offline model's final answer, after its marker and before its last full stop.
pub const MOCK_ANSWER_BODY: &'static str = " This is a mock response from the AGENT_CGI GOD_MODE orchestrator. The ReAct loop is functioning correctly. To enable real LLM inference, configure the Workers AI binding in wrangler.toml and update this module to use the AI binding";

/// The goal line used when the context has none.
pub const UNKNOWN_GOAL: &'static str = "GOAL: unknown";

/// The remembered entries, one line each: `- key: value`.
pub open spec fn memory_listing(es: Seq<EntryView>) -> Seq<char>
    decreases es.len(),
{
    if es.len() == 0 {
        seq![]
    } else {
        memory_listing(es.drop_last()) + "- "@ + es.last().0 + ": "@ + es.last().1 + "\n"@
    }
}

/// The initial context for `goal`, given the entries of the loaded memory
/// when a state is loaded.
pub open spec fn context_text(goal: Seq<char>, entries: Option<Seq<EntryView>>) -> Seq<char> {
    let base = CONTEXT_HEAD@ + goal + CONTEXT_TAIL@;
    match entries {
        Some(es) => if es.len() > 0 {
            base + PREVIOUS_CONTEXT@ + memory_listing(es)
        } else {
            base
        },
        None => base,
    }
}

/// The first line that begins with `p`.
pub open spec fn first_with_prefix(ls: Seq<Seq<char>>, p: Seq<char>) -> Option<Seq<char>>
    decreases ls.len(),
{
    if ls.len() == 0 {
        None
    } else if starts_with(ls[0], p) {
        Some(ls[0])
    } else {
        first_with_prefix(ls.drop_first(), p)
    }
}

/// The goal line of a context: its first line that begins with `GOAL:`.
pub open spec fn goal_line(context: Seq<char>) -> Seq<char> {
    match first_with_prefix(lines(context), "GOAL:"@) {
        Some(l) => l,
        None => UNKNOWN_GOAL@,
    }
}

/// What the offline model answers to `context`.
pub open spec fn mock_response(context: Seq<char>) -> Seq<char> {
    MOCK_HEAD@ + goal_line(context) + MOCK_MIDDLE@ + "Final Answer:"@ + MOCK_ANSWER_BODY@ + "."@
}

/// Reading the lines of a response in order: the name of the last `Action:`
/// line, and the input of the last `Action Input:` line whose input is JSON.
pub open spec fn scan_tool_lines(ls: Seq<Seq<char>>) -> (Option<Seq<char>>, Option<Seq<char>>)
    decreases ls.len(),
{
    if ls.len() == 0 {
        (None, None)
    } else {
        let prev = scan_tool_lines(ls.drop_last());
        let l = trim(ls.last());
        if starts_with(l, "Action:"@) {
            (Some(trim(trim_start_matches(l, "Action:"@))), prev.1)
        } else if starts_with(l, "Action Input:"@) {
            let t = trim(trim_start_matches(l, "Action Input:"@));
            if is_json_text(t) {
                (prev.0, Some(t))
            } else {
                prev
            }
        } else {
            prev
        }
    }
}

/// The tool call that a response asks for, by name and JSON input text: only
/// a response with `Action:` and without `Final Answer:` asks for one, and it
/// names the tool on its last `Action:` line.
pub open spec fn tool_call_of(resp: Seq<char>) -> Option<(Seq<char>, Option<Seq<char>>)> {
    if !contains(resp, "Action:"@) || contains(resp, "Final Answer:"@) {
        None
    } else {
        let sc = scan_tool_lines(lines(resp));
        match sc.0 {
            Some(n) => Some((n, sc.1)),
            None => None,
        }
    }
}

/// The final answer of a response: what follows its first `Final Answer:`,
/// trimmed, when that is not empty.
pub open spec fn final_answer_of(resp: Seq<char>) -> Option<Seq<char>> {
    match find(resp, "Final Answer:"@) {
        Some(i) => {
            let a = trim(resp.skip(i + "Final Answer:"@.len()));
            if a.len() > 0 {
                Some(a)
            } else {
                None
            }
        },
        None => None,
    }
}

/// A tool call read from a model response.
pub struct ToolCall {
    /// The tool's name
    pub name: String,
    /// The JSON text of its input, when the response gave one that is JSON
    pub input: Option<String>,
}

/// The JSON text a call is dispatched with: its input, or an empty object
/// when the response gave none.
pub open spec fn call_input(tc: (Seq<char>, Option<Seq<char>>)) -> Seq<char> {
    match tc.1 {
        Some(t) => t,
        None => "{}"@,
    }
}

impl ToolCall {
    /// The call by the views of its name and input text.
    pub open spec fn view_pair(&self) -> (Seq<char>, Option<Seq<char>>) {
        (
            self.name@,
            match self.input {
                Some(t) => Some(t@),
                None => None,
            },
        )
    }

    /// The JSON text this call is dispatched with.
    pub fn input_text(&self) -> (t: String)
        ensures
            t@ == call_input(self.view_pair()),
    {
        match &self.input {
            Some(t) => t.clone(),
            None => String::from_str("{}"),
        }
    }

    /// A second call with the same name and input.
    fn duplicate(&self) -> (c: ToolCall)
        ensures
            c == *self,
    {
        ToolCall {
            name: self.name.clone(),
            input: match &self.input {
                Some(t) => Some(t.clone()),
                None => None,
            },
        }
    }
}

/// The ReAct loop's settings: the loaded state, if any, and the iteration budget.
pub struct ReActLoop {
    pub state: Option<AgentState>,
    pub max_iterations: u32,
}

/// `o` by the view of the string it may hold.
pub open spec fn opt_view(o: Option<String>) -> Option<Seq<char>> {
    match o {
        Some(t) => Some(t@),
        None => None,
    }
}

/// The context after the model thought aloud without acting or answering.
pub open spec fn thought_appended(ctx: Seq<char>, resp: Seq<char>) -> Seq<char> {
    ctx + "\nThought: "@ + resp + "\n"@
}

/// The context after a tool's result was observed.
pub open spec fn observation_appended(ctx: Seq<char>, obs: Seq<char>) -> Seq<char> {
    ctx + "\nObservation: "@ + obs + "\n"@
}

/// How a stretch of reasoning ends.
pub enum Outcome {
    /// The model asked for a tool call (name, JSON input text).
    Call((Seq<char>, Option<Seq<char>>)),
    /// The model gave its final answer.
    Answer(Seq<char>),
    /// The iteration budget ran out.
    Exhausted,
}

/// Reasoning from iteration `i` with context `ctx` under a budget of `max`
/// iterations, until the model acts, answers, or the budget runs out: the
/// context and iteration count at that point, and how it ended.
pub open spec fn advance(ctx: Seq<char>, i: nat, max: nat) -> (Seq<char>, nat, Outcome)
    decreases max - i,
{
    if i >= max {
        (ctx, i, Outcome::Exhausted)
    } else {
        let resp = mock_response(ctx);
        match tool_call_of(resp) {
            Some(tc) => (ctx, i + 1, Outcome::Call(tc)),
            None => match final_answer_of(resp) {
                Some(a) => (ctx, i + 1, Outcome::Answer(a)),
                None => advance(thought_appended(ctx, resp), i + 1, max),
            },
        }
    }
}

/// The JSON text of `v`, pretty-printed by serde_json's `to_string_pretty`
/// (the empty text if it cannot be printed).
///
/// Trusted for nothing: no clause states the text, since the value is opaque
/// here.
#[verifier::external_body]
fn pretty_json(v: &serde_json::Value) -> String {
    serde_json::to_string_pretty(v).unwrap_or_default()
}

/// `text` is what printing `v` pretty as JSON gives (a result of
/// `pretty_json` on `v`).
pub closed spec fn is_pretty_json(v: serde_json::Value, text: String) -> bool {
    call_ensures(pretty_json, (&v,), text)
}

/// Record of a single tool invocation.
pub struct ToolCallRecord {
    /// Tool name
    pub name: String,
    /// Input arguments, as the JSON text the call was dispatched with
    pub input: String,
    /// Tool output
    pub output: serde_json::Value,
    /// Execution time in milliseconds
    pub latency_ms: u32,
}

/// Output from a complete ReAct execution.
pub struct AgentOutput {
    /// Session identifier
    pub session_id: String,
    /// Number of ReAct iterations executed
    pub iterations: u32,
    /// Final answer if the goal was achieved
    pub final_answer: Option<String>,
    /// Record of all tool calls made
    pub tool_calls: Vec<ToolCallRecord>,
    /// Whether the loop converged on an answer
    pub converged: bool,
}

/// What the loop needs next.
pub enum ReActAction {
    /// Dispatch this tool call, then report its result with `observe`.
    CallTool(ToolCall),
    /// The loop is over: it has an answer, or its budget is spent.
    Finished,
}

/// A ReAct execution in progress: its output so far, the context it reasons
/// over, its budget, and the tool call whose result it waits for.
pub struct ReActRun {
    pub output: AgentOutput,
    pub context: String,
    pub max_iterations: u32,
    pub pending_tool: Option<ToolCall>,
}

impl ReActRun {
    /// The run's bookkeeping is consistent: the budget is kept, it has
    /// converged exactly when it has an answer, it records at most one tool
    /// call per iteration, and it waits for a tool only while it has no answer.
    pub open spec fn wf(&self) -> bool {
        &&& self.output.iterations <= self.max_iterations
        &&& self.output.converged == (self.output.final_answer is Some)
        &&& self.output.tool_calls@.len() + (if self.pending_tool is Some { 1int } else { 0int })
            <= self.output.iterations
        &&& self.pending_tool is Some ==> self.output.final_answer is None
    }

    /// Runs the loop up to its next need: while the budget lasts and no answer
    /// has come, it reasons over the context; a tool call is handed out, a
    /// final answer ends the loop, and anything else is kept as a thought.
    pub fn next_action(&mut self) -> (a: ReActAction)
        ensures
            final(self).max_iterations == old(self).max_iterations,
            final(self).output.session_id == old(self).output.session_id,
            final(self).output.tool_calls@ == old(self).output.tool_calls@,
            old(self).output.final_answer is Some ==> {
                &&& a is Finished
                &&& final(self).output.iterations == old(self).output.iterations
                &&& final(self).output.final_answer == old(self).output.final_answer
                &&& final(self).output.converged == old(self).output.converged
                &&& final(self).context == old(self).context
                &&& final(self).pending_tool is None
            },
            old(self).output.final_answer is None ==> {
                let adv = advance(
                    old(self).context@,
                    old(self).output.iterations as nat,
                    old(self).max_iterations as nat,
                );
                &&& final(self).context@ == adv.0
                &&& final(self).output.iterations == adv.1
                &&& match adv.2 {
                    Outcome::Call(tc) => {
                        &&& a matches ReActAction::CallTool(t) && t.view_pair() == tc
                            && final(self).pending_tool == Some(t)
                        &&& final(self).output.final_answer is None
                        &&& final(self).output.converged == old(self).output.converged
                    },
                    Outcome::Answer(ans) => {
                        &&& a is Finished
                        &&& opt_view(final(self).output.final_answer) == Some(ans)
                        &&& final(self).output.converged
                        &&& final(self).pending_tool is None
                    },
                    Outcome::Exhausted => {
                        &&& a is Finished
                        &&& final(self).output.final_answer is None
                        &&& final(self).output.converged == old(self).output.converged
                        &&& final(self).pending_tool is None
                    },
                }
            },
            old(self).wf() ==> final(self).wf(),
    {
        self.pending_tool = None;
        if self.output.final_answer.is_some() {
            return ReActAction::Finished;
        }
        let ghost c0 = self.context@;
        let ghost i0 = self.output.iterations as nat;
        let ghost max = self.max_iterations as nat;
        while self.output.iterations < self.max_iterations
            invariant
                self.max_iterations as nat == max,
                c0 == old(self).context@,
                i0 == old(self).output.iterations as nat,
                max == old(self).max_iterations as nat,
                self.max_iterations == old(self).max_iterations,
                old(self).output.final_answer is None,
                old(self).wf() ==> self.output.iterations <= self.max_iterations,
                old(self).wf() ==> self.output.tool_calls@.len() <= self.output.iterations,
                self.output.final_answer is None,
                self.pending_tool is None,
                self.output.session_id == old(self).output.session_id,
                self.output.tool_calls@ == old(self).output.tool_calls@,
                self.output.converged == old(self).output.converged,
                i0 <= self.output.iterations,
                advance(c0, i0, max) == advance(self.context@, self.output.iterations as nat, max),
            decreases self.max_iterations - self.output.iterations,
        {
            let ghost it = self.output.iterations as nat;
            let ghost ctx = self.context@;
            self.output.iterations = self.output.iterations + 1;
            let response = ReActLoop::reason(self.context.as_str());
            assert(advance(ctx, it, max) == ({
                let resp = mock_response(ctx);
                match tool_call_of(resp) {
                    Some(tc) => (ctx, it + 1, Outcome::Call(tc)),
                    None => match final_answer_of(resp) {
                        Some(a) => (ctx, it + 1, Outcome::Answer(a)),
                        None => advance(thought_appended(ctx, resp), it + 1, max),
                    },
                }
            }));
            match ReActLoop::extract_tool_call(response.as_str()) {
                Some(tc) => {
                    self.pending_tool = Some(tc.duplicate());
                    return ReActAction::CallTool(tc);
                },
                None => {
                    match ReActLoop::extract_final_answer(response.as_str()) {
                        Some(answer) => {
                            self.output.final_answer = Some(answer);
                            self.output.converged = true;
                            return ReActAction::Finished;
                        },
                        None => {
                            self.context.append("\nThought: ");
                            self.context.append(response.as_str());
                            self.context.append("\n");
                        },
                    }
                },
            }
        }
        ReActAction::Finished
    }

    /// Takes in the result of the tool call the run waits for: records the
    /// call by its name and the input it was dispatched with, with its output
    /// and latency, and adds the output, pretty-printed as JSON, to the
    /// context as an observation. A run that waits for no tool stays as it is.
    pub fn observe(&mut self, output: serde_json::Value, latency_ms: u32)
        ensures
            final(self).max_iterations == old(self).max_iterations,
            final(self).output.session_id == old(self).output.session_id,
            final(self).output.iterations == old(self).output.iterations,
            final(self).output.final_answer == old(self).output.final_answer,
            final(self).output.converged == old(self).output.converged,
            final(self).pending_tool is None,
            old(self).pending_tool is None ==> {
                &&& final(self).output.tool_calls@ == old(self).output.tool_calls@
                &&& final(self).context == old(self).context
            },
            old(self).pending_tool matches Some(tc) ==> {
                let rec = final(self).output.tool_calls@.last();
                &&& final(self).output.tool_calls@.len() == old(self).output.tool_calls@.len() + 1
                &&& final(self).output.tool_calls@.drop_last() == old(self).output.tool_calls@
                &&& rec.name == tc.name
                &&& rec.input@ == call_input(tc.view_pair())
                &&& rec.output == output
                &&& rec.latency_ms == latency_ms
                &&& exists|obs: String|
                    is_pretty_json(output, obs) && final(self).context@
                        == #[trigger] observation_appended(old(self).context@, obs@)
            },
            old(self).wf() ==> final(self).wf(),
    {
        let pending = self.pending_tool.take();
        match pending {
            Some(tc) => {
                let input = tc.input_text();
                let print = pretty_json;
                let observation = print(&output);
                self.output.tool_calls.push(ToolCallRecord { name: tc.name, input, output, latency_ms });
                assert(self.output.tool_calls@.drop_last() =~= old(self).output.tool_calls@);
                self.context.append("\nObservation: ");
                self.context.append(observation.as_str());
                self.context.append("\n");
                assert(self.context@ =~= observation_appended(old(self).context@, observation@));
            },
            None => {},
        }
    }
}

/// Reasoning never goes back and never overruns the budget: the iteration
/// count it ends at is at least where it started, and within the budget when
/// it started within it; it ends with the budget spent only when it runs out.
pub proof fn law_advance_keeps_budget(ctx: Seq<char>, i: nat, max: nat)
    ensures
        advance(ctx, i, max).1 >= i,
        i <= max ==> advance(ctx, i, max).1 <= max,
        advance(ctx, i, max).2 is Exhausted ==> advance(ctx, i, max).1 >= max,
        !(advance(ctx, i, max).2 is Exhausted) ==> advance(ctx, i, max).1 > i,
    decreases max - i,
{
    if i < max {
        let resp = mock_response(ctx);
        if tool_call_of(resp) is None && final_answer_of(resp) is None {
            law_advance_keeps_budget(thought_appended(ctx, resp), i + 1, max);
        }
    }
}

/// With the offline model, every reasoning step ends in an answer: a run with
/// budget left converges in its very next iteration, asks for no tool, and
/// leaves its context as it was.
pub proof fn law_offline_model_answers_at_once(ctx: Seq<char>, i: nat, max: nat)
    requires
        i < max,
    ensures
        advance(ctx, i, max).0 == ctx,
        advance(ctx, i, max).1 == i + 1,
        advance(ctx, i, max).2 is Answer,
{
    let resp = mock_response(ctx);
    let fa = "Final Answer:"@;
    let head = MOCK_HEAD@ + goal_line(ctx) + MOCK_MIDDLE@;
    let tail = MOCK_ANSWER_BODY@ + "."@;
    let j = head.len() as int;
    assert(resp =~= head + fa + tail);
    assert(resp.subrange(j, j + fa.len()) =~= fa);
    assert(crate::text::matches_at(resp, fa, j));
    crate::text::lemma_find_from(resp, fa, 0);
    let k = find(resp, fa)->0;
    assert(k <= j);
    reveal_strlit(".");
    let rest = resp.skip(k + fa.len());
    let last = rest.len() - 1;
    assert(resp[resp.len() - 1] == '.');
    assert(rest[last] == resp[resp.len() - 1]);
    assert(!crate::text::is_white('.'));
    crate::text::lemma_trim_nonempty(rest, last);
}

/// The final answer is the whole rest of the response after its first
/// `Final Answer:`, only without the white space around it: a response
/// without the marker has none; one whose rest is all white space has none;
/// otherwise the answer is the stretch of the rest from its first to its
/// last character that is not white space, so every such character after
/// the marker, on whatever line, is part of the answer.
pub proof fn law_final_answer_is_whole_rest(r: Seq<char>)
    ensures
        !contains(r, "Final Answer:"@) ==> final_answer_of(r) is None,
        find(r, "Final Answer:"@) matches Some(i) ==> matches_at(r, "Final Answer:"@, i) && forall|
            j: int,
        | 0 <= j < i ==> !matches_at(r, "Final Answer:"@, j),
        find(r, "Final Answer:"@) matches Some(i) ==> (final_answer_of(r) is None <==> forall|k: int|
            i + 13 <= k < r.len() ==> is_white(#[trigger] r[k])),
        find(r, "Final Answer:"@) matches Some(i) ==> (final_answer_of(r) matches Some(a)
            ==> exists|b: int|
            #![trigger r.subrange(b, b + a.len())]
            i + 13 <= b && b + a.len() <= r.len() && a == r.subrange(b, b + a.len()) && a.len() > 0
                && !is_white(a[0]) && !is_white(a[a.len() - 1]) && (forall|k: int|
                i + 13 <= k < b ==> is_white(#[trigger] r[k])) && (forall|k: int|
                b + a.len() <= k < r.len() ==> is_white(#[trigger] r[k]))),
{
    let m = "Final Answer:"@;
    reveal_strlit("Final Answer:");
    assert(m.len() == 13);
    crate::text::lemma_find_from(r, m, 0);
    match find(r, m) {
        Some(i) => {
            let start = i + m.len();
            let rest = r.skip(start);
            let (b0, e0) = crate::text::lemma_trim_bounds(rest);
            assert forall|k: int| start <= k < r.len() && !is_white(#[trigger] r[k]) implies b0
                < e0 by {
                assert(rest[k - start] == r[k]);
            }
            if b0 < e0 {
                let a = rest.subrange(b0, e0);
                assert(a =~= r.subrange(start + b0, start + b0 + a.len()));
                assert(a[0] == rest[b0] && a[a.len() - 1] == rest[e0 - 1]);
                assert forall|k: int| start <= k < start + b0 implies is_white(#[trigger] r[k]) by {
                    assert(rest[k - start] == r[k]);
                }
                assert forall|k: int| start + b0 + a.len() <= k < r.len() implies is_white(
                    #[trigger] r[k],
                ) by {
                    assert(rest[k - start] == r[k]);
                }
                assert(final_answer_of(r) == Some(a));
                let b = start + b0;
                assert(rest[b0] == r[b]);
                assert(!is_white(r[b]));
                assert(start <= b && b + a.len() <= r.len() && a == r.subrange(b, b + a.len()) && a.len() > 0
                    && !is_white(a[0]) && !is_white(a[a.len() - 1]));
                assert(final_answer_of(r) matches Some(a2) ==> a2 == a);
                assert(exists|b: int|
                    #![trigger r.subrange(b, b + a.len())]
                    start <= b && b + a.len() <= r.len() && a == r.subrange(b, b + a.len()) && a.len() > 0
                        && !is_white(a[0]) && !is_white(a[a.len() - 1]) && (forall|k: int|
                        start <= k < b ==> is_white(#[trigger] r[k])) && (forall|k: int|
                        b + a.len() <= k < r.len() ==> is_white(#[trigger] r[k])));
            } else {
                assert forall|k: int| start <= k < r.len() implies is_white(#[trigger] r[k]) by {
                    assert(rest[k - start] == r[k]);
                }
            }
            assert(matches_at(r, m, i));
            assert(forall|j: int| 0 <= j < i ==> !matches_at(r, m, j));
            assert(final_answer_of(r) is None <==> forall|k: int|
                start <= k < r.len() ==> is_white(#[trigger] r[k]));
        },
        None => {},
    }
}

proof fn lemma_listing_split(es: Seq<EntryView>, i: int)
    requires
        0 <= i < es.len(),
    ensures
        memory_listing(es) == memory_listing(es.take(i)) + ("- "@ + es[i].0 + ": "@ + es[i].1
            + "\n"@) + memory_listing(es.skip(i + 1)),
{
    let one = seq![es[i]];
    assert(es =~= es.take(i) + one + es.skip(i + 1));
    lemma_listing_concat(es.take(i) + one, es.skip(i + 1));
    lemma_listing_concat(es.take(i), one);
    assert(one.drop_last() =~= Seq::<EntryView>::empty());
    assert(memory_listing(Seq::<EntryView>::empty()) =~= Seq::<char>::empty());
    assert(one.last() == es[i]);
    assert(memory_listing(one) =~= "- "@ + es[i].0 + ": "@ + es[i].1 + "\n"@);
}

proof fn lemma_context_has_line(goal: Seq<char>, es: Seq<EntryView>, i: int)
    requires
        0 <= i < es.len(),
    ensures
        contains(context_text(goal, Some(es)), "- "@ + es[i].0 + ": "@ + es[i].1 + "\n"@),
{
    lemma_listing_split(es, i);
    let line = "- "@ + es[i].0 + ": "@ + es[i].1 + "\n"@;
    let before = CONTEXT_HEAD@ + goal + CONTEXT_TAIL@ + PREVIOUS_CONTEXT@ + memory_listing(
        es.take(i),
    );
    let ctx = context_text(goal, Some(es));
    assert(ctx =~= before + line + memory_listing(es.skip(i + 1)));
    assert(ctx.subrange(before.len() as int, (before.len() + line.len()) as int) =~= line);
    assert(matches_at(ctx, line, before.len() as int));
    crate::text::lemma_find_from(ctx, line, 0);
}

proof fn lemma_listing_concat(a: Seq<EntryView>, b: Seq<EntryView>)
    ensures
        memory_listing(a + b) == memory_listing(a) + memory_listing(b),
    decreases b.len(),
{
    if b.len() == 0 {
        assert(a + b =~= a);
        assert(memory_listing(a) + memory_listing(b) =~= memory_listing(a));
    } else {
        lemma_listing_concat(a, b.drop_last());
        assert((a + b).drop_last() =~= a + b.drop_last());
        assert((a + b).last() == b.last());
    }
}

/// The initial context holds the instructions around the goal and, when the
/// loaded memory remembers anything, the heading `PREVIOUS CONTEXT` and then
/// one line `- key: value` per entry, in the order of the entries; the
/// listing of entries is the listing of those before an entry, that entry's
/// line, then the listing of those after it, so every remembered entry
/// appears in the context. Without a state, or with an empty memory, the
/// context is the bare instructions.
pub proof fn law_context_lists_every_entry(goal: Seq<char>, es: Seq<EntryView>)
    ensures
        context_text(goal, None) == CONTEXT_HEAD@ + goal + CONTEXT_TAIL@,
        es.len() == 0 ==> context_text(goal, Some(es)) == CONTEXT_HEAD@ + goal + CONTEXT_TAIL@,
        es.len() > 0 ==> context_text(goal, Some(es)) == CONTEXT_HEAD@ + goal + CONTEXT_TAIL@
            + PREVIOUS_CONTEXT@ + memory_listing(es),
        memory_listing(Seq::<EntryView>::empty()) == Seq::<char>::empty(),
        forall|i: int|
            0 <= i < es.len() ==> memory_listing(es) == memory_listing(es.take(i)) + ("- "@
                + #[trigger] es[i].0 + ": "@ + es[i].1 + "\n"@) + memory_listing(es.skip(i + 1)),
        es.len() > 0 ==> forall|i: int|
            0 <= i < es.len() ==> contains(
                context_text(goal, Some(es)),
                "- "@ + #[trigger] es[i].0 + ": "@ + es[i].1 + "\n"@,
            ),
{
    assert(memory_listing(Seq::<EntryView>::empty()) =~= Seq::<char>::empty());
    assert forall|i: int| 0 <= i < es.len() implies memory_listing(es) == memory_listing(es.take(i))
        + ("- "@ + #[trigger] es[i].0 + ": "@ + es[i].1 + "\n"@) + memory_listing(es.skip(i + 1)) by {
        lemma_listing_split(es, i);
    }
    if es.len() > 0 {
        assert forall|i: int| 0 <= i < es.len() implies contains(
            context_text(goal, Some(es)),
            "- "@ + #[trigger] es[i].0 + ": "@ + es[i].1 + "\n"@,
        ) by {
            lemma_context_has_line(goal, es, i);
        }
    }
}

/// A line that, trimmed, names an action.
pub open spec fn is_action_line(l: Seq<char>) -> bool {
    starts_with(trim(l), "Action:"@)
}

/// The tool that an action line names: the trimmed rest after `Action:`.
pub open spec fn action_name_of(l: Seq<char>) -> Seq<char> {
    trim(trim_start_matches(trim(l), "Action:"@))
}

/// The input that an input line gives: the trimmed rest after `Action Input:`.
pub open spec fn input_text_of(l: Seq<char>) -> Seq<char> {
    trim(trim_start_matches(trim(l), "Action Input:"@))
}

/// A line that, trimmed, gives an action input that is JSON.
pub open spec fn is_json_input_line(l: Seq<char>) -> bool {
    starts_with(trim(l), "Action Input:"@) && is_json_text(input_text_of(l))
}

proof fn lemma_input_line_is_no_action_line(l: Seq<char>)
    requires
        starts_with(trim(l), "Action Input:"@),
    ensures
        !is_action_line(l),
{
    reveal_strlit("Action Input:");
    reveal_strlit("Action:");
    let t = trim(l);
    assert(t.subrange(0, 13)[6] == ' ');
    assert(t[6] == ' ');
    if is_action_line(l) {
        assert(t.subrange(0, 7)[6] == ':');
    }
}

proof fn lemma_scan_keeps_last(ls: Seq<Seq<char>>)
    ensures
        scan_tool_lines(ls).0 is None <==> forall|j: int|
            0 <= j < ls.len() ==> !is_action_line(#[trigger] ls[j]),
        forall|j: int|
            0 <= j < ls.len() && is_action_line(#[trigger] ls[j]) && (forall|k: int|
                j < k < ls.len() ==> !is_action_line(ls[k])) ==> scan_tool_lines(ls).0 == Some(
                action_name_of(ls[j]),
            ),
        scan_tool_lines(ls).1 is None <==> forall|j: int|
            0 <= j < ls.len() ==> !is_json_input_line(#[trigger] ls[j]),
        forall|j: int|
            0 <= j < ls.len() && is_json_input_line(#[trigger] ls[j]) && (forall|k: int|
                j < k < ls.len() ==> !is_json_input_line(ls[k])) ==> scan_tool_lines(ls).1 == Some(
                input_text_of(ls[j]),
            ),
    decreases ls.len(),
{
    if ls.len() > 0 {
        let p = ls.drop_last();
        let l = ls.last();
        let n = ls.len() - 1;
        lemma_scan_keeps_last(p);
        assert forall|j: int| 0 <= j < n implies #[trigger] p[j] == ls[j] by {}
        assert(ls[n] == l);
        if starts_with(trim(l), "Action Input:"@) {
            lemma_input_line_is_no_action_line(l);
        }
        if is_action_line(l) {
            assert(!is_json_input_line(l)) by {
                if starts_with(trim(l), "Action Input:"@) {
                    lemma_input_line_is_no_action_line(l);
                }
            }
        }
        assert forall|j: int|
            0 <= j < ls.len() && is_action_line(#[trigger] ls[j]) && (forall|k: int|
                j < k < ls.len() ==> !is_action_line(ls[k])) implies scan_tool_lines(ls).0 == Some(
            action_name_of(ls[j]),
        ) by {
            if j < n {
                assert(!is_action_line(ls[n]));
                assert forall|k: int| j < k < p.len() implies !is_action_line(#[trigger] p[k]) by {
                    assert(p[k] == ls[k]);
                }
                assert(is_action_line(p[j]));
            }
        }
        assert forall|j: int|
            0 <= j < ls.len() && is_json_input_line(#[trigger] ls[j]) && (forall|k: int|
                j < k < ls.len() ==> !is_json_input_line(ls[k])) implies scan_tool_lines(ls).1
            == Some(input_text_of(ls[j])) by {
            if j < n {
                assert(!is_json_input_line(ls[n]));
                assert forall|k: int| j < k < p.len() implies !is_json_input_line(#[trigger] p[k]) by {
                    assert(p[k] == ls[k]);
                }
                assert(is_json_input_line(p[j]));
            }
        }
        if scan_tool_lines(ls).0 is None {
            assert forall|j: int| 0 <= j < ls.len() implies !is_action_line(#[trigger] ls[j]) by {
                if j < n {
                    assert(p[j] == ls[j]);
                }
            }
        } else if forall|j: int| 0 <= j < ls.len() ==> !is_action_line(#[trigger] ls[j]) {
            assert forall|j: int| 0 <= j < p.len() implies !is_action_line(#[trigger] p[j]) by {
                assert(p[j] == ls[j]);
            }
            assert(!is_action_line(ls[n]));
        }
        if scan_tool_lines(ls).1 is None {
            assert forall|j: int| 0 <= j < ls.len() implies !is_json_input_line(#[trigger] ls[j]) by {
                if j < n {
                    assert(p[j] == ls[j]);
                }
            }
        } else if forall|j: int| 0 <= j < ls.len() ==> !is_json_input_line(#[trigger] ls[j]) {
            assert forall|j: int| 0 <= j < p.len() implies !is_json_input_line(#[trigger] p[j]) by {
                assert(p[j] == ls[j]);
            }
            assert(!is_json_input_line(ls[n]));
        }
    }
}

/// A response asks for a tool call exactly when it holds `Action:`, does not
/// hold `Final Answer:`, and one of its lines, trimmed, begins with
/// `Action:`. The call names the tool of the last such line; its input is
/// the JSON input of the last line, trimmed, that begins with `Action Input:`
/// and whose rest is JSON, and there is none when no line is such.
pub proof fn law_tool_call_reads_last_lines(resp: Seq<char>)
    ensures
        tool_call_of(resp) is Some <==> (contains(resp, "Action:"@) && !contains(
            resp,
            "Final Answer:"@,
        ) && exists|j: int| 0 <= j < lines(resp).len() && is_action_line(#[trigger] lines(resp)[j])),
        forall|j: int|
            0 <= j < lines(resp).len() && is_action_line(#[trigger] lines(resp)[j]) && (forall|k: int|
                j < k < lines(resp).len() ==> !is_action_line(lines(resp)[k])) && tool_call_of(resp) is Some
                ==> (tool_call_of(resp)->0).0 == action_name_of(lines(resp)[j]),
        forall|j: int|
            0 <= j < lines(resp).len() && is_json_input_line(#[trigger] lines(resp)[j]) && (forall|k: int|
                j < k < lines(resp).len() ==> !is_json_input_line(lines(resp)[k])) && tool_call_of(resp) is Some
                ==> (tool_call_of(resp)->0).1 == Some(input_text_of(lines(resp)[j])),
        tool_call_of(resp) is Some ==> ((tool_call_of(resp)->0).1 is None <==> forall|j: int|
            0 <= j < lines(resp).len() ==> !is_json_input_line(#[trigger] lines(resp)[j])),
{
    lemma_scan_keeps_last(lines(resp));
}

impl ReActLoop {
    /// A loop with no loaded state and the default budget.
    pub fn new() -> (l: ReActLoop)
        ensures
            l.state is None,
            l.max_iterations == DEFAULT_MAX_ITERATIONS,
    {
        ReActLoop { state: None, max_iterations: DEFAULT_MAX_ITERATIONS }
    }

    /// The same loop with `state` loaded.
    pub fn with_state(self, state: AgentState) -> (l: ReActLoop)
        ensures
            l.state == Some(state),
            l.max_iterations == self.max_iterations,
    {
        ReActLoop { state: Some(state), max_iterations: self.max_iterations }
    }

    /// The same loop with an iteration budget of `max`.
    pub fn with_max_iterations(self, max: u32) -> (l: ReActLoop)
        ensures
            l.state == self.state,
            l.max_iterations == max,
    {
        ReActLoop { state: self.state, max_iterations: max }
    }

    /// The entries of the loaded memory, when a state is loaded.
    pub open spec fn loaded_entries(&self) -> Option<Seq<EntryView>> {
        match self.state {
            Some(st) => Some(st.memory.entry_views()),
            None => None,
        }
    }

    /// The initial context: the instructions around the goal, then the
    /// remembered entries of a loaded state, if it remembers any.
    pub fn build_initial_context(&self, goal: &str) -> (ctx: String)
        ensures
            ctx@ == context_text(goal@, self.loaded_entries()),
            match self.loaded_entries() {
                Some(es) => if es.len() > 0 {
                    &&& ctx@ == CONTEXT_HEAD@ + goal@ + CONTEXT_TAIL@ + PREVIOUS_CONTEXT@
                        + memory_listing(es)
                    &&& forall|i: int|
                        0 <= i < es.len() ==> contains(
                            ctx@,
                            "- "@ + #[trigger] es[i].0 + ": "@ + es[i].1 + "\n"@,
                        )
                } else {
                    ctx@ == CONTEXT_HEAD@ + goal@ + CONTEXT_TAIL@
                },
                None => ctx@ == CONTEXT_HEAD@ + goal@ + CONTEXT_TAIL@,
            },
    {
        proof {
            match self.loaded_entries() {
                Some(es) => law_context_lists_every_entry(goal@, es),
                None => law_context_lists_every_entry(goal@, Seq::empty()),
            }
        }
        let mut ctx = String::from_str(CONTEXT_HEAD);
        ctx.append(goal);
        ctx.append(CONTEXT_TAIL);
        if let Some(state) = &self.state {
            if !state.memory.is_empty() {
                ctx.append(PREVIOUS_CONTEXT);
                let ghost base = ctx@;
                let ghost es = state.memory.entry_views();
                let n = state.memory.len();
                let mut i: usize = 0;
                assert(es.take(0) =~= Seq::<EntryView>::empty());
                while i < n
                    invariant
                        i <= n == es.len(),
                        es == state.memory.entry_views(),
                        ctx@ == base + memory_listing(es.take(i as int)),
                    decreases n - i,
                {
                    let (k, v) = state.memory.entry(i);
                    ctx.append("- ");
                    ctx.append(k.as_str());
                    ctx.append(": ");
                    ctx.append(v.as_str());
                    ctx.append("\n");
                    assert(es.take(i + 1).drop_last() =~= es.take(i as int));
                    assert(es.take(i + 1).last() == es[i as int]);
                    assert(ctx@ =~= base + memory_listing(es.take(i + 1)));
                    i = i + 1;
                }
                assert(es.take(n as int) =~= es);
            }
        }
        ctx
    }
    /// Starts an execution for `goal`: no iteration yet, no answer, no tool
    /// call, the session of the loaded state (or `anonymous`), and the initial
    /// context. `ReActRun::next_action` and `ReActRun::observe` carry it on.
    pub fn execute(&self, goal: &str) -> (run: ReActRun)
        ensures
            run.output.session_id@ == match self.state {
                Some(st) => st.session_id@,
                None => "anonymous"@,
            },
            run.output.iterations == 0,
            run.output.final_answer is None,
            run.output.tool_calls@.len() == 0,
            !run.output.converged,
            run.context@ == context_text(goal@, self.loaded_entries()),
            run.max_iterations == self.max_iterations,
            run.pending_tool is None,
            run.wf(),
    {
        let session_id = match &self.state {
            Some(st) => st.session_id.clone(),
            None => String::from_str("anonymous"),
        };
        ReActRun {
            output: AgentOutput {
                session_id,
                iterations: 0,
                final_answer: None,
                tool_calls: Vec::new(),
                converged: false,
            },
            context: self.build_initial_context(goal),
            max_iterations: self.max_iterations,
            pending_tool: None,
        }
    }

    /// Sends `context` to the model and returns its response. No inference
    /// binding is configured, so the offline model answers: it echoes the goal
    /// line of the context and gives its fixed final answer.
    pub fn reason(context: &str) -> (resp: String)
        ensures
            resp@ == mock_response(context@),
    {
        let v = chars_of(context);
        let ls = lines_chars(&v);
        let p = chars_of("GOAL:");
        let n = ls.len();
        let mut i: usize = 0;
        let mut found: Option<usize> = None;
        assert(views(ls@).skip(0) =~= views(ls@));
        while found.is_none() && i < n
            invariant
                i <= n == ls@.len() == views(ls@).len(),
                p@ == "GOAL:"@,
                match found {
                    Some(j) => j < i && first_with_prefix(views(ls@), p@) == Some(ls@[j as int]@),
                    None => first_with_prefix(views(ls@), p@) == first_with_prefix(
                        views(ls@).skip(i as int),
                        p@,
                    ),
                },
            decreases n - i,
        {
            let ghost rest = views(ls@).skip(i as int);
            assert(rest[0] == ls@[i as int]@);
            if starts_with_chars(&ls[i], &p) {
                found = Some(i);
            } else {
                assert(rest.drop_first() =~= views(ls@).skip(i + 1));
            }
            i = i + 1;
        }
        if found.is_none() {
            assert(views(ls@).skip(i as int) =~= Seq::<Seq<char>>::empty());
        }
        let mut resp = String::from_str(MOCK_HEAD);
        match found {
            Some(j) => {
                let line = string_of(&ls[j]);
                resp.append(line.as_str());
            },
            None => {
                resp.append(UNKNOWN_GOAL);
            },
        }
        resp.append(MOCK_MIDDLE);
        resp.append("Final Answer:");
        resp.append(MOCK_ANSWER_BODY);
        resp.append(".");
        resp
    }

    /// The tool call that `response` asks for, if any.
    pub fn extract_tool_call(response: &str) -> (r: Option<ToolCall>)
        ensures
            match r {
                Some(tc) => tool_call_of(response@) == Some(tc.view_pair()),
                None => tool_call_of(response@) is None,
            },
            r matches Some(tc) ==> forall|j: int|
                0 <= j < lines(response@).len() && is_json_input_line(#[trigger] lines(response@)[j])
                    && (forall|k: int|
                    j < k < lines(response@).len() ==> !is_json_input_line(lines(response@)[k]))
                    ==> tc.view_pair().1 == Some(input_text_of(lines(response@)[j])),
            r matches Some(tc) ==> forall|j: int|
                0 <= j < lines(response@).len() && is_action_line(#[trigger] lines(response@)[j])
                    && (forall|k: int|
                    j < k < lines(response@).len() ==> !is_action_line(lines(response@)[k]))
                    ==> tc.name@ == action_name_of(lines(response@)[j]),
    {
        proof {
            law_tool_call_reads_last_lines(response@);
        }
        let v = chars_of(response);
        let action = chars_of("Action:");
        let action_input = chars_of("Action Input:");
        let final_marker = chars_of("Final Answer:");
        if !contains_chars(&v, &action) || contains_chars(&v, &final_marker) {
            return None;
        }
        let ls = lines_chars(&v);
        let n = ls.len();
        let mut name: Option<String> = None;
        let mut input: Option<String> = None;
        let mut i: usize = 0;
        assert(views(ls@).take(0) =~= Seq::<Seq<char>>::empty());
        while i < n
            invariant
                i <= n == ls@.len() == views(ls@).len(),
                action@ == "Action:"@,
                action_input@ == "Action Input:"@,
                ({
                    let sc = scan_tool_lines(views(ls@).take(i as int));
                    &&& sc.0 == match name { Some(t) => Some(t@), None => None::<Seq<char>> }
                    &&& sc.1 == match input { Some(t) => Some(t@), None => None::<Seq<char>> }
                }),
            decreases n - i,
        {
            let ghost pre = views(ls@).take(i as int);
            let ghost cur = views(ls@).take(i + 1);
            assert(cur.drop_last() =~= pre);
            assert(cur.last() == ls@[i as int]@);
            let line = trim_chars(&ls[i]);
            if starts_with_chars(&line, &action) {
                let rest = trim_start_matches_chars(&line, &action);
                name = Some(string_of(&trim_chars(&rest)));
            } else if starts_with_chars(&line, &action_input) {
                let rest = trim_start_matches_chars(&line, &action_input);
                let text = string_of(&trim_chars(&rest));
                if json_text_is_valid(text.as_str()) {
                    input = Some(text);
                }
            }
            i = i + 1;
        }
        assert(views(ls@).take(n as int) =~= views(ls@));
        match name {
            Some(nm) => Some(ToolCall { name: nm, input }),
            None => None,
        }
    }

    /// The final answer that `response` gives, if any.
    pub fn extract_final_answer(response: &str) -> (r: Option<String>)
        ensures
            match r {
                Some(a) => final_answer_of(response@) == Some(a@),
                None => final_answer_of(response@) is None,
            },
            match find(response@, "Final Answer:"@) {
                None => r is None,
                Some(i) => {
                    let rest = trim(response@.skip(i + "Final Answer:"@.len()));
                    &&& (r is None <==> rest.len() == 0)
                    &&& r matches Some(a) ==> a@ == rest
                },
            },
    {
        let v = chars_of(response);
        let marker = chars_of("Final Answer:");
        match find_chars(&v, &marker) {
            Some(i) => {
                proof {
                    crate::text::lemma_find_from(v@, marker@, 0);
                    assert(crate::text::matches_at(v@, marker@, i as int));
                    assert(i + marker.len() <= v.len());
                }
                let tail = sub_chars(&v, i + marker.len(), v.len());
                assert(tail@ =~= v@.skip(i + marker@.len()));
                let answer = trim_chars(&tail);
                if answer.len() > 0 {
                    Some(string_of(&answer))
                } else {
                    None
                }
            },
            None => None,
        }
    }
}

} // verus!
