//! The graph agent of the MCP server: a context with a memory and a step
//! budget, and the step rule that records a thought per step until the
//! budget is spent.
use vstd::prelude::*;
use crate::memory::{Memory, EntryView, write_entry, lemma_write_fresh_key};
use crate::text::{decimal, push_decimal, lemma_decimal_value};

verus! {

/// The step budget that a new context starts with.
pub const DEFAULT_MAX_STEPS: u32 = 5;

/// The memory key under which step `n` records its thought.
pub open spec fn thought_key(n: nat) -> Seq<char> {
    "thought_"@ + decimal(n)
}

/// The thought that step `n` records for `input`.
pub open spec fn thought_text(n: nat, input: Seq<char>) -> Seq<char> {
    "Step "@ + decimal(n) + ": Analyzing '"@ + input + "'"@
}

/// What step `n` answers while the budget lasts.
pub open spec fn cycle_text(n: nat) -> Seq<char> {
    "🔄 ReAct Cycle "@ + decimal(n) + ": Processed input via GraphFlow."@
}

/// What every step answers once the budget is spent.
pub open spec fn max_steps_text() -> Seq<char> {
    "⛔ Max steps reached. Forcing convergence."@
}

/// The context of one agent run: what it remembers and how far it has gone.
pub struct AgentContext {
    pub memory: Memory,
    pub step_counter: u32,
    pub max_steps: u32,
}

/// An agent context by its views: the step counter, the budget, the memory's
/// entries in order, and the map they denote.
pub struct AgentView {
    pub counter: nat,
    pub max_steps: nat,
    pub entries: Seq<EntryView>,
    pub memory: Map<Seq<char>, Seq<char>>,
}

/// The view of a new context.
pub open spec fn initial_view() -> AgentView {
    AgentView {
        counter: 0,
        max_steps: DEFAULT_MAX_STEPS as nat,
        entries: Seq::empty(),
        memory: Map::empty(),
    }
}

/// One step on `input` from `m`: the next view and the step's answer.
pub open spec fn step_view(m: AgentView, input: Seq<char>) -> (AgentView, Seq<char>) {
    let n = m.counter + 1;
    if n > m.max_steps {
        (
            AgentView { counter: n, max_steps: m.max_steps, entries: m.entries, memory: m.memory },
            max_steps_text(),
        )
    } else {
        (
            AgentView {
                counter: n,
                max_steps: m.max_steps,
                entries: write_entry(m.entries, thought_key(n), thought_text(n, input)),
                memory: m.memory.insert(thought_key(n), thought_text(n, input)),
            },
            cycle_text(n),
        )
    }
}

/// A new context after one step on each of `inputs`, in order: its view and
/// the answers of the steps.
pub open spec fn run_steps(inputs: Seq<Seq<char>>) -> (AgentView, Seq<Seq<char>>)
    decreases inputs.len(),
{
    if inputs.len() == 0 {
        (initial_view(), Seq::empty())
    } else {
        let prev = run_steps(inputs.drop_last());
        let next = step_view(prev.0, inputs.last());
        (next.0, prev.1.push(next.1))
    }
}

impl AgentContext {
    /// The context by its views.
    pub open spec fn view_of(&self) -> AgentView {
        AgentView {
            counter: self.step_counter as nat,
            max_steps: self.max_steps as nat,
            entries: self.memory.entry_views(),
            memory: self.memory@,
        }
    }

    /// A context with an empty memory, no step taken and the default budget.
    pub fn new() -> (ctx: AgentContext)
        ensures
            ctx.view_of() == initial_view(),
            ctx.memory@ == Map::<Seq<char>, Seq<char>>::empty(),
            ctx.memory.entry_views() == Seq::<EntryView>::empty(),
            ctx.step_counter == 0,
            ctx.max_steps == DEFAULT_MAX_STEPS,
    {
        AgentContext { memory: Memory::new(), step_counter: 0, max_steps: DEFAULT_MAX_STEPS }
    }

    /// Writes `value` under `key` in the memory.
    pub fn add_memory(&mut self, key: &str, value: &str)
        ensures
            final(self).memory@ == old(self).memory@.insert(key@, value@),
            final(self).memory.entry_views() == write_entry(
                old(self).memory.entry_views(),
                key@,
                value@,
            ),
            final(self).step_counter == old(self).step_counter,
            final(self).max_steps == old(self).max_steps,
    {
        self.memory.insert(String::from_str(key), String::from_str(value));
    }
}

/// The step rule of the agent graph.
pub struct AgentGraph;

impl AgentGraph {
    /// Takes one step on `input`: the counter advances by one; within the
    /// budget the step records its thought and reports the cycle, beyond it
    /// the memory stays as it is and the step reports that the budget is spent.
    pub fn step(ctx: &mut AgentContext, input: &str) -> (r: String)
        requires
            old(ctx).step_counter < u32::MAX,
        ensures
            (final(ctx).view_of(), r@) == step_view(old(ctx).view_of(), input@),
            final(ctx).step_counter == old(ctx).step_counter + 1,
            final(ctx).max_steps == old(ctx).max_steps,
            final(ctx).step_counter > final(ctx).max_steps ==> {
                &&& r@ == max_steps_text()
                &&& final(ctx).memory.entry_views() == old(ctx).memory.entry_views()
                &&& final(ctx).memory@ == old(ctx).memory@
            },
            final(ctx).step_counter <= final(ctx).max_steps ==> {
                let n = final(ctx).step_counter as nat;
                &&& r@ == cycle_text(n)
                &&& final(ctx).memory.entry_views() == write_entry(
                    old(ctx).memory.entry_views(),
                    thought_key(n),
                    thought_text(n, input@),
                )
                &&& final(ctx).memory@ == old(ctx).memory@.insert(
                    thought_key(n),
                    thought_text(n, input@),
                )
            },
    {
        ctx.step_counter = ctx.step_counter + 1;
        if ctx.step_counter > ctx.max_steps {
            return String::from_str("⛔ Max steps reached. Forcing convergence.");
        }
        let n = ctx.step_counter as u64;
        let mut thought = String::from_str("Step ");
        push_decimal(&mut thought, n);
        thought.append(": Analyzing '");
        thought.append(input);
        thought.append("'");
        let mut key = String::from_str("thought_");
        push_decimal(&mut key, n);
        ctx.add_memory(key.as_str(), thought.as_str());
        let mut out = String::from_str("🔄 ReAct Cycle ");
        push_decimal(&mut out, n);
        out.append(": Processed input via GraphFlow.");
        out
    }
}

/// The number of steps among the first `k` that fall within a budget of `max`.
pub open spec fn steps_within(k: nat, max: nat) -> nat {
    if k < max {
        k
    } else {
        max
    }
}

/// The entries that steps on `inputs` record under a budget of `max`: the
/// thought of each step within the budget, in the order of the steps.
pub open spec fn budget_entries(inputs: Seq<Seq<char>>, max: nat) -> Seq<EntryView> {
    Seq::new(
        steps_within(inputs.len(), max),
        |i: int| (thought_key((i + 1) as nat), thought_text((i + 1) as nat, inputs[i])),
    )
}

/// What `k` steps answer under a budget of `max`: the cycle report of each
/// step within the budget, then the budget report.
pub open spec fn budget_answers(k: nat, max: nat) -> Seq<Seq<char>> {
    Seq::new(k, |j: int| if j < max { cycle_text((j + 1) as nat) } else { max_steps_text() })
}

/// The keys of the thoughts of steps `1..=r`.
pub open spec fn thought_keys(r: nat) -> Set<Seq<char>> {
    Set::new(|key: Seq<char>| exists|i: nat| 1 <= i <= r && key == #[trigger] thought_key(i))
}

/// Steps record their thoughts under distinct keys.
proof fn lemma_thought_key_injective(a: nat, b: nat)
    requires
        thought_key(a) == thought_key(b),
    ensures
        a == b,
{
    let p = "thought_"@;
    assert(thought_key(a).skip(p.len() as int) =~= decimal(a));
    assert(thought_key(b).skip(p.len() as int) =~= decimal(b));
    lemma_decimal_value(a);
    lemma_decimal_value(b);
}

/// The step budget at work: a new context after one step on each of
/// `inputs` has counted every step and kept its budget; its memory holds the
/// thoughts of the steps within the budget, one per step under the key
/// `thought_<n>` and in the order of the steps, and nothing else, so it never
/// holds more entries than the budget; each step within the budget reports
/// its cycle, each step beyond it reports that the budget is spent and leaves
/// the memory as it was.
pub proof fn law_step_budget(inputs: Seq<Seq<char>>)
    ensures
        ({
            let m = run_steps(inputs).0;
            let k = inputs.len();
            let max = DEFAULT_MAX_STEPS as nat;
            let r = steps_within(k, max);
            &&& m.counter == k
            &&& m.max_steps == max
            &&& m.entries == budget_entries(inputs, max)
            &&& m.memory.dom() == thought_keys(r)
            &&& m.memory.dom().finite()
            &&& m.memory.dom().len() == r
            &&& forall|i: nat| 1 <= i <= r ==> #[trigger] m.memory[thought_key(i)] == thought_text(i, inputs[i - 1])
            &&& run_steps(inputs).1 == budget_answers(k, max)
            &&& k > max ==> {
                &&& m.entries == run_steps(inputs.drop_last()).0.entries
                &&& m.memory == run_steps(inputs.drop_last()).0.memory
            }
        }),
    decreases inputs.len(),
{
    let max = DEFAULT_MAX_STEPS as nat;
    let k = inputs.len();
    let m = run_steps(inputs).0;
    if k == 0 {
        assert(m.entries =~= budget_entries(inputs, max));
        assert(m.memory.dom() =~= thought_keys(0));
        assert(run_steps(inputs).1 =~= budget_answers(0, max));
    } else {
        let prev_in = inputs.drop_last();
        law_step_budget(prev_in);
        let p = run_steps(prev_in).0;
        let pr = steps_within((k - 1) as nat, max);
        let r = steps_within(k, max);
        assert(run_steps(inputs).1 =~= budget_answers(k, max));
        if k > max {
            assert(r == pr);
            assert(m.entries =~= budget_entries(inputs, max));
            assert forall|i: nat| 1 <= i <= r implies #[trigger] m.memory[thought_key(i)]
                == thought_text(i, inputs[i - 1]) by {
                assert(prev_in[i - 1] == inputs[i - 1]);
            }
        } else {
            assert(r == k && pr == k - 1);
            let key = thought_key(k);
            let text = thought_text(k, inputs.last());
            assert forall|j: int| 0 <= j < p.entries.len() implies p.entries[j].0 != key by {
                if p.entries[j].0 == key {
                    lemma_thought_key_injective((j + 1) as nat, k);
                }
            }
            lemma_write_fresh_key(p.entries, key, text);
            assert(m.entries =~= budget_entries(inputs, max));
            assert(!p.memory.dom().contains(key)) by {
                if p.memory.dom().contains(key) {
                    let i = choose|i: nat| 1 <= i <= pr && key == #[trigger] thought_key(i);
                    lemma_thought_key_injective(i, k);
                }
            }
            assert(m.memory.dom() =~= thought_keys(r)) by {
                assert forall|x: Seq<char>| #[trigger] thought_keys(r).contains(x) implies m.memory.dom().contains(x) by {
                    let i = choose|i: nat| 1 <= i <= r && x == #[trigger] thought_key(i);
                    if i < k {
                        assert(thought_keys(pr).contains(x));
                    }
                }
            }
            assert forall|i: nat| 1 <= i <= r implies #[trigger] m.memory[thought_key(i)]
                == thought_text(i, inputs[i - 1]) by {
                if i < k {
                    if thought_key(i) == key {
                        lemma_thought_key_injective(i, k);
                    }
                    assert(prev_in[i - 1] == inputs[i - 1]);
                }
            }
        }
    }
}

} // verus!
