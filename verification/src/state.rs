//! Session state of an agent invocation: its identifier, goal, memory, step
//! count and creation time.
use vstd::prelude::*;
use crate::memory::{Memory, EntryView, write_entry};
use crate::text::{hex_fixed, push_hex};

verus! {

/// The session identifier for a clock reading in milliseconds and a random
/// number: `agent_`, sixteen hex digits of the time, `_`, eight hex digits of
/// the random number.
pub open spec fn session_id_text(now_ms: u64, random: u32) -> Seq<char> {
    "agent_"@ + hex_fixed(now_ms as nat, 16) + "_"@ + hex_fixed(random as nat, 8)
}

/// `hex_fixed(n, w)` has exactly `w` digits.
pub proof fn lemma_hex_fixed_len(n: nat, w: nat)
    ensures
        hex_fixed(n, w).len() == w,
    decreases w,
{
    if w > 0 {
        lemma_hex_fixed_len(n / 16, (w - 1) as nat);
    }
}

/// Every session identifier has the same length: six characters of prefix,
/// sixteen of time, one separator and eight of random number.
pub proof fn law_session_id_length(now_ms: u64, random: u32)
    ensures
        session_id_text(now_ms, random).len() == 31,
{
    lemma_hex_fixed_len(now_ms as nat, 16);
    lemma_hex_fixed_len(random as nat, 8);
    reveal_strlit("agent_");
    reveal_strlit("_");
}

/// Sixteen to the power `w`.
pub open spec fn pow16(w: nat) -> nat
    decreases w,
{
    if w == 0 {
        1
    } else {
        16 * pow16((w - 1) as nat)
    }
}

proof fn lemma_hex_digit_injective(a: int, b: int)
    requires
        0 <= a < 16,
        0 <= b < 16,
        crate::text::hex_digit(a) == crate::text::hex_digit(b),
    ensures
        a == b,
{
}

/// Below `16^w`, different numbers have different `w`-digit hexadecimal numerals.
pub proof fn lemma_hex_fixed_injective(n: nat, m: nat, w: nat)
    requires
        n < pow16(w),
        m < pow16(w),
        hex_fixed(n, w) == hex_fixed(m, w),
    ensures
        n == m,
    decreases w,
{
    if w == 0 {
    } else {
        let p = pow16((w - 1) as nat);
        let hn = hex_fixed(n, w);
        let hm = hex_fixed(m, w);
        assert(hn.drop_last() =~= hex_fixed(n / 16, (w - 1) as nat));
        assert(hm.drop_last() =~= hex_fixed(m / 16, (w - 1) as nat));
        assert(hn.last() == crate::text::hex_digit((n % 16) as int));
        assert(hm.last() == crate::text::hex_digit((m % 16) as int));
        lemma_hex_digit_injective((n % 16) as int, (m % 16) as int);
        assert(n / 16 < p) by (nonlinear_arith)
            requires
                n < 16 * p,
        ;
        assert(m / 16 < p) by (nonlinear_arith)
            requires
                m < 16 * p,
        ;
        lemma_hex_fixed_injective(n / 16, m / 16, (w - 1) as nat);
    }
}

/// Different clock readings or random numbers give different session
/// identifiers: the identifier determines both.
pub proof fn law_session_id_injective(t1: u64, r1: u32, t2: u64, r2: u32)
    requires
        session_id_text(t1, r1) == session_id_text(t2, r2),
    ensures
        t1 == t2,
        r1 == r2,
{
    reveal_strlit("agent_");
    reveal_strlit("_");
    lemma_hex_fixed_len(t1 as nat, 16);
    lemma_hex_fixed_len(t2 as nat, 16);
    lemma_hex_fixed_len(r1 as nat, 8);
    lemma_hex_fixed_len(r2 as nat, 8);
    let s1 = session_id_text(t1, r1);
    let s2 = session_id_text(t2, r2);
    assert(s1.subrange(6, 22) =~= hex_fixed(t1 as nat, 16));
    assert(s2.subrange(6, 22) =~= hex_fixed(t2 as nat, 16));
    assert(s1.subrange(23, 31) =~= hex_fixed(r1 as nat, 8));
    assert(s2.subrange(23, 31) =~= hex_fixed(r2 as nat, 8));
    reveal_with_fuel(pow16, 17);
    assert(pow16(8) == 4294967296);
    assert(pow16(16) == 18446744073709551616);
    lemma_hex_fixed_injective(t1 as nat, t2 as nat, 16);
    lemma_hex_fixed_injective(r1 as nat, r2 as nat, 8);
}

/// Formats the session identifier for a clock reading in milliseconds and a
/// random number (`format!("agent_{:016x}_{:08x}", now, random)`).
pub fn format_session_id(now_ms: u64, random: u32) -> (s: String)
    ensures
        s@ == session_id_text(now_ms, random),
{
    let mut s = String::from_str("agent_");
    push_hex(&mut s, now_ms, 16);
    s.append("_");
    push_hex(&mut s, random as u64, 8);
    s
}

/// Agent state containing session context.
pub struct AgentState {
    /// Unique session identifier
    pub session_id: String,
    /// Current goal
    pub goal: String,
    /// Key-value memory store
    pub memory: Memory,
    /// Current step in the ReAct loop
    pub step_count: u32,
    /// Seconds since the epoch at creation
    pub created_at: u64,
}

impl AgentState {
    /// A new state for `goal`, created at `now_ms` milliseconds since the epoch,
    /// with `random` drawn for its identifier.
    pub fn new(goal: &str, now_ms: u64, random: u32) -> (st: AgentState)
        ensures
            st.session_id@ == session_id_text(now_ms, random),
            st.goal@ == goal@,
            st.memory@ == Map::<Seq<char>, Seq<char>>::empty(),
            st.memory.entry_views() == Seq::<EntryView>::empty(),
            st.step_count == 0,
            st.created_at == now_ms / 1000,
    {
        AgentState {
            session_id: format_session_id(now_ms, random),
            goal: String::from_str(goal),
            memory: Memory::new(),
            step_count: 0,
            created_at: now_ms / 1000,
        }
    }

    /// Writes `value` under `key` in the memory.
    pub fn remember(&mut self, key: &str, value: &str)
        ensures
            final(self).memory@ == old(self).memory@.insert(key@, value@),
            final(self).memory.entry_views() == write_entry(
                old(self).memory.entry_views(),
                key@,
                value@,
            ),
            final(self).session_id == old(self).session_id,
            final(self).goal == old(self).goal,
            final(self).step_count == old(self).step_count,
            final(self).created_at == old(self).created_at,
    {
        self.memory.insert(String::from_str(key), String::from_str(value));
    }

    /// The value remembered under `key`, if any.
    pub fn recall(&self, key: &str) -> (r: Option<&String>)
        ensures
            match r {
                Some(v) => self.memory@.contains_key(key@) && v@ == self.memory@[key@],
                None => !self.memory@.contains_key(key@),
            },
    {
        self.memory.get(key)
    }

    /// Advances the step count by one.
    pub fn step(&mut self)
        requires
            old(self).step_count < u32::MAX,
        ensures
            final(self).step_count == old(self).step_count + 1,
            final(self).session_id == old(self).session_id,
            final(self).goal == old(self).goal,
            final(self).memory == old(self).memory,
            final(self).created_at == old(self).created_at,
    {
        self.step_count = self.step_count + 1;
    }
}

/// D1 SQL schema for the `agent_logs` table.
pub const D1_SCHEMA: &'static str = "
CREATE TABLE IF NOT EXISTS agent_logs (
    id INTEGER PRIMARY KEY AUTOINCREMENT,
    session_id TEXT NOT NULL UNIQUE,
    goal TEXT NOT NULL,
    memory TEXT DEFAULT '{}',
    step_count INTEGER DEFAULT 0,
    status TEXT DEFAULT 'started',
    result TEXT,
    created_at DATETIME DEFAULT CURRENT_TIMESTAMP,
    completed_at DATETIME
);

CREATE INDEX IF NOT EXISTS idx_agent_logs_session ON agent_logs(session_id);
CREATE INDEX IF NOT EXISTS idx_agent_logs_status ON agent_logs(status);
";

} // verus!
