use nexus_agent::agent::{AgentContext, AgentGraph};
use nexus_agent::memory::Memory;
use nexus_agent::quantum::{branch_id, psi_branch_ids};
use nexus_agent::state::{format_session_id, AgentState, D1_SCHEMA};
use nexus_agent::text::parse_u32;

#[test]
fn context_starts_empty_with_budget_five() {
    let ctx = AgentContext::new();
    assert_eq!(ctx.step_counter, 0);
    assert_eq!(ctx.max_steps, 5);
    assert!(ctx.memory.is_empty());
}

#[test]
fn step_records_thought_and_reports_cycle() {
    let mut ctx = AgentContext::new();
    let out = AgentGraph::step(&mut ctx, "hello");
    assert_eq!(out, "🔄 ReAct Cycle 1: Processed input via GraphFlow.");
    assert_eq!(ctx.step_counter, 1);
    assert_eq!(ctx.memory.get("thought_1").unwrap(), "Step 1: Analyzing 'hello'");
    assert_eq!(ctx.memory.len(), 1);
}

#[test]
fn budget_forces_convergence_after_max_steps() {
    let mut ctx = AgentContext::new();
    for i in 1..=5u32 {
        let out = AgentGraph::step(&mut ctx, "x");
        assert_eq!(out, format!("🔄 ReAct Cycle {}: Processed input via GraphFlow.", i));
    }
    assert_eq!(ctx.memory.len(), 5);
    for _ in 0..3 {
        let out = AgentGraph::step(&mut ctx, "y");
        assert_eq!(out, "⛔ Max steps reached. Forcing convergence.");
    }
    assert_eq!(ctx.step_counter, 8);
    assert_eq!(ctx.memory.len(), 5);
    assert!(ctx.memory.get("thought_6").is_none());
}

#[test]
fn steps_on_many_inputs_keep_the_first_five_thoughts() {
    let mut ctx = AgentContext::new();
    let inputs = ["a", "b", "c", "d", "e", "f", "g"];
    let mut answers = Vec::new();
    for input in inputs.iter() {
        answers.push(AgentGraph::step(&mut ctx, input));
    }
    assert_eq!(ctx.step_counter, 7);
    assert_eq!(ctx.max_steps, 5);
    assert_eq!(ctx.memory.len(), 5);
    for i in 0..5usize {
        let (k, v) = ctx.memory.entry(i);
        assert_eq!(k, &format!("thought_{}", i + 1));
        assert_eq!(v, &format!("Step {}: Analyzing '{}'", i + 1, inputs[i]));
        assert_eq!(answers[i], format!("🔄 ReAct Cycle {}: Processed input via GraphFlow.", i + 1));
    }
    assert_eq!(answers[5], "⛔ Max steps reached. Forcing convergence.");
    assert_eq!(answers[6], "⛔ Max steps reached. Forcing convergence.");
    assert!(ctx.memory.get("thought_6").is_none());
    assert!(ctx.memory.get("thought_7").is_none());
}

#[test]
fn step_with_multi_digit_counter() {
    let mut ctx = AgentContext::new();
    ctx.step_counter = 122;
    ctx.max_steps = 1000;
    let out = AgentGraph::step(&mut ctx, "q");
    assert_eq!(out, "🔄 ReAct Cycle 123: Processed input via GraphFlow.");
    assert_eq!(ctx.memory.get("thought_123").unwrap(), "Step 123: Analyzing 'q'");
}

#[test]
fn memory_read_after_write_and_overwrite() {
    let mut m = Memory::new();
    m.insert("a".to_string(), "1".to_string());
    m.insert("b".to_string(), "2".to_string());
    m.insert("a".to_string(), "3".to_string());
    assert_eq!(m.len(), 2);
    assert_eq!(m.get("a").unwrap(), "3");
    assert_eq!(m.get("b").unwrap(), "2");
    assert!(m.get("c").is_none());
    let (k0, v0) = m.entry(0);
    assert_eq!((k0.as_str(), v0.as_str()), ("a", "3"));
    let (k1, v1) = m.entry(1);
    assert_eq!((k1.as_str(), v1.as_str()), ("b", "2"));
}

#[test]
fn add_memory_writes_through() {
    let mut ctx = AgentContext::new();
    ctx.add_memory("k", "v");
    ctx.add_memory("k", "w");
    assert_eq!(ctx.memory.get("k").unwrap(), "w");
    assert_eq!(ctx.memory.len(), 1);
}

#[test]
fn branch_ids_are_numbered() {
    assert_eq!(branch_id(0), "branch_0");
    assert_eq!(branch_id(17), "branch_17");
    let ids = psi_branch_ids(3);
    assert_eq!(ids, vec!["branch_0".to_string(), "branch_1".to_string(), "branch_2".to_string()]);
    assert!(psi_branch_ids(0).is_empty());
}

#[test]
fn session_id_is_fixed_width_hex() {
    assert_eq!(format_session_id(0x1234, 0xab), "agent_0000000000001234_000000ab");
    assert_eq!(
        format_session_id(u64::MAX, u32::MAX),
        "agent_ffffffffffffffff_ffffffff"
    );
    assert_eq!(format_session_id(1725029869000, 3735928559).len(), 31);
}

#[test]
fn agent_state_new_and_memory() {
    let mut st = AgentState::new("find rust", 1725029869123, 7);
    assert_eq!(st.goal, "find rust");
    assert_eq!(st.created_at, 1725029869);
    assert_eq!(st.step_count, 0);
    assert_eq!(st.session_id, format!("agent_{:016x}_{:08x}", 1725029869123u64, 7u32));
    assert!(st.recall("x").is_none());
    st.remember("x", "1");
    assert_eq!(st.recall("x").unwrap(), "1");
    st.step();
    st.step();
    assert_eq!(st.step_count, 2);
    assert!(D1_SCHEMA.contains("CREATE TABLE IF NOT EXISTS agent_logs"));
}

#[test]
fn parse_u32_follows_std() {
    for s in ["0", "42", "+7", "007", "4294967295", "4294967296", "", "+", "-1", "1a", " 1", "99999999999999999999"] {
        assert_eq!(parse_u32(s), s.parse::<u32>().ok(), "input {:?}", s);
    }
}

#[test]
fn parse_after_format_round_trips() {
    for n in [0u32, 1, 9, 10, 99, 100, 65535, 4294967295] {
        let mut s = String::new();
        nexus_agent::text::push_decimal(&mut s, n as u64);
        assert_eq!(s, n.to_string());
        assert_eq!(parse_u32(&s), Some(n));
    }
}
