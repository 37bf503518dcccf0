use nexus_agent::state::format_session_id;
use nexus_agent::text::{chars_of, lines_chars, split_chars, string_of, trim_chars};

fn strings(v: Vec<Vec<char>>) -> Vec<String> {
    v.iter().map(|x| string_of(x)).collect()
}

#[test]
fn split_then_join_gives_back_the_text() {
    for s in ["a.b.c", "", ".", "..x.", "no dots"] {
        let parts = strings(split_chars(&chars_of(s), '.'));
        let std_parts: Vec<String> = s.split('.').map(|p| p.to_string()).collect();
        assert_eq!(parts, std_parts);
        assert_eq!(parts.join("."), s);
        assert!(parts.iter().all(|p| !p.contains('.')));
    }
}

#[test]
fn lines_follow_std() {
    for s in ["a\nb", "a\r\nb\r\n", "", "\n", "x\r", "one\n\ntwo\n", "é\r\nü"] {
        let ours = strings(lines_chars(&chars_of(s)));
        let std_lines: Vec<String> = s.lines().map(|l| l.to_string()).collect();
        assert_eq!(ours, std_lines, "input {:?}", s);
    }
}

#[test]
fn trim_follows_std() {
    for s in ["  a b  ", "\u{3000}x\u{2028}", "\t\n", "", "\u{85}é\u{a0}", "\u{200b}z"] {
        assert_eq!(string_of(&trim_chars(&chars_of(s))), s.trim(), "input {:?}", s);
    }
}

#[test]
fn session_ids_differ_when_inputs_differ() {
    assert_ne!(format_session_id(1, 2), format_session_id(2, 1));
    assert_ne!(format_session_id(16, 0), format_session_id(1, 0));
    assert_eq!(format_session_id(16, 0), "agent_0000000000000010_00000000");
}
