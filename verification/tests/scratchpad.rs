use zeptoclaw::agent::scratchpad::SwarmScratchpad;

#[test]
fn test_scratchpad_new_is_empty() {
    let sp = SwarmScratchpad::new();
    assert!(sp.is_empty());
    assert_eq!(sp.format_for_prompt(), None);
}

#[test]
fn test_scratchpad_write_read() {
    let mut sp = SwarmScratchpad::new();
    sp.write("researcher", "Found 3 results");
    assert_eq!(sp.read("researcher"), Some("Found 3 results".to_string()));
    assert_eq!(sp.read("writer"), None);
    assert!(!sp.is_empty());
}

#[test]
fn test_scratchpad_overwrite() {
    let mut sp = SwarmScratchpad::new();
    sp.write("analyst", "First analysis");
    sp.write("analyst", "Updated analysis");
    assert_eq!(sp.read("analyst"), Some("Updated analysis".to_string()));
    assert_eq!(sp.entries().len(), 1);
}

#[test]
fn test_scratchpad_format_for_prompt() {
    let mut sp = SwarmScratchpad::new();
    sp.write("writer", "Wrote summary");
    sp.write("researcher", "Found data");
    let prompt = sp.format_for_prompt().unwrap();
    assert!(prompt.starts_with("Previous agent outputs:"));
    assert!(prompt.contains("- researcher: Found data"));
    assert!(prompt.contains("- writer: Wrote summary"));
    assert_eq!(
        prompt,
        "Previous agent outputs:\n- researcher: Found data\n- writer: Wrote summary"
    );
}

#[test]
fn test_scratchpad_format_truncates_long_output() {
    let mut sp = SwarmScratchpad::new();
    let long_output = "x".repeat(3000);
    sp.write("analyst", &long_output);
    let prompt = sp.format_for_prompt().unwrap();
    assert!(prompt.contains("[truncated]"));
    assert!(prompt.len() < 3000 + 200);
    let expected = format!("Previous agent outputs:\n- analyst: {}... [truncated]", "x".repeat(2000));
    assert_eq!(prompt, expected);
}

#[test]
fn test_scratchpad_format_keeps_output_of_exactly_2000_bytes() {
    let mut sp = SwarmScratchpad::new();
    sp.write("a", &"y".repeat(2000));
    assert!(!sp.format_for_prompt().unwrap().contains("[truncated]"));
}

#[test]
fn test_scratchpad_clear() {
    let mut sp = SwarmScratchpad::new();
    sp.write("researcher", "data");
    assert!(!sp.is_empty());
    sp.clear();
    assert!(sp.is_empty());
}

#[test]
fn test_scratchpad_entries_snapshot() {
    let mut sp = SwarmScratchpad::new();
    sp.write("a", "alpha");
    sp.write("b", "beta");
    let entries = sp.entries();
    assert_eq!(entries.len(), 2);
    assert!(entries.contains(&("a".to_string(), "alpha".to_string())));
    assert!(entries.contains(&("b".to_string(), "beta".to_string())));
}

#[test]
fn test_format_truncates_on_char_boundary() {
    let mut pad = SwarmScratchpad::new();
    // 700 three-byte characters: 2100 bytes, byte 2000 falls inside a character.
    pad.write("analyst", &"€".repeat(700));
    let s = pad.format_for_prompt().unwrap();
    let expected = format!("Previous agent outputs:\n- analyst: {}... [truncated]", "€".repeat(666));
    assert_eq!(s, expected);
    let shown = s.trim_start_matches("Previous agent outputs:\n- analyst: ").trim_end_matches("... [truncated]");
    assert!(shown.len() <= 2000 && shown.len() + 3 > 2000);
}
