use omniscientia::prompt::build_system_prompt;

#[test]
fn builds_without_panic() {
    let prompt = build_system_prompt("Admin", "Admin", None, &[]);
    assert!(prompt.contains("Omniscientia"));
}

#[test]
fn prompt_without_memory_is_header_and_footer() {
    let prompt = build_system_prompt("alice", "Employee", None, &[None, None, None]);
    assert_eq!(
        prompt,
        "# Omniscientia — System Context\nCurrent session: **alice** (Role: **Employee**)\n\n\n---\nRespond concisely. Use `tool_call` JSON blocks (defined in tools.md) whenever a task requires action. Do not describe what you would do — just do it."
    );
}

#[test]
fn prompt_includes_trimmed_memory_and_context_in_order() {
    let memory = vec![Some("  Identity\n".to_string()), None, Some("Tools".to_string())];
    let prompt = build_system_prompt("bob", "Admin", Some(" records \n"), &memory);
    assert_eq!(
        prompt,
        "# Omniscientia — System Context\nCurrent session: **bob** (Role: **Admin**)\n\n\n---\nIdentity\n\n---\nTools\n\n---\n## Additional Context\nrecords\n\n---\nRespond concisely. Use `tool_call` JSON blocks (defined in tools.md) whenever a task requires action. Do not describe what you would do — just do it."
    );
}

#[test]
fn prompt_skips_empty_extra_context() {
    let with_empty = build_system_prompt("a", "b", Some(""), &[]);
    let without = build_system_prompt("a", "b", None, &[]);
    assert_eq!(with_empty, without);
}
