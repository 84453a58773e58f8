use mash::tasks::{format_task_prompt, init_task_file, parse_tasks, read_task_summary, write_tasks};

fn strings(items: &[&str]) -> Vec<String> {
    items.iter().map(|s| s.to_string()).collect()
}

#[test]
fn parse_tasks_takes_the_checklist_of_the_block() {
    let text = "Plan:\n<!-- TASKS\n- [ ] 1. first\n  - [x] 2. second  \nnote\n-[ ] none\nTASKS -->\n- [ ] outside";
    assert_eq!(parse_tasks(text), Some(strings(&["- [ ] 1. first", "- [x] 2. second"])));
}

#[test]
fn parse_tasks_without_a_block() {
    assert_eq!(parse_tasks(""), None);
    assert_eq!(parse_tasks("- [ ] 1. first"), None);
    assert_eq!(parse_tasks("<!-- TASKS\n- [ ] a\n"), None);
    assert_eq!(parse_tasks("- [ ] a\nTASKS -->"), None);
    assert_eq!(parse_tasks("TASKS -->\n- [ ] a\n<!-- TASKS"), None);
    assert_eq!(parse_tasks("<!-- TASKS\nnothing\nTASKS -->"), None);
}

#[test]
fn parse_tasks_where_the_markers_overlap() {
    // The closing begins inside the opening: there is no block.
    assert_eq!(parse_tasks("<!-- TASKS -->"), None);
    assert_eq!(parse_tasks("<!-- TASKSTASKS -->"), None);
    assert_eq!(parse_tasks("<!-- TASKS- [ ] aTASKS -->"), Some(strings(&["- [ ] a"])));
}

#[test]
fn summary_counts_the_checklist_lines() {
    assert_eq!(read_task_summary("# Tasks\n\n- [ ] 1. a\n- [x] 2. b\n  - [x] 3. c\n- [X] 4. d\n"), Some((2, 4)));
    assert_eq!(read_task_summary("- [x] only"), Some((1, 1)));
    assert_eq!(read_task_summary("- [ ] only"), Some((0, 1)));
    assert_eq!(read_task_summary("# Tasks\n\nnone yet\n"), None);
    assert_eq!(read_task_summary(""), None);
}

#[test]
fn task_file_content() {
    assert_eq!(write_tasks("demo", &strings(&[])), "# Tasks — demo\n\n");
    assert_eq!(
        write_tasks("demo", &strings(&["- [ ] 1. a", "- [x] 2. b"])),
        "# Tasks — demo\n\n- [ ] 1. a\n- [x] 2. b\n"
    );
}

#[test]
fn task_file_of_a_session() {
    assert_eq!(
        init_task_file("demo", 1700000000),
        ("demo_1700000000.md".to_string(), "# Tasks — demo\n\n".to_string())
    );
    assert_eq!(init_task_file("", 0).0, "_0.md");
}

#[test]
fn task_prompt_names_the_file_in_every_command() {
    let prompt = format_task_prompt("/home/u/.mash/tasks/demo_1.md");
    assert!(prompt.starts_with("\n\n## Task List Protocol — Four Bash Tasks\n\n**Task file path (use in every bash command below):**\n`/home/u/.mash/tasks/demo_1.md`\n\n"));
    assert_eq!(prompt.matches("/home/u/.mash/tasks/demo_1.md").count(), 6);
    assert!(prompt.contains("bash -c 'cat << ''EOF'' > \"/home/u/.mash/tasks/demo_1.md\"\n# Tasks\n\n- [ ] 1. First step description\n"));
    assert!(prompt.contains("bash -c \"perl -i -pe 's/^- \\\\[ \\\\] N\\\\./- [x] N./' \"/home/u/.mash/tasks/demo_1.md\"\"\n"));
    assert!(prompt.contains("**3. TaskList** — 列出所有任务  \n"));
    assert!(prompt.contains("# or e.g. bash -c 'grep \\\"^\\- \\\" \\\"/home/u/.mash/tasks/demo_1.md\\\"' for checklist lines only\n"));
    assert!(prompt.ends_with("The UI monitors the file and refreshes automatically."));
    assert_eq!(format_task_prompt("").len(), prompt.len() - 6 * "/home/u/.mash/tasks/demo_1.md".len());
}
