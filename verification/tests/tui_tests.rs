use mash::skills::SkillInfo;
use mash::tui::{build_commands, filter_commands, highlight_inline_code, progress_bar, SlashCommand};

fn skill(name: &str, description: &str) -> SkillInfo {
    SkillInfo { name: name.to_string(), description: description.to_string(), path: String::new() }
}

fn names(commands: &[&SlashCommand]) -> Vec<String> {
    commands.iter().map(|c| c.name.clone()).collect()
}

#[test]
fn inline_code_comes_out_in_blue() {
    assert_eq!(highlight_inline_code("run `ls -l` now"), "run \x1b[94mls -l\x1b[0m now");
    assert_eq!(highlight_inline_code("`a``b`"), "\x1b[94ma\x1b[0m\x1b[94mb\x1b[0m");
    assert_eq!(highlight_inline_code("`é`"), "\x1b[94mé\x1b[0m");
}

#[test]
fn text_without_code_stays() {
    assert_eq!(highlight_inline_code(""), "");
    assert_eq!(highlight_inline_code("plain text"), "plain text");
}

#[test]
fn empty_code_vanishes() {
    assert_eq!(highlight_inline_code("a``b"), "ab");
    assert_eq!(highlight_inline_code("``"), "");
    assert_eq!(highlight_inline_code("```x`"), "\x1b[94mx\x1b[0m");
}

#[test]
fn a_backtick_without_partner_stays() {
    assert_eq!(highlight_inline_code("a `b"), "a `b");
    assert_eq!(highlight_inline_code("`"), "`");
    assert_eq!(highlight_inline_code("`a` `b"), "\x1b[94ma\x1b[0m `b");
}

#[test]
fn menu_holds_new_and_the_skills() {
    let commands = build_commands(&vec![skill("review", "Reviews"), skill("Plan", "")]);
    assert_eq!(
        commands,
        vec![
            SlashCommand { name: "new".to_string(), description: "清空上下文，开始新对话".to_string(), builtin: true },
            SlashCommand { name: "review".to_string(), description: "Reviews".to_string(), builtin: false },
            SlashCommand { name: "Plan".to_string(), description: String::new(), builtin: false },
        ]
    );
    assert_eq!(build_commands(&vec![]).len(), 1);
}

#[test]
fn menu_is_filtered_without_regard_to_case() {
    let commands = build_commands(&vec![skill("review", ""), skill("Plan", ""), skill("preview", "")]);
    assert_eq!(names(&filter_commands(&commands, "")), vec!["new", "review", "Plan", "preview"]);
    assert_eq!(names(&filter_commands(&commands, "VIEW")), vec!["review", "preview"]);
    assert_eq!(names(&filter_commands(&commands, "pl")), vec!["Plan"]);
    assert_eq!(names(&filter_commands(&commands, "e")), vec!["new", "review", "preview"]);
    assert_eq!(names(&filter_commands(&commands, "zzz")), Vec::<String>::new());
    assert_eq!(names(&filter_commands(&commands, "reviews")), Vec::<String>::new());
}

#[test]
fn progress_bar_has_ten_cells() {
    assert_eq!(progress_bar(0, 0), "░░░░░░░░░░");
    assert_eq!(progress_bar(0, 4), "░░░░░░░░░░");
    assert_eq!(progress_bar(1, 4), "██░░░░░░░░");
    assert_eq!(progress_bar(2, 3), "██████░░░░");
    assert_eq!(progress_bar(4, 4), "██████████");
    assert_eq!(progress_bar(usize::MAX, usize::MAX), "██████████");
    assert_eq!(progress_bar(1, usize::MAX), "░░░░░░░░░░");
}
