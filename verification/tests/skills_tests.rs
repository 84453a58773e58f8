use mash::skills::{format_skills_for_prompt, parse_frontmatter, SkillInfo};

fn skill(name: &str, description: &str, path: &str) -> SkillInfo {
    SkillInfo { name: name.to_string(), description: description.to_string(), path: path.to_string() }
}

#[test]
fn front_matter_gives_name_and_description() {
    let content = "---\nname: review\ndescription:  Reviews a change \nother: x\n---\n# Body\nname: not this\n";
    assert_eq!(parse_frontmatter(content), Some(skill("review", "Reviews a change", "")));
}

#[test]
fn front_matter_after_leading_white_space() {
    assert_eq!(
        parse_frontmatter("\n \t---\r\n  name:a b  \r\n---\r\n"),
        Some(skill("a b", "", ""))
    );
}

#[test]
fn the_later_entry_of_a_key_counts() {
    assert_eq!(
        parse_frontmatter("---\nname: one\ndescription: d1\nname: two\ndescription: d2\n---"),
        Some(skill("two", "d2", ""))
    );
    assert_eq!(parse_frontmatter("---\nname:\n---"), Some(skill("", "", "")));
}

#[test]
fn what_is_no_front_matter() {
    assert_eq!(parse_frontmatter(""), None);
    assert_eq!(parse_frontmatter("# Title\n---\nname: x\n---"), None);
    assert_eq!(parse_frontmatter("---\nname: x\n"), None);
    assert_eq!(parse_frontmatter("---\nname: x ---"), None);
    assert_eq!(parse_frontmatter("---\ndescription: only\n---"), None);
    assert_eq!(parse_frontmatter("--\nname: x\n---"), None);
    assert_eq!(parse_frontmatter("---\nName: x\n---"), None);
}

#[test]
fn dashes_on_the_opening_line() {
    // The closing is the first line break that three dashes follow.
    assert_eq!(parse_frontmatter("---name: x\n---"), Some(skill("x", "", "")));
    assert_eq!(parse_frontmatter("----\nname: y\n----"), Some(skill("y", "", "")));
}

#[test]
fn no_skills_no_section() {
    assert_eq!(format_skills_for_prompt(&vec![]), "");
}

#[test]
fn skills_section_lists_every_skill() {
    let skills = vec![skill("review", "Reviews a change", "/s/review/skill.md"), skill("b", "", "")];
    let expected = String::from("\n\n## Available Skills\n\n")
        + "The user can invoke skills by typing `/skill-name` in the input. "
        + "When a skill is invoked, you MUST first read the corresponding skill.md file "
        + "to understand the skill's full instructions before executing it.\n\n"
        + "If a skill produces output files, save them to the current working directory "
        + "by default, or to the directory specified by the user.\n\n"
        + "- **review**: Reviews a change (path: `/s/review/skill.md`)\n"
        + "- **b**:  (path: ``)\n";
    assert_eq!(format_skills_for_prompt(&skills), expected);
}
