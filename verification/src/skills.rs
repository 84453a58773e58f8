//! Skills: what the front matter of a skill file says, and how the skills
//! are listed for the model.

use vstd::prelude::*;
use vstd::string::*;
use crate::text::{
    after_prefix, chars_of, find, find_in, lemma_find_from, lines, split_lines, string_of, trim,
    trim_start, trimmed, trimmed_start, slice, occurs_at,
};

verus! {

/// A skill: its name, what it is for, and the file that holds it.
#[derive(Debug, PartialEq, Eq)]
pub struct SkillInfo {
    pub name: String,
    pub description: String,
    /// The absolute path of the skill file.
    pub path: String,
}

/// The mathematical value of a [`SkillInfo`].
pub ghost struct SkillView {
    pub name: Seq<char>,
    pub description: Seq<char>,
    pub path: Seq<char>,
}

impl View for SkillInfo {
    type V = SkillView;

    open spec fn view(&self) -> SkillView {
        SkillView { name: self.name@, description: self.description@, path: self.path@ }
    }
}

impl DeepView for SkillInfo {
    type V = SkillView;

    open spec fn deep_view(&self) -> SkillView {
        self@
    }
}

/// The front matter of a skill file: what stands between the three dashes
/// that open the file, after leading white space, and the first line that
/// begins with three dashes again.
pub open spec fn front_matter(content: Seq<char>) -> Option<Seq<char>> {
    let body = trim_start(content);
    if "---"@.is_prefix_of(body) {
        let rest = body.subrange(3, body.len() as int);
        match find(rest, "\n---"@) {
            Some(end) => Some(rest.subrange(0, end)),
            None => None,
        }
    } else {
        None
    }
}

/// The value of the last entry that begins with `key`, white space around
/// the entry and around the value left out.
pub open spec fn field(entries: Seq<Seq<char>>, key: Seq<char>) -> Option<Seq<char>>
    decreases entries.len(),
{
    if entries.len() == 0 {
        None
    } else {
        let entry = trim(entries.last());
        if key.is_prefix_of(entry) {
            Some(trim(entry.subrange(key.len() as int, entry.len() as int)))
        } else {
            field(entries.drop_last(), key)
        }
    }
}

/// The skill that a skill file describes: it has front matter with a
/// `name:`; its `description:` is empty where there is none. The path is
/// left empty.
pub open spec fn skill_of(content: Seq<char>) -> Option<SkillView> {
    match front_matter(content) {
        None => None,
        Some(matter) => match field(lines(matter), "name:"@) {
            None => None,
            Some(name) => Some(
                SkillView {
                    name,
                    description: match field(lines(matter), "description:"@) {
                        Some(description) => description,
                        None => Seq::empty(),
                    },
                    path: Seq::empty(),
                },
            ),
        },
    }
}

/// The value of the last entry that begins with `key`.
fn read_field(entries: &Vec<String>, key: &str) -> (out: Option<String>)
    ensures
        out.deep_view() == field(entries.deep_view(), key@),
{
    let ghost all = entries.deep_view();
    let mut found: Option<String> = None;
    let mut i: usize = 0;
    assert(all.take(0) =~= Seq::<Seq<char>>::empty());
    while i < entries.len()
        invariant
            i <= entries.len(),
            all == entries.deep_view(),
            found.deep_view() == field(all.take(i as int), key@),
        decreases entries.len() - i,
    {
        assert(all.take(i + 1).drop_last() =~= all.take(i as int));
        assert(all.take(i + 1).last() == entries@[i as int]@);
        let entry = trimmed(entries[i].as_str());
        match after_prefix(entry.as_str(), key) {
            Some(value) => {
                found = Some(trimmed(value.as_str()));
            },
            None => {},
        }
        i += 1;
    }
    assert(all.take(entries.len() as int) =~= all);
    found
}

/// Reads the front matter of a skill file.
pub fn parse_frontmatter(content: &str) -> (out: Option<SkillInfo>)
    ensures
        out.deep_view() == skill_of(content@),
{
    let body = trimmed_start(content);
    let chars = chars_of(body.as_str());
    let dashes = chars_of("---");
    let closing = chars_of("\n---");
    proof {
        reveal_strlit("---");
        reveal_strlit("\n---");
    }
    if !occurs_at(&chars, 0, &dashes) {
        return None;
    }
    let rest = slice(&chars, 3, chars.len());
    let end = match find_in(&rest, &closing, 0) {
        Some(end) => end,
        None => {
            return None;
        },
    };
    proof {
        lemma_find_from(rest@, closing@, 0);
    }
    let matter = string_of(&rest, 0, end);
    let entries = split_lines(matter.as_str());
    let name = match read_field(&entries, "name:") {
        Some(name) => name,
        None => {
            return None;
        },
    };
    let description = match read_field(&entries, "description:") {
        Some(description) => description,
        None => String::new(),
    };
    Some(SkillInfo { name, description, path: String::new() })
}

/// What introduces the list of skills.
pub const SKILLS_HEADING: &'static str = "\n\n## Available Skills\n\n";

/// How skills are invoked.
pub const SKILLS_USAGE: &'static str =
    "The user can invoke skills by typing `/skill-name` in the input. When a skill is invoked, you MUST first read the corresponding skill.md file to understand the skill's full instructions before executing it.\n\n";

/// Where the output of a skill goes.
pub const SKILLS_OUTPUT: &'static str =
    "If a skill produces output files, save them to the current working directory by default, or to the directory specified by the user.\n\n";

/// The entry of one skill in the list.
pub open spec fn skill_entry(skill: SkillView) -> Seq<char> {
    "- **"@ + skill.name + "**: "@ + skill.description + " (path: `"@ + skill.path + "`)\n"@
}

/// The entries of the skills, one after another.
pub open spec fn skill_entries(skills: Seq<SkillView>) -> Seq<char>
    decreases skills.len(),
{
    if skills.len() == 0 {
        Seq::empty()
    } else {
        skill_entries(skills.drop_last()) + skill_entry(skills.last())
    }
}

/// The section of the system prompt that lists the skills: nothing where
/// there is none, else the heading, the two paragraphs of instructions, and
/// one entry for each skill.
pub open spec fn skills_prompt(skills: Seq<SkillView>) -> Seq<char> {
    if skills.len() == 0 {
        Seq::empty()
    } else {
        SKILLS_HEADING@ + SKILLS_USAGE@ + SKILLS_OUTPUT@ + skill_entries(skills)
    }
}

/// The section of the system prompt that lists the skills.
pub fn format_skills_for_prompt(skills: &Vec<SkillInfo>) -> (out: String)
    ensures
        out@ == skills_prompt(skills.deep_view()),
{
    if skills.len() == 0 {
        return String::new();
    }
    let ghost all = skills.deep_view();
    let ghost head = SKILLS_HEADING@ + SKILLS_USAGE@ + SKILLS_OUTPUT@;
    let mut out = String::new();
    out.append(SKILLS_HEADING);
    out.append(SKILLS_USAGE);
    out.append(SKILLS_OUTPUT);
    assert(out@ =~= head);
    let mut i: usize = 0;
    assert(all.take(0) =~= Seq::<SkillView>::empty());
    assert(head + Seq::<char>::empty() =~= head);
    while i < skills.len()
        invariant
            i <= skills.len(),
            all == skills.deep_view(),
            out@ == head + skill_entries(all.take(i as int)),
        decreases skills.len() - i,
    {
        let ghost before = out@;
        assert(all.take(i + 1).drop_last() =~= all.take(i as int));
        assert(all.take(i + 1).last() == skills@[i as int]@);
        let skill = &skills[i];
        out.append("- **");
        out.append(skill.name.as_str());
        out.append("**: ");
        out.append(skill.description.as_str());
        out.append(" (path: `");
        out.append(skill.path.as_str());
        out.append("`)\n");
        assert(out@ =~= before + skill_entry(skill@));
        i += 1;
        assert(out@ =~= head + skill_entries(all.take(i as int)));
    }
    assert(all.take(skills.len() as int) =~= all);
    out
}

} // verus!
