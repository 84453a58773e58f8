//! The task list: the section of the system prompt that tells the model how
//! to keep it, and what a task file says.

use vstd::prelude::*;
use vstd::string::*;
use crate::text::{
    chars_of, decimal, decimal_of, find, find_in, lemma_find_from, lines, split_lines, starts_with,
    string_of, trim, trimmed,
};

verus! {

/// The opening of the task section, up to the path of the task file.
pub const PROMPT_INTRO: &'static str =
    "\n\n## Task List Protocol — Four Bash Tasks\n\n**Task file path (use in every bash command below):**\n`";

/// From the path to the command that creates the task list.
pub const PROMPT_CREATE: &'static str =
    "`\n\nAll task operations are done by calling the **bash** tool with one of these four bash tasks. Do not output task content in your assistant text.\n\n---\n\n**1. TaskCreate** — 创建任务列表  \nCall once in your first response to create the task list file. Use bash with a heredoc to write the checklist (numbered lines `- [ ] 1. ...`, one per step).\n\nExample:\nbash -c 'cat << ''EOF'' > \"";

/// From the creating command to the command that marks a step as done.
pub const PROMPT_UPDATE: &'static str =
    "\"\n# Tasks\n\n- [ ] 1. First step description\n- [ ] 2. Second step description\n- [ ] 3. Third step\nEOF'\n\n---\n\n**2. TaskUpdate** — 更新任务状态  \nCall when a step is completed: mark item N as done (replace N with the step number).\n\nbash -c \"";

/// From the marking command to the command that lists the tasks.
pub const PROMPT_LIST: &'static str =
    "\"\n\n(Replace N in the perl script with the actual step number, e.g. 3 for step 3.)\n\n---\n\n**3. TaskList** — 列出所有任务  \nCall to list all tasks (show the current task file content).\n\nbash -c 'cat \"";

/// From the listing command to the command that shows the task file.
pub const PROMPT_GET: &'static str =
    "\"'\n\n---\n\n**4. TaskGet** — 获取任务详情  \nCall to get full content or a specific part of the task file (e.g. grep for one line).\n\nbash -c 'cat \"";

/// From the showing command to the command that shows the checklist lines.
pub const PROMPT_GREP: &'static str =
    "\"'\n# or e.g. bash -c 'grep \\\"^\\- \\\" \\\"";

/// The closing of the task section.
pub const PROMPT_CLOSE: &'static str =
    "\\\"' for checklist lines only\n\n---\n\nUse TaskCreate in the first response; use TaskUpdate when a step is done; use TaskList/TaskGet when you need to read the current list. The UI monitors the file and refreshes automatically.";

/// The command that marks step N as done, up to the path of the task file.
pub const PERL_HEAD: &'static str =
    "perl -i -pe 's/^- \\\\[ \\\\] N\\\\./- [x] N./' \"";

/// The command that marks step N as done in the task file at `path`.
pub open spec fn perl_command(path: Seq<char>) -> Seq<char> {
    PERL_HEAD@ + path + "\""@
}

/// The task section of the system prompt for the task file at `path`: the
/// fixed text with the path in each of its commands.
pub open spec fn task_prompt(path: Seq<char>) -> Seq<char> {
    PROMPT_INTRO@ + path + PROMPT_CREATE@ + path + PROMPT_UPDATE@ + perl_command(path)
        + PROMPT_LIST@ + path + PROMPT_GET@ + path + PROMPT_GREP@ + path + PROMPT_CLOSE@
}

/// The task section of the system prompt for the task file at
/// `task_file_path`.
pub fn format_task_prompt(task_file_path: &str) -> (out: String)
    ensures
        out@ == task_prompt(task_file_path@),
{
    let mut out = String::new();
    out.append(PROMPT_INTRO);
    out.append(task_file_path);
    out.append(PROMPT_CREATE);
    out.append(task_file_path);
    out.append(PROMPT_UPDATE);
    out.append(PERL_HEAD);
    out.append(task_file_path);
    out.append("\"");
    out.append(PROMPT_LIST);
    out.append(task_file_path);
    out.append(PROMPT_GET);
    out.append(task_file_path);
    out.append(PROMPT_GREP);
    out.append(task_file_path);
    out.append(PROMPT_CLOSE);
    assert(out@ =~= task_prompt(task_file_path@));
    out
}

/// What opens a task block in the model's text.
pub open spec fn block_open() -> Seq<char> {
    "<!-- TASKS"@
}

/// What closes a task block.
pub open spec fn block_close() -> Seq<char> {
    "TASKS -->"@
}

/// The task block of a text: what stands between the first opening and the
/// first closing, where the closing does not begin before the opening ends.
pub open spec fn task_block(text: Seq<char>) -> Option<Seq<char>> {
    match (find(text, block_open()), find(text, block_close())) {
        (Some(start), Some(end)) => if start + block_open().len() <= end {
            Some(text.subrange(start + block_open().len(), end))
        } else {
            None
        },
        _ => None,
    }
}

/// The entries that, white space around them left out, begin with `lead`;
/// in order and without that white space.
pub open spec fn entries_with(entries: Seq<Seq<char>>, lead: Seq<char>) -> Seq<Seq<char>>
    decreases entries.len(),
{
    if entries.len() == 0 {
        Seq::empty()
    } else {
        let rest = entries_with(entries.drop_last(), lead);
        if lead.is_prefix_of(trim(entries.last())) {
            rest.push(trim(entries.last()))
        } else {
            rest
        }
    }
}

/// The task lines of a text: the checklist lines of its task block. `None`
/// where there is no block or no such line in it.
pub open spec fn tasks_of(text: Seq<char>) -> Option<Seq<Seq<char>>> {
    match task_block(text) {
        None => None,
        Some(block) => if entries_with(lines(block), "- ["@).len() == 0 {
            None
        } else {
            Some(entries_with(lines(block), "- ["@))
        },
    }
}

/// The entries that begin with `lead`.
fn select(entries: &Vec<String>, lead: &str) -> (out: Vec<String>)
    ensures
        out.deep_view() == entries_with(entries.deep_view(), lead@),
{
    let ghost all = entries.deep_view();
    let mut out: Vec<String> = Vec::new();
    let mut i: usize = 0;
    assert(all.take(0) =~= Seq::<Seq<char>>::empty());
    assert(out.deep_view() =~= Seq::<Seq<char>>::empty());
    while i < entries.len()
        invariant
            i <= entries.len(),
            all == entries.deep_view(),
            out.deep_view() == entries_with(all.take(i as int), lead@),
        decreases entries.len() - i,
    {
        let ghost before = out.deep_view();
        assert(all.take(i + 1).drop_last() =~= all.take(i as int));
        assert(all.take(i + 1).last() == entries@[i as int]@);
        let entry = trimmed(entries[i].as_str());
        if starts_with(entry.as_str(), lead) {
            out.push(entry);
            assert(out.deep_view() =~= before.push(entry@));
        }
        i += 1;
    }
    assert(all.take(entries.len() as int) =~= all);
    out
}

/// The task lines of the model's text.
pub fn parse_tasks(text: &str) -> (out: Option<Vec<String>>)
    ensures
        out.deep_view() == tasks_of(text@),
{
    let chars = chars_of(text);
    let opening = chars_of("<!-- TASKS");
    let closing = chars_of("TASKS -->");
    proof {
        reveal_strlit("<!-- TASKS");
        reveal_strlit("TASKS -->");
        lemma_find_from(text@, block_open(), 0);
        lemma_find_from(text@, block_close(), 0);
    }
    let start = match find_in(&chars, &opening, 0) {
        Some(start) => start,
        None => {
            return None;
        },
    };
    let end = match find_in(&chars, &closing, 0) {
        Some(end) => end,
        None => {
            return None;
        },
    };
    if end < start + opening.len() {
        return None;
    }
    let block = string_of(&chars, start + opening.len(), end);
    let found = select(&split_lines(block.as_str()), "- [");
    if found.len() == 0 {
        None
    } else {
        Some(found)
    }
}

/// What a task file says of progress: how many of its checklist lines are
/// ticked, and how many there are. `None` where there is no checklist line.
pub open spec fn summary_of(content: Seq<char>) -> Option<(nat, nat)> {
    let total = entries_with(lines(content), "- ["@).len();
    if total == 0 {
        None
    } else {
        Some((entries_with(lines(content), "- [x]"@).len(), total))
    }
}

/// The progress that the content of a task file shows: ticked lines, then
/// all checklist lines.
pub fn read_task_summary(content: &str) -> (out: Option<(usize, usize)>)
    ensures
        match out {
            Some((done, total)) => summary_of(content@) == Some((done as nat, total as nat)),
            None => summary_of(content@) is None,
        },
{
    let entries = split_lines(content);
    let total = select(&entries, "- [").len();
    if total == 0 {
        return None;
    }
    let done = select(&entries, "- [x]").len();
    Some((done, total))
}

/// The heading of a task file for the project `project`.
pub open spec fn task_heading(project: Seq<char>) -> Seq<char> {
    "# Tasks — "@ + project + "\n\n"@
}

/// `entries`, each followed by a line feed.
pub open spec fn listed(entries: Seq<Seq<char>>) -> Seq<char>
    decreases entries.len(),
{
    if entries.len() == 0 {
        Seq::empty()
    } else {
        listed(entries.drop_last()) + entries.last() + "\n"@
    }
}

/// The content of a task file: the heading, then the task lines.
pub open spec fn task_file_text(project: Seq<char>, entries: Seq<Seq<char>>) -> Seq<char> {
    task_heading(project) + listed(entries)
}

/// The content of the task file of `project` with the task lines `lines`.
pub fn write_tasks(project: &str, lines: &Vec<String>) -> (out: String)
    ensures
        out@ == task_file_text(project@, lines.deep_view()),
{
    let ghost all = lines.deep_view();
    let ghost head = task_heading(project@);
    let mut out = String::new();
    out.append("# Tasks — ");
    out.append(project);
    out.append("\n\n");
    assert(out@ =~= head);
    let mut i: usize = 0;
    assert(all.take(0) =~= Seq::<Seq<char>>::empty());
    assert(head + Seq::<char>::empty() =~= head);
    while i < lines.len()
        invariant
            i <= lines.len(),
            all == lines.deep_view(),
            out@ == head + listed(all.take(i as int)),
        decreases lines.len() - i,
    {
        let ghost before = out@;
        assert(all.take(i + 1).drop_last() =~= all.take(i as int));
        assert(all.take(i + 1).last() == lines@[i as int]@);
        out.append(lines[i].as_str());
        out.append("\n");
        i += 1;
        assert(out@ =~= head + listed(all.take(i as int)));
    }
    assert(all.take(lines.len() as int) =~= all);
    out
}

/// The name of the task file that is begun for `project` at `seconds`.
pub open spec fn task_file_name(project: Seq<char>, seconds: u64) -> Seq<char> {
    project + "_"@ + decimal(seconds as nat) + ".md"@
}

/// Begins the task file of a session: gives its name, made of the project
/// and the time in seconds, and its first content, the heading alone.
pub fn init_task_file(project: &str, seconds: u64) -> (out: (String, String))
    ensures
        out.0@ == task_file_name(project@, seconds),
        out.1@ == task_heading(project@),
{
    let mut name = String::new();
    name.append(project);
    name.append("_");
    name.append(decimal_of(seconds).as_str());
    name.append(".md");
    assert(name@ =~= task_file_name(project@, seconds));
    let mut content = String::new();
    content.append("# Tasks — ");
    content.append(project);
    content.append("\n\n");
    assert(content@ =~= task_heading(project@));
    (name, content)
}

} // verus!
