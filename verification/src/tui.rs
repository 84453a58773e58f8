//! What the terminal shows: inline code in colour, the slash-command menu,
//! and the progress bar of the task list.

use vstd::prelude::*;
use vstd::string::*;
use crate::skills::{SkillInfo, SkillView};
use crate::text::{chars_of, contains, find_from, find_in, lemma_find_from, string_of};

verus! {

/// The text that `str::to_lowercase` gives for `s`.
pub uninterp spec fn lowered(s: Seq<char>) -> Seq<char>;

/// Calls `str::to_lowercase`. The contract names the text returned.
#[verifier::external_body]
fn lowercase(s: &str) -> (out: String)
    ensures
        out@ == lowered(s@),
{
    s.to_lowercase()
}

/// What switches the terminal to bright blue.
pub const BLUE: &'static str = "\x1b[94m";

/// What switches the terminal back.
pub const RESET: &'static str = "\x1b[0m";

/// The backtick, as a one-character pattern.
pub open spec fn backtick() -> Seq<char> {
    seq!['`']
}

/// `input` from index `from` on, with each stretch between two backticks in
/// bright blue and without the backticks. Two backticks with nothing between
/// them vanish; a backtick without a partner stays, with all that follows.
pub open spec fn highlighted_from(input: Seq<char>, from: int) -> Seq<char>
    decreases input.len() - from,
{
    if from < 0 || from >= input.len() {
        Seq::empty()
    } else if input[from] == '`' {
        let close = find_from(input, backtick(), from + 1);
        if close is Some && from < close->0 < input.len() {
            let code = input.subrange(from + 1, close->0);
            (if code.len() == 0 {
                Seq::empty()
            } else {
                BLUE@ + code + RESET@
            }) + highlighted_from(input, close->0 + 1)
        } else {
            input.subrange(from, input.len() as int)
        }
    } else {
        seq![input[from]] + highlighted_from(input, from + 1)
    }
}

/// `input` with its inline code in bright blue.
pub open spec fn highlighted(input: Seq<char>) -> Seq<char> {
    highlighted_from(input, 0)
}

/// Shows inline code in colour: what stands between two backticks comes out
/// in bright blue, the backticks go.
pub fn highlight_inline_code(input: &str) -> (out: String)
    ensures
        out@ == highlighted(input@),
{
    let chars = chars_of(input);
    let tick: Vec<char> = vec!['`'];
    assert(tick@ =~= backtick());
    let mut out = String::new();
    let mut i: usize = 0;
    assert(out@ + highlighted_from(input@, 0) =~= highlighted(input@));
    while i < chars.len()
        invariant
            i <= chars.len(),
            chars@ == input@,
            tick@ == backtick(),
            highlighted(input@) == out@ + highlighted_from(input@, i as int),
        decreases chars.len() - i,
    {
        let ghost before = out@;
        if chars[i] == '`' {
            proof {
                lemma_find_from(input@, backtick(), i + 1);
            }
            match find_in(&chars, &tick, i + 1) {
                Some(close) => {
                    if close > i + 1 {
                        out.append(BLUE);
                        out.append(string_of(&chars, i + 1, close).as_str());
                        out.append(RESET);
                    }
                    assert(out@ + highlighted_from(input@, close + 1) =~= before
                        + highlighted_from(input@, i as int));
                    i = close + 1;
                },
                None => {
                    out.append(string_of(&chars, i, chars.len()).as_str());
                    assert(highlighted_from(input@, chars.len() as int) =~= Seq::<char>::empty());
                    assert(out@ + highlighted_from(input@, chars.len() as int) =~= before
                        + highlighted_from(input@, i as int));
                    i = chars.len();
                },
            }
        } else {
            out.push(chars[i]);
            assert(out@ + highlighted_from(input@, i + 1) =~= before + highlighted_from(
                input@,
                i as int,
            ));
            i += 1;
        }
    }
    assert(out@ + highlighted_from(input@, i as int) =~= out@);
    out
}

/// An entry of the slash-command menu.
#[derive(Debug, PartialEq, Eq)]
pub struct SlashCommand {
    pub name: String,
    pub description: String,
    /// Whether the command is built in, as `new` is, or stands for a skill.
    pub builtin: bool,
}

/// The mathematical value of a [`SlashCommand`].
pub ghost struct CommandView {
    pub name: Seq<char>,
    pub description: Seq<char>,
    pub builtin: bool,
}

impl View for SlashCommand {
    type V = CommandView;

    open spec fn view(&self) -> CommandView {
        CommandView { name: self.name@, description: self.description@, builtin: self.builtin }
    }
}

impl DeepView for SlashCommand {
    type V = CommandView;

    open spec fn deep_view(&self) -> CommandView {
        self@
    }
}

/// What the built-in command `new` does.
pub const NEW_DESCRIPTION: &'static str = "清空上下文，开始新对话";

/// The built-in command that starts a new conversation.
pub open spec fn new_command() -> CommandView {
    CommandView { name: "new"@, description: NEW_DESCRIPTION@, builtin: true }
}

/// The commands that stand for the skills, in order.
pub open spec fn skill_commands(skills: Seq<SkillView>) -> Seq<CommandView> {
    Seq::new(
        skills.len(),
        |i: int|
            CommandView { name: skills[i].name, description: skills[i].description, builtin: false },
    )
}

/// The whole menu: the built-in command, then one command for each skill.
pub open spec fn commands_of(skills: Seq<SkillView>) -> Seq<CommandView> {
    seq![new_command()] + skill_commands(skills)
}

/// The whole slash-command menu for the given skills.
pub fn build_commands(skills: &Vec<SkillInfo>) -> (out: Vec<SlashCommand>)
    ensures
        out.deep_view() == commands_of(skills.deep_view()),
{
    let mut out: Vec<SlashCommand> = vec![
        SlashCommand {
            name: "new".to_owned(),
            description: NEW_DESCRIPTION.to_owned(),
            builtin: true,
        },
    ];
    let mut i: usize = 0;
    while i < skills.len()
        invariant
            i <= skills.len(),
            out.len() == i + 1,
            out@[0]@ == new_command(),
            forall|j: int|
                0 <= j < i ==> out@[j + 1]@ == (CommandView {
                    name: skills@[j].name@,
                    description: skills@[j].description@,
                    builtin: false,
                }),
        decreases skills.len() - i,
    {
        out.push(
            SlashCommand {
                name: skills[i].name.clone(),
                description: skills[i].description.clone(),
                builtin: false,
            },
        );
        i += 1;
    }
    assert(out.deep_view() =~= commands_of(skills.deep_view()));
    out
}

/// Whether a command is shown for `query`: its name holds the query, both
/// taken in lower case.
pub open spec fn shown(command: CommandView, query: Seq<char>) -> bool {
    contains(lowered(command.name), lowered(query))
}

/// The positions of the commands that are shown for `query`, in order: all
/// of them for the empty query.
pub open spec fn shown_positions(commands: Seq<CommandView>, query: Seq<char>) -> Seq<int>
    decreases commands.len(),
{
    if commands.len() == 0 {
        Seq::empty()
    } else {
        let rest = shown_positions(commands.drop_last(), query);
        if query.len() == 0 || shown(commands.last(), query) {
            rest.push(commands.len() - 1)
        } else {
            rest
        }
    }
}

/// The commands of the menu that are shown for what was typed after the
/// slash.
pub fn filter_commands<'a>(commands: &'a Vec<SlashCommand>, query: &str) -> (out: Vec<
    &'a SlashCommand,
>)
    ensures
        out.len() == shown_positions(commands.deep_view(), query@).len(),
        forall|k: int|
            0 <= k < out.len() ==> 0 <= (#[trigger] shown_positions(commands.deep_view(), query@)[k])
                < commands.len() && *out@[k] == commands@[shown_positions(
                commands.deep_view(),
                query@,
            )[k]],
{
    let ghost all = commands.deep_view();
    let wanted = lowercase(query);
    let wanted_chars = chars_of(wanted.as_str());
    let mut out: Vec<&'a SlashCommand> = Vec::new();
    let mut i: usize = 0;
    assert(all.take(0) =~= Seq::<CommandView>::empty());
    while i < commands.len()
        invariant
            i <= commands.len(),
            all == commands.deep_view(),
            wanted_chars@ == lowered(query@),
            out.len() == shown_positions(all.take(i as int), query@).len(),
            forall|k: int|
                0 <= k < out.len() ==> 0 <= (#[trigger] shown_positions(all.take(i as int), query@)[k])
                    < i && *out@[k] == commands@[shown_positions(all.take(i as int), query@)[k]],
        decreases commands.len() - i,
    {
        let ghost before = shown_positions(all.take(i as int), query@);
        assert(all.take(i + 1).drop_last() =~= all.take(i as int));
        assert(all.take(i + 1).last() == commands@[i as int]@);
        let keep = if query.is_empty() {
            true
        } else {
            let name = lowercase(commands[i].name.as_str());
            let name_chars = chars_of(name.as_str());
            find_in(&name_chars, &wanted_chars, 0).is_some()
        };
        if keep {
            out.push(&commands[i]);
            assert(shown_positions(all.take(i + 1), query@) =~= before.push(i as int));
        } else {
            assert(shown_positions(all.take(i + 1), query@) =~= before);
        }
        i += 1;
    }
    assert(all.take(commands.len() as int) =~= all);
    out
}

/// `count` times the character `c`.
pub open spec fn repeated(c: char, count: nat) -> Seq<char> {
    Seq::new(count, |i: int| c)
}

/// How many of the ten cells of the progress bar are filled: the share of
/// `done` in `total`, rounded down; none where there is no task.
pub open spec fn filled_cells(done: nat, total: nat) -> nat {
    if total == 0 {
        0
    } else {
        (done * 10 / total) as nat
    }
}

/// The progress bar: ten cells, the filled ones first.
pub open spec fn bar_of(done: nat, total: nat) -> Seq<char> {
    repeated('█', filled_cells(done, total)) + repeated(
        '░',
        (10 - filled_cells(done, total)) as nat,
    )
}

/// The progress bar for `done` tasks of `total`.
pub fn progress_bar(done: usize, total: usize) -> (out: String)
    requires
        done <= total,
    ensures
        out@ == bar_of(done as nat, total as nat),
{
    let filled: u128 = if total == 0 {
        0
    } else {
        assert(done * 10 / (total as int) <= 10) by (nonlinear_arith)
            requires
                0 <= done <= total,
                total > 0,
        ;
        (done as u128) * 10 / (total as u128)
    };
    let mut out = String::new();
    let mut i: u128 = 0;
    assert(out@ =~= repeated('█', 0));
    while i < filled
        invariant
            i <= filled <= 10,
            out@ == repeated('█', i as nat),
        decreases filled - i,
    {
        out.push('█');
        i += 1;
        assert(out@ =~= repeated('█', i as nat));
    }
    let ghost head = out@;
    let mut k: u128 = filled;
    assert(out@ =~= head + repeated('░', 0));
    while k < 10
        invariant
            filled <= k <= 10,
            out@ == head + repeated('░', (k - filled) as nat),
        decreases 10 - k,
    {
        out.push('░');
        k += 1;
        assert(out@ =~= head + repeated('░', (k - filled) as nat));
    }
    out
}

} // verus!
