//! Help renderer: formats declarations and command names into
//! column-aligned usage text. A pure function of the declarations; the
//! 80-column budget is enforced as a precondition, so a description too
//! long for the terminal is a build-time failure, never a truncation.

use crate::args::definition::{Arg, ArgModel};
use crate::args::models_of;
use crate::text;
use crate::text::sp_seq;
use vstd::prelude::*;
use vstd::string::StrSliceExecFns;
use vstd::string::StringExecFns;

verus! {

/// Indent of 2 spaces before the option/command name.
pub const INDENT_WIDTH: usize = 2;

/// The `--` before the long name.
pub const LONG_NAME_PREFIX: usize = 2;

/// The `-x, ` field.
pub const SHORT_NAME_WIDTH: usize = 4;

/// Gap of 3 spaces between the option/command column and the description.
pub const GAP_WIDTH: usize = 3;

/// Model of a [`Command`] entry.
pub struct CommandModel {
    pub name: Seq<char>,
    pub description: Seq<char>,
}

/// A subcommand name with its one-line description, for the help text.
pub struct Command<'a> {
    pub name: &'a str,
    pub description: &'a str,
}

impl<'a> View for Command<'a> {
    type V = CommandModel;

    open spec fn view(&self) -> CommandModel {
        CommandModel { name: self.name@, description: self.description@ }
    }
}

impl<'a> Command<'a> {
    pub fn new(name: &'a str, description: &'a str) -> (r: Self)
        ensures
            r@ == (CommandModel { name: name@, description: description@ }),
    {
        Self { name, description }
    }
}

/// A titled list of option declarations, for the help text.
pub struct Options<'a> {
    pub title: &'a str,
    pub definitions: &'a [Arg],
}

impl<'a> Options<'a> {
    pub fn new(title: &'a str, options: &'a [Arg]) -> (r: Self)
        ensures
            r.title@ == title@,
            r.definitions@ == options@,
    {
        Self { title, definitions: options }
    }
}

// ---------------------------------------------------------------------
// The rendered text, as a specification
// ---------------------------------------------------------------------
/// The `--long-name` text of a declaration, empty when it has none.
pub open spec fn long_text(d: ArgModel) -> Seq<char> {
    match d.long_name {
        Some(l) => "--"@ + l,
        None => Seq::empty(),
    }
}

/// The width a declaration's rendered long name claims in the first column.
pub open spec fn opt_name_width(d: ArgModel) -> int {
    match d.long_name {
        Some(l) => l.len() + LONG_NAME_PREFIX,
        None => 0,
    }
}

pub open spec fn max_opt_width(defs: Seq<ArgModel>) -> int
    decreases defs.len(),
{
    if defs.len() == 0 {
        0
    } else {
        let rest = max_opt_width(defs.drop_last());
        if opt_name_width(defs.last()) > rest {
            opt_name_width(defs.last())
        } else {
            rest
        }
    }
}

pub open spec fn max_cmd_width(cmds: Seq<CommandModel>) -> int
    decreases cmds.len(),
{
    if cmds.len() == 0 {
        0
    } else {
        let rest = max_cmd_width(cmds.drop_last());
        if cmds.last().name.len() > rest {
            cmds.last().name.len() as int
        } else {
            rest
        }
    }
}

/// The shared first-column width: the wider of the widest option name
/// field and the widest command name, plus the fixed indent and gap.
pub open spec fn spec_column_width(defs: Seq<ArgModel>, cmds: Seq<CommandModel>) -> int {
    let o = max_opt_width(defs) + INDENT_WIDTH + SHORT_NAME_WIDTH + GAP_WIDTH;
    let c = max_cmd_width(cmds) + INDENT_WIDTH + GAP_WIDTH;
    if o > c {
        o
    } else {
        c
    }
}

pub proof fn lemma_max_opt_width_ge(defs: Seq<ArgModel>, i: int)
    requires
        0 <= i < defs.len(),
    ensures
        opt_name_width(defs[i]) <= max_opt_width(defs),
        max_opt_width(defs) >= 0,
    decreases defs.len(),
{
    if defs.len() > 0 {
        if i < defs.len() - 1 {
            lemma_max_opt_width_ge(defs.drop_last(), i);
            assert(defs.drop_last()[i] == defs[i]);
        } else {
            if defs.len() > 1 {
                lemma_max_opt_width_ge(defs.drop_last(), 0);
            }
        }
    }
}

pub proof fn lemma_max_cmd_width_ge(cmds: Seq<CommandModel>, i: int)
    requires
        0 <= i < cmds.len(),
    ensures
        cmds[i].name.len() <= max_cmd_width(cmds),
        max_cmd_width(cmds) >= 0,
    decreases cmds.len(),
{
    if cmds.len() > 0 {
        if i < cmds.len() - 1 {
            lemma_max_cmd_width_ge(cmds.drop_last(), i);
            assert(cmds.drop_last()[i] == cmds[i]);
        } else {
            if cmds.len() > 1 {
                lemma_max_cmd_width_ge(cmds.drop_last(), 0);
            }
        }
    }
}

/// The `-x, ` field, or four spaces when the option has no short name.
pub open spec fn short_field(d: ArgModel) -> Seq<char> {
    match d.short_name {
        Some(c) => seq!['-', c, ',', ' '],
        None => sp_seq(SHORT_NAME_WIDTH as nat),
    }
}

/// The first description line, or empty when there is none.
pub open spec fn first_desc(d: ArgModel) -> Seq<char> {
    if d.description.len() == 0 {
        Seq::empty()
    } else {
        d.description[0]
    }
}

/// An option's first rendered line: indent, short-name field, long name
/// padded to the shared column, gap, first description line.
pub open spec fn opt_first_line(d: ArgModel, w: int) -> Seq<char> {
    sp_seq(INDENT_WIDTH as nat) + short_field(d) + long_text(d) + sp_seq(
        (w - INDENT_WIDTH - SHORT_NAME_WIDTH - GAP_WIDTH - long_text(d).len()) as nat,
    ) + sp_seq(GAP_WIDTH as nat) + first_desc(d)
}

/// The text of description lines `1..j`, each indented to the shared
/// column and terminated by a newline.
pub open spec fn opt_rest_text(desc: Seq<Seq<char>>, w: int, j: int) -> Seq<char>
    decreases j,
{
    if j <= 1 {
        Seq::empty()
    } else {
        opt_rest_text(desc, w, j - 1) + sp_seq(w as nat) + desc[j - 1] + "\n"@
    }
}

/// One option's full rendered text.
pub open spec fn opt_text(d: ArgModel, w: int) -> Seq<char> {
    opt_first_line(d, w) + "\n"@ + opt_rest_text(d.description, w, d.description.len() as int)
}

/// The whole options section body.
pub open spec fn options_block(defs: Seq<ArgModel>, w: int) -> Seq<char>
    decreases defs.len(),
{
    if defs.len() == 0 {
        Seq::empty()
    } else {
        options_block(defs.drop_last(), w) + opt_text(defs.last(), w)
    }
}

/// One command's rendered line: indent, name padded to the shared column,
/// description.
pub open spec fn cmd_line(c: CommandModel, w: int) -> Seq<char> {
    sp_seq(INDENT_WIDTH as nat) + c.name + sp_seq((w - c.name.len() - INDENT_WIDTH) as nat)
        + c.description
}

/// The whole commands section body.
pub open spec fn commands_block(cmds: Seq<CommandModel>, w: int) -> Seq<char>
    decreases cmds.len(),
{
    if cmds.len() == 0 {
        Seq::empty()
    } else {
        commands_block(cmds.drop_last(), w) + cmd_line(cmds.last(), w) + "\n"@
    }
}

/// The complete help text: usage, optional additional info, a titled
/// options section and a commands section, each omitted when empty.
pub open spec fn spec_render(
    usage: Seq<char>,
    info: Option<Seq<char>>,
    title: Seq<char>,
    defs: Seq<ArgModel>,
    cmds: Seq<CommandModel>,
) -> Seq<char> {
    let w = spec_column_width(defs, cmds);
    let head = usage + (match info {
        Some(i) => "\n"@ + i,
        None => Seq::empty(),
    });
    let with_options = if defs.len() > 0 {
        head + "\n\n"@ + title + ":\n"@ + options_block(defs, w)
    } else {
        head
    };
    if cmds.len() > 0 {
        with_options + "\nCommands:\n"@ + commands_block(cmds, w)
    } else {
        with_options
    }
}

// ---------------------------------------------------------------------
// Executable rendering
// ---------------------------------------------------------------------
/// Computes the shared first-column width over declarations and commands.
pub fn calculate_first_column_width(options: &[Arg], commands: &[Command]) -> (r: usize)
    requires
        spec_column_width(models_of(options@), models_of(commands@)) <= usize::MAX,
    ensures
        r == spec_column_width(models_of(options@), models_of(commands@)),
        r >= INDENT_WIDTH + SHORT_NAME_WIDTH + GAP_WIDTH,
{
    let ghost defs = models_of(options@);
    let ghost cmds = models_of(commands@);
    let mut max_opt: usize = 0;
    let mut i: usize = 0;
    while i < options.len()
        invariant
            i <= options.len(),
            defs == models_of(options@),
            spec_column_width(defs, cmds) <= usize::MAX,
            max_opt == max_opt_width(defs.take(i as int)),
            max_opt <= usize::MAX - INDENT_WIDTH - SHORT_NAME_WIDTH - GAP_WIDTH,
        decreases options.len() - i,
    {
        proof {
            assert(defs.take(i + 1).drop_last() =~= defs.take(i as int));
            assert(defs.take(i + 1).last() == defs[i as int]);
            lemma_max_opt_width_ge_prefix(defs, i as int);
        }
        let width = match &options[i].long_name {
            Some(l) => l.as_str().unicode_len() + LONG_NAME_PREFIX,
            None => 0,
        };
        if width > max_opt {
            max_opt = width;
        }
        i += 1;
    }
    proof {
        assert(defs.take(options.len() as int) =~= defs);
    }
    let mut max_cmd: usize = 0;
    let mut j: usize = 0;
    while j < commands.len()
        invariant
            j <= commands.len(),
            cmds == models_of(commands@),
            spec_column_width(defs, cmds) <= usize::MAX,
            max_cmd == max_cmd_width(cmds.take(j as int)),
            max_cmd <= usize::MAX - INDENT_WIDTH - GAP_WIDTH,
        decreases commands.len() - j,
    {
        proof {
            assert(cmds.take(j + 1).drop_last() =~= cmds.take(j as int));
            assert(cmds.take(j + 1).last() == cmds[j as int]);
            if cmds[j as int].name.len() > max_cmd_width(cmds.take(j as int)) {
                lemma_max_cmd_width_ge_prefix(cmds, j as int);
            }
        }
        let width = commands[j].name.unicode_len();
        if width > max_cmd {
            max_cmd = width;
        }
        j += 1;
    }
    proof {
        assert(cmds.take(commands.len() as int) =~= cmds);
    }
    let max_option_width = max_opt + INDENT_WIDTH + SHORT_NAME_WIDTH + GAP_WIDTH;
    let max_command_width = max_cmd + INDENT_WIDTH + GAP_WIDTH;
    if max_option_width > max_command_width {
        max_option_width
    } else {
        max_command_width
    }
}

proof fn lemma_max_opt_width_ge_prefix(defs: Seq<ArgModel>, i: int)
    requires
        0 <= i < defs.len(),
    ensures
        opt_name_width(defs[i]) + INDENT_WIDTH + SHORT_NAME_WIDTH + GAP_WIDTH
            <= spec_column_width_any(defs),
{
    lemma_max_opt_width_ge(defs, i);
}

/// The option part of the column width, before comparison with commands.
pub open spec fn spec_column_width_any(defs: Seq<ArgModel>) -> int {
    max_opt_width(defs) + INDENT_WIDTH + SHORT_NAME_WIDTH + GAP_WIDTH
}

proof fn lemma_max_cmd_width_ge_prefix(cmds: Seq<CommandModel>, j: int)
    requires
        0 <= j < cmds.len(),
    ensures
        cmds[j].name.len() + INDENT_WIDTH + GAP_WIDTH <= max_cmd_width(cmds) + INDENT_WIDTH
            + GAP_WIDTH,
{
    lemma_max_cmd_width_ge(cmds, j);
}

/// Renders the options section body.
#[verifier::rlimit(100)]
fn build_options(options: &[Arg], column_width: usize) -> (r: String)
    requires
        column_width >= INDENT_WIDTH + SHORT_NAME_WIDTH + GAP_WIDTH,
        forall|i: int|
            0 <= i < options@.len() ==> long_text(#[trigger] models_of(options@)[i]).len()
                + INDENT_WIDTH + SHORT_NAME_WIDTH + GAP_WIDTH <= column_width,
    ensures
        r@ == options_block(models_of(options@), column_width as int),
{
    let ghost defs = models_of(options@);
    let long_name_width = column_width - INDENT_WIDTH - SHORT_NAME_WIDTH - GAP_WIDTH;
    let mut result = String::new();
    let mut i: usize = 0;
    while i < options.len()
        invariant
            i <= options.len(),
            defs == models_of(options@),
            column_width >= INDENT_WIDTH + SHORT_NAME_WIDTH + GAP_WIDTH,
            long_name_width == column_width - INDENT_WIDTH - SHORT_NAME_WIDTH - GAP_WIDTH,
            forall|k: int|
                0 <= k < defs.len() ==> long_text(#[trigger] defs[k]).len() <= long_name_width,
            result@ == options_block(defs.take(i as int), column_width as int),
        decreases options.len() - i,
    {
        let option = &options[i];
        let ghost d = defs[i as int];
        let short_name = match option.short_name {
            Some(name) => {
                let mut t = String::from_str("-");
                t.push(name);
                t.append(", ");
                proof {
                    reveal_strlit("-");
                    reveal_strlit(", ");
                    assert(t@ =~= short_field(d));
                }
                t
            },
            None => {
                let t = text::spaces(SHORT_NAME_WIDTH);
                t
            },
        };
        let mut long_name = match &option.long_name {
            Some(name) => {
                let mut t = String::from_str("--");
                t.append(name.as_str());
                proof {
                    assert(t@ == long_text(d));
                }
                t
            },
            None => String::new(),
        };
        proof {
            assert(long_name@ == long_text(d));
        }
        let gap_to_fill = long_name_width - long_name.as_str().unicode_len();
        let pad = text::spaces(gap_to_fill);
        long_name.append(pad.as_str());
        let mut line = text::spaces(INDENT_WIDTH);
        line.append(short_name.as_str());
        line.append(long_name.as_str());
        let gap = text::spaces(GAP_WIDTH);
        line.append(gap.as_str());
        if option.description.len() > 0 {
            line.append(option.description[0].as_str());
        }
        line.append("\n");
        proof {
            assert(line@ =~= opt_first_line(d, column_width as int) + "\n"@);
        }
        result.append(line.as_str());
        let mut j: usize = 1;
        while j < option.description.len()
            invariant
                1 <= j,
                j <= option.description.len() || j == 1,
                d == defs[i as int],
                i < options@.len(),
                defs == models_of(options@),
                option@ == d,
                column_width >= INDENT_WIDTH + SHORT_NAME_WIDTH + GAP_WIDTH,
                result@ == options_block(defs.take(i as int), column_width as int)
                    + opt_first_line(d, column_width as int) + "\n"@ + opt_rest_text(
                    d.description,
                    column_width as int,
                    j as int,
                ),
            decreases option.description.len() - j,
        {
            let mut rest_line = text::spaces(column_width);
            rest_line.append(option.description[j].as_str());
            rest_line.append("\n");
            result.append(rest_line.as_str());
            proof {
                assert(d.description[j as int] == option.description@[j as int]@);
            }
            j += 1;
        }
        proof {
            assert(j == if option.description.len() > 1 {
                option.description.len() as int
            } else {
                1
            });
            if option.description@.len() <= 1 {
                assert(opt_rest_text(d.description, column_width as int, d.description.len() as int)
                    == opt_rest_text(d.description, column_width as int, 1));
            }
            assert(result@ == options_block(defs.take(i as int), column_width as int) + opt_text(
                d,
                column_width as int,
            ));
            assert(defs.take(i + 1).drop_last() =~= defs.take(i as int));
            assert(defs.take(i + 1).last() == d);
            assert(result@ == options_block(defs.take(i + 1), column_width as int));
        }
        i += 1;
    }
    proof {
        assert(defs.take(options.len() as int) =~= defs);
    }
    result
}

/// Renders the commands section body.
#[verifier::rlimit(50)]
fn build_commands(commands: &[Command], column_width: usize) -> (r: String)
    requires
        forall|i: int|
            0 <= i < commands@.len() ==> (#[trigger] models_of(commands@)[i]).name.len()
                + INDENT_WIDTH <= column_width,
    ensures
        r@ == commands_block(models_of(commands@), column_width as int),
{
    let ghost cmds = models_of(commands@);
    let mut result = String::new();
    let mut i: usize = 0;
    while i < commands.len()
        invariant
            i <= commands.len(),
            cmds == models_of(commands@),
            forall|k: int|
                0 <= k < cmds.len() ==> (#[trigger] cmds[k]).name.len() + INDENT_WIDTH
                    <= column_width,
            result@ == commands_block(cmds.take(i as int), column_width as int),
        decreases commands.len() - i,
    {
        let command = &commands[i];
        let ghost c = cmds[i as int];
        let name_len = command.name.unicode_len();
        let gap_to_fill = column_width - name_len - INDENT_WIDTH;
        let mut line = text::spaces(INDENT_WIDTH);
        line.append(command.name);
        let pad = text::spaces(gap_to_fill);
        line.append(pad.as_str());
        line.append(command.description);
        line.append("\n");
        proof {
            assert(line@ =~= cmd_line(c, column_width as int) + "\n"@);
            assert(cmds.take(i + 1).drop_last() =~= cmds.take(i as int));
            assert(cmds.take(i + 1).last() == c);
        }
        result.append(line.as_str());
        i += 1;
    }
    proof {
        assert(cmds.take(commands.len() as int) =~= cmds);
    }
    result
}

/// Builds the help text for a usage line, optional additional info, a
/// titled option list and a command list. The rendered text is exactly
/// [`spec_render`], and no line exceeds 80 columns.
pub fn build(usage: &str, additional_info: Option<&str>, options: &Options, commands: &[Command])
    -> (r: String)
    requires
        spec_column_width(models_of(options.definitions@), models_of(commands@)) <= usize::MAX,
        max_line_len(
            spec_render(
                usage@,
                match additional_info {
                    Some(i) => Some(i@),
                    None => None,
                },
                options.title@,
                models_of(options.definitions@),
                models_of(commands@),
            ),
        ) <= 80,
    ensures
        r@ == spec_render(
            usage@,
            match additional_info {
                Some(i) => Some(i@),
                None => None,
            },
            options.title@,
            models_of(options.definitions@),
            models_of(commands@),
        ),
        max_line_len(r@) <= 80,
{
    let ghost defs = models_of(options.definitions@);
    let ghost cmds = models_of(commands@);
    let mut help = String::from_str(usage);
    if let Some(info) = additional_info {
        help.append("\n");
        help.append(info);
    }
    let definitions = options.definitions;
    let first_column_width = calculate_first_column_width(definitions, commands);
    proof {
        assert forall|i: int| 0 <= i < defs.len() implies long_text(#[trigger] defs[i]).len()
            + INDENT_WIDTH + SHORT_NAME_WIDTH + GAP_WIDTH <= first_column_width by {
            reveal_strlit("--");
            assert(long_text(defs[i]).len() == opt_name_width(defs[i]));
            lemma_max_opt_width_ge(defs, i);
        }
        assert forall|i: int| 0 <= i < cmds.len() implies (#[trigger] cmds[i]).name.len()
            + INDENT_WIDTH <= first_column_width by {
            lemma_max_cmd_width_ge(cmds, i);
        }
    }
    if definitions.len() > 0 {
        help.append("\n\n");
        help.append(options.title);
        help.append(":\n");
        let block = build_options(definitions, first_column_width);
        help.append(block.as_str());
    }
    if commands.len() > 0 {
        help.append("\nCommands:\n");
        let block = build_commands(commands, first_column_width);
        help.append(block.as_str());
    }
    proof {
        assert(help@ =~= spec_render(
            usage@,
            match additional_info {
                Some(i) => Some(i@),
                None => None,
            },
            options.title@,
            defs,
            cmds,
        ));
    }
    help
}

/// Law: the rendered help is column-aligned. In every declaration's first
/// rendered line, the long name starts right after the fixed indent and
/// short-name field — the same offset for every declaration — and the
/// first description line starts exactly at the shared column width, so
/// that all description columns coincide. The line is as long as the
/// shared column plus its description text; together with [`build`]'s
/// 80-column bound this pins the whole layout.
pub proof fn lemma_render_alignment(defs: Seq<ArgModel>, cmds: Seq<CommandModel>, i: int)
    requires
        0 <= i < defs.len(),
    ensures
        ({
            let w = spec_column_width(defs, cmds);
            let line = opt_first_line(defs[i], w);
            &&& w >= INDENT_WIDTH + SHORT_NAME_WIDTH + GAP_WIDTH
            &&& long_text(defs[i]).len() + INDENT_WIDTH + SHORT_NAME_WIDTH + GAP_WIDTH <= w
            &&& line.len() == w + first_desc(defs[i]).len()
            &&& line.subrange(
                (INDENT_WIDTH + SHORT_NAME_WIDTH) as int,
                INDENT_WIDTH + SHORT_NAME_WIDTH + long_text(defs[i]).len(),
            ) == long_text(defs[i])
            &&& line.subrange(w, line.len() as int) == first_desc(defs[i])
        }),
{
    let w = spec_column_width(defs, cmds);
    lemma_max_opt_width_ge(defs, i);
    reveal_strlit("--");
    let d = defs[i];
    assert(long_text(d).len() == opt_name_width(d));
    assert(short_field(d).len() == SHORT_NAME_WIDTH);
    let line = opt_first_line(d, w);
    assert(line.len() == w + first_desc(d).len());
    assert(line.subrange(
        (INDENT_WIDTH + SHORT_NAME_WIDTH) as int,
        INDENT_WIDTH + SHORT_NAME_WIDTH + long_text(d).len(),
    ) =~= long_text(d));
    assert(line.subrange(w, line.len() as int) =~= first_desc(d));
}

// ---------------------------------------------------------------------
// Line lengths
// ---------------------------------------------------------------------
/// The length of the longest line, scanning with the current line's
/// length accumulated in `cur`.
pub open spec fn mll_acc(s: Seq<char>, cur: int) -> int
    decreases s.len(),
{
    if s.len() == 0 {
        cur
    } else if s[0] == '\n' {
        let rest = mll_acc(s.drop_first(), 0);
        if cur > rest {
            cur
        } else {
            rest
        }
    } else {
        mll_acc(s.drop_first(), cur + 1)
    }
}

/// The length of the longest newline-separated line of the text.
pub open spec fn max_line_len(s: Seq<char>) -> int {
    mll_acc(s, 0)
}

pub proof fn lemma_mll_acc_no_nl(s: Seq<char>, cur: int)
    requires
        forall|j: int| 0 <= j < s.len() ==> s[j] != '\n',
    ensures
        mll_acc(s, cur) == cur + s.len(),
    decreases s.len(),
{
    if s.len() > 0 {
        let tail = s.drop_first();
        assert forall|j: int| 0 <= j < tail.len() implies tail[j] != '\n' by {
            assert(tail[j] == s[j + 1]);
        }
        lemma_mll_acc_no_nl(tail, cur + 1);
    }
}

/// Splitting at a newline: the longest line of `s1 + "\n" + s2` is the
/// longer of the longest lines of the parts.
pub proof fn lemma_mll_split(s1: Seq<char>, s2: Seq<char>, cur: int)
    ensures
        mll_acc(s1 + seq!['\n'] + s2, cur) == ({
            let a = mll_acc(s1, cur);
            let b = mll_acc(s2, 0);
            if a > b {
                a
            } else {
                b
            }
        }),
    decreases s1.len(),
{
    let whole = s1 + seq!['\n'] + s2;
    if s1.len() == 0 {
        assert(whole =~= seq!['\n'] + s2);
        assert(whole[0] == '\n');
        assert(whole.drop_first() =~= s2);
    } else {
        let tail = s1.drop_first();
        assert(whole[0] == s1[0]);
        assert(whole.drop_first() =~= tail + seq!['\n'] + s2);
        if s1[0] == '\n' {
            lemma_mll_split(tail, s2, 0);
        } else {
            lemma_mll_split(tail, s2, cur + 1);
        }
    }
}

/// The longest line of `a + b`, when `a` ends with a newline or is empty,
/// is the longer of the longest lines of `a` and of `b`.
pub proof fn lemma_mll_concat(a: Seq<char>, b: Seq<char>)
    requires
        a.len() == 0 || a.last() == '\n',
    ensures
        max_line_len(a + b) == ({
            let x = max_line_len(a);
            let y = max_line_len(b);
            if x > y {
                x
            } else {
                y
            }
        }),
{
    if a.len() == 0 {
        assert(a + b =~= b);
        assert(max_line_len(a) == 0);
        lemma_mll_nonneg(b, 0);
    } else {
        let head = a.drop_last();
        assert(a + b =~= head + seq!['\n'] + b);
        assert(a =~= head + seq!['\n'] + Seq::<char>::empty());
        lemma_mll_split(head, b, 0);
        lemma_mll_split(head, Seq::<char>::empty(), 0);
        lemma_mll_nonneg(b, 0);
        lemma_mll_nonneg(head, 0);
    }
}

pub proof fn lemma_mll_nonneg(s: Seq<char>, cur: int)
    requires
        cur >= 0,
    ensures
        mll_acc(s, cur) >= cur,
    decreases s.len(),
{
    if s.len() > 0 {
        if s[0] == '\n' {
            lemma_mll_nonneg(s.drop_first(), 0);
        } else {
            lemma_mll_nonneg(s.drop_first(), cur + 1);
        }
    }
}

/// Computes the length of the longest line of a text.
pub fn longest_line_length(text: &str) -> (r: usize)
    ensures
        r == max_line_len(text@),
    decreases text@.len(),
{
    let len = text.unicode_len();
    let mut nl_index: Option<usize> = None;
    let mut i: usize = 0;
    while i < len
        invariant_except_break
            nl_index is None,
        invariant
            i <= len,
            len == text@.len(),
            forall|j: int| 0 <= j < i ==> text@[j] != '\n',
        ensures
            match nl_index {
                Some(k) => 0 <= k < len && text@[k as int] == '\n' && forall|j: int|
                    0 <= j < k ==> text@[j] != '\n',
                None => forall|j: int| 0 <= j < len ==> text@[j] != '\n',
            },
        decreases len - i,
    {
        if text.get_char(i) == '\n' {
            nl_index = Some(i);
            break ;
        }
        i += 1;
    }
    match nl_index {
        Some(k) => {
            let rest = text.substring_char(k + 1, len);
            let m = longest_line_length(rest);
            proof {
                assert(text@ =~= text@.take(k as int) + seq!['\n'] + text@.subrange(
                    k + 1,
                    len as int,
                ));
                lemma_mll_split(text@.take(k as int), text@.subrange(k + 1, len as int), 0);
                lemma_mll_acc_no_nl(text@.take(k as int), 0);
            }
            if k > m {
                k
            } else {
                m
            }
        },
        None => {
            proof {
                lemma_mll_acc_no_nl(text@, 0);
            }
            len
        },
    }
}

// ---------------------------------------------------------------------
// Establishing the 80-column budget
// ---------------------------------------------------------------------
/// The text contains no newline.
pub open spec fn no_nl(s: Seq<char>) -> bool {
    forall|j: int| 0 <= j < s.len() ==> s[j] != '\n'
}

/// The text is empty or ends with a newline.
pub open spec fn ends_nl(s: Seq<char>) -> bool {
    s.len() == 0 || s.last() == '\n'
}

/// What each declaration must satisfy for the rendered help to stay
/// within 80 columns: names without newlines, and every description line
/// short enough after the shared column.
pub open spec fn opt_fits(d: ArgModel, w: int) -> bool {
    &&& (d.short_name matches Some(c) ==> c != '\n')
    &&& no_nl(long_text(d))
    &&& w + max_line_len(first_desc(d)) <= 80
    &&& forall|j: int|
        1 <= j < d.description.len() ==> w + max_line_len(#[trigger] d.description[j]) <= 80
}

/// What each command entry must satisfy for its line to fit.
pub open spec fn cmd_fits(c: CommandModel, w: int) -> bool {
    no_nl(c.name) && w + max_line_len(c.description) <= 80
}

proof fn lemma_mll_acc_prefix(a: Seq<char>, b: Seq<char>, cur: int)
    requires
        no_nl(a),
    ensures
        mll_acc(a + b, cur) == mll_acc(b, cur + a.len()),
    decreases a.len(),
{
    if a.len() == 0 {
        assert(a + b =~= b);
    } else {
        let tail = a.drop_first();
        assert(forall|j: int| 0 <= j < tail.len() ==> tail[j] == a[j + 1]);
        assert((a + b)[0] == a[0]);
        assert((a + b).drop_first() =~= tail + b);
        lemma_mll_acc_prefix(tail, b, cur + 1);
    }
}

proof fn lemma_mll_acc_bounds(b: Seq<char>, c1: int, c2: int)
    requires
        0 <= c1 <= c2,
    ensures
        mll_acc(b, c1) <= mll_acc(b, c2) <= mll_acc(b, c1) + (c2 - c1),
    decreases b.len(),
{
    if b.len() > 0 {
        if b[0] == '\n' {
            lemma_mll_nonneg(b.drop_first(), 0);
        } else {
            lemma_mll_acc_bounds(b.drop_first(), c1 + 1, c2 + 1);
        }
    }
}

proof fn lemma_sp_no_nl(n: nat)
    ensures
        no_nl(sp_seq(n)),
{
}

/// One indented line with its terminating newline fits, given the
/// description's own longest line leaves room for the column.
proof fn lemma_unit_line_bound(w: int, body: Seq<char>)
    requires
        0 <= w,
        w + max_line_len(body) <= 80,
    ensures
        max_line_len(sp_seq(w as nat) + body + "\n"@) <= 80,
        ends_nl(sp_seq(w as nat) + body + "\n"@),
{
    reveal_strlit("\n");
    let unit = sp_seq(w as nat) + body + "\n"@;
    lemma_sp_no_nl(w as nat);
    assert(body + "\n"@ =~= body + seq!['\n'] + Seq::<char>::empty());
    lemma_mll_split(body, Seq::<char>::empty(), 0);
    lemma_mll_nonneg(body, 0);
    assert(max_line_len(body + "\n"@) == max_line_len(body));
    assert(unit =~= sp_seq(w as nat) + (body + "\n"@));
    lemma_mll_acc_prefix(sp_seq(w as nat), body + "\n"@, 0);
    lemma_mll_acc_bounds(body + "\n"@, 0, w);
    assert(unit.last() == '\n');
}

proof fn lemma_opt_rest_bound(desc: Seq<Seq<char>>, w: int, j: int)
    requires
        0 <= w,
        j <= desc.len(),
        forall|k: int| 1 <= k < desc.len() ==> w + max_line_len(#[trigger] desc[k]) <= 80,
    ensures
        max_line_len(opt_rest_text(desc, w, j)) <= 80,
        ends_nl(opt_rest_text(desc, w, j)),
    decreases j,
{
    if j <= 1 {
    } else {
        lemma_opt_rest_bound(desc, w, j - 1);
        let unit = sp_seq(w as nat) + desc[j - 1] + "\n"@;
        lemma_unit_line_bound(w, desc[j - 1]);
        assert(opt_rest_text(desc, w, j) =~= opt_rest_text(desc, w, j - 1) + unit);
        lemma_mll_concat(opt_rest_text(desc, w, j - 1), unit);
        reveal_strlit("\n");
        assert(unit.len() > 0 && unit.last() == '\n');
        assert(opt_rest_text(desc, w, j).last() == '\n');
    }
}

proof fn lemma_opt_text_bound(d: ArgModel, w: int)
    requires
        opt_fits(d, w),
        INDENT_WIDTH + SHORT_NAME_WIDTH + GAP_WIDTH <= w,
        long_text(d).len() + INDENT_WIDTH + SHORT_NAME_WIDTH + GAP_WIDTH <= w,
    ensures
        max_line_len(opt_text(d, w)) <= 80,
        ends_nl(opt_text(d, w)),
{
    reveal_strlit("\n");
    let head = sp_seq(INDENT_WIDTH as nat) + short_field(d) + long_text(d) + sp_seq(
        (w - INDENT_WIDTH - SHORT_NAME_WIDTH - GAP_WIDTH - long_text(d).len()) as nat,
    ) + sp_seq(GAP_WIDTH as nat);
    assert(no_nl(head)) by {
        lemma_sp_no_nl(INDENT_WIDTH as nat);
        lemma_sp_no_nl(GAP_WIDTH as nat);
        lemma_sp_no_nl((w - INDENT_WIDTH - SHORT_NAME_WIDTH - GAP_WIDTH - long_text(
            d,
        ).len()) as nat);
        assert(no_nl(short_field(d))) by {
            match d.short_name {
                Some(c) => {
                    assert(short_field(d) == seq!['-', c, ',', ' ']);
                },
                None => {
                    lemma_sp_no_nl(SHORT_NAME_WIDTH as nat);
                },
            }
        }
    }
    assert(head.len() == w);
    let tail_text = first_desc(d) + "\n"@ + opt_rest_text(d.description, w, d.description.len() as int);
    assert(opt_text(d, w) =~= head + tail_text);
    lemma_mll_acc_prefix(head, tail_text, 0);
    let rest = opt_rest_text(d.description, w, d.description.len() as int);
    assert(tail_text =~= first_desc(d) + seq!['\n'] + rest);
    lemma_mll_split(first_desc(d), rest, w);
    lemma_mll_acc_bounds(first_desc(d), 0, w);
    lemma_opt_rest_bound(d.description, w, d.description.len() as int);
    lemma_mll_nonneg(rest, 0);
    lemma_mll_nonneg(first_desc(d), 0);
    assert(max_line_len(opt_text(d, w)) <= 80);
    if rest.len() == 0 {
        assert(opt_text(d, w).last() == '\n');
    } else {
        assert(opt_text(d, w).last() == rest.last());
    }
}

proof fn lemma_options_block_bound(defs: Seq<ArgModel>, all: Seq<ArgModel>, w: int)
    requires
        INDENT_WIDTH + SHORT_NAME_WIDTH + GAP_WIDTH <= w,
        forall|k: int| 0 <= k < defs.len() ==> opt_fits(#[trigger] defs[k], w),
        forall|k: int|
            0 <= k < defs.len() ==> long_text(#[trigger] defs[k]).len() + INDENT_WIDTH
                + SHORT_NAME_WIDTH + GAP_WIDTH <= w,
    ensures
        max_line_len(options_block(defs, w)) <= 80,
        ends_nl(options_block(defs, w)),
    decreases defs.len(),
{
    if defs.len() > 0 {
        let head = defs.drop_last();
        assert(forall|k: int| 0 <= k < head.len() ==> head[k] == defs[k]);
        lemma_options_block_bound(head, all, w);
        lemma_opt_text_bound(defs.last(), w);
        lemma_mll_concat(options_block(head, w), opt_text(defs.last(), w));
        assert(opt_text(defs.last(), w).len() > 0) by {
            reveal_strlit("\n");
        }
        assert(options_block(defs, w).last() == opt_text(defs.last(), w).last());
    }
}

proof fn lemma_commands_block_bound(cmds: Seq<CommandModel>, w: int)
    requires
        INDENT_WIDTH + GAP_WIDTH <= w,
        forall|k: int| 0 <= k < cmds.len() ==> cmd_fits(#[trigger] cmds[k], w),
        forall|k: int|
            0 <= k < cmds.len() ==> (#[trigger] cmds[k]).name.len() + INDENT_WIDTH + GAP_WIDTH
                <= w,
    ensures
        max_line_len(commands_block(cmds, w)) <= 80,
        ends_nl(commands_block(cmds, w)),
    decreases cmds.len(),
{
    reveal_strlit("\n");
    if cmds.len() > 0 {
        let head = cmds.drop_last();
        assert(forall|k: int| 0 <= k < head.len() ==> head[k] == cmds[k]);
        lemma_commands_block_bound(head, w);
        let c = cmds.last();
        let unit = cmd_line(c, w) + "\n"@;
        assert(max_line_len(unit) <= 80 && ends_nl(unit)) by {
            let pre = sp_seq(INDENT_WIDTH as nat) + c.name + sp_seq(
                (w - c.name.len() - INDENT_WIDTH) as nat,
            );
            assert(no_nl(pre)) by {
                lemma_sp_no_nl(INDENT_WIDTH as nat);
                lemma_sp_no_nl((w - c.name.len() - INDENT_WIDTH) as nat);
            }
            assert(pre.len() == w);
            assert(unit =~= pre + (c.description + "\n"@));
            lemma_mll_acc_prefix(pre, c.description + "\n"@, 0);
            assert(c.description + "\n"@ =~= c.description + seq!['\n'] + Seq::<char>::empty());
            lemma_mll_split(c.description, Seq::<char>::empty(), 0);
            lemma_mll_nonneg(c.description, 0);
            lemma_mll_acc_bounds(c.description + "\n"@, 0, w);
            assert(unit.last() == '\n');
        }
        assert(commands_block(cmds, w) =~= commands_block(head, w) + unit);
        lemma_mll_concat(commands_block(head, w), unit);
        assert(commands_block(cmds, w).last() == '\n');
    }
}

proof fn lemma_commands_header()
    ensures
        "\nCommands:\n"@ == seq!['\n'] + "Commands:"@ + seq!['\n'],
{
    reveal_strlit("\nCommands:\n");
    reveal_strlit("Commands:");
    assert("\nCommands:\n"@ =~= seq!['\n'] + "Commands:"@ + seq!['\n']);
}

/// When the usage and info lines fit, the title is short, and every
/// declaration's and command's texts leave room for the shared column,
/// the whole rendered help stays within 80 columns.
pub proof fn lemma_render_fits(
    usage: Seq<char>,
    info: Option<Seq<char>>,
    title: Seq<char>,
    defs: Seq<ArgModel>,
    cmds: Seq<CommandModel>,
)
    requires
        max_line_len(usage) <= 80,
        (info matches Some(i) ==> max_line_len(i) <= 80),
        no_nl(title),
        title.len() + 1 <= 80,
        forall|k: int|
            0 <= k < defs.len() ==> opt_fits(#[trigger] defs[k], spec_column_width(defs, cmds)),
        forall|k: int|
            0 <= k < cmds.len() ==> cmd_fits(#[trigger] cmds[k], spec_column_width(defs, cmds)),
    ensures
        max_line_len(spec_render(usage, info, title, defs, cmds)) <= 80,
{
    reveal_strlit("\n");
    reveal_strlit("\n\n");
    reveal_strlit(":\n");
    reveal_strlit("\nCommands:\n");
    reveal_strlit("--");
    let w = spec_column_width(defs, cmds);
    assert forall|k: int| 0 <= k < defs.len() implies long_text(#[trigger] defs[k]).len()
        + INDENT_WIDTH + SHORT_NAME_WIDTH + GAP_WIDTH <= w by {
        assert(long_text(defs[k]).len() == opt_name_width(defs[k]));
        lemma_max_opt_width_ge(defs, k);
    }
    assert forall|k: int| 0 <= k < cmds.len() implies (#[trigger] cmds[k]).name.len()
        + INDENT_WIDTH + GAP_WIDTH <= w by {
        lemma_max_cmd_width_ge(cmds, k);
    }
    if defs.len() > 0 {
        lemma_max_opt_width_ge(defs, 0);
    }
    if cmds.len() > 0 {
        lemma_max_cmd_width_ge(cmds, 0);
    }
    let head = usage + (match info {
        Some(i) => "\n"@ + i,
        None => Seq::<char>::empty(),
    });
    assert(max_line_len(head) <= 80) by {
        match info {
            Some(i) => {
                assert(head =~= usage + seq!['\n'] + i);
                lemma_mll_split(usage, i, 0);
            },
            None => {
                assert(head =~= usage);
            },
        }
    }
    let with_options = if defs.len() > 0 {
        head + "\n\n"@ + title + ":\n"@ + options_block(defs, w)
    } else {
        head
    };
    assert(max_line_len(with_options) <= 80) by {
        if defs.len() > 0 {
            lemma_options_block_bound(defs, defs, w);
            let title_part = title + seq![':', '\n'] + options_block(defs, w);
            assert(max_line_len(title_part) <= 80) by {
                assert(title_part =~= (title + seq![':']) + seq!['\n'] + options_block(defs, w));
                lemma_mll_split(title + seq![':'], options_block(defs, w), 0);
                assert(no_nl(title + seq![':']));
                lemma_mll_acc_no_nl(title + seq![':'], 0);
            }
            assert(with_options =~= head + seq!['\n'] + (Seq::<char>::empty() + seq!['\n']
                + title_part));
            lemma_mll_split(head, Seq::<char>::empty() + seq!['\n'] + title_part, 0);
            assert(Seq::<char>::empty() + seq!['\n'] + title_part =~= Seq::<char>::empty()
                + seq!['\n'] + title_part);
            lemma_mll_split(Seq::<char>::empty(), title_part, 0);
        }
    }
    if cmds.len() > 0 {
        lemma_commands_block_bound(cmds, w);
        let cmds_part = "Commands:"@ + seq!['\n'] + commands_block(cmds, w);
        assert(max_line_len(cmds_part) <= 80) by {
            reveal_strlit("Commands:");
            lemma_mll_split("Commands:"@, commands_block(cmds, w), 0);
            assert(no_nl("Commands:"@));
            lemma_mll_acc_no_nl("Commands:"@, 0);
        }
        let whole = with_options + "\nCommands:\n"@ + commands_block(cmds, w);
        lemma_commands_header();
        assert(whole =~= with_options + seq!['\n'] + cmds_part);
        lemma_mll_split(with_options, cmds_part, 0);
        assert(spec_render(usage, info, title, defs, cmds) == whole);
    } else {
        assert(spec_render(usage, info, title, defs, cmds) == with_options);
    }
}

} // verus!
