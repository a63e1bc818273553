//! The application's identity and fixed texts: name, usage line, help
//! prompt, and the full general help text with the command list.

use crate::args::definition::ArgModel;
use crate::args::help;
use crate::args::models_of;
use crate::config;
use vstd::prelude::*;
use vstd::string::StringExecFns;

verus! {

/// The program name used in usage and error messages.
pub const APP_NAME: &'static str = "practicestuff";

pub open spec fn spec_usage() -> Seq<char> {
    "Usage: practicestuff [option]... command [command_option]..."@
}

pub open spec fn spec_help_prompt() -> Seq<char> {
    "Try 'practicestuff --help' for more information."@
}

pub open spec fn spec_additional_info() -> Seq<char> {
    "To display options and details for a specific command,"@ + "\n"@
        + "run 'practicestuff <command> -h'."@
}

/// The command list shown in the general help.
pub open spec fn spec_commands() -> Seq<help::CommandModel> {
    seq![
        help::CommandModel {
            name: "powers"@,
            description: "Practise powers (configurable base)."@,
        },
        help::CommandModel {
            name: "times_table"@,
            description: "Practise multiplication table."@,
        },
        help::CommandModel {
            name: "doomsday"@,
            description: "Practise the Doomsday algorithm."@,
        },
    ]
}

/// The application shell. Its game loop lives with the caller; here are
/// the texts every part of the program shares.
pub struct Application;

impl Application {
    pub fn usage() -> (r: String)
        ensures
            r@ == spec_usage(),
    {
        String::from_str("Usage: practicestuff [option]... command [command_option]...")
    }

    pub fn help_prompt() -> (r: String)
        ensures
            r@ == spec_help_prompt(),
    {
        String::from_str("Try 'practicestuff --help' for more information.")
    }

    pub fn additional_info() -> (r: String)
        ensures
            r@ == spec_additional_info(),
    {
        let mut s = String::from_str("To display options and details for a specific command,");
        s.append("\n");
        s.append("run 'practicestuff <command> -h'.");
        s
    }

    /// The application's general help text: usage, pointers, the general
    /// options and the command list, column-aligned within 80 columns.
    pub fn help_text() -> (r: String)
        ensures
            r@ == help::spec_render(
                spec_usage(),
                Some(spec_additional_info()),
                "General options"@,
                config::general_arg_definitions(),
                spec_commands(),
            ),
            help::max_line_len(r@) <= 80,
    {
        let definitions = config::GeneralOptions::build_arg_definitions();
        let usage = Self::usage();
        let info = Self::additional_info();
        let options = help::Options::new("General options", definitions.as_slice());
        let mut commands: Vec<help::Command> = Vec::new();
        commands.push(help::Command::new("powers", "Practise powers (configurable base)."));
        commands.push(help::Command::new("times_table", "Practise multiplication table."));
        commands.push(help::Command::new("doomsday", "Practise the Doomsday algorithm."));
        proof {
            assert(models_of(commands@) =~= spec_commands());
            lemma_general_help_fits();
        }
        help::build(usage.as_str(), Some(info.as_str()), &options, commands.as_slice())
    }
}

/// The general help text stays within 80 columns: the shared column is 34
/// and every description line and command entry is short enough.
proof fn lemma_general_help_fits()
    ensures
        help::spec_column_width(config::general_arg_definitions(), spec_commands()) == 34,
        help::max_line_len(
            help::spec_render(
                spec_usage(),
                Some(spec_additional_info()),
                "General options"@,
                config::general_arg_definitions(),
                spec_commands(),
            ),
        ) <= 80,
{
    reveal_strlit("help");
    reveal_strlit("version");
    reveal_strlit("number-of-questions");
    reveal_strlit("disable-live-statistics");
    reveal_strlit("behavior-on-error");
    reveal_strlit("--");
    reveal_strlit("Display this help message.");
    reveal_strlit("Show version information.");
    reveal_strlit("Specify the number of questions to ask");
    reveal_strlit("(0 for infinite, default: 20).");
    reveal_strlit("Disable live statistics; statistics will not");
    reveal_strlit("display between questions.");
    reveal_strlit("Define behaviour on incorrect answer:");
    reveal_strlit("(default: showcorrect):");
    reveal_strlit("  - continue: proceed to the next question.");
    reveal_strlit("  - showcorrect: proceed to the next");
    reveal_strlit("    question and display the correct answer.");
    reveal_strlit("  - repeat: ask the question again until");
    reveal_strlit("    the correct answer is provided.");
    reveal_strlit("powers");
    reveal_strlit("times_table");
    reveal_strlit("doomsday");
    reveal_strlit("Practise powers (configurable base).");
    reveal_strlit("Practise multiplication table.");
    reveal_strlit("Practise the Doomsday algorithm.");
    reveal_strlit("General options");
    reveal_strlit("Usage: practicestuff [option]... command [command_option]...");
    reveal_strlit("To display options and details for a specific command,");
    reveal_strlit("run 'practicestuff <command> -h'.");
    reveal_strlit("\n");
    let defs = config::general_arg_definitions();
    let cmds = spec_commands();
    assert(help::max_opt_width(defs) == 25) by {
        let d4 = defs.drop_last();
        let d3 = d4.drop_last();
        let d2 = d3.drop_last();
        let d1 = d2.drop_last();
        assert(d4 =~= seq![defs[0], defs[1], defs[2], defs[3]]);
        assert(d3 =~= seq![defs[0], defs[1], defs[2]]);
        assert(d2 =~= seq![defs[0], defs[1]]);
        assert(d1 =~= seq![defs[0]]);
        assert(d1.drop_last() =~= Seq::<ArgModel>::empty());
        assert(help::opt_name_width(defs[0]) == 6);
        assert(help::opt_name_width(defs[1]) == 9);
        assert(help::opt_name_width(defs[2]) == 21);
        assert(help::opt_name_width(defs[3]) == 25);
        assert(help::opt_name_width(defs[4]) == 19);
        assert(help::max_opt_width(Seq::<ArgModel>::empty()) == 0);
        assert(help::max_opt_width(d1) == 6);
        assert(help::max_opt_width(d2) == 9);
        assert(help::max_opt_width(d3) == 21);
        assert(help::max_opt_width(d4) == 25);
    }
    assert(help::max_cmd_width(cmds) == 11) by {
        let c2 = cmds.drop_last();
        let c1 = c2.drop_last();
        assert(c2 =~= seq![cmds[0], cmds[1]]);
        assert(c1 =~= seq![cmds[0]]);
        assert(c1.drop_last() =~= Seq::<help::CommandModel>::empty());
        assert(help::max_cmd_width(Seq::<help::CommandModel>::empty()) == 0);
        assert(help::max_cmd_width(c1) == 6);
        assert(help::max_cmd_width(c2) == 11);
    }
    let w = help::spec_column_width(defs, cmds);
    assert(w == 34);
    assert forall|k: int| 0 <= k < defs.len() implies help::opt_fits(#[trigger] defs[k], 34) by {
        assert(help::no_nl("--"@ + "help"@));
        assert(help::no_nl("--"@ + "version"@));
        assert(help::no_nl("--"@ + "number-of-questions"@));
        assert(help::no_nl("--"@ + "disable-live-statistics"@));
        assert(help::no_nl("--"@ + "behavior-on-error"@));
        assert(help::no_nl("Display this help message."@));
        assert(help::no_nl("Show version information."@));
        assert(help::no_nl("Specify the number of questions to ask"@));
        assert(help::no_nl("(0 for infinite, default: 20)."@));
        assert(help::no_nl("Disable live statistics; statistics will not"@));
        assert(help::no_nl("display between questions."@));
        assert(help::no_nl("Define behaviour on incorrect answer:"@));
        assert(help::no_nl("(default: showcorrect):"@));
        assert(help::no_nl("  - continue: proceed to the next question."@));
        assert(help::no_nl("  - showcorrect: proceed to the next"@));
        assert(help::no_nl("    question and display the correct answer."@));
        assert(help::no_nl("  - repeat: ask the question again until"@));
        assert(help::no_nl("    the correct answer is provided."@));
        help::lemma_mll_acc_no_nl("Display this help message."@, 0);
        help::lemma_mll_acc_no_nl("Show version information."@, 0);
        help::lemma_mll_acc_no_nl("Specify the number of questions to ask"@, 0);
        help::lemma_mll_acc_no_nl("(0 for infinite, default: 20)."@, 0);
        help::lemma_mll_acc_no_nl("Disable live statistics; statistics will not"@, 0);
        help::lemma_mll_acc_no_nl("display between questions."@, 0);
        help::lemma_mll_acc_no_nl("Define behaviour on incorrect answer:"@, 0);
        help::lemma_mll_acc_no_nl("(default: showcorrect):"@, 0);
        help::lemma_mll_acc_no_nl("  - continue: proceed to the next question."@, 0);
        help::lemma_mll_acc_no_nl("  - showcorrect: proceed to the next"@, 0);
        help::lemma_mll_acc_no_nl("    question and display the correct answer."@, 0);
        help::lemma_mll_acc_no_nl("  - repeat: ask the question again until"@, 0);
        help::lemma_mll_acc_no_nl("    the correct answer is provided."@, 0);
    }
    assert forall|k: int| 0 <= k < cmds.len() implies help::cmd_fits(#[trigger] cmds[k], 34) by {
        assert(help::no_nl("powers"@));
        assert(help::no_nl("times_table"@));
        assert(help::no_nl("doomsday"@));
        help::lemma_mll_acc_no_nl("Practise powers (configurable base)."@, 0);
        help::lemma_mll_acc_no_nl("Practise multiplication table."@, 0);
        help::lemma_mll_acc_no_nl("Practise the Doomsday algorithm."@, 0);
    }
    assert(help::no_nl(spec_usage()));
    help::lemma_mll_acc_no_nl(spec_usage(), 0);
    assert(help::max_line_len(spec_additional_info()) <= 80) by {
        let a = "To display options and details for a specific command,"@;
        let b = "run 'practicestuff <command> -h'."@;
        assert(spec_additional_info() =~= a + seq!['\n'] + b);
        help::lemma_mll_split(a, b, 0);
        assert(help::no_nl(a));
        assert(help::no_nl(b));
        help::lemma_mll_acc_no_nl(a, 0);
        help::lemma_mll_acc_no_nl(b, 0);
    }
    assert(help::no_nl("General options"@));
    help::lemma_render_fits(
        spec_usage(),
        Some(spec_additional_info()),
        "General options"@,
        defs,
        cmds,
    );
}

} // verus!
