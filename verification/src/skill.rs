//! Practice skills: the interface every skill offers to the game loop,
//! and construction of the skill a recognized command selects.

pub mod doomsday_algorithm;
pub mod powers;
pub mod times_table;

use crate::question::Question;
use crate::text;
use vstd::prelude::*;

verus! {

/// What every practice skill provides: whether the user asked for help,
/// the help text, and question generation. `generate_questions` always
/// returns exactly the requested number of questions.
pub trait Base: Sized {
    fn wants_to_print_help(&self) -> bool;

    fn get_help_text(&self) -> String;

    fn generate_questions(&self, count: u32) -> (r: Vec<Question>)
        ensures
            r@.len() == count as nat,
    ;
}

/// A complete skill, as the application consumes it.
pub trait Skill: Base {

}

impl<T: Base> Skill for T {

}

/// One of the application's skills, selected by its command.
#[derive(Debug)]
pub enum SkillKind {
    Powers(powers::Powers),
    TimesTable(times_table::TimesTable),
    Doomsday(doomsday_algorithm::Doomsday),
}

impl Base for SkillKind {
    fn wants_to_print_help(&self) -> bool {
        match self {
            SkillKind::Powers(s) => s.wants_to_print_help(),
            SkillKind::TimesTable(s) => s.wants_to_print_help(),
            SkillKind::Doomsday(s) => s.wants_to_print_help(),
        }
    }

    fn get_help_text(&self) -> String {
        match self {
            SkillKind::Powers(s) => s.get_help_text(),
            SkillKind::TimesTable(s) => s.get_help_text(),
            SkillKind::Doomsday(s) => s.get_help_text(),
        }
    }

    fn generate_questions(&self, count: u32) -> (r: Vec<Question>) {
        match self {
            SkillKind::Powers(s) => s.generate_questions(count),
            SkillKind::TimesTable(s) => s.generate_questions(count),
            SkillKind::Doomsday(s) => s.generate_questions(count),
        }
    }
}

/// Builds the skill a recognized command names, handing it the command's
/// own option tokens. Routing is by exact string match; an unrecognized
/// command is a caller bug and is excluded by precondition.
pub fn build(command: &str, args: &[String]) -> (r: Result<SkillKind, String>)
    requires
        command@ == "powers"@ || command@ == "times_table"@ || command@ == "doomsday"@,
    ensures
        match r {
            Ok(s) => (s is Powers <==> command@ == "powers"@) && (s is TimesTable <==> command@
                == "times_table"@) && (s is Doomsday <==> command@ == "doomsday"@),
            Err(_) => true,
        },
{
    proof {
        reveal_strlit("powers");
        reveal_strlit("times_table");
        reveal_strlit("doomsday");
        assert("powers"@.len() == 6);
        assert("times_table"@.len() == 11);
        assert("doomsday"@.len() == 8);
        assert("powers"@ != "times_table"@);
        assert("powers"@ != "doomsday"@);
        assert("times_table"@ != "doomsday"@);
    }
    if text::str_eq(command, "powers") {
        match powers::Powers::build(args) {
            Ok(s) => Ok(SkillKind::Powers(s)),
            Err(e) => Err(e),
        }
    } else if text::str_eq(command, "times_table") {
        match times_table::TimesTable::build(args) {
            Ok(s) => Ok(SkillKind::TimesTable(s)),
            Err(e) => Err(e),
        }
    } else {
        match doomsday_algorithm::Doomsday::build(args) {
            Ok(s) => Ok(SkillKind::Doomsday(s)),
            Err(e) => Err(e),
        }
    }
}

} // verus!
