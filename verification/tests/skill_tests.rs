//! Tests of skill construction from a recognized command.

use practicestuff::skill::{build, SkillKind};

#[test]
fn build_powers() {
    let command = "powers";
    let args = [];
    build(command, &args).unwrap();
}

#[test]
fn build_times_table() {
    let command = "times_table";
    let args = [];
    build(command, &args).unwrap();
}

#[test]
fn build_doomsday() {
    let command = "doomsday";
    let args = [];
    let skill = build(command, &args).unwrap();
    assert!(matches!(skill, SkillKind::Doomsday(_)));
}
