use aggregate_root::pipeline::pipe;
use aggregate_root::stages::{add_exclamation, shout, to_uppercase, trim};

#[test]
fn pipe_then_runs_stages_in_order() {
    let r = pipe(|x: i32| x + 1).then(|y: i32| y * 10).run(4);
    assert_eq!(r, 50);
    let s = pipe(|x: &str| format!("{} world!", x)).run("Hello");
    assert_eq!(s, "Hello world!");
}

#[test]
fn pipe_then_if_gates_on_condition() {
    let r = pipe(|a: i32| a * 2).then_if(|b: &i32| *b < 5, |b: i32| b * 2).run(4);
    assert_eq!(r, None);
    let r = pipe(|a: i32| a * 2).then_if(|b: &i32| *b < 5, |b: i32| b * 2).run(2);
    assert_eq!(r, Some(8));
}

#[test]
fn trim_removes_outer_white_space() {
    assert_eq!(trim(" fas lo dar "), "fas lo dar");
    assert_eq!(trim("\t\n x y \u{3000}"), "x y");
    assert_eq!(trim("   "), "");
    assert_eq!(trim(""), "");
}

#[test]
fn to_uppercase_upper_cases() {
    assert_eq!(to_uppercase("fas lo dar"), "FAS LO DAR");
    assert_eq!(to_uppercase(""), "");
}

#[test]
fn add_exclamation_appends_mark() {
    assert_eq!(add_exclamation("hi"), "hi!");
    assert_eq!(add_exclamation(""), "!");
}

#[test]
fn shout_composes_the_three_stages() {
    assert_eq!(shout(" fas lo dar "), "FAS LO DAR!");
}

#[test]
fn trim_twice_equals_trim_once() {
    let once = trim(" \t a b \n");
    assert_eq!(trim(&once), once);
}
