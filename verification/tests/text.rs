use lcore::text::{decimal_string, join};
use lcore::utils::{resolve_path, ToResolved};

fn words(items: &[&str]) -> Vec<String> {
    items.iter().map(|s| s.to_string()).collect()
}

#[test]
fn join_of_nothing_is_empty() {
    assert_eq!(join(&words(&[]), " "), "");
}

#[test]
fn join_of_one_part_has_no_separator() {
    assert_eq!(join(&words(&["echo"]), " "), "echo");
}

#[test]
fn join_puts_the_separator_between_parts() {
    assert_eq!(join(&words(&["echo", "hello", "warld"]), " "), "echo hello warld");
    assert_eq!(join(&words(&["a", "b"]), "\n"), "a\nb");
    assert_eq!(join(&words(&["a", "", "b"]), ", "), "a, , b");
}

#[test]
fn join_agrees_with_std() {
    let parts = words(&["time", "sleep", "4", "", "x y"]);
    assert_eq!(join(&parts, " "), parts.join(" "));
    assert_eq!(join(&parts, ""), parts.join(""));
    assert_eq!(join(&parts, "--"), parts.join("--"));
}

#[test]
fn decimal_string_of_small_numbers() {
    assert_eq!(decimal_string(0), "0");
    assert_eq!(decimal_string(1), "1");
    assert_eq!(decimal_string(9), "9");
    assert_eq!(decimal_string(10), "10");
    assert_eq!(decimal_string(127), "127");
    assert_eq!(decimal_string(-1), "-1");
    assert_eq!(decimal_string(-10), "-10");
}

#[test]
fn decimal_string_at_the_limits() {
    assert_eq!(decimal_string(i32::MAX), "2147483647");
    assert_eq!(decimal_string(i32::MIN), "-2147483648");
}

#[test]
fn decimal_string_agrees_with_std() {
    for n in [-100001, -999, -42, 0, 7, 100, 1009, 65535, 1234567890] {
        assert_eq!(decimal_string(n), n.to_string());
    }
}

#[test]
fn resolve_path_fills_in_the_working_directory() {
    assert_eq!(resolve_path("$(PWD)/liebe.toml", "/home/me", "/usr/bin/liebe"), "/home/me/liebe.toml");
}

#[test]
fn resolve_path_fills_in_the_program() {
    assert_eq!(
        resolve_path("$(PROG)/scripts/", "/home/me", "/usr/bin/liebe"),
        "/usr/bin/liebe/scripts/"
    );
}

#[test]
fn resolve_path_fills_in_every_occurrence() {
    assert_eq!(resolve_path("$(PWD):$(PROG):$(PWD)", "a", "b"), "a:b:a");
}

#[test]
fn resolve_path_leaves_other_text_alone() {
    assert_eq!(resolve_path("/etc/liebe.toml", "a", "b"), "/etc/liebe.toml");
    assert_eq!(resolve_path("$(pwd) $PWD $(PWD", "a", "b"), "$(pwd) $PWD $(PWD");
    assert_eq!(resolve_path("", "a", "b"), "");
}

#[test]
fn resolve_path_fills_the_program_into_what_the_directory_brought() {
    assert_eq!(resolve_path("$(PWD)", "x/$(PROG)", "liebe"), "x/liebe");
    assert_eq!(resolve_path("$(PROG)", "dir", "$(PWD)"), "$(PWD)");
}

#[test]
fn resolve_on_a_str_is_resolve_path() {
    assert_eq!("$(PWD)/liebe/".resolve("/w", "/p"), "/w/liebe/");
    assert_eq!("$(PROG)/extensions/".resolve("/w", "/p"), "/p/extensions/");
}
