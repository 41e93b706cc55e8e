use procon::text::{chain, chars_of, copy_all, extend, join, order, replace, same, same_all, Rank};
use procon::{escape_bash_string, nix_shell, nix_shell_path, Invocation, Stdio};

fn text_strings(items: &[&str]) -> Vec<String> {
    items.iter().map(|s| s.to_string()).collect()
}

#[test]
fn escape_wraps_in_single_quotes() {
    assert_eq!(escape_bash_string("web"), "'web'");
    assert_eq!(escape_bash_string(""), "''");
}

#[test]
fn escape_rewrites_each_single_quote() {
    assert_eq!(escape_bash_string("it's"), "'it'\\''s'");
    assert_eq!(escape_bash_string("''"), "''\\'''\\'''");
}

#[test]
fn escape_agrees_with_std_replace() {
    for s in ["", "a", "'", "a'b'c", "/srv/my project/it's here", "é'ü"] {
        assert_eq!(escape_bash_string(s), format!("'{}'", s.replace('\'', "'\\''")));
    }
}

#[test]
fn replace_takes_occurrences_from_the_left() {
    assert_eq!(replace("aaa", "aa", "b"), "ba");
    assert_eq!(replace("abcabc", "bc", "X"), "aXaX");
    assert_eq!(replace("abc", "d", "X"), "abc");
    assert_eq!(replace("", "a", "X"), "");
    assert_eq!(replace("abc", "abcd", "X"), "abc");
    assert_eq!(replace("{{a}} and {{a}}", "{{a}}", "1"), "1 and 1");
}

#[test]
fn replace_agrees_with_std_on_non_empty_patterns() {
    let cases = [
        ("aaaa", "aa", "a"),
        ("hello world", "o", "00"),
        ("xyzxyz", "xyz", ""),
        ("ünïcödé ü", "ü", "ue"),
        ("abab", "aba", "c"),
    ];
    for (s, from, to) in cases {
        assert_eq!(replace(s, from, to), s.replace(from, to));
    }
}

#[test]
fn replace_with_empty_pattern_changes_nothing() {
    assert_eq!(replace("abc", "", "X"), "abc");
}

#[test]
fn join_puts_the_separator_between_parts() {
    assert_eq!(join(&text_strings(&[]), "&&"), "");
    assert_eq!(join(&text_strings(&["a"]), "&&"), "a");
    assert_eq!(join(&text_strings(&["a", "b", "c"]), "&&"), "a&&b&&c");
    assert_eq!(join(&text_strings(&["", ""]), ", "), ", ");
}

#[test]
fn order_is_that_of_rust_strings() {
    let names = ["", "a", "A", "ab", "b", "web", "web2", "é", "z", "api"];
    for a in names {
        for b in names {
            let expected = if a < b {
                Rank::Before
            } else if a == b {
                Rank::Same
            } else {
                Rank::After
            };
            assert_eq!(order(a, b), expected);
            assert_eq!(same(a, b), a == b);
        }
    }
}

#[test]
fn chars_and_copies_keep_the_content() {
    assert_eq!(chars_of("héllo"), vec!['h', 'é', 'l', 'l', 'o']);
    assert_eq!(chain("ab", "cd"), "abcd");
    let v = text_strings(&["x", "y"]);
    assert_eq!(copy_all(&v), v);
    let mut w = text_strings(&["a"]);
    extend(&mut w, &v);
    assert_eq!(w, text_strings(&["a", "x", "y"]));
    assert!(same_all(&v, &text_strings(&["x", "y"])));
    assert!(!same_all(&v, &text_strings(&["x"])));
    assert!(!same_all(&v, &text_strings(&["x", "z"])));
}

#[test]
fn nix_shell_with_dependencies_runs_in_the_dependency_shell() {
    let deps = text_strings(&["git", "nodejs"]);
    let cmds = text_strings(&["echo a", "echo b"]);
    let got = nix_shell("/work", Some(&deps), &cmds, true, "web", "/srv/web");
    let prefix = "PROJECT_NAME='web' PROJECT_DIR='/srv/web' ";
    let expected = Invocation {
        program: "/nix/var/nix/profiles/default/bin/nix-shell".to_string(),
        args: vec![
            "-p".to_string(),
            "git".to_string(),
            "nodejs".to_string(),
            "--run".to_string(),
            format!("{prefix}echo a&&{prefix}echo b"),
        ],
        cwd: Some("/work".to_string()),
        stdio: Stdio::Inherit,
    };
    assert_eq!(got, expected);
    assert_eq!(nix_shell_path(), expected.program);
}

#[test]
fn nix_shell_without_dependencies_runs_in_bash() {
    let cmds = text_strings(&["make"]);
    let got = nix_shell("/work", None, &cmds, false, "it's", "/srv/it's");
    let expected = Invocation {
        program: "/usr/bin/env".to_string(),
        args: vec![
            "bash".to_string(),
            "-c".to_string(),
            "PROJECT_NAME='it'\\''s' PROJECT_DIR='/srv/it'\\''s' make".to_string(),
        ],
        cwd: Some("/work".to_string()),
        stdio: Stdio::Default,
    };
    assert_eq!(got, expected);
}

#[test]
fn nix_shell_without_commands_has_an_empty_script() {
    let got = nix_shell("/w", None, &Vec::new(), true, "p", "/d");
    assert_eq!(got.args, text_strings(&["bash", "-c", ""]));
}
