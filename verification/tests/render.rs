//! Rendering whole invocation trees: ordering, prefixes, trimming and
//! determinism.

use shlap::error::Error;
use shlap::invocation::{ArgumentResult, Invocation, Subcommand};
use shlap::shell::Shell;

fn arg(occurs: u64, indices: Vec<u64>, vals: Vec<&str>) -> ArgumentResult {
    ArgumentResult {
        occurs,
        indices,
        vals: vals.into_iter().map(|v| Some(String::from(v))).collect(),
    }
}

fn leaf(args: Vec<(&str, ArgumentResult)>) -> Invocation {
    Invocation {
        usage: None,
        subcommand: None,
        args: args.into_iter().map(|(n, a)| (String::from(n), a)).collect(),
    }
}

#[test]
fn two_level_bash_ordering() {
    let build = leaf(vec![("verbose", arg(2, vec![3, 5], vec![]))]);
    let root = Invocation {
        usage: None,
        subcommand: Some(Subcommand {
            name: String::from("build"),
            matches: Box::new(build),
        }),
        args: vec![],
    };
    let out = Shell::Bash.parse(root, Some("myapp_")).unwrap();
    assert_eq!(
        out,
        "myapp_success='true'\n\
         myapp_subcommand='build'\n\
         myapp_build_verbose_occurs='2'\n\
         myapp_build_verbose_indices=('3' '5')\n\
         myapp_build_verbose_vals=()"
    );
}

#[test]
fn root_only_fish_without_prefix() {
    let root = leaf(vec![("name", arg(1, vec![2], vec!["alice"]))]);
    let out = Shell::Fish.parse(root, None).unwrap();
    assert_eq!(
        out,
        "set success 'true'\n\
         set name_occurs '1'\n\
         set name_indices '2'\n\
         set name_vals 'alice'"
    );
}

#[test]
fn usage_line_comes_after_success() {
    let mut root = leaf(vec![]);
    root.usage = Some(String::from("USAGE: app [FLAGS]"));
    let out = Shell::Bash.parse(root, Some("p_")).unwrap();
    assert_eq!(out, "p_success='true'\np_usage='USAGE: app [FLAGS]'");
}

#[test]
fn subcommand_usage_gets_infix() {
    let mut child = leaf(vec![]);
    child.usage = Some(String::from("USAGE: app run"));
    let root = Invocation {
        usage: None,
        subcommand: Some(Subcommand {
            name: String::from("run"),
            matches: Box::new(child),
        }),
        args: vec![],
    };
    let out = Shell::Bash.parse(root, None).unwrap();
    assert_eq!(
        out,
        "success='true'\nsubcommand='run'\nrun_usage='USAGE: app run'"
    );
}

#[test]
fn three_levels_nest_the_infix() {
    let inner = leaf(vec![("fast", arg(1, vec![4], vec![]))]);
    let mid = Invocation {
        usage: None,
        subcommand: Some(Subcommand {
            name: String::from("two"),
            matches: Box::new(inner),
        }),
        args: vec![],
    };
    let root = Invocation {
        usage: None,
        subcommand: Some(Subcommand {
            name: String::from("one"),
            matches: Box::new(mid),
        }),
        args: vec![],
    };
    let out = Shell::Bash.parse(root, None).unwrap();
    assert_eq!(
        out,
        "success='true'\n\
         subcommand='one'\n\
         one_subcommand='two'\n\
         one_two_fast_occurs='1'\n\
         one_two_fast_indices=('4')\n\
         one_two_fast_vals=()"
    );
}

#[test]
fn subcommand_block_precedes_root_arguments() {
    let child = leaf(vec![("x", arg(1, vec![3], vec![]))]);
    let root = Invocation {
        usage: None,
        subcommand: Some(Subcommand {
            name: String::from("sub"),
            matches: Box::new(child),
        }),
        args: vec![(String::from("root_flag"), arg(1, vec![1], vec![]))],
    };
    let out = Shell::Bash.parse(root, None).unwrap();
    assert_eq!(
        out,
        "success='true'\n\
         subcommand='sub'\n\
         sub_x_occurs='1'\n\
         sub_x_indices=('3')\n\
         sub_x_vals=()\n\
         root_flag_occurs='1'\n\
         root_flag_indices=('1')\n\
         root_flag_vals=()"
    );
}

#[test]
fn arguments_keep_insertion_order() {
    let root = leaf(vec![
        ("beta", arg(1, vec![1], vec![])),
        ("alpha", arg(1, vec![2], vec![])),
    ]);
    let out = Shell::Bash.parse(root, None).unwrap();
    assert_eq!(
        out,
        "success='true'\n\
         beta_occurs='1'\n\
         beta_indices=('1')\n\
         beta_vals=()\n\
         alpha_occurs='1'\n\
         alpha_indices=('2')\n\
         alpha_vals=()"
    );
}

#[test]
fn fish_trailing_empty_array_is_trimmed() {
    let root = leaf(vec![("v", arg(1, vec![1], vec![]))]);
    let out = Shell::Fish.parse(root, None).unwrap();
    // The last line's empty value list leaves a trailing space, which the
    // final trim removes; the interior one survives.
    assert_eq!(
        out,
        "set success 'true'\nset v_occurs '1'\nset v_indices '1'\nset v_vals"
    );
}

#[test]
fn rendering_is_deterministic() {
    let make = || leaf(vec![("name", arg(1, vec![2], vec!["alice"]))]);
    let a = Shell::PowerShell.parse(make(), Some("pfx")).unwrap();
    let b = Shell::PowerShell.parse(make(), Some("pfx")).unwrap();
    assert_eq!(a, b);
}

#[test]
fn powershell_assignments_escape_the_name() {
    let root = leaf(vec![("name", arg(1, vec![2], vec!["alice"]))]);
    let out = Shell::PowerShell.parse(root, None).unwrap();
    assert_eq!(
        out,
        "Set-Variable -Name 'success' -Value 'true'\n\
         Set-Variable -Name 'name_occurs' -Value '1'\n\
         Set-Variable -Name 'name_indices' -Value @('2')\n\
         Set-Variable -Name 'name_vals' -Value @('alice')"
    );
}

#[test]
fn empty_prefix_contributes_nothing() {
    let root = leaf(vec![]);
    let out = Shell::Bash.parse(root, Some("")).unwrap();
    assert_eq!(out, "success='true'");
}

#[test]
fn values_keep_their_order() {
    let root = leaf(vec![("f", arg(3, vec![1, 3, 5], vec!["c", "a", "b"]))]);
    let out = Shell::Elvish.parse(root, None).unwrap();
    assert_eq!(
        out,
        "success = 'true'\n\
         f_occurs = '3'\n\
         f_indices = ['1' '3' '5']\n\
         f_vals = ['c' 'a' 'b']"
    );
}

#[test]
fn large_occurrence_counts_render_in_decimal() {
    let root = leaf(vec![("n", arg(18446744073709551615, vec![], vec![]))]);
    let out = Shell::Bash.parse(root, None).unwrap();
    assert_eq!(
        out,
        "success='true'\n\
         n_occurs='18446744073709551615'\n\
         n_indices=()\n\
         n_vals=()"
    );
}

#[test]
fn invalid_prefix_is_rejected_for_bash() {
    let root = leaf(vec![]);
    match Shell::Bash.parse(root, Some("1bad")) {
        Err(Error::InvalidIdentifier { ident, pattern }) => {
            assert_eq!(ident, "1bad");
            assert_eq!(pattern, "^[a-zA-Z_][a-zA-Z0-9_]*$");
        }
        other => panic!("expected InvalidIdentifier, got {:?}", other.is_ok()),
    }
}

#[test]
fn digit_leading_prefix_is_accepted_for_fish() {
    let root = leaf(vec![]);
    let out = Shell::Fish.parse(root, Some("1app_")).unwrap();
    assert_eq!(out, "set 1app_success 'true'");
}

#[test]
fn any_prefix_is_accepted_for_powershell() {
    let root = leaf(vec![]);
    let out = Shell::PowerShell.parse(root, Some("my-app.")).unwrap();
    assert_eq!(out, "Set-Variable -Name 'my-app.success' -Value 'true'");
}

#[test]
fn hyphenated_argument_name_is_rejected() {
    for shell in [Shell::Bash, Shell::Zsh, Shell::Fish, Shell::Elvish] {
        let root = leaf(vec![("my-flag", arg(1, vec![1], vec![]))]);
        match shell.parse(root, None) {
            Err(Error::InvalidIdentifier { ident, pattern }) => {
                assert_eq!(ident, "my-flag");
                assert_eq!(pattern, "^[a-zA-Z0-9_]+$");
            }
            _ => panic!("expected InvalidIdentifier"),
        }
    }
}

#[test]
fn powershell_tail_rule_admits_hyphens() {
    let root = leaf(vec![("my-flag", arg(1, vec![1], vec![]))]);
    assert!(Shell::PowerShell.parse(root, None).is_ok());
}

#[test]
fn non_text_value_aborts_rendering() {
    let root = Invocation {
        usage: None,
        subcommand: None,
        args: vec![(
            String::from("f"),
            ArgumentResult {
                occurs: 1,
                indices: vec![1],
                vals: vec![Some(String::from("ok")), None],
            },
        )],
    };
    match Shell::Bash.parse(root, None) {
        Err(Error::NonTextValue) => {}
        _ => panic!("expected NonTextValue"),
    }
}

#[test]
fn invalid_subcommand_name_is_rejected() {
    let child = leaf(vec![]);
    let root = Invocation {
        usage: None,
        subcommand: Some(Subcommand {
            name: String::from("bad name"),
            matches: Box::new(child),
        }),
        args: vec![],
    };
    match Shell::Bash.parse(root, None) {
        Err(Error::InvalidIdentifier { ident, pattern }) => {
            assert_eq!(ident, "bad name_");
            assert_eq!(pattern, "^[a-zA-Z0-9_]+$");
        }
        _ => panic!("expected InvalidIdentifier"),
    }
}
