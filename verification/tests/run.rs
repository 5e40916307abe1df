use powerline_claude::cli::Cli;
use powerline_claude::payload::{
    ContextWindow, Cost, CurrentUsage, Effort, Model, Payload, Workspace,
};
use powerline_claude::segments::Ambient;
use powerline_claude::terminal::{ps_field, tty_columns, tty_name_usable};
use powerline_claude::theme::Family;
use powerline_claude::{resolve_width, run, Env, Output};

/// The statusline payload of a busy session, as the host writes it.
fn full() -> Payload {
    Payload {
        cwd: Some("/home/user/projects/backend".to_string()),
        model: Some(Model {
            id: Some("opus-4-8".to_string()),
            display_name: Some("Opus 4.8".to_string()),
        }),
        workspace: Some(Workspace {
            current_dir: Some("/home/user/projects/backend/apps/emissions".to_string()),
            project_dir: Some("/home/user/projects/backend".to_string()),
        }),
        cost: Some(Cost {
            total_duration_ms: Some(4335000),
            total_lines_added: Some(156),
            total_lines_removed: Some(23),
        }),
        context_window: Some(ContextWindow {
            total_input_tokens: Some(15500),
            context_window_size: Some(200000),
            current_usage: Some(CurrentUsage {
                input_tokens: Some(8500),
                cache_creation_input_tokens: Some(5000),
                cache_read_input_tokens: Some(2000),
            }),
        }),
        effort: Some(Effort {
            level: Some("high".to_string()),
        }),
    }
}

/// What the caller reads around the full payload: its cost ($0.71234) and
/// rate-limit windows (23.5% and 41.2% used) formatted, no repository.
fn full_ambient() -> Ambient {
    Ambient {
        cost: Some("$0.71".to_string()),
        usage: Some("5h 77% · 7d 59%".to_string()),
        ..Ambient::default()
    }
}

/// A fresh session: no cost, no effort, no API call yet.
fn minimal() -> Payload {
    Payload {
        cwd: Some("/home/user/scratch".to_string()),
        model: Some(Model {
            id: None,
            display_name: Some("Sonnet 5".to_string()),
        }),
        context_window: Some(ContextWindow {
            total_input_tokens: Some(0),
            context_window_size: Some(200000),
            current_usage: None,
        }),
        ..Payload::default()
    }
}

fn tokens_only(total: u64) -> Payload {
    Payload {
        context_window: Some(ContextWindow {
            total_input_tokens: Some(total),
            context_window_size: None,
            current_usage: None,
        }),
        ..Payload::default()
    }
}

/// A fixed environment matching the fixtures, so goldens are the same on
/// every machine regardless of the real $HOME or $COLUMNS.
fn env() -> Env {
    Env {
        home: "/home/user".to_string(),
        columns: None,
    }
}

fn flags(modules: &str, mode: &str) -> Cli {
    Cli {
        modules: modules.to_string(),
        mode: mode.to_string(),
        ..Cli::default()
    }
}

fn run_full(cli: &Cli) -> Result<Output, String> {
    run(&full(), &full_ambient(), cli, &env(), || None)
}

fn strip_ansi(s: &str) -> String {
    let mut out = String::new();
    let mut chars = s.chars().peekable();
    while let Some(c) = chars.next() {
        if c == '\x1b' {
            match chars.peek() {
                // CSI: consume to final byte (0x40-0x7e)
                Some('[') => {
                    for c in chars.by_ref() {
                        if ('\u{40}'..='\u{7e}').contains(&c) && c != '[' {
                            break;
                        }
                    }
                }
                // OSC: consume to BEL
                Some(']') => {
                    for c in chars.by_ref() {
                        if c == '\x07' {
                            break;
                        }
                    }
                }
                _ => {}
            }
        } else {
            out.push(c);
        }
    }
    out
}

#[test]
fn cli_defaults_match_the_documented_interface() {
    let cli = Cli::default();
    assert_eq!(
        cli.modules,
        "logo,dir,git,model,context,cost,usage,stats,effort"
    );
    assert_eq!(cli.modules_right, "");
    assert_eq!(cli.theme, "catppuccin-mocha");
    assert_eq!(cli.mode, "patched");
    assert!(!cli.no_progress);
    assert_eq!(cli.width, None);
}

#[test]
fn full_payload_renders_every_data_backed_segment() {
    // no repository around the fixture dir, so `git` is skipped
    let out = run_full(&Cli {
        width: Some(200),
        ..Cli::default()
    })
    .unwrap();
    let visible = strip_ansi(&out.bar);
    assert_eq!(
        visible,
        "░▒▓ \u{f4f5} \u{e0b0} apps/emissions \u{e0b1} \u{f16a6} opus 4.8 \u{e0b0} \
         15,500 tok \u{e0b0} $0.71 \u{e0b1} 5h 77% · 7d 59% \u{e0b0} 1h 12m \u{e0b0} high \u{e0b0}"
    );
}

#[test]
fn compatible_mode_renders_without_nerd_font_glyphs() {
    let out = run_full(&Cli {
        mode: "compatible".to_string(),
        width: Some(200),
        ..Cli::default()
    })
    .unwrap();
    let visible = strip_ansi(&out.bar);
    assert!(
        !visible
            .chars()
            .any(|c| ('\u{e000}'..='\u{f8ff}').contains(&c)
                || ('\u{f0000}'..='\u{10ffff}').contains(&c)),
        "no private-use glyphs in compatible mode: {visible:?}"
    );
    assert!(visible.contains("\u{2733}"), "plain logo: {visible:?}");
    assert!(visible.contains("opus 4.8"), "{visible:?}");
}

#[test]
fn modules_right_pads_the_bar_to_the_terminal_width() {
    let out = run_full(&Cli {
        modules: "logo".to_string(),
        modules_right: "model".to_string(),
        mode: "flat".to_string(),
        width: Some(40),
        ..Cli::default()
    })
    .unwrap();
    let visible = strip_ansi(&out.bar);
    assert_eq!(visible.chars().count(), 40, "{visible:?}");
    assert!(visible.starts_with(" \u{f4f5} "), "{visible:?}");
    assert!(visible.ends_with(" \u{f16a6} opus 4.8 "), "{visible:?}");
}

#[test]
fn modules_right_keeps_one_space_when_the_bar_overflows() {
    let out = run_full(&Cli {
        modules: "logo".to_string(),
        modules_right: "model".to_string(),
        mode: "flat".to_string(),
        width: Some(5),
        ..Cli::default()
    })
    .unwrap();
    assert_eq!(strip_ansi(&out.bar), " \u{f4f5}   \u{f16a6} opus 4.8 ");
}

#[test]
fn context_over_80k_tokens_gets_the_warn_background() {
    let out = run(
        &tokens_only(90000),
        &Ambient::default(),
        &flags("context", "flat"),
        &env(),
        || None,
    )
    .unwrap();
    // catppuccin-mocha context_warn bg: #fab387
    assert!(out.bar.contains("\x1b[48;2;250;179;135m"), "{:?}", out.bar);
}

#[test]
fn context_over_125k_tokens_gets_the_alert_background() {
    let out = run(
        &tokens_only(130000),
        &Ambient::default(),
        &flags("context", "flat"),
        &env(),
        || None,
    )
    .unwrap();
    // catppuccin-mocha context_alert bg: #f38ba8
    assert!(out.bar.contains("\x1b[48;2;243;139;168m"), "{:?}", out.bar);
}

#[test]
fn usage_renders_remaining_rate_limit_budget() {
    let out = run_full(&flags("usage", "flat")).unwrap();
    assert_eq!(strip_ansi(&out.bar), " 5h 77% · 7d 59% ");
}

#[test]
fn usage_nearly_spent_paints_the_alert_background() {
    let ambient = Ambient {
        usage: Some("5h 2%".to_string()),
        usage_family: Family::ContextAlert,
        ..Ambient::default()
    };
    let out = run(&full(), &ambient, &flags("usage", "flat"), &env(), || None).unwrap();
    assert!(out.bar.contains("\x1b[48;2;243;139;168m"), "{:?}", out.bar);
}

#[test]
fn modules_flag_selects_and_orders_segments() {
    let out = run_full(&flags("cost,model", "flat")).unwrap();
    assert_eq!(strip_ansi(&out.bar), " $0.71  \u{f16a6} opus 4.8 ");
}

#[test]
fn unknown_theme_is_a_readable_error() {
    let err = run_full(&Cli {
        theme: "nope".to_string(),
        ..Cli::default()
    })
    .unwrap_err();
    assert!(err.contains("unknown theme 'nope'"), "{err}");
}

#[test]
fn unknown_module_is_a_readable_error() {
    let err = run_full(&flags("bogus", "patched")).unwrap_err();
    assert!(err.contains("unknown module 'bogus'"), "{err}");
}

#[test]
fn unknown_mode_is_a_readable_error() {
    let err = run_full(&flags("logo", "fancy")).unwrap_err();
    assert!(err.contains("unknown mode 'fancy'"), "{err}");
}

#[test]
fn module_error_comes_before_mode_error() {
    let err = run_full(&flags("bogus", "fancy")).unwrap_err();
    assert!(err.starts_with("unknown module"), "{err}");
}

#[test]
fn git_segment_flows_through_run_with_line_churn() {
    let payload = Payload {
        workspace: Some(Workspace {
            current_dir: Some("/tmp/repo".to_string()),
            project_dir: None,
        }),
        cost: Some(Cost {
            total_duration_ms: None,
            total_lines_added: Some(156),
            total_lines_removed: Some(23),
        }),
        ..Payload::default()
    };
    let ambient = Ambient {
        git_branch: Some("main".to_string()),
        ..Ambient::default()
    };
    let out = run(&payload, &ambient, &flags("git", "flat"), &env(), || None).unwrap();
    assert_eq!(strip_ansi(&out.bar), " \u{e0a0} main +156 -23 ");
}

// --- progress output ---

#[test]
fn full_payload_emits_the_progress_sequence() {
    let out = run_full(&Cli::default()).unwrap();
    // 15500 / 200000 = 7% used -> normal state, fill 7*100/80 = 8
    assert_eq!(out.progress.as_deref(), Some("\x1b]9;4;1;8\x07"));
}

#[test]
fn no_progress_flag_suppresses_the_sequence() {
    let out = run_full(&Cli {
        no_progress: true,
        ..Cli::default()
    })
    .unwrap();
    assert_eq!(out.progress, None);
}

#[test]
fn payload_without_context_numbers_emits_no_progress() {
    // minimal: current_usage is null and total_input_tokens is 0
    let out = run(&minimal(), &Ambient::default(), &Cli::default(), &env(), || None).unwrap();
    assert_eq!(out.progress, None);
}

#[test]
fn context_percent_needs_both_numbers() {
    assert_eq!(powerline_claude::context_percent(&full()), Some(7));
    assert_eq!(powerline_claude::context_percent(&minimal()), None);
    assert_eq!(powerline_claude::context_percent(&tokens_only(5)), None);
}

// --- width ---

#[test]
fn width_prefers_flag_then_columns_then_tty_probe_then_default() {
    assert_eq!(resolve_width(Some(120), Some("80"), || Some(60)), 120);
    assert_eq!(resolve_width(None, Some("80"), || Some(60)), 80);
    assert_eq!(resolve_width(None, None, || Some(60)), 60);
    assert_eq!(resolve_width(None, None, || None), 200);
    // unparsable COLUMNS falls through to the probe
    assert_eq!(resolve_width(None, Some("not a number"), || Some(60)), 60);
}

#[test]
fn columns_parse_like_usize_from_str() {
    assert_eq!(resolve_width(None, Some("+90"), || None), 90);
    assert_eq!(resolve_width(None, Some(""), || None), 200);
    assert_eq!(resolve_width(None, Some(" 90"), || None), 200);
    assert_eq!(
        resolve_width(None, Some("99999999999999999999999"), || Some(3)),
        3
    );
}

#[test]
fn tty_probe_runs_only_when_needed() {
    let mut probed = false;
    let w = resolve_width(Some(10), None, || {
        probed = true;
        Some(1)
    });
    assert_eq!(w, 10);
    assert!(!probed);
}

#[test]
fn columns_env_drives_dir_truncation_through_run() {
    let narrow = Env {
        home: "/home/user".to_string(),
        columns: Some("79".to_string()),
    };
    let out = run(
        &full(),
        &full_ambient(),
        &flags("dir", "flat"),
        &narrow,
        || None,
    )
    .unwrap();
    assert_eq!(strip_ansi(&out.bar), " emissions ");
}

#[test]
fn stty_size_output_gives_the_column_count() {
    assert_eq!(tty_columns("50 132\n"), Some(132));
    assert_eq!(tty_columns("  50\t 80  "), Some(80));
    assert_eq!(tty_columns("50"), None);
    assert_eq!(tty_columns("50 wide"), None);
    assert!(tty_name_usable("pts/3"));
    assert!(!tty_name_usable("?"));
    assert!(!tty_name_usable(""));
    assert_eq!(ps_field("  1234\n").as_deref(), Some("1234"));
    assert_eq!(ps_field(" \n"), None);
}
