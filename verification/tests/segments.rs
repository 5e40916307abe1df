use powerline_claude::payload::{ContextWindow, Cost, CurrentUsage, Model, Payload, Workspace};
use powerline_claude::render::Mode;
use powerline_claude::segments::{
    branch_from_head, context_family, format_duration, format_git, format_model,
    format_model_in, format_reset, format_tokens, git_branch, gitdir_from_gitfile,
    git_dir_step, group_thousands, parse_modules, git_state, segment_texts, truncate_dir, Ambient,
    DotGit, GitDirStep, Module,
};
use powerline_claude::theme::{Family, Rgb, Theme};

// --- registry: colors ---

#[test]
fn stats_effort_and_usage_borrow_palette_families() {
    let theme = Theme::default(); // catppuccin-mocha
    // stats: cost fg on the context bg (keeps the alternating-bg rhythm)
    let stats = Module::Stats.colors(&theme, None);
    assert_eq!(stats.fg, Rgb::hex(0xa6e3a1));
    assert_eq!(stats.bg, Rgb::hex(0x313244));
    // effort: model colors
    let effort = Module::Effort.colors(&theme, None);
    assert_eq!(effort.fg, Rgb::hex(0xb4befe));
    assert_eq!(effort.bg, Rgb::hex(0x1e1e2e));
    // usage: cost colors
    assert_eq!(
        Module::Usage.colors(&theme, None),
        Module::Cost.colors(&theme, None)
    );
}

#[test]
fn context_colors_shift_with_the_token_count() {
    let theme = Theme::default();
    let calm = Module::Context.colors(&theme, Some(15_000));
    assert_eq!(calm.bg, theme.family(Family::Context).bg);
    let warn = Module::Context.colors(&theme, Some(90_000));
    assert_eq!(warn.bg, theme.family(Family::ContextWarn).bg);
    let alert = Module::Context.colors(&theme, Some(130_000));
    assert_eq!(alert.bg, theme.family(Family::ContextAlert).bg);
}

#[test]
fn usage_and_git_follow_their_observed_state() {
    let theme = Theme::default();
    let low_budget = Module::Usage.colors_with(&theme, None, Family::ContextAlert, false);
    assert_eq!(low_budget.bg, theme.family(Family::ContextAlert).bg);
    let merging = Module::Git.colors_with(&theme, None, Family::Cost, true);
    assert_eq!(merging.bg, theme.family(Family::ContextWarn).bg);
    let calm_git = Module::Git.colors_with(&theme, None, Family::Cost, false);
    assert_eq!(calm_git, theme.family(Family::Git));
}

#[test]
fn default_list_is_the_cli_default() {
    assert_eq!(
        Module::default_list(),
        "logo,dir,git,model,context,cost,usage,stats,effort"
    );
}

#[test]
fn module_names_and_priorities_come_from_the_registry() {
    assert_eq!(Module::Context.name(), "context");
    assert_eq!(Module::Context.priority(), 9);
    assert_eq!(Module::Logo.priority(), 1);
    assert_eq!(Module::names().len(), 9);
    assert_eq!(Module::names()[6], "usage");
}

// --- model ---

#[test]
fn model_gets_family_icon_and_lowercase_name() {
    assert_eq!(format_model("Opus 4.8"), "\u{f16a6} opus 4.8");
    assert_eq!(format_model("Sonnet 5"), "\u{f06a9} sonnet 5");
    assert_eq!(format_model("Haiku 4.5"), "\u{ee0d} haiku 4.5");
}

#[test]
fn unknown_model_family_falls_back_to_sonnet_icon() {
    assert_eq!(format_model("Fable 5"), "\u{f06a9} fable 5");
}

#[test]
fn compatible_model_drops_the_icon() {
    assert_eq!(format_model_in("OPUS 4.8", Mode::Compatible), "opus 4.8");
}

// --- context tokens ---

#[test]
fn tokens_render_with_thousands_separators() {
    assert_eq!(format_tokens(Some(15500)), "15,500 tok");
    assert_eq!(format_tokens(Some(1_234_567)), "1,234,567 tok");
    assert_eq!(format_tokens(Some(999)), "999 tok");
}

#[test]
fn missing_or_zero_tokens_render_placeholder() {
    assert_eq!(format_tokens(None), "~~ tok");
    assert_eq!(format_tokens(Some(0)), "~~ tok");
}

#[test]
fn grouping_only_adds_commas() {
    for value in [0u64, 7, 1_000, 999_999, 1_000_000, u64::MAX] {
        let grouped = group_thousands(value);
        assert_eq!(grouped.replace(',', ""), value.to_string());
    }
    assert_eq!(group_thousands(u64::MAX), "18,446,744,073,709,551,615");
}

// --- context thresholds ---

#[test]
fn context_turns_orange_at_80k_and_red_at_125k() {
    assert_eq!(context_family(Some(79_999)), Family::Context);
    assert_eq!(context_family(Some(80_000)), Family::ContextWarn);
    assert_eq!(context_family(Some(124_999)), Family::ContextWarn);
    assert_eq!(context_family(Some(125_000)), Family::ContextAlert);
}

#[test]
fn missing_tokens_keep_the_normal_context_family() {
    assert_eq!(context_family(None), Family::Context);
}

// --- duration ---

#[test]
fn duration_scales_units() {
    assert_eq!(format_duration(45_000), "45s");
    assert_eq!(format_duration(720_000), "12m");
    assert_eq!(format_duration(4_335_000), "1h 12m");
    assert_eq!(format_duration(90_061_000), "25h 1m");
}

#[test]
fn reset_time_is_coarse() {
    assert_eq!(format_reset(2 * 24 * 3600 + 5), "2d");
    assert_eq!(format_reset(3 * 3600 + 59), "3h");
    assert_eq!(format_reset(150), "2m");
    assert_eq!(format_reset(10), "1m");
    assert_eq!(format_reset(-30), "1m");
}

// --- dir ---

#[test]
fn dir_shows_home_as_tilde() {
    assert_eq!(truncate_dir("/home/user", "/home/user", 200), "~");
}

#[test]
fn dir_keeps_last_two_components_with_ellipsis() {
    assert_eq!(
        truncate_dir(
            "/home/user/projects/backend/apps/emissions",
            "/home/user",
            200
        ),
        "apps/emissions"
    );
}

#[test]
fn short_paths_are_not_truncated() {
    assert_eq!(
        truncate_dir("/home/user/projects", "/home/user", 200),
        "~/projects"
    );
}

#[test]
fn narrow_terminals_keep_only_the_last_component() {
    assert_eq!(
        truncate_dir(
            "/home/user/projects/backend/apps/emissions",
            "/home/user",
            79
        ),
        "emissions"
    );
}

#[test]
fn paths_outside_home_keep_their_last_components() {
    assert_eq!(truncate_dir("/usr/local/lib", "/home/user", 200), "local/lib");
    assert_eq!(truncate_dir("/usr", "/home/user", 200), "/usr");
    assert_eq!(truncate_dir("/home/user/a/b", "/home/user", 200), "~/a/b");
    assert_eq!(truncate_dir("/home/user/a/b", "/home/user", 79), "b");
}

// --- git (the disk reads are the caller's; these are the rules) ---

#[test]
fn branch_read_from_head_ref() {
    assert_eq!(branch_from_head("ref: refs/heads/main\n"), "main");
    assert_eq!(branch_from_head("ref: refs/heads/feat/x\n"), "feat/x");
}

#[test]
fn detached_head_shows_short_hash() {
    assert_eq!(
        branch_from_head("20ece3f7aabbccddeeff00112233445566778899\n"),
        "20ece3f7"
    );
    assert_eq!(branch_from_head("abc\n"), "abc");
}

#[test]
fn branch_only_where_a_head_was_read() {
    assert_eq!(git_branch(Some("ref: refs/heads/dev\n")).as_deref(), Some("dev"));
    assert_eq!(git_branch(None), None);
}

#[test]
fn worktree_gitfile_names_the_gitdir() {
    assert_eq!(
        gitdir_from_gitfile("gitdir: /repo/.git/worktrees/wt\n").as_deref(),
        Some("/repo/.git/worktrees/wt")
    );
    assert_eq!(gitdir_from_gitfile("something else"), None);
}

#[test]
fn repo_state_follows_git_markers_in_order() {
    assert_eq!(git_state(false, true, true, false, false, false), Some("rebasing"));
    assert_eq!(git_state(false, false, true, true, false, false), Some("merging"));
    assert_eq!(git_state(false, false, false, true, false, false), Some("cherry-picking"));
    assert_eq!(git_state(false, false, false, false, true, false), Some("reverting"));
    assert_eq!(git_state(false, false, false, false, false, true), Some("bisecting"));
    assert_eq!(git_state(false, false, false, false, false, false), None);
}

#[test]
fn git_text_shows_state_and_churn() {
    assert_eq!(
        format_git("main", Some("merging"), Some(156), Some(23), Mode::Patched),
        "\u{e0a0} main (merging) +156 -23"
    );
    assert_eq!(
        format_git("main", None, Some(1), None, Mode::Compatible),
        "\u{2387} main"
    );
}

// --- module list parsing ---

#[test]
fn parses_module_list_in_given_order() {
    let modules = parse_modules("cost,model").unwrap();
    assert_eq!(modules, vec![Module::Cost, Module::Model]);
}

#[test]
fn module_list_pieces_are_trimmed_and_empty_ones_skipped() {
    let modules = parse_modules(" dir , ,git,").unwrap();
    assert_eq!(modules, vec![Module::Dir, Module::Git]);
    assert_eq!(parse_modules("").unwrap(), vec![]);
}

#[test]
fn default_module_order_matches_todays_bar() {
    assert_eq!(
        Module::default_order(),
        vec![
            Module::Logo,
            Module::Dir,
            Module::Git,
            Module::Model,
            Module::Context,
            Module::Cost,
            Module::Usage,
            Module::Stats,
            Module::Effort,
        ]
    );
}

#[test]
fn default_list_parses_back_to_the_default_order() {
    assert_eq!(
        parse_modules(&Module::default_list()).unwrap(),
        Module::default_order()
    );
}

#[test]
fn unknown_module_error_names_it_and_lists_valid_ones() {
    let err = parse_modules("logo,bogus").unwrap_err();
    assert!(err.contains("bogus"), "{err}");
    assert!(err.contains("context"), "{err}");
}

#[test]
fn unknown_module_error_is_exact() {
    assert_eq!(
        Module::parse("bogus").unwrap_err(),
        "unknown module 'bogus', available: logo, dir, git, model, context, cost, usage, stats, effort"
    );
}

// --- composition: payload -> segment texts ---

fn in_repo(branch: &str) -> Ambient {
    Ambient {
        git_branch: Some(branch.to_string()),
        ..Ambient::default()
    }
}

fn workspace(dir: &str) -> Option<Workspace> {
    Some(Workspace {
        current_dir: Some(dir.to_string()),
        project_dir: None,
    })
}

#[test]
fn git_segment_appends_churn_when_both_line_counts_exist() {
    let p = Payload {
        workspace: workspace("/tmp/repo"),
        cost: Some(Cost {
            total_duration_ms: None,
            total_lines_added: Some(5),
            total_lines_removed: Some(2),
        }),
        ..Payload::default()
    };
    let texts = segment_texts(&p, &[Module::Git], 200, "/home/user", Mode::Patched, &in_repo("main"));
    assert_eq!(
        texts,
        vec![(Module::Git, "\u{e0a0} main +5 -2".to_string())]
    );
}

#[test]
fn git_segment_omits_churn_when_a_line_count_is_missing() {
    let p = Payload {
        workspace: workspace("/tmp/repo"),
        cost: Some(Cost {
            total_duration_ms: None,
            total_lines_added: Some(5),
            total_lines_removed: None,
        }),
        ..Payload::default()
    };
    let texts = segment_texts(&p, &[Module::Git], 200, "/home/user", Mode::Patched, &in_repo("main"));
    assert_eq!(texts, vec![(Module::Git, "\u{e0a0} main".to_string())]);
}

#[test]
fn each_optional_segment_drops_when_its_data_is_absent() {
    // model only: dir, git, cost, stats, and effort must all drop; logo
    // always renders and context shows its placeholder.
    let p = Payload {
        model: Some(Model {
            id: None,
            display_name: Some("Sonnet 5".to_string()),
        }),
        ..Payload::default()
    };
    let texts = segment_texts(
        &p,
        &Module::default_order(),
        200,
        "/home/user",
        Mode::Patched,
        &Ambient::default(),
    );
    let modules: Vec<Module> = texts.iter().map(|(module, _)| *module).collect();
    assert_eq!(modules, vec![Module::Logo, Module::Model, Module::Context]);
}

#[test]
fn segments_skip_absent_data() {
    // minimal payload: no cost, no effort, dir exists but is no git repo
    let payload = Payload {
        cwd: Some("/home/user/scratch".to_string()),
        model: Some(Model {
            id: None,
            display_name: Some("Sonnet 5".to_string()),
        }),
        context_window: Some(ContextWindow {
            total_input_tokens: Some(0),
            context_window_size: Some(200000),
            current_usage: None,
        }),
        ..Payload::default()
    };
    let texts = segment_texts(
        &payload,
        &Module::default_order(),
        200,
        "/home/user",
        Mode::Patched,
        &Ambient::default(),
    );
    let joined: Vec<&str> = texts.iter().map(|(_, t)| t.as_str()).collect();
    assert!(joined.iter().any(|t| t.contains("sonnet 5")), "{joined:?}");
    assert!(joined.iter().any(|t| t == &"~~ tok"), "{joined:?}");
    assert!(
        !joined.iter().any(|t| t.starts_with('$')),
        "cost must be skipped: {joined:?}"
    );
}

#[test]
fn ambient_readouts_fill_cost_and_usage() {
    let p = Payload {
        context_window: Some(ContextWindow {
            total_input_tokens: None,
            context_window_size: None,
            current_usage: Some(CurrentUsage {
                input_tokens: Some(1),
                cache_creation_input_tokens: None,
                cache_read_input_tokens: None,
            }),
        }),
        ..Payload::default()
    };
    let ambient = Ambient {
        cost: Some("$1.00".to_string()),
        usage: Some("5h 10%".to_string()),
        ..Ambient::default()
    };
    let texts = segment_texts(
        &p,
        &[Module::Cost, Module::Usage, Module::Context, Module::Logo],
        79,
        "/",
        Mode::Compatible,
        &ambient,
    );
    assert_eq!(
        texts,
        vec![
            (Module::Cost, "$1.00".to_string()),
            (Module::Usage, "5h 10%".to_string()),
            (Module::Context, "1 tok".to_string()),
            (Module::Logo, "\u{2733}".to_string()),
        ]
    );
}

#[test]
fn home_is_matched_by_whole_components() {
    assert_eq!(truncate_dir("/home/userx/a", "/home/user", 200), "userx/a");
    assert_eq!(truncate_dir("/home/userx", "/home/user", 200), "/home/userx");
    assert_eq!(truncate_dir("/home/user/a", "/home/user", 200), "~/a");
    assert_eq!(truncate_dir("/home/user", "/home/user", 200), "~");
}

#[test]
fn module_list_skips_blanks_around_names() {
    assert_eq!(
        parse_modules(" cost, ,model ").unwrap(),
        vec![Module::Cost, Module::Model]
    );
}

#[test]
fn git_dir_search_moves_by_what_dot_git_is() {
    assert_eq!(git_dir_step(&DotGit::Dir), GitDirStep::UseDotGit);
    assert_eq!(git_dir_step(&DotGit::Missing), GitDirStep::Up);
    assert_eq!(git_dir_step(&DotGit::Unreadable), GitDirStep::Stop);
    assert_eq!(
        git_dir_step(&DotGit::File("gitdir: ../main/.git/worktrees/wt\n".to_string())),
        GitDirStep::UseGitdir("../main/.git/worktrees/wt".to_string())
    );
    assert_eq!(
        git_dir_step(&DotGit::File("not a gitfile".to_string())),
        GitDirStep::Stop
    );
}
