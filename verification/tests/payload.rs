use powerline_claude::payload::{
    ContextWindow, Cost, CurrentUsage, Effort, Model, Payload, Workspace,
};

/// The statusline payload of a busy session, as the host writes it.
fn full() -> Payload {
    Payload {
        cwd: Some("/home/user/projects/backend".to_string()),
        model: Some(Model {
            id: Some("opus-4-8".to_string()),
            display_name: Some("Opus 4.8".to_string()),
        }),
        workspace: Some(Workspace {
            current_dir: Some("/home/user/projects/backend/apps/emissions".to_string()),
            project_dir: Some("/home/user/projects/backend".to_string()),
        }),
        cost: Some(Cost {
            total_duration_ms: Some(4335000),
            total_lines_added: Some(156),
            total_lines_removed: Some(23),
        }),
        context_window: Some(ContextWindow {
            total_input_tokens: Some(15500),
            context_window_size: Some(200000),
            current_usage: Some(CurrentUsage {
                input_tokens: Some(8500),
                cache_creation_input_tokens: Some(5000),
                cache_read_input_tokens: Some(2000),
            }),
        }),
        effort: Some(Effort {
            level: Some("high".to_string()),
        }),
    }
}

/// A fresh session: no cost, no effort, no API call yet.
fn minimal() -> Payload {
    Payload {
        cwd: Some("/home/user/scratch".to_string()),
        model: Some(Model {
            id: Some("sonnet-5".to_string()),
            display_name: Some("Sonnet 5".to_string()),
        }),
        context_window: Some(ContextWindow {
            total_input_tokens: Some(0),
            context_window_size: Some(200000),
            current_usage: None,
        }),
        ..Payload::default()
    }
}

#[test]
fn parses_model_from_full_payload() {
    let p = full();
    assert_eq!(p.model_display_name(), Some("Opus 4.8"));
}

#[test]
fn parses_effort_level_when_present() {
    assert_eq!(full().effort_level(), Some("high"));
}

#[test]
fn effort_level_is_none_when_absent() {
    assert_eq!(minimal().effort_level(), None);
}

#[test]
fn workspace_current_dir_wins_over_cwd() {
    assert_eq!(
        full().dir(),
        Some("/home/user/projects/backend/apps/emissions")
    );
}

#[test]
fn current_tokens_sums_current_usage() {
    // 8500 input + 5000 cache creation + 2000 cache read (output excluded)
    assert_eq!(full().current_tokens(), Some(15500));
}

#[test]
fn current_tokens_falls_back_to_total_input_when_usage_null() {
    // minimal: current_usage null, total_input_tokens 0
    assert_eq!(minimal().current_tokens(), Some(0));
}

#[test]
fn parses_cost_and_stats_fields() {
    let p = full();
    assert_eq!(p.total_duration_ms(), Some(4335000));
    assert_eq!(p.lines_added(), Some(156));
    assert_eq!(p.lines_removed(), Some(23));
}

#[test]
fn cost_fields_are_none_when_cost_absent() {
    let p = minimal();
    assert_eq!(p.total_duration_ms(), None);
    assert_eq!(p.lines_added(), None);
}

#[test]
fn parses_context_window_size() {
    assert_eq!(full().context_window_size(), Some(200000));
}

#[test]
fn empty_object_parses_with_all_none() {
    let p = Payload::default();
    assert_eq!(p.model_display_name(), None);
    assert_eq!(p.dir(), None);
    assert_eq!(p.current_tokens(), None);
}

#[test]
fn display_name_falls_back_to_model_id() {
    let p = Payload {
        model: Some(Model {
            id: Some("haiku-4-5".to_string()),
            display_name: None,
        }),
        ..Payload::default()
    };
    assert_eq!(p.model_display_name(), Some("haiku-4-5"));
}

#[test]
fn dir_falls_back_to_project_dir_then_cwd() {
    let p = Payload {
        cwd: Some("/c".to_string()),
        workspace: Some(Workspace {
            current_dir: None,
            project_dir: Some("/p".to_string()),
        }),
        ..Payload::default()
    };
    assert_eq!(p.dir(), Some("/p"));
    let q = Payload {
        cwd: Some("/c".to_string()),
        ..Payload::default()
    };
    assert_eq!(q.dir(), Some("/c"));
}

#[test]
fn missing_usage_counts_read_as_zero() {
    let p = Payload {
        context_window: Some(ContextWindow {
            total_input_tokens: Some(99),
            context_window_size: None,
            current_usage: Some(CurrentUsage {
                input_tokens: Some(7),
                cache_creation_input_tokens: None,
                cache_read_input_tokens: Some(3),
            }),
        }),
        ..Payload::default()
    };
    assert_eq!(p.current_tokens(), Some(10));
}
