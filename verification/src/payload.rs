//! The statusline JSON the host writes to stdin, as the bar reads it.
//!
//! Every field is optional: the payload grows across host versions and
//! several objects (`effort`, `cost`, `context_window.current_usage`) are
//! documented as absent or null in normal operation. Decoding the JSON is
//! the caller's job; the floating-point figures (session cost, rate-limit
//! percentages) stay with the caller too, which hands the bar their
//! formatted text (see `segments::Ambient`).

use vstd::prelude::*;

verus! {

#[derive(Debug, Clone, Default)]
pub struct Model {
    pub id: Option<String>,
    pub display_name: Option<String>,
}

#[derive(Debug, Clone, Default)]
pub struct Workspace {
    pub current_dir: Option<String>,
    pub project_dir: Option<String>,
}

#[derive(Debug, Clone, Default)]
pub struct Cost {
    pub total_duration_ms: Option<u64>,
    pub total_lines_added: Option<u64>,
    pub total_lines_removed: Option<u64>,
}

#[derive(Debug, Clone, Default)]
pub struct ContextWindow {
    pub total_input_tokens: Option<u64>,
    pub context_window_size: Option<u64>,
    pub current_usage: Option<CurrentUsage>,
}

#[derive(Debug, Clone, Default)]
pub struct CurrentUsage {
    pub input_tokens: Option<u64>,
    pub cache_creation_input_tokens: Option<u64>,
    pub cache_read_input_tokens: Option<u64>,
}

#[derive(Debug, Clone, Default)]
pub struct Effort {
    pub level: Option<String>,
}

#[derive(Debug, Clone, Default)]
pub struct Payload {
    pub cwd: Option<String>,
    pub model: Option<Model>,
    pub workspace: Option<Workspace>,
    pub cost: Option<Cost>,
    pub context_window: Option<ContextWindow>,
    pub effort: Option<Effort>,
}

/// The characters of an optional string.
pub open spec fn opt_view(s: Option<String>) -> Option<Seq<char>> {
    match s {
        Some(t) => Some(t@),
        None => None,
    }
}

/// The characters of an optional string slice.
pub open spec fn opt_str_view(s: Option<&str>) -> Option<Seq<char>> {
    match s {
        Some(t) => Some(t@),
        None => None,
    }
}

/// An absent count reads as zero.
pub open spec fn or_zero(n: Option<u64>) -> nat {
    match n {
        Some(v) => v as nat,
        None => 0,
    }
}

/// The sum of the last API call's input and cache tokens.
pub open spec fn usage_sum(u: CurrentUsage) -> nat {
    or_zero(u.input_tokens) + or_zero(u.cache_creation_input_tokens) + or_zero(
        u.cache_read_input_tokens,
    )
}

impl Payload {
    /// The model's display name, falling back to its id.
    pub open spec fn display_name_spec(&self) -> Option<Seq<char>> {
        match self.model {
            None => None,
            Some(m) => match m.display_name {
                Some(n) => Some(n@),
                None => opt_view(m.id),
            },
        }
    }

    pub open spec fn effort_spec(&self) -> Option<Seq<char>> {
        match self.effort {
            None => None,
            Some(e) => opt_view(e.level),
        }
    }

    /// Directory the bar should describe: workspace current dir, falling
    /// back to the project dir, then the raw cwd.
    pub open spec fn dir_spec(&self) -> Option<Seq<char>> {
        let from_workspace = match self.workspace {
            None => None,
            Some(w) => match w.current_dir {
                Some(d) => Some(d@),
                None => opt_view(w.project_dir),
            },
        };
        match from_workspace {
            Some(d) => Some(d),
            None => opt_view(self.cwd),
        }
    }

    /// Tokens currently in the context window: the sum of the last API
    /// call's input and cache tokens, falling back to `total_input_tokens`
    /// when `current_usage` is null.
    pub open spec fn tokens_spec(&self) -> Option<nat> {
        match self.context_window {
            None => None,
            Some(w) => match w.current_usage {
                Some(u) => Some(usage_sum(u)),
                None => match w.total_input_tokens {
                    Some(t) => Some(t as nat),
                    None => None,
                },
            },
        }
    }

    pub open spec fn window_size_spec(&self) -> Option<u64> {
        match self.context_window {
            None => None,
            Some(w) => w.context_window_size,
        }
    }

    pub open spec fn duration_spec(&self) -> Option<u64> {
        match self.cost {
            None => None,
            Some(c) => c.total_duration_ms,
        }
    }

    pub open spec fn lines_added_spec(&self) -> Option<u64> {
        match self.cost {
            None => None,
            Some(c) => c.total_lines_added,
        }
    }

    pub open spec fn lines_removed_spec(&self) -> Option<u64> {
        match self.cost {
            None => None,
            Some(c) => c.total_lines_removed,
        }
    }

    /// Whether the token count the payload reports fits in a `u64` (the sum
    /// of the usage fields can exceed it).
    pub open spec fn tokens_fit(&self) -> bool {
        match self.tokens_spec() {
            Some(t) => t <= u64::MAX,
            None => true,
        }
    }

    /// Whether the token count fits in a `u64`: `current_tokens` is
    /// defined exactly where this holds.
    pub fn token_count_fits(&self) -> (r: bool)
        ensures
            r == self.tokens_fit(),
    {
        match &self.context_window {
            None => true,
            Some(window) => match &window.current_usage {
                Some(usage) => {
                    let a = match usage.input_tokens {
                        Some(v) => v,
                        None => 0,
                    };
                    let b = match usage.cache_creation_input_tokens {
                        Some(v) => v,
                        None => 0,
                    };
                    let c = match usage.cache_read_input_tokens {
                        Some(v) => v,
                        None => 0,
                    };
                    a <= u64::MAX - b && a + b <= u64::MAX - c
                },
                None => true,
            },
        }
    }

    pub fn model_display_name(&self) -> (r: Option<&str>)
        ensures
            opt_str_view(r) == self.display_name_spec(),
    {
        match &self.model {
            None => None,
            Some(m) => match &m.display_name {
                Some(n) => Some(n.as_str()),
                None => match &m.id {
                    Some(i) => Some(i.as_str()),
                    None => None,
                },
            },
        }
    }

    pub fn effort_level(&self) -> (r: Option<&str>)
        ensures
            opt_str_view(r) == self.effort_spec(),
    {
        match &self.effort {
            None => None,
            Some(e) => match &e.level {
                Some(l) => Some(l.as_str()),
                None => None,
            },
        }
    }

    /// Directory the bar should describe: workspace current dir, falling
    /// back to the project dir, then the raw cwd.
    pub fn dir(&self) -> (r: Option<&str>)
        ensures
            opt_str_view(r) == self.dir_spec(),
    {
        let from_workspace: Option<&str> = match &self.workspace {
            None => None,
            Some(w) => match &w.current_dir {
                Some(d) => Some(d.as_str()),
                None => match &w.project_dir {
                    Some(p) => Some(p.as_str()),
                    None => None,
                },
            },
        };
        match from_workspace {
            Some(d) => Some(d),
            None => match &self.cwd {
                Some(c) => Some(c.as_str()),
                None => None,
            },
        }
    }

    /// Tokens currently in the context window: the sum of the last API
    /// call's input and cache tokens, falling back to `total_input_tokens`
    /// (the same sum, pre-computed by the host) when `current_usage` is
    /// null.
    pub fn current_tokens(&self) -> (r: Option<u64>)
        requires
            self.tokens_fit(),
        ensures
            match self.tokens_spec() {
                Some(t) => r == Some(t as u64),
                None => r is None,
            },
    {
        match &self.context_window {
            None => None,
            Some(window) => match &window.current_usage {
                Some(usage) => {
                    let a = match usage.input_tokens {
                        Some(v) => v,
                        None => 0,
                    };
                    let b = match usage.cache_creation_input_tokens {
                        Some(v) => v,
                        None => 0,
                    };
                    let c = match usage.cache_read_input_tokens {
                        Some(v) => v,
                        None => 0,
                    };
                    Some(a + b + c)
                },
                None => window.total_input_tokens,
            },
        }
    }

    pub fn context_window_size(&self) -> (r: Option<u64>)
        ensures
            r == self.window_size_spec(),
    {
        match &self.context_window {
            None => None,
            Some(w) => w.context_window_size,
        }
    }

    pub fn total_duration_ms(&self) -> (r: Option<u64>)
        ensures
            r == self.duration_spec(),
    {
        match &self.cost {
            None => None,
            Some(c) => c.total_duration_ms,
        }
    }

    pub fn lines_added(&self) -> (r: Option<u64>)
        ensures
            r == self.lines_added_spec(),
    {
        match &self.cost {
            None => None,
            Some(c) => c.total_lines_added,
        }
    }

    pub fn lines_removed(&self) -> (r: Option<u64>)
        ensures
            r == self.lines_removed_spec(),
    {
        match &self.cost {
            None => None,
            Some(c) => c.total_lines_removed,
        }
    }
}

} // verus!
