use vstd::prelude::*;

verus! {

/// The workspace a window opens in, and whether it opens there without
/// showing that workspace.
#[derive(Debug)]
pub struct WorkspaceOptions {
    pub workspace: String,
    pub silent: bool,
}

/// Where and how a window is added, from the rules that match it; `F` is
/// the configuration of floating windows.
#[derive(Debug)]
pub struct AddOptions<F> {
    pub monitor: Option<String>,
    pub workspace_options: Option<WorkspaceOptions>,
    pub floating_config: Option<F>,
}

/// What a rule does with the windows it matches.
#[derive(Debug)]
pub enum WindowBehavior<F> {
    /// The window floats with this configuration.
    Float { config: F },
    /// The window is tiled on a monitor and in a workspace.
    Insert { monitor: Option<String>, workspace: Option<String>, silent: bool },
}

/// A rule for the windows that its filter matches.
#[derive(Debug)]
pub struct WindowRule<F> {
    pub behavior: WindowBehavior<F>,
}

/// The options after merging `rule` into `o`: a floating rule sets the
/// floating configuration, an insertion rule sets the monitor and the
/// workspace options.
pub open spec fn merged<F>(o: AddOptions<F>, rule: WindowRule<F>) -> AddOptions<F> {
    match rule.behavior {
        WindowBehavior::Float { config } => AddOptions { floating_config: Some(config), ..o },
        WindowBehavior::Insert { monitor, workspace, silent } => AddOptions {
            monitor,
            workspace_options: match workspace {
                Some(w) => Some(WorkspaceOptions { workspace: w, silent }),
                None => None,
            },
            ..o
        },
    }
}

/// Options from merging, in order, the first `n` rules that match.
pub open spec fn merged_all<F>(
    rules: Seq<WindowRule<F>>,
    matched: Seq<bool>,
    n: int,
) -> AddOptions<F>
    decreases n,
{
    if n <= 0 {
        AddOptions { monitor: None, workspace_options: None, floating_config: None }
    } else if matched[n - 1] {
        merged(merged_all(rules, matched, n - 1), rules[n - 1])
    } else {
        merged_all(rules, matched, n - 1)
    }
}

fn clone_opt_string(s: &Option<String>) -> (r: Option<String>)
    ensures
        r == *s,
{
    match s {
        Some(v) => Some(v.clone()),
        None => None,
    }
}

impl<F: Copy> AddOptions<F> {
    /// Options with nothing set.
    pub fn new() -> (o: Self)
        ensures
            o == (AddOptions::<F> { monitor: None, workspace_options: None, floating_config: None }),
    {
        AddOptions { monitor: None, workspace_options: None, floating_config: None }
    }

    /// Applies `other`: a floating rule sets the floating configuration, an
    /// insertion rule replaces the monitor and the workspace options.
    pub fn merge_with_rule(&mut self, other: &WindowRule<F>)
        ensures
            *final(self) == merged(*old(self), *other),
    {
        match &other.behavior {
            WindowBehavior::Float { config } => self.floating_config = Some(*config),
            WindowBehavior::Insert { monitor, workspace, silent } => {
                self.monitor = clone_opt_string(monitor);
                self.workspace_options = match workspace {
                    Some(w) => Some(WorkspaceOptions { workspace: w.clone(), silent: *silent }),
                    None => None,
                };
            },
        }
    }
}

/// The rules of the windows.
pub trait Rules<F> {
    spec fn rules_seq(&self) -> Seq<WindowRule<F>>;

    /// The options from the rules that match a window, merged in order;
    /// `matched[i]` tells whether rule `i` matches it. `None` when no rule
    /// matches.
    fn get_add_options(&self, matched: &Vec<bool>) -> (r: Option<AddOptions<F>>)
        requires
            matched@.len() == self.rules_seq().len(),
        ensures
            match r {
                Some(o) => (exists|i: int| 0 <= i < matched@.len() && matched@[i]) && o
                    == merged_all(self.rules_seq(), matched@, matched@.len() as int),
                None => forall|i: int| 0 <= i < matched@.len() ==> !matched@[i],
            },
    ;
}

impl<F: Copy> Rules<F> for Vec<WindowRule<F>> {
    open spec fn rules_seq(&self) -> Seq<WindowRule<F>> {
        self@
    }

    fn get_add_options(&self, matched: &Vec<bool>) -> (r: Option<AddOptions<F>>) {
        let mut empty = true;
        let mut options = AddOptions::new();
        let n = self.len();
        for i in 0..n
            invariant
                n == self@.len(),
                matched@.len() == n,
                options == merged_all(self@, matched@, i as int),
                empty == forall|j: int| 0 <= j < i ==> !matched@[j],
        {
            if matched[i] {
                empty = false;
                options.merge_with_rule(&self[i]);
            }
        }
        match empty {
            true => None,
            false => Some(options),
        }
    }
}

} // verus!
