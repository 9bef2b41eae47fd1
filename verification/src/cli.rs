//! The command line of the daemon program.
use vstd::prelude::*;
use vstd::string::*;

use crate::text::str_equal;

verus! {

/// What the command line sets: the node name, the local apply allow-list and
/// the outbound target peers, each as given.
#[derive(Debug, Clone)]
pub struct CliConfig {
    pub node_name: Option<String>,
    pub selected_peers: Option<String>,
    pub target_peers: Option<String>,
}

/// The settings of a command line as values.
pub struct CliConfigView {
    pub node_name: Option<Seq<char>>,
    pub selected_peers: Option<Seq<char>>,
    pub target_peers: Option<Seq<char>>,
}

/// What the program is asked to do.
#[derive(Debug, Clone)]
pub enum CliCommand {
    /// Show the usage and leave.
    Help,
    /// Run the daemon with these settings.
    Run(CliConfig),
}

/// What the program is asked to do, as a value.
pub enum CliCommandView {
    Help,
    Run(CliConfigView),
}

/// An optional string by its view.
pub open spec fn opt_str(value: Option<String>) -> Option<Seq<char>> {
    match value {
        Some(v) => Some(v@),
        None => None,
    }
}

impl View for CliConfig {
    type V = CliConfigView;

    open spec fn view(&self) -> CliConfigView {
        CliConfigView {
            node_name: opt_str(self.node_name),
            selected_peers: opt_str(self.selected_peers),
            target_peers: opt_str(self.target_peers),
        }
    }
}

impl View for CliCommand {
    type V = CliCommandView;

    open spec fn view(&self) -> CliCommandView {
        match self {
            CliCommand::Help => CliCommandView::Help,
            CliCommand::Run(c) => CliCommandView::Run(c@),
        }
    }
}

/// No setting given.
pub open spec fn no_settings() -> CliConfigView {
    CliConfigView { node_name: None, selected_peers: None, target_peers: None }
}

/// Reads the arguments from position `i` on, with the settings read so far:
/// `-h` or `--help` asks for the usage at once; each flag takes the next
/// argument as its value, a later one replacing an earlier; a flag without a
/// value, and any other argument, is an error.
pub open spec fn parse_from(args: Seq<Seq<char>>, i: int, cfg: CliConfigView) -> Result<
    CliCommandView,
    Seq<char>,
>
    decreases args.len() - i,
{
    if i >= args.len() {
        Ok(CliCommandView::Run(cfg))
    } else {
        let a = args[i];
        if a == "-h"@ || a == "--help"@ {
            Ok(CliCommandView::Help)
        } else if a == "--node-name"@ {
            if i + 1 < args.len() {
                parse_from(args, i + 2, CliConfigView { node_name: Some(args[i + 1]), ..cfg })
            } else {
                Err("Missing value for --node-name"@)
            }
        } else if a == "--selected-peers"@ {
            if i + 1 < args.len() {
                parse_from(args, i + 2, CliConfigView { selected_peers: Some(args[i + 1]), ..cfg })
            } else {
                Err("Missing value for --selected-peers"@)
            }
        } else if a == "--target-peers"@ {
            if i + 1 < args.len() {
                parse_from(args, i + 2, CliConfigView { target_peers: Some(args[i + 1]), ..cfg })
            } else {
                Err("Missing value for --target-peers"@)
            }
        } else {
            Err("Unknown argument: "@ + a)
        }
    }
}

/// A parse result by its view.
pub open spec fn parse_view(r: Result<CliCommand, String>) -> Result<CliCommandView, Seq<char>> {
    match r {
        Ok(c) => Ok(c@),
        Err(e) => Err(e@),
    }
}

/// The arguments by their views.
pub open spec fn args_view(args: Seq<String>) -> Seq<Seq<char>> {
    args.map_values(|a: String| a@)
}

/// Reads the program's arguments (without the program's own name).
pub fn parse_args(args: &Vec<String>) -> (r: Result<CliCommand, String>)
    ensures
        parse_view(r) == parse_from(args_view(args@), 0, no_settings()),
{
    let ghost all = args_view(args@);
    let n: usize = args.len();
    let mut node_name: Option<String> = None;
    let mut selected_peers: Option<String> = None;
    let mut target_peers: Option<String> = None;
    let mut i: usize = 0;
    while i < n
        invariant
            n == args@.len(),
            all == args_view(args@),
            i <= n,
            parse_from(all, i as int, CliConfigView {
                node_name: opt_str(node_name),
                selected_peers: opt_str(selected_peers),
                target_peers: opt_str(target_peers),
            }) == parse_from(all, 0, no_settings()),
        decreases n - i,
    {
        let arg = args[i].as_str();
        assert(all[i as int] == arg@);
        if str_equal(arg, "-h") || str_equal(arg, "--help") {
            return Ok(CliCommand::Help);
        } else if str_equal(arg, "--node-name") {
            if i + 1 < n {
                node_name = Some(args[i + 1].clone());
                i = i + 2;
            } else {
                return Err(String::from_str("Missing value for --node-name"));
            }
        } else if str_equal(arg, "--selected-peers") {
            if i + 1 < n {
                selected_peers = Some(args[i + 1].clone());
                i = i + 2;
            } else {
                return Err(String::from_str("Missing value for --selected-peers"));
            }
        } else if str_equal(arg, "--target-peers") {
            if i + 1 < n {
                target_peers = Some(args[i + 1].clone());
                i = i + 2;
            } else {
                return Err(String::from_str("Missing value for --target-peers"));
            }
        } else {
            return Err(String::from_str("Unknown argument: ").concat(arg));
        }
    }
    Ok(CliCommand::Run(CliConfig { node_name, selected_peers, target_peers }))
}

/// Somewhere from position `i` on, `flag` is directly followed by `value`.
pub open spec fn flag_given(args: Seq<Seq<char>>, i: int, flag: Seq<char>, value: Seq<char>) -> bool {
    exists|k: int| i <= k && k + 1 < args.len() && #[trigger] args[k] == flag && args[k + 1] == value
}

/// A setting that only `flag` sets: where it holds a value, `flag` is given
/// that value on the command line; where `flag` does not occur, it is unset.
pub open spec fn set_only_by(args: Seq<Seq<char>>, setting: Option<Seq<char>>, flag: Seq<char>) -> bool {
    &&& (setting matches Some(v) ==> flag_given(args, 0, flag, v))
    &&& (!args.contains(flag) ==> setting is None)
}

proof fn lemma_flag_given_from(args: Seq<Seq<char>>, i: int, j: int, flag: Seq<char>, v: Seq<char>)
    requires
        i <= j,
        flag_given(args, j, flag, v),
    ensures
        flag_given(args, i, flag, v),
{
    let k = choose|k: int| j <= k && k + 1 < args.len() && #[trigger] args[k] == flag && args[k + 1] == v;
    assert(args[k] == flag);
}

/// Keeps a setting, or takes a value that `flag` is given from `i` on.
pub open spec fn kept_or_given(
    args: Seq<Seq<char>>,
    i: int,
    before: Option<Seq<char>>,
    after: Option<Seq<char>>,
    flag: Seq<char>,
) -> bool {
    after == before || (after matches Some(v) && flag_given(args, i, flag, v))
}

proof fn lemma_flags_own(args: Seq<Seq<char>>, i: int, cfg: CliConfigView)
    requires
        0 <= i,
    ensures
        parse_from(args, i, cfg) matches Ok(CliCommandView::Run(c)) ==> {
            &&& kept_or_given(args, i, cfg.node_name, c.node_name, "--node-name"@)
            &&& kept_or_given(args, i, cfg.selected_peers, c.selected_peers, "--selected-peers"@)
            &&& kept_or_given(args, i, cfg.target_peers, c.target_peers, "--target-peers"@)
        },
    decreases args.len() - i,
{
    if i < args.len() {
        let a = args[i];
        if a == "-h"@ || a == "--help"@ {
        } else if (a == "--node-name"@ || a == "--selected-peers"@ || a == "--target-peers"@) && i + 1
            < args.len() {
            let v = args[i + 1];
            let next = if a == "--node-name"@ {
                CliConfigView { node_name: Some(v), ..cfg }
            } else if a == "--selected-peers"@ {
                CliConfigView { selected_peers: Some(v), ..cfg }
            } else {
                CliConfigView { target_peers: Some(v), ..cfg }
            };
            assert(parse_from(args, i, cfg) == parse_from(args, i + 2, next));
            lemma_flags_own(args, i + 2, next);
            assert(args[i] == a);
            assert(flag_given(args, i, a, v));
            if let Ok(CliCommandView::Run(c)) = parse_from(args, i, cfg) {
                if c.node_name != next.node_name {
                    lemma_flag_given_from(args, i, i + 2, "--node-name"@, c.node_name->0);
                }
                if c.selected_peers != next.selected_peers {
                    lemma_flag_given_from(args, i, i + 2, "--selected-peers"@, c.selected_peers->0);
                }
                if c.target_peers != next.target_peers {
                    lemma_flag_given_from(args, i, i + 2, "--target-peers"@, c.target_peers->0);
                }
            }
        }
    }
}

/// Each flag sets its own setting and no other: after a successful parse, a
/// setting holds a value only where its own flag is given that value, and
/// stays unset where its flag does not occur.
pub proof fn law_flags_set_own_settings(args: Seq<Seq<char>>)
    ensures
        parse_from(args, 0, no_settings()) matches Ok(CliCommandView::Run(c)) ==> {
            &&& set_only_by(args, c.node_name, "--node-name"@)
            &&& set_only_by(args, c.selected_peers, "--selected-peers"@)
            &&& set_only_by(args, c.target_peers, "--target-peers"@)
        },
{
    lemma_flags_own(args, 0, no_settings());
    if let Ok(CliCommandView::Run(c)) = parse_from(args, 0, no_settings()) {
        if c.node_name is Some {
            let v = c.node_name->0;
            let k = choose|k: int| 0 <= k && k + 1 < args.len() && #[trigger] args[k] == "--node-name"@ && args[k + 1] == v;
            assert(args.contains("--node-name"@));
        }
        if c.selected_peers is Some {
            let v = c.selected_peers->0;
            let k = choose|k: int| 0 <= k && k + 1 < args.len() && #[trigger] args[k] == "--selected-peers"@ && args[k + 1] == v;
            assert(args.contains("--selected-peers"@));
        }
        if c.target_peers is Some {
            let v = c.target_peers->0;
            let k = choose|k: int| 0 <= k && k + 1 < args.len() && #[trigger] args[k] == "--target-peers"@ && args[k + 1] == v;
            assert(args.contains("--target-peers"@));
        }
    }
}

} // verus!
