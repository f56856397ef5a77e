//! The built-in commands.
//!
//! The table describes only the mechanism of each command, never a domain of values: the program
//! behind the window is the one that judges a value.

use crate::text::{pad, padded, same};
use vstd::prelude::*;

verus! {

/// A command that is answered on the spot.
#[derive(Clone, Copy, Debug, PartialEq, Eq, Structural)]
pub enum Local {
    Status,
    Help,
}

/// How a command is carried out.
#[derive(Debug, PartialEq, Eq)]
pub enum Route {
    /// Set a launch flag from the argument as it stands, and relaunch into the same session.
    RespawnFlag(&'static str),
    /// Relaunch into a fresh session, with an empty transcript.
    Clear,
    /// Answer without asking the model.
    Local(Local),
}

/// `Route` over sequences.
pub enum RouteView {
    RespawnFlag(Seq<char>),
    Clear,
    Local(Local),
}

impl DeepView for Route {
    type V = RouteView;

    open spec fn deep_view(&self) -> RouteView {
        match self {
            Route::RespawnFlag(flag) => RouteView::RespawnFlag(flag@),
            Route::Clear => RouteView::Clear,
            Route::Local(local) => RouteView::Local(*local),
        }
    }
}

/// A row of the table.
#[derive(Debug, PartialEq, Eq)]
pub struct Cmd {
    pub name: &'static str,
    pub route: Route,
    /// Shown by the help command, never used to refuse a value.
    pub usage: &'static str,
    pub help: &'static str,
}

/// `Cmd` over sequences.
pub struct CmdView {
    pub name: Seq<char>,
    pub route: RouteView,
    pub usage: Seq<char>,
    pub help: Seq<char>,
}

impl DeepView for Cmd {
    type V = CmdView;

    open spec fn deep_view(&self) -> CmdView {
        CmdView {
            name: self.name@,
            route: self.route.deep_view(),
            usage: self.usage@,
            help: self.help@,
        }
    }
}

/// The table of commands.
pub open spec fn command_table() -> Seq<CmdView> {
    seq![
        CmdView {
            name: "/model"@,
            route: RouteView::RespawnFlag("--model"@),
            usage: "/model [alias|full-id]"@,
            help: "switch model (no arg: show current); value passed to the CLI as-is"@,
        },
        CmdView {
            name: "/permission-mode"@,
            route: RouteView::RespawnFlag("--permission-mode"@),
            usage: "/permission-mode <mode>"@,
            help: "set permission mode (overrides the dropdown); CLI validates"@,
        },
        CmdView {
            name: "/clear"@,
            route: RouteView::Clear,
            usage: "/clear"@,
            help: "start a fresh session (conversation context dropped)"@,
        },
        CmdView {
            name: "/status"@,
            route: RouteView::Local(Local::Status),
            usage: "/status"@,
            help: "show model / session id / permission-mode / last-turn tokens"@,
        },
        CmdView {
            name: "/help"@,
            route: RouteView::Local(Local::Help),
            usage: "/help"@,
            help: "list these commands"@,
        },
    ]
}

/// The table of commands.
pub fn commands() -> (table: Vec<Cmd>)
    ensures
        table.deep_view() == command_table(),
{
    let mut table: Vec<Cmd> = Vec::new();
    table.push(
        Cmd {
            name: "/model",
            route: Route::RespawnFlag("--model"),
            usage: "/model [alias|full-id]",
            help: "switch model (no arg: show current); value passed to the CLI as-is",
        },
    );
    table.push(
        Cmd {
            name: "/permission-mode",
            route: Route::RespawnFlag("--permission-mode"),
            usage: "/permission-mode <mode>",
            help: "set permission mode (overrides the dropdown); CLI validates",
        },
    );
    table.push(
        Cmd {
            name: "/clear",
            route: Route::Clear,
            usage: "/clear",
            help: "start a fresh session (conversation context dropped)",
        },
    );
    table.push(
        Cmd {
            name: "/status",
            route: Route::Local(Local::Status),
            usage: "/status",
            help: "show model / session id / permission-mode / last-turn tokens",
        },
    );
    table.push(
        Cmd {
            name: "/help",
            route: Route::Local(Local::Help),
            usage: "/help",
            help: "list these commands",
        },
    );
    proof {
        assert(table.deep_view() =~= command_table());
    }
    table
}

/// The first of the rows that is called `name`.
pub open spec fn row_called(rows: Seq<CmdView>, name: Seq<char>) -> Option<CmdView>
    decreases rows.len(),
{
    if rows.len() == 0 {
        None
    } else if rows[0].name == name {
        Some(rows[0])
    } else {
        row_called(rows.drop_first(), name)
    }
}

/// The command called `name`.
pub open spec fn command_called(name: Seq<char>) -> Option<CmdView> {
    row_called(command_table(), name)
}

/// The row of the command called `name`, if there is one.
pub fn lookup_cmd(name: &str) -> (res: Option<Cmd>)
    ensures
        res.deep_view() == command_called(name@),
{
    let mut table = commands();
    let ghost all = table.deep_view();
    let mut i: usize = 0;
    proof {
        assert(all.skip(0) =~= all);
    }
    while i < table.len()
        invariant
            i <= table@.len(),
            all == table.deep_view(),
            all == command_table(),
            row_called(all, name@) == row_called(all.skip(i as int), name@),
        decreases table@.len() - i,
    {
        proof {
            assert(all.skip(i as int).drop_first() =~= all.skip(i + 1));
            assert(all.skip(i as int)[0] == table@[i as int].deep_view());
        }
        if same(table[i].name, name) {
            return Some(table.swap_remove(i));
        }
        i += 1;
    }
    None
}

/// How wide the help text keeps the column of usages.
pub const USAGE_WIDTH: usize = 22;

/// The line of the help text for a row.
pub open spec fn row_line(row: CmdView) -> Seq<char> {
    "  "@ + padded(row.usage, USAGE_WIDTH as nat) + " "@ + row.help + "\n"@
}

/// The lines of the help text, one for each row.
pub open spec fn help_lines(rows: Seq<CmdView>) -> Seq<char>
    decreases rows.len(),
{
    if rows.len() == 0 {
        Seq::empty()
    } else {
        help_lines(rows.drop_last()) + row_line(rows.last())
    }
}

/// The help text, for an assistant shown as `label`.
pub open spec fn help_text(label: Seq<char>) -> Seq<char> {
    "Commands — anything else starting with / is sent to "@ + label + " verbatim:\n"@ + help_lines(
        command_table(),
    )
        + "\nThe GUI does not validate values — the CLI does. /context and /cost are intentionally not provided (see DESIGN.md)."@
}

/// The help text, made from the table.
pub fn cmd_help_text(label: &str) -> (text: String)
    ensures
        text@ == help_text(label@),
{
    let table = commands();
    let ghost rows = command_table();
    let mut lines = String::new();
    for i in 0..table.len()
        invariant
            rows == table.deep_view(),
            lines@ == help_lines(rows.take(i as int)),
    {
        proof {
            assert(rows.take(i + 1).drop_last() =~= rows.take(i as int));
            assert(rows.take(i + 1).last() == table@[i as int].deep_view());
        }
        let ghost before = lines@;
        lines.append("  ");
        lines.append(pad(table[i].usage, USAGE_WIDTH).as_str());
        lines.append(" ");
        lines.append(table[i].help);
        lines.append("\n");
        proof {
            assert(lines@ =~= before + row_line(rows[i as int]));
        }
    }
    proof {
        assert(rows.take(rows.len() as int) =~= rows);
    }
    let mut text = "Commands — anything else starting with / is sent to ".to_owned();
    text.append(label);
    text.append(" verbatim:\n");
    text.append(lines.as_str());
    text.append(
        "\nThe GUI does not validate values — the CLI does. /context and /cost are intentionally not provided (see DESIGN.md).",
    );
    text
}

} // verus!
