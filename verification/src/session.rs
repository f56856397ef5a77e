//! A session: what is known of it, how its program is launched, and what it may touch.

use crate::text::{
    decimal, decimal_text, join, joined, on_one_line, one_line, same, text_or,
};
use crate::wire::Usage;
use vstd::prelude::*;

verus! {

/// The permission mode that a row of the mode list stands for; the first row stands for none.
pub open spec fn mode_flag_of(mode: u32) -> Option<Seq<char>> {
    if mode == 1 {
        Some("plan"@)
    } else if mode == 2 {
        Some("acceptEdits"@)
    } else if mode == 3 {
        Some("auto"@)
    } else {
        None
    }
}

/// The permission mode that a row of the mode list stands for, if it stands for one.
pub fn mode_flag(mode: u32) -> (flag: Option<&'static str>)
    ensures
        flag.deep_view() == mode_flag_of(mode),
{
    match mode {
        1 => Some("plan"),
        2 => Some("acceptEdits"),
        3 => Some("auto"),
        _ => None,
    }
}

/// What a row of the mode list says.
pub open spec fn mode_label_of(mode: u32) -> Seq<char> {
    if mode == 0 {
        "Ask (default)"@
    } else if mode == 1 {
        "Plan"@
    } else if mode == 2 {
        "Accept edits"@
    } else if mode == 3 {
        "Auto"@
    } else {
        "?"@
    }
}

/// How many rows the mode list has.
pub const MODE_COUNT: u32 = 4;

/// What a row of the mode list says.
pub fn mode_label(mode: u32) -> (label: &'static str)
    ensures
        label@ == mode_label_of(mode),
{
    match mode {
        0 => "Ask (default)",
        1 => "Plan",
        2 => "Accept edits",
        3 => "Auto",
        _ => "?",
    }
}

/// What is known of a session.
#[derive(Debug, PartialEq, Eq)]
pub struct Session {
    /// The folder that the session works in, as it is shown.
    pub workdir: Option<String>,
    pub session_id: Option<String>,
    /// A turn asked for permission and got no answer yet.
    pub pending_approval: bool,
    /// The folders that an approval would open up.
    pub pending_dirs: Vec<String>,
    /// The folders that were opened up.
    pub allowed_dirs: Vec<String>,
    /// A program is there to be written to.
    pub running: bool,
    /// Launch flags set by commands, each with its value. A flag set again is replaced.
    pub overrides: Vec<(String, String)>,
    /// The last of these that a program came up with. They are restored where a command's
    /// relaunch fails.
    pub good_overrides: Vec<(String, String)>,
    /// A command's relaunch has not come up yet: if the program dies now, the flags were bad.
    pub cmd_pending: bool,
    /// The last command was rejected, and taken back.
    pub cmd_recovering: bool,
    /// The session's id when a command last launched the program. It is restored, with the flags,
    /// where that fails.
    pub kept_id: Option<String>,
    pub model: Option<String>,
    pub last_usage: Option<Usage>,
}

/// `Session` over sequences.
#[verifier::ext_equal]
pub struct SessionView {
    pub workdir: Option<Seq<char>>,
    pub session_id: Option<Seq<char>>,
    pub pending_approval: bool,
    pub pending_dirs: Seq<Seq<char>>,
    pub allowed_dirs: Seq<Seq<char>>,
    pub running: bool,
    pub overrides: Seq<(Seq<char>, Seq<char>)>,
    pub good_overrides: Seq<(Seq<char>, Seq<char>)>,
    pub cmd_pending: bool,
    pub cmd_recovering: bool,
    pub kept_id: Option<Seq<char>>,
    pub model: Option<Seq<char>>,
    pub last_usage: Option<Usage>,
}

impl View for Session {
    type V = SessionView;

    open spec fn view(&self) -> SessionView {
        SessionView {
            workdir: self.workdir.deep_view(),
            session_id: self.session_id.deep_view(),
            pending_approval: self.pending_approval,
            pending_dirs: self.pending_dirs.deep_view(),
            allowed_dirs: self.allowed_dirs.deep_view(),
            running: self.running,
            overrides: self.overrides.deep_view(),
            good_overrides: self.good_overrides.deep_view(),
            cmd_pending: self.cmd_pending,
            cmd_recovering: self.cmd_recovering,
            kept_id: self.kept_id.deep_view(),
            model: self.model.deep_view(),
            last_usage: self.last_usage,
        }
    }
}

/// A session in a folder, if one is given, of which nothing else is known.
pub open spec fn fresh(workdir: Option<Seq<char>>) -> SessionView {
    SessionView {
        workdir,
        session_id: None,
        pending_approval: false,
        pending_dirs: Seq::empty(),
        allowed_dirs: Seq::empty(),
        running: false,
        overrides: Seq::empty(),
        good_overrides: Seq::empty(),
        cmd_pending: false,
        cmd_recovering: false,
        kept_id: None,
        model: None,
        last_usage: None,
    }
}

/// The flags without `flag`.
pub open spec fn without_flag(
    flags: Seq<(Seq<char>, Seq<char>)>,
    flag: Seq<char>,
) -> Seq<(Seq<char>, Seq<char>)> {
    flags.filter(|pair: (Seq<char>, Seq<char>)| pair.0 != flag)
}

/// The flags with `flag` set to `value`: it stands once, behind the others.
pub open spec fn with_flag(
    flags: Seq<(Seq<char>, Seq<char>)>,
    flag: Seq<char>,
    value: Seq<char>,
) -> Seq<(Seq<char>, Seq<char>)> {
    without_flag(flags, flag).push((flag, value))
}

/// The value of `flag`, if it is set.
pub open spec fn flag_value(
    flags: Seq<(Seq<char>, Seq<char>)>,
    flag: Seq<char>,
) -> Option<Seq<char>>
    decreases flags.len(),
{
    if flags.len() == 0 {
        None
    } else if flags[0].0 == flag {
        Some(flags[0].1)
    } else {
        flag_value(flags.drop_first(), flag)
    }
}

/// A copy of the flags.
pub fn copy_flags(flags: &Vec<(String, String)>) -> (res: Vec<(String, String)>)
    ensures
        res.deep_view() == flags.deep_view(),
{
    let mut res: Vec<(String, String)> = Vec::new();
    for i in 0..flags.len()
        invariant
            res.deep_view() == flags.deep_view().take(i as int),
    {
        let ghost before = res.deep_view();
        res.push((flags[i].0.clone(), flags[i].1.clone()));
        proof {
            assert(res.deep_view() =~= before.push(flags.deep_view()[i as int]));
        }
    }
    res
}

/// The value of `flag`, if it is set.
pub fn find_flag(flags: &Vec<(String, String)>, flag: &str) -> (res: Option<String>)
    ensures
        res.deep_view() == flag_value(flags.deep_view(), flag@),
{
    let ghost all = flags.deep_view();
    proof {
        assert(all.skip(0) =~= all);
    }
    for i in 0..flags.len()
        invariant
            all == flags.deep_view(),
            flag_value(all, flag@) == flag_value(all.skip(i as int), flag@),
    {
        proof {
            assert(all.skip(i as int).drop_first() =~= all.skip(i + 1));
            assert(all.skip(i as int)[0] == (flags@[i as int].0@, flags@[i as int].1@));
        }
        if same(flags[i].0.as_str(), flag) {
            return Some(flags[i].1.clone());
        }
    }
    None
}

/// The flags without `flag`.
fn drop_flag(flags: &Vec<(String, String)>, flag: &str) -> (res: Vec<(String, String)>)
    ensures
        res.deep_view() == without_flag(flags.deep_view(), flag@),
{
    let ghost all = flags.deep_view();
    let ghost other = |pair: (Seq<char>, Seq<char>)| pair.0 != flag@;
    let mut res: Vec<(String, String)> = Vec::new();
    proof {
        assert(res.deep_view() =~= all.take(0).filter(other)) by {
            reveal(Seq::filter);
        }
    }
    for i in 0..flags.len()
        invariant
            all == flags.deep_view(),
            other == (|pair: (Seq<char>, Seq<char>)| pair.0 != flag@),
            res.deep_view() == all.take(i as int).filter(other),
    {
        let ghost before = res.deep_view();
        let ghost pair = all[i as int];
        proof {
            assert(pair == (flags@[i as int].0@, flags@[i as int].1@));
            assert(all.take(i + 1).drop_last() =~= all.take(i as int));
            reveal(Seq::filter);
        }
        if !same(flags[i].0.as_str(), flag) {
            res.push((flags[i].0.clone(), flags[i].1.clone()));
            proof {
                assert(res.deep_view() =~= before.push(pair));
            }
        }
    }
    proof {
        assert(all.take(all.len() as int) =~= all);
    }
    res
}

/// Sets a launch flag, in place of an earlier value. The value is taken as it stands.
pub fn set_override(session: &mut Session, flag: &str, value: &str)
    ensures
        final(session)@ == (SessionView {
            overrides: with_flag(old(session)@.overrides, flag@, value@),
            ..old(session)@
        }),
{
    let mut flags = drop_flag(&session.overrides, flag);
    let ghost before = flags.deep_view();
    flags.push((flag.to_owned(), value.to_owned()));
    proof {
        assert(flags.deep_view() =~= before.push((flag@, value@)));
    }
    session.overrides = flags;
}

impl Session {
    /// A session in a folder, if one is given, of which nothing else is known.
    pub fn new(workdir: Option<String>) -> (session: Session)
        ensures
            session@ == fresh(workdir.deep_view()),
    {
        let session = Session {
            workdir,
            session_id: None,
            pending_approval: false,
            pending_dirs: Vec::new(),
            allowed_dirs: Vec::new(),
            running: false,
            overrides: Vec::new(),
            good_overrides: Vec::new(),
            cmd_pending: false,
            cmd_recovering: false,
            kept_id: None,
            model: None,
            last_usage: None,
        };
        proof {
            assert(session@ =~~= fresh(workdir.deep_view()));
        }
        session
    }
}

/// The flag of the permission mode.
pub const MODE_FLAG: &'static str = "--permission-mode";

/// The permission mode to launch with, if any: after an approval edits are accepted; else what a
/// command set comes before what the mode list says.
pub open spec fn permission_mode(
    session: SessionView,
    mode: u32,
    accept_edits: bool,
) -> Option<Seq<char>> {
    if accept_edits {
        Some("acceptEdits"@)
    } else {
        match flag_value(session.overrides, MODE_FLAG@) {
            Some(value) => Some(value),
            None => mode_flag_of(mode),
        }
    }
}

/// An option and its value, or nothing where there is no value.
pub open spec fn option_args(option: Seq<char>, value: Option<Seq<char>>) -> Seq<Seq<char>> {
    match value {
        Some(value) => seq![option, value],
        None => Seq::empty(),
    }
}

/// An option for each of the folders.
pub open spec fn dir_args(dirs: Seq<Seq<char>>) -> Seq<Seq<char>>
    decreases dirs.len(),
{
    if dirs.len() == 0 {
        Seq::empty()
    } else {
        dir_args(dirs.drop_last()) + seq!["--add-dir"@, dirs.last()]
    }
}

/// The flags with their values.
pub open spec fn flag_args(flags: Seq<(Seq<char>, Seq<char>)>) -> Seq<Seq<char>>
    decreases flags.len(),
{
    if flags.len() == 0 {
        Seq::empty()
    } else {
        flag_args(flags.drop_last()) + seq![flags.last().0, flags.last().1]
    }
}

/// What every launch has in common.
pub open spec fn common_args() -> Seq<Seq<char>> {
    seq![
        "-p"@,
        "--input-format"@,
        "stream-json"@,
        "--output-format"@,
        "stream-json"@,
        "--verbose"@,
        "--include-partial-messages"@,
    ]
}

/// The arguments of a launch: what all have in common, the session to resume, the permission mode,
/// the folders that were opened up, and the other flags that commands set.
pub open spec fn launch_args(session: SessionView, mode: u32, accept_edits: bool) -> Seq<
    Seq<char>,
> {
    common_args() + option_args("--resume"@, session.session_id) + option_args(
        MODE_FLAG@,
        permission_mode(session, mode, accept_edits),
    ) + dir_args(session.allowed_dirs) + flag_args(without_flag(session.overrides, MODE_FLAG@))
}

/// Adds an argument.
fn push_arg(args: &mut Vec<String>, arg: &str)
    ensures
        final(args).deep_view() == old(args).deep_view().push(arg@),
{
    args.push(arg.to_owned());
    proof {
        assert(args.deep_view() =~= old(args).deep_view().push(arg@));
    }
}

/// Adds an option and its value, where there is a value.
fn push_option(args: &mut Vec<String>, option: &str, value: &Option<String>)
    ensures
        final(args).deep_view() == old(args).deep_view() + option_args(option@, value.deep_view()),
{
    if let Some(value) = value {
        push_arg(args, option);
        push_arg(args, value.as_str());
    }
    proof {
        assert(args.deep_view() =~= old(args).deep_view() + option_args(
            option@,
            value.deep_view(),
        ));
    }
}

/// Adds an option for each of the folders.
fn push_dirs(args: &mut Vec<String>, dirs: &Vec<String>)
    ensures
        final(args).deep_view() == old(args).deep_view() + dir_args(dirs.deep_view()),
{
    let ghost all = dirs.deep_view();
    let ghost start = args.deep_view();
    proof {
        assert(start + dir_args(all.take(0)) =~= start);
    }
    for i in 0..dirs.len()
        invariant
            all == dirs.deep_view(),
            args.deep_view() == start + dir_args(all.take(i as int)),
    {
        let ghost before = args.deep_view();
        proof {
            assert(all.take(i + 1).drop_last() =~= all.take(i as int));
            assert(all[i as int] == dirs@[i as int]@);
        }
        push_arg(args, "--add-dir");
        push_arg(args, dirs[i].as_str());
        proof {
            assert(args.deep_view() =~= before + seq!["--add-dir"@, all[i as int]]);
            assert(args.deep_view() =~= start + dir_args(all.take(i + 1)));
        }
    }
    proof {
        assert(all.take(all.len() as int) =~= all);
    }
}

/// Adds the flags with their values.
fn push_flags(args: &mut Vec<String>, flags: &Vec<(String, String)>)
    ensures
        final(args).deep_view() == old(args).deep_view() + flag_args(flags.deep_view()),
{
    let ghost all = flags.deep_view();
    let ghost start = args.deep_view();
    proof {
        assert(start + flag_args(all.take(0)) =~= start);
    }
    for i in 0..flags.len()
        invariant
            all == flags.deep_view(),
            args.deep_view() == start + flag_args(all.take(i as int)),
    {
        let ghost before = args.deep_view();
        proof {
            assert(all.take(i + 1).drop_last() =~= all.take(i as int));
            assert(all[i as int] == (flags@[i as int].0@, flags@[i as int].1@));
        }
        push_arg(args, flags[i].0.as_str());
        push_arg(args, flags[i].1.as_str());
        proof {
            assert(args.deep_view() =~= before + seq![all[i as int].0, all[i as int].1]);
            assert(args.deep_view() =~= start + flag_args(all.take(i + 1)));
        }
    }
    proof {
        assert(all.take(all.len() as int) =~= all);
    }
}

/// What a session's status calls the permission mode.
pub open spec fn mode_text(session: SessionView, mode: u32) -> Seq<char> {
    text_or(flag_value(session.overrides, MODE_FLAG@), mode_label_of(mode))
}

/// The flags that commands set, in words.
pub open spec fn flags_text(flags: Seq<(Seq<char>, Seq<char>)>) -> Seq<char> {
    if flags.len() == 0 {
        "(none)"@
    } else {
        joined(flags.map_values(|pair: (Seq<char>, Seq<char>)| pair.0 + " "@ + pair.1), "  "@)
    }
}

/// The tokens of the last turn, in words. No share of a context window is told.
pub open spec fn usage_text(usage: Option<Usage>) -> Seq<char> {
    match usage {
        Some(usage) => "last turn — input "@ + decimal_text(usage.input as nat) + " (cache: "@
            + decimal_text(usage.cache_read as nat) + " read / "@ + decimal_text(
            usage.cache_create as nat,
        ) + " created), output "@ + decimal_text(usage.output as nat)
            + " (no context-window size in the stream-json protocol → no % shown)"@,
        None => "last turn — (no usage yet)"@,
    }
}

/// A session's status, on one line: its model, its id, its permission mode, the flags that commands
/// set, and the tokens of the last turn.
pub open spec fn status(session: SessionView, mode: u32) -> Seq<char> {
    on_one_line(
        "Status · model: "@ + text_or(session.model, "(unknown — send a message first)"@)
            + " · session: "@ + text_or(session.session_id, "(none yet)"@)
            + " · permission-mode: "@ + mode_text(session, mode) + " · overrides: "@ + flags_text(
            session.overrides,
        ) + " · "@ + usage_text(session.last_usage),
    )
}

/// `flags_text` as code.
fn describe_flags(flags: &Vec<(String, String)>) -> (text: String)
    ensures
        text@ == flags_text(flags.deep_view()),
{
    if flags.is_empty() {
        return "(none)".to_owned();
    }
    let ghost all = flags.deep_view();
    let ghost words = all.map_values(|pair: (Seq<char>, Seq<char>)| pair.0 + " "@ + pair.1);
    let mut parts: Vec<String> = Vec::new();
    for i in 0..flags.len()
        invariant
            all == flags.deep_view(),
            words == all.map_values(|pair: (Seq<char>, Seq<char>)| pair.0 + " "@ + pair.1),
            parts.deep_view() == words.take(i as int),
    {
        let ghost before = parts.deep_view();
        let mut part = flags[i].0.clone();
        part.append(" ");
        part.append(flags[i].1.as_str());
        parts.push(part);
        proof {
            assert(all[i as int] == (flags@[i as int].0@, flags@[i as int].1@));
            assert(parts.deep_view() =~= before.push(words[i as int]));
        }
    }
    proof {
        assert(words.take(words.len() as int) =~= words);
    }
    join(&parts, "  ")
}

/// `usage_text` as code.
fn describe_usage(usage: &Option<Usage>) -> (text: String)
    ensures
        text@ == usage_text(*usage),
{
    match usage {
        Some(usage) => {
            let mut text = "last turn — input ".to_owned();
            text.append(decimal(usage.input as u128).as_str());
            text.append(" (cache: ");
            text.append(decimal(usage.cache_read as u128).as_str());
            text.append(" read / ");
            text.append(decimal(usage.cache_create as u128).as_str());
            text.append(" created), output ");
            text.append(decimal(usage.output as u128).as_str());
            text.append(" (no context-window size in the stream-json protocol → no % shown)");
            text
        },
        None => "last turn — (no usage yet)".to_owned(),
    }
}

/// The text, or another in its place where there is none.
pub(crate) fn or_else<'a>(text: &'a Option<String>, other: &'a str) -> (res: &'a str)
    ensures
        res@ == text_or(text.deep_view(), other@),
{
    match text {
        Some(text) => text.as_str(),
        None => other,
    }
}

impl Session {
    /// The arguments of a launch.
    pub fn launch_args(&self, mode: u32, accept_edits: bool) -> (args: Vec<String>)
        ensures
            args.deep_view() == launch_args(self@, mode, accept_edits),
    {
        let pm: Option<String> = if accept_edits {
            Some("acceptEdits".to_owned())
        } else {
            match find_flag(&self.overrides, MODE_FLAG) {
                Some(value) => Some(value),
                None => match mode_flag(mode) {
                    Some(value) => Some(value.to_owned()),
                    None => None,
                },
            }
        };
        let mut args: Vec<String> = Vec::new();
        push_arg(&mut args, "-p");
        push_arg(&mut args, "--input-format");
        push_arg(&mut args, "stream-json");
        push_arg(&mut args, "--output-format");
        push_arg(&mut args, "stream-json");
        push_arg(&mut args, "--verbose");
        push_arg(&mut args, "--include-partial-messages");
        proof {
            assert(args.deep_view() =~= common_args());
        }
        push_option(&mut args, "--resume", &self.session_id);
        push_option(&mut args, MODE_FLAG, &pm);
        push_dirs(&mut args, &self.allowed_dirs);
        push_flags(&mut args, &drop_flag(&self.overrides, MODE_FLAG));
        args
    }

    /// The status, on one line.
    pub fn status_text(&self, mode: u32) -> (text: String)
        ensures
            text@ == status(self@, mode),
            !text@.contains('\n'),
    {
        let pm = find_flag(&self.overrides, MODE_FLAG);
        let mut text = "Status · model: ".to_owned();
        text.append(or_else(&self.model, "(unknown — send a message first)"));
        text.append(" · session: ");
        text.append(or_else(&self.session_id, "(none yet)"));
        text.append(" · permission-mode: ");
        text.append(or_else(&pm, mode_label(mode)));
        text.append(" · overrides: ");
        text.append(describe_flags(&self.overrides).as_str());
        text.append(" · ");
        text.append(describe_usage(&self.last_usage).as_str());
        one_line(text.as_str())
    }
}

} // verus!
