//! Launching: which program, with which arguments; and what the status says of it.

use crate::laws::commands::{lemma_shows, shows};
use crate::launch::{first_present, program};
use crate::session::{
    dir_args, flag_args, flag_value, flags_text, launch_args, mode_label_of, mode_text, status,
    usage_text, without_flag, SessionView,
};
use crate::text::{decimal_text, on_one_line, text_or};
use vstd::prelude::*;

verus! {

/// The value of a flag is that of the first place where it is set; a flag that is set nowhere has
/// none.
pub proof fn law_flag_value(flags: Seq<(Seq<char>, Seq<char>)>, flag: Seq<char>, i: int)
    requires
        0 <= i <= flags.len(),
        forall|j: int| 0 <= j < i ==> (#[trigger] flags[j]).0 != flag,
        i < flags.len() ==> flags[i].0 == flag,
    ensures
        flag_value(flags, flag) == if i < flags.len() {
            Some(flags[i].1)
        } else {
            None
        },
    decreases i,
{
    if i > 0 {
        let rest = flags.drop_first();
        assert forall|j: int| 0 <= j < i - 1 implies (#[trigger] rest[j]).0 != flag by {
            assert(rest[j] == flags[j + 1]);
        }
        law_flag_value(rest, flag, i - 1);
    }
}

/// One option before each of the values.
pub open spec fn each_behind(option: Seq<char>, values: Seq<Seq<char>>) -> Seq<Seq<char>> {
    Seq::new(
        2 * values.len(),
        |k: int|
            if k % 2 == 0 {
                option
            } else {
                values[k / 2]
            },
    )
}

/// Each flag, and its value behind it.
pub open spec fn flags_and_values(flags: Seq<(Seq<char>, Seq<char>)>) -> Seq<Seq<char>> {
    Seq::new(
        2 * flags.len(),
        |k: int|
            if k % 2 == 0 {
                flags[k / 2].0
            } else {
                flags[k / 2].1
            },
    )
}

proof fn lemma_each_behind(dirs: Seq<Seq<char>>)
    ensures
        dir_args(dirs) == each_behind("--add-dir"@, dirs),
    decreases dirs.len(),
{
    if dirs.len() > 0 {
        lemma_each_behind(dirs.drop_last());
    }
    assert(dir_args(dirs) =~= each_behind("--add-dir"@, dirs));
}

proof fn lemma_flags_and_values(flags: Seq<(Seq<char>, Seq<char>)>)
    ensures
        flag_args(flags) == flags_and_values(flags),
    decreases flags.len(),
{
    if flags.len() > 0 {
        lemma_flags_and_values(flags.drop_last());
    }
    assert(flag_args(flags) =~= flags_and_values(flags));
}

/// The flags other than that of the permission mode.
pub open spec fn other_flags(flags: Seq<(Seq<char>, Seq<char>)>) -> Seq<(Seq<char>, Seq<char>)> {
    flags.filter(|pair: (Seq<char>, Seq<char>)| pair.0 != "--permission-mode"@)
}

/// What a row of the mode list asks for.
pub open spec fn row_mode(mode: u32) -> Option<Seq<char>> {
    if mode == 1 {
        Some("plan"@)
    } else if mode == 2 {
        Some("acceptEdits"@)
    } else if mode == 3 {
        Some("auto"@)
    } else {
        None
    }
}

/// The arguments of a launch, one for one: those that all launches have; the session to resume, if
/// there is one; the permission mode, which is to accept edits after an approval, or else the one
/// that a command set, or else the one of the mode list's row, if it asks for one; each folder that
/// is open; and the other flags, each with its value, as they were set.
pub proof fn law_arguments(session: SessionView, mode: u32, accept_edits: bool)
    ensures
        ({
            let common = seq![
                "-p"@,
                "--input-format"@,
                "stream-json"@,
                "--output-format"@,
                "stream-json"@,
                "--verbose"@,
                "--include-partial-messages"@,
            ];
            let resumed = match session.session_id {
                Some(id) => seq!["--resume"@, id],
                None => Seq::empty(),
            };
            let wanted = if accept_edits {
                Some("acceptEdits"@)
            } else if flag_value(session.overrides, "--permission-mode"@) is Some {
                flag_value(session.overrides, "--permission-mode"@)
            } else {
                row_mode(mode)
            };
            let permitted = match wanted {
                Some(word) => seq!["--permission-mode"@, word],
                None => Seq::empty(),
            };
            launch_args(session, mode, accept_edits) == common + resumed + permitted + each_behind(
                "--add-dir"@,
                session.allowed_dirs,
            ) + flags_and_values(other_flags(session.overrides))
        }),
{
    lemma_each_behind(session.allowed_dirs);
    lemma_flags_and_values(other_flags(session.overrides));
    assert(without_flag(session.overrides, "--permission-mode"@) == other_flags(
        session.overrides,
    )) by {
        reveal(Seq::filter);
    }
}

/// Each row of the mode list reaches the program: where neither an approval nor a command says
/// otherwise, the second row has it plan, the third accept edits, the fourth decide by itself. The
/// arguments are those of the first row with the flag and its value put in, and the first row's
/// have no such flag between the session and the folders.
pub proof fn law_rows_reach_the_program(session: SessionView)
    requires
        flag_value(session.overrides, "--permission-mode"@) is None,
    ensures
        ({
            let asked = launch_args(session, 0, false);
            let at: int = if session.session_id is Some {
                9
            } else {
                7
            };
            let flag = "--permission-mode"@;
            &&& asked.skip(at) == each_behind("--add-dir"@, session.allowed_dirs)
                + flags_and_values(other_flags(session.overrides))
            &&& launch_args(session, 1, false) == asked.take(at) + seq![flag, "plan"@]
                + asked.skip(at)
            &&& launch_args(session, 2, false) == asked.take(at) + seq![flag, "acceptEdits"@]
                + asked.skip(at)
            &&& launch_args(session, 3, false) == asked.take(at) + seq![flag, "auto"@]
                + asked.skip(at)
        }),
{
    law_arguments(session, 0, false);
    law_arguments(session, 1, false);
    law_arguments(session, 2, false);
    law_arguments(session, 3, false);
    let asked = launch_args(session, 0, false);
    let at: int = if session.session_id is Some {
        9
    } else {
        7
    };
    let flag = "--permission-mode"@;
    assert(asked.skip(at) =~= each_behind("--add-dir"@, session.allowed_dirs) + flags_and_values(
        other_flags(session.overrides),
    ));
    assert(launch_args(session, 1, false) =~= asked.take(at) + seq![flag, "plan"@] + asked.skip(
        at,
    ));
    assert(launch_args(session, 2, false) =~= asked.take(at) + seq![flag, "acceptEdits"@]
        + asked.skip(at));
    assert(launch_args(session, 3, false) =~= asked.take(at) + seq![flag, "auto"@] + asked.skip(
        at,
    ));
}

/// A line that shows `part` between `before` and `after`.
proof fn lemma_line_shows(whole: Seq<char>, before: Seq<char>, part: Seq<char>, after: Seq<char>)
    requires
        whole == before + part + after,
    ensures
        shows(on_one_line(whole), on_one_line(part)),
{
    lemma_shows(on_one_line(before), on_one_line(part), on_one_line(after));
    assert(on_one_line(whole) =~= on_one_line(before) + on_one_line(part) + on_one_line(after));
}

proof fn lemma_parts_of_status(
    a: Seq<char>,
    model: Seq<char>,
    b: Seq<char>,
    id: Seq<char>,
    c: Seq<char>,
    pm: Seq<char>,
    d: Seq<char>,
    flags: Seq<char>,
    e: Seq<char>,
    usage: Seq<char>,
)
    ensures
        ({
            let line = on_one_line(a + model + b + id + c + pm + d + flags + e + usage);
            &&& shows(line, on_one_line(a + model + b))
            &&& shows(line, on_one_line(b + id + c))
            &&& shows(line, on_one_line(c + pm + d))
            &&& shows(line, on_one_line(d + flags + e))
            &&& shows(line, on_one_line(e + usage))
        }),
{
    let none = Seq::<char>::empty();
    let whole = a + model + b + id + c + pm + d + flags + e + usage;
    assert(shows(on_one_line(whole), on_one_line(a + model + b))) by {
        let after = id + c + pm + d + flags + e + usage;
        assert(whole =~= none + (a + model + b) + after);
        lemma_line_shows(whole, none, a + model + b, after);
    }
    assert(shows(on_one_line(whole), on_one_line(b + id + c))) by {
        let after = pm + d + flags + e + usage;
        assert(whole =~= (a + model) + (b + id + c) + after);
        lemma_line_shows(whole, a + model, b + id + c, after);
    }
    assert(shows(on_one_line(whole), on_one_line(c + pm + d))) by {
        let before = a + model + b + id;
        assert(whole =~= before + (c + pm + d) + (flags + e + usage));
        lemma_line_shows(whole, before, c + pm + d, flags + e + usage);
    }
    assert(shows(on_one_line(whole), on_one_line(d + flags + e))) by {
        let before = a + model + b + id + c + pm;
        assert(whole =~= before + (d + flags + e) + usage);
        lemma_line_shows(whole, before, d + flags + e, usage);
    }
    assert(shows(on_one_line(whole), on_one_line(e + usage))) by {
        let before = a + model + b + id + c + pm + d + flags;
        assert(whole =~= before + (e + usage) + none);
        lemma_line_shows(whole, before, e + usage, none);
    }
}

/// The status says, each under its name: the model and the session's id, where they are known; the
/// permission mode that a command set, or else the label of the mode list's row; the flags that
/// commands set; and each count of the last turn's tokens.
pub proof fn law_status_says(session: SessionView, mode: u32)
    ensures
        ({
            let line = status(session, mode);
            &&& session.model matches Some(model) ==> shows(
                line,
                on_one_line("Status · model: "@ + model + " · session: "@),
            )
            &&& session.model is None ==> shows(
                line,
                on_one_line(
                    "Status · model: "@ + "(unknown — send a message first)"@ + " · session: "@,
                ),
            )
            &&& session.session_id matches Some(id) ==> shows(
                line,
                on_one_line(" · session: "@ + id + " · permission-mode: "@),
            )
            &&& session.session_id is None ==> shows(
                line,
                on_one_line(" · session: "@ + "(none yet)"@ + " · permission-mode: "@),
            )
            &&& flag_value(session.overrides, "--permission-mode"@) matches Some(word) ==> shows(
                line,
                on_one_line(" · permission-mode: "@ + word + " · overrides: "@),
            )
            &&& flag_value(session.overrides, "--permission-mode"@) is None ==> shows(
                line,
                on_one_line(" · permission-mode: "@ + mode_label_of(mode) + " · overrides: "@),
            )
            &&& shows(line, on_one_line(" · overrides: "@ + flags_text(session.overrides) + " · "@))
            &&& session.last_usage matches Some(usage) ==> shows(
                line,
                on_one_line(
                    " · "@ + ("last turn — input "@ + decimal_text(usage.input as nat)
                        + " (cache: "@ + decimal_text(usage.cache_read as nat) + " read / "@
                        + decimal_text(usage.cache_create as nat) + " created), output "@
                        + decimal_text(usage.output as nat)
                        + " (no context-window size in the stream-json protocol → no % shown)"@),
                ),
            )
            &&& session.last_usage is None ==> shows(
                line,
                on_one_line(" · "@ + "last turn — (no usage yet)"@),
            )
        }),
{
    let a = "Status · model: "@;
    let b = " · session: "@;
    let c = " · permission-mode: "@;
    let d = " · overrides: "@;
    let e = " · "@;
    let model = text_or(session.model, "(unknown — send a message first)"@);
    let id = text_or(session.session_id, "(none yet)"@);
    let pm = mode_text(session, mode);
    let flags = flags_text(session.overrides);
    let usage = usage_text(session.last_usage);
    lemma_parts_of_status(a, model, b, id, c, pm, d, flags, e, usage);
}

/// The status says that and nothing else: its length is that of its parts.
pub proof fn law_status_says_no_more(session: SessionView, mode: u32)
    ensures
        ({
            let model = match session.model {
                Some(model) => model,
                None => "(unknown — send a message first)"@,
            };
            let id = match session.session_id {
                Some(id) => id,
                None => "(none yet)"@,
            };
            let word = match flag_value(session.overrides, "--permission-mode"@) {
                Some(word) => word,
                None => mode_label_of(mode),
            };
            status(session, mode).len() == "Status · model: "@.len() + model.len()
                + " · session: "@.len() + id.len() + " · permission-mode: "@.len() + word.len()
                + " · overrides: "@.len() + flags_text(session.overrides).len() + " · "@.len()
                + usage_text(session.last_usage).len()
        }),
{
}

/// The flags that commands set are told in their order, each with its value.
pub proof fn law_flags_are_told(
    flags: Seq<(Seq<char>, Seq<char>)>,
    flag: Seq<char>,
    value: Seq<char>,
)
    ensures
        flags_text(Seq::empty()) == "(none)"@,
        flags_text(seq![(flag, value)]) == flag + " "@ + value,
        flags.len() > 0 ==> flags_text(flags.push((flag, value))) == flags_text(flags) + "  "@ + (
        flag + " "@ + value),
{
    let words = |pair: (Seq<char>, Seq<char>)| pair.0 + " "@ + pair.1;
    let all = flags.push((flag, value)).map_values(words);
    assert(all.drop_last() =~= flags.map_values(words));
    assert(all.last() == flag + " "@ + value);
    let one = seq![(flag, value)].map_values(words);
    assert(one.len() == 1 && one[0] == flag + " "@ + value);
}

/// The labels of the mode list's rows.
pub proof fn law_mode_labels(mode: u32)
    ensures
        mode == 0 ==> mode_label_of(mode) == "Ask (default)"@,
        mode == 1 ==> mode_label_of(mode) == "Plan"@,
        mode == 2 ==> mode_label_of(mode) == "Accept edits"@,
        mode == 3 ==> mode_label_of(mode) == "Auto"@,
        mode > 3 ==> mode_label_of(mode) == "?"@,
{
}

/// The program that is run is the one that is asked for, where one is. Else it is the first of four
/// that is there: the user's own, the machine's two, the one of the user's package manager. Where
/// none is there, it is the one that the search path finds by the name.
pub proof fn law_program_in_order(
    asked: Option<Seq<char>>,
    home: Seq<char>,
    name: Seq<char>,
    present: Seq<bool>,
)
    ensures
        ({
            let run = program(asked, home, name, present);
            let there = |i: int| i < present.len() && present[i];
            &&& asked is Some && asked->0.len() > 0 ==> run == asked->0
            &&& asked is None || asked->0.len() == 0 ==> {
                &&& there(0) ==> run == home + "/.local/bin/"@ + name
                &&& !there(0) && there(1) ==> run == "/usr/local/bin/"@ + name
                &&& !there(0) && !there(1) && there(2) ==> run == "/usr/bin/"@ + name
                &&& !there(0) && !there(1) && !there(2) && there(3) ==> run == home
                    + "/.npm-global/bin/"@ + name
                &&& !there(0) && !there(1) && !there(2) && !there(3) ==> run == name
            }
        }),
{
    reveal_with_fuel(first_present, 6);
}

} // verus!
