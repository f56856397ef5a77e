//! What the assistant and its program are called.

use crate::text::chars_of;
use vstd::prelude::*;

verus! {

/// The assistant's name as it is shown, and the name of the program that runs it.
#[derive(Debug, PartialEq, Eq)]
pub struct Names {
    pub label: String,
    pub program: String,
}

/// `Names` over sequences.
pub struct NamesView {
    pub label: Seq<char>,
    pub program: Seq<char>,
}

impl View for Names {
    type V = NamesView;

    open spec fn view(&self) -> NamesView {
        NamesView { label: self.label@, program: self.program@ }
    }
}

/// The environment variable that may name the program to run.
pub const BIN_VAR: &'static str = "CLAUDE_BIN";

/// How long the end of that variable's name is, which stands behind the program's.
pub const SUFFIX_LEN: usize = 4;

/// The part of a variable's name that the program has its name from.
pub open spec fn stem_of(variable: Seq<char>) -> Seq<char> {
    variable.take(variable.len() - SUFFIX_LEN)
}

/// A character in lower case, where it is one of the Latin alphabet.
pub open spec fn lower(c: char) -> char {
    if 'A' <= c <= 'Z' {
        (c as u8 + 32) as char
    } else {
        c
    }
}

/// A text in lower case.
pub open spec fn lowered(s: Seq<char>) -> Seq<char> {
    s.map_values(|c: char| lower(c))
}

/// A text in lower case but for its first character.
pub open spec fn capitalised(s: Seq<char>) -> Seq<char> {
    s.take(1) + lowered(s.skip(1))
}

/// What the assistant and its program are called: after the variable, the program in lower case.
pub open spec fn called_after(variable: Seq<char>) -> NamesView {
    NamesView { label: capitalised(stem_of(variable)), program: lowered(stem_of(variable)) }
}

/// The character in lower case, where it is one of the Latin alphabet.
fn lowercase(c: char) -> (res: char)
    ensures
        res == lower(c),
{
    if 'A' <= c && c <= 'Z' {
        (c as u8 + 32) as char
    } else {
        c
    }
}

/// Who a message of the transcript comes from.
#[derive(Clone, Copy, Debug, PartialEq, Eq, Structural)]
pub enum Who {
    You,
    Assistant,
    System,
    Tool,
}

/// The name under which a message is shown.
pub open spec fn shown_name(names: NamesView, who: Who) -> Seq<char> {
    match who {
        Who::You => "You"@,
        Who::Assistant => names.label,
        Who::System => "System"@,
        Who::Tool => "Tool"@,
    }
}

impl Names {
    /// The names that the assistant and its program go by.
    pub fn usual() -> (names: Names)
        ensures
            names@ == called_after(BIN_VAR@),
    {
        let chars = chars_of(BIN_VAR);
        proof {
            reveal_strlit("CLAUDE_BIN");
        }
        let ghost stem = stem_of(BIN_VAR@);
        let count: usize = chars.len() - SUFFIX_LEN;
        let mut label = String::new();
        let mut program = String::new();
        for i in 0..count
            invariant
                chars@ == BIN_VAR@,
                stem == stem_of(BIN_VAR@),
                count == stem.len(),
                count + SUFFIX_LEN == chars@.len(),
                program@ == lowered(stem).take(i as int),
                label@ == capitalised(stem).take(i as int),
        {
            let c = lowercase(chars[i]);
            proof {
                let small = lowered(stem);
                let capital = capitalised(stem);
                assert(stem[i as int] == chars@[i as int]);
                assert(small.take(i + 1) =~= small.take(i as int).push(c));
                assert(i > 0 ==> capital[i as int] == c);
                assert(capital.take(i + 1) =~= capital.take(i as int).push(capital[i as int]));
            }
            program.push(c);
            if i == 0 {
                label.push(chars[i]);
            } else {
                label.push(c);
            }
        }
        proof {
            assert(lowered(stem).take(stem.len() as int) =~= lowered(stem));
            assert(capitalised(stem).take(stem.len() as int) =~= capitalised(stem));
        }
        Names { label, program }
    }

    /// The name under which a message is shown.
    pub fn shown(&self, who: Who) -> (name: &str)
        ensures
            name@ == shown_name(self@, who),
    {
        match who {
            Who::You => "You",
            Who::Assistant => self.label.as_str(),
            Who::System => "System",
            Who::Tool => "Tool",
        }
    }
}

/// A message of the transcript.
#[derive(Debug, PartialEq, Eq)]
pub struct Message {
    pub who: Who,
    pub text: String,
}

/// `Message` over sequences.
pub struct MessageView {
    pub who: Who,
    pub text: Seq<char>,
}

impl DeepView for Message {
    type V = MessageView;

    open spec fn deep_view(&self) -> MessageView {
        MessageView { who: self.who, text: self.text@ }
    }
}

} // verus!
