//! Desktop-entry descriptors, parsed into normalized launch commands.
//!
//! Discovery and file reading happen outside; this module receives the
//! raw `Desktop Entry` section fields as plain strings and derives the
//! normalized entry. `Exec` is split on single spaces; field-code
//! placeholder tokens (starting with `%` or `@@`) are dropped, since
//! field-code substitution is not supported.

use vstd::prelude::*;
use vstd::string::StrSliceExecFns;

use crate::command::{Command, CommandView};
use crate::text::{is_truthy, split_by, split_char, truthy};

verus! {

/// The raw `Desktop Entry` section fields of one descriptor file, as
/// read from disk: each is present or absent, nothing is interpreted.
#[derive(Debug)]
pub struct RawDesktopEntry {
    pub name: Option<String>,
    pub terminal: Option<String>,
    pub exec_line: Option<String>,
}

/// Mathematical model of a raw descriptor section.
#[verifier::ext_equal]
pub ghost struct RawDesktopEntryView {
    pub name: Option<Seq<char>>,
    pub terminal: Option<Seq<char>>,
    pub exec_line: Option<Seq<char>>,
}

impl DeepView for RawDesktopEntry {
    type V = RawDesktopEntryView;

    open spec fn deep_view(&self) -> RawDesktopEntryView {
        self.view()
    }
}

impl View for RawDesktopEntry {
    type V = RawDesktopEntryView;

    open spec fn view(&self) -> RawDesktopEntryView {
        RawDesktopEntryView {
            name: match self.name {
                Option::Some(s) => Option::Some(s@),
                Option::None => Option::None,
            },
            terminal: match self.terminal {
                Option::Some(s) => Option::Some(s@),
                Option::None => Option::None,
            },
            exec_line: match self.exec_line {
                Option::Some(s) => Option::Some(s@),
                Option::None => Option::None,
            },
        }
    }
}

/// A resolved application descriptor: display name, launch command, and
/// whether the application wants a terminal.
#[derive(Debug)]
pub struct DesktopEntry {
    pub name: String,
    pub exec_cmd: Command,
    pub is_terminal: bool,
}

/// Mathematical model of a resolved descriptor.
#[verifier::ext_equal]
pub ghost struct DesktopEntryView {
    pub name: Seq<char>,
    pub exec_cmd: CommandView,
    pub is_terminal: bool,
}

impl DeepView for DesktopEntry {
    type V = DesktopEntryView;

    open spec fn deep_view(&self) -> DesktopEntryView {
        self.view()
    }
}

impl View for DesktopEntry {
    type V = DesktopEntryView;

    open spec fn view(&self) -> DesktopEntryView {
        DesktopEntryView { name: self.name@, exec_cmd: self.exec_cmd@, is_terminal: self.is_terminal }
    }
}

impl Clone for DesktopEntry {
    fn clone(&self) -> (res: Self)
        ensures
            res@ == self@,
    {
        let res = DesktopEntry {
            name: self.name.clone(),
            exec_cmd: self.exec_cmd.clone(),
            is_terminal: self.is_terminal,
        };
        proof {
            assert(res@ =~= self@);
        }
        res
    }
}

/// A field-code placeholder token of an `Exec` line: it starts with `%`
/// or with `@@`.
pub open spec fn is_placeholder(t: Seq<char>) -> bool {
    (t.len() >= 1 && t[0] == '%') || (t.len() >= 2 && t[0] == '@' && t[1] == '@')
}

/// The class of `Exec` tokens that survive parsing, as a predicate
/// value.
pub open spec fn keep_token() -> spec_fn(Seq<char>) -> bool {
    |t: Seq<char>| !is_placeholder(t)
}

/// The command an `Exec` line denotes: the first space-separated token
/// is the program; the remaining tokens, minus placeholders, are the
/// arguments.
pub open spec fn parsed_command(line: Seq<char>) -> CommandView {
    let tokens = split_char(line, ' ');
    CommandView {
        program: tokens[0],
        arguments: tokens.skip(1).filter(keep_token()),
    }
}

/// The entry a raw descriptor section denotes: `Exec` is required; the
/// display name defaults to the raw `Exec` string; `Terminal` is true
/// only for its two truthy spellings.
pub open spec fn parsed_entry(raw: RawDesktopEntryView) -> Option<DesktopEntryView> {
    match raw.exec_line {
        Option::None => Option::None,
        Option::Some(e) => Option::Some(
            DesktopEntryView {
                name: match raw.name {
                    Option::Some(n) => n,
                    Option::None => e,
                },
                exec_cmd: parsed_command(e),
                is_terminal: match raw.terminal {
                    Option::Some(t) => is_truthy(t),
                    Option::None => false,
                },
            },
        ),
    }
}

/// Whether this token is a field-code placeholder.
fn token_is_placeholder(t: &str) -> (r: bool)
    ensures
        r == is_placeholder(t@),
{
    let n = t.unicode_len();
    (n >= 1 && t.get_char(0) == '%') || (n >= 2 && t.get_char(0) == '@' && t.get_char(1) == '@')
}

/// Parses one raw descriptor section into a resolved entry, or nothing
/// when the required `Exec` field is absent.
pub fn parse_desktop_entry(raw: &RawDesktopEntry) -> (res: Option<DesktopEntry>)
    ensures
        res is Some <==> parsed_entry(raw@) is Some,
        res is Some ==> res->0@ == parsed_entry(raw@)->0,
{
    let line = match &raw.exec_line {
        Option::Some(e) => e,
        Option::None => {
            return Option::None;
        },
    };
    let tokens = split_by(line.as_str(), ' ');
    proof {
        crate::text::lemma_split_char_len(line@, ' ');
    }
    let program = tokens[0].clone();
    let mut arguments: Vec<String> = Vec::new();
    let ghost rest = tokens.deep_view().skip(1);
    proof {
        reveal(Seq::filter);
        assert(rest.take(0) =~= Seq::<Seq<char>>::empty());
        assert(arguments.deep_view() =~= rest.take(0).filter(keep_token()));
    }
    let mut i: usize = 1;
    while i < tokens.len()
        invariant
            1 <= i <= tokens@.len(),
            tokens@.len() >= 1,
            rest == tokens.deep_view().skip(1),
            arguments.deep_view() == rest.take(i - 1).filter(keep_token()),
        decreases tokens@.len() - i,
    {
        proof {
            reveal(Seq::filter);
            assert(rest.take(i as int).drop_last() =~= rest.take(i - 1));
            assert(rest.take(i as int).last() == tokens@[i as int]@);
            assert(rest.take(i as int).len() > 0);
            assert(rest.take(i as int).filter(keep_token()) == if keep_token()(rest.take(i as int).last()) {
                rest.take(i - 1).filter(keep_token()).push(rest.take(i as int).last())
            } else {
                rest.take(i - 1).filter(keep_token())
            });
        }
        if !token_is_placeholder(tokens[i].as_str()) {
            let ghost prev = arguments.deep_view();
            arguments.push(tokens[i].clone());
            proof {
                assert(keep_token()(rest.take(i as int).last()));
                assert(arguments.deep_view() =~= prev.push(tokens@[i as int]@));
                assert(arguments.deep_view() =~= rest.take(i as int).filter(keep_token()));
            }
        } else {
            proof {
                assert(!keep_token()(rest.take(i as int).last()));
            }
        }
        i = i + 1;
    }
    proof {
        assert(rest.take(tokens@.len() - 1) =~= rest);
    }
    let command = Command { command: program, arguments: Option::Some(arguments) };
    let name = match &raw.name {
        Option::Some(n) => n.clone(),
        Option::None => line.clone(),
    };
    let is_terminal = match &raw.terminal {
        Option::Some(t) => truthy(t.as_str()),
        Option::None => false,
    };
    let entry = DesktopEntry { name, exec_cmd: command, is_terminal };
    proof {
        assert(entry@ =~= parsed_entry(raw@)->0);
    }
    Option::Some(entry)
}

impl DesktopEntry {
    /// The command that launches this entry: its own `Exec` command,
    /// wrapped in the resolved terminal emulator when the entry asks
    /// for one.
    pub fn command(&self, terminal_path: &str) -> (res: Command)
        ensures
            self@.is_terminal ==> res@.program == terminal_path@ && res@.arguments == seq![
                seq!['-', 'e'],
                self@.exec_cmd.program,
            ] + self@.exec_cmd.arguments,
            !self@.is_terminal ==> res@ == self@.exec_cmd,
    {
        if self.is_terminal {
            self.exec_cmd.with_terminal(terminal_path)
        } else {
            self.exec_cmd.clone()
        }
    }
}

/// Parses each raw section in order, keeping the entries that resolve
/// and dropping the identifiers whose descriptor was absent or lacked
/// `Exec`.
pub fn parse_entries(raws: &Vec<Option<RawDesktopEntry>>) -> (res: Vec<DesktopEntry>)
    ensures
        res.deep_view() == resolved_entries(raws.deep_view()),
{
    let mut res: Vec<DesktopEntry> = Vec::new();
    let mut i: usize = 0;
    proof {
        assert(raws.deep_view().take(0) =~= Seq::<Option<RawDesktopEntryView>>::empty());
        assert(res.deep_view() =~= resolved_entries(raws.deep_view().take(0)));
    }
    while i < raws.len()
        invariant
            0 <= i <= raws@.len(),
            res.deep_view() == resolved_entries(raws.deep_view().take(i as int)),
        decreases raws@.len() - i,
    {
        proof {
            assert(raws.deep_view().take(i + 1).drop_last() =~= raws.deep_view().take(i as int));
            assert(raws.deep_view().take(i + 1).last() == raws.deep_view()[i as int]);
        }
        match &raws[i] {
            Option::Some(raw) => {
                match parse_desktop_entry(raw) {
                    Option::Some(entry) => {
                        let ghost prev = res.deep_view();
                        res.push(entry);
                        proof {
                            assert(res.deep_view() =~= prev.push(parsed_entry(raw@)->0));
                        }
                    },
                    Option::None => {},
                }
            },
            Option::None => {},
        }
        i = i + 1;
    }
    proof {
        assert(raws.deep_view().take(raws@.len() as int) =~= raws.deep_view());
    }
    res
}

/// The entries that a list of raw sections resolves to, in order,
/// skipping absent descriptors and ones without `Exec`.
pub open spec fn resolved_entries(raws: Seq<Option<RawDesktopEntryView>>) -> Seq<DesktopEntryView>
    decreases raws.len(),
{
    if raws.len() == 0 {
        Seq::empty()
    } else {
        let init = resolved_entries(raws.drop_last());
        match raws.last() {
            Option::Some(raw) => match parsed_entry(raw) {
                Option::Some(e) => init.push(e),
                Option::None => init,
            },
            Option::None => init,
        }
    }
}

} // verus!
