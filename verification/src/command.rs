//! Launch commands and the pure transforms over them.
//!
//! A `Command` is a program name with an ordered argument list. The two
//! transforms derive new commands; nothing is ever mutated in place, and
//! nothing here executes anything.

use vstd::prelude::*;
use vstd::string::StringExecFns;

verus! {

/// Mathematical model of a `Command`: the program and the argument list,
/// with an absent argument list and an empty one identified.
#[verifier::ext_equal]
pub ghost struct CommandView {
    pub program: Seq<char>,
    pub arguments: Seq<Seq<char>>,
}

/// A launchable program with its optional argument list.
#[derive(Debug)]
pub struct Command {
    pub command: String,
    pub arguments: Option<Vec<String>>,
}

impl View for Command {
    type V = CommandView;

    open spec fn view(&self) -> CommandView {
        CommandView {
            program: self.command@,
            arguments: match self.arguments {
                Option::Some(args) => args.deep_view(),
                Option::None => Seq::empty(),
            },
        }
    }
}

impl DeepView for Command {
    type V = CommandView;

    open spec fn deep_view(&self) -> CommandView {
        self.view()
    }
}

/// Copies a vector of strings, field for field.
pub fn clone_string_vec(v: &Vec<String>) -> (r: Vec<String>)
    ensures
        r.deep_view() == v.deep_view(),
{
    let mut r: Vec<String> = Vec::new();
    let mut i: usize = 0;
    while i < v.len()
        invariant
            0 <= i <= v@.len(),
            r.deep_view() == v.deep_view().take(i as int),
        decreases v@.len() - i,
    {
        let ghost prev = r.deep_view();
        r.push(v[i].clone());
        proof {
            assert(r.deep_view() =~= prev.push(v@[i as int]@));
            assert(r.deep_view() =~= v.deep_view().take(i + 1));
        }
        i = i + 1;
    }
    proof {
        assert(v.deep_view().take(v@.len() as int) =~= v.deep_view());
    }
    r
}

impl Clone for Command {
    fn clone(&self) -> (res: Self)
        ensures
            res@ == self@,
    {
        let res = Command {
            command: self.command.clone(),
            arguments: match &self.arguments {
                Option::Some(args) => Option::Some(clone_string_vec(args)),
                Option::None => Option::None,
            },
        };
        proof {
            assert(res@ =~= self@);
        }
        res
    }
}

impl Command {
    /// The same launch, wrapped in a terminal emulator: the program
    /// becomes the resolved terminal executable, and the original
    /// program and arguments follow an `-e` flag.
    ///
    /// The caller resolves the terminal's path once at startup; this
    /// transform itself is pure.
    pub fn with_terminal(&self, terminal_path: &str) -> (res: Command)
        ensures
            res@.program == terminal_path@,
            res@.arguments == seq![seq!['-', 'e'], self@.program] + self@.arguments,
    {
        let mut arguments: Vec<String> = Vec::new();
        arguments.push("-e".to_owned());
        arguments.push(self.command.clone());
        proof {
            reveal_strlit("-e");
            assert("-e"@ =~= seq!['-', 'e']);
            assert(arguments.deep_view() =~= seq![seq!['-', 'e'], self@.program]);
        }
        let own_args = match &self.arguments {
            Option::Some(args) => clone_string_vec(args),
            Option::None => Vec::new(),
        };
        proof {
            assert(own_args.deep_view().take(0) =~= Seq::<Seq<char>>::empty());
            assert(arguments.deep_view() =~= seq![seq!['-', 'e'], self@.program]
                + own_args.deep_view().take(0));
        }
        let mut i: usize = 0;
        while i < own_args.len()
            invariant
                0 <= i <= own_args@.len(),
                arguments.deep_view() == seq![seq!['-', 'e'], self@.program]
                    + own_args.deep_view().take(i as int),
            decreases own_args@.len() - i,
        {
            let ghost prev = arguments.deep_view();
            arguments.push(own_args[i].clone());
            proof {
                assert(arguments.deep_view() =~= prev.push(own_args@[i as int]@));
                assert(arguments.deep_view() =~= seq![seq!['-', 'e'], self@.program]
                    + own_args.deep_view().take(i + 1));
            }
            i = i + 1;
        }
        proof {
            assert(own_args.deep_view().take(own_args@.len() as int) =~= own_args.deep_view());
        }
        let res = Command { command: terminal_path.to_owned(), arguments: Option::Some(arguments) };
        res
    }

    /// The same launch with `file` appended as one final argument, the
    /// only supported way of handing a target file to an application.
    /// Nothing is replaced: applying the transform again appends again.
    pub fn with_input_file(&self, file: String) -> (res: Command)
        ensures
            res@.program == self@.program,
            res@.arguments == self@.arguments.push(file@),
    {
        let mut args = match &self.arguments {
            Option::Some(a) => clone_string_vec(a),
            Option::None => Vec::new(),
        };
        let ghost prev = args.deep_view();
        args.push(file);
        let res = Command { command: self.command.clone(), arguments: Option::Some(args) };
        proof {
            assert(res@.arguments =~= self@.arguments.push(res@.arguments.last()));
        }
        res
    }
}

/// Appending input files is append-only and accumulative: two
/// applications of `with_input_file`, as its contract pins them down,
/// append the two paths in order after the original arguments; neither
/// application replaces anything.
pub proof fn lemma_with_input_file_twice(
    c: CommandView,
    c1: CommandView,
    c2: CommandView,
    f1: Seq<char>,
    f2: Seq<char>,
)
    requires
        c1.program == c.program,
        c1.arguments == c.arguments.push(f1),
        c2.program == c1.program,
        c2.arguments == c1.arguments.push(f2),
    ensures
        c2.program == c.program,
        c2.arguments == c.arguments + seq![f1, f2],
        c2.arguments.len() == c.arguments.len() + 2,
{
    assert(c.arguments.push(f1).push(f2) =~= c.arguments + seq![f1, f2]);
}

} // verus!
