//! Named commands: their interactive metadata and the registry the
//! controller resolves names against.
//!
//! A command body lives in the controller's dispatcher; the registry
//! holds each command's name and whether it needs an argument read from
//! the minibuffer.  The built-in command names are the contract surface:
//! user configuration binds keys to them and scripts invoke them by name.

use vstd::prelude::*;

use crate::text::{str_eq, str_starts_with};

verus! {

/// A command argument at dispatch time: nothing, the consumed numeric
/// prefix, or a string read from the minibuffer.
pub enum CommandArg {
    Empty,
    Int(i64),
    Str(String),
}

/// How a command is invoked interactively: directly, with the numeric
/// prefix, or after prompting for a string in the minibuffer.
pub enum Interactive {
    Plain,
    Int,
    Str { prompt: String },
}

/// Spec-level mirror of [`Interactive`].
pub enum InteractiveV {
    Plain,
    Int,
    Str { prompt: Seq<char> },
}

impl View for Interactive {
    type V = InteractiveV;

    open spec fn view(&self) -> InteractiveV {
        match self {
            Interactive::Plain => InteractiveV::Plain,
            Interactive::Int => InteractiveV::Int,
            Interactive::Str { prompt } => InteractiveV::Str { prompt: prompt@ },
        }
    }
}

/// One registered command.
pub struct Command {
    pub name: String,
    pub interactive: Interactive,
}

impl View for Command {
    type V = (Seq<char>, InteractiveV);

    open spec fn view(&self) -> (Seq<char>, InteractiveV) {
        (self.name@, self.interactive@)
    }
}

impl Command {
    /// The prompt of a command that reads a string from the minibuffer.
    pub fn interactive_string_prompt(&self) -> (r: Option<&String>)
        ensures
            r is Some <==> self.interactive@ is Str,
            r is Some ==> self.interactive@ == (InteractiveV::Str { prompt: r->0@ }),
    {
        match &self.interactive {
            Interactive::Str { prompt } => Some(prompt),
            _ => None,
        }
    }

    /// Whether running the command feeds the prefix accumulator instead
    /// of consuming it.
    pub fn modifies_prefix(&self) -> (r: bool)
        ensures
            r == spec_modifies_prefix(self.name@),
    {
        str_eq(self.name.as_str(), "universal-argument") || str_starts_with(
            self.name.as_str(),
            "digit-argument-",
        )
    }
}

/// The commands that feed the prefix accumulator.
pub open spec fn spec_modifies_prefix(name: Seq<char>) -> bool {
    name == "universal-argument"@ || (name.len() >= "digit-argument-"@.len() && name.subrange(
        0,
        "digit-argument-"@.len() as int,
    ) == "digit-argument-"@)
}

/// What a registry holds, abstractly.
pub open spec fn commands_view(cs: Seq<Command>) -> Seq<(Seq<char>, InteractiveV)> {
    cs.map(|i: int, c: Command| c@)
}

/// The newest command registered under `name`.
pub open spec fn find_command(s: Seq<(Seq<char>, InteractiveV)>, name: Seq<char>) -> Option<
    InteractiveV,
>
    decreases s.len(),
{
    if s.len() == 0 {
        None
    } else if s.last().0 == name {
        Some(s.last().1)
    } else {
        find_command(s.drop_last(), name)
    }
}

/// The command registry: commands in registration order; a later
/// registration under the same name wins.
pub struct CommandRegistry {
    pub commands: Vec<Command>,
}

impl CommandRegistry {
    pub fn new() -> (r: CommandRegistry)
        ensures
            commands_view(r.commands@) == Seq::<(Seq<char>, InteractiveV)>::empty(),
    {
        let r = CommandRegistry { commands: Vec::new() };
        proof {
            assert(commands_view(r.commands@) =~= Seq::<(Seq<char>, InteractiveV)>::empty());
        }
        r
    }

    /// Add a command; it shadows earlier registrations of the same name.
    pub fn register(&mut self, cmd: Command)
        ensures
            commands_view(final(self).commands@) == commands_view(old(self).commands@).push(cmd@),
    {
        let ghost before = commands_view(self.commands@);
        let ghost cv = cmd@;
        self.commands.push(cmd);
        proof {
            assert(commands_view(self.commands@) =~= before.push(cv));
        }
    }

    /// Look a command up by name; the newest registration wins.
    #[verifier::loop_isolation(false)]
    pub fn get(&self, name: &str) -> (r: Option<&Command>)
        ensures
            r is Some <==> find_command(commands_view(self.commands@), name@) is Some,
            r is Some ==> r->0@ == (name@, find_command(commands_view(self.commands@), name@)->0),
    {
        let ghost v = commands_view(self.commands@);
        let n = self.commands.len();
        proof {
            assert(v.take(n as int) =~= v);
        }
        let mut i: usize = n;
        while i > 0
            invariant
                0 <= i <= n,
                find_command(v, name@) == find_command(v.take(i as int), name@),
            decreases i,
        {
            i = i - 1;
            proof {
                assert(v.take(i + 1 as int).last() == v[i as int]);
                assert(v.take(i + 1 as int).drop_last() =~= v.take(i as int));
            }
            if str_eq(self.commands[i].name.as_str(), name) {
                return Some(&self.commands[i]);
            }
        }
        proof {
            assert(v.take(0) =~= Seq::<(Seq<char>, InteractiveV)>::empty());
        }
        None
    }

    /// Number of registered commands.
    pub fn len(&self) -> (n: usize)
        ensures
            n == commands_view(self.commands@).len(),
    {
        self.commands.len()
    }

    /// The name of command `i`, in registration order.
    pub fn name_at(&self, i: usize) -> (r: &String)
        requires
            i < commands_view(self.commands@).len(),
        ensures
            r@ == commands_view(self.commands@)[i as int].0,
    {
        &self.commands[i].name
    }
}

} // verus!

verus! {

impl CommandRegistry {
    /// Look a command's interactive metadata up by name, by value.
    pub fn get_info(&self, name: &str) -> (r: Option<Interactive>)
        ensures
            r is Some <==> find_command(commands_view(self.commands@), name@) is Some,
            r is Some ==> r->0@ == find_command(commands_view(self.commands@), name@)->0,
    {
        match self.get(name) {
            Some(c) => Some(
                match &c.interactive {
                    Interactive::Plain => Interactive::Plain,
                    Interactive::Int => Interactive::Int,
                    Interactive::Str { prompt } => Interactive::Str {
                        prompt: mk_name(prompt.as_str()),
                    },
                },
            ),
            None => None,
        }
    }
}

/// Copy a string slice into an owned string.
fn mk_name(s: &str) -> (r: String)
    ensures
        r@ == s@,
{
    String::from_str(s)
}

/// The built-in commands, in registration order: the contract surface
/// user configuration binds keys to and scripts invoke by name.
pub open spec fn builtin_commands() -> Seq<(Seq<char>, InteractiveV)> {
    seq![
        ("move-left"@, InteractiveV::Plain),
        ("move-right"@, InteractiveV::Plain),
        ("move-up"@, InteractiveV::Plain),
        ("move-down"@, InteractiveV::Plain),
        ("move-beginning-of-line"@, InteractiveV::Plain),
        ("move-end-of-line"@, InteractiveV::Plain),
        ("move-beginning-of-buffer"@, InteractiveV::Plain),
        ("move-end-of-buffer"@, InteractiveV::Plain),
        ("move-word-left"@, InteractiveV::Plain),
        ("move-word-right"@, InteractiveV::Plain),
        ("undo"@, InteractiveV::Plain),
        ("keyboard-quit"@, InteractiveV::Plain),
        ("kill-remux"@, InteractiveV::Plain),
        ("delete-char"@, InteractiveV::Plain),
        ("backward-delete-char"@, InteractiveV::Plain),
        ("set-mark-command"@, InteractiveV::Plain),
        ("newline"@, InteractiveV::Plain),
        ("kill-word"@, InteractiveV::Plain),
        ("kill-backward-word"@, InteractiveV::Plain),
        ("kill-sentence"@, InteractiveV::Plain),
        ("kill-region"@, InteractiveV::Plain),
        ("kill-line"@, InteractiveV::Plain),
        ("kill-ring-save"@, InteractiveV::Plain),
        ("yank"@, InteractiveV::Plain),
        ("save-buffer"@, InteractiveV::Plain),
        ("toggle-line-wrap"@, InteractiveV::Plain),
        ("isearch-forward"@, InteractiveV::Plain),
        ("isearch-backward"@, InteractiveV::Plain),
        ("scroll-up-command"@, InteractiveV::Plain),
        ("scroll-down-command"@, InteractiveV::Plain),
        ("scroll-left-command"@, InteractiveV::Plain),
        ("scroll-right-command"@, InteractiveV::Plain),
        ("digit-argument-0"@, InteractiveV::Plain),
        ("digit-argument-1"@, InteractiveV::Plain),
        ("digit-argument-2"@, InteractiveV::Plain),
        ("digit-argument-3"@, InteractiveV::Plain),
        ("digit-argument-4"@, InteractiveV::Plain),
        ("digit-argument-5"@, InteractiveV::Plain),
        ("digit-argument-6"@, InteractiveV::Plain),
        ("digit-argument-7"@, InteractiveV::Plain),
        ("digit-argument-8"@, InteractiveV::Plain),
        ("digit-argument-9"@, InteractiveV::Plain),
        ("universal-argument"@, InteractiveV::Plain),
        ("save-buffer-as"@, (InteractiveV::Str { prompt: "Save buffer as: "@ })),
        ("execute-command"@, (InteractiveV::Str { prompt: "M-x "@ })),
        ("find-file"@, (InteractiveV::Str { prompt: "Find file: "@ })),
        ("goto-line"@, (InteractiveV::Str { prompt: "Goto line: "@ })),
    ]
}

/// Register every built-in command.
#[verifier::rlimit(100)]
pub fn register_builtins(reg: &mut CommandRegistry)
    ensures
        commands_view(final(reg).commands@) == commands_view(old(reg).commands@)
            + builtin_commands(),
{
    reg.register(Command { name: mk_name("move-left"), interactive: Interactive::Plain });
    reg.register(Command { name: mk_name("move-right"), interactive: Interactive::Plain });
    reg.register(Command { name: mk_name("move-up"), interactive: Interactive::Plain });
    reg.register(Command { name: mk_name("move-down"), interactive: Interactive::Plain });
    reg.register(Command { name: mk_name("move-beginning-of-line"), interactive: Interactive::Plain });
    reg.register(Command { name: mk_name("move-end-of-line"), interactive: Interactive::Plain });
    reg.register(Command { name: mk_name("move-beginning-of-buffer"), interactive: Interactive::Plain });
    reg.register(Command { name: mk_name("move-end-of-buffer"), interactive: Interactive::Plain });
    reg.register(Command { name: mk_name("move-word-left"), interactive: Interactive::Plain });
    reg.register(Command { name: mk_name("move-word-right"), interactive: Interactive::Plain });
    reg.register(Command { name: mk_name("undo"), interactive: Interactive::Plain });
    reg.register(Command { name: mk_name("keyboard-quit"), interactive: Interactive::Plain });
    reg.register(Command { name: mk_name("kill-remux"), interactive: Interactive::Plain });
    reg.register(Command { name: mk_name("delete-char"), interactive: Interactive::Plain });
    reg.register(Command { name: mk_name("backward-delete-char"), interactive: Interactive::Plain });
    reg.register(Command { name: mk_name("set-mark-command"), interactive: Interactive::Plain });
    reg.register(Command { name: mk_name("newline"), interactive: Interactive::Plain });
    reg.register(Command { name: mk_name("kill-word"), interactive: Interactive::Plain });
    reg.register(Command { name: mk_name("kill-backward-word"), interactive: Interactive::Plain });
    reg.register(Command { name: mk_name("kill-sentence"), interactive: Interactive::Plain });
    reg.register(Command { name: mk_name("kill-region"), interactive: Interactive::Plain });
    reg.register(Command { name: mk_name("kill-line"), interactive: Interactive::Plain });
    reg.register(Command { name: mk_name("kill-ring-save"), interactive: Interactive::Plain });
    reg.register(Command { name: mk_name("yank"), interactive: Interactive::Plain });
    reg.register(Command { name: mk_name("save-buffer"), interactive: Interactive::Plain });
    reg.register(Command { name: mk_name("toggle-line-wrap"), interactive: Interactive::Plain });
    reg.register(Command { name: mk_name("isearch-forward"), interactive: Interactive::Plain });
    reg.register(Command { name: mk_name("isearch-backward"), interactive: Interactive::Plain });
    reg.register(Command { name: mk_name("scroll-up-command"), interactive: Interactive::Plain });
    reg.register(Command { name: mk_name("scroll-down-command"), interactive: Interactive::Plain });
    reg.register(Command { name: mk_name("scroll-left-command"), interactive: Interactive::Plain });
    reg.register(Command { name: mk_name("scroll-right-command"), interactive: Interactive::Plain });
    reg.register(Command { name: mk_name("digit-argument-0"), interactive: Interactive::Plain });
    reg.register(Command { name: mk_name("digit-argument-1"), interactive: Interactive::Plain });
    reg.register(Command { name: mk_name("digit-argument-2"), interactive: Interactive::Plain });
    reg.register(Command { name: mk_name("digit-argument-3"), interactive: Interactive::Plain });
    reg.register(Command { name: mk_name("digit-argument-4"), interactive: Interactive::Plain });
    reg.register(Command { name: mk_name("digit-argument-5"), interactive: Interactive::Plain });
    reg.register(Command { name: mk_name("digit-argument-6"), interactive: Interactive::Plain });
    reg.register(Command { name: mk_name("digit-argument-7"), interactive: Interactive::Plain });
    reg.register(Command { name: mk_name("digit-argument-8"), interactive: Interactive::Plain });
    reg.register(Command { name: mk_name("digit-argument-9"), interactive: Interactive::Plain });
    reg.register(Command { name: mk_name("universal-argument"), interactive: Interactive::Plain });
    reg.register(Command { name: mk_name("save-buffer-as"), interactive: Interactive::Str { prompt: mk_name("Save buffer as: ") } });
    reg.register(Command { name: mk_name("execute-command"), interactive: Interactive::Str { prompt: mk_name("M-x ") } });
    reg.register(Command { name: mk_name("find-file"), interactive: Interactive::Str { prompt: mk_name("Find file: ") } });
    reg.register(Command { name: mk_name("goto-line"), interactive: Interactive::Str { prompt: mk_name("Goto line: ") } });
    proof {
        assert(commands_view(reg.commands@) =~= commands_view(old(reg).commands@)
            + builtin_commands());
    }
}

} // verus!
