//! What a command handler is given and what it answers.

use vstd::prelude::*;
use crate::text::{chars_of, push_char, push_str, str_eq};

verus! {

/// A command call: who sent it and its words, the command name first.
#[derive(Debug, Clone)]
pub struct CommandContext {
    pub sender: String,
    pub args: Vec<String>,
}

/// Words joined with single spaces.
pub open spec fn join_words(words: Seq<Seq<char>>) -> Seq<char>
    decreases words.len(),
{
    if words.len() == 0 {
        seq![]
    } else if words.len() == 1 {
        words[0]
    } else {
        join_words(words.drop_last()) + seq![' '] + words.last()
    }
}

/// The characters of each word.
pub open spec fn word_views(words: Seq<String>) -> Seq<Seq<char>> {
    words.map_values(|w: String| w@)
}

impl CommandContext {
    /// The word at `index`, if there is one.
    pub fn arg(&self, index: usize) -> (r: Option<&str>)
        ensures
            r matches Some(w) ==> index < self.args@.len() && w@ == self.args@[index as int]@,
            r is None ==> index >= self.args@.len(),
    {
        if index < self.args.len() {
            Some(self.args[index].as_str())
        } else {
            None
        }
    }

    /// The words from `index` on, joined with spaces.
    pub fn args_from(&self, index: usize) -> (r: String)
        requires
            index <= self.args@.len(),
        ensures
            r@ == join_words(word_views(self.args@.skip(index as int))),
    {
        let mut out = String::new();
        let mut i = index;
        while i < self.args.len()
            invariant
                index <= i <= self.args@.len(),
                out@ == join_words(word_views(self.args@.subrange(index as int, i as int))),
            decreases self.args.len() - i,
        {
            let ghost before = self.args@.subrange(index as int, i as int);
            let ghost after = self.args@.subrange(index as int, i + 1);
            assert(word_views(after).drop_last() =~= word_views(before));
            if i > index {
                push_char(&mut out, ' ');
            }
            push_str(&mut out, self.args[i].as_str());
            proof {
                if i == index {
                    assert(word_views(before) =~= Seq::<Seq<char>>::empty());
                }
            }
            assert(out@ =~= join_words(word_views(after)));
            i = i + 1;
        }
        assert(self.args@.subrange(index as int, i as int) =~= self.args@.skip(index as int));
        out
    }
}

/// What a command answers: a reply to the sender, a line for everyone, an
/// error, or nothing.
#[derive(Debug)]
pub enum CommandResult {
    Success(String),
    Broadcast(String),
    Error(String),
    Empty,
}

/// What Rust's `str::to_lowercase` makes of some text.
pub uninterp spec fn lowercase(s: Seq<char>) -> Seq<char>;

/// The text in lower case.
///
/// Calls `str::to_lowercase`, whose result depends on the text alone; the
/// contract names it.
#[verifier::external_body]
fn to_lowercase(s: &str) -> (r: String)
    ensures
        r@ == lowercase(s@),
{
    s.to_lowercase()
}

/// Whether `p` is a prefix of `s`.
fn starts_with(s: &str, p: &str) -> (r: bool)
    ensures
        r == p@.is_prefix_of(s@),
{
    let a = chars_of(s);
    let b = chars_of(p);
    if b.len() > a.len() {
        return false;
    }
    let mut i: usize = 0;
    while i < b.len()
        invariant
            i <= b@.len() <= a@.len(),
            a@ == s@,
            b@ == p@,
            b@.subrange(0, i as int) == a@.subrange(0, i as int),
        decreases b.len() - i,
    {
        if a[i] != b[i] {
            assert(a@.subrange(0, b@.len() as int)[i as int] != b@[i as int]);
            return false;
        }
        i = i + 1;
        assert(b@.subrange(0, i as int) =~= a@.subrange(0, i as int));
    }
    assert(b@ =~= b@.subrange(0, i as int));
    true
}

/// A command: its name, what it does, how it is typed, and the handler
/// that answers it.
pub struct Command<H> {
    pub name: String,
    pub description: String,
    pub usage: String,
    pub handler: H,
}

/// The first command named `name`.
pub open spec fn command_index<H>(cmds: Seq<Command<H>>, name: Seq<char>, i: int) -> Option<int>
    decreases cmds.len() - i,
{
    if i < 0 || i >= cmds.len() {
        None
    } else if cmds[i].name@ == name {
        Some(i)
    } else {
        command_index(cmds, name, i + 1)
    }
}

/// The commands after registering `c`: it replaces the command of its
/// name, or comes last.
pub open spec fn with_command<H>(cmds: Seq<Command<H>>, c: Command<H>) -> Seq<Command<H>> {
    match command_index(cmds, c.name@, 0) {
        Some(i) => cmds.update(i, c),
        None => cmds.push(c),
    }
}

/// `/` and the name of each command that starts with `partial`, in the
/// order registered.
pub open spec fn completions_of<H>(cmds: Seq<Command<H>>, partial: Seq<char>) -> Seq<Seq<char>>
    decreases cmds.len(),
{
    if cmds.len() == 0 {
        seq![]
    } else {
        let rest = completions_of(cmds.drop_last(), partial);
        let n = cmds.last().name@;
        if partial.is_prefix_of(n) {
            rest.push(seq!['/'] + n)
        } else {
            rest
        }
    }
}

/// The commands a server knows, by name.
pub struct CommandDispatcher<H> {
    commands: Vec<Command<H>>,
}

impl<H> CommandDispatcher<H> {
    /// The commands, in the order first registered.
    pub closed spec fn commands(&self) -> Seq<Command<H>> {
        self.commands@
    }

    /// A dispatcher without commands.
    pub fn new() -> (d: Self)
        ensures
            d.commands() == Seq::<Command<H>>::empty(),
    {
        CommandDispatcher { commands: Vec::new() }
    }

    /// The index of the first command named `name`.
    fn find(&self, name: &str) -> (r: Option<usize>)
        ensures
            r matches Some(i) ==> command_index(self.commands@, name@, 0) == Some(i as int) && i < self.commands@.len(),
            r is None ==> command_index(self.commands@, name@, 0) is None,
    {
        let mut i: usize = 0;
        while i < self.commands.len()
            invariant
                i <= self.commands@.len(),
                command_index(self.commands@, name@, 0) == command_index(self.commands@, name@, i as int),
            decreases self.commands.len() - i,
        {
            if str_eq(self.commands[i].name.as_str(), name) {
                return Some(i);
            }
            i = i + 1;
        }
        None
    }

    /// Registers a command, replacing one of the same name.
    pub fn register(&mut self, command: Command<H>)
        ensures
            final(self).commands() == with_command(old(self).commands(), command),
    {
        match self.find(command.name.as_str()) {
            Some(i) => {
                self.commands.set(i, command);
            },
            None => {
                self.commands.push(command);
            },
        }
    }

    /// The handler of the command named by the first word, in lower case;
    /// "Unknown command!" when there is none.
    pub fn dispatch(&self, ctx: &CommandContext) -> (r: Result<&H, CommandResult>)
        requires
            ctx.args@.len() > 0,
        ensures
            command_index(self.commands(), lowercase(ctx.args@[0]@), 0) matches Some(i) ==> (r matches Ok(h) && *h
                == self.commands()[i].handler),
            command_index(self.commands(), lowercase(ctx.args@[0]@), 0) is None ==> (r matches Err(
                CommandResult::Error(m),
            ) && m@ == "Unknown command!"@),
    {
        let name = to_lowercase(ctx.args[0].as_str());
        match self.find(name.as_str()) {
            Some(i) => Ok(&self.commands[i].handler),
            None => Err(CommandResult::Error(String::from_str("Unknown command!"))),
        }
    }

    /// `/` and the name of each command that starts with `partial`.
    pub fn completions(&self, partial: &str) -> (r: Vec<String>)
        ensures
            word_views(r@) == completions_of(self.commands(), partial@),
    {
        let mut out: Vec<String> = Vec::new();
        let mut i: usize = 0;
        while i < self.commands.len()
            invariant
                i <= self.commands@.len(),
                word_views(out@) == completions_of(self.commands@.take(i as int), partial@),
            decreases self.commands.len() - i,
        {
            proof {
                assert(self.commands@.take(i + 1).drop_last() =~= self.commands@.take(i as int));
            }
            let name = self.commands[i].name.as_str();
            if starts_with(name, partial) {
                let mut c = String::new();
                push_char(&mut c, '/');
                push_str(&mut c, name);
                out.push(c);
                assert(word_views(out@) =~= completions_of(self.commands@.take(i + 1), partial@));
            } else {
                assert(word_views(out@) =~= completions_of(self.commands@.take(i + 1), partial@));
            }
            i = i + 1;
        }
        assert(self.commands@.take(i as int) =~= self.commands@);
        out
    }
}

/// The reply of the version command.
pub fn version_reply() -> (r: CommandResult)
    ensures
        r matches CommandResult::Success(m) && m@ == "§fThis server is running §d§lCoral§r for Minecraft 1.8.9"@,
{
    CommandResult::Success(String::from_str("§fThis server is running §d§lCoral§r for Minecraft 1.8.9"))
}

/// The version command, answered by `handler`.
pub fn version_command<H>(handler: H) -> (c: Command<H>)
    ensures
        c.name@ == "version"@,
        c.description@ == "Show Coral version"@,
        c.usage@ == "/verison"@,
        c.handler == handler,
{
    Command {
        name: String::from_str("version"),
        description: String::from_str("Show Coral version"),
        usage: String::from_str("/verison"),
        handler,
    }
}

} // verus!
