use vstd::prelude::*;

use crate::text::push_char;

verus! {

/// How one character of an argument is rendered inside a quoted script
/// string literal: quotes, backslashes and the common control characters
/// are escaped with a backslash, everything else stands as it is.
pub open spec fn escape_char(c: char) -> Seq<char> {
    if c == '"' {
        seq!['\\', '"']
    } else if c == '\\' {
        seq!['\\', '\\']
    } else if c == '\n' {
        seq!['\\', 'n']
    } else if c == '\r' {
        seq!['\\', 'r']
    } else if c == '\t' {
        seq!['\\', 't']
    } else {
        seq![c]
    }
}

pub open spec fn escape_text(s: Seq<char>) -> Seq<char>
    decreases s.len(),
{
    if s.len() == 0 {
        Seq::<char>::empty()
    } else {
        escape_text(s.drop_last()) + escape_char(s.last())
    }
}

/// An argument as it stands in the generated script: escaped and wrapped
/// in double quotes, so that no argument content can break out of the
/// argument position.
pub open spec fn quoted(s: Seq<char>) -> Seq<char> {
    seq!['"'] + escape_text(s) + seq!['"']
}

/// The argument list as it stands between the parentheses: each argument
/// quoted, the arguments joined with commas.
pub open spec fn joined_args(args: Seq<Seq<char>>) -> Seq<char>
    decreases args.len(),
{
    if args.len() == 0 {
        Seq::<char>::empty()
    } else if args.len() == 1 {
        quoted(args.last())
    } else {
        joined_args(args.drop_last()) + seq![','] + quoted(args.last())
    }
}

/// The full text of an encoded command.  The launch command uses its own
/// scripting idiom; every other command is a call on the running
/// application.
pub open spec fn encode_text(name: Seq<char>, args: Seq<Seq<char>>) -> Seq<char> {
    if name == "run"@ {
        "run Tunnelblick"@
    } else {
        "tell Tunnelblick to "@ + name + "("@ + joined_args(args) + ")"@
    }
}

/// Law: every command but the launch one encodes to exactly
/// `tell Tunnelblick to <name>(<args>)`, the arguments each quoted and
/// joined with commas.
pub proof fn lemma_encode_shape(name: Seq<char>, args: Seq<Seq<char>>)
    requires
        name != "run"@,
    ensures
        encode_text(name, args) == "tell Tunnelblick to "@ + name + "("@ + joined_args(args)
            + ")"@,
{
}

/// Law: a command without arguments encodes to exactly
/// `tell Tunnelblick to <name>()`, the argument list empty.
pub proof fn lemma_encode_no_args(name: Seq<char>)
    requires
        name != "run"@,
    ensures
        encode_text(name, Seq::<Seq<char>>::empty()) == "tell Tunnelblick to "@ + name + "("@
            + ")"@,
{
    assert(joined_args(Seq::<Seq<char>>::empty()) == Seq::<char>::empty());
    assert("tell Tunnelblick to "@ + name + "("@ + Seq::<char>::empty() + ")"@ =~=
        "tell Tunnelblick to "@ + name + "("@ + ")"@);
}

/// The characters that quoting leaves untouched.
pub open spec fn plain_char(c: char) -> bool {
    c != '"' && c != '\\' && c != '\n' && c != '\r' && c != '\t'
}

pub open spec fn plain_text(s: Seq<char>) -> bool {
    forall|i: int| 0 <= i < s.len() ==> plain_char(s[i])
}

/// Law: a name without quotes, backslashes or control characters passes
/// through quoting unchanged, so stripping the two added quote marks -
/// what the interpreter's own unquoting does - gives back exactly the
/// original name.
pub proof fn lemma_quote_round_trip(s: Seq<char>)
    requires
        plain_text(s),
    ensures
        escape_text(s) == s,
        quoted(s) == seq!['"'] + s + seq!['"'],
        quoted(s).subrange(1, quoted(s).len() - 1) == s,
    decreases s.len(),
{
    if s.len() == 0 {
        assert(escape_text(s) =~= s);
    } else {
        assert(plain_text(s.drop_last()));
        lemma_quote_round_trip(s.drop_last());
        assert(plain_char(s.last()));
        assert(escape_char(s.last()) =~= seq![s.last()]);
        assert(escape_text(s) =~= s);
    }
    assert(quoted(s) =~= seq!['"'] + s + seq!['"']);
    assert(quoted(s).subrange(1, quoted(s).len() - 1) =~= s);
}

/// The character a backslash escape stands for when the interpreter
/// reads a string literal.
pub open spec fn unescape_char(c: char) -> char {
    if c == 'n' {
        '\n'
    } else if c == 'r' {
        '\r'
    } else if c == 't' {
        '\t'
    } else {
        c
    }
}

/// How the interpreter reads the inside of a string literal: a backslash
/// consumes the character after it as an escape, everything else stands
/// for itself.
pub open spec fn unescape_text(s: Seq<char>) -> Seq<char>
    decreases s.len(),
{
    if s.len() == 0 {
        Seq::<char>::empty()
    } else if s[0] == '\\' && s.len() >= 2 {
        seq![unescape_char(s[1])] + unescape_text(s.skip(2))
    } else {
        seq![s[0]] + unescape_text(s.skip(1))
    }
}

/// What the interpreter makes of a quoted argument: the quote marks
/// stripped, the escapes undone.
pub open spec fn unquoted(t: Seq<char>) -> Seq<char> {
    unescape_text(t.subrange(1, t.len() - 1))
}

/// Escaping can be unfolded from the front as well as from the back.
proof fn lemma_escape_text_head(s: Seq<char>)
    requires
        s.len() > 0,
    ensures
        escape_text(s) == escape_char(s[0]) + escape_text(s.drop_first()),
    decreases s.len(),
{
    if s.len() == 1 {
        assert(s.drop_last() =~= Seq::<char>::empty());
        assert(s.drop_first() =~= Seq::<char>::empty());
        assert(escape_text(s) =~= escape_char(s[0]) + escape_text(s.drop_first()));
    } else {
        lemma_escape_text_head(s.drop_last());
        assert(s.drop_last()[0] == s[0]);
        assert(s.drop_last().drop_first() =~= s.drop_first().drop_last());
        assert(s.drop_first().last() == s.last());
        assert(escape_text(s.drop_first()) == escape_text(s.drop_first().drop_last())
            + escape_char(s.drop_first().last()));
        assert(escape_text(s) =~= escape_char(s[0]) + escape_text(s.drop_first()));
    }
}

/// Law: undoing the escapes gives back exactly the text that was
/// escaped, whatever characters it held.
pub proof fn lemma_unescape_escape(s: Seq<char>)
    ensures
        unescape_text(escape_text(s)) == s,
    decreases s.len(),
{
    if s.len() == 0 {
        assert(escape_text(s) =~= Seq::<char>::empty());
        assert(unescape_text(escape_text(s)) =~= s);
    } else {
        lemma_escape_text_head(s);
        lemma_unescape_escape(s.drop_first());
        let c = s[0];
        let e = escape_text(s);
        if c == '"' || c == '\\' || c == '\n' || c == '\r' || c == '\t' {
            assert(e[0] == '\\');
            assert(e.len() >= 2);
            assert(unescape_char(e[1]) == c);
            assert(e.skip(2) =~= escape_text(s.drop_first()));
            assert(unescape_text(e) =~= seq![c] + s.drop_first());
        } else {
            assert(e[0] == c);
            assert(e.skip(1) =~= escape_text(s.drop_first()));
            assert(unescape_text(e) =~= seq![c] + s.drop_first());
        }
        assert(seq![c] + s.drop_first() =~= s);
    }
}

/// Law: any name, quoted for the script and read back the way the
/// interpreter reads a string literal, comes back unchanged - so no
/// argument content can change what name the script carries.
pub proof fn lemma_unquote_quote(s: Seq<char>)
    ensures
        unquoted(quoted(s)) == s,
{
    assert(quoted(s).subrange(1, quoted(s).len() - 1) =~= escape_text(s));
    lemma_unescape_escape(s);
}

/// Law: quoting is injective - two names with the same quoted form are
/// the same name.
pub proof fn lemma_quote_injective(a: Seq<char>, b: Seq<char>)
    requires
        quoted(a) == quoted(b),
    ensures
        a == b,
{
    lemma_unquote_quote(a);
    lemma_unquote_quote(b);
}

fn escape_arg(s: &str) -> (r: String)
    ensures
        r@ == escape_text(s@),
{
    let n = s.unicode_len();
    let mut out = String::new();
    let mut i: usize = 0;
    proof {
        assert(s@.take(0) =~= Seq::<char>::empty());
    }
    while i < n
        invariant
            i <= n,
            n == s@.len(),
            out@ == escape_text(s@.take(i as int)),
        decreases n - i,
    {
        let ghost prev = out@;
        let c = s.get_char(i);
        if c == '"' {
            push_char(&mut out, '\\');
            push_char(&mut out, '"');
        } else if c == '\\' {
            push_char(&mut out, '\\');
            push_char(&mut out, '\\');
        } else if c == '\n' {
            push_char(&mut out, '\\');
            push_char(&mut out, 'n');
        } else if c == '\r' {
            push_char(&mut out, '\\');
            push_char(&mut out, 'r');
        } else if c == '\t' {
            push_char(&mut out, '\\');
            push_char(&mut out, 't');
        } else {
            push_char(&mut out, c);
        }
        i = i + 1;
        proof {
            assert(s@.take(i as int).drop_last() =~= s@.take(i - 1));
            assert(s@.take(i as int).last() == s@[i - 1]);
            assert(out@ =~= prev + escape_char(s@[i - 1]));
        }
    }
    proof {
        assert(s@.take(n as int) =~= s@);
    }
    out
}

fn quote_arg(s: &str) -> (r: String)
    ensures
        r@ == quoted(s@),
{
    let mut out = String::new();
    push_char(&mut out, '"');
    let e = escape_arg(s);
    out.append(e.as_str());
    push_char(&mut out, '"');
    proof {
        assert(out@ =~= quoted(s@));
    }
    out
}

/// A scripting command under construction: a handler name and its
/// argument values, not yet rendered as script text.
pub struct Cmd {
    name: String,
    args: Vec<String>,
}

pub ghost struct CmdView {
    pub name: Seq<char>,
    pub args: Seq<Seq<char>>,
}

impl View for Cmd {
    type V = CmdView;

    closed spec fn view(&self) -> CmdView {
        CmdView { name: self.name@, args: self.args.deep_view() }
    }
}

impl Cmd {
    pub fn new() -> (c: Cmd)
        ensures
            c@.name == Seq::<char>::empty(),
            c@.args == Seq::<Seq<char>>::empty(),
    {
        let c = Cmd { name: String::new(), args: Vec::new() };
        proof {
            assert(c@.args =~= Seq::<Seq<char>>::empty());
        }
        c
    }

    /// Sets the handler name, keeping the arguments.
    pub fn cmd(self, name: &str) -> (c: Cmd)
        ensures
            c@.name == name@,
            c@.args == self@.args,
    {
        let c = Cmd { name: name.to_owned(), args: self.args };
        c
    }

    /// Appends one argument value.
    pub fn arg(self, arg: &str) -> (c: Cmd)
        ensures
            c@.name == self@.name,
            c@.args == self@.args.push(arg@),
    {
        let ghost prev = self.args.deep_view();
        let mut args = self.args;
        args.push(arg.to_owned());
        let c = Cmd { name: self.name, args };
        proof {
            assert(c@.args =~= prev.push(arg@));
        }
        c
    }

    /// Appends each of the given argument values, in order.
    pub fn args(self, args: &[&str]) -> (c: Cmd)
        ensures
            c@.name == self@.name,
            c@.args.len() == self@.args.len() + args@.len(),
            forall|j: int|
                0 <= j < self@.args.len() ==> c@.args[j] == self@.args[j],
            forall|j: int|
                0 <= j < args@.len() ==> c@.args[self@.args.len() + j] == args@[j]@,
    {
        let ghost base = self@.args;
        let ghost base_name = self@.name;
        let mut c = self;
        let n = args.len();
        let mut i: usize = 0;
        while i < n
            invariant
                i <= n,
                n == args@.len(),
                c@.name == base_name,
                c@.args.len() == base.len() + i,
                forall|j: int| 0 <= j < base.len() ==> c@.args[j] == base[j],
                forall|j: int| 0 <= j < i ==> c@.args[base.len() + j] == args@[j]@,
            decreases n - i,
        {
            c = c.arg(args[i]);
            i = i + 1;
        }
        c
    }

    /// Renders the command as script text: the launch idiom for the
    /// launch command, otherwise a call on the application with every
    /// argument quoted and the arguments comma-joined.
    pub fn encode(&self) -> (r: String)
        ensures
            r@ == encode_text(self@.name, self@.args),
    {
        let run = String::from_str("run");
        if self.name.eq(&run) {
            return String::from_str("run Tunnelblick");
        }
        let mut out = String::from_str("tell Tunnelblick to ");
        out.append(self.name.as_str());
        out.append("(");
        let ghost head = out@;
        let n = self.args.len();
        let mut i: usize = 0;
        proof {
            assert(self@.args.take(0) =~= Seq::<Seq<char>>::empty());
        }
        while i < n
            invariant
                i <= n,
                n == self@.args.len(),
                self@.args == self.args.deep_view(),
                out@ == head + joined_args(self@.args.take(i as int)),
            decreases n - i,
        {
            let ghost prev = out@;
            if i > 0 {
                push_char(&mut out, ',');
            }
            let q = quote_arg(self.args[i].as_str());
            out.append(q.as_str());
            i = i + 1;
            proof {
                let t = self@.args.take(i as int);
                assert(t.drop_last() =~= self@.args.take(i - 1));
                assert(t.last() == self@.args[i - 1]);
                if i == 1 {
                    assert(out@ =~= head + joined_args(t));
                } else {
                    assert(out@ =~= head + (joined_args(t.drop_last()) + seq![','] + quoted(
                        t.last(),
                    )));
                    assert(out@ =~= head + joined_args(t));
                }
            }
        }
        out.append(")");
        proof {
            assert(self@.args.take(n as int) =~= self@.args);
            assert(out@ =~= encode_text(self@.name, self@.args));
        }
        out
    }
}

/// Starts a command with the given handler name and no arguments.
pub fn cmd(name: &str) -> (c: Cmd)
    ensures
        c@.name == name@,
        c@.args == Seq::<Seq<char>>::empty(),
{
    Cmd::new().cmd(name)
}

/// Everything the tool can ask of the application, as a tagged variant:
/// connecting or disconnecting one configuration or all of them, listing
/// configurations, a status report, quitting, launching, and the
/// application's version.
pub enum Command {
    Connect(String),
    ConnectAll,
    Disconnect(String),
    DisconnectAll,
    GetConfigurations,
    GetStatus,
    Quit,
    Launch,
    GetVersion,
}

impl Command {
    /// The scripting handler name each variant calls.
    pub open spec fn script_name(&self) -> Seq<char> {
        match self {
            Command::Connect(_) => "connect"@,
            Command::ConnectAll => "connectAll"@,
            Command::Disconnect(_) => "disconnect"@,
            Command::DisconnectAll => "disconnectAll"@,
            Command::GetConfigurations => "getConfigurations"@,
            Command::GetStatus => "showStatus"@,
            Command::Quit => "quit"@,
            Command::Launch => "run"@,
            Command::GetVersion => "getVersion"@,
        }
    }

    /// The argument values each variant passes.
    pub open spec fn script_args(&self) -> Seq<Seq<char>> {
        match self {
            Command::Connect(name) => seq![name@],
            Command::Disconnect(name) => seq![name@],
            _ => Seq::<Seq<char>>::empty(),
        }
    }

    /// Builds the structured command for this variant.
    pub fn to_cmd(&self) -> (c: Cmd)
        ensures
            c@.name == self.script_name(),
            c@.args == self.script_args(),
    {
        match self {
            Command::Connect(name) => cmd("connect").arg(name.as_str()),
            Command::ConnectAll => cmd("connectAll"),
            Command::Disconnect(name) => cmd("disconnect").arg(name.as_str()),
            Command::DisconnectAll => cmd("disconnectAll"),
            Command::GetConfigurations => cmd("getConfigurations"),
            Command::GetStatus => cmd("showStatus"),
            Command::Quit => cmd("quit"),
            Command::Launch => cmd("run"),
            Command::GetVersion => cmd("getVersion"),
        }
    }

    /// Renders this variant as script text.
    pub fn encode(&self) -> (r: String)
        ensures
            r@ == encode_text(self.script_name(), self.script_args()),
    {
        self.to_cmd().encode()
    }

    /// Whether the reply to this command is a status table meant for
    /// structured re-parsing rather than raw display.
    pub fn is_status(&self) -> (b: bool)
        ensures
            b == (self is GetStatus),
    {
        match self {
            Command::GetStatus => true,
            _ => false,
        }
    }
}

} // verus!
