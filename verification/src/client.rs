use vstd::prelude::*;

use crate::script::{encode_text, Cmd};

verus! {

/// The fixed preamble script: a script object that holds one handler per
/// command, each telling the running application what to do.  The
/// encoded command appended below it picks the handler to run.
pub open spec fn preamble_text() -> Seq<char> {
    "script Tunnelblick\non run\ntell application \"Tunnelblick\" to activate\nend run\non connect(cfg)\ntell application \"Tunnelblick\" to connect cfg\nend connect\non connectAll()\ntell application \"Tunnelblick\" to connect all\nend connectAll\non disconnect(cfg)\ntell application \"Tunnelblick\" to disconnect cfg\nend disconnect\non disconnectAll()\ntell application \"Tunnelblick\" to disconnect all\nend disconnectAll\non getConfigurations()\ntell application \"Tunnelblick\" to get name of configurations\nend getConfigurations\non showStatus()\ntell application \"Tunnelblick\" to get state of configurations\nend showStatus\non getVersion()\ntell application \"Tunnelblick\" to get version\nend getVersion\non quit()\ntell application \"Tunnelblick\" to quit\nend quit\nend script"@
}

/// Builds the one full script per invocation: the preamble, then the
/// encoded command on its own line.  Sending the script to the
/// interpreter is the caller's affair.
pub struct Client {
    script: String,
}

impl View for Client {
    type V = Seq<char>;

    closed spec fn view(&self) -> Seq<char> {
        self.script@
    }
}

impl Client {
    pub fn new() -> (c: Client)
        ensures
            c@ == preamble_text(),
    {
        Client {
            script: String::from_str(
                "script Tunnelblick\non run\ntell application \"Tunnelblick\" to activate\nend run\non connect(cfg)\ntell application \"Tunnelblick\" to connect cfg\nend connect\non connectAll()\ntell application \"Tunnelblick\" to connect all\nend connectAll\non disconnect(cfg)\ntell application \"Tunnelblick\" to disconnect cfg\nend disconnect\non disconnectAll()\ntell application \"Tunnelblick\" to disconnect all\nend disconnectAll\non getConfigurations()\ntell application \"Tunnelblick\" to get name of configurations\nend getConfigurations\non showStatus()\ntell application \"Tunnelblick\" to get state of configurations\nend showStatus\non getVersion()\ntell application \"Tunnelblick\" to get version\nend getVersion\non quit()\ntell application \"Tunnelblick\" to quit\nend quit\nend script",
            ),
        }
    }

    /// The full script for one command: preamble, newline, encoded call.
    pub fn compile_script(&self, command: &Cmd) -> (r: String)
        ensures
            r@ == self@ + "\n"@ + encode_text(command@.name, command@.args),
    {
        let mut out = self.script.clone();
        out.append("\n");
        let encoded = command.encode();
        out.append(encoded.as_str());
        out
    }
}

/// The version banner: the tool's own name and version on one line, the
/// application's version - as the running application reported it - on
/// the next.
pub fn version(tool: &str, tool_version: &str, app_version: &str) -> (r: String)
    ensures
        r@ == tool@ + " "@ + tool_version@ + "\n"@ + "Tunnelblick "@ + app_version@ + "\n"@,
{
    let mut out = tool.to_owned();
    out.append(" ");
    out.append(tool_version);
    out.append("\n");
    out.append("Tunnelblick ");
    out.append(app_version);
    out.append("\n");
    out
}

/// The shell completion text, served as it stands whatever shell asks.
pub open spec fn completion_text() -> Seq<char> {
    "_tunnelblick() {\nlocal cur=${COMP_WORDS[COMP_CWORD]}\nCOMPREPLY=( $(compgen -W \"connect disconnect list status quit launch\" -- $cur) )\n}\ncomplete -F _tunnelblick tunnelblick\n"@
}

pub fn complete(_shell: &str) -> (r: String)
    ensures
        r@ == completion_text(),
{
    String::from_str(
        "_tunnelblick() {\nlocal cur=${COMP_WORDS[COMP_CWORD]}\nCOMPREPLY=( $(compgen -W \"connect disconnect list status quit launch\" -- $cur) )\n}\ncomplete -F _tunnelblick tunnelblick\n",
    )
}

} // verus!
