//! macOS launchd agent definition.
use vstd::prelude::*;

use crate::path::{join_path, join_spec};
use crate::text::{chars_of, parse_usize, parse_usize_spec, push_decimal, decimal, push_str_chars, string_from_chars, trim, trim_chars};

verus! {

/// The launchd label of the capsule agent.
pub const LAUNCHD_LABEL: &'static str = "com.github.shuymn.capsule";

/// The name of the socket that launchd hands to the daemon.
pub const LAUNCHD_SOCKET_NAME: &'static str = "Listeners";

/// The launchd service manager of the daemon, for one user.
pub struct Launchd {
    /// The user's id.
    pub uid: u32,
    /// The daemon's socket.
    pub socket_path: String,
}

/// The user id that the output of `id -u` gives: its text without
/// surrounding whitespace, read as a decimal `u32` (an optional `+`, then
/// digits), when it is one.
pub open spec fn uid_from_output(output: Seq<char>) -> Option<u32> {
    match parse_usize_spec(trim(output)) {
        Some(v) => if v <= u32::MAX { Some(v as u32) } else { None },
        None => None,
    }
}

impl Launchd {
    /// A manager for the daemon listening at `socket_path`, for the user
    /// whose id `id -u` printed as `id_output`; `None` when the output is no
    /// user id.
    pub fn new(socket_path: &str, id_output: &str) -> (r: Option<Self>)
        ensures
            match uid_from_output(id_output@) {
                Some(uid) => r matches Some(l) && l.uid == uid && l.socket_path@ == socket_path@,
                None => r is None,
            },
    {
        let text = chars_of(id_output);
        let trimmed = trim_chars(text.as_slice());
        match parse_usize(trimmed.as_slice()) {
            Some(v) => {
                if v <= 0xffff_ffff {
                    Some(Launchd { uid: v as u32, socket_path: socket_path.to_owned() })
                } else {
                    None
                }
            },
            None => None,
        }
    }

    /// The agent's launchctl service target, `gui/<uid>/<label>`.
    pub fn service_target(&self) -> (r: String)
        ensures
            r@ == service_target_spec(self.uid),
    {
        service_target(self.uid)
    }
}

/// `c` escaped for XML text.
pub open spec fn escape_char(c: char) -> Seq<char> {
    if c == '&' {
        "&amp;"@
    } else if c == '<' {
        "&lt;"@
    } else if c == '>' {
        "&gt;"@
    } else if c == '"' {
        "&quot;"@
    } else if c == '\'' {
        "&apos;"@
    } else {
        seq![c]
    }
}

/// `s` with the XML special characters escaped.
pub open spec fn escape_xml_spec(s: Seq<char>) -> Seq<char>
    decreases s.len(),
{
    if s.len() == 0 {
        Seq::empty()
    } else {
        escape_xml_spec(s.drop_last()) + escape_char(s.last())
    }
}

/// Escapes `&`, `<`, `>`, `"` and `'` for XML text.
pub fn escape_xml(s: &str) -> (r: String)
    ensures
        r@ == escape_xml_spec(s@),
{
    let cs = chars_of(s);
    let mut out: Vec<char> = Vec::new();
    let mut i: usize = 0;
    while i < cs.len()
        invariant
            i <= cs.len(),
            cs@ == s@,
            out@ == escape_xml_spec(cs@.take(i as int)),
        decreases cs.len() - i,
    {
        assert(cs@.take(i + 1).drop_last() =~= cs@.take(i as int));
        let c = cs[i];
        if c == '&' {
            push_str_chars(&mut out, "&amp;");
        } else if c == '<' {
            push_str_chars(&mut out, "&lt;");
        } else if c == '>' {
            push_str_chars(&mut out, "&gt;");
        } else if c == '"' {
            push_str_chars(&mut out, "&quot;");
        } else if c == '\'' {
            push_str_chars(&mut out, "&apos;");
        } else {
            out.push(c);
        }
        i = i + 1;
    }
    assert(cs@.take(cs.len() as int) =~= cs@);
    string_from_chars(&out)
}

/// The entries of the `EnvironmentVariables` dictionary.
pub open spec fn environment_entries(vars: Seq<(&str, String)>) -> Seq<char>
    decreases vars.len(),
{
    if vars.len() == 0 {
        Seq::empty()
    } else {
        environment_entries(vars.drop_last()) + "\n        <key>"@ + escape_xml_spec(vars.last().0@)
            + "</key>\n        <string>"@ + escape_xml_spec(vars.last().1@) + "</string>"@
    }
}

/// The `EnvironmentVariables` section, or nothing without variables.
pub open spec fn environment_section(vars: Seq<(&str, String)>) -> Seq<char> {
    if vars.len() == 0 {
        Seq::empty()
    } else {
        "\n    <key>EnvironmentVariables</key>\n    <dict>"@ + environment_entries(vars) + "\n    </dict>"@
    }
}

/// Writes the `EnvironmentVariables` section for the forwarded variables.
pub fn format_environment_variables(vars: &[(&str, String)]) -> (r: String)
    ensures
        r@ == environment_section(vars@),
{
    if vars.len() == 0 {
        return String::new();
    }
    let mut out: Vec<char> = Vec::new();
    push_str_chars(&mut out, "\n    <key>EnvironmentVariables</key>\n    <dict>");
    let ghost head = out@;
    let mut i: usize = 0;
    while i < vars.len()
        invariant
            i <= vars.len(),
            out@ == head + environment_entries(vars@.take(i as int)),
        decreases vars.len() - i,
    {
        assert(vars@.take(i + 1).drop_last() =~= vars@.take(i as int));
        let (key, value) = &vars[i];
        push_str_chars(&mut out, "\n        <key>");
        let k = escape_xml(key);
        push_str_chars(&mut out, k.as_str());
        push_str_chars(&mut out, "</key>\n        <string>");
        let v = escape_xml(value.as_str());
        push_str_chars(&mut out, v.as_str());
        push_str_chars(&mut out, "</string>");
        i = i + 1;
        assert(out@ =~= head + environment_entries(vars@.take(i as int)));
    }
    assert(vars@.take(vars.len() as int) =~= vars@);
    push_str_chars(&mut out, "\n    </dict>");
    assert(out@ =~= environment_section(vars@));
    string_from_chars(&out)
}

/// The agent definition: runs `<bin> daemon` on demand from the socket at
/// `socket` (mode 0700, decimal 448), with the forwarded environment.
pub open spec fn plist_text(bin: Seq<char>, socket: Seq<char>, vars: Seq<(&str, String)>) -> Seq<char> {
    "<?xml version=\"1.0\" encoding=\"UTF-8\"?>\n<!DOCTYPE plist PUBLIC \"-//Apple//DTD PLIST 1.0//EN\" \"http://www.apple.com/DTDs/PropertyList-1.0.dtd\">\n<plist version=\"1.0\">\n<dict>\n    <key>Label</key>\n    <string>"@
        + LAUNCHD_LABEL@
        + "</string>\n    <key>ProgramArguments</key>\n    <array>\n        <string>"@ + bin
        + "</string>\n        <string>daemon</string>\n    </array>"@ + environment_section(vars)
        + "\n    <key>Sockets</key>\n    <dict>\n        <key>"@ + LAUNCHD_SOCKET_NAME@
        + "</key>\n        <dict>\n            <key>SockPathName</key>\n            <string>"@ + socket
        + "</string>\n            <key>SockPathMode</key>\n            <integer>448</integer>\n        </dict>\n    </dict>\n</dict>\n</plist>\n"@
}

/// Writes the launchd agent definition.
pub fn generate_plist(capsule_bin: &str, socket_path: &str, forwarded_env: &[(&str, String)]) -> (r: String)
    ensures
        r@ == plist_text(capsule_bin@, socket_path@, forwarded_env@),
{
    let env_section = format_environment_variables(forwarded_env);
    let mut out: Vec<char> = Vec::new();
    push_str_chars(&mut out, "<?xml version=\"1.0\" encoding=\"UTF-8\"?>\n<!DOCTYPE plist PUBLIC \"-//Apple//DTD PLIST 1.0//EN\" \"http://www.apple.com/DTDs/PropertyList-1.0.dtd\">\n<plist version=\"1.0\">\n<dict>\n    <key>Label</key>\n    <string>");
    push_str_chars(&mut out, LAUNCHD_LABEL);
    push_str_chars(&mut out, "</string>\n    <key>ProgramArguments</key>\n    <array>\n        <string>");
    push_str_chars(&mut out, capsule_bin);
    push_str_chars(&mut out, "</string>\n        <string>daemon</string>\n    </array>");
    push_str_chars(&mut out, env_section.as_str());
    push_str_chars(&mut out, "\n    <key>Sockets</key>\n    <dict>\n        <key>");
    push_str_chars(&mut out, LAUNCHD_SOCKET_NAME);
    push_str_chars(&mut out, "</key>\n        <dict>\n            <key>SockPathName</key>\n            <string>");
    push_str_chars(&mut out, socket_path);
    push_str_chars(&mut out, "</string>\n            <key>SockPathMode</key>\n            <integer>448</integer>\n        </dict>\n    </dict>\n</dict>\n</plist>\n");
    assert(out@ =~= plist_text(capsule_bin@, socket_path@, forwarded_env@));
    string_from_chars(&out)
}

/// `~/Library/LaunchAgents/<label>.plist`.
pub open spec fn plist_path_spec(home: Seq<char>) -> Seq<char> {
    join_spec(join_spec(home, "Library/LaunchAgents"@), LAUNCHD_LABEL@ + ".plist"@)
}

/// Where the agent definition is installed.
pub fn plist_path_for(home: &str) -> (r: String)
    ensures
        r@ == plist_path_spec(home@),
{
    let dir = join_path(home, "Library/LaunchAgents");
    let mut name: Vec<char> = Vec::new();
    push_str_chars(&mut name, LAUNCHD_LABEL);
    push_str_chars(&mut name, ".plist");
    let n = string_from_chars(&name);
    join_path(dir.as_str(), n.as_str())
}

/// `gui/<uid>/<label>`, the agent's service target.
pub open spec fn service_target_spec(uid: u32) -> Seq<char> {
    "gui/"@ + decimal(uid as nat) + seq!['/'] + LAUNCHD_LABEL@
}

/// The launchctl service target of the agent for user `uid`.
pub fn service_target(uid: u32) -> (r: String)
    ensures
        r@ == service_target_spec(uid),
{
    let mut out: Vec<char> = Vec::new();
    push_str_chars(&mut out, "gui/");
    push_decimal(&mut out, uid as u64);
    out.push('/');
    push_str_chars(&mut out, LAUNCHD_LABEL);
    assert(out@ =~= service_target_spec(uid));
    string_from_chars(&out)
}

/// Escaping law: escaped text holds none of `<`, `>`, `"` and `'`, so it
/// cannot close or open markup or quoted attributes.
pub proof fn lemma_escape_xml_no_markup(s: Seq<char>)
    ensures
        forall|k: int|
            0 <= k < escape_xml_spec(s).len() ==> {
                let c = #[trigger] escape_xml_spec(s)[k];
                c != '<' && c != '>' && c != '"' && c != '\''
            },
    decreases s.len(),
{
    if s.len() > 0 {
        lemma_escape_xml_no_markup(s.drop_last());
        let a = escape_xml_spec(s.drop_last());
        let b = escape_char(s.last());
        reveal_strlit("&amp;");
        reveal_strlit("&lt;");
        reveal_strlit("&gt;");
        reveal_strlit("&quot;");
        reveal_strlit("&apos;");
        assert forall|k: int| 0 <= k < (a + b).len() implies {
            let c = #[trigger] (a + b)[k];
            c != '<' && c != '>' && c != '"' && c != '\''
        } by {
            if k >= a.len() {
                assert((a + b)[k] == b[k - a.len()]);
            } else {
                assert((a + b)[k] == a[k]);
            }
        }
    }
}

} // verus!
