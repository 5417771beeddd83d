//! Linux systemd user units.
use vstd::prelude::*;

use crate::path::{join_path, join_spec, path_eq, paths_equal};
use crate::text::{
    chars_of, lemma_scan, push_str_chars, scan, scan_lf, slice_chars, stop_lf, string_from_chars, trim,
    trim_chars,
};

verus! {

/// The systemd user service manager of the daemon.
pub struct Systemd {
    /// The daemon's socket.
    pub socket_path: String,
}

impl Systemd {
    /// A manager for the daemon listening at `socket_path`.
    pub fn new(socket_path: &str) -> (r: Self)
        ensures
            r.socket_path@ == socket_path@,
    {
        Systemd { socket_path: socket_path.to_owned() }
    }
}

/// The service unit's file name.
pub const SERVICE_UNIT: &'static str = "capsule.service";

/// The socket unit's file name.
pub const SOCKET_UNIT: &'static str = "capsule.socket";

/// The user unit directory below a configuration or data directory.
pub const SYSTEMD_USER_DIR: &'static str = "systemd/user";

/// One `Environment=KEY=VALUE` line per forwarded variable.
pub open spec fn environment_lines(env: Seq<(&str, String)>) -> Seq<char>
    decreases env.len(),
{
    if env.len() == 0 {
        Seq::empty()
    } else {
        environment_lines(env.drop_last()) + "Environment="@ + env.last().0@ + "="@ + env.last().1@ + "\n"@
    }
}

/// The service unit: runs `<bin> daemon`, with the forwarded environment.
pub open spec fn service_unit_text(bin: Seq<char>, env: Seq<(&str, String)>) -> Seq<char> {
    "[Unit]\nDescription=capsule prompt daemon\n\n[Service]\nType=simple\nExecStart="@ + bin
        + " daemon\n"@ + environment_lines(env) + "[Install]\nWantedBy=default.target\n"@
}

/// The socket unit: listens on `socket` with mode 0700.
pub open spec fn socket_unit_text(socket: Seq<char>) -> Seq<char> {
    "[Unit]\nDescription=capsule prompt daemon socket\n\n[Socket]\nListenStream="@ + socket
        + "\nSocketMode=0700\n\n[Install]\nWantedBy=sockets.target\n"@
}

/// Writes the service unit for the binary at `capsule_bin`.
pub fn generate_service_unit(capsule_bin: &str, forwarded_env: &[(&str, String)]) -> (r: String)
    ensures
        r@ == service_unit_text(capsule_bin@, forwarded_env@),
{
    let mut out: Vec<char> = Vec::new();
    push_str_chars(&mut out, "[Unit]\nDescription=capsule prompt daemon\n\n[Service]\nType=simple\nExecStart=");
    push_str_chars(&mut out, capsule_bin);
    push_str_chars(&mut out, " daemon\n");
    let ghost head = out@;
    let mut i: usize = 0;
    while i < forwarded_env.len()
        invariant
            i <= forwarded_env.len(),
            out@ == head + environment_lines(forwarded_env@.take(i as int)),
        decreases forwarded_env.len() - i,
    {
        assert(forwarded_env@.take(i + 1).drop_last() =~= forwarded_env@.take(i as int));
        let (key, value) = &forwarded_env[i];
        push_str_chars(&mut out, "Environment=");
        push_str_chars(&mut out, key);
        push_str_chars(&mut out, "=");
        push_str_chars(&mut out, value.as_str());
        push_str_chars(&mut out, "\n");
        i = i + 1;
        assert(out@ =~= head + environment_lines(forwarded_env@.take(i as int)));
    }
    assert(forwarded_env@.take(forwarded_env.len() as int) =~= forwarded_env@);
    push_str_chars(&mut out, "[Install]\nWantedBy=default.target\n");
    assert(out@ =~= service_unit_text(capsule_bin@, forwarded_env@));
    string_from_chars(&out)
}

/// Writes the socket unit listening on `socket_path`.
pub fn generate_socket_unit(socket_path: &str) -> (r: String)
    ensures
        r@ == socket_unit_text(socket_path@),
{
    let mut out: Vec<char> = Vec::new();
    push_str_chars(&mut out, "[Unit]\nDescription=capsule prompt daemon socket\n\n[Socket]\nListenStream=");
    push_str_chars(&mut out, socket_path);
    push_str_chars(&mut out, "\nSocketMode=0700\n\n[Install]\nWantedBy=sockets.target\n");
    assert(out@ =~= socket_unit_text(socket_path@));
    string_from_chars(&out)
}

/// `~/.config/systemd/user`.
pub open spec fn unit_dir_spec(home: Seq<char>) -> Seq<char> {
    join_spec(join_spec(home, ".config"@), SYSTEMD_USER_DIR@)
}

/// The user unit directory below the home directory.
pub fn unit_dir(home: &str) -> (r: String)
    ensures
        r@ == unit_dir_spec(home@),
{
    let c = join_path(home, ".config");
    join_path(c.as_str(), SYSTEMD_USER_DIR)
}

/// The user unit directory below the data directory (`$XDG_DATA_HOME`, or
/// `~/.local/share`).
pub open spec fn data_unit_dir_spec(home: Seq<char>, xdg_data_home: Option<Seq<char>>) -> Seq<char> {
    join_spec(
        match xdg_data_home {
            Some(d) => d,
            None => join_spec(home, ".local/share"@),
        },
        SYSTEMD_USER_DIR@,
    )
}

/// The optional view of an optional string.
pub open spec fn opt_view(s: Option<String>) -> Option<Seq<char>> {
    match s {
        Some(v) => Some(v@),
        None => None,
    }
}

/// The user unit directory below the data directory.
pub fn data_unit_dir(home: &str, xdg_data_home: Option<String>) -> (r: String)
    ensures
        r@ == data_unit_dir_spec(home@, opt_view(xdg_data_home)),
{
    let base = match xdg_data_home {
        Some(d) => d,
        None => join_path(home, ".local/share"),
    };
    join_path(base.as_str(), SYSTEMD_USER_DIR)
}

/// Where the service unit is installed.
pub fn service_file_path(home: &str) -> (r: String)
    ensures
        r@ == join_spec(unit_dir_spec(home@), SERVICE_UNIT@),
{
    let d = unit_dir(home);
    join_path(d.as_str(), SERVICE_UNIT)
}

/// Where the socket unit is installed.
pub fn socket_file_path(home: &str) -> (r: String)
    ensures
        r@ == join_spec(unit_dir_spec(home@), SOCKET_UNIT@),
{
    let d = unit_dir(home);
    join_path(d.as_str(), SOCKET_UNIT)
}

/// `paths` with `p` appended unless an equal path (by components) is there.
pub open spec fn add_path(paths: Seq<Seq<char>>, p: Seq<char>) -> Seq<Seq<char>> {
    if exists|k: int| 0 <= k < paths.len() && path_eq(#[trigger] paths[k], p) {
        paths
    } else {
        paths.push(p)
    }
}

/// The character views of a list of strings.
pub open spec fn paths_view(v: Seq<String>) -> Seq<Seq<char>> {
    Seq::new(v.len(), |i: int| v[i]@)
}

/// Appends `path` unless an equal path is already listed.
pub fn push_unique_path(paths: &mut Vec<String>, path: String)
    ensures
        paths_view(final(paths)@) == add_path(paths_view(old(paths)@), path@),
{
    let ghost before = paths_view(paths@);
    let mut i: usize = 0;
    while i < paths.len()
        invariant
            i <= paths.len(),
            paths_view(paths@) == before,
            forall|k: int| 0 <= k < i ==> !path_eq(#[trigger] before[k], path@),
        decreases paths.len() - i,
    {
        if paths_equal(paths[i].as_str(), path.as_str()) {
            assert(path_eq(before[i as int], path@));
            return;
        }
        i = i + 1;
    }
    paths.push(path);
    assert(paths_view(paths@) =~= before.push(path@));
}

/// The candidate locations of the service definition, each once: the
/// installed unit, the path systemd reports, the unit below
/// `$XDG_CONFIG_HOME`, the unit below the data directory, and the
/// system-wide `/etc/systemd/user` unit.
pub open spec fn definition_paths_spec(
    home: Seq<char>,
    xdg_config_home: Option<Seq<char>>,
    xdg_data_home: Option<Seq<char>>,
    fragment_path: Option<Seq<char>>,
) -> Seq<Seq<char>> {
    let p0 = seq![join_spec(unit_dir_spec(home), SERVICE_UNIT@)];
    let p1 = match fragment_path {
        Some(f) => add_path(p0, f),
        None => p0,
    };
    let p2 = match xdg_config_home {
        Some(x) => add_path(p1, join_spec(join_spec(x, SYSTEMD_USER_DIR@), SERVICE_UNIT@)),
        None => p1,
    };
    let p3 = add_path(p2, join_spec(data_unit_dir_spec(home, xdg_data_home), SERVICE_UNIT@));
    add_path(p3, join_spec(join_spec("/etc"@, SYSTEMD_USER_DIR@), SERVICE_UNIT@))
}

/// Lists where a service definition for capsule may be found.
pub fn service_definition_paths_with_env(
    home: &str,
    xdg_config_home: Option<String>,
    xdg_data_home: Option<String>,
    fragment_path: Option<String>,
) -> (r: Vec<String>)
    ensures
        paths_view(r@) == definition_paths_spec(
            home@,
            opt_view(xdg_config_home),
            opt_view(xdg_data_home),
            opt_view(fragment_path),
        ),
{
    let mut paths: Vec<String> = Vec::new();
    let first = service_file_path(home);
    paths.push(first);
    assert(paths_view(paths@) =~= seq![join_spec(unit_dir_spec(home@), SERVICE_UNIT@)]);
    if let Some(f) = fragment_path {
        push_unique_path(&mut paths, f);
    }
    if let Some(x) = xdg_config_home {
        let d = join_path(x.as_str(), SYSTEMD_USER_DIR);
        push_unique_path(&mut paths, join_path(d.as_str(), SERVICE_UNIT));
    }
    let data = data_unit_dir(home, xdg_data_home);
    push_unique_path(&mut paths, join_path(data.as_str(), SERVICE_UNIT));
    let etc = join_path("/etc", SYSTEMD_USER_DIR);
    push_unique_path(&mut paths, join_path(etc.as_str(), SERVICE_UNIT));
    paths
}

/// The first line at or after `i` that is not blank, trimmed.
pub open spec fn first_nonblank_line(s: Seq<char>, i: int) -> Option<Seq<char>>
    decreases s.len() - i,
{
    if i < 0 || i >= s.len() {
        None
    } else {
        let k = scan(s, i, stop_lf());
        let line = trim(s.subrange(i, k));
        if line.len() > 0 {
            Some(line)
        } else if k < i || k >= s.len() {
            None
        } else {
            first_nonblank_line(s, k + 1)
        }
    }
}

/// The unit path that `systemctl show --property=FragmentPath --value`
/// printed: its first non-blank line, trimmed, when that is an absolute path.
pub open spec fn fragment_path_spec(stdout: Seq<char>) -> Option<Seq<char>> {
    match first_nonblank_line(stdout, 0) {
        Some(line) => if line[0] == '/' {
            Some(line)
        } else {
            None
        },
        None => None,
    }
}

/// Reads the unit path from the output of
/// `systemctl show --property=FragmentPath --value`.
pub fn fragment_path_from_output(stdout: &str) -> (r: Option<String>)
    ensures
        opt_view(r) == fragment_path_spec(stdout@),
{
    let s = chars_of(stdout);
    let mut i: usize = 0;
    while i < s.len()
        invariant
            i <= s.len(),
            s@ == stdout@,
            first_nonblank_line(s@, 0) == first_nonblank_line(s@, i as int),
        decreases s.len() - i,
    {
        let k = scan_lf(s.as_slice(), i);
        proof {
            lemma_scan(s@, i as int, stop_lf());
        }
        let seg = slice_chars(s.as_slice(), i, k);
        let line = trim_chars(seg.as_slice());
        if line.len() > 0 {
            if line[0] == '/' {
                return Some(string_from_chars(&line));
            } else {
                return None;
            }
        }
        if k >= s.len() {
            return None;
        }
        i = k + 1;
    }
    None
}

/// No two of the paths are equal as paths.
pub open spec fn distinct_paths(paths: Seq<Seq<char>>) -> bool {
    forall|i: int, j: int| 0 <= i < j < paths.len() ==> !path_eq(#[trigger] paths[i], #[trigger] paths[j])
}

proof fn lemma_add_path_distinct(paths: Seq<Seq<char>>, p: Seq<char>)
    requires
        distinct_paths(paths),
    ensures
        distinct_paths(add_path(paths, p)),
{
    if !(exists|k: int| 0 <= k < paths.len() && path_eq(#[trigger] paths[k], p)) {
        let q = paths.push(p);
        assert forall|i: int, j: int| 0 <= i < j < q.len() implies !path_eq(#[trigger] q[i], #[trigger] q[j]) by {
            if j == paths.len() {
                assert(q[i] == paths[i]);
                assert(q[j] == p);
            } else {
                assert(q[i] == paths[i]);
                assert(q[j] == paths[j]);
            }
        }
    }
}

/// The candidate locations of the service definition never list one path
/// twice, whichever overrides are given.
pub proof fn lemma_definition_paths_distinct(
    home: Seq<char>,
    xdg_config_home: Option<Seq<char>>,
    xdg_data_home: Option<Seq<char>>,
    fragment_path: Option<Seq<char>>,
)
    ensures
        distinct_paths(definition_paths_spec(home, xdg_config_home, xdg_data_home, fragment_path)),
{
    let p0 = seq![join_spec(unit_dir_spec(home), SERVICE_UNIT@)];
    let p1 = match fragment_path {
        Some(f) => add_path(p0, f),
        None => p0,
    };
    let p2 = match xdg_config_home {
        Some(x) => add_path(p1, join_spec(join_spec(x, SYSTEMD_USER_DIR@), SERVICE_UNIT@)),
        None => p1,
    };
    let p3 = add_path(p2, join_spec(data_unit_dir_spec(home, xdg_data_home), SERVICE_UNIT@));
    if let Some(f) = fragment_path {
        lemma_add_path_distinct(p0, f);
    }
    if let Some(x) = xdg_config_home {
        lemma_add_path_distinct(p1, join_spec(join_spec(x, SYSTEMD_USER_DIR@), SERVICE_UNIT@));
    }
    lemma_add_path_distinct(p2, join_spec(data_unit_dir_spec(home, xdg_data_home), SERVICE_UNIT@));
    lemma_add_path_distinct(p3, join_spec(join_spec("/etc"@, SYSTEMD_USER_DIR@), SERVICE_UNIT@));
}

} // verus!
