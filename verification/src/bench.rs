//! Support for the prompt latency benchmark: the `PATH` under which the
//! measured tools run.
use vstd::prelude::*;

use crate::path::{file_name, file_name_spec, join_path, join_spec, parent_path, parent_spec};
use crate::service::systemd::{add_path, paths_view, push_unique_path};
use crate::text::{chars_of, lemma_scan, push_str_chars, scan, slice_chars, string_from_chars};

verus! {

/// `paths` with `p` added (unless an equal path is listed) when there is one.
pub open spec fn add_opt_path(paths: Seq<Seq<char>>, p: Option<Seq<char>>) -> Seq<Seq<char>> {
    match p {
        Some(q) => add_path(paths, q),
        None => paths,
    }
}

/// The directories of the benchmarked binaries, each once and in order,
/// then `/usr/bin` and `/bin` unless already listed.
pub open spec fn bench_dirs(
    capsule_bin: Seq<char>,
    starship_bin: Seq<char>,
    git_bin: Seq<char>,
    rustc_bin: Option<Seq<char>>,
) -> Seq<Seq<char>> {
    let d = add_opt_path(
        add_opt_path(add_opt_path(Seq::empty(), parent_spec(capsule_bin)), parent_spec(starship_bin)),
        parent_spec(git_bin),
    );
    let d = match rustc_bin {
        Some(r) => add_opt_path(d, parent_spec(r)),
        None => d,
    };
    add_path(add_path(d, "/usr/bin"@), "/bin"@)
}

/// The parts joined by `:`.
pub open spec fn colon_joined(parts: Seq<Seq<char>>) -> Seq<char>
    decreases parts.len(),
{
    if parts.len() == 0 {
        Seq::empty()
    } else if parts.len() == 1 {
        parts[0]
    } else {
        colon_joined(parts.drop_last()) + seq![':'] + parts.last()
    }
}

fn push_parent(dirs: &mut Vec<String>, bin: &str)
    ensures
        paths_view(final(dirs)@) == add_opt_path(paths_view(old(dirs)@), parent_spec(bin@)),
{
    match parent_path(bin) {
        Some(p) => push_unique_path(dirs, p),
        None => {},
    }
}

/// The `PATH` for the benchmark: the directories of the binaries, then
/// `/usr/bin` and `/bin`, each directory once, separated by `:`.
pub fn build_path_env(capsule_bin: &str, starship_bin: &str, git_bin: &str, rustc_bin: Option<&str>) -> (r: String)
    ensures
        r@ == colon_joined(
            bench_dirs(
                capsule_bin@,
                starship_bin@,
                git_bin@,
                match rustc_bin {
                    Some(x) => Some(x@),
                    None => None,
                },
            ),
        ),
{
    let mut dirs: Vec<String> = Vec::new();
    assert(paths_view(dirs@) =~= Seq::<Seq<char>>::empty());
    push_parent(&mut dirs, capsule_bin);
    push_parent(&mut dirs, starship_bin);
    push_parent(&mut dirs, git_bin);
    if let Some(r) = rustc_bin {
        push_parent(&mut dirs, r);
    }
    push_unique_path(&mut dirs, "/usr/bin".to_owned());
    push_unique_path(&mut dirs, "/bin".to_owned());
    let ghost parts = paths_view(dirs@);
    let mut out: Vec<char> = Vec::new();
    let mut i: usize = 0;
    while i < dirs.len()
        invariant
            i <= dirs.len(),
            parts == paths_view(dirs@),
            out@ == colon_joined(parts.take(i as int)),
        decreases dirs.len() - i,
    {
        assert(parts.take(i + 1).drop_last() =~= parts.take(i as int));
        assert(parts.take(i + 1).last() == dirs@[i as int]@);
        if i > 0 {
            out.push(':');
        } else {
            assert(parts.take(1) =~= seq![parts[0]]);
        }
        push_str_chars(&mut out, dirs[i].as_str());
        i = i + 1;
    }
    assert(parts.take(dirs.len() as int) =~= parts);
    string_from_chars(&out)
}

/// Facts about a benchmark run, reported with its results.
#[derive(Debug, Clone, PartialEq, Eq)]
pub struct RunMetadata {
    pub iterations: usize,
    pub capsule_bin: String,
    pub starship_bin: String,
    pub git_bin: String,
    pub rustc: String,
    pub macos: String,
    pub kernel: String,
    pub cpu: String,
}

/// Stops at a `:`.
pub open spec fn stop_colon() -> spec_fn(char) -> bool {
    |c: char| c == ':'
}

/// The entries of a `PATH` value from index `i` on, split at `:` (empty
/// entries included, as `std::env::split_paths` gives them).
pub open spec fn path_entries_from(p: Seq<char>, i: int) -> Seq<Seq<char>>
    decreases p.len() - i,
{
    if i < 0 || i > p.len() {
        Seq::empty()
    } else {
        let e = scan(p, i, stop_colon());
        if e < i || e >= p.len() {
            seq![p.subrange(i, if e < i { i } else { p.len() as int })]
        } else {
            seq![p.subrange(i, e)] + path_entries_from(p, e + 1)
        }
    }
}

/// Where a binary named like `name` is looked for on a `PATH` value: its
/// file name joined onto each entry, in order; none when `name` has no
/// file name.
pub open spec fn which_candidates_spec(name: Seq<char>, path_var: Seq<char>) -> Option<Seq<Seq<char>>> {
    match file_name_spec(name) {
        Some(f) => {
            let es = path_entries_from(path_var, 0);
            Some(Seq::new(es.len(), |k: int| join_spec(es[k], f)))
        },
        None => None,
    }
}

fn scan_colon(s: &[char], i: usize) -> (k: usize)
    requires
        i <= s.len(),
    ensures
        k == scan(s@, i as int, stop_colon()),
{
    let mut k = i;
    while k < s.len() && s[k] != ':'
        invariant
            i <= k <= s.len(),
            scan(s@, i as int, stop_colon()) == scan(s@, k as int, stop_colon()),
        decreases s.len() - k,
    {
        k = k + 1;
    }
    k
}

/// The paths at which a binary named like `name` is looked for on the
/// `PATH` value `path_var`, in search order.
pub fn which_candidates(name: &str, path_var: &str) -> (r: Option<Vec<String>>)
    ensures
        match r {
            Some(v) => which_candidates_spec(name@, path_var@) == Some(paths_view(v@)),
            None => which_candidates_spec(name@, path_var@) is None,
        },
{
    let f = match file_name(name) {
        Some(f) => f,
        None => return None,
    };
    let p = chars_of(path_var);
    let ghost es = path_entries_from(p@, 0);
    let mut out: Vec<String> = Vec::new();
    let mut i: usize = 0;
    loop
        invariant
            i <= p.len(),
            p@ == path_var@,
            es == path_entries_from(p@, 0),
            file_name_spec(name@) == Some(f@),
            Seq::new(es.len(), |k: int| join_spec(es[k], f@)) == paths_view(out@) + Seq::new(
                path_entries_from(p@, i as int).len(),
                |k: int| join_spec(path_entries_from(p@, i as int)[k], f@),
            ),
        decreases p.len() - i,
    {
        let e = scan_colon(p.as_slice(), i);
        proof {
            lemma_scan(p@, i as int, stop_colon());
        }
        let seg = slice_chars(p.as_slice(), i, e);
        let entry = string_from_chars(&seg);
        let cand = join_path(entry.as_str(), f.as_str());
        let ghost rest = path_entries_from(p@, i as int);
        let ghost before = paths_view(out@);
        out.push(cand);
        if e >= p.len() {
            proof {
                assert(rest =~= seq![p@.subrange(i as int, p.len() as int)]);
                assert(paths_view(out@) =~= before.push(cand@));
                assert(Seq::new(rest.len(), |k: int| join_spec(rest[k], f@)) =~= seq![cand@]);
            }
            return Some(out);
        }
        proof {
            let next = path_entries_from(p@, e + 1);
            assert(rest =~= seq![p@.subrange(i as int, e as int)] + next);
            assert(paths_view(out@) =~= before.push(cand@));
            assert(Seq::new(rest.len(), |k: int| join_spec(rest[k], f@)) =~= seq![cand@] + Seq::new(
                next.len(),
                |k: int| join_spec(next[k], f@),
            ));
        }
        i = e + 1;
    }
}

} // verus!
