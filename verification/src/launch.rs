//! Launch decisions: what a change of Telegram credentials does to the running stack, and
//! which temp folder is safe to empty.
use vstd::prelude::*;

use crate::player::controller::eq_ignore_case;

verus! {

/// What a change of credentials does to the Telegram stack.
#[derive(Debug, PartialEq, Eq)]
pub enum CredentialsStep {
    /// A client runs and new credentials are set: restart it with them.
    Restart(i32, String),
    /// A client runs and the credentials were cleared: close it.
    Close,
    /// No client yet and credentials are set: start one.
    Start,
    /// No client and no credentials: Telegram stays off.
    Off,
}

/// Decides [`CredentialsStep`] from whether a client runs and the credentials in effect.
pub fn credentials_step(client_running: bool, credentials: Option<(i32, String)>) -> (s: CredentialsStep)
    ensures
        s == match (client_running, credentials) {
            (true, Some((id, hash))) => CredentialsStep::Restart(id, hash),
            (true, None) => CredentialsStep::Close,
            (false, Some(_)) => CredentialsStep::Start,
            (false, None) => CredentialsStep::Off,
        },
{
    match (client_running, credentials) {
        (true, Some((id, hash))) => CredentialsStep::Restart(id, hash),
        (true, None) => CredentialsStep::Close,
        (false, Some(_)) => CredentialsStep::Start,
        (false, None) => CredentialsStep::Off,
    }
}

/// A path separator: `/`, and `\` too where paths are Windows paths.
pub open spec fn is_sep(c: char, windows: bool) -> bool {
    c == '/' || (windows && c == '\\')
}

/// The pieces of `s` between separators, empty ones included.
pub open spec fn pieces(s: Seq<char>, windows: bool) -> Seq<Seq<char>>
    decreases s.len(),
{
    if s.len() == 0 {
        seq![Seq::empty()]
    } else {
        let rest = pieces(s.drop_last(), windows);
        if is_sep(s.last(), windows) {
            rest.push(Seq::empty())
        } else {
            rest.update(rest.len() - 1, rest.last().push(s.last()))
        }
    }
}

/// A piece that names something: not empty and not `.`.
pub open spec fn named(p: Seq<char>) -> bool {
    p.len() > 0 && p != seq!['.']
}

/// Whether the piece at `index` is a component: a name, or a `.` that begins the path.
pub open spec fn kept(p: Seq<char>, index: int) -> bool {
    named(p) || (index == 0 && p == seq!['.'])
}

/// The pieces that are components, in order.
pub open spec fn keep_named(ps: Seq<Seq<char>>) -> Seq<Seq<char>>
    decreases ps.len(),
{
    if ps.len() == 0 {
        Seq::empty()
    } else if kept(ps.last(), ps.len() - 1) {
        keep_named(ps.drop_last()).push(ps.last())
    } else {
        keep_named(ps.drop_last())
    }
}

/// The names along a path, as its components list them: repeated separators and `.`
/// pieces drop out, except a `.` at the very beginning.
pub open spec fn names(s: Seq<char>, windows: bool) -> Seq<Seq<char>> {
    keep_named(pieces(s, windows))
}

/// A path as its components: whether it starts at the root, and its names.
pub open spec fn components(s: Seq<char>, windows: bool) -> (bool, Seq<Seq<char>>) {
    (s.len() > 0 && is_sep(s[0], windows), names(s, windows))
}

/// A Windows drive prefix (`C:`): its letter, when paths are Windows paths and `s` starts
/// with one.
pub open spec fn drive(s: Seq<char>, windows: bool) -> Option<char> {
    if windows && s.len() >= 2 && s[1] == ':' && (('a' <= s[0] && s[0] <= 'z') || ('A' <= s[0] && s[0] <= 'Z')) {
        Some(s[0])
    } else {
        None
    }
}

/// A drive letter with ASCII case folded, as drive prefixes compare.
pub open spec fn fold(c: char) -> u32 {
    if 'a' <= c && c <= 'z' { (c as u32 - 32) as u32 } else { c as u32 }
}

/// Two paths have the same drive prefix: none, or the same letter in either case.
pub open spec fn same_drive(a: Option<char>, b: Option<char>) -> bool {
    match (a, b) {
        (None, None) => true,
        (Some(x), Some(y)) => fold(x) == fold(y),
        _ => false,
    }
}

/// The path after its drive prefix.
pub open spec fn after_drive(s: Seq<char>, windows: bool) -> Seq<char> {
    if drive(s, windows) is Some { s.skip(2) } else { s }
}

/// True when `root` is a folder Flox owns under the system temp folder, safe to empty: not
/// the temp folder itself, not one of its ancestors, and named `flox` or `temp` (ASCII case
/// ignored). `windows` says whether `\` separates too and a drive prefix (`C:`) leads.
pub open spec fn is_flox_temp_spec(root: Seq<char>, system_temp: Seq<char>, windows: bool) -> bool {
    let (r_abs, r) = components(after_drive(root, windows), windows);
    let (t_abs, t) = components(after_drive(system_temp, windows), windows);
    let drives = same_drive(drive(root, windows), drive(system_temp, windows));
    let last_named = r.len() > 0 && r.last() != seq!['.', '.'] && (eq_ignore_case(r.last(), "flox"@)
        || eq_ignore_case(r.last(), "temp"@));
    let same = drives && r_abs == t_abs && r == t;
    let ancestor = drives && r_abs == t_abs && r.len() <= t.len() && t.take(r.len() as int) == r;
    last_named && !same && !ancestor
}

/// A path's drive prefix, when it has one, and the characters after it.
fn split_drive(s: &str, windows: bool) -> (r: (Option<char>, Vec<char>))
    ensures
        r.0 == drive(s@, windows),
        r.1@ == after_drive(s@, windows),
{
    let cs = crate::text::chars_of(s);
    if windows && cs.len() >= 2 && cs[1] == ':' && (('a' <= cs[0] && cs[0] <= 'z') || ('A' <= cs[0] && cs[0] <= 'Z')) {
        let mut rest: Vec<char> = Vec::new();
        let mut i: usize = 2;
        while i < cs.len()
            invariant
                2 <= i <= cs@.len(),
                rest@ == cs@.subrange(2, i as int),
            decreases cs@.len() - i,
        {
            rest.push(cs[i]);
            i = i + 1;
        }
        assert(rest@ =~= cs@.skip(2));
        (Some(cs[0]), rest)
    } else {
        (None, cs)
    }
}

fn fold_exec(c: char) -> (r: u32)
    ensures
        r == fold(c),
{
    if 'a' <= c && c <= 'z' { c as u32 - 32 } else { c as u32 }
}

fn is_sep_exec(c: char, windows: bool) -> (r: bool)
    ensures
        r == is_sep(c, windows),
{
    c == '/' || (windows && c == '\\')
}

proof fn lemma_pieces_nonempty(s: Seq<char>, windows: bool)
    ensures
        pieces(s, windows).len() >= 1,
    decreases s.len(),
{
    if s.len() > 0 {
        lemma_pieces_nonempty(s.drop_last(), windows);
    }
}

/// The components of a path: whether it starts at the root, and its names.
fn split_path(cs: Vec<char>, windows: bool) -> (r: (bool, Vec<Vec<char>>))
    ensures
        r.0 == components(cs@, windows).0,
        r.1@.map_values(|v: Vec<char>| v@) == components(cs@, windows).1,
{
    let ghost s = cs@;
    let mut done: Vec<Vec<char>> = Vec::new();
    let mut cur: Vec<char> = Vec::new();
    let mut first = true;
    let mut i: usize = 0;
    proof {
        assert(cs@.take(0) =~= Seq::<char>::empty());
    }
    while i < cs.len()
        invariant
            i <= cs@.len(),
            cs@ == s,
            pieces(cs@.take(i as int), windows).len() >= 1,
            first == (pieces(cs@.take(i as int), windows).len() == 1),
            cur@ == pieces(cs@.take(i as int), windows).last(),
            done@.map_values(|v: Vec<char>| v@) == keep_named(pieces(cs@.take(i as int), windows).drop_last()),
        decreases cs@.len() - i,
    {
        let c = cs[i];
        proof {
            assert(cs@.take(i + 1).drop_last() =~= cs@.take(i as int));
            assert(cs@.take(i + 1).last() == c);
            lemma_pieces_nonempty(cs@.take(i as int), windows);
        }
        let ghost ps = pieces(cs@.take(i as int), windows);
        if is_sep_exec(c, windows) {
            let dot = cur.len() == 1 && cur[0] == '.';
            let keep = (cur.len() > 0 && !dot) || (first && dot);
            proof {
                assert(dot == (cur@ == seq!['.'])) by {
                    if cur@ == seq!['.'] {
                        assert(cur@.len() == 1 && cur@[0] == '.');
                    }
                    if cur@.len() == 1 && cur@[0] == '.' {
                        assert(cur@ =~= seq!['.']);
                    }
                }
                assert(keep == kept(cur@, ps.len() - 1));
                let ps2 = pieces(cs@.take(i + 1), windows);
                assert(ps2 == ps.push(Seq::<char>::empty()));
                assert(ps2.drop_last() =~= ps);
                assert(ps.drop_last().push(ps.last()) =~= ps);
            }
            let ghost before = done@.map_values(|v: Vec<char>| v@);
            if keep {
                let mut piece: Vec<char> = Vec::new();
                std::mem::swap(&mut piece, &mut cur);
                done.push(piece);
                proof {
                    assert(done@.map_values(|v: Vec<char>| v@) =~= before.push(ps.last()));
                }
            } else {
                cur = Vec::new();
            }
            first = false;
        } else {
            cur.push(c);
            proof {
                let ps2 = pieces(cs@.take(i + 1), windows);
                assert(ps2 == ps.update(ps.len() - 1, ps.last().push(c)));
                assert(ps2.drop_last() =~= ps.drop_last());
            }
        }
        i = i + 1;
    }
    proof {
        assert(cs@.take(cs@.len() as int) =~= cs@);
        let ps = pieces(cs@, windows);
        assert(ps.drop_last().push(ps.last()) =~= ps);
    }
    let ghost before = done@.map_values(|v: Vec<char>| v@);
    let dot = cur.len() == 1 && cur[0] == '.';
    let keep = (cur.len() > 0 && !dot) || (first && dot);
    proof {
        assert(dot == (cur@ == seq!['.'])) by {
            if cur@ == seq!['.'] {
                assert(cur@.len() == 1 && cur@[0] == '.');
            }
            if cur@.len() == 1 && cur@[0] == '.' {
                assert(cur@ =~= seq!['.']);
            }
        }
        assert(keep == kept(cur@, pieces(cs@, windows).len() - 1));
    }
    if keep {
        done.push(cur);
        proof {
            assert(done@.map_values(|v: Vec<char>| v@) =~= before.push(pieces(cs@, windows).last()));
        }
    }
    let abs = cs.len() > 0 && is_sep_exec(cs[0], windows);
    (abs, done)
}

fn same_chars(a: &Vec<char>, b: &Vec<char>) -> (r: bool)
    ensures
        r == (a@ == b@),
{
    if a.len() != b.len() {
        return false;
    }
    let mut i: usize = 0;
    while i < a.len()
        invariant
            a@.len() == b@.len(),
            i <= a@.len(),
            forall|k: int| 0 <= k < i ==> a@[k] == b@[k],
        decreases a@.len() - i,
    {
        if a[i] != b[i] {
            return false;
        }
        i = i + 1;
    }
    assert(a@ =~= b@);
    true
}

/// Whether the first `n` names of `a` and `b` agree.
fn same_prefix(a: &Vec<Vec<char>>, b: &Vec<Vec<char>>, n: usize) -> (r: bool)
    requires
        n <= a@.len(),
        n <= b@.len(),
    ensures
        r == (a@.map_values(|v: Vec<char>| v@).take(n as int) == b@.map_values(|v: Vec<char>| v@).take(n as int)),
{
    let ghost av = a@.map_values(|v: Vec<char>| v@);
    let ghost bv = b@.map_values(|v: Vec<char>| v@);
    let mut i: usize = 0;
    while i < n
        invariant
            n <= a@.len(),
            n <= b@.len(),
            av == a@.map_values(|v: Vec<char>| v@),
            bv == b@.map_values(|v: Vec<char>| v@),
            i <= n,
            forall|k: int| 0 <= k < i ==> av[k] == bv[k],
        decreases n - i,
    {
        if !same_chars(&a[i], &b[i]) {
            assert(av.take(n as int)[i as int] != bv.take(n as int)[i as int]);
            return false;
        }
        i = i + 1;
    }
    assert(av.take(n as int) =~= bv.take(n as int));
    true
}

/// `std::path::MAIN_SEPARATOR`, the platform's separator (`\` on Windows, where `/`
/// separates too). It is the platform's, so nothing is stated of it.
#[verifier::external_body]
fn main_separator() -> (c: char) {
    std::path::MAIN_SEPARATOR
}

/// True when `root` is a folder Flox owns under the system temp folder, safe to empty: not
/// the temp folder itself, not one of its ancestors, and named `flox` or `temp`. Paths are
/// read as this platform reads them: on Windows `\` separates too.
pub fn is_flox_temp(root: &str, system_temp: &str) -> (r: bool)
    ensures
        r == is_flox_temp_spec(root@, system_temp@, false) || r == is_flox_temp_spec(root@, system_temp@, true),
{
    let windows = main_separator() == '\\';
    is_flox_temp_on(root, system_temp, windows)
}

/// [`is_flox_temp`] for paths read the Windows way (`windows`) or the Unix way.
pub fn is_flox_temp_on(root: &str, system_temp: &str, windows: bool) -> (r: bool)
    ensures
        r == is_flox_temp_spec(root@, system_temp@, windows),
{
    let (r_drive, r_rest) = split_drive(root, windows);
    let (t_drive, t_rest) = split_drive(system_temp, windows);
    let drives = match (r_drive, t_drive) {
        (None, None) => true,
        (Some(x), Some(y)) => fold_exec(x) == fold_exec(y),
        _ => false,
    };
    let (r_abs, r) = split_path(r_rest, windows);
    let (t_abs, t) = split_path(t_rest, windows);
    let ghost rv = r@.map_values(|v: Vec<char>| v@);
    let ghost tv = t@.map_values(|v: Vec<char>| v@);
    let n = r.len();
    let last_named = if n > 0 {
        let last = &r[n - 1];
        let dots = last.len() == 2 && last[0] == '.' && last[1] == '.';
        proof {
            assert(rv.last() == last@);
            if last@ == seq!['.', '.'] {
                assert(last@.len() == 2 && last@[0] == '.' && last@[1] == '.');
            }
            if last@.len() == 2 && last@[0] == '.' && last@[1] == '.' {
                assert(last@ =~= seq!['.', '.']);
            }
        }
        let name = crate::text::string_of(last);
        !dots && (crate::player::controller::eq_ignore_ascii_case(name.as_str(), "flox")
            || crate::player::controller::eq_ignore_ascii_case(name.as_str(), "temp"))
    } else {
        false
    };
    let same = drives && r_abs == t_abs && n == t.len() && same_prefix(&r, &t, n);
    proof {
        if r_abs == t_abs && n == t@.len() {
            assert(rv.take(n as int) =~= rv);
            assert(tv.take(n as int) =~= tv);
        }
    }
    let ancestor = drives && r_abs == t_abs && n <= t.len() && same_prefix(&r, &t, n);
    proof {
        if n <= t@.len() {
            assert(rv.take(n as int) =~= rv);
        }
    }
    last_named && !same && !ancestor
}

} // verus!
