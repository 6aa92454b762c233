use vstd::prelude::*;

verus! {

/// The tool's subcommands.
pub enum ArgCommand {
    /// Install git aliases, for the user (the default), the whole system, or
    /// this repository only.
    Install { user: bool, system: bool, local: bool },
    /// Interactively switch branches; `remote` picks among remote-tracking
    /// branches.
    Switch { remote: bool },
}

/// The parsed command line.
pub struct MainArgs {
    pub log: bool,
    pub working_dir: Option<String>,
    pub subcommand: ArgCommand,
}

/// Why a branch switch cannot go ahead.
#[derive(Clone, Debug)]
pub enum SwitchError {
    /// No branch is left to pick from.
    NoBranches,
    /// A remote branch name without a `/` after the remote.
    UnexpectedFormat,
    /// A local branch of that name exists and tracks another branch.
    DifferentUpstream { local: String, upstream: String, expected: String },
    /// A local branch of that name exists and tracks nothing.
    NotTracking { local: String, expected: String },
}

/// `b` names a remote's symbolic HEAD (`origin/HEAD`).
pub open spec fn is_head_ref(b: Seq<char>) -> bool {
    b.len() >= 5 && b.subrange(b.len() - 5, b.len() as int) == seq!['/', 'H', 'E', 'A', 'D']
}

/// The branches of `bs` that can be switched to, in order.
pub open spec fn switchable(bs: Seq<Seq<char>>) -> Seq<Seq<char>>
    decreases bs.len(),
{
    if bs.len() == 0 {
        Seq::empty()
    } else {
        let rest = switchable(bs.drop_last());
        if is_head_ref(bs.last()) {
            rest
        } else {
            rest.push(bs.last())
        }
    }
}

pub open spec fn views(v: Seq<String>) -> Seq<Seq<char>> {
    v.map_values(|s: String| s@)
}

/// The flag of `git config` for the scope that aliases are installed in.
pub fn config_scope_flag(system: bool, local: bool) -> (r: &'static str)
    ensures
        system ==> r@ == "--system"@,
        !system && local ==> r@ == "--local"@,
        !system && !local ==> r@ == "--global"@,
{
    if system {
        "--system"
    } else if local {
        "--local"
    } else {
        "--global"
    }
}

/// The references listed for a switch: local heads, or remote-tracking
/// branches.
pub fn branch_refspec(remote: bool) -> (r: &'static str)
    ensures
        remote ==> r@ == "refs/remotes"@,
        !remote ==> r@ == "refs/heads"@,
{
    if remote {
        "refs/remotes"
    } else {
        "refs/heads"
    }
}

pub fn is_head(b: &str) -> (r: bool)
    ensures
        r == is_head_ref(b@),
{
    let n = b.unicode_len();
    if n < 5 {
        return false;
    }
    let r = b.get_char(n - 5) == '/' && b.get_char(n - 4) == 'H' && b.get_char(n - 3) == 'E'
        && b.get_char(n - 2) == 'A' && b.get_char(n - 1) == 'D';
    proof {
        let tail = b@.subrange(n - 5, n as int);
        if r {
            assert(tail =~= seq!['/', 'H', 'E', 'A', 'D']);
        } else if tail == seq!['/', 'H', 'E', 'A', 'D'] {
            assert(tail[0] == b@[n - 5]);
            assert(tail[1] == b@[n - 4]);
            assert(tail[2] == b@[n - 3]);
            assert(tail[3] == b@[n - 2]);
            assert(tail[4] == b@[n - 1]);
        }
    }
    r
}

/// Drops the remotes' symbolic HEADs from a branch list; fails when nothing
/// is left.
pub fn switchable_branches(branches: Vec<String>) -> (r: Result<Vec<String>, SwitchError>)
    ensures
        switchable(views(branches@)).len() == 0 ==> r is Err && r->Err_0 is NoBranches,
        switchable(views(branches@)).len() > 0 ==> r is Ok && views(r->Ok_0@) == switchable(
            views(branches@),
        ),
{
    let mut kept: Vec<String> = Vec::new();
    let mut k: usize = 0;
    while k < branches.len()
        invariant
            k <= branches@.len(),
            views(kept@) == switchable(views(branches@.subrange(0, k as int))),
        decreases branches@.len() - k,
    {
        let b = &branches[k];
        let head = is_head(b.as_str());
        proof {
            let s = branches@.subrange(0, k + 1);
            assert(views(s).drop_last() =~= views(branches@.subrange(0, k as int)));
            assert(views(s).last() == b@);
        }
        if !head {
            kept.push(b.clone());
            proof {
                assert(views(kept@) =~= switchable(views(branches@.subrange(0, k as int))).push(
                    branches@[k as int]@,
                ));
            }
        }
        k += 1;
    }
    assert(branches@.subrange(0, branches@.len() as int) =~= branches@);
    if kept.len() == 0 {
        Err(SwitchError::NoBranches)
    } else {
        Ok(kept)
    }
}

/// Splits a remote branch name at its first `/` into the remote and the
/// branch name on it.
pub fn split_remote_branch(b: &str) -> (r: Result<(String, String), SwitchError>)
    ensures
        match r {
            Ok((remote, local)) => {
                &&& b@ == remote@ + seq!['/'] + local@
                &&& !remote@.contains('/')
            },
            Err(e) => e is UnexpectedFormat && !b@.contains('/'),
        },
{
    let n = b.unicode_len();
    let mut i: usize = 0;
    while i < n && b.get_char(i) != '/'
        invariant
            n == b@.len(),
            i <= n,
            forall|j: int| 0 <= j < i ==> b@[j] != '/',
        decreases n - i,
    {
        i += 1;
    }
    if i == n {
        proof {
            assert(!b@.contains('/')) by {
                if b@.contains('/') {
                    let j = choose|j: int| 0 <= j < b@.len() && b@[j] == '/';
                    assert(b@[j] != '/');
                }
            }
        }
        return Err(SwitchError::UnexpectedFormat);
    }
    let remote = String::from_str(b.substring_char(0, i));
    let local = String::from_str(b.substring_char(i + 1, n));
    proof {
        assert(b@ =~= remote@ + seq!['/'] + local@);
        assert(!remote@.contains('/')) by {
            if remote@.contains('/') {
                let j = choose|j: int| 0 <= j < remote@.len() && remote@[j] == '/';
                assert(b@[j] != '/');
            }
        }
    }
    Ok((remote, local))
}

/// An existing local branch `local` may be switched to for the remote branch
/// `selected` only when it tracks exactly that branch.
pub fn check_tracking(local: &str, selected: &str, upstream: Option<String>) -> (r: Result<(), SwitchError>)
    ensures
        match upstream {
            Some(u) => if u@ == selected@ {
                r is Ok
            } else {
                r matches Err(SwitchError::DifferentUpstream { local: l, upstream: v, expected: x })
                    && l@ == local@ && v@ == u@ && x@ == selected@
            },
            None => r matches Err(SwitchError::NotTracking { local: l, expected: x }) && l@ == local@
                && x@ == selected@,
        },
{
    let expected = String::from_str(selected);
    match upstream {
        Some(u) => {
            if u == expected {
                Ok(())
            } else {
                Err(SwitchError::DifferentUpstream { local: String::from_str(local), upstream: u, expected })
            }
        },
        None => Err(SwitchError::NotTracking { local: String::from_str(local), expected }),
    }
}

/// The `git config` key of alias `alias`: `alias.<alias>`.
pub fn alias_config_name(alias: &str) -> (r: String)
    ensures
        r@ == "alias."@ + alias@,
{
    let mut r = String::from_str("alias.");
    r.append(alias);
    r
}

/// The `git config` value that makes an alias run `command` of the tool at
/// `exe`: `!<exe> <command>`.
pub fn alias_config_command(exe: &str, command: &str) -> (r: String)
    ensures
        r@ == "!"@ + exe@ + " "@ + command@,
{
    let mut r = String::from_str("!");
    r.append(exe);
    r.append(" ");
    r.append(command);
    r
}

} // verus!
