//! The user running the program and the shell it was started from.
use vstd::prelude::*;
use crate::error::{ErrorView, InfoError, text_view};
use crate::model::Caller;
use crate::number::{dec, push_decimal};
use crate::text::{chars_of, opt_view, split, split_chars, string_of, views};

verus! {

/// The last component among `/`-separated pieces, skipping empty pieces and
/// `.` pieces, in the way `Path::file_name` reads a path.
pub open spec fn last_component(ps: Seq<Seq<char>>) -> Option<Seq<char>>
    decreases ps.len(),
{
    if ps.len() == 0 {
        None
    } else if ps.last().len() == 0 || ps.last() == seq!['.'] {
        last_component(ps.drop_last())
    } else {
        Some(ps.last())
    }
}

/// The file name of a path: its last component, or empty text where there
/// is none or it is `..`.
pub open spec fn file_name(path: Seq<char>) -> Seq<char> {
    match last_component(split(path, '/')) {
        Some(c) => if c == seq!['.', '.'] {
            Seq::<char>::empty()
        } else {
            c
        },
        None => Seq::<char>::empty(),
    }
}

/// The binary name of a shell: the file name of its path without one
/// leading `-` (which a login shell carries in its name).
pub open spec fn shell_name(path: Seq<char>) -> Seq<char> {
    let w = file_name(path);
    if w.len() > 0 && w[0] == '-' {
        w.drop_first()
    } else {
        w
    }
}

pub open spec fn uid_message(uid: u32) -> Seq<char> {
    "Unable to get username from UID '"@ + dec(uid as nat) + "'"@
}

pub open spec fn readlink_message(ppid: u32) -> Seq<char> {
    "Couldn't readlink '/proc/"@ + dec(ppid as nat) + "/exe'"@
}

/// The binary name of a shell from its path.
pub fn shell_name_of(path: &str) -> (r: String)
    ensures
        r@ == shell_name(path@),
{
    let p = chars_of(path);
    let parts = split_chars(&p, '/');
    let ghost ps = views(parts@);
    let mut k: usize = parts.len();
    assert(ps.take(k as int) =~= ps);
    while k > 0 && (parts[k - 1].len() == 0 || (parts[k - 1].len() == 1 && parts[k - 1][0] == '.'))
        invariant
            k <= parts.len(),
            ps == views(parts@),
            last_component(ps) == last_component(ps.take(k as int)),
        decreases k,
    {
        assert(ps[k - 1] == parts@[k - 1]@);
        assert(ps.take(k as int).drop_last() =~= ps.take(k - 1));
        proof {
            if parts@[k - 1]@.len() == 1 {
                assert(parts@[k - 1]@ =~= seq!['.']);
            }
        }
        k -= 1;
    }
    let empty: Vec<char> = Vec::new();
    let w: &Vec<char> = if k == 0 {
        &empty
    } else {
        assert(ps[k - 1] == parts@[k - 1]@);
        assert(ps.take(k as int).last() == ps[k - 1]);
        proof {
            if parts@[k - 1]@.len() == 1 {
                assert(parts@[k - 1]@ != seq!['.']);
            }
        }
        let c = &parts[k - 1];
        if c.len() == 2 && c[0] == '.' && c[1] == '.' {
            assert(c@ =~= seq!['.', '.']);
            &empty
        } else {
            assert(c@ != seq!['.', '.']) by {
                if c@ == seq!['.', '.'] {
                    assert(c@.len() == 2 && c@[0] == '.' && c@[1] == '.');
                }
            }
            c
        }
    };
    assert(w@ == file_name(path@));
    let from: usize = if w.len() > 0 && w[0] == '-' {
        1
    } else {
        0
    };
    let mut r: Vec<char> = Vec::new();
    let mut i: usize = from;
    while i < w.len()
        invariant
            from <= i <= w.len(),
            r@ == w@.subrange(from as int, i as int),
        decreases w.len() - i,
    {
        r.push(w[i]);
        i += 1;
        assert(r@ =~= w@.subrange(from as int, i as int));
    }
    assert(w@.subrange(from as int, w.len() as int) =~= if from == 1 {
        w@.drop_first()
    } else {
        w@
    });
    string_of(&r)
}

pub(crate) fn message_with_number(head: &str, n: u32, tail: &str) -> (r: String)
    ensures
        r@ == head@ + dec(n as nat) + tail@,
{
    let mut digits: Vec<char> = Vec::new();
    push_decimal(&mut digits, n as u64);
    assert(digits@ =~= dec(n as nat));
    let mut s = String::from_str(head);
    s.append(string_of(&digits).as_str());
    s.append(tail);
    s
}

/// The user name: the `USER` variable where set, else the name that the
/// user database gives for the effective uid.
pub open spec fn user_spec(env_user: Option<Seq<char>>, uid: u32, db_user: Option<Seq<char>>) -> Result<
    Seq<char>,
    ErrorView,
> {
    match env_user {
        Some(u) => Ok(u),
        None => match db_user {
            Some(d) => Ok(d),
            None => Err(ErrorView::General(uid_message(uid))),
        },
    }
}

/// The shell's name: from the `0` variable where set, else from the link
/// to the parent process's executable.
pub open spec fn shell_spec(env_shell: Option<Seq<char>>, exe_link: Option<Seq<char>>, ppid: u32) -> Result<
    Seq<char>,
    ErrorView,
> {
    match env_shell {
        Some(s) => Ok(shell_name(s)),
        None => match exe_link {
            Some(l) => Ok(shell_name(l)),
            None => Err(ErrorView::General(readlink_message(ppid))),
        },
    }
}

/// The user running the program.
pub fn caller_user(env_user: Option<&str>, uid: u32, db_user: Option<&str>) -> (r: Result<String, InfoError>)
    ensures
        text_view(r) == user_spec(opt_view(env_user), uid, opt_view(db_user)),
{
    match env_user {
        Some(u) => Ok(String::from_str(u)),
        None => match db_user {
            Some(d) => Ok(String::from_str(d)),
            None => Err(InfoError::General(message_with_number("Unable to get username from UID '", uid, "'"))),
        },
    }
}

/// The shell the program was started from.
pub fn caller_shell(env_shell: Option<&str>, exe_link: Option<&str>, ppid: u32) -> (r: Result<String, InfoError>)
    ensures
        text_view(r) == shell_spec(opt_view(env_shell), opt_view(exe_link), ppid),
{
    match env_shell {
        Some(s) => Ok(shell_name_of(s)),
        None => match exe_link {
            Some(l) => Ok(shell_name_of(l)),
            None => Err(InfoError::General(message_with_number("Couldn't readlink '/proc/", ppid, "/exe'"))),
        },
    }
}

/// The caller's user and shell; the user is decided first.
pub fn caller_info(
    env_user: Option<&str>,
    uid: u32,
    db_user: Option<&str>,
    env_shell: Option<&str>,
    exe_link: Option<&str>,
    ppid: u32,
) -> (r: Result<Caller, InfoError>)
    ensures
        match user_spec(opt_view(env_user), uid, opt_view(db_user)) {
            Err(e) => r matches Err(x) && x@ == e,
            Ok(name) => match shell_spec(opt_view(env_shell), opt_view(exe_link), ppid) {
                Err(e) => r matches Err(x) && x@ == e,
                Ok(shell) => r matches Ok(c) && c.name@ == name && c.shell@ == shell,
            },
        },
{
    let name = caller_user(env_user, uid, db_user)?;
    let shell = caller_shell(env_shell, exe_link, ppid)?;
    Ok(Caller { name, shell })
}

} // verus!
