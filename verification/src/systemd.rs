//! The systemd unit file that starts llama-server at boot (Linux).
use vstd::prelude::*;
use crate::text::{
    chars_of, join, join_exec, lines, lines_exec, occurs_at, occurs_at_exec, push_chars,
    push_str, slice_sub, starts_with, str_starts_with, string_from, string_of, trim, trim_vec,
    views,
};

verus! {

/// Placeholder for the user name in the unit template.
pub const USER_PLACEHOLDER: &'static str = "your-username";

/// Placeholder for the home directory in the unit template.
pub const HOME_PLACEHOLDER: &'static str = "/home/your-username";

/// `s` with every occurrence of `from` replaced by `to`, scanning from the left
/// (`str::replace` with a non-empty pattern).
pub open spec fn replace_all(s: Seq<char>, from: Seq<char>, to: Seq<char>) -> Seq<char>
    decreases s.len(),
{
    if from.len() == 0 || s.len() < from.len() {
        s
    } else if starts_with(s, from) {
        to + replace_all(s.skip(from.len() as int), from, to)
    } else {
        seq![s[0]] + replace_all(s.skip(1), from, to)
    }
}

/// `str::replace` for a non-empty pattern.
pub fn replace_all_exec(s: &[char], from: &[char], to: &[char]) -> (res: Vec<char>)
    requires
        from@.len() > 0,
    ensures
        res@ == replace_all(s@, from@, to@),
{
    let mut out: Vec<char> = Vec::new();
    let mut i: usize = 0;
    proof {
        assert(s@.skip(0) =~= s@);
    }
    while i < s.len()
        invariant
            i <= s@.len(),
            from@.len() > 0,
            replace_all(s@, from@, to@) == out@ + replace_all(s@.skip(i as int), from@, to@),
        decreases s@.len() - i,
    {
        let ghost rest = s@.skip(i as int);
        let ghost before = out@;
        if from.len() <= s.len() - i && occurs_at_exec(s, from, i) {
            let mut k: usize = 0;
            while k < to.len()
                invariant
                    k <= to@.len(),
                    out@ == before + to@.take(k as int),
                decreases to@.len() - k,
            {
                out.push(to[k]);
                k = k + 1;
                proof {
                    assert(to@.take(k as int) =~= to@.take(k - 1).push(to@[k - 1]));
                }
            }
            proof {
                assert(to@.take(to@.len() as int) =~= to@);
                assert(rest.take(from@.len() as int) =~= s@.subrange(i as int, i + from@.len()));
                assert(rest.skip(from@.len() as int) =~= s@.skip(i + from@.len()));
                assert(before + (to@ + replace_all(s@.skip(i + from@.len()), from@, to@)) =~= out@
                    + replace_all(s@.skip(i + from@.len()), from@, to@));
            }
            i = i + from.len();
        } else {
            out.push(s[i]);
            proof {
                if from@.len() <= rest.len() {
                    assert(rest.take(from@.len() as int) =~= s@.subrange(
                        i as int,
                        i + from@.len(),
                    ));
                }
                assert(rest[0] == s@[i as int]);
                assert(rest.skip(1) =~= s@.skip(i + 1));
                assert(before + (seq![s@[i as int]] + replace_all(s@.skip(i + 1), from@, to@))
                    =~= out@ + replace_all(s@.skip(i + 1), from@, to@));
            }
            i = i + 1;
        }
    }
    proof {
        assert(replace_all(s@.skip(i as int), from@, to@) =~= Seq::<char>::empty());
        assert(out@ + Seq::<char>::empty() =~= out@);
    }
    out
}

/// The lines with the `ExecStart=` line set to run `cmd`: every line that starts
/// with `ExecStart=` becomes `ExecStart=` and `cmd`, and the lines after it that
/// start with four spaces (its continuation) are emptied; `in_exec` says that
/// such continuation lines are being removed.
pub open spec fn set_exec_start(ls: Seq<Seq<char>>, cmd: Seq<char>, in_exec: bool) -> Seq<
    Seq<char>,
>
    decreases ls.len(),
{
    if ls.len() == 0 {
        Seq::empty()
    } else if starts_with(ls[0], "ExecStart="@) {
        seq!["ExecStart="@ + cmd] + set_exec_start(ls.drop_first(), cmd, true)
    } else if in_exec && starts_with(ls[0], "    "@) {
        seq![Seq::<char>::empty()] + set_exec_start(ls.drop_first(), cmd, true)
    } else {
        seq![ls[0]] + set_exec_start(ls.drop_first(), cmd, false)
    }
}

/// The lines without a blank line (only white space) right after a blank one;
/// `prev_blank` says whether the line before was blank.
pub open spec fn collapse_blank(ls: Seq<Seq<char>>, prev_blank: bool) -> Seq<Seq<char>>
    decreases ls.len(),
{
    if ls.len() == 0 {
        Seq::empty()
    } else {
        let blank = trim(ls[0]).len() == 0;
        let rest = collapse_blank(ls.drop_first(), blank);
        if !blank || !prev_blank {
            seq![ls[0]] + rest
        } else {
            rest
        }
    }
}

/// The user name placed in the unit: the given one, else the placeholder.
pub open spec fn unit_user(user: Option<Seq<char>>) -> Seq<char> {
    match user {
        Some(u) => u,
        None => USER_PLACEHOLDER@,
    }
}

/// The home directory placed in the unit: the given one, else `/home/` and the
/// user name.
pub open spec fn unit_home(home: Option<Seq<char>>, user: Seq<char>) -> Seq<char> {
    match home {
        Some(h) => h,
        None => "/home/"@ + user,
    }
}

/// The unit file: the user placeholder replaced, then the home placeholder, the
/// `ExecStart=` line set to `cmd`, runs of blank lines cut to one, lines joined
/// with `\n`.
pub open spec fn unit_file(
    template: Seq<char>,
    cmd: Seq<char>,
    user: Option<Seq<char>>,
    home: Option<Seq<char>>,
) -> Seq<char> {
    let u = unit_user(user);
    let h = unit_home(home, u);
    let t = replace_all(replace_all(template, USER_PLACEHOLDER@, u), HOME_PLACEHOLDER@, h);
    join(collapse_blank(set_exec_start(lines(t), cmd, false), false), "\n"@)
}

fn set_exec_start_exec(ls: &Vec<Vec<char>>, cmd: &str) -> (res: Vec<Vec<char>>)
    ensures
        views(res@) == set_exec_start(views(ls@), cmd@, false),
{
    let ghost lv = views(ls@);
    let mut out: Vec<Vec<char>> = Vec::new();
    let mut in_exec = false;
    let mut i: usize = 0;
    proof {
        assert(lv.skip(0) =~= lv);
        assert(views(out@) + set_exec_start(lv, cmd@, false) =~= set_exec_start(lv, cmd@, false));
    }
    while i < ls.len()
        invariant
            i <= ls@.len(),
            lv == views(ls@),
            set_exec_start(lv, cmd@, false) == views(out@) + set_exec_start(
                lv.skip(i as int),
                cmd@,
                in_exec,
            ),
        decreases ls@.len() - i,
    {
        let ghost rest = lv.skip(i as int);
        let ghost before = views(out@);
        proof {
            assert(rest[0] == ls@[i as int]@);
            assert(rest.drop_first() =~= lv.skip(i + 1));
        }
        let line = &ls[i];
        let new_line: Vec<char>;
        if str_starts_with(line.as_slice(), "ExecStart=") {
            let mut l = string_from("ExecStart=");
            push_str(&mut l, cmd);
            new_line = chars_of(l.as_str());
            in_exec = true;
        } else if in_exec && str_starts_with(line.as_slice(), "    ") {
            new_line = Vec::new();
        } else {
            new_line = slice_sub(line.as_slice(), 0, line.len());
            in_exec = false;
            proof {
                assert(new_line@ =~= line@);
            }
        }
        out.push(new_line);
        proof {
            assert(views(out@) =~= before.push(new_line@));
            assert(before + (seq![new_line@] + set_exec_start(lv.skip(i + 1), cmd@, in_exec))
                =~= views(out@) + set_exec_start(lv.skip(i + 1), cmd@, in_exec));
        }
        i = i + 1;
    }
    proof {
        assert(views(out@) + set_exec_start(lv.skip(i as int), cmd@, in_exec) =~= views(out@));
    }
    out
}

fn collapse_blank_exec(ls: &Vec<Vec<char>>) -> (res: Vec<Vec<char>>)
    ensures
        views(res@) == collapse_blank(views(ls@), false),
{
    let ghost lv = views(ls@);
    let mut out: Vec<Vec<char>> = Vec::new();
    let mut prev_blank = false;
    let mut i: usize = 0;
    proof {
        assert(lv.skip(0) =~= lv);
        assert(views(out@) + collapse_blank(lv, false) =~= collapse_blank(lv, false));
    }
    while i < ls.len()
        invariant
            i <= ls@.len(),
            lv == views(ls@),
            collapse_blank(lv, false) == views(out@) + collapse_blank(
                lv.skip(i as int),
                prev_blank,
            ),
        decreases ls@.len() - i,
    {
        let ghost rest = lv.skip(i as int);
        let ghost before = views(out@);
        proof {
            assert(rest[0] == ls@[i as int]@);
            assert(rest.drop_first() =~= lv.skip(i + 1));
        }
        let blank = trim_vec(ls[i].as_slice()).len() == 0;
        if !blank || !prev_blank {
            let copy = slice_sub(ls[i].as_slice(), 0, ls[i].len());
            out.push(copy);
            proof {
                assert(copy@ =~= ls@[i as int]@);
                assert(views(out@) =~= before.push(copy@));
                assert(before + (seq![copy@] + collapse_blank(lv.skip(i + 1), blank)) =~= views(
                    out@,
                ) + collapse_blank(lv.skip(i + 1), blank));
            }
        }
        prev_blank = blank;
        i = i + 1;
    }
    proof {
        assert(views(out@) + collapse_blank(lv.skip(i as int), prev_blank) =~= views(out@));
    }
    out
}

/// The systemd unit file from the template, with the launch command `cmd` and
/// the user's name and home directory where the caller knows them (see
/// `unit_file`).
pub fn build_systemd_service_file(
    template: &str,
    cmd: &str,
    user: Option<&str>,
    home: Option<&str>,
) -> (res: String)
    ensures
        res@ == unit_file(
            template@,
            cmd@,
            match user {
                Some(u) => Some(u@),
                None => None,
            },
            match home {
                Some(h) => Some(h@),
                None => None,
            },
        ),
{
    let u: Vec<char> = match user {
        Some(u) => chars_of(u),
        None => chars_of(USER_PLACEHOLDER),
    };
    let h: Vec<char> = match home {
        Some(h) => chars_of(h),
        None => {
            let mut s = string_from("/home/");
            push_chars(&mut s, u.as_slice());
            chars_of(s.as_str())
        },
    };
    let user_ph = chars_of(USER_PLACEHOLDER);
    let home_ph = chars_of(HOME_PLACEHOLDER);
    proof {
        reveal_strlit("your-username");
        reveal_strlit("/home/your-username");
    }
    let t = chars_of(template);
    let t1 = replace_all_exec(t.as_slice(), user_ph.as_slice(), u.as_slice());
    let t2 = replace_all_exec(t1.as_slice(), home_ph.as_slice(), h.as_slice());
    let ls = lines_exec(t2.as_slice());
    let set = set_exec_start_exec(&ls, cmd);
    let kept = collapse_blank_exec(&set);
    join_exec(&kept, "\n")
}

/// A line that holds only white space.
pub open spec fn blank_line(l: Seq<char>) -> bool {
    trim(l).len() == 0
}

proof fn lemma_collapse_blank(ls: Seq<Seq<char>>, prev_blank: bool)
    ensures
        ({
            let r = collapse_blank(ls, prev_blank);
            &&& forall|i: int| #![trigger r[i]] 0 <= i < r.len() - 1 ==> !(blank_line(r[i]) && blank_line(r[i + 1]))
            &&& (prev_blank && r.len() > 0) ==> !blank_line(r[0])
        }),
    decreases ls.len(),
{
    if ls.len() > 0 {
        let blank = trim(ls[0]).len() == 0;
        lemma_collapse_blank(ls.drop_first(), blank);
        let rest = collapse_blank(ls.drop_first(), blank);
        let r = collapse_blank(ls, prev_blank);
        if !blank || !prev_blank {
            assert(r == seq![ls[0]] + rest);
            assert forall|i: int| #![trigger r[i]] 0 <= i < r.len() - 1 implies !(blank_line(r[i])
                && blank_line(r[i + 1])) by {
                if i > 0 {
                    assert(r[i] == rest[i - 1]);
                    assert(r[i + 1] == rest[i]);
                } else {
                    assert(r[1] == rest[0]);
                }
            }
        }
    }
}

/// In the unit file no blank line follows another: runs of blank lines are
/// cut to one.
pub proof fn unit_file_has_no_blank_runs(
    template: Seq<char>,
    cmd: Seq<char>,
    user: Option<Seq<char>>,
    home: Option<Seq<char>>,
)
    ensures
        ({
            let u = unit_user(user);
            let h = unit_home(home, u);
            let t = replace_all(replace_all(template, USER_PLACEHOLDER@, u), HOME_PLACEHOLDER@, h);
            let r = collapse_blank(set_exec_start(lines(t), cmd, false), false);
            &&& unit_file(template, cmd, user, home) == join(r, "\n"@)
            &&& forall|i: int| #![trigger r[i]] 0 <= i < r.len() - 1 ==> !(blank_line(r[i]) && blank_line(r[i + 1]))
        }),
{
    let u = unit_user(user);
    let h = unit_home(home, u);
    let t = replace_all(replace_all(template, USER_PLACEHOLDER@, u), HOME_PLACEHOLDER@, h);
    lemma_collapse_blank(set_exec_start(lines(t), cmd, false), false);
}

proof fn lemma_exec_start(ls: Seq<Seq<char>>, cmd: Seq<char>, in_exec: bool)
    ensures
        forall|i: int|
            0 <= i < set_exec_start(ls, cmd, in_exec).len() && starts_with(
                #[trigger] set_exec_start(ls, cmd, in_exec)[i],
                "ExecStart="@,
            ) ==> set_exec_start(ls, cmd, in_exec)[i] == "ExecStart="@ + cmd,
        set_exec_start(ls, cmd, in_exec).len() == ls.len(),
    decreases ls.len(),
{
    reveal_strlit("ExecStart=");
    if ls.len() > 0 {
        let head = if starts_with(ls[0], "ExecStart="@) {
            "ExecStart="@ + cmd
        } else if in_exec && starts_with(ls[0], "    "@) {
            Seq::<char>::empty()
        } else {
            ls[0]
        };
        let next = starts_with(ls[0], "ExecStart="@) || (in_exec && starts_with(ls[0], "    "@));
        lemma_exec_start(ls.drop_first(), cmd, next);
        let rest = set_exec_start(ls.drop_first(), cmd, next);
        let r = set_exec_start(ls, cmd, in_exec);
        assert(r == seq![head] + rest);
        assert forall|i: int|
            0 <= i < r.len() && starts_with(#[trigger] r[i], "ExecStart="@) implies r[i]
            == "ExecStart="@ + cmd by {
            if i > 0 {
                assert(r[i] == rest[i - 1]);
            }
        }
    }
}

/// Every line of the unit that starts with `ExecStart=` runs the given command:
/// the template's own command is replaced wherever it stood.
pub proof fn unit_file_runs_command(
    template: Seq<char>,
    cmd: Seq<char>,
    user: Option<Seq<char>>,
    home: Option<Seq<char>>,
)
    ensures
        ({
            let u = unit_user(user);
            let h = unit_home(home, u);
            let t = replace_all(replace_all(template, USER_PLACEHOLDER@, u), HOME_PLACEHOLDER@, h);
            let e = set_exec_start(lines(t), cmd, false);
            forall|i: int|
                0 <= i < e.len() && starts_with(#[trigger] e[i], "ExecStart="@) ==> e[i]
                    == "ExecStart="@ + cmd
        }),
{
    let u = unit_user(user);
    let h = unit_home(home, u);
    let t = replace_all(replace_all(template, USER_PLACEHOLDER@, u), HOME_PLACEHOLDER@, h);
    lemma_exec_start(lines(t), cmd, false);
}

} // verus!
