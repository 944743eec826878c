//! The source-control pre-flight: which files have uncommitted changes, and
//! what the user chose to do about them. Running `git` is left to the caller.
use vstd::prelude::*;
use crate::text::{chars_of, lower_of, lowercase, slice_chars, str_equals, string_of, trim, trim_text};

verus! {

/// The lines still to come in `s`, given the line `cur` being read.
pub open spec fn lines_from(s: Seq<char>, cur: Seq<char>) -> Seq<Seq<char>>
    decreases s.len(),
{
    if s.len() == 0 {
        if cur.len() > 0 {
            seq![cur]
        } else {
            seq![]
        }
    } else if s[0] == '\n' {
        seq![strip_cr(cur)] + lines_from(s.drop_first(), seq![])
    } else {
        lines_from(s.drop_first(), cur.push(s[0]))
    }
}

/// A line that a line feed ended, without the carriage return of a `\r\n`
/// ending. A last line with no line feed keeps a trailing `\r`.
pub open spec fn strip_cr(l: Seq<char>) -> Seq<char> {
    if l.len() > 0 && l.last() == '\r' {
        l.drop_last()
    } else {
        l
    }
}

/// The path of a `git status --porcelain` line: what follows the two status
/// letters and the space.
pub open spec fn porcelain_path(l: Seq<char>) -> Seq<char> {
    if l.len() >= 3 {
        l.skip(3)
    } else {
        seq![]
    }
}

/// The paths that `git status --porcelain` lists in `output`, in order.
pub open spec fn porcelain_paths(output: Seq<char>) -> Seq<Seq<char>> {
    lines_from(output, seq![]).map_values(|l: Seq<char>| porcelain_path(l))
}

/// The path of the line `v[lo..hi]`.
fn path_of_line(v: &Vec<char>, lo: usize, hi: usize, ended: bool) -> (r: String)
    requires
        lo <= hi <= v.len(),
    ensures
        r@ == porcelain_path(
            if ended {
                strip_cr(v@.subrange(lo as int, hi as int))
            } else {
                v@.subrange(lo as int, hi as int)
            },
        ),
{
    let mut end = hi;
    if ended && hi > lo && v[hi - 1] == '\r' {
        end = hi - 1;
        assert(v@.subrange(lo as int, hi as int).drop_last() =~= v@.subrange(lo as int, end as int));
    }
    if end - lo >= 3 {
        let r = string_of(&slice_chars(v, lo + 3, end));
        assert(v@.subrange(lo as int, end as int).skip(3) =~= v@.subrange(lo + 3, end as int));
        r
    } else {
        String::new()
    }
}

/// The files that `git status --porcelain` reports in `output`.
pub fn uncommitted_files(output: &str) -> (r: Vec<String>)
    ensures
        r@.map_values(|s: String| s@) == porcelain_paths(output@),
{
    let v = chars_of(output);
    let mut out: Vec<String> = Vec::new();
    let mut start: usize = 0;
    let mut i: usize = 0;
    assert(v@.skip(0) =~= v@);
    assert(v@.subrange(0, 0) =~= Seq::<char>::empty());
    assert(out@.map_values(|s: String| s@) + porcelain_paths(output@) =~= porcelain_paths(output@));
    while i < v.len()
        invariant
            0 <= start <= i <= v.len(),
            v@ == output@,
            out@.map_values(|s: String| s@) + lines_from(v@.skip(i as int), v@.subrange(
                start as int,
                i as int,
            )).map_values(|l: Seq<char>| porcelain_path(l)) == porcelain_paths(output@),
        decreases v.len() - i,
    {
        let ghost rest = v@.skip(i as int);
        let ghost cur = v@.subrange(start as int, i as int);
        assert(rest.drop_first() =~= v@.skip(i + 1));
        let ghost before = out@.map_values(|s: String| s@);
        if v[i] == '\n' {
            let p = path_of_line(&v, start, i, true);
            out.push(p);
            assert(out@.map_values(|s: String| s@) =~= before + seq![porcelain_path(strip_cr(cur))]);
            assert(lines_from(rest, cur) == seq![strip_cr(cur)] + lines_from(v@.skip(i + 1), seq![]));
            assert((seq![strip_cr(cur)] + lines_from(v@.skip(i + 1), seq![])).map_values(
                |l: Seq<char>| porcelain_path(l),
            ) =~= seq![porcelain_path(strip_cr(cur))] + lines_from(v@.skip(i + 1), seq![]).map_values(
                |l: Seq<char>| porcelain_path(l),
            ));
            assert(v@.subrange(i + 1, i + 1) =~= Seq::<char>::empty());
            start = i + 1;
        } else {
            assert(cur.push(v@[i as int]) =~= v@.subrange(start as int, i + 1));
        }
        i = i + 1;
    }
    let ghost cur = v@.subrange(start as int, i as int);
    assert(v@.skip(i as int) =~= Seq::<char>::empty());
    if start < i {
        let ghost before = out@.map_values(|s: String| s@);
        let p = path_of_line(&v, start, i, false);
        out.push(p);
        assert(out@.map_values(|s: String| s@) =~= before + seq![porcelain_path(cur)]);
        assert(seq![cur].map_values(|l: Seq<char>| porcelain_path(l)) =~= seq![porcelain_path(cur)]);
    } else {
        assert(out@.map_values(|s: String| s@) =~= out@.map_values(|s: String| s@) + Seq::<Seq<char>>::empty());
    }
    out
}

/// What the user chose when asked about uncommitted changes.
#[derive(Clone, Copy, Debug, PartialEq, Eq, Structural)]
pub enum PreflightChoice {
    Commit,
    Proceed,
    Exit,
    Invalid,
}

/// The choice that an answer stands for, once trimmed and lowercased.
pub open spec fn choice_of(lowered: Seq<char>) -> PreflightChoice {
    if lowered == "y"@ {
        PreflightChoice::Commit
    } else if lowered == "x"@ {
        PreflightChoice::Exit
    } else if lowered == "n"@ {
        PreflightChoice::Proceed
    } else {
        PreflightChoice::Invalid
    }
}

/// The choice for an answer already trimmed and lowercased.
pub fn choice_for_lowered(lowered: &str) -> (r: PreflightChoice)
    ensures
        r == choice_of(lowered@),
{
    if str_equals(lowered, "y") {
        PreflightChoice::Commit
    } else if str_equals(lowered, "x") {
        PreflightChoice::Exit
    } else if str_equals(lowered, "n") {
        PreflightChoice::Proceed
    } else {
        PreflightChoice::Invalid
    }
}

/// The choice for the user's answer: `y` commits, `n` proceeds, `x` exits,
/// in either case and with surrounding white space; anything else is invalid.
pub fn preflight_choice(answer: &str) -> (r: PreflightChoice)
    ensures
        r == choice_of(lower_of(trim(answer@))),
{
    let t = trim_text(answer);
    let l = lowercase(t.as_str());
    choice_for_lowered(l.as_str())
}

} // verus!
