//! The invocation scanner: fenced blocks in model output become tool calls.
//!
//! A block is a fence of three backticks, a header line `name parameter...`,
//! a body, and a closing fence. Blocks that lack a header line break, a name
//! or a closing fence are skipped.
use vstd::prelude::*;
use crate::chat::dispatch::{dispatch, dispatch_ran, indicators_read, match_plan, names_view};
use crate::tools::{Tool, ToolRun};
use crate::text::{
    chars_of, join_from, join_words, slice_chars, string_of, trim, trim_bounds, words,
    words_in,
};

verus! {

/// One tool call as parsed: name, optional parameter, trimmed content.
pub struct ToolCall {
    pub name: Seq<char>,
    pub parameter: Option<Seq<char>>,
    pub content: Seq<char>,
}

/// A tool invocation found in model output.
#[derive(Debug, PartialEq)]
pub struct ToolInput {
    pub name: String,
    pub parameter: Option<String>,
    pub content: String,
}

/// The view of an optional text.
pub open spec fn opt_view(o: Option<String>) -> Option<Seq<char>> {
    match o {
        Some(s) => Some(s@),
        None => None,
    }
}

impl View for ToolInput {
    type V = ToolCall;

    open spec fn view(&self) -> ToolCall {
        ToolCall { name: self.name@, parameter: opt_view(self.parameter), content: self.content@ }
    }
}

/// The views of a sequence of invocations.
pub open spec fn calls_view(v: Seq<ToolInput>) -> Seq<ToolCall> {
    v.map_values(|t: ToolInput| t@)
}

/// A fence (three backticks) starts at index `i` of `s`.
pub open spec fn fence_at(s: Seq<char>, i: int) -> bool {
    0 <= i && i + 3 <= s.len() && s[i] == '`' && s[i + 1] == '`' && s[i + 2] == '`'
}

/// The index of the first fence in `s`.
pub open spec fn find_fence(s: Seq<char>) -> Option<int>
    decreases s.len(),
{
    if s.len() < 3 {
        None
    } else if fence_at(s, 0) {
        Some(0)
    } else {
        match find_fence(s.drop_first()) {
            Some(i) => Some(i + 1),
            None => None,
        }
    }
}

/// The index of the first line break in `s`.
pub open spec fn find_newline(s: Seq<char>) -> Option<int>
    decreases s.len(),
{
    if s.len() == 0 {
        None
    } else if s[0] == '\n' {
        Some(0)
    } else {
        match find_newline(s.drop_first()) {
            Some(i) => Some(i + 1),
            None => None,
        }
    }
}

/// The call made of the header words `ws` (at least one) and the block body.
pub open spec fn call_of(ws: Seq<Seq<char>>, body: Seq<char>) -> ToolCall {
    let p = join_words(ws.drop_first());
    ToolCall {
        name: ws[0],
        parameter: if p.len() == 0 {
            None
        } else {
            Some(p)
        },
        content: trim(body),
    }
}

/// The block that follows an opening fence, read from `rest`, the text after
/// that fence: the call and how far into `rest` scanning resumes.
pub open spec fn block_at(rest: Seq<char>) -> Option<(ToolCall, int)> {
    match find_newline(rest) {
        None => None,
        Some(j) => {
            let ws = words(rest.take(j));
            let body = rest.skip(j + 1);
            if ws.len() == 0 {
                None
            } else {
                match find_fence(body) {
                    None => None,
                    Some(k) => Some((call_of(ws, body.take(k)), j + 1 + k + 3)),
                }
            }
        },
    }
}

/// The tool calls in `s`, scanning left to right.
pub open spec fn parse_calls(s: Seq<char>) -> Seq<ToolCall>
    decreases s.len(),
    via parse_calls_decreases
{
    match find_fence(s) {
        None => seq![],
        Some(i) => {
            let rest = s.skip(i + 3);
            match block_at(rest) {
                None => parse_calls(rest),
                Some((c, n)) => seq![c] + parse_calls(rest.skip(n)),
            }
        },
    }
}

/// A fence found in `s` lies within `s`, and none starts before it.
pub proof fn lemma_find_fence(s: Seq<char>)
    ensures
        match find_fence(s) {
            Some(i) => fence_at(s, i) && forall|j: int| 0 <= j < i ==> !fence_at(s, j),
            None => forall|j: int| !fence_at(s, j),
        },
    decreases s.len(),
{
    if s.len() >= 3 && !fence_at(s, 0) {
        lemma_find_fence(s.drop_first());
        assert forall|j: int| 0 < j && #[trigger] fence_at(s, j) implies fence_at(
            s.drop_first(),
            j - 1,
        ) by {}
        assert forall|j: int| 0 <= j < s.len() - 1 && #[trigger] fence_at(s.drop_first(), j)
            implies fence_at(s, j + 1) by {}
    }
}

/// A line break found in `s` lies within `s`, and none comes before it.
pub proof fn lemma_find_newline(s: Seq<char>)
    ensures
        match find_newline(s) {
            Some(i) => 0 <= i < s.len() && s[i] == '\n' && forall|j: int|
                0 <= j < i ==> s[j] != '\n',
            None => forall|j: int| 0 <= j < s.len() ==> s[j] != '\n',
        },
    decreases s.len(),
{
    if s.len() > 0 && s[0] != '\n' {
        lemma_find_newline(s.drop_first());
        assert forall|j: int| 0 < j < s.len() implies s[j] == s.drop_first()[j - 1] by {}
    }
}

#[via_fn]
proof fn parse_calls_decreases(s: Seq<char>) {
    lemma_find_fence(s);
    if let Some(i) = find_fence(s) {
        lemma_block_at_bound(s.skip(i + 3));
    }
}

/// Scanning resumes inside `rest`, past its start.
proof fn lemma_block_at_bound(rest: Seq<char>)
    ensures
        match block_at(rest) {
            Some((c, n)) => 0 < n <= rest.len(),
            None => true,
        },
{
    lemma_find_newline(rest);
    if let Some(j) = find_newline(rest) {
        lemma_find_fence(rest.skip(j + 1));
    }
}

/// The first fence in `v` at or after `from`.
fn find_fence_from(v: &Vec<char>, from: usize) -> (r: Option<usize>)
    requires
        from <= v.len(),
    ensures
        match find_fence(v@.skip(from as int)) {
            Some(i) => r == Some((from + i) as usize),
            None => r is None,
        },
{
    let mut i: usize = from;
    while v.len() - i >= 3
        invariant
            from <= i <= v.len(),
            find_fence(v@.skip(from as int)) == match find_fence(v@.skip(i as int)) {
                Some(k) => Some(k + (i - from)),
                None => None,
            },
        decreases v.len() - i,
    {
        assert(v@.skip(i as int).drop_first() =~= v@.skip(i + 1));
        if v[i] == '`' && v[i + 1] == '`' && v[i + 2] == '`' {
            return Some(i);
        }
        i = i + 1;
    }
    None
}

/// The first line break in `v` at or after `from`.
fn find_newline_from(v: &Vec<char>, from: usize) -> (r: Option<usize>)
    requires
        from <= v.len(),
    ensures
        match find_newline(v@.skip(from as int)) {
            Some(i) => r == Some((from + i) as usize),
            None => r is None,
        },
{
    let mut i: usize = from;
    while i < v.len()
        invariant
            from <= i <= v.len(),
            find_newline(v@.skip(from as int)) == match find_newline(v@.skip(i as int)) {
                Some(k) => Some(k + (i - from)),
                None => None,
            },
        decreases v.len() - i,
    {
        assert(v@.skip(i as int).drop_first() =~= v@.skip(i + 1));
        if v[i] == '\n' {
            return Some(i);
        }
        i = i + 1;
    }
    None
}

/// Reads the block whose header starts at `start`, just after an opening fence.
fn read_block(v: &Vec<char>, start: usize) -> (r: Option<(ToolInput, usize)>)
    requires
        start <= v.len(),
    ensures
        match block_at(v@.skip(start as int)) {
            None => r is None,
            Some((c, n)) => match r {
                Some((t, m)) => t@ == c && m == start + n && start < m <= v.len(),
                None => false,
            },
        },
{
    let ghost rest = v@.skip(start as int);
    proof {
        lemma_find_newline(rest);
    }
    let nl = match find_newline_from(v, start) {
        None => return None,
        Some(nl) => nl,
    };
    assert(rest.take(nl - start) =~= v@.subrange(start as int, nl as int));
    assert(rest.skip(nl - start + 1) =~= v@.skip(nl + 1));
    let ws = words_in(v, start, nl);
    if ws.len() == 0 {
        return None;
    }
    proof {
        lemma_find_fence(v@.skip(nl + 1));
    }
    let e = match find_fence_from(v, nl + 1) {
        None => return None,
        Some(e) => e,
    };
    let ghost body = v@.skip(nl + 1);
    assert(body.take(e - nl - 1) =~= v@.subrange(nl + 1, e as int));
    let name = string_of(&ws[0]);
    let p = join_from(&ws, 1);
    let parameter = if p.len() == 0 {
        None
    } else {
        Some(string_of(&p))
    };
    let (a, b) = trim_bounds(v, nl + 1, e);
    let content = string_of(&slice_chars(v, a, b));
    let call = ToolInput { name, parameter, content };
    assert(ws@.map_values(|w: Vec<char>| w@).skip(1) =~= words(
        v@.subrange(start as int, nl as int),
    ).drop_first());
    Some((call, e + 3))
}

/// Scans `llm_output` for fenced tool blocks, in order of appearance.
pub fn check_for_tools(llm_output: &str) -> (r: Vec<ToolInput>)
    ensures
        calls_view(r@) == parse_calls(llm_output@),
{
    let v = chars_of(llm_output);
    let mut out: Vec<ToolInput> = Vec::new();
    let mut pos: usize = 0;
    assert(v@.skip(0) =~= v@);
    loop
        invariant
            pos <= v.len(),
            v@ == llm_output@,
            calls_view(out@) + parse_calls(v@.skip(pos as int)) == parse_calls(v@),
        decreases v.len() - pos,
    {
        let ghost s = v@.skip(pos as int);
        let ghost before = calls_view(out@);
        proof {
            lemma_find_fence(s);
        }
        match find_fence_from(&v, pos) {
            None => {
                assert(calls_view(out@) =~= parse_calls(v@));
                return out;
            },
            Some(f) => {
                let start = f + 3;
                assert(s.skip(f - pos + 3) =~= v@.skip(start as int));
                match read_block(&v, start) {
                    None => {
                        pos = start;
                    },
                    Some((call, next)) => {
                        assert(v@.skip(start as int).skip(next - start) =~= v@.skip(next as int));
                        out.push(call);
                        assert(calls_view(out@) =~= before + seq![call@]);
                        pos = next;
                    },
                }
            },
        }
    }
}

/// Runs the invocations against the tools: every match for its effects, and
/// the first surfaced output is returned.
pub fn execute_tools<T: Tool>(tool_candidates: Vec<ToolInput>, all_tools: Vec<T>) -> (r: Option<String>)
    ensures
        exists|inds: Seq<String>, after: Seq<T>, ran: Seq<ToolRun>|
            indicators_read(all_tools@, inds) && #[trigger] dispatch_ran(
                calls_view(tool_candidates@),
                all_tools@,
                after,
                match_plan(calls_view(tool_candidates@), names_view(inds)),
                ran,
                opt_view(r),
            ),
{
    let mut tools = all_tools;
    let d = dispatch(&tool_candidates, &mut tools);
    d.output
}

/// Scans model output for tool blocks and runs them against the tools.
pub fn run_tools<T: Tool>(llm_output: &str, all_tools: &mut Vec<T>) -> (r: Option<String>)
    ensures
        exists|inds: Seq<String>, ran: Seq<ToolRun>|
            indicators_read(old(all_tools)@, inds) && #[trigger] dispatch_ran(
                parse_calls(llm_output@),
                old(all_tools)@,
                final(all_tools)@,
                match_plan(parse_calls(llm_output@), names_view(inds)),
                ran,
                opt_view(r),
            ),
{
    let tool_candidates = check_for_tools(llm_output);
    let d = dispatch(&tool_candidates, all_tools);
    d.output
}

} // verus!
