//! Laws of the invocation scanner, stated over `parse_calls`, the model that
//! `check_for_tools` is proved against.
use vstd::prelude::*;
use crate::chat::tool_checker::{
    block_at, call_of, fence_at, find_fence, find_newline, lemma_find_fence, lemma_find_newline,
    parse_calls, ToolCall,
};
use crate::text::{is_space, join_words, trim, trim_end, trim_start, words, words_from};

verus! {

/// The fence marker: three backticks.
pub open spec fn fence() -> Seq<char> {
    seq!['`', '`', '`']
}

/// A well-formed block: a name, the parameter's words, and the content.
pub struct Block {
    pub name: Seq<char>,
    pub params: Seq<Seq<char>>,
    pub content: Seq<char>,
}

/// `w` is a non-empty run of non-space characters.
pub open spec fn is_word(w: Seq<char>) -> bool {
    w.len() > 0 && forall|i: int| 0 <= i < w.len() ==> !is_space(#[trigger] w[i])
}

/// `s` holds no fence.
pub open spec fn fence_free(s: Seq<char>) -> bool {
    forall|i: int| !fence_at(s, i)
}

/// The name and parameter words are words, and the content holds no fence.
pub open spec fn block_ok(b: Block) -> bool {
    &&& is_word(b.name)
    &&& forall|i: int| 0 <= i < b.params.len() ==> is_word(#[trigger] b.params[i])
    &&& fence_free(b.content)
}

/// The header line of a block: its name and parameter words, single-spaced.
pub open spec fn header_of(b: Block) -> Seq<char> {
    join_words(seq![b.name] + b.params)
}

/// `<fence>name param\ncontent\n<fence>`.
pub open spec fn block_text(b: Block) -> Seq<char> {
    fence() + header_of(b) + seq!['\n'] + b.content + seq!['\n'] + fence()
}

/// The call that a well-formed block stands for.
pub open spec fn block_call(b: Block) -> ToolCall {
    ToolCall {
        name: b.name,
        parameter: if b.params.len() == 0 {
            None
        } else {
            Some(join_words(b.params))
        },
        content: trim(b.content),
    }
}

/// Text between blocks: no fence, and no backtick at its end that a following
/// fence could be read together with.
pub open spec fn gap_ok(g: Seq<char>) -> bool {
    fence_free(g) && (g.len() > 0 ==> g.last() != '`')
}

/// Gap, block, gap, block, ..., gap.
pub open spec fn doc_text(gaps: Seq<Seq<char>>, blocks: Seq<Block>) -> Seq<char>
    decreases blocks.len(),
{
    if blocks.len() == 0 || gaps.len() == 0 {
        if gaps.len() > 0 {
            gaps[0]
        } else {
            seq![]
        }
    } else {
        gaps[0] + block_text(blocks[0]) + doc_text(gaps.drop_first(), blocks.drop_first())
    }
}

proof fn lemma_first_fence(s: Seq<char>, n: int)
    requires
        fence_at(s, n),
        forall|j: int| 0 <= j < n ==> !fence_at(s, j),
    ensures
        find_fence(s) == Some(n),
{
    lemma_find_fence(s);
}

proof fn lemma_first_newline(s: Seq<char>, n: int)
    requires
        0 <= n < s.len(),
        s[n] == '\n',
        forall|j: int| 0 <= j < n ==> s[j] != '\n',
    ensures
        find_newline(s) == Some(n),
{
    lemma_find_newline(s);
}

/// Reading the words of `x`, a space, then `y`.
proof fn lemma_words_space(x: Seq<char>, cur: Seq<char>, y: Seq<char>)
    ensures
        words_from(x + seq![' '] + y, cur) == words_from(x, cur) + words(y),
    decreases x.len(),
{
    let s = x + seq![' '] + y;
    if x.len() == 0 {
        assert(s.drop_first() =~= y);
        assert(s[0] == ' ');
        assert(words_from(x, cur) + words(y) =~= (if cur.len() > 0 {
            seq![cur]
        } else {
            seq![]
        }) + words(y));
    } else {
        assert(s.drop_first() =~= x.drop_first() + seq![' '] + y);
        assert(s[0] == x[0]);
        if is_space(x[0]) {
            lemma_words_space(x.drop_first(), seq![], y);
        } else {
            lemma_words_space(x.drop_first(), cur.push(x[0]), y);
        }
    }
}

/// Reading a word that continues `cur`.
proof fn lemma_words_word(t: Seq<char>, cur: Seq<char>)
    requires
        forall|i: int| 0 <= i < t.len() ==> !is_space(#[trigger] t[i]),
        cur.len() + t.len() > 0,
    ensures
        words_from(t, cur) == seq![cur + t],
    decreases t.len(),
{
    if t.len() == 0 {
        assert(cur + t =~= cur);
    } else {
        assert forall|i: int| 0 <= i < t.len() - 1 implies !is_space(
            #[trigger] t.drop_first()[i],
        ) by {
            assert(t.drop_first()[i] == t[i + 1]);
        }
        lemma_words_word(t.drop_first(), cur.push(t[0]));
        assert(cur.push(t[0]) + t.drop_first() =~= cur + t);
    }
}

/// Words joined by single spaces read back as the same words.
proof fn lemma_words_join(ts: Seq<Seq<char>>)
    requires
        forall|i: int| 0 <= i < ts.len() ==> is_word(#[trigger] ts[i]),
    ensures
        words(join_words(ts)) == ts,
    decreases ts.len(),
{
    if ts.len() == 0 {
    } else if ts.len() == 1 {
        assert(is_word(ts[0]));
        lemma_words_word(ts[0], seq![]);
        assert(Seq::<char>::empty() + ts[0] =~= ts[0]);
        assert(seq![ts[0]] =~= ts);
    } else {
        let init = ts.drop_last();
        assert forall|i: int| 0 <= i < init.len() implies is_word(#[trigger] init[i]) by {
            assert(init[i] == ts[i]);
        }
        lemma_words_join(init);
        lemma_words_space(join_words(init), seq![], ts.last());
        assert(is_word(ts[ts.len() - 1]));
        lemma_words_word(ts.last(), seq![]);
        assert(Seq::<char>::empty() + ts.last() =~= ts.last());
        assert(init + seq![ts.last()] =~= ts);
    }
}

/// Words joined by single spaces hold no line break.
proof fn lemma_join_no_newline(ts: Seq<Seq<char>>)
    requires
        forall|i: int| 0 <= i < ts.len() ==> is_word(#[trigger] ts[i]),
    ensures
        forall|j: int| 0 <= j < join_words(ts).len() ==> #[trigger] join_words(ts)[j] != '\n',
        ts.len() > 0 ==> join_words(ts).len() > 0,
    decreases ts.len(),
{
    if ts.len() == 1 {
        assert(is_word(ts[0]));
        assert forall|j: int| 0 <= j < ts[0].len() implies #[trigger] ts[0][j] != '\n' by {
            assert(!is_space(ts[0][j]));
        }
    } else if ts.len() > 1 {
        let init = ts.drop_last();
        assert forall|i: int| 0 <= i < init.len() implies is_word(#[trigger] init[i]) by {
            assert(init[i] == ts[i]);
        }
        lemma_join_no_newline(init);
        let a = join_words(init);
        let l = ts.last();
        assert(is_word(ts[ts.len() - 1]));
        assert forall|j: int| 0 <= j < join_words(ts).len() implies #[trigger] join_words(
            ts,
        )[j] != '\n' by {
            if j < a.len() {
                assert(join_words(ts)[j] == a[j]);
            } else if j == a.len() {
                assert(join_words(ts)[j] == ' ');
            } else {
                assert(join_words(ts)[j] == l[j - a.len() - 1]);
                assert(!is_space(l[j - a.len() - 1]));
            }
        }
    }
}

/// Trailing white space does not change what is trimmed.
proof fn lemma_trim_push_space(s: Seq<char>, c: char)
    requires
        is_space(c),
    ensures
        trim(s.push(c)) == trim(s),
    decreases s.len(),
{
    if s.len() > 0 && is_space(s[0]) {
        assert(s.push(c).drop_first() =~= s.drop_first().push(c));
        lemma_trim_push_space(s.drop_first(), c);
    } else if s.len() == 0 {
        assert(s.push(c).drop_first() =~= s);
        assert(trim_start(s) =~= s);
    } else {
        lemma_trim_end_push_space(s, c);
    }
}

proof fn lemma_trim_end_push_space(s: Seq<char>, c: char)
    requires
        is_space(c),
    ensures
        trim_end(s.push(c)) == trim_end(s),
{
    assert(s.push(c).drop_last() =~= s);
}

/// The scan of the text after an opening fence, when a header line without
/// a line break, holding at least one word, is followed by a fence-free body.
proof fn lemma_block_at_header(h: Seq<char>, c: Seq<char>, tail: Seq<char>)
    requires
        words(h).len() > 0,
        forall|j: int| 0 <= j < h.len() ==> h[j] != '\n',
        fence_free(c),
    ensures
        block_at(h + seq!['\n'] + c + seq!['\n'] + fence() + tail) == Some(
            (call_of(words(h), c), h.len() + c.len() + 5 as int),
        ),
{
    let rest = h + seq!['\n'] + c + seq!['\n'] + fence() + tail;
    assert(rest[h.len() as int] == '\n');
    assert forall|j: int| 0 <= j < h.len() implies rest[j] != '\n' by {
        assert(rest[j] == h[j]);
    }
    lemma_first_newline(rest, h.len() as int);
    assert(rest.take(h.len() as int) =~= h);
    let body = rest.skip(h.len() + 1 as int);
    assert(body =~= c + seq!['\n'] + fence() + tail);
    assert(fence_at(body, c.len() + 1 as int));
    assert forall|j: int| 0 <= j < c.len() + 1 implies !fence_at(body, j) by {
        if j + 3 <= c.len() {
            if fence_at(body, j) {
                assert(fence_at(c, j));
            }
        } else {
            assert(body[c.len() as int] == '\n');
        }
    }
    lemma_first_fence(body, c.len() + 1 as int);
    assert(body.take(c.len() + 1 as int) =~= c.push('\n'));
    lemma_trim_push_space(c, '\n');
}

/// The scan of the text after a well-formed block's opening fence.
proof fn lemma_block_at(b: Block, tail: Seq<char>)
    requires
        block_ok(b),
    ensures
        block_at(block_text(b).skip(3) + tail) == Some(
            (block_call(b), block_text(b).len() - 3),
        ),
{
    let h = header_of(b);
    let ts = seq![b.name] + b.params;
    assert forall|i: int| 0 <= i < ts.len() implies is_word(#[trigger] ts[i]) by {
        if i > 0 {
            assert(ts[i] == b.params[i - 1]);
        }
    }
    lemma_join_no_newline(ts);
    lemma_words_join(ts);
    let c = b.content;
    assert(block_text(b).skip(3) + tail =~= h + seq!['\n'] + c + seq!['\n'] + fence() + tail);
    lemma_block_at_header(h, c, tail);
    assert(ts.drop_first() =~= b.params);
    lemma_join_no_newline(b.params);
}

/// A name followed by white space other than a line break reads as that one word.
proof fn lemma_words_name_pad(name: Seq<char>, pad: Seq<char>)
    requires
        is_word(name),
        forall|j: int| 0 <= j < pad.len() ==> is_space(#[trigger] pad[j]),
    ensures
        words(name + pad) == seq![name],
{
    lemma_words_prefix(name, pad, seq![]);
    assert(Seq::<char>::empty() + name =~= name);
    lemma_words_spaces(pad, name);
}

/// Reading non-space characters `t` extends the word being read.
proof fn lemma_words_prefix(t: Seq<char>, rest: Seq<char>, cur: Seq<char>)
    requires
        forall|i: int| 0 <= i < t.len() ==> !is_space(#[trigger] t[i]),
    ensures
        words_from(t + rest, cur) == words_from(rest, cur + t),
    decreases t.len(),
{
    if t.len() == 0 {
        assert(t + rest =~= rest);
        assert(cur + t =~= cur);
    } else {
        assert((t + rest).drop_first() =~= t.drop_first() + rest);
        assert((t + rest)[0] == t[0]);
        assert(!is_space(t[0]));
        assert forall|i: int| 0 <= i < t.len() - 1 implies !is_space(
            #[trigger] t.drop_first()[i],
        ) by {
            assert(t.drop_first()[i] == t[i + 1]);
        }
        lemma_words_prefix(t.drop_first(), rest, cur.push(t[0]));
        assert(cur.push(t[0]) + t.drop_first() =~= cur + t);
    }
}

/// Only white space remains: the word being read is the last one.
proof fn lemma_words_spaces(pad: Seq<char>, cur: Seq<char>)
    requires
        forall|j: int| 0 <= j < pad.len() ==> is_space(#[trigger] pad[j]),
    ensures
        words_from(pad, cur) == (if cur.len() > 0 {
            seq![cur]
        } else {
            Seq::<Seq<char>>::empty()
        }),
    decreases pad.len(),
{
    if pad.len() > 0 {
        assert(is_space(pad[0]));
        assert forall|j: int| 0 <= j < pad.len() - 1 implies is_space(
            #[trigger] pad.drop_first()[j],
        ) by {
            assert(pad.drop_first()[j] == pad[j + 1]);
        }
        lemma_words_spaces(pad.drop_first(), seq![]);
        if cur.len() > 0 {
            assert(seq![cur] + Seq::<Seq<char>>::empty() =~= seq![cur]);
        } else {
            assert(Seq::<Seq<char>>::empty() + Seq::<Seq<char>>::empty() =~= Seq::<Seq<char>>::empty());
        }
    }
}

/// A well-formed block at the front of the text is read as its call.
proof fn lemma_parse_block_front(b: Block, tail: Seq<char>)
    requires
        block_ok(b),
    ensures
        parse_calls(block_text(b) + tail) == seq![block_call(b)] + parse_calls(tail),
{
    let s = block_text(b) + tail;
    assert(fence_at(s, 0));
    lemma_first_fence(s, 0);
    assert(s.skip(3) =~= block_text(b).skip(3) + tail);
    lemma_block_at(b, tail);
    assert(s.skip(3).skip(block_text(b).len() - 3) =~= tail);
}

/// Text with no fence at its front is skipped over up to the first fence.
proof fn lemma_parse_gap(g: Seq<char>, tail: Seq<char>)
    requires
        gap_ok(g),
        tail.len() > 0 ==> tail[0] == '`',
    ensures
        parse_calls(g + tail) == parse_calls(tail),
{
    let s = g + tail;
    lemma_find_fence(s);
    lemma_find_fence(tail);
    assert forall|j: int| 0 <= j < g.len() implies !fence_at(s, j) by {
        if fence_at(s, j) {
            if j + 3 <= g.len() {
                assert(fence_at(g, j));
            } else {
                assert(s[g.len() - 1] == g.last());
            }
        }
    }
    assert forall|j: int| #[trigger] fence_at(tail, j) implies fence_at(s, j + g.len()) by {
        assert(s[j + g.len()] == tail[j]);
        assert(s[j + g.len() + 1] == tail[j + 1]);
        assert(s[j + g.len() + 2] == tail[j + 2]);
    }
    assert forall|j: int| j >= g.len() && #[trigger] fence_at(s, j) implies fence_at(
        tail,
        j - g.len(),
    ) by {
        assert(s[j] == tail[j - g.len()]);
        assert(s[j + 1] == tail[j - g.len() + 1]);
        assert(s[j + 2] == tail[j - g.len() + 2]);
    }
    match find_fence(tail) {
        Some(i) => {
            lemma_first_fence(s, i + g.len());
            assert(s.skip(i + g.len() + 3) =~= tail.skip(i + 3));
        },
        None => {
            assert(find_fence(s) is None);
        },
    }
}

/// Text without fence markers holds no tool call.
pub proof fn lemma_no_fence_no_calls(s: Seq<char>)
    requires
        fence_free(s),
    ensures
        parse_calls(s) == Seq::<ToolCall>::empty(),
{
    lemma_find_fence(s);
}

/// A single well-formed block `<fence>name param\ncontent\n<fence>` yields
/// exactly one call: that name, that parameter, and the content trimmed.
pub proof fn lemma_single_block(b: Block)
    requires
        block_ok(b),
    ensures
        parse_calls(block_text(b)) == seq![block_call(b)],
{
    lemma_parse_block_front(b, seq![]);
    assert(block_text(b) + Seq::<char>::empty() =~= block_text(b));
    lemma_no_fence_no_calls(Seq::<char>::empty());
    assert(seq![block_call(b)] + Seq::<ToolCall>::empty() =~= seq![block_call(b)]);
}

/// A block whose header line holds words and no line break, with a
/// fence-free body, is read as its call, and scanning goes on after it.
proof fn lemma_parse_header_front(h: Seq<char>, c: Seq<char>, tail: Seq<char>)
    requires
        words(h).len() > 0,
        forall|j: int| 0 <= j < h.len() ==> h[j] != '\n',
        fence_free(c),
    ensures
        parse_calls(fence() + h + seq!['\n'] + c + seq!['\n'] + fence() + tail) == seq![
            call_of(words(h), c),
        ] + parse_calls(tail),
{
    lemma_block_at_header(h, c, tail);
    let s = fence() + h + seq!['\n'] + c + seq!['\n'] + fence() + tail;
    assert(fence_at(s, 0));
    lemma_first_fence(s, 0);
    assert(s.skip(3) =~= h + seq!['\n'] + c + seq!['\n'] + fence() + tail);
    assert(s.skip(3).skip(h.len() + c.len() + 5 as int) =~= tail);
}

/// A name followed by white space other than a line break holds no line break
/// and reads as that one word.
proof fn lemma_name_pad_header(name: Seq<char>, pad: Seq<char>)
    requires
        is_word(name),
        forall|j: int| 0 <= j < pad.len() ==> is_space(#[trigger] pad[j]) && pad[j] != '\n',
    ensures
        words(name + pad) == seq![name],
        forall|j: int| 0 <= j < (name + pad).len() ==> (name + pad)[j] != '\n',
{
    let h = name + pad;
    lemma_words_name_pad(name, pad);
    assert forall|j: int| 0 <= j < h.len() implies h[j] != '\n' by {
        if j < name.len() {
            assert(h[j] == name[j]);
            assert(!is_space(name[j]));
        } else {
            assert(h[j] == pad[j - name.len()]);
        }
    }
}

/// A header line that holds only a name, perhaps followed by spaces or tabs,
/// gives no parameter, not an empty one.
pub proof fn lemma_name_only_header(name: Seq<char>, pad: Seq<char>, content: Seq<char>)
    requires
        is_word(name),
        forall|j: int| 0 <= j < pad.len() ==> is_space(#[trigger] pad[j]) && pad[j] != '\n',
        fence_free(content),
    ensures
        parse_calls(fence() + name + pad + seq!['\n'] + content + seq!['\n'] + fence())
            == seq![
            (ToolCall { name, parameter: None, content: trim(content) }),
        ],
{
    lemma_name_only_header_in_text(seq![], name, pad, content, seq![]);
    assert(Seq::<char>::empty() + fence() + name + pad + seq!['\n'] + content + seq!['\n']
        + fence() + Seq::<char>::empty() =~= fence() + name + pad + seq!['\n'] + content
        + seq!['\n'] + fence());
}

/// The same holds with text around the block: text before it that holds no
/// fence and does not end in a backtick, and text after it without a fence.
pub proof fn lemma_name_only_header_in_text(
    before: Seq<char>,
    name: Seq<char>,
    pad: Seq<char>,
    content: Seq<char>,
    after: Seq<char>,
)
    requires
        gap_ok(before),
        is_word(name),
        forall|j: int| 0 <= j < pad.len() ==> is_space(#[trigger] pad[j]) && pad[j] != '\n',
        fence_free(content),
        fence_free(after),
    ensures
        parse_calls(before + fence() + name + pad + seq!['\n'] + content + seq!['\n'] + fence()
            + after) == seq![(ToolCall { name, parameter: None, content: trim(content) })],
{
    let h = name + pad;
    lemma_name_pad_header(name, pad);
    let block = fence() + h + seq!['\n'] + content + seq!['\n'] + fence() + after;
    assert(before + fence() + name + pad + seq!['\n'] + content + seq!['\n'] + fence() + after
        =~= before + block);
    assert(block[0] == '`');
    lemma_parse_gap(before, block);
    lemma_parse_header_front(h, content, after);
    lemma_no_fence_no_calls(after);
    assert(seq![name].drop_first() =~= Seq::<Seq<char>>::empty());
    assert(seq![call_of(seq![name], content)] + Seq::<ToolCall>::empty() =~= seq![
        call_of(seq![name], content),
    ]);
}

/// N well-formed blocks, separated by text without fences, yield exactly N
/// calls, in left-to-right order.
pub proof fn lemma_blocks_in_order(gaps: Seq<Seq<char>>, blocks: Seq<Block>)
    requires
        gaps.len() == blocks.len() + 1,
        forall|i: int| 0 <= i < gaps.len() ==> gap_ok(#[trigger] gaps[i]),
        forall|i: int| 0 <= i < blocks.len() ==> block_ok(#[trigger] blocks[i]),
    ensures
        parse_calls(doc_text(gaps, blocks)) == blocks.map_values(|b: Block| block_call(b)),
    decreases blocks.len(),
{
    if blocks.len() == 0 {
        assert(gap_ok(gaps[0]));
        lemma_no_fence_no_calls(gaps[0]);
        assert(blocks.map_values(|b: Block| block_call(b)) =~= Seq::<ToolCall>::empty());
    } else {
        let g2 = gaps.drop_first();
        let b2 = blocks.drop_first();
        assert forall|i: int| 0 <= i < g2.len() implies gap_ok(#[trigger] g2[i]) by {
            assert(g2[i] == gaps[i + 1]);
        }
        assert forall|i: int| 0 <= i < b2.len() implies block_ok(#[trigger] b2[i]) by {
            assert(b2[i] == blocks[i + 1]);
        }
        lemma_blocks_in_order(g2, b2);
        let b = blocks[0];
        assert(block_ok(b));
        assert(gap_ok(gaps[0]));
        let rest = doc_text(g2, b2);
        let tail = block_text(b) + rest;
        assert(tail[0] == '`');
        lemma_parse_gap(gaps[0], tail);
        assert(gaps[0] + block_text(b) + rest =~= gaps[0] + tail);
        lemma_parse_block_front(b, rest);
        assert(blocks.map_values(|b: Block| block_call(b)) =~= seq![block_call(b)]
            + b2.map_values(|b: Block| block_call(b)));
    }
}

} // verus!
