//! Code blocks of Markdown texts.

use vstd::prelude::*;
use vstd::string::*;

use crate::text::{
    has_prefix, is_line, join, joined, lemma_joined_lines_are_read_back,
    lemma_lines_hold_no_feed, lemma_trimmed_facts, lemma_trimmed_twice, line_list, lines,
    starts_with, trim, trimmed, views,
};

verus! {

/// The lines of `lines` that stand in code blocks, trimmed and without the empty ones. A line
/// that starts with three backticks opens a block or closes the open one; `inside` says whether
/// a block is open at the start.
pub open spec fn code_lines(lines: Seq<Seq<char>>, inside: bool) -> Seq<Seq<char>>
    decreases lines.len(),
{
    if lines.len() == 0 {
        seq![]
    } else {
        let line = trimmed(lines[0]);
        let rest = lines.drop_first();
        if has_prefix(line, "```"@) {
            code_lines(rest, !inside)
        } else if inside && line.len() > 0 {
            seq![line] + code_lines(rest, inside)
        } else {
            code_lines(rest, inside)
        }
    }
}

/// The code of a Markdown text.
pub open spec fn code_of(text: Seq<char>) -> Seq<char> {
    joined(code_lines(line_list(text), false), "\n"@)
}

/// The code of a Markdown text, or the text itself where it holds no code.
pub open spec fn code_or_text(text: Seq<char>) -> Seq<char> {
    if code_lines(line_list(text), false).len() == 0 {
        text
    } else {
        code_of(text)
    }
}

/// The lines of `text` that stand in code blocks, trimmed and without the empty ones.
pub fn code_block_lines<'a>(text: &'a str) -> (r: Vec<&'a str>)
    ensures
        views(r@) == code_lines(line_list(text@), false),
{
    let all: Vec<&'a str> = lines(text);
    let mut out: Vec<&'a str> = Vec::new();
    let mut inside: bool = false;
    let mut i: usize = 0;
    let ghost list = line_list(text@);
    proof {
        assert(list.skip(0) =~= list);
        assert(views(out@) + code_lines(list, false) =~= code_lines(list, false));
    }
    while i < all.len()
        invariant
            i <= all.len(),
            views(all@) == list,
            views(out@) + code_lines(list.skip(i as int), inside) == code_lines(list, false),
        decreases all.len() - i,
    {
        let ghost rest = list.skip(i as int);
        let ghost earlier = views(out@);
        let line: &'a str = trim(all[i]);
        proof {
            assert(rest[0] == all@[i as int]@);
            assert(rest.drop_first() =~= list.skip(i + 1));
        }
        if starts_with(line, "```") {
            inside = !inside;
        } else if inside && !line.is_empty() {
            out.push(line);
            proof {
                assert(views(out@) =~= earlier + seq![line@]);
                assert(views(out@) + code_lines(list.skip(i + 1), inside) =~= earlier + (seq![line@]
                    + code_lines(list.skip(i + 1), inside)));
            }
        }
        i += 1;
    }
    proof {
        assert(list.skip(i as int) =~= Seq::<Seq<char>>::empty());
        assert(views(out@) + code_lines(list.skip(i as int), inside) =~= views(out@));
    }
    out
}

/// The code of a Markdown text: `"```rust\nmodule\n```\n\n```rust\nfn name()\n```"` gives
/// `"module\nfn name()"`.
pub fn extract_plaintext_from_markdown(md: &str) -> (r: String)
    ensures
        r@ == code_of(md@),
{
    let code: Vec<&str> = code_block_lines(md);
    join(&code, "\n")
}

/// A line of code: a line of its own, trimmed, that opens or closes no code block.
pub open spec fn is_code_line(line: Seq<char>) -> bool {
    is_line(line) && trimmed(line) == line && !has_prefix(line, "```"@)
}

/// The lines of code of a text are lines of code: trimmed, and without a fence.
pub proof fn lemma_code_lines_are_plain(lines: Seq<Seq<char>>, inside: bool)
    requires
        forall|i: int| 0 <= i < lines.len() ==> !(#[trigger] lines[i]).contains('\n'),
    ensures
        forall|i: int|
            0 <= i < code_lines(lines, inside).len() ==> is_code_line(
                #[trigger] code_lines(lines, inside)[i],
            ),
    decreases lines.len(),
{
    if lines.len() > 0 {
        let line = trimmed(lines[0]);
        let rest = lines.drop_first();
        let all = code_lines(lines, inside);
        assert forall|i: int| 0 <= i < rest.len() implies !(#[trigger] rest[i]).contains(
            '\n',
        ) by {
            assert(rest[i] == lines[i + 1]);
        }
        assert(!lines[0].contains('\n'));
        lemma_trimmed_facts(lines[0]);
        lemma_trimmed_twice(lines[0]);
        if has_prefix(line, "```"@) {
            lemma_code_lines_are_plain(rest, !inside);
            assert(all == code_lines(rest, !inside));
        } else {
            lemma_code_lines_are_plain(rest, inside);
            let more = code_lines(rest, inside);
            if inside && line.len() > 0 {
                assert(is_code_line(line));
                assert(all == seq![line] + more);
                assert forall|i: int| 0 <= i < all.len() implies is_code_line(
                    #[trigger] all[i],
                ) by {
                    if i > 0 {
                        assert(all[i] == more[i - 1]);
                    }
                }
            } else {
                assert(all == more);
            }
        }
    }
}

proof fn lemma_no_code_outside(lines: Seq<Seq<char>>)
    requires
        forall|i: int|
            0 <= i < lines.len() ==> !has_prefix(trimmed(#[trigger] lines[i]), "```"@),
    ensures
        code_lines(lines, false).len() == 0,
    decreases lines.len(),
{
    if lines.len() > 0 {
        let rest = lines.drop_first();
        assert(!has_prefix(trimmed(lines[0]), "```"@));
        assert forall|i: int| 0 <= i < rest.len() implies !has_prefix(
            trimmed(#[trigger] rest[i]),
            "```"@,
        ) by {
            assert(rest[i] == lines[i + 1]);
        }
        lemma_no_code_outside(rest);
    }
}

/// The code of a Markdown text has the lines of its code blocks, and no code blocks of its own.
pub proof fn lemma_code_holds_no_blocks(text: Seq<char>)
    ensures
        line_list(code_of(text)) == code_lines(line_list(text), false),
        code_lines(line_list(code_of(text)), false).len() == 0,
{
    let code = code_lines(line_list(text), false);
    lemma_lines_hold_no_feed(text);
    lemma_code_lines_are_plain(line_list(text), false);
    lemma_joined_lines_are_read_back(code);
    lemma_no_code_outside(code);
}

/// Stripping the code blocks from a text that is stripped already changes nothing.
pub proof fn lemma_stripping_twice(text: Seq<char>)
    ensures
        code_or_text(code_or_text(text)) == code_or_text(text),
{
    lemma_code_holds_no_blocks(text);
}

/// A line that opens or closes a code block.
pub open spec fn is_fence(line: Seq<char>) -> bool {
    has_prefix(trimmed(line), "```"@)
}

proof fn lemma_code_lines_inside(body: Seq<Seq<char>>, after: Seq<Seq<char>>)
    requires
        forall|i: int|
            0 <= i < body.len() ==> !is_fence(#[trigger] body[i]) && trimmed(body[i]).len() > 0,
    ensures
        code_lines(body + after, true) == Seq::new(body.len(), |i: int| trimmed(body[i]))
            + code_lines(after, true),
    decreases body.len(),
{
    let shown = Seq::new(body.len(), |i: int| trimmed(body[i]));
    if body.len() == 0 {
        assert(body + after =~= after);
        assert(shown + code_lines(after, true) =~= code_lines(after, true));
    } else {
        let rest = body.drop_first();
        assert(!is_fence(body[0]) && trimmed(body[0]).len() > 0);
        assert forall|i: int| 0 <= i < rest.len() implies !is_fence(#[trigger] rest[i]) && trimmed(
            rest[i],
        ).len() > 0 by {
            assert(rest[i] == body[i + 1]);
        }
        lemma_code_lines_inside(rest, after);
        assert((body + after).drop_first() =~= rest + after);
        let more = Seq::new(rest.len(), |i: int| trimmed(rest[i]));
        assert(shown =~= seq![trimmed(body[0])] + more);
        assert(seq![trimmed(body[0])] + (more + code_lines(after, true)) =~= shown + code_lines(
            after,
            true,
        ));
    }
}

proof fn lemma_code_lines_outside(before: Seq<Seq<char>>, after: Seq<Seq<char>>)
    requires
        forall|i: int| 0 <= i < before.len() ==> !is_fence(#[trigger] before[i]),
    ensures
        code_lines(before + after, false) == code_lines(after, false),
    decreases before.len(),
{
    if before.len() == 0 {
        assert(before + after =~= after);
    } else {
        let rest = before.drop_first();
        assert(!is_fence(before[0]));
        assert forall|i: int| 0 <= i < rest.len() implies !is_fence(#[trigger] rest[i]) by {
            assert(rest[i] == before[i + 1]);
        }
        lemma_code_lines_outside(rest, after);
        assert((before + after).drop_first() =~= rest + after);
    }
}

/// The code of a text: lines outside of code blocks do not count, those of a block do, each trimmed
/// and in their order, and behind the block it goes on with the rest. A block that is not closed
/// goes to the end.
pub proof fn lemma_code_stands_between_fences(
    before: Seq<Seq<char>>,
    open: Seq<char>,
    body: Seq<Seq<char>>,
    close: Seq<char>,
    after: Seq<Seq<char>>,
)
    requires
        forall|i: int| 0 <= i < before.len() ==> !is_fence(#[trigger] before[i]),
        is_fence(open),
        forall|i: int|
            0 <= i < body.len() ==> !is_fence(#[trigger] body[i]) && trimmed(body[i]).len() > 0,
        is_fence(close),
    ensures
        code_lines(before + (seq![open] + (body + (seq![close] + after))), false) == Seq::new(
            body.len(),
            |i: int| trimmed(body[i]),
        ) + code_lines(after, false),
        code_lines(before + (seq![open] + body), false) == Seq::new(
            body.len(),
            |i: int| trimmed(body[i]),
        ),
{
    let closed = seq![close] + after;
    let shown = Seq::new(body.len(), |i: int| trimmed(body[i]));
    lemma_code_lines_outside(before, seq![open] + (body + closed));
    lemma_code_lines_outside(before, seq![open] + body);
    assert((seq![open] + (body + closed)).drop_first() =~= body + closed);
    assert((seq![open] + body).drop_first() =~= body);
    lemma_code_lines_inside(body, closed);
    lemma_code_lines_inside(body, Seq::empty());
    assert(body + Seq::<Seq<char>>::empty() =~= body);
    assert(closed.drop_first() =~= after);
    assert(code_lines(Seq::<Seq<char>>::empty(), true) =~= Seq::empty());
    assert(shown + Seq::<Seq<char>>::empty() =~= shown);
}

/// A blank line does not count, inside of a code block or outside.
pub proof fn lemma_blank_lines_are_no_code(
    before: Seq<Seq<char>>,
    blank: Seq<char>,
    after: Seq<Seq<char>>,
    inside: bool,
)
    requires
        trimmed(blank).len() == 0,
    ensures
        code_lines(before + seq![blank] + after, inside) == code_lines(before + after, inside),
    decreases before.len(),
{
    reveal_strlit("```");
    let with = before + seq![blank] + after;
    let without = before + after;
    if before.len() == 0 {
        assert(with.drop_first() =~= without);
    } else {
        let rest = before.drop_first();
        assert(with.drop_first() =~= rest + seq![blank] + after);
        assert(without.drop_first() =~= rest + after);
        lemma_blank_lines_are_no_code(rest, blank, after, inside);
        lemma_blank_lines_are_no_code(rest, blank, after, !inside);
    }
}

/// The code of a Markdown text stands on lines of its own; a text without code is left as it is.
pub proof fn lemma_code_is_what_is_left(text: Seq<char>)
    ensures
        code_of(text) == joined(code_lines(line_list(text), false), "\n"@),
        code_or_text(text) == if code_lines(line_list(text), false).len() > 0 {
            code_of(text)
        } else {
            text
        },
{
}

} // verus!
