//! Turning a gemtext page into display blocks, and reading what the user
//! types into the URL bar.
use vstd::prelude::*;
use vstd::string::{StrSliceExecFns, StringExecFns, StringSliceAdditionalSpecFns};
use vstd::utf8::encode_utf8;

use crate::parser::{line_events, line_next_state, Event, EventModel, Parser, Tag, TagModel};
use crate::tab::{blocks_view, Block, BlockView};
use crate::text::{
    contains_seq,
    ends_with, find_char, find_char_exec, has_prefix_at, lemma_find_char_sub,
    lemma_skip_ws_bounds, lemma_trim_end_index_bounds, skip_ws_exec, starts_with, str_chars,
    count_char, is_ws, skip_char, skip_ws, trim_end, trim_end_index, trim_start,
    sub_chars, trim, trim_end_index_exec,
};
use crate::urlparse::{
    join_url_text, lowercase, parse_url_text, to_lowercase, url_join_serialization,
    url_serialization,
};

verus! {

// ---------------------------------------------------------------------
// URLs in pages
// ---------------------------------------------------------------------

/// A link target made absolute: the target itself when it parses as a URL,
/// else the target resolved against the page's URL, else the target as
/// written.
pub open spec fn resolve_url_spec(base: Seq<char>, href: Seq<char>) -> Seq<char> {
    match url_serialization(href) {
        Some(u) => u,
        None => match url_join_serialization(base, href) {
            Some(u) => u,
            None => href,
        },
    }
}

/// Resolve a link target against the URL of the page it is on.
pub fn resolve_url(base: &str, href: &str) -> (r: String)
    ensures
        r@ == resolve_url_spec(base@, href@),
{
    match parse_url_text(href) {
        Some(u) => u,
        None => match join_url_text(base, href) {
            Some(u) => u,
            None => href.to_owned(),
        },
    }
}

/// The path part of a lowercased URL: before any `?`, then before any `#`.
pub open spec fn image_path(lower: Seq<char>) -> Seq<char> {
    let q = lower.take(find_char(lower, 0, '?'));
    q.take(find_char(q, 0, '#'))
}

/// The URL names an image file: its lowercased path ends in `.png`,
/// `.jpg`, `.jpeg`, `.gif` or `.webp`.
pub open spec fn is_image_spec(href: Seq<char>) -> bool {
    let p = image_path(lowercase(href));
    ||| ends_with(p, ".png"@)
    ||| ends_with(p, ".jpg"@)
    ||| ends_with(p, ".jpeg"@)
    ||| ends_with(p, ".gif"@)
    ||| ends_with(p, ".webp"@)
}

/// `n` is where a URL's text is cut to its path: at its first `?` or `#`,
/// or its end when it has neither.
pub open spec fn path_cut(l: Seq<char>, n: int) -> bool {
    &&& 0 <= n <= l.len()
    &&& forall|k: int| 0 <= k < n ==> (#[trigger] l[k]) != '?' && l[k] != '#'
    &&& n < l.len() ==> l[n] == '?' || l[n] == '#'
}

proof fn lemma_find_char_first(s: Seq<char>, i: int, c: char)
    requires
        0 <= i <= s.len(),
    ensures
        i <= find_char(s, i, c) <= s.len(),
        forall|k: int| i <= k < find_char(s, i, c) ==> (#[trigger] s[k]) != c,
        find_char(s, i, c) < s.len() ==> s[find_char(s, i, c)] == c,
    decreases s.len() - i,
{
    if i < s.len() && s[i] != c {
        lemma_find_char_first(s, i + 1, c);
    }
}

/// Which links show as images: those whose URL, lowercased and cut at
/// its first `?` or `#`, ends in `.png`, `.jpg`, `.jpeg`, `.gif` or
/// `.webp`, and no others.
pub proof fn lemma_image_extensions(href: Seq<char>, n: int)
    requires
        path_cut(lowercase(href), n),
    ensures
        ({
            let p = lowercase(href).take(n);
            is_image_spec(href) <==> (ends_with(p, ".png"@) || ends_with(p, ".jpg"@) || ends_with(
                p,
                ".jpeg"@,
            ) || ends_with(p, ".gif"@) || ends_with(p, ".webp"@))
        }),
{
    let l = lowercase(href);
    lemma_find_char_first(l, 0, '?');
    let q = find_char(l, 0, '?');
    let t = l.take(q);
    lemma_find_char_first(t, 0, '#');
    let h = find_char(t, 0, '#');
    assert(q >= n) by {
        if q < n {
            assert(l[q] != '?');
        }
    }
    assert(h == n) by {
        if h < n {
            assert(t[h] == l[h]);
        } else if h > n {
            assert(n < l.len());
            assert(l[n] != '?') by {
                if l[n] == '?' {
                    assert(q <= n);
                }
            }
            assert(t[n] == l[n]);
        }
    }
    assert(image_path(l) =~= l.take(n));
}

fn has_suffix(s: &Vec<char>, suffix: &str) -> (b: bool)
    ensures
        b == ends_with(s@, suffix@),
{
    let p = str_chars(suffix);
    if p.len() > s.len() {
        return false;
    }
    let i = s.len() - p.len();
    let b = has_prefix_at(s, i, &p);
    assert(s@.subrange(i as int, s@.len() as int).subrange(0, p@.len() as int) =~= s@.subrange(
        i as int,
        s@.len() as int,
    ));
    b
}

/// Whether a URL names an image file (by its extension).
pub fn is_image_url(href: &str) -> (b: bool)
    ensures
        b == is_image_spec(href@),
{
    let lower = to_lowercase(href);
    let c = str_chars(lower.as_str());
    let q = find_char_exec(&c, 0, '?');
    let before_query = sub_chars(&c, 0, q);
    let h = find_char_exec(&before_query, 0, '#');
    let path = sub_chars(&before_query, 0, h);
    proof {
        assert(before_query@ =~= c@.take(q as int));
        assert(path@ =~= before_query@.take(h as int));
    }
    has_suffix(&path, ".png") || has_suffix(&path, ".jpg") || has_suffix(&path, ".jpeg")
        || has_suffix(&path, ".gif") || has_suffix(&path, ".webp")
}

// ---------------------------------------------------------------------
// Rendering
// ---------------------------------------------------------------------

/// What has been rendered so far: the blocks, and the lines of a
/// preformatted block that is still open.
pub struct RenderState {
    pub blocks: Seq<BlockView>,
    pub pre: Option<Seq<Seq<char>>>,
}

pub open spec fn replace_last(b: Seq<BlockView>, x: BlockView) -> Seq<BlockView> {
    b.drop_last().push(x)
}

/// Text goes to the last block: it becomes the text of a heading,
/// paragraph or list item (each opened just before), is added as a new
/// line of a quote (opened by the line's `>`, or continued from the line
/// before), and otherwise starts a quote.
pub open spec fn attach_text(b: Seq<BlockView>, t: Seq<char>) -> Seq<BlockView> {
    if b.len() == 0 {
        b.push(BlockView::Quote(t))
    } else {
        match b.last() {
            BlockView::Heading { level, text } => replace_last(
                b,
                BlockView::Heading { level, text: t },
            ),
            BlockView::Paragraph(_) => replace_last(b, BlockView::Paragraph(t)),
            BlockView::ListItem(_) => replace_last(b, BlockView::ListItem(t)),
            BlockView::Quote(q) => replace_last(
                b,
                BlockView::Quote(
                    if q.len() > 0 {
                        q.push('\n') + t
                    } else {
                        t
                    },
                ),
            ),
            _ => b.push(BlockView::Quote(t)),
        }
    }
}

/// The rendering after one parse event of a page at `base`.
pub open spec fn block_step(st: RenderState, ev: EventModel, base: Seq<char>) -> RenderState {
    match ev {
        EventModel::Start(t) => match t {
            TagModel::CodeBlock => RenderState { pre: Some(Seq::empty()), ..st },
            TagModel::Heading(l) => RenderState {
                blocks: st.blocks.push(BlockView::Heading { level: l, text: Seq::empty() }),
                ..st
            },
            TagModel::Paragraph => RenderState {
                blocks: st.blocks.push(BlockView::Paragraph(Seq::empty())),
                ..st
            },
            TagModel::Item => RenderState {
                blocks: st.blocks.push(BlockView::ListItem(Seq::empty())),
                ..st
            },
            TagModel::BlockQuote => if st.blocks.len() > 0 && st.blocks.last() is Quote {
                st
            } else {
                RenderState { blocks: st.blocks.push(BlockView::Quote(Seq::empty())), ..st }
            },
            TagModel::Link(href, label) => {
                let r = resolve_url_spec(base, href);
                let d = match label {
                    Some(l) => l,
                    None => r,
                };
                if is_image_spec(r) {
                    RenderState {
                        blocks: st.blocks.push(BlockView::Image { alt: d, url: r, data: None }),
                        ..st
                    }
                } else {
                    RenderState {
                        blocks: st.blocks.push(BlockView::Link { href: r, label: d }),
                        ..st
                    }
                }
            },
            _ => st,
        },
        EventModel::Text(t) => match st.pre {
            Some(lines) => RenderState { pre: Some(lines.push(t)), ..st },
            None => RenderState { blocks: attach_text(st.blocks, t), ..st },
        },
        EventModel::End => match st.pre {
            Some(lines) => RenderState {
                blocks: st.blocks.push(BlockView::PreBlock { lines }),
                pre: None,
            },
            None => st,
        },
        EventModel::BlankLine => RenderState { blocks: st.blocks.push(BlockView::Blank), ..st },
    }
}

/// The rendering after a sequence of events.
pub open spec fn step_events(st: RenderState, evs: Seq<EventModel>, base: Seq<char>) -> RenderState
    decreases evs.len(),
{
    if evs.len() == 0 {
        st
    } else {
        step_events(block_step(st, evs[0], base), evs.drop_first(), base)
    }
}

/// A link becomes one block after the others, pointing at its target
/// made absolute and labelled by its label (else by that URL): an image
/// when the URL's path ends in `.png`, `.jpg`, `.jpeg`, `.gif` or `.webp`
/// (in any case), a link otherwise.
pub proof fn lemma_link_block(
    st: RenderState,
    href: Seq<char>,
    label: Option<Seq<char>>,
    base: Seq<char>,
    n: int,
)
    requires
        path_cut(lowercase(resolve_url_spec(base, href)), n),
    ensures
        ({
            let r = resolve_url_spec(base, href);
            let d = match label {
                Some(l) => l,
                None => r,
            };
            let p = lowercase(r).take(n);
            let image = ends_with(p, ".png"@) || ends_with(p, ".jpg"@) || ends_with(p, ".jpeg"@)
                || ends_with(p, ".gif"@) || ends_with(p, ".webp"@);
            let b = block_step(st, EventModel::Start(TagModel::Link(href, label)), base).blocks;
            &&& image ==> b == st.blocks.push(BlockView::Image { alt: d, url: r, data: None })
            &&& !image ==> b == st.blocks.push(BlockView::Link { href: r, label: d })
        }),
{
    lemma_image_extensions(resolve_url_spec(base, href), n);
}

/// What one line outside a preformatted block adds to the page, after the
/// blocks before it (which stay): a blank line a `Blank`; a line starting
/// with ```` ``` ```` nothing, but opens a preformatted block; a `#` line a
/// heading whose level is its number of `#`s and whose text follows them;
/// a `* ` line a list item with the rest of the line; a line of plain text
/// a paragraph with the line, trailing whitespace removed.
pub proof fn lemma_line_blocks(st: RenderState, line: Seq<char>, base: Seq<char>)
    requires
        st.pre is None,
    ensures
        ({
            let r = step_events(st, line_events(false, line), base);
            let t = trim_end(line);
            &&& starts_with(line, seq!['`', '`', '`']) ==> r.blocks == st.blocks && r.pre == Some(
                Seq::<Seq<char>>::empty(),
            )
            &&& !starts_with(line, seq!['`', '`', '`']) && trim(line).len() == 0 ==> r.blocks
                == st.blocks.push(BlockView::Blank) && r.pre is None
            &&& !starts_with(line, seq!['`', '`', '`']) && trim(line).len() > 0 && line[0] == '#'
                ==> r.pre is None && r.blocks == st.blocks.push(
                BlockView::Heading {
                    level: (count_char(t, '#') % 256) as u8,
                    text: trim_start(t.subrange(skip_char(t, 0, '#'), t.len() as int)),
                },
            )
            &&& !starts_with(line, seq!['`', '`', '`']) && trim(line).len() > 0 && line.len() >= 2
                && line[0] == '*' && line[1] == ' ' ==> r.pre is None && r.blocks == st.blocks.push(
                BlockView::ListItem(trim_end(line.subrange(2, line.len() as int))),
            )
            &&& !starts_with(line, seq!['`', '`', '`']) && trim(line).len() > 0 && line[0] != '#'
                && line[0] != '>' && line[0] != '*' && line[0] != '=' ==> r.pre is None && r.blocks
                == st.blocks.push(BlockView::Paragraph(t))
        }),
{
    reveal_with_fuel(step_events, 5);
    let evs = line_events(false, line);
    assert(evs.len() <= 4);
    if evs.len() >= 1 {
        assert(evs.drop_first().len() == evs.len() - 1);
    }
    if evs.len() >= 2 {
        assert(evs.drop_first().drop_first().len() == evs.len() - 2);
    }
    if evs.len() >= 3 {
        assert(evs.drop_first().drop_first().drop_first().len() == evs.len() - 3);
    }
    let t = trim_end(line);
    if !starts_with(line, seq!['`', '`', '`']) && trim(line).len() > 0 {
        if line[0] == '#' {
            assert(starts_with(line, seq!['#'])) by {
                assert(line.subrange(0, 1) =~= seq!['#']);
            }
            let b1 = st.blocks.push(BlockView::Heading { level: (count_char(t, '#') % 256) as u8, text: Seq::empty() });
            assert(b1.drop_last() =~= st.blocks);
        } else if line.len() >= 2 && line[0] == '*' && line[1] == ' ' {
            assert(starts_with(line, seq!['*', ' '])) by {
                assert(line.subrange(0, 2) =~= seq!['*', ' ']);
            }
            assert(!starts_with(line, seq!['#'])) by {
                if starts_with(line, seq!['#']) {
                    assert(line.subrange(0, 1)[0] == '#');
                }
            }
            assert(!starts_with(line, seq!['>'])) by {
                if starts_with(line, seq!['>']) {
                    assert(line.subrange(0, 1)[0] == '>');
                }
            }
            let b1 = st.blocks.push(BlockView::ListItem(Seq::empty()));
            assert(b1.drop_last() =~= st.blocks);
        } else if line[0] != '>' && line[0] != '*' && line[0] != '=' {
            assert(!starts_with(line, seq!['#'])) by {
                if starts_with(line, seq!['#']) {
                    assert(line.subrange(0, 1)[0] == '#');
                }
            }
            assert(!starts_with(line, seq!['>'])) by {
                if starts_with(line, seq!['>']) {
                    assert(line.subrange(0, 1)[0] == '>');
                }
            }
            assert(!starts_with(line, seq!['*', ' ']));
            assert(t.len() > 0 && t[0] == line[0]) by {
                lemma_trim_end_index_bounds(line, line.len() as int);
                lemma_trim_ends(line);
            }
            assert(!starts_with(t, seq!['=', '>']));
            let b1 = st.blocks.push(BlockView::Paragraph(Seq::empty()));
            assert(b1.drop_last() =~= st.blocks);
        }
    }
}

/// A quote line leaves every block before it as it was: its text becomes
/// a new quote block, or a new line of the quote just before it.
pub proof fn lemma_quote_line_keeps_blocks(st: RenderState, t: Seq<char>, base: Seq<char>)
    requires
        st.pre is None,
    ensures
        ({
            let b = st.blocks;
            let r = step_events(
                st,
                seq![EventModel::Start(TagModel::BlockQuote), EventModel::Text(t)],
                base,
            ).blocks;
            if b.len() > 0 && b.last() is Quote {
                let q = b.last()->Quote_0;
                r == b.drop_last().push(
                    BlockView::Quote(
                        if q.len() > 0 {
                            q.push('\n') + t
                        } else {
                            t
                        },
                    ),
                )
            } else {
                r == b.push(BlockView::Quote(t))
            }
        }),
{
    reveal_with_fuel(step_events, 3);
    let evs = seq![EventModel::Start(TagModel::BlockQuote), EventModel::Text(t)];
    assert(evs.drop_first() =~= seq![EventModel::Text(t)]);
    assert(evs.drop_first().drop_first() =~= Seq::<EventModel>::empty());
    let b = st.blocks;
    if !(b.len() > 0 && b.last() is Quote) {
        let b2 = b.push(BlockView::Quote(Seq::empty()));
        assert(b2.drop_last() =~= b);
    }
}

/// The line of `s` that starts at `i` (`str::lines`: up to the next line
/// feed, without it and without a carriage return just before it).
pub open spec fn line_at(s: Seq<char>, i: int) -> Seq<char> {
    let nl = find_char(s, i, '\n');
    let raw = s.subrange(i, nl);
    if nl < s.len() && raw.len() > 0 && raw.last() == '\r' {
        raw.drop_last()
    } else {
        raw
    }
}

/// The rendering of the lines of `s` from position `i` on.
pub open spec fn render_from(
    s: Seq<char>,
    i: int,
    in_pre: bool,
    st: RenderState,
    base: Seq<char>,
) -> RenderState
    decreases s.len() - i,
{
    if i < 0 || i >= s.len() {
        st
    } else {
        let nl = find_char(s, i, '\n');
        let line = line_at(s, i);
        let st2 = step_events(st, line_events(in_pre, line), base);
        if nl >= s.len() || nl < i {
            st2
        } else {
            render_from(s, nl + 1, line_next_state(in_pre, line), st2, base)
        }
    }
}

/// The blocks of a gemtext page whose URL is `base`; a preformatted block
/// left open at the end is closed.
pub open spec fn gemtext_blocks(body: Seq<char>, base: Seq<char>) -> Seq<BlockView> {
    let st = render_from(body, 0, false, RenderState { blocks: Seq::empty(), pre: None }, base);
    match st.pre {
        Some(lines) => st.blocks.push(BlockView::PreBlock { lines }),
        None => st.blocks,
    }
}

pub open spec fn render_view(blocks: Seq<Block>, in_pre: bool, lines: Seq<String>) -> RenderState {
    RenderState {
        blocks: blocks_view(blocks),
        pre: if in_pre {
            Some(lines.map_values(|l: String| l@))
        } else {
            None
        },
    }
}

proof fn lemma_line_pre(st: RenderState, in_pre: bool, line: Seq<char>, base: Seq<char>)
    requires
        (st.pre is Some) == in_pre,
    ensures
        (step_events(st, line_events(in_pre, line), base).pre is Some) == line_next_state(
            in_pre,
            line,
        ),
{
    reveal_with_fuel(step_events, 5);
    let evs = line_events(in_pre, line);
    assert(evs.len() <= 4);
    if evs.len() >= 1 {
        assert(evs.drop_first().len() == evs.len() - 1);
    }
}

fn apply_event<'a>(
    blocks: &mut Vec<Block>,
    in_pre: &mut bool,
    pre_lines: &mut Vec<String>,
    ev: &Event<'a>,
    base: &str,
)
    ensures
        render_view(final(blocks)@, *final(in_pre), final(pre_lines)@) == block_step(
            render_view(old(blocks)@, *old(in_pre), old(pre_lines)@),
            ev@,
            base@,
        ),
{
    let ghost b0 = blocks@;
    match ev {
        Event::Start(tag) => match tag {
            Tag::CodeBlock => {
                *in_pre = true;
                *pre_lines = Vec::new();
                assert(pre_lines@.map_values(|l: String| l@) =~= Seq::<Seq<char>>::empty());
            },
            Tag::Heading(l) => {
                blocks.push(Block::Heading { level: *l, text: String::new() });
                assert(blocks_view(blocks@) =~= blocks_view(b0).push(
                    BlockView::Heading { level: *l, text: Seq::empty() },
                ));
            },
            Tag::Paragraph => {
                blocks.push(Block::Paragraph(String::new()));
                assert(blocks_view(blocks@) =~= blocks_view(b0).push(
                    BlockView::Paragraph(Seq::empty()),
                ));
            },
            Tag::Item => {
                blocks.push(Block::ListItem(String::new()));
                assert(blocks_view(blocks@) =~= blocks_view(b0).push(
                    BlockView::ListItem(Seq::empty()),
                ));
            },
            Tag::BlockQuote => {
                let n = blocks.len();
                let in_quote = n > 0 && matches!(blocks[n - 1], Block::Quote(_));
                proof {
                    if n > 0 {
                        assert(blocks_view(b0).last() == b0.last()@);
                    }
                }
                if !in_quote {
                    blocks.push(Block::Quote(String::new()));
                    assert(blocks_view(blocks@) =~= blocks_view(b0).push(
                        BlockView::Quote(Seq::empty()),
                    ));
                }
            },
            Tag::Link(href, label) => {
                let resolved = resolve_url(base, href.as_str());
                let display = match label {
                    Some(l) => l.clone(),
                    None => resolved.clone(),
                };
                if is_image_url(resolved.as_str()) {
                    let b = Block::Image { alt: display, url: resolved, data: None };
                    blocks.push(b);
                } else {
                    let b = Block::Link { href: resolved, label: display };
                    blocks.push(b);
                }
                assert(blocks_view(blocks@) =~= blocks_view(b0).push(blocks@.last()@));
            },
            _ => {},
        },
        Event::Text(t) => {
            if *in_pre {
                let ghost l0 = pre_lines@;
                pre_lines.push((*t).to_owned());
                assert(pre_lines@.map_values(|l: String| l@) =~= l0.map_values(|l: String| l@).push(
                    t@,
                ));
            } else {
                attach_text_exec(blocks, t);
            }
        },
        Event::End => {
            if *in_pre {
                let mut lines: Vec<String> = Vec::new();
                core::mem::swap(&mut lines, pre_lines);
                *in_pre = false;
                blocks.push(Block::PreBlock { lines });
                assert(blocks_view(blocks@) =~= blocks_view(b0).push(blocks@.last()@));
            }
        },
        Event::BlankLine => {
            blocks.push(Block::Blank);
            assert(blocks_view(blocks@) =~= blocks_view(b0).push(BlockView::Blank));
        },
    }
}

fn attach_text_exec(blocks: &mut Vec<Block>, t: &str)
    ensures
        blocks_view(final(blocks)@) == attach_text(blocks_view(old(blocks)@), t@),
{
    let ghost b0 = blocks@;
    match blocks.pop() {
        None => {
            blocks.push(Block::Quote(t.to_owned()));
            assert(blocks_view(blocks@) =~= attach_text(blocks_view(b0), t@));
        },
        Some(last) => {
            proof {
                assert(blocks_view(b0).last() == last@);
                assert(blocks_view(blocks@) =~= blocks_view(b0).drop_last());
            }
            match last {
                Block::Heading { level, text: _ } => {
                    blocks.push(Block::Heading { level, text: t.to_owned() });
                },
                Block::Paragraph(_) => {
                    blocks.push(Block::Paragraph(t.to_owned()));
                },
                Block::ListItem(_) => {
                    blocks.push(Block::ListItem(t.to_owned()));
                },
                Block::Quote(q) => {
                    let mut q = q;
                    let empty = q.as_str().unicode_len() == 0;
                    if !empty {
                        q.push('\n');
                    }
                    q.append(t);
                    blocks.push(Block::Quote(q));
                },
                other => {
                    blocks.push(other);
                    blocks.push(Block::Quote(t.to_owned()));
                    assert(blocks_view(blocks@) =~= blocks_view(b0).push(BlockView::Quote(t@)));
                },
            }
            assert(blocks_view(blocks@) =~= attach_text(blocks_view(b0), t@));
        },
    }
}

/// Render a gemtext page (at URL `base_url`) into display blocks.
pub fn parse_gemtext(body: &str, base_url: &str) -> (r: Vec<Block>)
    ensures
        blocks_view(r@) == gemtext_blocks(body@, base_url@),
{
    let chars = str_chars(body);
    let n = chars.len();
    let mut parser = Parser::new();
    let mut blocks: Vec<Block> = Vec::new();
    let mut in_pre = false;
    let mut pre_lines: Vec<String> = Vec::new();
    let ghost init = RenderState { blocks: Seq::empty(), pre: None };
    proof {
        assert(blocks_view(blocks@) =~= Seq::<BlockView>::empty());
        assert(render_view(blocks@, in_pre, pre_lines@) =~= init);
    }
    let mut start: usize = 0;
    while start < n
        invariant
            start <= n,
            n == chars@.len(),
            chars@ == body@,
            parser.in_preformatted() == in_pre,
            render_from(body@, 0, false, init, base_url@) == render_from(
                body@,
                start as int,
                in_pre,
                render_view(blocks@, in_pre, pre_lines@),
                base_url@,
            ),
        decreases n - start,
    {
        let ghost st0 = render_view(blocks@, in_pre, pre_lines@);
        let ghost pre0 = in_pre;
        let nl = find_char_exec(&chars, start, '\n');
        let mut end = nl;
        if nl < n && nl > start && chars[nl - 1] == '\r' {
            end = nl - 1;
        }
        let line = body.substring_char(start, end);
        proof {
            let raw = body@.subrange(start as int, nl as int);
            if nl < n && nl > start && chars@[nl - 1] == '\r' {
                assert(line@ =~= raw.drop_last());
            } else {
                assert(line@ =~= raw);
            }
            assert(line@ == line_at(body@, start as int));
        }
        let mut events: Vec<Event> = Vec::new();
        parser.parse_line(line, &mut events);
        let ghost evs = line_events(pre0, line@);
        proof {
            assert(crate::parser::events_view(events@) =~= evs);
            assert(evs.skip(0) =~= evs);
            lemma_line_pre(st0, pre0, line@, base_url@);
        }
        let mut j: usize = 0;
        while j < events.len()
            invariant
                j <= events@.len(),
                crate::parser::events_view(events@) == evs,
                step_events(st0, evs, base_url@) == step_events(
                    render_view(blocks@, in_pre, pre_lines@),
                    evs.skip(j as int),
                    base_url@,
                ),
            decreases events@.len() - j,
        {
            proof {
                assert(evs.skip(j as int)[0] == events@[j as int]@);
                assert(evs.skip(j as int).drop_first() =~= evs.skip(j + 1));
            }
            apply_event(&mut blocks, &mut in_pre, &mut pre_lines, &events[j], base_url);
            j = j + 1;
        }
        proof {
            assert(evs.skip(events@.len() as int) =~= Seq::<EventModel>::empty());
        }
        if nl >= n {
            start = n;
        } else {
            start = nl + 1;
        }
    }
    if in_pre {
        let ghost b0 = blocks@;
        blocks.push(Block::PreBlock { lines: pre_lines });
        assert(blocks_view(blocks@) =~= blocks_view(b0).push(blocks@.last()@));
    }
    blocks
}

// ---------------------------------------------------------------------
// Titles and the URL bar
// ---------------------------------------------------------------------

/// Index of the first level-1 heading with text, or the number of blocks.
pub open spec fn title_index(b: Seq<BlockView>, i: int) -> int
    decreases b.len() - i,
{
    if i < 0 || i >= b.len() {
        b.len() as int
    } else if b[i] matches BlockView::Heading { level, text } && level == 1 && text.len() > 0 {
        i
    } else {
        title_index(b, i + 1)
    }
}

/// A page's title: the text of its first non-empty level-1 heading.
pub fn extract_title(blocks: &[Block]) -> (r: Option<String>)
    ensures
        ({
            let j = title_index(blocks_view(blocks@), 0);
            match r {
                Some(t) => j < blocks@.len() && (blocks_view(blocks@)[j] matches BlockView::Heading {
                    text,
                    ..
                } && t@ == text),
                None => j >= blocks@.len(),
            }
        }),
{
    let ghost bv = blocks_view(blocks@);
    let mut i: usize = 0;
    while i < blocks.len()
        invariant
            i <= blocks@.len(),
            bv == blocks_view(blocks@),
            title_index(bv, 0) == title_index(bv, i as int),
        decreases blocks@.len() - i,
    {
        if let Block::Heading { level, text } = &blocks[i] {
            if *level == 1 && text.as_str().unicode_len() > 0 {
                assert(bv[i as int] == blocks@[i as int]@);
                return Some(text.clone());
            }
        }
        assert(bv[i as int] == blocks@[i as int]@);
        i = i + 1;
    }
    None
}


fn contains_str(s: &Vec<char>, t: &str) -> (b: bool)
    ensures
        b == contains_seq(s@, t@),
{
    let p = str_chars(t);
    if p.len() > s.len() {
        return false;
    }
    if p.len() == 0 {
        assert(s@.subrange(0, 0 + t@.len() as int) =~= t@);
        return true;
    }
    let last = s.len() - p.len();
    let mut i: usize = 0;
    while i <= last
        invariant
            i <= last + 1,
            last < usize::MAX,
            last == s@.len() - p@.len(),
            p@ == t@,
            forall|k: int| 0 <= k < i ==> #[trigger] s@.subrange(k, k + p@.len()) != p@,
        decreases last + 1 - i,
    {
        let found = has_prefix_at(s, i, &p);
        assert(s@.subrange(i as int, s@.len() as int).subrange(0, p@.len() as int) =~= s@.subrange(
            i as int,
            i + p@.len(),
        ));
        if found {
            return true;
        }
        i = i + 1;
    }
    proof {
        assert forall|k: int| 0 <= k && k + t@.len() <= s@.len() implies #[trigger] s@.subrange(
            k,
            k + t@.len(),
        ) != t@ by {
            assert(k < i);
        }
    }
    false
}

/// Characters that a URL query carries as they are.
pub open spec fn unreserved(b: u8) -> bool {
    (65 <= b <= 90) || (97 <= b <= 122) || (48 <= b <= 57) || b == 45 || b == 95 || b == 46
        || b == 126
}

/// An upper-case hexadecimal digit.
pub open spec fn hex_upper(n: u8) -> char {
    if n < 10 {
        (48 + n) as char
    } else {
        (55 + n) as char
    }
}

/// Percent-encoding of bytes: unreserved bytes stay, every other byte
/// becomes `%` and two upper-case hex digits.
pub open spec fn percent_encode(b: Seq<u8>) -> Seq<char>
    decreases b.len(),
{
    if b.len() == 0 {
        Seq::empty()
    } else {
        let x = b.last();
        percent_encode(b.drop_last()) + if unreserved(x) {
            seq![x as char]
        } else {
            seq!['%', hex_upper(x / 16), hex_upper(x % 16)]
        }
    }
}

fn hex_upper_exec(n: u8) -> (c: char)
    requires
        n < 16,
    ensures
        c == hex_upper(n),
{
    if n < 10 {
        (48u8 + n) as char
    } else {
        (55u8 + n) as char
    }
}

/// Percent-encode the UTF-8 bytes of `s` for a URL query.
pub fn urlencoding_encode(s: &str) -> (r: String)
    ensures
        r@ == percent_encode(encode_utf8(s@)),
{
    let bytes = s.as_bytes_vec();
    let mut r = String::new();
    let mut i: usize = 0;
    while i < bytes.len()
        invariant
            i <= bytes@.len(),
            bytes@ == encode_utf8(s@),
            r@ == percent_encode(bytes@.take(i as int)),
        decreases bytes@.len() - i,
    {
        let b = bytes[i];
        proof {
            assert(bytes@.take(i + 1).drop_last() =~= bytes@.take(i as int));
        }
        if (65 <= b && b <= 90) || (97 <= b && b <= 122) || (48 <= b && b <= 57) || b == 45 || b
            == 95 || b == 46 || b == 126 {
            r.push(b as char);
        } else {
            r.push('%');
            r.push(hex_upper_exec(b / 16));
            r.push(hex_upper_exec(b % 16));
        }
        i = i + 1;
        assert(r@ =~= percent_encode(bytes@.take(i as int)));
    }
    assert(bytes@.take(bytes@.len() as int) =~= bytes@);
    r
}

/// What the URL bar makes of its text: a URL with a scheme is kept; a
/// single word with a dot is taken for a Gemini host; anything else
/// becomes a search.
pub open spec fn normalize_url_spec(input: Seq<char>) -> Seq<char> {
    let t = trim(input);
    if contains_seq(t, "://"@) {
        t
    } else if find_char(t, 0, '.') < t.len() && find_char(t, 0, ' ') >= t.len() {
        "gemini://"@ + t
    } else {
        "gemini://tlgs.one/search?"@ + percent_encode(encode_utf8(t))
    }
}

/// A text whose first and last characters are not whitespace is its own
/// trim.
proof fn lemma_trim_unchanged(s: Seq<char>)
    requires
        s.len() > 0 ==> !is_ws(s[0]) && !is_ws(s.last()),
    ensures
        trim(s) == s,
{
    if s.len() > 0 {
        assert(trim_end_index(s, s.len() as int) == s.len());
        assert(s.subrange(0, s.len() as int) =~= s);
        assert(skip_ws(s, 0) == 0);
        assert(s.subrange(0, s.len() as int) =~= s);
    } else {
        assert(s.subrange(0, 0) =~= s);
    }
}

/// A trimmed text starts and ends with characters that are not
/// whitespace.
proof fn lemma_trim_ends(s: Seq<char>)
    ensures
        trim(s).len() > 0 ==> !is_ws(trim(s)[0]) && !is_ws(trim(s).last()),
{
    let e = trim_end_index(s, s.len() as int);
    lemma_trim_end_index_bounds(s, s.len() as int);
    let u = trim_end(s);
    lemma_skip_ws_bounds(u, 0);
    let k = skip_ws(u, 0);
    if trim(s).len() > 0 {
        assert(trim(s)[0] == u[k]);
        assert(trim(s).last() == s[e - 1]);
    }
}

/// No character of a percent-encoding is whitespace.
proof fn lemma_percent_encode_no_ws(b: Seq<u8>)
    ensures
        forall|k: int| 0 <= k < percent_encode(b).len() ==> !is_ws(#[trigger] percent_encode(b)[k]),
    decreases b.len(),
{
    if b.len() > 0 {
        lemma_percent_encode_no_ws(b.drop_last());
        let x = b.last();
        let p = percent_encode(b.drop_last());
        let q: Seq<char> = if unreserved(x) {
            seq![x as char]
        } else {
            seq!['%', hex_upper(x / 16), hex_upper(x % 16)]
        };
        assert(percent_encode(b) == p + q);
        assert forall|k: int| 0 <= k < q.len() implies !is_ws(#[trigger] q[k]) by {
            if unreserved(x) {
                assert(q[k] == x as char);
                assert((x as char) as u32 == x as u32);
            } else if k > 0 {
                let n: u8 = if k == 1 { x / 16 } else { x % 16 };
                assert(q[k] == hex_upper(n));
                assert(hex_upper(n) as u32 == (if n < 10 { 48 + n } else { 55 + n }));
            }
        }
        assert forall|k: int| 0 <= k < percent_encode(b).len() implies !is_ws(#[trigger] percent_encode(b)[k]) by {
            if k < p.len() {
                assert(percent_encode(b)[k] == p[k]);
            } else {
                assert(percent_encode(b)[k] == q[k - p.len()]);
            }
        }
    }
}

/// What `normalize_url` gives is a URL (it holds `://`), and normalizing
/// it again changes nothing.
pub proof fn lemma_normalize_url_idempotent(s: Seq<char>)
    ensures
        contains_seq(normalize_url_spec(s), "://"@),
        normalize_url_spec(normalize_url_spec(s)) == normalize_url_spec(s),
{
    let t = trim(s);
    let r = normalize_url_spec(s);
    reveal_strlit("://");
    reveal_strlit("gemini://");
    reveal_strlit("gemini://tlgs.one/search?");
    lemma_trim_ends(s);
    if contains_seq(t, "://"@) {
        assert(r == t);
    } else {
        let pre: Seq<char> = if find_char(t, 0, '.') < t.len() && find_char(t, 0, ' ') >= t.len() {
            "gemini://"@
        } else {
            "gemini://tlgs.one/search?"@
        };
        let rest = r.subrange(pre.len() as int, r.len() as int);
        assert(r.subrange(0, pre.len() as int) =~= pre);
        assert(r.subrange(6, 6 + "://"@.len() as int) =~= "://"@);
        assert(contains_seq(r, "://"@));
        if !(find_char(t, 0, '.') < t.len() && find_char(t, 0, ' ') >= t.len()) {
            let enc = percent_encode(encode_utf8(t));
            lemma_percent_encode_no_ws(encode_utf8(t));
            if enc.len() > 0 {
                assert(r.last() == enc[enc.len() - 1]);
            }
        } else {
            assert(find_char(t, 0, '.') < t.len());
            assert(r.last() == t.last());
        }
        assert(r[0] == 'g');
    }
    lemma_trim_unchanged(r);
    assert(trim(r) == r);
    assert(contains_seq(trim(r), "://"@));
}

/// Turn what the user typed into a URL.
pub fn normalize_url(input: &str) -> (r: String)
    ensures
        r@ == normalize_url_spec(input@),
{
    let chars = str_chars(input);
    let n = chars.len();
    assert(chars@.subrange(0, n as int) =~= chars@);
    let te = trim_end_index_exec(&chars, n);
    proof {
        lemma_trim_end_index_bounds(chars@, n as int);
    }
    let t = sub_chars(&chars, 0, te);
    let ts = skip_ws_exec(&t, 0);
    proof {
        lemma_skip_ws_bounds(t@, 0);
        assert(trim(input@) =~= t@.subrange(ts as int, te as int));
    }
    let trimmed = input.substring_char(ts, te);
    assert(t@.subrange(ts as int, te as int) =~= input@.subrange(ts as int, te as int));
    let tc = str_chars(trimmed);
    if contains_str(&tc, "://") {
        return trimmed.to_owned();
    }
    let dot = find_char_exec(&tc, 0, '.');
    let space = find_char_exec(&tc, 0, ' ');
    if dot < tc.len() && space >= tc.len() {
        let r = String::from_str("gemini://").concat(trimmed);
        return r;
    }
    let enc = urlencoding_encode(trimmed);
    String::from_str("gemini://tlgs.one/search?").concat(enc.as_str())
}

} // verus!
