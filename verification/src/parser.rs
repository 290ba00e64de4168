//! Line-oriented parser for the gemtext markup format.
use vstd::prelude::*;
use vstd::string::*;

use crate::text::{
    count_char, count_char_exec, find_char, find_char_exec, has_prefix_at, lemma_skip_ws_bounds,
    lemma_trim_end_index_bounds, skip_char, skip_char_exec, skip_non_ws, skip_non_ws_exec, skip_ws,
    skip_ws_exec, starts_with, str_chars, sub_chars, trim, trim_end, trim_end_index_exec,
    trim_start,
};

verus! {

/// A gemtext element.
#[derive(Debug, Clone)]
pub enum Tag {
    Paragraph,
    Heading(u8),
    BlockQuote,
    CodeBlock,
    UnorderedList,
    Item,
    Link(String, Option<String>),
}

/// Mathematical form of a [`Tag`].
pub enum TagModel {
    Paragraph,
    Heading(u8),
    BlockQuote,
    CodeBlock,
    UnorderedList,
    Item,
    Link(Seq<char>, Option<Seq<char>>),
}

pub open spec fn opt_string_view(o: Option<String>) -> Option<Seq<char>> {
    match o {
        Some(s) => Some(s@),
        None => None,
    }
}

impl View for Tag {
    type V = TagModel;

    open spec fn view(&self) -> TagModel {
        match self {
            Tag::Paragraph => TagModel::Paragraph,
            Tag::Heading(l) => TagModel::Heading(*l),
            Tag::BlockQuote => TagModel::BlockQuote,
            Tag::CodeBlock => TagModel::CodeBlock,
            Tag::UnorderedList => TagModel::UnorderedList,
            Tag::Item => TagModel::Item,
            Tag::Link(h, l) => TagModel::Link(h@, opt_string_view(*l)),
        }
    }
}

/// One parse event; text borrows from the parsed line.
#[derive(Debug, Clone)]
pub enum Event<'a> {
    Start(Tag),
    End,
    Text(&'a str),
    BlankLine,
}

/// Mathematical form of an [`Event`].
pub enum EventModel {
    Start(TagModel),
    End,
    Text(Seq<char>),
    BlankLine,
}

impl<'a> View for Event<'a> {
    type V = EventModel;

    open spec fn view(&self) -> EventModel {
        match self {
            Event::Start(t) => EventModel::Start(t@),
            Event::End => EventModel::End,
            Event::Text(s) => EventModel::Text(s@),
            Event::BlankLine => EventModel::BlankLine,
        }
    }
}

pub open spec fn events_view<'a>(s: Seq<Event<'a>>) -> Seq<EventModel> {
    s.map_values(|e: Event<'a>| e@)
}

/// The link line grammar `=>` [ws] href [ws label]: the target and optional
/// label of `t`, where `t` has already lost its trailing whitespace. A
/// label stops at a line feed.
pub open spec fn link_match(t: Seq<char>) -> Option<(Seq<char>, Option<Seq<char>>)> {
    if !starts_with(t, seq!['=', '>']) {
        None
    } else {
        let a = skip_ws(t, 2);
        let b = skip_non_ws(t, a);
        if a == b {
            None
        } else {
            let c = skip_ws(t, b);
            let label = if c < t.len() {
                Some(t.subrange(c, find_char(t, c, '\n')))
            } else {
                None
            };
            Some((t.subrange(a, b), label))
        }
    }
}

pub open spec fn fence() -> Seq<char> {
    seq!['`', '`', '`']
}

/// Whether the parser is inside a preformatted block after `line`.
pub open spec fn line_next_state(in_pre: bool, line: Seq<char>) -> bool {
    if starts_with(line, fence()) {
        !in_pre
    } else {
        in_pre
    }
}

/// The events that one line produces, given whether a preformatted block
/// is open.
pub open spec fn line_events(in_pre: bool, line: Seq<char>) -> Seq<EventModel> {
    if starts_with(line, fence()) {
        if in_pre {
            seq![EventModel::End]
        } else {
            seq![EventModel::Start(TagModel::CodeBlock)]
        }
    } else if in_pre {
        seq![EventModel::Text(line)]
    } else if trim(line).len() == 0 {
        seq![EventModel::BlankLine]
    } else if starts_with(line, seq!['#']) {
        let t = trim_end(line);
        seq![
            EventModel::Start(TagModel::Heading((count_char(t, '#') % 256) as u8)),
            EventModel::Text(trim_start(t.subrange(skip_char(t, 0, '#'), t.len() as int))),
            EventModel::End,
        ]
    } else if starts_with(line, seq!['>']) {
        seq![
            EventModel::Start(TagModel::BlockQuote),
            EventModel::Text(line.subrange(skip_char(line, 0, '>'), line.len() as int)),
        ]
    } else if starts_with(line, seq!['*', ' ']) {
        seq![
            EventModel::Start(TagModel::UnorderedList),
            EventModel::Start(TagModel::Item),
            EventModel::Text(trim_end(line.subrange(2, line.len() as int))),
            EventModel::End,
        ]
    } else {
        match link_match(trim_end(line)) {
            Some((href, label)) => seq![
                EventModel::Start(TagModel::Link(href, label)),
                EventModel::End,
            ],
            None => seq![
                EventModel::Start(TagModel::Paragraph),
                EventModel::Text(trim_end(line)),
                EventModel::End,
            ],
        }
    }
}

/// Stateful gemtext line parser. The only state that spans lines is
/// whether a preformatted (```) block is open.
#[derive(Debug)]
pub struct Parser {
    tag_stack: Vec<Tag>,
}

impl Parser {
    #[verifier::type_invariant]
    spec fn inv(self) -> bool {
        &&& self.tag_stack@.len() <= 1
        &&& forall|i: int| 0 <= i < self.tag_stack@.len() ==> self.tag_stack@[i] is CodeBlock
    }

    /// Whether a preformatted block is open.
    pub closed spec fn in_preformatted(&self) -> bool {
        self.tag_stack@.len() > 0
    }

    pub fn new() -> (p: Self)
        ensures
            !p.in_preformatted(),
    {
        Self { tag_stack: Vec::new() }
    }

    /// Parse one line, appending its events to `res`.
    pub fn parse_line<'a>(&mut self, line: &'a str, res: &mut Vec<Event<'a>>)
        ensures
            final(self).in_preformatted() == line_next_state(old(self).in_preformatted(), line@),
            events_view(final(res)@) == events_view(old(res)@) + line_events(
                old(self).in_preformatted(),
                line@,
            ),
    {
        proof {
            use_type_invariant(&*self);
        }
        let ghost old_res = res@;
        let ghost in_pre = self.tag_stack@.len() > 0;
        let chars = str_chars(line);
        let n = chars.len();
        let fence_chars = vec!['`', '`', '`'];
        assert(chars@.subrange(0, n as int) =~= chars@);
        let mut new_events: Vec<Event<'a>> = if has_prefix_at(&chars, 0, &fence_chars) {
            proof {
                assert(fence_chars@ =~= fence());
            }
            if self.tag_stack.len() > 0 {
                self.tag_stack = Vec::new();
                vec![Event::End]
            } else {
                self.tag_stack = vec![Tag::CodeBlock];
                vec![Event::Start(Tag::CodeBlock)]
            }
        } else if self.tag_stack.len() > 0 {
            proof {
                assert(fence_chars@ =~= fence());
            }
            vec![Event::Text(line)]
        } else {
            proof {
                assert(fence_chars@ =~= fence());
            }
            self.parse_plain_line(line, &chars)
        };
        let ghost new_events_v = new_events@;
        proof {
            assert(events_view(new_events@) =~= line_events(in_pre, line@));
        }
        res.append(&mut new_events);
        proof {
            assert(events_view(res@) =~= events_view(old_res) + events_view(new_events_v));
        }
    }

    /// Events of a line outside a preformatted block that does not open one.
    fn parse_plain_line<'a>(&self, line: &'a str, chars: &Vec<char>) -> (r: Vec<Event<'a>>)
        requires
            chars@ == line@,
            !starts_with(line@, fence()),
        ensures
            events_view(r@) == line_events(false, line@),
    {
        let n = chars.len();
        assert(chars@.subrange(0, n as int) =~= chars@);
        let te = trim_end_index_exec(chars, n);
        proof {
            lemma_trim_end_index_bounds(chars@, n as int);
        }
        let t = sub_chars(chars, 0, te);
        let ts = skip_ws_exec(&t, 0);
        proof {
            lemma_skip_ws_bounds(t@, 0);
            assert(trim(line@) =~= t@.subrange(ts as int, te as int));
        }
        if ts == te {
            let r = vec![Event::BlankLine];
            assert(events_view(r@) =~= line_events(false, line@));
            return r;
        }
        if n >= 1 && chars[0] == '#' {
            assert(starts_with(line@, seq!['#'])) by {
                assert(line@.subrange(0, 1) =~= seq!['#']);
            }
            let k = skip_char_exec(&t, 0, '#');
            let rest = sub_chars(&t, k, te);
            let j = skip_ws_exec(&rest, 0);
            let lvl = count_char_exec(&t, '#');
            let text = line.substring_char(k + j, te);
            let r = vec![
                Event::Start(Tag::Heading((lvl % 256) as u8)),
                Event::Text(text),
                Event::End,
            ];
            proof {
                assert(trim_end(line@) =~= t@);
                assert(text@ =~= trim_start(t@.subrange(k as int, t@.len() as int)));
                assert(events_view(r@) =~= line_events(false, line@));
            }
            return r;
        }
        assert(!starts_with(line@, seq!['#'])) by {
            if starts_with(line@, seq!['#']) {
                assert(line@.subrange(0, 1)[0] == '#');
            }
        }
        if n >= 1 && chars[0] == '>' {
            assert(starts_with(line@, seq!['>'])) by {
                assert(line@.subrange(0, 1) =~= seq!['>']);
            }
            let k = skip_char_exec(chars, 0, '>');
            let text = line.substring_char(k, n);
            let r = vec![Event::Start(Tag::BlockQuote), Event::Text(text)];
            proof {
                assert(events_view(r@) =~= line_events(false, line@));
            }
            return r;
        }
        assert(!starts_with(line@, seq!['>'])) by {
            if starts_with(line@, seq!['>']) {
                assert(line@.subrange(0, 1)[0] == '>');
            }
        }
        if n >= 2 && chars[0] == '*' && chars[1] == ' ' {
            assert(starts_with(line@, seq!['*', ' '])) by {
                assert(line@.subrange(0, 2) =~= seq!['*', ' ']);
            }
            let rest = sub_chars(chars, 2, n);
            let re = trim_end_index_exec(&rest, rest.len());
            proof {
                lemma_trim_end_index_bounds(rest@, rest@.len() as int);
            }
            let text = line.substring_char(2, 2 + re);
            let r = vec![
                Event::Start(Tag::UnorderedList),
                Event::Start(Tag::Item),
                Event::Text(text),
                Event::End,
            ];
            proof {
                assert(text@ =~= trim_end(line@.subrange(2, line@.len() as int)));
                assert(events_view(r@) =~= line_events(false, line@));
            }
            return r;
        }
        assert(!starts_with(line@, seq!['*', ' '])) by {
            if starts_with(line@, seq!['*', ' ']) {
                assert(line@.subrange(0, 2)[0] == '*');
                assert(line@.subrange(0, 2)[1] == ' ');
            }
        }
        proof {
            assert(trim_end(line@) =~= t@);
        }
        match match_link(line, &t) {
            Some((href, label)) => {
                let r = vec![Event::Start(Tag::Link(href, label)), Event::End];
                proof {
                    assert(events_view(r@) =~= line_events(false, line@));
                }
                r
            },
            None => {
                let text = line.substring_char(0, te);
                let r = vec![Event::Start(Tag::Paragraph), Event::Text(text), Event::End];
                proof {
                    assert(events_view(r@) =~= line_events(false, line@));
                }
                r
            },
        }
    }
}

/// Match the link line grammar against `t`, a prefix of `line`.
fn match_link(line: &str, t: &Vec<char>) -> (r: Option<(String, Option<String>)>)
    requires
        t@.len() <= line@.len(),
        t@ == line@.subrange(0, t@.len() as int),
    ensures
        match (r, link_match(t@)) {
            (Some((h, l)), Some((hm, lm))) => h@ == hm && opt_string_view(l) == lm,
            (None, None) => true,
            _ => false,
        },
{
    let te = t.len();
    if te < 2 || t[0] != '=' || t[1] != '>' {
        proof {
            if starts_with(t@, seq!['=', '>']) {
                assert(t@.subrange(0, 2)[0] == '=');
                assert(t@.subrange(0, 2)[1] == '>');
            }
        }
        return None;
    }
    assert(starts_with(t@, seq!['=', '>'])) by {
        assert(t@.subrange(0, 2) =~= seq!['=', '>']);
    }
    let a = skip_ws_exec(t, 2);
    let b = skip_non_ws_exec(t, a);
    if a == b {
        return None;
    }
    let c = skip_ws_exec(t, b);
    let href = line.substring_char(a, b).to_owned();
    let label = if c < te {
        let d = find_char_exec(t, c, '\n');
        Some(line.substring_char(c, d).to_owned())
    } else {
        None
    };
    proof {
        assert(href@ =~= t@.subrange(a as int, b as int));
    }
    Some((href, label))
}

impl Default for Parser {
    fn default() -> (p: Self)
        ensures
            !p.in_preformatted(),
    {
        Self::new()
    }
}

} // verus!
