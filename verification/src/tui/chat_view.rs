use vstd::prelude::*;
use vstd::string::*;
use vstd::utf8::encode_utf8;

use crate::text::{chars_of, concat2, substring};

verus! {

/// The author of a message shown in the chat pane.
#[derive(Debug, Clone, Copy, PartialEq, Eq, Structural)]
pub enum MessageRole {
    User,
    Assistant,
    System,
}

/// A message shown in the chat pane.
#[derive(Debug)]
pub struct ChatEntry {
    pub role: MessageRole,
    pub content: String,
}

/// How a line of the chat pane is drawn: the first line of a message, after the role's
/// prefix; a further line of a message; or a blank line or rule between messages.
#[derive(Debug, Clone, Copy, PartialEq, Eq, Structural)]
pub enum LineKind {
    First(MessageRole),
    Continued,
    Plain,
}

/// A line of the chat pane; for a first line, `text` is the content without the prefix.
#[derive(Debug)]
pub struct ChatLine {
    pub kind: LineKind,
    pub text: String,
}

/// A line as its kind and text.
pub open spec fn line_view(l: ChatLine) -> (LineKind, Seq<char>) {
    (l.kind, l.text@)
}

/// The lines as kinds and texts.
pub open spec fn lines_view(ls: Seq<ChatLine>) -> Seq<(LineKind, Seq<char>)> {
    ls.map_values(|l: ChatLine| line_view(l))
}

/// The prefix shown before a message of each role.
pub open spec fn role_prefix_spec(role: MessageRole) -> Seq<char> {
    match role {
        MessageRole::User => "You: "@,
        MessageRole::Assistant => "Assistant: "@,
        MessageRole::System => ""@,
    }
}

/// The prefix shown before a message of `role` (see `role_prefix_spec`).
pub fn role_prefix(role: MessageRole) -> (r: String)
    ensures
        r@ == role_prefix_spec(role),
{
    match role {
        MessageRole::User => "You: ".to_string(),
        MessageRole::Assistant => "Assistant: ".to_string(),
        MessageRole::System => "".to_string(),
    }
}

/// The pieces of `s` between line feeds, the current piece starting as `cur`.
pub open spec fn split_from(s: Seq<char>, cur: Seq<char>) -> Seq<Seq<char>>
    decreases s.len(),
{
    if s.len() == 0 {
        seq![cur]
    } else if s[0] == '\n' {
        seq![cur] + split_from(s.drop_first(), Seq::empty())
    } else {
        split_from(s.drop_first(), cur.push(s[0]))
    }
}

/// The pieces of `s` between line feeds, as `str::split('\n')` yields them.
pub open spec fn split_lines_spec(s: Seq<char>) -> Seq<Seq<char>> {
    split_from(s, Seq::empty())
}

/// `pieces` joined, with a line feed between each two.
pub open spec fn joined_lines(pieces: Seq<Seq<char>>) -> Seq<char>
    decreases pieces.len(),
{
    if pieces.len() == 0 {
        Seq::empty()
    } else if pieces.len() == 1 {
        pieces[0]
    } else {
        pieces[0] + seq!['\n'] + joined_lines(pieces.drop_first())
    }
}

proof fn lemma_split_from_joins(s: Seq<char>, cur: Seq<char>)
    requires
        !cur.contains('\n'),
    ensures
        split_from(s, cur).len() >= 1,
        joined_lines(split_from(s, cur)) == cur + s,
        forall|k: int| 0 <= k < split_from(s, cur).len() ==> !(#[trigger] split_from(s, cur)[k]).contains('\n'),
    decreases s.len(),
{
    if s.len() == 0 {
        assert(cur + s == cur);
    } else if s[0] == '\n' {
        let rest = split_from(s.drop_first(), Seq::empty());
        lemma_split_from_joins(s.drop_first(), Seq::empty());
        let all = seq![cur] + rest;
        assert(all.drop_first() == rest);
        assert(all[0] == cur);
        assert(Seq::<char>::empty() + s.drop_first() == s.drop_first());
        assert(cur + seq!['\n'] + s.drop_first() == cur + s);
        assert forall|k: int| 0 <= k < all.len() implies !(#[trigger] all[k]).contains('\n') by {
            if k > 0 {
                assert(all[k] == rest[k - 1]);
            }
        }
    } else {
        let c2 = cur.push(s[0]);
        assert(!c2.contains('\n')) by {
            if c2.contains('\n') {
                let j = choose|j: int| 0 <= j < c2.len() && c2[j] == '\n';
                assert(j < cur.len());
                assert(cur[j] == '\n');
            }
        }
        lemma_split_from_joins(s.drop_first(), c2);
        assert(c2 + s.drop_first() == cur + s);
    }
}

/// Splitting at line feeds gives at least one piece, no piece holds a line feed, and
/// joining the pieces back with line feeds gives the text again.
pub proof fn lemma_split_lines_rejoin(s: Seq<char>)
    ensures
        split_lines_spec(s).len() >= 1,
        joined_lines(split_lines_spec(s)) == s,
        forall|k: int| 0 <= k < split_lines_spec(s).len() ==> !(#[trigger] split_lines_spec(s)[k]).contains('\n'),
{
    lemma_split_from_joins(s, Seq::empty());
    assert(Seq::<char>::empty() + s == s);
}

/// The pieces of `s` between line feeds (see `split_lines_spec`).
pub fn split_lines(s: &str) -> (r: Vec<String>)
    ensures
        r@.map_values(|p: String| p@) == split_lines_spec(s@),
{
    let cs = chars_of(s);
    let n = cs.len();
    let mut pieces: Vec<String> = Vec::new();
    let mut start: usize = 0;
    let mut i: usize = 0;
    assert(s@.skip(0) == s@);
    assert(s@.subrange(0, 0) == Seq::<char>::empty());
    assert(pieces@.map_values(|p: String| p@) == Seq::<Seq<char>>::empty());
    while i < n
        invariant
            n == s@.len(),
            cs@ == s@,
            start <= i <= n,
            pieces@.map_values(|p: String| p@) + split_from(s@.skip(i as int), s@.subrange(start as int, i as int))
                == split_lines_spec(s@),
        decreases n - i,
    {
        let ghost ps = pieces@.map_values(|p: String| p@);
        let ghost cur = s@.subrange(start as int, i as int);
        assert(s@.skip(i as int).drop_first() == s@.skip(i + 1));
        assert(s@.skip(i as int)[0] == s@[i as int]);
        if cs[i] == '\n' {
            let piece = substring(s, start, i);
            pieces.push(piece);
            assert(pieces@.map_values(|p: String| p@) == ps.push(cur));
            assert(s@.subrange((i + 1) as int, (i + 1) as int) == Seq::<char>::empty());
            assert(ps + (seq![cur] + split_from(s@.skip(i + 1), Seq::empty())) == ps.push(cur) + split_from(
                s@.skip(i + 1),
                Seq::empty(),
            ));
            start = i + 1;
        } else {
            assert(cur.push(s@[i as int]) == s@.subrange(start as int, i + 1));
        }
        i = i + 1;
    }
    let ghost ps = pieces@.map_values(|p: String| p@);
    let last = substring(s, start, n);
    pieces.push(last);
    assert(s@.skip(n as int).len() == 0);
    assert(pieces@.map_values(|p: String| p@) == ps.push(last@));
    assert(ps + seq![last@] == ps.push(last@));
    pieces
}

/// A rule of `width` dashes.
pub open spec fn rule_spec(width: nat) -> Seq<char> {
    Seq::new(width, |k: int| '-')
}

/// A rule of `width` dashes (see `rule_spec`).
pub fn rule(width: usize) -> (r: String)
    ensures
        r@ == rule_spec(width as nat),
{
    let mut r = String::new();
    let mut i: usize = 0;
    while i < width
        invariant
            i <= width,
            r@ == rule_spec(i as nat),
        decreases width - i,
    {
        r.append("-");
        proof {
            reveal_strlit("-");
        }
        assert(r@ == rule_spec((i + 1) as nat));
        i = i + 1;
    }
    r
}

/// The lines that show one message: its first line after the prefix, its further lines,
/// then a blank line and a rule as wide as the pane's inside.
pub open spec fn entry_lines_spec(role: MessageRole, content: Seq<char>, width: nat) -> Seq<(LineKind, Seq<char>)> {
    let pieces = split_lines_spec(content);
    Seq::new(
        pieces.len(),
        |k: int|
            if k == 0 {
                (LineKind::First(role), pieces[k])
            } else {
                (LineKind::Continued, pieces[k])
            },
    ) + seq![(LineKind::Plain, Seq::<char>::empty()), (LineKind::Plain, rule_spec(width))]
}

/// The lines that show the messages, in order.
pub open spec fn chat_lines_spec(entries: Seq<ChatEntry>, width: nat) -> Seq<(LineKind, Seq<char>)>
    decreases entries.len(),
{
    if entries.len() == 0 {
        Seq::empty()
    } else {
        chat_lines_spec(entries.drop_last(), width) + entry_lines_spec(
            entries.last().role,
            entries.last().content@,
            width,
        )
    }
}

/// The text a line shows: the role's prefix and the text for a first line, else the text.
pub open spec fn shown_text(l: (LineKind, Seq<char>)) -> Seq<char> {
    match l.0 {
        LineKind::First(role) => role_prefix_spec(role) + l.1,
        _ => l.1,
    }
}

/// The number of bytes of the text a line shows.
pub open spec fn shown_len(l: (LineKind, Seq<char>)) -> nat {
    encode_utf8(shown_text(l)).len()
}

/// The rows a line of `len` bytes takes when wrapped at `width`: one for an empty line,
/// else `len / width` rounded up.
pub open spec fn rows_spec(len: nat, width: nat) -> nat {
    if len == 0 {
        1
    } else {
        ((len + width - 1) / width as int) as nat
    }
}

/// The rows that the lines take, added up in `u16` with saturation (each line's rows cut
/// to `u16`).
pub open spec fn visual_rows_spec(lines: Seq<(LineKind, Seq<char>)>, width: nat) -> u16
    decreases lines.len(),
{
    if lines.len() == 0 {
        0
    } else {
        visual_rows_spec(lines.drop_last(), width).saturating_add(
            rows_spec(shown_len(lines.last()), width) as u16,
        )
    }
}

/// Whether the rows of every line can be computed: the pane is wide enough when some line
/// is not empty, and no count overflows.
pub open spec fn layout_computable(lines: Seq<(LineKind, Seq<char>)>, width: nat) -> bool {
    forall|k: int|
        0 <= k < lines.len() && shown_len(#[trigger] lines[k]) > 0 ==> width > 0 && shown_len(lines[k])
            + width <= usize::MAX
}

/// The first row to show so that the end of the chat is in view, moved up by
/// `scroll_offset` rows.
pub open spec fn scroll_spec(total_rows: u16, visible_height: u16, scroll_offset: u16) -> u16 {
    total_rows.saturating_sub(visible_height).saturating_sub(scroll_offset)
}

/// The lines of the chat pane, and the row it is scrolled to, for a pane of `area_width`
/// by `area_height` cells (borders included) scrolled up by `scroll_offset` rows.
pub fn chat_layout(entries: &Vec<ChatEntry>, area_width: u16, area_height: u16, scroll_offset: u16) -> (r: (Vec<ChatLine>, u16))
    requires
        layout_computable(
            chat_lines_spec(entries@, area_width.saturating_sub(2) as nat),
            area_width.saturating_sub(2) as nat,
        ),
    ensures
        lines_view(r.0@) == chat_lines_spec(entries@, area_width.saturating_sub(2) as nat),
        r.1 == scroll_spec(
            visual_rows_spec(
                chat_lines_spec(entries@, area_width.saturating_sub(2) as nat),
                area_width.saturating_sub(2) as nat,
            ),
            area_height.saturating_sub(2),
            scroll_offset,
        ),
{
    let width: usize = area_width.saturating_sub(2) as usize;
    let ghost w = width as nat;
    let mut lines: Vec<ChatLine> = Vec::new();
    let mut i: usize = 0;
    while i < entries.len()
        invariant
            i <= entries@.len(),
            width as nat == w,
            w == area_width.saturating_sub(2) as nat,
            lines_view(lines@) == chat_lines_spec(entries@.take(i as int), w),
        decreases entries@.len() - i,
    {
        let ghost before = lines_view(lines@);
        let role = entries[i].role;
        let pieces = split_lines(entries[i].content.as_str());
        let ghost ps = pieces@.map_values(|p: String| p@);
        let mut k: usize = 0;
        while k < pieces.len()
            invariant
                k <= pieces@.len(),
                ps == pieces@.map_values(|p: String| p@),
                lines_view(lines@) == before + Seq::new(
                    k as nat,
                    |j: int|
                        if j == 0 {
                            (LineKind::First(role), ps[j])
                        } else {
                            (LineKind::Continued, ps[j])
                        },
                ),
            decreases pieces@.len() - k,
        {
            let kind = if k == 0 { LineKind::First(role) } else { LineKind::Continued };
            let ghost prev = lines@;
            lines.push(ChatLine { kind, text: pieces[k].clone() });
            assert(lines@ == prev.push(ChatLine { kind, text: pieces@[k as int] }));
            assert(lines_view(lines@) =~= lines_view(prev).push((kind, ps[k as int])));
            assert(lines_view(lines@) =~= before + Seq::new(
                (k + 1) as nat,
                |j: int|
                    if j == 0 {
                        (LineKind::First(role), ps[j])
                    } else {
                        (LineKind::Continued, ps[j])
                    },
            ));
            k = k + 1;
        }
        let ghost mid = lines@;
        let blank = ChatLine { kind: LineKind::Plain, text: String::new() };
        let dashes = ChatLine { kind: LineKind::Plain, text: rule(width) };
        let ghost bv = line_view(blank);
        let ghost dv = line_view(dashes);
        lines.push(blank);
        lines.push(dashes);
        proof {
            assert(lines@ == mid.push(blank).push(dashes));
            assert(lines_view(lines@) =~= lines_view(mid).push(bv).push(dv));
            assert(bv == (LineKind::Plain, Seq::<char>::empty()));
            assert(entries@.take(i + 1).drop_last() == entries@.take(i as int));
            assert(entries@.take(i + 1).last() == entries@[i as int]);
            assert(lines_view(lines@) =~= lines_view(mid) + seq![(LineKind::Plain, Seq::<char>::empty()), (LineKind::Plain, rule_spec(w))]);
            assert(lines_view(lines@) =~= before + entry_lines_spec(role, entries@[i as int].content@, w));
        }
        i = i + 1;
    }
    assert(entries@.take(entries@.len() as int) == entries@);
    let ghost all = lines_view(lines@);
    let mut total: u16 = 0;
    let mut j: usize = 0;
    while j < lines.len()
        invariant
            j <= lines@.len(),
            width as nat == w,
            all == lines_view(lines@),
            layout_computable(all, w),
            total == visual_rows_spec(all.take(j as int), w),
        decreases lines@.len() - j,
    {
        let shown = match lines[j].kind {
            LineKind::First(role) => {
                let p = role_prefix(role);
                concat2(p.as_str(), lines[j].text.as_str())
            },
            _ => lines[j].text.clone(),
        };
        let len = shown.as_str().len();
        assert(all[j as int] == line_view(lines@[j as int]));
        assert(shown@ == shown_text(all[j as int]));
        let wrapped: usize = if len == 0 {
            1
        } else {
            assert(shown_len(all[j as int]) > 0 ==> w > 0 && shown_len(all[j as int]) + w <= usize::MAX);
            assert(len == (shown_len(all[j as int]) as usize));
            assert(shown_len(all[j as int]) > 0);
            assert(len as nat == shown_len(all[j as int]));
            (len + width - 1) / width
        };
        total = total.saturating_add(wrapped as u16);
        proof {
            assert(all.take(j + 1).drop_last() == all.take(j as int));
            assert(all.take(j + 1).last() == all[j as int]);
        }
        j = j + 1;
    }
    assert(all.take(lines@.len() as int) == all);
    let visible_height = area_height.saturating_sub(2);
    let max_scroll = total.saturating_sub(visible_height);
    let scroll = max_scroll.saturating_sub(scroll_offset);
    (lines, scroll)
}

} // verus!
