//! What the rendered HTML can hold: every `<` in it opens one of the tags
//! Telegram accepts, and a link's address can neither end its attribute nor
//! open a tag.
use vstd::prelude::*;

use crate::markdown::{
    escaped, html_of, lemma_escaped_has_no_markup, state_after, step, trim_end, ends_with_bullet, HtmlState,
    MdEventView, MdTagEnd, MdTagView,
};
use crate::text::{decimal, is_white, lemma_decimal};

verus! {

/// The tags Telegram accepts, all but the opening link tag.
pub open spec fn plain_tags() -> Seq<Seq<char>> {
    seq![
        "<b>"@,
        "</b>"@,
        "<i>"@,
        "</i>"@,
        "<s>"@,
        "</s>"@,
        "<code>"@,
        "</code>"@,
        "<pre>"@,
        "</pre>"@,
        "<blockquote>"@,
        "</blockquote>"@,
        "</a>"@,
    ]
}

/// Whether `t` stands in `s` from index `k` on.
pub open spec fn stands_at(s: Seq<char>, k: int, t: Seq<char>) -> bool {
    0 <= k && k + t.len() <= s.len() && s.subrange(k, k + t.len()) == t
}

/// Whether a character may stand inside a link's `href` value.
pub open spec fn href_char(c: char) -> bool {
    c != '"' && c != '<' && c != '>'
}

/// Whether `<a href="U">` stands from `k` on, with `U` ending before `j`
/// and holding no quote and no angle bracket.
pub open spec fn link_at(s: Seq<char>, k: int, j: int) -> bool {
    &&& k + 9 <= j
    &&& stands_at(s, k, "<a href=\""@)
    &&& stands_at(s, j, "\">"@)
    &&& forall|m: int| k + 9 <= m < j ==> href_char(#[trigger] s[m])
}

/// Whether an accepted tag opens at index `k`.
pub open spec fn tag_at(s: Seq<char>, k: int) -> bool {
    ||| exists|t: int| 0 <= t < plain_tags().len() && stands_at(s, k, #[trigger] plain_tags()[t])
    ||| exists|j: int| #[trigger] link_at(s, k, j)
}

/// Whether every `<` of the text opens a tag that Telegram accepts.
pub open spec fn telegram_safe(s: Seq<char>) -> bool {
    forall|k: int| #![trigger s[k]] 0 <= k < s.len() && s[k] == '<' ==> tag_at(s, k)
}

proof fn lemma_stands_extend(a: Seq<char>, b: Seq<char>, k: int, t: Seq<char>)
    requires
        stands_at(a, k, t),
    ensures
        stands_at(a + b, k, t),
{
    assert((a + b).subrange(k, k + t.len()) =~= a.subrange(k, k + t.len()));
}

proof fn lemma_stands_shift(a: Seq<char>, b: Seq<char>, k: int, t: Seq<char>)
    requires
        stands_at(b, k, t),
    ensures
        stands_at(a + b, a.len() + k, t),
{
    assert((a + b).subrange(a.len() + k, a.len() + k + t.len()) =~= b.subrange(k, k + t.len()));
}

proof fn lemma_tag_extend(a: Seq<char>, b: Seq<char>, k: int)
    requires
        tag_at(a, k),
    ensures
        tag_at(a + b, k),
{
    if exists|t: int| 0 <= t < plain_tags().len() && stands_at(a, k, #[trigger] plain_tags()[t]) {
        let t = choose|t: int| 0 <= t < plain_tags().len() && stands_at(a, k, #[trigger] plain_tags()[t]);
        lemma_stands_extend(a, b, k, plain_tags()[t]);
    } else {
        let j = choose|j: int| #[trigger] link_at(a, k, j);
        lemma_stands_extend(a, b, k, "<a href=\""@);
        lemma_stands_extend(a, b, j, "\">"@);
        assert forall|m: int| k + 9 <= m < j implies href_char(#[trigger] (a + b)[m]) by {
            assert((a + b)[m] == a[m]);
        }
        assert(link_at(a + b, k, j));
    }
}

proof fn lemma_tag_shift(a: Seq<char>, b: Seq<char>, k: int)
    requires
        tag_at(b, k),
    ensures
        tag_at(a + b, a.len() + k),
{
    if exists|t: int| 0 <= t < plain_tags().len() && stands_at(b, k, #[trigger] plain_tags()[t]) {
        let t = choose|t: int| 0 <= t < plain_tags().len() && stands_at(b, k, #[trigger] plain_tags()[t]);
        lemma_stands_shift(a, b, k, plain_tags()[t]);
    } else {
        let j = choose|j: int| #[trigger] link_at(b, k, j);
        lemma_stands_shift(a, b, k, "<a href=\""@);
        lemma_stands_shift(a, b, j, "\">"@);
        assert forall|m: int| a.len() + k + 9 <= m < a.len() + j implies href_char(#[trigger] (a + b)[m]) by {
            assert((a + b)[m] == b[m - a.len()]);
        }
        assert(link_at(a + b, a.len() + k, a.len() + j));
    }
}

/// Safe texts put together stay safe.
pub proof fn lemma_concat_safe(a: Seq<char>, b: Seq<char>)
    requires
        telegram_safe(a),
        telegram_safe(b),
    ensures
        telegram_safe(a + b),
{
    assert forall|k: int| 0 <= k < (a + b).len() && (a + b)[k] == '<' implies tag_at(a + b, k) by {
        if k < a.len() {
            assert(a[k] == '<');
            lemma_tag_extend(a, b, k);
        } else {
            assert(b[k - a.len()] == '<');
            lemma_tag_shift(a, b, k - a.len());
        }
    }
}

/// A text with no `<` is safe.
proof fn lemma_no_angle_safe(s: Seq<char>)
    requires
        forall|k: int| 0 <= k < s.len() ==> s[k] != '<',
    ensures
        telegram_safe(s),
{
}

/// Each accepted tag ends with `>`, and, on its own, is safe.
proof fn lemma_plain_tags()
    ensures
        forall|t: int| 0 <= t < plain_tags().len() ==> (#[trigger] plain_tags()[t]).len() > 0 && plain_tags()[t].last()
            == '>' && telegram_safe(plain_tags()[t]),
{
    reveal_strlit("<b>");
    reveal_strlit("</b>");
    reveal_strlit("<i>");
    reveal_strlit("</i>");
    reveal_strlit("<s>");
    reveal_strlit("</s>");
    reveal_strlit("<code>");
    reveal_strlit("</code>");
    reveal_strlit("<pre>");
    reveal_strlit("</pre>");
    reveal_strlit("<blockquote>");
    reveal_strlit("</blockquote>");
    reveal_strlit("</a>");
    assert forall|t: int| 0 <= t < plain_tags().len() implies (#[trigger] plain_tags()[t]).len() > 0
        && plain_tags()[t].last() == '>' && telegram_safe(plain_tags()[t]) by {
        let s = plain_tags()[t];
        assert(s.subrange(0, s.len() as int) =~= s);
        assert(stands_at(s, 0, plain_tags()[t]));
        assert(tag_at(s, 0));
    }
}

/// The accepted tag at index `t` of the list is safe.
proof fn lemma_tag_safe(t: int)
    requires
        0 <= t < plain_tags().len(),
    ensures
        telegram_safe(plain_tags()[t]),
{
    lemma_plain_tags();
}

/// An opening link tag around an escaped address is safe.
proof fn lemma_link_safe(dest: Seq<char>)
    ensures
        telegram_safe("<a href=\""@ + escaped(dest, false) + "\">"@),
{
    reveal_strlit("<a href=\"");
    reveal_strlit("\">");
    lemma_escaped_has_no_markup(dest, false);
    let e = escaped(dest, false);
    let s = "<a href=\""@ + e + "\">"@;
    let j: int = 9 + e.len() as int;
    assert(s.subrange(0, 9) =~= "<a href=\""@);
    assert(s.subrange(j, j + 2) =~= "\">"@);
    assert forall|m: int| 9 <= m < j implies href_char(#[trigger] s[m]) by {
        assert(s[m] == e[m - 9]);
    }
    assert(link_at(s, 0, j));
    assert forall|k: int| 0 <= k < s.len() && s[k] == '<' implies tag_at(s, k) by {
        if k == 0 {
        } else if k < 9 {
            assert(s[k] == "<a href=\""@[k]);
        } else if k < j {
            assert(s[k] == e[k - 9]);
        } else {
            assert(s[k] == "\">"@[k - j]);
        }
    }
}

/// A cut that drops no `>` keeps every tag before it whole.
proof fn lemma_tag_truncate(s: Seq<char>, k: int, n: int)
    requires
        tag_at(s, k),
        0 <= k < n <= s.len(),
        forall|m: int| n <= m < s.len() ==> s[m] != '>',
    ensures
        tag_at(s.take(n), k),
{
    if exists|t: int| 0 <= t < plain_tags().len() && stands_at(s, k, #[trigger] plain_tags()[t]) {
        let t = choose|t: int| 0 <= t < plain_tags().len() && stands_at(s, k, #[trigger] plain_tags()[t]);
        let tag = plain_tags()[t];
        lemma_plain_tags();
        assert(s[k + tag.len() - 1] == s.subrange(k, k + tag.len())[tag.len() - 1]);
        assert(k + tag.len() <= n);
        assert(s.take(n).subrange(k, k + tag.len()) =~= s.subrange(k, k + tag.len()));
        assert(stands_at(s.take(n), k, plain_tags()[t]));
    } else {
        reveal_strlit("\">");
        reveal_strlit("<a href=\"");
        let j = choose|j: int| #[trigger] link_at(s, k, j);
        assert(s[j + 1] == s.subrange(j, j + 2)[1]);
        assert(j + 2 <= n);
        assert(s.take(n).subrange(k, k + 9) =~= s.subrange(k, k + 9));
        assert(s.take(n).subrange(j, j + 2) =~= s.subrange(j, j + 2));
        assert forall|m: int| k + 9 <= m < j implies href_char(#[trigger] s.take(n)[m]) by {
            assert(s.take(n)[m] == s[m]);
        }
        assert(link_at(s.take(n), k, j));
    }
}

/// Cutting off a tail that holds no `>` keeps a safe text safe.
proof fn lemma_truncate_safe(s: Seq<char>, n: int)
    requires
        telegram_safe(s),
        0 <= n <= s.len(),
        forall|m: int| n <= m < s.len() ==> s[m] != '>',
    ensures
        telegram_safe(s.take(n)),
{
    assert forall|k: int| 0 <= k < s.take(n).len() && s.take(n)[k] == '<' implies tag_at(s.take(n), k) by {
        assert(s[k] == '<');
        lemma_tag_truncate(s, k, n);
    }
}

/// Trimming trailing white space cuts off a tail of white space.
proof fn lemma_trim_end_cut(s: Seq<char>)
    ensures
        trim_end(s).len() <= s.len(),
        trim_end(s) == s.take(trim_end(s).len() as int),
        forall|m: int| trim_end(s).len() <= m < s.len() ==> is_white(#[trigger] s[m]),
    decreases s.len(),
{
    if s.len() > 0 && is_white(s.last()) {
        lemma_trim_end_cut(s.drop_last());
        assert(s.drop_last().take(trim_end(s).len() as int) =~= s.take(trim_end(s).len() as int));
        assert forall|m: int| trim_end(s).len() <= m < s.len() implies is_white(#[trigger] s[m]) by {
            if m < s.len() - 1 {
                assert(s.drop_last()[m] == s[m]);
            }
        }
    } else {
        assert(s.take(s.len() as int) =~= s);
    }
}

/// A safe text stays safe when its trailing white space is trimmed.
proof fn lemma_trim_end_safe(s: Seq<char>)
    requires
        telegram_safe(s),
    ensures
        telegram_safe(trim_end(s)),
{
    lemma_trim_end_cut(s);
    lemma_truncate_safe(s, trim_end(s).len() as int);
}

/// Appending a text with no `<` keeps a safe text safe.
proof fn lemma_append_plain(a: Seq<char>, b: Seq<char>)
    requires
        telegram_safe(a),
        forall|k: int| 0 <= k < b.len() ==> b[k] != '<',
    ensures
        telegram_safe(a + b),
{
    lemma_no_angle_safe(b);
    lemma_concat_safe(a, b);
}

/// Appending the accepted tag at index `t` keeps a safe text safe.
proof fn lemma_append_tag(a: Seq<char>, t: int)
    requires
        telegram_safe(a),
        0 <= t < plain_tags().len(),
    ensures
        telegram_safe(a + plain_tags()[t]),
{
    lemma_tag_safe(t);
    lemma_concat_safe(a, plain_tags()[t]);
}

/// A tag that opens writes only accepted tags and escaped text.
proof fn lemma_open_tag_safe(st: HtmlState, tag: MdTagView)
    requires
        telegram_safe(st.out),
    ensures
        telegram_safe(step(st, MdEventView::Start(tag)).out),
{
    let out = st.out;
    reveal_strlit("<b>");
    reveal_strlit("<i>");
    reveal_strlit("<s>");
    reveal_strlit("<pre>");
    reveal_strlit("<code>");
    reveal_strlit("<pre><code>");
    reveal_strlit("<blockquote>");
    reveal_strlit(". ");
    reveal_strlit("• ");
    reveal_strlit("| ");
    match tag {
        MdTagView::Heading => lemma_append_tag(out, 0),
        MdTagView::Strong => lemma_append_tag(out, 0),
        MdTagView::Emphasis => lemma_append_tag(out, 2),
        MdTagView::Strikethrough => lemma_append_tag(out, 4),
        MdTagView::BlockQuote => lemma_append_tag(out, 10),
        MdTagView::Table => lemma_append_tag(out, 8),
        MdTagView::CodeBlock => {
            lemma_append_tag(out, 8);
            lemma_append_tag(out + "<pre>"@, 6);
            assert(out + "<pre>"@ + "<code>"@ =~= out + "<pre><code>"@);
        },
        MdTagView::Item => {
            if st.lists.len() > 0 && st.lists.last() is Some {
                let n = st.lists.last()->0;
                lemma_decimal(n as nat);
                assert forall|k: int| 0 <= k < decimal(n as nat).len() implies decimal(n as nat)[k] != '<' by {
                    assert(crate::text::is_digit(decimal(n as nat)[k]));
                }
                lemma_append_plain(out, decimal(n as nat));
                lemma_append_plain(out + decimal(n as nat), ". "@);
            } else {
                lemma_append_plain(out, "• "@);
            }
        },
        MdTagView::TableCell => lemma_append_plain(out, "| "@),
        MdTagView::Link(dest, _) => {
            lemma_link_safe(dest);
            lemma_concat_safe(out, "<a href=\""@ + escaped(dest, false) + "\">"@);
        },
        _ => {},
    }
}

/// A tag that closes writes only accepted tags and line breaks.
proof fn lemma_close_tag_safe(st: HtmlState, tag: MdTagEnd)
    requires
        telegram_safe(st.out),
    ensures
        telegram_safe(step(st, MdEventView::End(tag)).out),
{
    let out = st.out;
    reveal_strlit("\n");
    reveal_strlit(" ");
    reveal_strlit("|\n");
    reveal_strlit("</b>");
    reveal_strlit("</b>\n");
    reveal_strlit("</i>");
    reveal_strlit("</s>");
    reveal_strlit("</a>");
    reveal_strlit("</pre>");
    reveal_strlit("</pre>\n");
    reveal_strlit("</code>");
    reveal_strlit("</code></pre>\n");
    reveal_strlit("</blockquote>");
    reveal_strlit("</blockquote>\n");
    match tag {
        MdTagEnd::Paragraph => lemma_append_plain(out, "\n"@),
        MdTagEnd::Item => lemma_append_plain(out, "\n"@),
        MdTagEnd::TableHead => lemma_append_plain(out, "|\n"@),
        MdTagEnd::TableRow => lemma_append_plain(out, "|\n"@),
        MdTagEnd::TableCell => lemma_append_plain(out, " "@),
        MdTagEnd::Emphasis => lemma_append_tag(out, 3),
        MdTagEnd::Strong => lemma_append_tag(out, 1),
        MdTagEnd::Strikethrough => lemma_append_tag(out, 5),
        MdTagEnd::Link => lemma_append_tag(out, 12),
        MdTagEnd::Heading => {
            lemma_append_tag(out, 1);
            lemma_append_plain(out + "</b>"@, "\n"@);
            assert(out + "</b>"@ + "\n"@ =~= out + "</b>\n"@);
        },
        MdTagEnd::BlockQuote => {
            lemma_append_tag(out, 11);
            lemma_append_plain(out + "</blockquote>"@, "\n"@);
            assert(out + "</blockquote>"@ + "\n"@ =~= out + "</blockquote>\n"@);
        },
        MdTagEnd::Table => {
            lemma_append_tag(out, 9);
            lemma_append_plain(out + "</pre>"@, "\n"@);
            assert(out + "</pre>"@ + "\n"@ =~= out + "</pre>\n"@);
        },
        MdTagEnd::CodeBlock => {
            lemma_append_tag(out, 7);
            lemma_append_tag(out + "</code>"@, 9);
            lemma_append_plain(out + "</code>"@ + "</pre>"@, "\n"@);
            assert(out + "</code>"@ + "</pre>"@ + "\n"@ =~= out + "</code></pre>\n"@);
        },
        _ => {},
    }
}

/// Every event keeps the written HTML safe.
pub proof fn lemma_step_safe(st: HtmlState, e: MdEventView)
    requires
        telegram_safe(st.out),
    ensures
        telegram_safe(step(st, e).out),
{
    let out = st.out;
    reveal_strlit("\n");
    reveal_strlit("—\n");
    reveal_strlit("☑ ");
    reveal_strlit("☐ ");
    reveal_strlit("<code>");
    reveal_strlit("</code>");
    match e {
        MdEventView::Start(tag) => lemma_open_tag_safe(st, tag),
        MdEventView::End(tag) => lemma_close_tag_safe(st, tag),
        MdEventView::Text(text) => {
            lemma_escaped_has_no_markup(text, st.in_pre);
            lemma_append_plain(out, escaped(text, st.in_pre));
        },
        MdEventView::Code(code) => {
            lemma_escaped_has_no_markup(code, false);
            lemma_append_tag(out, 6);
            lemma_append_plain(out + "<code>"@, escaped(code, false));
            lemma_append_tag(out + "<code>"@ + escaped(code, false), 7);
            assert(out + "<code>"@ + escaped(code, false) + "</code>"@ =~= out + ("<code>"@ + escaped(code, false)
                + "</code>"@));
        },
        MdEventView::SoftBreak => lemma_append_plain(out, "\n"@),
        MdEventView::HardBreak => lemma_append_plain(out, "\n"@),
        MdEventView::Rule => lemma_append_plain(out, "—\n"@),
        MdEventView::TaskListMarker(checked) => {
            let base = if ends_with_bullet(out) { out.take(out.len() - 2) } else { out };
            if ends_with_bullet(out) {
                lemma_truncate_safe(out, out.len() - 2);
            }
            if checked {
                lemma_append_plain(base, "☑ "@);
            } else {
                lemma_append_plain(base, "☐ "@);
            }
        },
        _ => {},
    }
}

/// The HTML written after any sequence of events is safe.
pub proof fn lemma_state_safe(events: Seq<MdEventView>)
    ensures
        telegram_safe(state_after(events).out),
    decreases events.len(),
{
    if events.len() > 0 {
        lemma_state_safe(events.drop_last());
        lemma_step_safe(state_after(events.drop_last()), events.last());
    }
}

/// Whatever the Markdown, the HTML it is rendered to is safe for Telegram:
/// every `<` in it opens `<b>`, `</b>`, `<i>`, `</i>`, `<s>`, `</s>`,
/// `<code>`, `</code>`, `<pre>`, `</pre>`, `<blockquote>`, `</blockquote>`,
/// `</a>`, or `<a href="U">` with an address `U` free of quotes and angle
/// brackets. Raw HTML in the Markdown never reaches the output.
pub proof fn law_rendered_html_is_telegram_safe(events: Seq<MdEventView>)
    ensures
        telegram_safe(html_of(events)),
{
    lemma_state_safe(events);
    lemma_trim_end_safe(state_after(events).out);
}

} // verus!
