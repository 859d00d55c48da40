//! GitHub-flavoured Markdown (as ChatGPT writes it) turned into the subset of
//! HTML that Telegram accepts.
//!
//! Telegram is not a Markdown renderer, so constructs it lacks are degraded:
//! headings become bold text, code blocks become `<pre>` blocks, tables
//! become `<pre>` blocks with one line per row and `|` between cells, a
//! rule becomes an em-dash line, and raw HTML, footnotes and math are dropped.
//! The Markdown itself is read by `pulldown_cmark`; this module walks the
//! events it yields and writes the HTML.
use vstd::prelude::*;

use pulldown_cmark::{Event, Options, Parser, Tag, TagEnd};

use crate::text::{chars_of, decimal, is_white, is_white_exec, push_decimal, string_of};

verus! {

/// A tag that opens. Of the parser's tags, only a list's first number and a
/// link's destination and title are carried.
pub enum MdTag {
    Paragraph,
    Heading,
    BlockQuote,
    CodeBlock,
    HtmlBlock,
    /// A list: the number of its first item when it is ordered.
    List(Option<u64>),
    Item,
    FootnoteDefinition,
    DefinitionList,
    DefinitionListTitle,
    DefinitionListDefinition,
    Table,
    TableHead,
    TableRow,
    TableCell,
    MetadataBlock,
    Emphasis,
    Strong,
    Strikethrough,
    Superscript,
    Subscript,
    /// A link: its destination and title.
    Link(String, String),
    Image,
}

/// A tag that closes.
#[derive(Debug, Clone, Copy, PartialEq, Eq, Structural)]
pub enum MdTagEnd {
    Paragraph,
    Heading,
    BlockQuote,
    CodeBlock,
    HtmlBlock,
    List,
    Item,
    FootnoteDefinition,
    DefinitionList,
    DefinitionListTitle,
    DefinitionListDefinition,
    Table,
    TableHead,
    TableRow,
    TableCell,
    MetadataBlock,
    Emphasis,
    Strong,
    Strikethrough,
    Superscript,
    Subscript,
    Link,
    Image,
}

/// One event of a parsed Markdown document.
pub enum MdEvent {
    Start(MdTag),
    End(MdTagEnd),
    Text(String),
    /// Inline code.
    Code(String),
    InlineMath,
    DisplayMath,
    /// A piece of a raw HTML block.
    Html,
    InlineHtml,
    FootnoteReference,
    SoftBreak,
    HardBreak,
    /// A horizontal rule.
    Rule,
    /// A task-list checkbox: whether it is ticked.
    TaskListMarker(bool),
}

/// The kind of an event, without its contents.
#[derive(Debug, Clone, Copy, PartialEq, Eq, Structural)]
pub enum MdKind {
    Start,
    End,
    Text,
    Code,
    InlineMath,
    DisplayMath,
    Html,
    InlineHtml,
    FootnoteReference,
    SoftBreak,
    HardBreak,
    Rule,
    TaskListMarker,
}

/// An opening tag seen as a mathematical value.
pub enum MdTagView {
    Paragraph,
    Heading,
    BlockQuote,
    CodeBlock,
    HtmlBlock,
    List(Option<u64>),
    Item,
    FootnoteDefinition,
    DefinitionList,
    DefinitionListTitle,
    DefinitionListDefinition,
    Table,
    TableHead,
    TableRow,
    TableCell,
    MetadataBlock,
    Emphasis,
    Strong,
    Strikethrough,
    Superscript,
    Subscript,
    Link(Seq<char>, Seq<char>),
    Image,
}

/// An event seen as a mathematical value.
pub enum MdEventView {
    Start(MdTagView),
    End(MdTagEnd),
    Text(Seq<char>),
    Code(Seq<char>),
    InlineMath,
    DisplayMath,
    Html,
    InlineHtml,
    FootnoteReference,
    SoftBreak,
    HardBreak,
    Rule,
    TaskListMarker(bool),
}

impl View for MdTag {
    type V = MdTagView;

    open spec fn view(&self) -> MdTagView {
        match self {
            MdTag::Paragraph => MdTagView::Paragraph,
            MdTag::Heading => MdTagView::Heading,
            MdTag::BlockQuote => MdTagView::BlockQuote,
            MdTag::CodeBlock => MdTagView::CodeBlock,
            MdTag::HtmlBlock => MdTagView::HtmlBlock,
            MdTag::List(start) => MdTagView::List(*start),
            MdTag::Item => MdTagView::Item,
            MdTag::FootnoteDefinition => MdTagView::FootnoteDefinition,
            MdTag::DefinitionList => MdTagView::DefinitionList,
            MdTag::DefinitionListTitle => MdTagView::DefinitionListTitle,
            MdTag::DefinitionListDefinition => MdTagView::DefinitionListDefinition,
            MdTag::Table => MdTagView::Table,
            MdTag::TableHead => MdTagView::TableHead,
            MdTag::TableRow => MdTagView::TableRow,
            MdTag::TableCell => MdTagView::TableCell,
            MdTag::MetadataBlock => MdTagView::MetadataBlock,
            MdTag::Emphasis => MdTagView::Emphasis,
            MdTag::Strong => MdTagView::Strong,
            MdTag::Strikethrough => MdTagView::Strikethrough,
            MdTag::Superscript => MdTagView::Superscript,
            MdTag::Subscript => MdTagView::Subscript,
            MdTag::Link(dest, title) => MdTagView::Link(dest@, title@),
            MdTag::Image => MdTagView::Image,
        }
    }
}

impl View for MdEvent {
    type V = MdEventView;

    open spec fn view(&self) -> MdEventView {
        match self {
            MdEvent::Start(tag) => MdEventView::Start(tag@),
            MdEvent::End(tag) => MdEventView::End(*tag),
            MdEvent::Text(text) => MdEventView::Text(text@),
            MdEvent::Code(code) => MdEventView::Code(code@),
            MdEvent::InlineMath => MdEventView::InlineMath,
            MdEvent::DisplayMath => MdEventView::DisplayMath,
            MdEvent::Html => MdEventView::Html,
            MdEvent::InlineHtml => MdEventView::InlineHtml,
            MdEvent::FootnoteReference => MdEventView::FootnoteReference,
            MdEvent::SoftBreak => MdEventView::SoftBreak,
            MdEvent::HardBreak => MdEventView::HardBreak,
            MdEvent::Rule => MdEventView::Rule,
            MdEvent::TaskListMarker(checked) => MdEventView::TaskListMarker(*checked),
        }
    }
}

/// The views of a sequence of events.
pub open spec fn event_views(events: Seq<MdEvent>) -> Seq<MdEventView> {
    events.map_values(|e: MdEvent| e@)
}

/// The kind of an event.
pub open spec fn kind_of(e: MdEventView) -> MdKind {
    match e {
        MdEventView::Start(_) => MdKind::Start,
        MdEventView::End(_) => MdKind::End,
        MdEventView::Text(_) => MdKind::Text,
        MdEventView::Code(_) => MdKind::Code,
        MdEventView::InlineMath => MdKind::InlineMath,
        MdEventView::DisplayMath => MdKind::DisplayMath,
        MdEventView::Html => MdKind::Html,
        MdEventView::InlineHtml => MdKind::InlineHtml,
        MdEventView::FootnoteReference => MdKind::FootnoteReference,
        MdEventView::SoftBreak => MdKind::SoftBreak,
        MdEventView::HardBreak => MdKind::HardBreak,
        MdEventView::Rule => MdKind::Rule,
        MdEventView::TaskListMarker(_) => MdKind::TaskListMarker,
    }
}

// ---------------------------------------------------------------------------
// What the output is
// ---------------------------------------------------------------------------

/// A character made safe for Telegram HTML. `&`, `<` and `>` are always
/// escaped; `"` only outside `<pre>`, since quotes matter only inside
/// attribute values.
pub open spec fn escape_char(c: char, in_pre: bool) -> Seq<char> {
    if c == '&' {
        "&amp;"@
    } else if c == '<' {
        "&lt;"@
    } else if c == '>' {
        "&gt;"@
    } else if c == '"' && !in_pre {
        "&quot;"@
    } else {
        seq![c]
    }
}

/// A text made safe for Telegram HTML, character by character.
pub open spec fn escaped(s: Seq<char>, in_pre: bool) -> Seq<char>
    decreases s.len(),
{
    if s.len() == 0 {
        Seq::empty()
    } else {
        escaped(s.drop_last(), in_pre) + escape_char(s.last(), in_pre)
    }
}

/// Escaped text holds no `<` or `>`, and outside `<pre>` no `"`: it cannot
/// open or close a tag, nor end an attribute value.
pub proof fn lemma_escaped_has_no_markup(s: Seq<char>, in_pre: bool)
    ensures
        forall|k: int| 0 <= k < escaped(s, in_pre).len() ==> escaped(s, in_pre)[k] != '<' && escaped(s, in_pre)[k] != '>',
        !in_pre ==> forall|k: int| 0 <= k < escaped(s, in_pre).len() ==> escaped(s, in_pre)[k] != '"',
    decreases s.len(),
{
    reveal_strlit("&amp;");
    reveal_strlit("&lt;");
    reveal_strlit("&gt;");
    reveal_strlit("&quot;");
    if s.len() > 0 {
        lemma_escaped_has_no_markup(s.drop_last(), in_pre);
        let a = escaped(s.drop_last(), in_pre);
        let b = escape_char(s.last(), in_pre);
        assert forall|k: int| 0 <= k < (a + b).len() implies (a + b)[k] != '<' && (a + b)[k] != '>' && (!in_pre ==> (a + b)[k] != '"') by {
            if k >= a.len() {
                assert((a + b)[k] == b[k - a.len()]);
            }
        }
    }
}

/// The text without trailing white space (`str::trim_end`).
pub open spec fn trim_end(s: Seq<char>) -> Seq<char>
    decreases s.len(),
{
    if s.len() > 0 && is_white(s.last()) {
        trim_end(s.drop_last())
    } else {
        s
    }
}

/// The number after `n` in an ordered list (wrapping at the top of `u64`).
pub open spec fn next_number(n: u64) -> u64 {
    if n == u64::MAX {
        0
    } else {
        (n + 1) as u64
    }
}

/// Where the renderer stands: the HTML written so far, whether it is inside
/// a `<pre>` block, and the open lists (innermost last), each with the
/// number of its next item when it is ordered.
pub struct HtmlState {
    pub out: Seq<char>,
    pub in_pre: bool,
    pub lists: Seq<Option<u64>>,
}

/// The state before the first event.
pub open spec fn initial_state() -> HtmlState {
    HtmlState { out: Seq::empty(), in_pre: false, lists: Seq::empty() }
}

/// The state with more text written.
pub open spec fn written(st: HtmlState, s: Seq<char>) -> HtmlState {
    HtmlState { out: st.out + s, in_pre: st.in_pre, lists: st.lists }
}

/// The state with more text written and the `<pre>` flag set.
pub open spec fn written_pre(st: HtmlState, s: Seq<char>, in_pre: bool) -> HtmlState {
    HtmlState { out: st.out + s, in_pre: in_pre, lists: st.lists }
}

/// A list item opens: an ordered list writes its next number and counts on,
/// anything else gets a bullet.
pub open spec fn open_item(st: HtmlState) -> HtmlState {
    if st.lists.len() > 0 && st.lists.last() is Some {
        let n = st.lists.last()->0;
        HtmlState {
            out: st.out + decimal(n as nat) + ". "@,
            in_pre: st.in_pre,
            lists: st.lists.update(st.lists.len() - 1, Some(next_number(n))),
        }
    } else {
        written(st, "• "@)
    }
}

/// A tag opens.
pub open spec fn open_tag(st: HtmlState, tag: MdTagView) -> HtmlState {
    match tag {
        MdTagView::Paragraph => st,
        MdTagView::Heading => written(st, "<b>"@),
        MdTagView::BlockQuote => written(st, "<blockquote>"@),
        MdTagView::CodeBlock => written_pre(st, "<pre><code>"@, true),
        MdTagView::HtmlBlock => st,
        MdTagView::List(start) => HtmlState { out: st.out, in_pre: st.in_pre, lists: st.lists.push(start) },
        MdTagView::Item => open_item(st),
        MdTagView::Emphasis => written(st, "<i>"@),
        MdTagView::Strong => written(st, "<b>"@),
        MdTagView::Strikethrough => written(st, "<s>"@),
        MdTagView::Link(dest, _) => written(st, "<a href=\""@ + escaped(dest, false) + "\">"@),
        MdTagView::Table => written_pre(st, "<pre>"@, true),
        MdTagView::TableCell => written(st, "| "@),
        _ => st,
    }
}

/// A tag closes.
pub open spec fn close_tag(st: HtmlState, tag: MdTagEnd) -> HtmlState {
    match tag {
        MdTagEnd::Paragraph => written(st, "\n"@),
        MdTagEnd::Heading => written(st, "</b>\n"@),
        MdTagEnd::BlockQuote => written(st, "</blockquote>\n"@),
        MdTagEnd::CodeBlock => written_pre(st, "</code></pre>\n"@, false),
        MdTagEnd::HtmlBlock => st,
        MdTagEnd::List => HtmlState {
            out: st.out,
            in_pre: st.in_pre,
            lists: if st.lists.len() > 0 { st.lists.drop_last() } else { st.lists },
        },
        MdTagEnd::Item => written(st, "\n"@),
        MdTagEnd::Emphasis => written(st, "</i>"@),
        MdTagEnd::Strong => written(st, "</b>"@),
        MdTagEnd::Strikethrough => written(st, "</s>"@),
        MdTagEnd::Link => written(st, "</a>"@),
        MdTagEnd::Table => written_pre(st, "</pre>\n"@, false),
        MdTagEnd::TableHead => written(st, "|\n"@),
        MdTagEnd::TableRow => written(st, "|\n"@),
        MdTagEnd::TableCell => written(st, " "@),
        _ => st,
    }
}

/// Whether the text ends with a bullet and its space.
pub open spec fn ends_with_bullet(s: Seq<char>) -> bool {
    s.len() >= 2 && s[s.len() - 2] == '•' && s[s.len() - 1] == ' '
}

/// A task-list checkbox: it replaces the bullet its item wrote.
pub open spec fn task_marker(st: HtmlState, checked: bool) -> HtmlState {
    let base = if ends_with_bullet(st.out) { st.out.take(st.out.len() - 2) } else { st.out };
    HtmlState {
        out: base + if checked { "☑ "@ } else { "☐ "@ },
        in_pre: st.in_pre,
        lists: st.lists,
    }
}

/// One event.
pub open spec fn step(st: HtmlState, e: MdEventView) -> HtmlState {
    match e {
        MdEventView::Start(tag) => open_tag(st, tag),
        MdEventView::End(tag) => close_tag(st, tag),
        MdEventView::Text(text) => written(st, escaped(text, st.in_pre)),
        MdEventView::Code(code) => written(st, "<code>"@ + escaped(code, false) + "</code>"@),
        MdEventView::SoftBreak => written(st, "\n"@),
        MdEventView::HardBreak => written(st, "\n"@),
        MdEventView::Rule => written(st, "—\n"@),
        MdEventView::TaskListMarker(checked) => task_marker(st, checked),
        _ => st,
    }
}

/// Raw HTML (blocks and inline), footnote references and math are dropped:
/// they write nothing and leave the renderer where it was.
pub proof fn law_unsafe_markup_dropped(st: HtmlState)
    ensures
        step(st, MdEventView::Html) == st,
        step(st, MdEventView::InlineHtml) == st,
        step(st, MdEventView::FootnoteReference) == st,
        step(st, MdEventView::InlineMath) == st,
        step(st, MdEventView::DisplayMath) == st,
        step(st, MdEventView::Start(MdTagView::HtmlBlock)) == st,
        step(st, MdEventView::End(MdTagEnd::HtmlBlock)) == st,
{
}

/// What Telegram lacks is degraded: a heading is bold text on its own line,
/// a table is a `<pre>` block with each cell opened by `| ` and each row
/// closed by `|` and a line break, a horizontal rule is an em-dash line.
pub proof fn law_degraded_constructs(st: HtmlState)
    ensures
        step(st, MdEventView::Start(MdTagView::Heading)).out == st.out + "<b>"@,
        step(st, MdEventView::End(MdTagEnd::Heading)).out == st.out + "</b>\n"@,
        step(st, MdEventView::Start(MdTagView::Table)).out == st.out + "<pre>"@,
        step(st, MdEventView::Start(MdTagView::Table)).in_pre,
        step(st, MdEventView::End(MdTagEnd::Table)).out == st.out + "</pre>\n"@,
        !step(st, MdEventView::End(MdTagEnd::Table)).in_pre,
        step(st, MdEventView::Start(MdTagView::TableCell)).out == st.out + "| "@,
        step(st, MdEventView::End(MdTagEnd::TableCell)).out == st.out + " "@,
        step(st, MdEventView::End(MdTagEnd::TableRow)).out == st.out + "|\n"@,
        step(st, MdEventView::End(MdTagEnd::TableHead)).out == st.out + "|\n"@,
        step(st, MdEventView::Rule).out == st.out + "—\n"@,
{
}

/// The state after a sequence of events.
pub open spec fn state_after(events: Seq<MdEventView>) -> HtmlState
    decreases events.len(),
{
    if events.len() == 0 {
        initial_state()
    } else {
        step(state_after(events.drop_last()), events.last())
    }
}

/// The Telegram HTML of a sequence of events: everything written, without
/// trailing white space.
pub open spec fn html_of(events: Seq<MdEventView>) -> Seq<char> {
    trim_end(state_after(events).out)
}

// ---------------------------------------------------------------------------
// Writing it
// ---------------------------------------------------------------------------

/// Appends the characters of a string slice.
fn push_text(out: &mut Vec<char>, s: &str)
    ensures
        final(out)@ == old(out)@ + s@,
{
    let cs = chars_of(s);
    let mut i: usize = 0;
    while i < cs.len()
        invariant
            i <= cs@.len(),
            cs@ == s@,
            out@ == old(out)@ + cs@.take(i as int),
        decreases cs@.len() - i,
    {
        out.push(cs[i]);
        i = i + 1;
        assert(out@ == old(out)@ + cs@.take(i as int));
    }
    assert(cs@.take(cs@.len() as int) == cs@);
}

/// Appends a character made safe for Telegram HTML.
fn push_escaped_char(out: &mut Vec<char>, c: char, in_pre: bool)
    ensures
        final(out)@ == old(out)@ + escape_char(c, in_pre),
{
    if c == '&' {
        push_text(out, "&amp;");
    } else if c == '<' {
        push_text(out, "&lt;");
    } else if c == '>' {
        push_text(out, "&gt;");
    } else if c == '"' && !in_pre {
        push_text(out, "&quot;");
    } else {
        out.push(c);
        assert(out@ == old(out)@ + seq![c]);
    }
}

/// Appends a text made safe for Telegram HTML.
fn push_escaped(out: &mut Vec<char>, s: &[char], in_pre: bool)
    ensures
        final(out)@ == old(out)@ + escaped(s@, in_pre),
{
    let mut i: usize = 0;
    while i < s.len()
        invariant
            i <= s@.len(),
            out@ == old(out)@ + escaped(s@.take(i as int), in_pre),
        decreases s@.len() - i,
    {
        push_escaped_char(out, s[i], in_pre);
        assert(s@.take(i + 1).drop_last() == s@.take(i as int));
        i = i + 1;
        assert(out@ == old(out)@ + escaped(s@.take(i as int), in_pre));
    }
    assert(s@.take(s@.len() as int) == s@);
}

/// Escapes text for a Telegram HTML message. Inside `<pre>` the quote is
/// left alone; `&`, `<` and `>` are escaped everywhere, so that the text
/// cannot break out of its block.
pub fn html_escape(s: &str, in_pre: bool) -> (r: String)
    ensures
        r@ == escaped(s@, in_pre),
        forall|k: int| 0 <= k < r@.len() ==> r@[k] != '<' && r@[k] != '>',
        !in_pre ==> forall|k: int| 0 <= k < r@.len() ==> r@[k] != '"',
{
    proof {
        lemma_escaped_has_no_markup(s@, in_pre);
    }
    let cs = chars_of(s);
    let mut out: Vec<char> = Vec::new();
    push_escaped(&mut out, cs.as_slice(), in_pre);
    assert(out@ == escaped(s@, in_pre));
    string_of(out.as_slice())
}

/// The renderer's working state.
struct HtmlWriter {
    out: Vec<char>,
    in_pre: bool,
    lists: Vec<Option<u64>>,
}

impl HtmlWriter {
    /// The state it stands for.
    closed spec fn state(&self) -> HtmlState {
        HtmlState { out: self.out@, in_pre: self.in_pre, lists: self.lists@ }
    }

    /// Appends a string slice.
    fn write(&mut self, s: &str)
        ensures
            final(self).state() == written(old(self).state(), s@),
    {
        push_text(&mut self.out, s);
    }

    /// Opens a list item.
    fn open_item(&mut self)
        ensures
            final(self).state() == open_item(old(self).state()),
    {
        let k = self.lists.len();
        if k > 0 {
            match self.lists[k - 1] {
                Some(n) => {
                    let mut digits = String::new();
                    push_decimal(&mut digits, n);
                    push_text(&mut self.out, digits.as_str());
                    push_text(&mut self.out, ". ");
                    let next: u64 = if n == u64::MAX { 0 } else { n + 1 };
                    self.lists.set(k - 1, Some(next));
                    assert(self.out@ == old(self).out@ + decimal(n as nat) + ". "@);
                    return;
                },
                None => {},
            }
        }
        self.write("• ");
    }

    /// A task-list checkbox, in place of the bullet before it.
    fn task_marker(&mut self, checked: bool)
        ensures
            final(self).state() == task_marker(old(self).state(), checked),
    {
        let k = self.out.len();
        if k >= 2 && self.out[k - 2] == '•' && self.out[k - 1] == ' ' {
            self.out.truncate(k - 2);
            assert(self.out@ == old(self).out@.take(k - 2));
        }
        if checked {
            self.write("☑ ");
        } else {
            self.write("☐ ");
        }
    }

    /// A tag opens.
    fn open_tag(&mut self, tag: &MdTag)
        ensures
            final(self).state() == open_tag(old(self).state(), tag@),
    {
        match tag {
            MdTag::Paragraph => {},
            MdTag::Heading => self.write("<b>"),
            MdTag::BlockQuote => self.write("<blockquote>"),
            MdTag::CodeBlock => {
                self.write("<pre><code>");
                self.in_pre = true;
            },
            MdTag::HtmlBlock => {},
            MdTag::List(start) => self.lists.push(*start),
            MdTag::Item => self.open_item(),
            MdTag::Emphasis => self.write("<i>"),
            MdTag::Strong => self.write("<b>"),
            MdTag::Strikethrough => self.write("<s>"),
            MdTag::Link(dest, _) => {
                push_text(&mut self.out, "<a href=\"");
                let cs = chars_of(dest.as_str());
                push_escaped(&mut self.out, cs.as_slice(), false);
                push_text(&mut self.out, "\">");
                assert(self.out@ == old(self).out@ + ("<a href=\""@ + escaped(dest@, false) + "\">"@));
            },
            MdTag::Table => {
                self.write("<pre>");
                self.in_pre = true;
            },
            MdTag::TableCell => self.write("| "),
            _ => {},
        }
    }

    /// A tag closes.
    fn close_tag(&mut self, tag: MdTagEnd)
        ensures
            final(self).state() == close_tag(old(self).state(), tag),
    {
        match tag {
            MdTagEnd::Paragraph => self.write("\n"),
            MdTagEnd::Heading => self.write("</b>\n"),
            MdTagEnd::BlockQuote => self.write("</blockquote>\n"),
            MdTagEnd::CodeBlock => {
                self.write("</code></pre>\n");
                self.in_pre = false;
            },
            MdTagEnd::HtmlBlock => {},
            MdTagEnd::List => {
                self.lists.pop();
            },
            MdTagEnd::Item => self.write("\n"),
            MdTagEnd::Emphasis => self.write("</i>"),
            MdTagEnd::Strong => self.write("</b>"),
            MdTagEnd::Strikethrough => self.write("</s>"),
            MdTagEnd::Link => self.write("</a>"),
            MdTagEnd::Table => {
                self.write("</pre>\n");
                self.in_pre = false;
            },
            MdTagEnd::TableHead => self.write("|\n"),
            MdTagEnd::TableRow => self.write("|\n"),
            MdTagEnd::TableCell => self.write(" "),
            _ => {},
        }
    }

    /// One event.
    fn step(&mut self, e: &MdEvent)
        ensures
            final(self).state() == step(old(self).state(), e@),
    {
        match e {
            MdEvent::Start(tag) => self.open_tag(tag),
            MdEvent::End(tag) => self.close_tag(*tag),
            MdEvent::Text(text) => {
                let cs = chars_of(text.as_str());
                let in_pre = self.in_pre;
                push_escaped(&mut self.out, cs.as_slice(), in_pre);
            },
            MdEvent::Code(code) => {
                push_text(&mut self.out, "<code>");
                let cs = chars_of(code.as_str());
                push_escaped(&mut self.out, cs.as_slice(), false);
                push_text(&mut self.out, "</code>");
                assert(self.out@ == old(self).out@ + ("<code>"@ + escaped(code@, false) + "</code>"@));
            },
            MdEvent::SoftBreak => self.write("\n"),
            MdEvent::HardBreak => self.write("\n"),
            MdEvent::Rule => self.write("—\n"),
            MdEvent::TaskListMarker(checked) => self.task_marker(*checked),
            _ => {},
        }
    }
}

/// The characters without trailing white space.
fn trimmed_end(s: &[char]) -> (r: String)
    ensures
        r@ == trim_end(s@),
{
    let mut n: usize = s.len();
    assert(s@.take(n as int) == s@);
    while n > 0 && is_white_exec(s[n - 1])
        invariant
            n <= s@.len(),
            trim_end(s@) == trim_end(s@.take(n as int)),
        decreases n,
    {
        assert(s@.take(n as int).drop_last() == s@.take(n - 1));
        n = n - 1;
    }
    let (head, _) = s.split_at(n);
    assert(head@ == s@.take(n as int));
    string_of(head)
}

/// The Telegram HTML of a sequence of Markdown events.
pub fn render_events(events: &[MdEvent]) -> (r: String)
    ensures
        r@ == html_of(event_views(events@)),
{
    let mut w = HtmlWriter { out: Vec::new(), in_pre: false, lists: Vec::new() };
    let mut i: usize = 0;
    while i < events.len()
        invariant
            i <= events@.len(),
            w.state() == state_after(event_views(events@).take(i as int)),
        decreases events@.len() - i,
    {
        w.step(&events[i]);
        assert(event_views(events@).take(i + 1).drop_last() == event_views(events@).take(i as int));
        i = i + 1;
    }
    assert(event_views(events@).take(events@.len() as int) == event_views(events@));
    trimmed_end(w.out.as_slice())
}

// ---------------------------------------------------------------------------
// Reading the Markdown
// ---------------------------------------------------------------------------

/// The events that `pulldown_cmark` yields for a document, with the
/// GitHub extensions this bot turns on (tables, strikethrough, task lists,
/// smart punctuation), each seen as an `MdEventView`.
pub uninterp spec fn markdown_events(md: Seq<char>) -> Seq<MdEventView>;

#[verifier::external_type_specification]
#[verifier::external_body]
pub struct ExEvent<'a>(Event<'a>);

/// Which of three groups an opening tag belongs to: block tags (0);
/// definition-list, table and metadata tags (1); inline tags (2).
pub open spec fn tag_group(t: MdTagView) -> int {
    match t {
        MdTagView::Paragraph | MdTagView::Heading | MdTagView::BlockQuote | MdTagView::CodeBlock
        | MdTagView::HtmlBlock | MdTagView::List(_) | MdTagView::Item | MdTagView::FootnoteDefinition => 0,
        MdTagView::DefinitionList | MdTagView::DefinitionListTitle | MdTagView::DefinitionListDefinition
        | MdTagView::Table | MdTagView::TableHead | MdTagView::TableRow | MdTagView::TableCell
        | MdTagView::MetadataBlock => 1,
        _ => 2,
    }
}

/// Which of the three groups a closing tag belongs to.
pub open spec fn end_group(t: MdTagEnd) -> int {
    match t {
        MdTagEnd::Paragraph | MdTagEnd::Heading | MdTagEnd::BlockQuote | MdTagEnd::CodeBlock
        | MdTagEnd::HtmlBlock | MdTagEnd::List | MdTagEnd::Item | MdTagEnd::FootnoteDefinition => 0,
        MdTagEnd::DefinitionList | MdTagEnd::DefinitionListTitle | MdTagEnd::DefinitionListDefinition
        | MdTagEnd::Table | MdTagEnd::TableHead | MdTagEnd::TableRow | MdTagEnd::TableCell
        | MdTagEnd::MetadataBlock => 1,
        _ => 2,
    }
}

/// Whether `tag` is the tag that the event opens when that tag is of group
/// `g`, and nothing otherwise.
pub open spec fn opened_in(e: MdEventView, g: int, tag: Option<MdTag>) -> bool {
    match e {
        MdEventView::Start(t) => if tag_group(t) == g {
            tag matches Some(x) && x@ == t
        } else {
            tag is None
        },
        _ => tag is None,
    }
}

/// Whether `tag` is the tag that the event closes when that tag is of group
/// `g`, and nothing otherwise.
pub open spec fn closed_in(e: MdEventView, g: int, tag: Option<MdTagEnd>) -> bool {
    match e {
        MdEventView::End(t) => if end_group(t) == g {
            tag == Some(t)
        } else {
            tag is None
        },
        _ => tag is None,
    }
}

/// A Markdown document read by `pulldown_cmark`: the text and the events the
/// parser yields for it, in order.
pub struct ParsedMarkdown {
    source: Ghost<Seq<char>>,
    events: Vec<Event<'static>>,
}

impl ParsedMarkdown {
    /// The text the document was read from.
    pub closed spec fn source(&self) -> Seq<char> {
        self.source@
    }

    /// One event for each event of the text.
    #[verifier::type_invariant]
    spec fn one_per_event(self) -> bool {
        self.events@.len() == markdown_events(self.source@).len()
    }
}

/// Runs `pulldown_cmark::Parser::new_ext` with tables, strikethrough, task
/// lists and smart punctuation turned on, and keeps the events it yields.
/// Claimed: the events are a function of the text, `markdown_events` names
/// them, and the document holds one for each.
#[verifier::external_body]
fn parse_markdown(md: &str) -> (doc: ParsedMarkdown)
    ensures
        doc.source() == md@,
{
    let mut options = Options::empty();
    options.insert(Options::ENABLE_TABLES);
    options.insert(Options::ENABLE_STRIKETHROUGH);
    options.insert(Options::ENABLE_TASKLISTS);
    options.insert(Options::ENABLE_SMART_PUNCTUATION);
    let events = Parser::new_ext(md, options).map(Event::into_static).collect();
    ParsedMarkdown { source: Ghost(md@), events }
}

impl ParsedMarkdown {
    /// The number of events.
    fn len(&self) -> (n: usize)
        ensures
            n == markdown_events(self.source()).len(),
    {
        proof {
            use_type_invariant(self);
        }
        self.events.len()
    }

    /// Which variant of `pulldown_cmark::Event` event `i` is. Claimed, as for
    /// the accessors below: the events held are those the parser yields for
    /// the document's text, in order.
    #[verifier::external_body]
    fn kind_at(&self, i: usize) -> (k: MdKind)
        requires
            i < markdown_events(self.source()).len(),
        ensures
            k == kind_of(markdown_events(self.source())[i as int]),
    {
        match &self.events[i] {
            Event::Start(_) => MdKind::Start,
            Event::End(_) => MdKind::End,
            Event::Text(_) => MdKind::Text,
            Event::Code(_) => MdKind::Code,
            Event::InlineMath(_) => MdKind::InlineMath,
            Event::DisplayMath(_) => MdKind::DisplayMath,
            Event::Html(_) => MdKind::Html,
            Event::InlineHtml(_) => MdKind::InlineHtml,
            Event::FootnoteReference(_) => MdKind::FootnoteReference,
            Event::SoftBreak => MdKind::SoftBreak, Event::HardBreak => MdKind::HardBreak,
            Event::Rule => MdKind::Rule,
            Event::TaskListMarker(_) => MdKind::TaskListMarker,
        }
    }

    /// The `pulldown_cmark::Tag` that event `i` opens, when it is a block
    /// tag (paragraph, heading, quote, code, raw HTML, list, item, footnote).
    #[verifier::external_body]
    fn block_tag_at(&self, i: usize) -> (tag: Option<MdTag>)
        requires
            i < markdown_events(self.source()).len(),
        ensures
            opened_in(markdown_events(self.source())[i as int], 0, tag),
    {
        let Event::Start(tag) = &self.events[i] else { return None };
        match tag {
            Tag::Paragraph => Some(MdTag::Paragraph),
            Tag::Heading { .. } => Some(MdTag::Heading),
            Tag::BlockQuote(_) => Some(MdTag::BlockQuote),
            Tag::CodeBlock(_) => Some(MdTag::CodeBlock),
            Tag::HtmlBlock => Some(MdTag::HtmlBlock),
            Tag::List(start) => Some(MdTag::List(*start)),
            Tag::Item => Some(MdTag::Item),
            Tag::FootnoteDefinition(_) => Some(MdTag::FootnoteDefinition),
            _ => None,
        }
    }

    /// The `pulldown_cmark::Tag` that event `i` opens, when it is a
    /// definition-list, table or metadata tag.
    #[verifier::external_body]
    fn table_tag_at(&self, i: usize) -> (tag: Option<MdTag>)
        requires
            i < markdown_events(self.source()).len(),
        ensures
            opened_in(markdown_events(self.source())[i as int], 1, tag),
    {
        let Event::Start(tag) = &self.events[i] else { return None };
        match tag {
            Tag::DefinitionList => Some(MdTag::DefinitionList),
            Tag::DefinitionListTitle => Some(MdTag::DefinitionListTitle),
            Tag::DefinitionListDefinition => Some(MdTag::DefinitionListDefinition),
            Tag::Table(_) => Some(MdTag::Table),
            Tag::TableHead => Some(MdTag::TableHead),
            Tag::TableRow => Some(MdTag::TableRow),
            Tag::TableCell => Some(MdTag::TableCell),
            Tag::MetadataBlock(_) => Some(MdTag::MetadataBlock),
            _ => None,
        }
    }

    /// The `pulldown_cmark::Tag` that event `i` opens, when it is an inline
    /// tag (emphasis, strong, strikethrough, super- and subscript, link,
    /// image).
    #[verifier::external_body]
    fn inline_tag_at(&self, i: usize) -> (tag: Option<MdTag>)
        requires
            i < markdown_events(self.source()).len(),
        ensures
            opened_in(markdown_events(self.source())[i as int], 2, tag),
    {
        let Event::Start(tag) = &self.events[i] else { return None };
        match tag {
            Tag::Emphasis => Some(MdTag::Emphasis),
            Tag::Strong => Some(MdTag::Strong),
            Tag::Strikethrough => Some(MdTag::Strikethrough),
            Tag::Superscript => Some(MdTag::Superscript),
            Tag::Subscript => Some(MdTag::Subscript),
            Tag::Link { dest_url, title, .. } => Some(MdTag::Link(dest_url.to_string(), title.to_string())),
            Tag::Image { .. } => Some(MdTag::Image),
            _ => None,
        }
    }

    /// The `pulldown_cmark::TagEnd` that event `i` closes, when it is a
    /// block tag.
    #[verifier::external_body]
    fn block_end_at(&self, i: usize) -> (tag: Option<MdTagEnd>)
        requires
            i < markdown_events(self.source()).len(),
        ensures
            closed_in(markdown_events(self.source())[i as int], 0, tag),
    {
        let Event::End(tag) = &self.events[i] else { return None };
        match tag {
            TagEnd::Paragraph => Some(MdTagEnd::Paragraph),
            TagEnd::Heading(_) => Some(MdTagEnd::Heading),
            TagEnd::BlockQuote(_) => Some(MdTagEnd::BlockQuote),
            TagEnd::CodeBlock => Some(MdTagEnd::CodeBlock),
            TagEnd::HtmlBlock => Some(MdTagEnd::HtmlBlock),
            TagEnd::List(_) => Some(MdTagEnd::List),
            TagEnd::Item => Some(MdTagEnd::Item),
            TagEnd::FootnoteDefinition => Some(MdTagEnd::FootnoteDefinition),
            _ => None,
        }
    }

    /// The `pulldown_cmark::TagEnd` that event `i` closes, when it is a
    /// definition-list, table or metadata tag.
    #[verifier::external_body]
    fn table_end_at(&self, i: usize) -> (tag: Option<MdTagEnd>)
        requires
            i < markdown_events(self.source()).len(),
        ensures
            closed_in(markdown_events(self.source())[i as int], 1, tag),
    {
        let Event::End(tag) = &self.events[i] else { return None };
        match tag {
            TagEnd::DefinitionList => Some(MdTagEnd::DefinitionList),
            TagEnd::DefinitionListTitle => Some(MdTagEnd::DefinitionListTitle),
            TagEnd::DefinitionListDefinition => Some(MdTagEnd::DefinitionListDefinition),
            TagEnd::Table => Some(MdTagEnd::Table),
            TagEnd::TableHead => Some(MdTagEnd::TableHead),
            TagEnd::TableRow => Some(MdTagEnd::TableRow),
            TagEnd::TableCell => Some(MdTagEnd::TableCell),
            TagEnd::MetadataBlock(_) => Some(MdTagEnd::MetadataBlock),
            _ => None,
        }
    }

    /// The `pulldown_cmark::TagEnd` that event `i` closes, when it is an
    /// inline tag.
    #[verifier::external_body]
    fn inline_end_at(&self, i: usize) -> (tag: Option<MdTagEnd>)
        requires
            i < markdown_events(self.source()).len(),
        ensures
            closed_in(markdown_events(self.source())[i as int], 2, tag),
    {
        let Event::End(tag) = &self.events[i] else { return None };
        match tag {
            TagEnd::Emphasis => Some(MdTagEnd::Emphasis),
            TagEnd::Strong => Some(MdTagEnd::Strong),
            TagEnd::Strikethrough => Some(MdTagEnd::Strikethrough),
            TagEnd::Superscript => Some(MdTagEnd::Superscript),
            TagEnd::Subscript => Some(MdTagEnd::Subscript),
            TagEnd::Link => Some(MdTagEnd::Link),
            TagEnd::Image => Some(MdTagEnd::Image),
            _ => None,
        }
    }

    /// The tag that event `i`, a `Start` event, opens.
    fn start_tag_at(&self, i: usize) -> (tag: MdTag)
        requires
            i < markdown_events(self.source()).len(),
            markdown_events(self.source())[i as int] is Start,
        ensures
            markdown_events(self.source())[i as int] == MdEventView::Start(tag@),
    {
        if let Some(t) = self.block_tag_at(i) {
            return t;
        }
        if let Some(t) = self.table_tag_at(i) {
            return t;
        }
        match self.inline_tag_at(i) {
            Some(t) => t,
            None => {
                assert(false);
                MdTag::Image
            },
        }
    }

    /// The tag that event `i`, an `End` event, closes.
    fn end_tag_at(&self, i: usize) -> (tag: MdTagEnd)
        requires
            i < markdown_events(self.source()).len(),
            markdown_events(self.source())[i as int] is End,
        ensures
            markdown_events(self.source())[i as int] == MdEventView::End(tag),
    {
        if let Some(t) = self.block_end_at(i) {
            return t;
        }
        if let Some(t) = self.table_end_at(i) {
            return t;
        }
        match self.inline_end_at(i) {
            Some(t) => t,
            None => {
                assert(false);
                MdTagEnd::Image
            },
        }
    }

    /// The text of event `i`, a `Text` or `Code` event.
    #[verifier::external_body]
    fn text_at(&self, i: usize) -> (s: String)
        requires
            i < markdown_events(self.source()).len(),
            markdown_events(self.source())[i as int] is Text || markdown_events(self.source())[i as int] is Code,
        ensures
            markdown_events(self.source())[i as int] == MdEventView::Text(s@)
                || markdown_events(self.source())[i as int] == MdEventView::Code(s@),
    {
        match &self.events[i] {
            Event::Text(text) => text.to_string(),
            Event::Code(code) => code.to_string(),
            _ => String::new(),
        }
    }

    /// Whether the checkbox of event `i`, a `TaskListMarker`, is ticked.
    #[verifier::external_body]
    fn checked_at(&self, i: usize) -> (checked: bool)
        requires
            i < markdown_events(self.source()).len(),
            markdown_events(self.source())[i as int] is TaskListMarker,
        ensures
            markdown_events(self.source())[i as int] == MdEventView::TaskListMarker(checked),
    {
        match &self.events[i] {
            Event::TaskListMarker(checked) => *checked,
            _ => false,
        }
    }

    /// Event `i`.
    fn event_at(&self, i: usize) -> (e: MdEvent)
        requires
            i < markdown_events(self.source()).len(),
        ensures
            e@ == markdown_events(self.source())[i as int],
    {
        let ghost v = markdown_events(self.source())[i as int];
        match self.kind_at(i) {
            MdKind::Start => MdEvent::Start(self.start_tag_at(i)),
            MdKind::End => MdEvent::End(self.end_tag_at(i)),
            MdKind::Text => {
                let s = self.text_at(i);
                assert(v is Text);
                MdEvent::Text(s)
            },
            MdKind::Code => {
                let s = self.text_at(i);
                assert(v is Code);
                MdEvent::Code(s)
            },
            MdKind::InlineMath => MdEvent::InlineMath,
            MdKind::DisplayMath => MdEvent::DisplayMath,
            MdKind::Html => MdEvent::Html,
            MdKind::InlineHtml => MdEvent::InlineHtml,
            MdKind::FootnoteReference => MdEvent::FootnoteReference,
            MdKind::SoftBreak => MdEvent::SoftBreak,
            MdKind::HardBreak => MdEvent::HardBreak,
            MdKind::Rule => MdEvent::Rule,
            MdKind::TaskListMarker => MdEvent::TaskListMarker(self.checked_at(i)),
        }
    }

    /// All the events, in order.
    pub fn events(&self) -> (r: Vec<MdEvent>)
        ensures
            event_views(r@) == markdown_events(self.source()),
    {
        let n = self.len();
        let mut r: Vec<MdEvent> = Vec::new();
        let mut i: usize = 0;
        while i < n
            invariant
                i <= n,
                n == markdown_events(self.source()).len(),
                event_views(r@) == markdown_events(self.source()).take(i as int),
            decreases n - i,
        {
            let e = self.event_at(i);
            let ghost before = r@;
            r.push(e);
            assert(event_views(r@) =~= event_views(before).push(e@));
            assert(event_views(r@) =~= markdown_events(self.source()).take(i + 1));
            i = i + 1;
        }
        assert(markdown_events(self.source()).take(n as int) == markdown_events(self.source()));
        r
    }
}

/// Converts GitHub-flavoured Markdown (as returned by ChatGPT) into the
/// subset of HTML that Telegram understands: the events `pulldown_cmark`
/// reads from the text, rendered by `render_events`.
pub fn markdown_to_telegram_html(md: &str) -> (r: String)
    ensures
        r@ == html_of(markdown_events(md@)),
{
    let doc = parse_markdown(md);
    let events = doc.events();
    render_events(events.as_slice())
}

} // verus!
