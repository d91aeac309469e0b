use crate::text::{push_char, wrap, wrap_spec};
use pulldown_cmark::html::push_html;
use pulldown_cmark::{CodeBlockKind, Event, Options, Parser, Tag};
use vstd::prelude::*;

verus! {

/// The HTML that the Markdown converter gives for a text.
pub uninterp spec fn markdown_html(text: Seq<char>) -> Seq<char>;

/// Translates Markdown to HTML.
///
/// Relies on pulldown_cmark's `Parser::new_ext` (tables, smart punctuation,
/// task lists, strikethrough) and `html::push_html`: the HTML is a function of
/// the text alone, and a text without characters gives no event and no HTML.
/// The opening tag of each fenced code block comes from [`code_block_head`].
#[verifier::external_body]
pub fn md2html(text: &str) -> (r: String)
    ensures
        r@ == markdown_html(text@),
        text@.len() == 0 ==> r@.len() == 0,
{
    let opts = Options::ENABLE_TABLES | Options::ENABLE_SMART_PUNCTUATION
        | Options::ENABLE_TASKLISTS | Options::ENABLE_STRIKETHROUGH;
    let events = Parser::new_ext(text, opts).map(|e| match e {
        Event::Start(Tag::CodeBlock(CodeBlockKind::Fenced(info))) => Event::Html(code_block_head(&info).into()),
        e => e,
    });
    let mut doc = String::new();
    push_html(&mut doc, events);
    doc
}

/// The characters of `s` from `i` on, without the characters `a` and `b`.
pub open spec fn without_from(s: Seq<char>, i: nat, a: char, b: char) -> Seq<char>
    decreases s.len() - i,
{
    if i >= s.len() {
        Seq::empty()
    } else if s[i as int] == a || s[i as int] == b {
        without_from(s, i + 1, a, b)
    } else {
        seq![s[i as int]] + without_from(s, i + 1, a, b)
    }
}

/// Where the first `[` stands in `s` at or after `i`, or the length of `s`.
pub open spec fn bracket_at(s: Seq<char>, i: nat) -> nat
    decreases s.len() - i,
{
    if i >= s.len() || s[i as int] == '[' {
        i
    } else {
        bracket_at(s, i + 1)
    }
}

/// The info string of a code block with its spaces removed.
pub open spec fn compact_info(info: Seq<char>) -> Seq<char> {
    without_from(info, 0, ' ', ' ')
}

/// The language of a code block: the compact info string up to the first `[`.
pub open spec fn info_lang(info: Seq<char>) -> Seq<char> {
    compact_info(info).subrange(0, bracket_at(compact_info(info), 0) as int)
}

/// The line numbers of a code block: what follows the language, brackets removed.
pub open spec fn info_lines(info: Seq<char>) -> Seq<char> {
    without_from(compact_info(info), bracket_at(compact_info(info), 0), '[', ']')
}

/// The opening tags of a fenced code block with the given info string.
pub open spec fn code_head_spec(info: Seq<char>) -> Seq<char> {
    if compact_info(info).len() == 0 {
        "<pre><code>"@
    } else {
        "<pre><code class=\"language-"@ + info_lang(info) + "\""@
            + wrap_spec(info_lines(info), " data-line-numbers=\""@, "\""@) + ">"@
    }
}

fn without(s: &str, a: char, b: char, from: usize) -> (r: String)
    requires
        from <= s@.len(),
    ensures
        r@ == without_from(s@, from as nat, a, b),
{
    let n = s.unicode_len();
    let mut r = String::new();
    let mut i: usize = from;
    while i < n
        invariant
            n == s@.len(),
            from <= i <= n,
            r@ + without_from(s@, i as nat, a, b) == without_from(s@, from as nat, a, b),
        decreases n - i,
    {
        let c = s.get_char(i);
        if c != a && c != b {
            let ghost r0 = r@;
            push_char(&mut r, c);
            assert(r@ + without_from(s@, (i + 1) as nat, a, b) =~= r0 + (seq![c] + without_from(s@, (i + 1) as nat, a, b)));
        }
        i = i + 1;
    }
    r
}

/// The opening tags of a fenced code block: a language class and, from a
/// `[...]` suffix of the info string, a line-number annotation.
pub fn code_block_head(info: &str) -> (r: String)
    ensures
        r@ == code_head_spec(info@),
{
    let compact = without(info, ' ', ' ', 0);
    let s = compact.as_str();
    if s.is_empty() {
        return String::from_str("<pre><code>");
    }
    let n = s.unicode_len();
    let mut lang = String::new();
    let mut i: usize = 0;
    while i < n && s.get_char(i) != '['
        invariant
            n == s@.len(),
            i <= n,
            bracket_at(s@, i as nat) == bracket_at(s@, 0),
            lang@ == s@.subrange(0, i as int),
        decreases n - i,
    {
        push_char(&mut lang, s.get_char(i));
        assert(lang@ =~= s@.subrange(0, i + 1));
        i = i + 1;
    }
    let line = without(s, '[', ']', i);
    let mut r = String::from_str("<pre><code class=\"language-");
    r.append(lang.as_str());
    r.append("\"");
    let attr = wrap(line.as_str(), " data-line-numbers=\"", "\"");
    r.append(attr.as_str());
    r.append(">");
    r
}

} // verus!
