//! Screen contents as HTML, for the web viewer.

use vstd::prelude::*;
use crate::text::{chars_of, lines, push_char, split_lines, string_from};

verus! {

/// How one character is written in HTML text: `&`, `<`, `>`, `"` and the
/// space as entities, anything else as itself.
pub open spec fn html_char(c: char) -> Seq<char> {
    if c == '&' {
        "&amp;"@
    } else if c == '<' {
        "&lt;"@
    } else if c == '>' {
        "&gt;"@
    } else if c == '"' {
        "&quot;"@
    } else if c == ' ' {
        "&nbsp;"@
    } else {
        seq![c]
    }
}

/// `s` written as HTML text.
pub open spec fn html_text(s: Seq<char>) -> Seq<char>
    decreases s.len(),
{
    if s.len() == 0 {
        seq![]
    } else {
        html_text(s.drop_last()) + html_char(s.last())
    }
}

fn push_html_chars(out: &mut String, v: &Vec<char>)
    ensures
        final(out)@ == old(out)@ + html_text(v@),
{
    let ghost o0 = out@;
    let mut i: usize = 0;
    assert(v@.take(0) =~= Seq::<char>::empty());
    assert(o0 + html_text(Seq::<char>::empty()) =~= o0);
    while i < v.len()
        invariant
            i <= v@.len(),
            out@ == o0 + html_text(v@.take(i as int)),
        decreases v@.len() - i,
    {
        let c = v[i];
        if c == '&' {
            out.append("&amp;");
        } else if c == '<' {
            out.append("&lt;");
        } else if c == '>' {
            out.append("&gt;");
        } else if c == '"' {
            out.append("&quot;");
        } else if c == ' ' {
            out.append("&nbsp;");
        } else {
            push_char(out, c);
        }
        proof {
            assert(v@.take(i + 1).drop_last() =~= v@.take(i as int));
            assert(v@.take(i + 1).last() == c);
        }
        assert(out@ =~= o0 + html_text(v@.take(i + 1)));
        i = i + 1;
    }
    assert(v@.take(i as int) =~= v@);
}

/// Escape text for HTML.
pub fn html_escape(s: &str) -> (r: String)
    ensures
        r@ == html_text(s@),
{
    let v = chars_of(s);
    let mut r = String::new();
    push_html_chars(&mut r, &v);
    r
}

/// The HTML of the first `height` lines of a screen, each in its own line
/// element.
pub open spec fn lines_html(ls: Seq<Seq<char>>) -> Seq<char>
    decreases ls.len(),
{
    if ls.len() == 0 {
        seq![]
    } else {
        lines_html(ls.drop_last()) + "<div class=\"terminal-line\">"@ + html_text(ls.last()) + "</div>\n"@
    }
}

/// A screen as HTML: its first `height` lines inside a screen element.
pub open spec fn screen_html(content: Seq<char>, height: nat) -> Seq<char> {
    let ls = lines(content);
    let shown = if ls.len() > height { ls.take(height as int) } else { ls };
    "<div class=\"terminal-screen\">"@ + lines_html(shown) + "</div>"@
}

/// Render screen content as HTML.
pub fn terminal_to_html(content: &str, _width: u16, height: u16) -> (html: String)
    ensures
        html@ == screen_html(content@, height as nat),
{
    let text = chars_of(content);
    let ls = split_lines(&text);
    let ghost lv = ls@.map_values(|w: Vec<char>| w@);
    let mut html = string_from("<div class=\"terminal-screen\">");
    let ghost head = html@;
    let mut i: usize = 0;
    assert(lines_html(lv.take(0)) =~= Seq::<char>::empty());
    assert(head + lines_html(lv.take(0)) =~= head);
    while i < ls.len()
        invariant
            i <= ls@.len(),
            lv == ls@.map_values(|w: Vec<char>| w@),
            lv == lines(content@),
            i <= height as int,
            html@ == head + lines_html(lv.take(i as int)),
        ensures
            i <= ls@.len(),
            i <= height as int,
            i == ls@.len() || i == height as int,
            lv == lines(content@),
            html@ == head + lines_html(lv.take(i as int)),
        decreases ls@.len() - i,
    {
        if i >= height as usize {
            break;
        }
        html.append("<div class=\"terminal-line\">");
        push_html_chars(&mut html, &ls[i]);
        html.append("</div>\n");
        proof {
            assert(lv.take(i + 1).drop_last() =~= lv.take(i as int));
            assert(lv.take(i + 1).last() == ls@[i as int]@);
        }
        assert(html@ =~= head + lines_html(lv.take(i + 1)));
        i = i + 1;
    }
    proof {
        if lv.len() > height as nat {
            assert(i == height as int);
        } else {
            assert(i == lv.len());
            assert(lv.take(i as int) =~= lv);
        }
    }
    html.append("</div>");
    html
}

/// Escaped text holds no markup: no `<`, `>` or `"`.
pub proof fn lemma_html_text_has_no_markup(s: Seq<char>)
    ensures
        forall|i: int| 0 <= i < html_text(s).len() ==> #[trigger] html_text(s)[i] != '<' && html_text(s)[i] != '>'
            && html_text(s)[i] != '"',
    decreases s.len(),
{
    reveal_strlit("&amp;");
    reveal_strlit("&lt;");
    reveal_strlit("&gt;");
    reveal_strlit("&quot;");
    reveal_strlit("&nbsp;");
    if s.len() > 0 {
        lemma_html_text_has_no_markup(s.drop_last());
        let a = html_text(s.drop_last());
        let b = html_char(s.last());
        assert(html_text(s) == a + b);
        assert forall|i: int| 0 <= i < b.len() implies b[i] != '<' && b[i] != '>' && b[i] != '"' by {}
        assert forall|i: int| 0 <= i < html_text(s).len() implies #[trigger] html_text(s)[i] != '<' && html_text(s)[i]
            != '>' && html_text(s)[i] != '"' by {
            if i < a.len() {
                assert(html_text(s)[i] == a[i]);
            } else {
                assert(html_text(s)[i] == b[i - a.len()]);
            }
        }
    }
}

} // verus!
