//! The HTML document built from a Markdown source: front matter, one slide
//! per top-level heading, and the included stylesheets and scripts.

use crate::errors::Result;
use crate::resources::{is_content_of, tag_text, ContentRead, LoadedResource, ResourceFile};
use crate::text::{
    append, append_str, copy_range, find, from_chars, is_blank, is_white_space, is_whitespace,
    join_from, joined, lemma_trimmed_empty, lines, lines_of, replace, replaced, split, split_on,
    starts_with, strip_leading, texts, to_chars, trim, trim_start_matches, trimmed,
};
use crate::text::{first_occurrence, lemma_first_occurrence, occurs_at, opt_text, strings};
use vstd::prelude::*;

verus! {

/// The value of a front matter line: the line without its leading `% `
/// marks and without white space around it.
pub open spec fn field_of(line: Seq<char>) -> Seq<char> {
    trimmed(strip_leading(line, "% "@))
}

/// The index of the first line from `from` on that is not blank, or the
/// number of lines if every one is.
pub open spec fn first_content_line(lines: Seq<Seq<char>>, from: int) -> int
    decreases lines.len() - from,
{
    if 0 <= from < lines.len() && is_blank(lines[from]) {
        first_content_line(lines, from + 1)
    } else {
        from
    }
}

/// What the front matter of a document says.
pub struct Frontmatter {
    pub title: Seq<char>,
    pub author: Seq<char>,
    pub date: Seq<char>,
    /// The source that is left to render.
    pub body: Seq<char>,
}

/// The front matter of `content`. A document of at least three lines whose
/// first line begins with `% ` names its title there. If it has four lines
/// or more and the second begins with `% ` too, that line names the author;
/// if the third does as well, it names the date, and the body is what
/// follows these three lines and the blank lines after them. In every other
/// case the body is the whole document. Without a title line the title is
/// `Presentation`.
pub open spec fn frontmatter_of(content: Seq<char>) -> Frontmatter {
    let lines = lines_of(content);
    let mark = "% "@;
    if lines.len() >= 3 && mark.is_prefix_of(lines[0]) {
        let title = field_of(lines[0]);
        if lines.len() >= 4 && mark.is_prefix_of(lines[1]) {
            let author = field_of(lines[1]);
            if mark.is_prefix_of(lines[2]) {
                Frontmatter {
                    title,
                    author,
                    date: field_of(lines[2]),
                    body: joined(lines.skip(first_content_line(lines, 3)), "\n"@),
                }
            } else {
                Frontmatter { title, author, date: Seq::empty(), body: content }
            }
        } else {
            Frontmatter { title, author: Seq::empty(), date: Seq::empty(), body: content }
        }
    } else {
        Frontmatter {
            title: "Presentation"@,
            author: Seq::empty(),
            date: Seq::empty(),
            body: content,
        }
    }
}

/// Reads the front matter of `content`: title, author, date, and the source
/// that is left to render.
pub fn parse_frontmatter(content: &str) -> (r: (String, String, String, String))
    ensures
        r.0@ == frontmatter_of(content@).title,
        r.1@ == frontmatter_of(content@).author,
        r.2@ == frontmatter_of(content@).date,
        r.3@ == frontmatter_of(content@).body,
{
    let chars = to_chars(content);
    let rows = lines(&chars);
    let mark = to_chars("% ");
    let newline = to_chars("\n");
    let mut title: String = "Presentation".to_owned();
    let mut author: String = String::new();
    let mut date: String = String::new();
    if rows.len() >= 3 && starts_with(&rows[0], &mark) {
        title = from_chars(&trim(&trim_start_matches(&rows[0], &mark)));
        if rows.len() >= 4 && starts_with(&rows[1], &mark) {
            author = from_chars(&trim(&trim_start_matches(&rows[1], &mark)));
            if starts_with(&rows[2], &mark) {
                date = from_chars(&trim(&trim_start_matches(&rows[2], &mark)));
                let mut start: usize = 3;
                while start < rows.len() && trim(&rows[start]).len() == 0
                    invariant
                        3 <= start <= rows.len(),
                        first_content_line(texts(rows@), 3) == first_content_line(
                            texts(rows@),
                            start as int,
                        ),
                    decreases rows.len() - start,
                {
                    proof {
                        lemma_trimmed_empty(rows@[start as int]@);
                    }
                    start += 1;
                }
                proof {
                    if start < rows.len() {
                        lemma_trimmed_empty(rows@[start as int]@);
                    }
                }
                let body = from_chars(&join_from(&rows, start, &newline));
                return (title, author, date, body);
            }
        }
    }
    (title, author, date, content.to_owned())
}

/// Whether a line, already trimmed, opens a slide: it is `#` alone, or `#`
/// followed by a space or by a character that is neither `#` nor white
/// space.
pub open spec fn is_slide_header(t: Seq<char>) -> bool {
    &&& t.len() > 0
    &&& t[0] == '#'
    &&& (t.len() == 1 || (t[1] != '#' && (t[1] == ' ' || !is_white_space(t[1]))))
}

/// A line as it goes to the Markdown renderer: a slide header without a
/// space after its `#` gets one, written from the left margin; every other
/// line stays as it is.
pub open spec fn rewritten_line(line: Seq<char>) -> Seq<char> {
    let t = trimmed(line);
    if is_slide_header(t) && t.len() > 1 && t[1] != ' ' {
        "# "@ + t.skip(1)
    } else {
        line
    }
}

/// The lines, each rewritten and ended by a line feed, with a thematic break
/// before every slide header but the first. `seen` tells whether a header
/// came before these lines.
pub open spec fn with_breaks(lines: Seq<Seq<char>>, seen: bool) -> Seq<char>
    decreases lines.len(),
{
    if lines.len() == 0 {
        Seq::empty()
    } else {
        let header = is_slide_header(trimmed(lines[0]));
        let head = if header && seen {
            "\n\n---\n\n"@ + rewritten_line(lines[0])
        } else {
            rewritten_line(lines[0])
        };
        head + "\n"@ + with_breaks(lines.drop_first(), seen || header)
    }
}

/// The Markdown that is rendered for `content`: a thematic break separates
/// the slides, and an escaped `\#` comes out as a plain `#` that opens no
/// slide.
pub open spec fn slides_markdown(content: Seq<char>) -> Seq<char> {
    let guarded = replaced(content, "\\#"@, "!--HASH--!"@);
    replaced(with_breaks(lines_of(guarded), false), "!--HASH--!"@, "#"@)
}

/// Whether the trimmed line `t` opens a slide.
pub fn line_is_header(t: &Vec<char>) -> (b: bool)
    ensures
        b == is_slide_header(t@),
{
    if t.len() == 0 || t[0] != '#' {
        return false;
    }
    if t.len() == 1 {
        return true;
    }
    let c: char = t[1];
    c != '#' && (c == ' ' || !is_whitespace(c))
}

/// What one line adds to the rendered Markdown: a thematic break first if
/// the line opens a slide and `seen` tells that a slide was opened before;
/// then the rewritten line and a line feed.
pub open spec fn line_output(line: Seq<char>, seen: bool) -> Seq<char> {
    let head = if is_slide_header(trimmed(line)) && seen {
        "\n\n---\n\n"@ + rewritten_line(line)
    } else {
        rewritten_line(line)
    };
    head + "\n"@
}

/// Appends to `out` what `line` adds, and tells whether the line opens a
/// slide.
pub fn push_line(out: &mut Vec<char>, line: &Vec<char>, seen: bool) -> (header: bool)
    ensures
        header == is_slide_header(trimmed(line@)),
        final(out)@ == old(out)@ + line_output(line@, seen),
{
    let ghost before = out@;
    let t = trim(line);
    let header = line_is_header(&t);
    if header && seen {
        append_str(out, "\n\n---\n\n");
    }
    let ghost mid = out@;
    if header && t.len() > 1 && t[1] != ' ' {
        append_str(out, "# ");
        let tail = copy_range(&t, 1, t.len());
        append(out, &tail);
        proof {
            assert(t@.subrange(1, t@.len() as int) =~= t@.skip(1));
            assert(out@ =~= mid + rewritten_line(line@));
        }
    } else {
        append(out, line);
    }
    append_str(out, "\n");
    proof {
        if header && seen {
            assert(out@ =~= before + (("\n\n---\n\n"@ + rewritten_line(line@)) + "\n"@));
        } else {
            assert(out@ =~= before + (rewritten_line(line@) + "\n"@));
        }
    }
    header
}

/// The first line's output followed by that of the remaining lines.
pub proof fn lemma_with_breaks_step(lines: Seq<Seq<char>>, seen: bool)
    requires
        lines.len() > 0,
    ensures
        with_breaks(lines, seen) == line_output(lines[0], seen) + with_breaks(
            lines.drop_first(),
            seen || is_slide_header(trimmed(lines[0])),
        ),
{
}

/// Turns top-level headings into slide breaks.
pub fn process_content_for_slides(content: String) -> (r: String)
    ensures
        r@ == slides_markdown(content@),
{
    let chars = to_chars(content.as_str());
    let escaped = to_chars("\\#");
    let guard = to_chars("!--HASH--!");
    let hash = to_chars("#");
    let guarded = replace(&chars, &escaped, &guard);
    let rows = lines(&guarded);
    let mut out: Vec<char> = Vec::new();
    let mut seen: bool = false;
    let mut i: usize = 0;
    let ghost all = texts(rows@);
    proof {
        assert(all.skip(0) =~= all);
        assert(out@ + with_breaks(all, false) =~= with_breaks(all, false));
    }
    while i < rows.len()
        invariant
            i <= rows.len(),
            all == texts(rows@),
            with_breaks(all, false) == out@ + with_breaks(all.skip(i as int), seen),
        decreases rows.len() - i,
    {
        let ghost before = out@;
        let ghost rest = all.skip(i as int);
        let header = push_line(&mut out, &rows[i], seen);
        proof {
            assert(rest[0] == rows@[i as int]@);
            assert(rest.drop_first() =~= all.skip(i as int + 1));
            lemma_with_breaks_step(rest, seen);
            let ghost tail_text = with_breaks(all.skip(i as int + 1), seen || header);
            assert(before + (line_output(rest[0], seen) + tail_text) =~= (before + line_output(
                rest[0],
                seen,
            )) + tail_text);
        }
        if header {
            seen = true;
        }
        i += 1;
    }
    proof {
        assert(out@ + with_breaks(all.skip(i as int), seen) =~= out@);
    }
    from_chars(&replace(&out, &guard, &hash))
}

/// Each of `parts` without white space around it.
pub open spec fn each_trimmed(parts: Seq<Seq<char>>) -> Seq<Seq<char>> {
    Seq::new(parts.len(), |i: int| trimmed(parts[i]))
}

/// The slides of a rendered document: the pieces between its thematic
/// breaks, each without white space around it.
pub open spec fn slides_of(html: Seq<char>) -> Seq<Seq<char>> {
    each_trimmed(split_on(html, "<hr />"@))
}

/// Cuts the rendered document into its slides.
pub fn extract_slides(html_content: &str) -> (r: Vec<String>)
    ensures
        strings(r@) == slides_of(html_content@),
{
    let chars = to_chars(html_content);
    let rule = to_chars("<hr />");
    let parts = split(&chars, &rule);
    let mut out: Vec<String> = Vec::new();
    let mut i: usize = 0;
    while i < parts.len()
        invariant
            i <= parts.len(),
            out.len() == i,
            forall|k: int| 0 <= k < i ==> (#[trigger] out@[k])@ == trimmed(parts@[k]@),
        decreases parts.len() - i,
    {
        let slide = from_chars(&trim(&parts[i]));
        out.push(slide);
        i += 1;
    }
    proof {
        assert(strings(out@) =~= each_trimmed(texts(parts@)));
    }
    out
}

/// `lead`, and after it, on a line of its own, what follows without white
/// space around it; `lead` alone where nothing but white space follows.
pub open spec fn lead_and_rest(lead: Seq<char>, rest: Seq<char>) -> Seq<char> {
    if trimmed(rest).len() == 0 {
        lead
    } else {
        lead + "\n"@ + trimmed(rest)
    }
}

/// `p` without one leading `#`.
pub open spec fn without_hash(p: Seq<char>) -> Seq<char> {
    if p.len() > 0 && p[0] == '#' {
        p.drop_first()
    } else {
        p
    }
}

/// The text between the first `open` and the first `close` of `slide`,
/// followed by what comes after that `close`; `None` unless the first
/// `close` begins at or after the end of the first `open`.
pub open spec fn unwrapped(slide: Seq<char>, open: Seq<char>, close: Seq<char>) -> Option<
    (Seq<char>, Seq<char>),
> {
    match (first_occurrence(slide, open), first_occurrence(slide, close)) {
        (Some(a), Some(b)) if 0 <= a && a + open.len() <= b && b + close.len() <= slide.len() => Some(
            (slide.subrange(a + open.len(), b), slide.skip(b + close.len())),
        ),
        _ => None,
    }
}

/// What a slide shows. A slide with a first-level heading shows the
/// heading's text without its tags, then the rest. One without such a
/// heading but with a paragraph shows the paragraph's text without its tags
/// and without a leading `#`, then the rest. A slide whose first closing tag
/// does not follow its first opening tag, or that has neither element, is
/// shown as it is.
pub open spec fn slide_content(slide: Seq<char>) -> Seq<char> {
    if first_occurrence(slide, "<h1>"@) is Some {
        match unwrapped(slide, "<h1>"@, "</h1>"@) {
            Some((title, body)) => lead_and_rest(title, body),
            None => slide,
        }
    } else if first_occurrence(slide, "<p>"@) is Some {
        match unwrapped(slide, "<p>"@, "</p>"@) {
            Some((text, rest)) => lead_and_rest(without_hash(text), rest),
            None => slide,
        }
    } else {
        slide
    }
}

/// Splits `slide` at its first `open` and first `close`.
pub fn unwrap_element(slide: &Vec<char>, open: &Vec<char>, close: &Vec<char>) -> (r: Option<
    (Vec<char>, Vec<char>),
>)
    ensures
        match r {
            Some((inner, rest)) => unwrapped(slide@, open@, close@) == Some((inner@, rest@)),
            None => unwrapped(slide@, open@, close@) is None,
        },
{
    proof {
        lemma_first_occurrence(slide@, open@);
        lemma_first_occurrence(slide@, close@);
    }
    let first_open = find(slide, open);
    let first_close = find(slide, close);
    match (first_open, first_close) {
        (Some(a), Some(b)) => {
            assert(a + open.len() <= slide.len()) by {
                assert(occurs_at(slide@, open@, a as int));
            }
            assert(b + close.len() <= slide.len()) by {
                assert(occurs_at(slide@, close@, b as int));
            }
            if a + open.len() <= b {
                let inner = copy_range(slide, a + open.len(), b);
                let rest = copy_range(slide, b + close.len(), slide.len());
                proof {
                    assert(slide@.subrange(b + close@.len(), slide@.len() as int) =~= slide@.skip(
                        b + close@.len(),
                    ));
                }
                Some((inner, rest))
            } else {
                None
            }
        },
        _ => None,
    }
}

/// Joins a lead and what follows it.
pub fn join_lead_and_rest(lead: Vec<char>, rest: &Vec<char>) -> (r: Vec<char>)
    ensures
        r@ == lead_and_rest(lead@, rest@),
{
    let body = trim(rest);
    if body.len() == 0 {
        lead
    } else {
        let mut out = lead;
        append_str(&mut out, "\n");
        append(&mut out, &body);
        out
    }
}

/// What a slide shows: its heading or first paragraph without the tags, then
/// the rest.
pub fn extract_slide_content(slide: &str) -> (r: String)
    ensures
        r@ == slide_content(slide@),
{
    let chars = to_chars(slide);
    let h1 = to_chars("<h1>");
    let h1_end = to_chars("</h1>");
    let p = to_chars("<p>");
    let p_end = to_chars("</p>");
    if find(&chars, &h1).is_some() {
        match unwrap_element(&chars, &h1, &h1_end) {
            Some((title, body)) => from_chars(&join_lead_and_rest(title, &body)),
            None => slide.to_owned(),
        }
    } else if find(&chars, &p).is_some() {
        match unwrap_element(&chars, &p, &p_end) {
            Some((text, rest)) => {
                let clean = if text.len() > 0 && text[0] == '#' {
                    let c = copy_range(&text, 1, text.len());
                    proof {
                        assert(text@.subrange(1, text@.len() as int) =~= text@.drop_first());
                    }
                    c
                } else {
                    text
                };
                from_chars(&join_lead_and_rest(clean, &rest))
            },
            None => slide.to_owned(),
        }
    } else {
        slide.to_owned()
    }
}

/// The HTML that the Markdown renderer gives for a source. With `raw_html`,
/// HTML in the source is passed through instead of being left out.
pub uninterp spec fn rendered_markdown(markdown: Seq<char>, raw_html: bool) -> Seq<char>;

/// `comrak::markdown_to_html` with the default options, but for the switch
/// that lets raw HTML through: the result is the rendering of the source,
/// and depends on the source and the switch alone.
#[verifier::external_body]
pub(crate) fn markdown_to_html(markdown: &str, raw_html: bool) -> (r: String)
    ensures
        r@ == rendered_markdown(markdown@, raw_html),
{
    let mut options = comrak::ComrakOptions::default();
    options.render.unsafe_ = raw_html;
    comrak::markdown_to_html(markdown, &options)
}

/// The elements that include `resources`, one per line and in order. A
/// resource that has no element is left out.
pub open spec fn tags_of(resources: Seq<LoadedResource>, kind: Seq<char>, embed: bool) -> Seq<char>
    decreases resources.len(),
{
    if resources.len() == 0 {
        Seq::empty()
    } else {
        let last = resources.last();
        tags_of(resources.drop_last(), kind, embed) + match tag_text(
            last.file.path@,
            kind,
            embed,
            last.read,
        ) {
            Some(t) => t + "\n"@,
            None => Seq::empty(),
        }
    }
}

/// One `div` per slide, each on a line of its own, holding what the slide
/// shows.
pub open spec fn slide_divs(slides: Seq<Seq<char>>) -> Seq<char>
    decreases slides.len(),
{
    if slides.len() == 0 {
        Seq::empty()
    } else {
        slide_divs(slides.drop_last()) + ("<div>"@ + slide_content(slides.last()) + "</div>\n"@)
    }
}

/// The lines that open every document.
pub open spec fn document_opening() -> Seq<char> {
    "<!DOCTYPE html>\n<html lang=\"en\">\n<head>\n"@ + "<meta charset=\"UTF-8\">\n"@
        + "<meta name=\"viewport\" content=\"width=device-width, initial-scale=1.0, maximum-scale=1.0, user-scalable=0\">\n"@
}

/// The reload script as it stands in the document: on a line of its own, or
/// nothing where there is none.
pub open spec fn reload_block(script: Option<Seq<char>>) -> Seq<char> {
    match script {
        Some(s) => s + "\n"@,
        None => Seq::empty(),
    }
}

/// The document: the head with the title and the stylesheets, then the body
/// with the slides of `rendered`, the scripts and the reload script.
pub open spec fn document(
    title: Seq<char>,
    css: Seq<LoadedResource>,
    js: Seq<LoadedResource>,
    embed: bool,
    rendered: Seq<char>,
    reload: Option<Seq<char>>,
) -> Seq<char> {
    document_opening() + ("<title>"@ + title + "</title>\n"@) + tags_of(css, "css"@, embed)
        + "</head>\n<body>\n"@ + slide_divs(slides_of(rendered)) + tags_of(js, "js"@, embed)
        + reload_block(reload) + "</body>\n</html>"@
}

/// The document for a Markdown source: that of its title and of the
/// rendering of its body, cut into slides.
pub open spec fn html_of(
    markdown: Seq<char>,
    css: Seq<LoadedResource>,
    js: Seq<LoadedResource>,
    embed: bool,
    reload: Option<Seq<char>>,
) -> Seq<char> {
    let front = frontmatter_of(markdown);
    document(
        front.title,
        css,
        js,
        embed,
        rendered_markdown(slides_markdown(front.body), true),
        reload,
    )
}

/// Appends the elements that include `resources`.
pub fn push_tags(out: &mut Vec<char>, resources: &Vec<LoadedResource>, kind: &str, embed: bool)
    ensures
        final(out)@ == old(out)@ + tags_of(resources@, kind@, embed),
{
    let mut i: usize = 0;
    proof {
        assert(resources@.take(0) =~= Seq::<LoadedResource>::empty());
        assert(out@ + tags_of(resources@.take(0), kind@, embed) =~= out@);
    }
    while i < resources.len()
        invariant
            i <= resources.len(),
            out@ == old(out)@ + tags_of(resources@.take(i as int), kind@, embed),
        decreases resources.len() - i,
    {
        let ghost before = out@;
        let ghost done = tags_of(resources@.take(i as int), kind@, embed);
        let resource = &resources[i];
        proof {
            assert(resources@.take(i as int + 1).drop_last() =~= resources@.take(i as int));
            assert(resources@.take(i as int + 1).last() == resources@[i as int]);
        }
        match resource.file.tag(kind, embed, &resource.read) {
            Ok(tag) => {
                append_str(out, tag.as_str());
                append_str(out, "\n");
                proof {
                    assert(out@ =~= old(out)@ + (done + (tag@ + "\n"@)));
                }
            },
            Err(_) => {
                proof {
                    assert(out@ =~= old(out)@ + (done + Seq::<char>::empty()));
                }
            },
        }
        i += 1;
    }
    proof {
        assert(resources@.take(resources.len() as int) =~= resources@);
    }
}

/// Appends one `div` per slide of the rendered document.
pub fn push_slides(out: &mut Vec<char>, rendered: &str)
    ensures
        final(out)@ == old(out)@ + slide_divs(slides_of(rendered@)),
{
    let slides = extract_slides(rendered);
    let ghost all = slides_of(rendered@);
    let mut i: usize = 0;
    proof {
        assert(all.take(0) =~= Seq::<Seq<char>>::empty());
        assert(out@ + slide_divs(all.take(0)) =~= out@);
    }
    while i < slides.len()
        invariant
            i <= slides.len(),
            all == strings(slides@),
            out@ == old(out)@ + slide_divs(all.take(i as int)),
        decreases slides.len() - i,
    {
        let ghost done = slide_divs(all.take(i as int));
        proof {
            assert(all.take(i as int + 1).drop_last() =~= all.take(i as int));
            assert(all.take(i as int + 1).last() == slides@[i as int]@);
        }
        let shown = extract_slide_content(slides[i].as_str());
        append_str(out, "<div>");
        append_str(out, shown.as_str());
        append_str(out, "</div>\n");
        proof {
            assert(out@ =~= old(out)@ + (done + ("<div>"@ + shown@ + "</div>\n"@)));
        }
        i += 1;
    }
    proof {
        assert(all.take(slides.len() as int) =~= all);
    }
}

/// Builds the document around a rendered body.
pub fn build_document(
    title: &str,
    css_files: &Vec<LoadedResource>,
    js_files: &Vec<LoadedResource>,
    embed_resources: bool,
    rendered: &str,
    auto_reload_script: &Option<String>,
) -> (r: String)
    ensures
        r@ == document(
            title@,
            css_files@,
            js_files@,
            embed_resources,
            rendered@,
            opt_text(*auto_reload_script),
        ),
{
    let mut out = to_chars("<!DOCTYPE html>\n<html lang=\"en\">\n<head>\n");
    append_str(&mut out, "<meta charset=\"UTF-8\">\n");
    append_str(
        &mut out,
        "<meta name=\"viewport\" content=\"width=device-width, initial-scale=1.0, maximum-scale=1.0, user-scalable=0\">\n",
    );
    append_str(&mut out, "<title>");
    append_str(&mut out, title);
    append_str(&mut out, "</title>\n");
    let ghost head = out@;
    proof {
        assert(head =~= document_opening() + ("<title>"@ + title@ + "</title>\n"@));
    }
    push_tags(&mut out, css_files, "css", embed_resources);
    append_str(&mut out, "</head>\n<body>\n");
    push_slides(&mut out, rendered);
    push_tags(&mut out, js_files, "js", embed_resources);
    let ghost body = out@;
    match auto_reload_script {
        Some(script) => {
            append_str(&mut out, script.as_str());
            append_str(&mut out, "\n");
            proof {
                assert(out@ =~= body + (script@ + "\n"@));
            }
        },
        None => {
            proof {
                assert(out@ =~= body + Seq::<char>::empty());
            }
        },
    }
    append_str(&mut out, "</body>\n</html>");
    from_chars(&out)
}

/// Generates the document for a Markdown source. `source` is what reading
/// the file at `markdown_path` gave; each resource comes with what reading
/// it gave. A resource that cannot be included is left out of the document.
pub fn generate_html(
    markdown_path: &str,
    source: &ContentRead,
    css_files: &Vec<LoadedResource>,
    js_files: &Vec<LoadedResource>,
    embed_resources: bool,
    auto_reload_script: Option<String>,
) -> (r: Result<String>)
    ensures
        match *source {
            ContentRead::Text(markdown) => r matches Ok(html) && html@ == html_of(
                markdown@,
                css_files@,
                js_files@,
                embed_resources,
                opt_text(auto_reload_script),
            ),
            _ => r is Err && is_content_of(r, markdown_path@, *source),
        },
{
    let origin = ResourceFile { path: markdown_path.to_owned(), is_remote: false };
    match origin.content(source) {
        Err(e) => Err(e),
        Ok(markdown) => {
            let (title, _author, _date, body) = parse_frontmatter(markdown.as_str());
            let processed = process_content_for_slides(body);
            let rendered = markdown_to_html(processed.as_str(), true);
            Ok(
                build_document(
                    title.as_str(),
                    css_files,
                    js_files,
                    embed_resources,
                    rendered.as_str(),
                    &auto_reload_script,
                ),
            )
        },
    }
}

/// Generates the document for a Markdown source, without a reload script.
pub fn generate_html_without_reload(
    markdown_path: &str,
    source: &ContentRead,
    css_files: &Vec<LoadedResource>,
    js_files: &Vec<LoadedResource>,
    embed_resources: bool,
) -> (r: Result<String>)
    ensures
        match *source {
            ContentRead::Text(markdown) => r matches Ok(html) && html@ == html_of(
                markdown@,
                css_files@,
                js_files@,
                embed_resources,
                None,
            ),
            _ => r is Err && is_content_of(r, markdown_path@, *source),
        },
{
    generate_html(markdown_path, source, css_files, js_files, embed_resources, None)
}

} // verus!
