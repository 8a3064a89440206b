//! Markdown files that open with a front-matter block between `---` lines.

use vstd::prelude::*;
use vstd::string::*;
use crate::text::{
    find_text, first_occurrence, has_prefix, split_text, starts_with_text, trim, trimmed, views,
};

verus! {

/// A markdown file split at its front matter.
#[derive(Debug)]
pub enum FrontmatterSplit {
    /// The trimmed content does not open with `---`: all of it is the body.
    Plain(String),
    /// It opens with `---` that no second `---` closes.
    Unclosed,
    /// The text between the two markers and the text after the second,
    /// both trimmed.
    Block { yaml: String, body: String },
}

/// Whether the trimmed content opens with `---`.
pub open spec fn opens_block(content: Seq<char>) -> bool {
    has_prefix(trimmed(content), "---"@)
}

/// What follows the opening `---` of the trimmed content.
pub open spec fn after_opening(content: Seq<char>) -> Seq<char> {
    trimmed(content).skip(3)
}

/// Where the closing `---` starts, within what follows the opening one.
pub open spec fn closing_at(content: Seq<char>) -> Option<int> {
    first_occurrence(after_opening(content), "---"@)
}

/// Splits `content` at its front matter.
pub fn split_frontmatter(content: &str) -> (r: FrontmatterSplit)
    ensures
        !opens_block(content@) ==> (r matches FrontmatterSplit::Plain(b) && b@ == trimmed(content@)),
        opens_block(content@) && closing_at(content@) is None ==> r is Unclosed,
        opens_block(content@) && closing_at(content@) is Some ==> (r matches FrontmatterSplit::Block {
            yaml,
            body,
        } && yaml@ == trimmed(after_opening(content@).take(closing_at(content@)->Some_0)) && body@
            == trimmed(after_opening(content@).skip(closing_at(content@)->Some_0 + 3))),
{
    let t = trim(content);
    if !starts_with_text(t, "---") {
        return FrontmatterSplit::Plain(String::from_str(t));
    }
    proof {
        reveal_strlit("---");
    }
    let n = t.unicode_len();
    let after = t.substring_char(3, n);
    match find_text(after, "---") {
        None => FrontmatterSplit::Unclosed,
        Some(pos) => {
            let m = after.unicode_len();
            let yaml = trim(after.substring_char(0, pos));
            let body = trim(after.substring_char(pos + 3, m));
            assert(after@.subrange(0, pos as int) =~= after@.take(pos as int));
            assert(after@.subrange(pos + 3, m as int) =~= after@.skip(pos + 3));
            FrontmatterSplit::Block { yaml: String::from_str(yaml), body: String::from_str(body) }
        },
    }
}

} // verus!

verus! {

/// The lines of a text: the pieces between line feeds.
pub open spec fn lines_of(s: Seq<char>) -> Seq<Seq<char>> {
    crate::text::pieces(s, '\n')
}

/// `t` cut to `limit` characters, with `...` appended, when it is longer.
pub open spec fn shortened(t: Seq<char>, limit: nat) -> Seq<char> {
    if t.len() > limit {
        t.take(limit as int) + "..."@
    } else {
        t
    }
}

/// `t` cut to `limit` characters, with `...` appended, when it is longer.
pub fn shorten(t: &str, limit: usize) -> (r: String)
    ensures
        r@ == shortened(t@, limit as nat),
{
    let n = t.unicode_len();
    if n > limit {
        let mut s = String::from_str(t.substring_char(0, limit));
        s.append("...");
        assert(t@.subrange(0, limit as int) =~= t@.take(limit as int));
        s
    } else {
        String::from_str(t)
    }
}

/// The first line that, trimmed, is neither empty nor a heading; trimmed.
pub open spec fn first_text_line(ls: Seq<Seq<char>>) -> Option<Seq<char>>
    decreases ls.len(),
{
    if ls.len() == 0 {
        None
    } else if trimmed(ls[0]).len() > 0 && !has_prefix(trimmed(ls[0]), "#"@) {
        Some(trimmed(ls[0]))
    } else {
        first_text_line(ls.drop_first())
    }
}

/// What follows the front matter of a markdown file: everything after the
/// closing `---`, when the trimmed text opens with `---` and a second one
/// follows the first three characters; otherwise the whole text.
pub open spec fn body_of(content: Seq<char>) -> Seq<char> {
    if content.len() >= 3 && opens_block(content) && first_occurrence(content.skip(3), "---"@) is Some {
        content.skip(first_occurrence(content.skip(3), "---"@)->Some_0 + 6)
    } else {
        content
    }
}

/// The description a markdown file gives of itself: its first line of text
/// after the front matter that is not a heading, cut to `limit` characters.
pub open spec fn content_description(content: Seq<char>, limit: nat) -> Option<Seq<char>> {
    match first_text_line(lines_of(body_of(content))) {
        Some(t) => Some(shortened(t, limit)),
        None => None,
    }
}

/// The description a markdown file gives of itself, cut to `limit`
/// characters.
#[verifier::rlimit(40)]
pub fn extract_description_from_content(content: &str, limit: usize) -> (r: Option<String>)
    ensures
        match content_description(content@, limit as nat) {
            Some(d) => r is Some && r->Some_0@ == d,
            None => r is None,
        },
{
    let n = content.unicode_len();
    let mut body = content;
    if n >= 3 && starts_with_text(trim(content), "---") {
        let rest = content.substring_char(3, n);
        assert(rest@ =~= content@.skip(3));
        if let Some(pos) = find_text(rest, "---") {
            proof {
                reveal_strlit("---");
            }
            body = content.substring_char(pos + 6, n);
            assert(body@ =~= content@.skip(pos + 6));
        }
    }
    assert(body@ == body_of(content@));
    let lines = split_text(body, '\n');
    let mut i: usize = 0;
    assert(views(lines@).skip(0) =~= views(lines@));
    while i < lines.len()
        invariant
            i <= lines@.len(),
            views(lines@) == lines_of(body_of(content@)),
            first_text_line(views(lines@)) == first_text_line(views(lines@).skip(i as int)),
        decreases lines@.len() - i,
    {
        let t = trim(lines[i].as_str());
        assert(views(lines@).skip(i as int)[0] == lines@[i as int]@);
        assert(views(lines@).skip(i as int).drop_first() =~= views(lines@).skip(i + 1));
        if t.unicode_len() > 0 && !starts_with_text(t, "#") {
            return Some(shorten(t, limit));
        }
        i += 1;
    }
    None
}

/// The text of the first heading line (`# ` and what follows), trimmed.
pub open spec fn title_in(ls: Seq<Seq<char>>) -> Option<Seq<char>>
    decreases ls.len(),
{
    if ls.len() == 0 {
        None
    } else if has_prefix(trimmed(ls[0]), "# "@) {
        Some(trimmed(trimmed(ls[0]).skip(2)))
    } else {
        title_in(ls.drop_first())
    }
}

/// The text of the first top-level heading of a markdown file.
pub fn extract_title(content: &str) -> (r: Option<String>)
    ensures
        match title_in(lines_of(content@)) {
            Some(t) => r is Some && r->Some_0@ == t,
            None => r is None,
        },
{
    let lines = split_text(content, '\n');
    let mut i: usize = 0;
    assert(views(lines@).skip(0) =~= views(lines@));
    while i < lines.len()
        invariant
            i <= lines@.len(),
            views(lines@) == lines_of(content@),
            title_in(views(lines@)) == title_in(views(lines@).skip(i as int)),
        decreases lines@.len() - i,
    {
        let t = trim(lines[i].as_str());
        assert(views(lines@).skip(i as int)[0] == lines@[i as int]@);
        assert(views(lines@).skip(i as int).drop_first() =~= views(lines@).skip(i + 1));
        if starts_with_text(t, "# ") {
            proof {
                reveal_strlit("# ");
            }
            let n = t.unicode_len();
            let rest = trim(t.substring_char(2, n));
            assert(t@.subrange(2, n as int) =~= t@.skip(2));
            return Some(String::from_str(rest));
        }
        i += 1;
    }
    None
}

/// The first paragraph line that follows a heading, trimmed and cut to
/// `limit` characters, once some heading has been seen.
pub open spec fn description_in(ls: Seq<Seq<char>>, seen_heading: bool, limit: nat) -> Option<Seq<char>>
    decreases ls.len(),
{
    if ls.len() == 0 {
        None
    } else if has_prefix(trimmed(ls[0]), "#"@) {
        description_in(ls.drop_first(), true, limit)
    } else if seen_heading && trimmed(ls[0]).len() > 0 {
        Some(shortened(trimmed(ls[0]), limit))
    } else {
        description_in(ls.drop_first(), seen_heading, limit)
    }
}

/// The first line of text after a heading of a memory file, cut to 150
/// characters, or a stock description.
pub fn extract_description(content: &str) -> (r: String)
    ensures
        match description_in(lines_of(content@), false, 150) {
            Some(d) => r@ == d,
            None => r@ == "Assistant memory and instructions"@,
        },
{
    let lines = split_text(content, '\n');
    let mut seen = false;
    let mut i: usize = 0;
    assert(views(lines@).skip(0) =~= views(lines@));
    while i < lines.len()
        invariant
            i <= lines@.len(),
            views(lines@) == lines_of(content@),
            description_in(views(lines@), false, 150) == description_in(
                views(lines@).skip(i as int),
                seen,
                150,
            ),
        decreases lines@.len() - i,
    {
        let t = trim(lines[i].as_str());
        assert(views(lines@).skip(i as int)[0] == lines@[i as int]@);
        assert(views(lines@).skip(i as int).drop_first() =~= views(lines@).skip(i + 1));
        if starts_with_text(t, "#") {
            seen = true;
        } else if seen && t.unicode_len() > 0 {
            return shorten(t, 150);
        }
        i += 1;
    }
    String::from_str("Assistant memory and instructions")
}

} // verus!
