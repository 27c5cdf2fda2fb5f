//! Conversion of Markdown source into an HTML fragment.
//!
//! The dialect covers headings, paragraphs, unordered lists, fenced code
//! blocks, inline code spans, emphasis, strong emphasis, links, and the
//! escaping of `&`, `<` and `>` in text content.  The renderer is pure: the
//! fragment is a function of the source characters alone.

use vstd::prelude::*;

verus! {

/// The first position of `c` in `s[from..to]`, if any.
pub open spec fn find_char(s: Seq<char>, c: char, from: int, to: int) -> Option<int>
    decreases to - from,
{
    if from < 0 || from >= to || to > s.len() {
        None
    } else if s[from] == c {
        Some(from)
    } else {
        find_char(s, c, from + 1, to)
    }
}

/// The first position of a doubled `c` in `s[from..to]`, if any.
pub open spec fn find_double(s: Seq<char>, c: char, from: int, to: int) -> Option<int>
    decreases to - from,
{
    if from < 0 || from + 1 >= to || to > s.len() {
        None
    } else if s[from] == c && s[from + 1] == c {
        Some(from)
    } else {
        find_double(s, c, from + 1, to)
    }
}

/// A found position lies in the searched range.
pub proof fn lemma_find_char_bounds(s: Seq<char>, c: char, from: int, to: int)
    ensures
        find_char(s, c, from, to) matches Some(j) ==> from <= j < to && j < s.len(),
    decreases to - from,
{
    if !(from < 0 || from >= to || to > s.len()) && s[from] != c {
        lemma_find_char_bounds(s, c, from + 1, to);
    }
}

/// A found doubled position lies in the searched range, one short of its end.
pub proof fn lemma_find_double_bounds(s: Seq<char>, c: char, from: int, to: int)
    ensures
        find_double(s, c, from, to) matches Some(j) ==> from <= j && j + 1 < to && j + 1
            < s.len(),
    decreases to - from,
{
    if !(from < 0 || from + 1 >= to || to > s.len()) && !(s[from] == c && s[from + 1] == c) {
        lemma_find_double_bounds(s, c, from + 1, to);
    }
}

/// The HTML escape of one text character.
pub open spec fn esc_char(c: char) -> Seq<char> {
    if c == '&' {
        "&amp;"@
    } else if c == '<' {
        "&lt;"@
    } else if c == '>' {
        "&gt;"@
    } else {
        seq![c]
    }
}

/// The HTML escape of the text `s[from..to]`.
pub open spec fn escape_range(s: Seq<char>, from: int, to: int) -> Seq<char>
    decreases to - from,
{
    if from < 0 || from >= to || to > s.len() {
        Seq::empty()
    } else {
        esc_char(s[from]) + escape_range(s, from + 1, to)
    }
}

/// Escaping one more trailing character appends its escape.
pub proof fn lemma_escape_snoc(s: Seq<char>, from: int, k: int)
    requires
        0 <= from <= k < s.len(),
    ensures
        escape_range(s, from, k + 1) =~= escape_range(s, from, k) + esc_char(s[k]),
    decreases k - from,
{
    if from < k {
        lemma_escape_snoc(s, from + 1, k);
        assert(escape_range(s, from, k + 1) =~= esc_char(s[from]) + escape_range(s, from + 1, k
            + 1));
        assert(esc_char(s[from]) + (escape_range(s, from + 1, k) + esc_char(s[k])) =~= (esc_char(
            s[from],
        ) + escape_range(s, from + 1, k)) + esc_char(s[k]));
    } else {
        assert(escape_range(s, k, k + 1) =~= esc_char(s[k]) + escape_range(s, k + 1, k + 1));
        assert(esc_char(s[k]) + Seq::<char>::empty() =~= esc_char(s[k]));
        assert(escape_range(s, k, k) + esc_char(s[k]) =~= esc_char(s[k]));
    }
}

/// The inline HTML of the span `s[from..to]`: code spans, strong emphasis,
/// emphasis, links, and escaped text; an opener with no closer in the span
/// stays a literal character.
pub open spec fn inline_range(s: Seq<char>, from: int, to: int) -> Seq<char>
    decreases to - from,
    via inline_range_dec
{
    if from < 0 || from >= to || to > s.len() {
        Seq::empty()
    } else {
        let c = s[from];
        if c == '`' {
            match find_char(s, '`', from + 1, to) {
                Some(j) => "<code>"@ + escape_range(s, from + 1, j) + "</code>"@ + inline_range(
                    s,
                    j + 1,
                    to,
                ),
                None => seq![c] + inline_range(s, from + 1, to),
            }
        } else if c == '*' && from + 1 < to && s[from + 1] == '*' {
            match find_double(s, '*', from + 2, to) {
                Some(j) => "<strong>"@ + escape_range(s, from + 2, j) + "</strong>"@
                    + inline_range(s, j + 2, to),
                None => seq![c] + inline_range(s, from + 1, to),
            }
        } else if c == '*' {
            match find_char(s, '*', from + 1, to) {
                Some(j) => "<em>"@ + escape_range(s, from + 1, j) + "</em>"@ + inline_range(
                    s,
                    j + 1,
                    to,
                ),
                None => seq![c] + inline_range(s, from + 1, to),
            }
        } else if c == '[' {
            match find_char(s, ']', from + 1, to) {
                Some(cb) => if cb + 1 < to && s[cb + 1] == '(' {
                    match find_char(s, ')', cb + 2, to) {
                        Some(cp) => "<a href=\""@ + escape_range(s, cb + 2, cp) + "\">"@
                            + escape_range(s, from + 1, cb) + "</a>"@ + inline_range(
                            s,
                            cp + 1,
                            to,
                        ),
                        None => seq![c] + inline_range(s, from + 1, to),
                    }
                } else {
                    seq![c] + inline_range(s, from + 1, to)
                },
                None => seq![c] + inline_range(s, from + 1, to),
            }
        } else {
            esc_char(c) + inline_range(s, from + 1, to)
        }
    }
}

#[via_fn]
proof fn inline_range_dec(s: Seq<char>, from: int, to: int) {
    lemma_find_char_bounds(s, '`', from + 1, to);
    lemma_find_double_bounds(s, '*', from + 2, to);
    lemma_find_char_bounds(s, '*', from + 1, to);
    lemma_find_char_bounds(s, ']', from + 1, to);
    if 0 <= from && from < to && to <= s.len() {
        match find_char(s, ']', from + 1, to) {
            Some(cb) => {
                lemma_find_char_bounds(s, ')', cb + 2, to);
            },
            None => {},
        }
    }
}

/// The end of the line starting at `i`: the next newline, or the end of the
/// text.
pub open spec fn line_end(s: Seq<char>, i: int) -> int {
    match find_char(s, '\n', i, s.len() as int) {
        Some(j) => j,
        None => s.len() as int,
    }
}

/// A line end lies between `i` and the end of the text.
pub proof fn lemma_line_end_bounds(s: Seq<char>, i: int)
    requires
        0 <= i <= s.len(),
    ensures
        i <= line_end(s, i) <= s.len(),
{
    lemma_find_char_bounds(s, '\n', i, s.len() as int);
}

/// The position of the line after the one ending at `e`, clamped to the end
/// of the text.
pub open spec fn next_line(s: Seq<char>, e: int) -> int {
    if e + 1 <= s.len() {
        e + 1
    } else {
        s.len() as int
    }
}

/// The number of leading `#` characters of the line `s[i..e]`.
pub open spec fn hash_run(s: Seq<char>, i: int, e: int) -> int
    decreases e - i,
{
    if i < 0 || i >= e || e > s.len() || s[i] != '#' {
        0
    } else {
        1 + hash_run(s, i + 1, e)
    }
}

/// Whether the line `s[i..e]` opens or closes a fenced code block.
pub open spec fn is_fence(s: Seq<char>, i: int, e: int) -> bool {
    e - i >= 3 && e <= s.len() && i >= 0 && s[i] == '`' && s[i + 1] == '`' && s[i + 2] == '`'
}

/// Whether the line `s[i..e]` is an unordered list item.
pub open spec fn is_item(s: Seq<char>, i: int, e: int) -> bool {
    e - i >= 2 && e <= s.len() && i >= 0 && s[i] == '-' && s[i + 1] == ' '
}

/// The heading level of the line `s[i..e]`: 1 to 6 when the line starts
/// with that many `#` followed by a space, 0 otherwise.
pub open spec fn heading_level(s: Seq<char>, i: int, e: int) -> int {
    let h = hash_run(s, i, e);
    if 1 <= h <= 6 && i + h < e && e <= s.len() && i >= 0 && s[i + h] == ' ' {
        h
    } else {
        0
    }
}

/// The opening tag of a heading of level `h`.
pub open spec fn heading_open(h: int) -> Seq<char> {
    if h == 1 {
        "<h1>"@
    } else if h == 2 {
        "<h2>"@
    } else if h == 3 {
        "<h3>"@
    } else if h == 4 {
        "<h4>"@
    } else if h == 5 {
        "<h5>"@
    } else {
        "<h6>"@
    }
}

/// The closing tag of a heading of level `h`.
pub open spec fn heading_close(h: int) -> Seq<char> {
    if h == 1 {
        "</h1>"@
    } else if h == 2 {
        "</h2>"@
    } else if h == 3 {
        "</h3>"@
    } else if h == 4 {
        "</h4>"@
    } else if h == 5 {
        "</h5>"@
    } else {
        "</h6>"@
    }
}

/// The HTML of the blocks from position `i` on, outside any list or code
/// block.
pub open spec fn blocks_from(s: Seq<char>, i: int) -> Seq<char>
    decreases s.len() - i, 0int,
    via blocks_from_dec
{
    if i < 0 || i >= s.len() {
        Seq::empty()
    } else {
        let e = line_end(s, i);
        if is_fence(s, i, e) {
            "<pre><code>\n"@ + code_from(s, next_line(s, e))
        } else if is_item(s, i, e) {
            "<ul>\n<li>"@ + inline_range(s, i + 2, e) + "</li>\n"@ + list_from(s, next_line(s, e))
        } else if heading_level(s, i, e) > 0 {
            let h = heading_level(s, i, e);
            heading_open(h) + inline_range(s, i + h + 1, e) + heading_close(h) + "\n"@
                + blocks_from(s, next_line(s, e))
        } else if e == i {
            blocks_from(s, next_line(s, e))
        } else {
            "<p>"@ + inline_range(s, i, e) + "</p>\n"@ + blocks_from(s, next_line(s, e))
        }
    }
}

/// The HTML from position `i` on while inside an open `<ul>`: further items
/// join the list; anything else closes it first.
pub open spec fn list_from(s: Seq<char>, i: int) -> Seq<char>
    decreases s.len() - i, 1int,
    via list_from_dec
{
    if i < 0 || i >= s.len() {
        "</ul>\n"@
    } else {
        let e = line_end(s, i);
        if is_item(s, i, e) {
            "<li>"@ + inline_range(s, i + 2, e) + "</li>\n"@ + list_from(s, next_line(s, e))
        } else {
            "</ul>\n"@ + blocks_from(s, i)
        }
    }
}

/// The HTML from position `i` on while inside an open code block: lines are
/// escaped verbatim until a closing fence or the end of the text.
pub open spec fn code_from(s: Seq<char>, i: int) -> Seq<char>
    decreases s.len() - i, 0int,
    via code_from_dec
{
    if i < 0 || i >= s.len() {
        "</code></pre>\n"@
    } else {
        let e = line_end(s, i);
        if is_fence(s, i, e) {
            "</code></pre>\n"@ + blocks_from(s, next_line(s, e))
        } else {
            escape_range(s, i, e) + "\n"@ + code_from(s, next_line(s, e))
        }
    }
}

#[via_fn]
proof fn blocks_from_dec(s: Seq<char>, i: int) {
    if 0 <= i < s.len() {
        lemma_line_end_bounds(s, i);
    }
}

#[via_fn]
proof fn list_from_dec(s: Seq<char>, i: int) {
    if 0 <= i < s.len() {
        lemma_line_end_bounds(s, i);
    }
}

#[via_fn]
proof fn code_from_dec(s: Seq<char>, i: int) {
    if 0 <= i < s.len() {
        lemma_line_end_bounds(s, i);
    }
}

/// The HTML fragment of a whole Markdown source text.
pub open spec fn markdown_html(s: Seq<char>) -> Seq<char> {
    blocks_from(s, 0)
}

} // verus!

use vstd::string::StrSliceExecFns;

verus! {

/// The characters of a string slice as a vector.
pub fn chars_of(s: &str) -> (r: Vec<char>)
    ensures
        r@ == s@,
{
    let n = s.unicode_len();
    let mut r: Vec<char> = Vec::new();
    let mut i: usize = 0;
    while i < n
        invariant
            i <= n,
            n == s@.len(),
            r@ == s@.subrange(0, i as int),
        decreases n - i,
    {
        let c = s.get_char(i);
        r.push(c);
        proof {
            assert(s@.subrange(0, i as int).push(s@[i as int]) =~= s@.subrange(0, i as int + 1));
        }
        i = i + 1;
    }
    proof {
        assert(s@.subrange(0, n as int) =~= s@);
    }
    r
}

/// Appends the characters of a literal to the output.
fn push_lit(out: &mut Vec<char>, lit: &str)
    ensures
        final(out)@ == old(out)@ + lit@,
{
    let n = lit.unicode_len();
    let mut k: usize = 0;
    while k < n
        invariant
            k <= n,
            n == lit@.len(),
            out@ == old(out)@ + lit@.subrange(0, k as int),
        decreases n - k,
    {
        out.push(lit.get_char(k));
        proof {
            assert(old(out)@ + lit@.subrange(0, k as int + 1) =~= (old(out)@ + lit@.subrange(
                0,
                k as int,
            )).push(lit@[k as int]));
        }
        k = k + 1;
    }
    proof {
        assert(lit@.subrange(0, n as int) =~= lit@);
    }
}

/// The first position of `c` in `s[from..to]`, by scan.
fn find_char_in(s: &Vec<char>, c: char, from: usize, to: usize) -> (r: Option<usize>)
    requires
        to <= s.len(),
    ensures
        match r {
            Some(j) => find_char(s@, c, from as int, to as int) == Some(j as int) && from <= j
                < to,
            None => find_char(s@, c, from as int, to as int) is None,
        },
{
    let mut k = from;
    while k < to
        invariant
            from <= k,
            to <= s.len(),
            find_char(s@, c, from as int, to as int) == find_char(s@, c, k as int, to as int),
        decreases to - k,
    {
        if s[k] == c {
            return Some(k);
        }
        k = k + 1;
    }
    None
}

/// The first position of a doubled `c` in `s[from..to]`, by scan.
fn find_double_in(s: &Vec<char>, c: char, from: usize, to: usize) -> (r: Option<usize>)
    requires
        to <= s.len(),
    ensures
        match r {
            Some(j) => find_double(s@, c, from as int, to as int) == Some(j as int) && from <= j
                && j + 1 < to,
            None => find_double(s@, c, from as int, to as int) is None,
        },
{
    if to < 2 || from >= to - 1 {
        return None;
    }
    let mut k = from;
    while k + 1 < to
        invariant
            from <= k < to,
            to <= s.len(),
            find_double(s@, c, from as int, to as int) == find_double(s@, c, k as int, to as int),
        decreases to - k,
    {
        if s[k] == c && s[k + 1] == c {
            return Some(k);
        }
        k = k + 1;
    }
    None
}

/// Appends the escape of `s[from..to]` to the output.
fn escape_push(out: &mut Vec<char>, s: &Vec<char>, from: usize, to: usize)
    requires
        from <= to <= s.len(),
    ensures
        final(out)@ == old(out)@ + escape_range(s@, from as int, to as int),
{
    let mut k = from;
    proof {
        assert(old(out)@ + escape_range(s@, from as int, from as int) =~= old(out)@);
    }
    while k < to
        invariant
            from <= k <= to,
            to <= s.len(),
            out@ == old(out)@ + escape_range(s@, from as int, k as int),
        decreases to - k,
    {
        let c = s[k];
        let ghost pre = out@;
        proof {
            lemma_escape_snoc(s@, from as int, k as int);
        }
        if c == '&' {
            push_lit(out, "&amp;");
        } else if c == '<' {
            push_lit(out, "&lt;");
        } else if c == '>' {
            push_lit(out, "&gt;");
        } else {
            out.push(c);
            proof {
                assert(out@ =~= pre + seq![c]);
            }
        }
        proof {
            assert(out@ =~= old(out)@ + escape_range(s@, from as int, k as int + 1));
        }
        k = k + 1;
    }
}

/// Appends the inline HTML of the span `s[from..to]` to the output.
fn inline_push(out: &mut Vec<char>, s: &Vec<char>, from: usize, to: usize)
    requires
        from <= to <= s.len(),
    ensures
        final(out)@ == old(out)@ + inline_range(s@, from as int, to as int),
{
    let mut k = from;
    while k < to
        invariant
            from <= k <= to,
            to <= s.len(),
            old(out)@ + inline_range(s@, from as int, to as int) == out@ + inline_range(
                s@,
                k as int,
                to as int,
            ),
        decreases to - k,
    {
        let ghost k0 = k as int;
        let ghost pre = out@;
        let c = s[k];
        if c == '`' {
            match find_char_in(s, '`', k + 1, to) {
                Some(j) => {
                    push_lit(out, "<code>");
                    escape_push(out, s, k + 1, j);
                    push_lit(out, "</code>");
                    proof {
                        let tail = inline_range(s@, j as int + 1, to as int);
                        assert(inline_range(s@, k0, to as int) == "<code>"@ + escape_range(
                            s@,
                            k0 + 1,
                            j as int,
                        ) + "</code>"@ + tail);
                        assert(pre + ("<code>"@ + escape_range(s@, k0 + 1, j as int) + "</code>"@
                            + tail) =~= out@ + tail);
                    }
                    k = j + 1;
                },
                None => {
                    out.push(c);
                    proof {
                        let tail = inline_range(s@, k0 + 1, to as int);
                        assert(inline_range(s@, k0, to as int) == seq![c] + tail);
                        assert(pre + (seq![c] + tail) =~= out@ + tail);
                    }
                    k = k + 1;
                },
            }
        } else if c == '*' && k + 1 < to && s[k + 1] == '*' {
            match find_double_in(s, '*', k + 2, to) {
                Some(j) => {
                    push_lit(out, "<strong>");
                    escape_push(out, s, k + 2, j);
                    push_lit(out, "</strong>");
                    proof {
                        let tail = inline_range(s@, j as int + 2, to as int);
                        assert(inline_range(s@, k0, to as int) == "<strong>"@ + escape_range(
                            s@,
                            k0 + 2,
                            j as int,
                        ) + "</strong>"@ + tail);
                        assert(pre + ("<strong>"@ + escape_range(s@, k0 + 2, j as int)
                            + "</strong>"@ + tail) =~= out@ + tail);
                    }
                    k = j + 2;
                },
                None => {
                    out.push(c);
                    proof {
                        let tail = inline_range(s@, k0 + 1, to as int);
                        assert(inline_range(s@, k0, to as int) == seq![c] + tail);
                        assert(pre + (seq![c] + tail) =~= out@ + tail);
                    }
                    k = k + 1;
                },
            }
        } else if c == '*' {
            match find_char_in(s, '*', k + 1, to) {
                Some(j) => {
                    push_lit(out, "<em>");
                    escape_push(out, s, k + 1, j);
                    push_lit(out, "</em>");
                    proof {
                        let tail = inline_range(s@, j as int + 1, to as int);
                        assert(inline_range(s@, k0, to as int) == "<em>"@ + escape_range(
                            s@,
                            k0 + 1,
                            j as int,
                        ) + "</em>"@ + tail);
                        assert(pre + ("<em>"@ + escape_range(s@, k0 + 1, j as int) + "</em>"@
                            + tail) =~= out@ + tail);
                    }
                    k = j + 1;
                },
                None => {
                    out.push(c);
                    proof {
                        let tail = inline_range(s@, k0 + 1, to as int);
                        assert(inline_range(s@, k0, to as int) == seq![c] + tail);
                        assert(pre + (seq![c] + tail) =~= out@ + tail);
                    }
                    k = k + 1;
                },
            }
        } else if c == '[' {
            let mut linked = false;
            match find_char_in(s, ']', k + 1, to) {
                Some(cb) => {
                    if cb + 1 < to && s[cb + 1] == '(' {
                        match find_char_in(s, ')', cb + 2, to) {
                            Some(cp) => {
                                push_lit(out, "<a href=\"");
                                escape_push(out, s, cb + 2, cp);
                                push_lit(out, "\">");
                                escape_push(out, s, k + 1, cb);
                                push_lit(out, "</a>");
                                proof {
                                    let tail = inline_range(s@, cp as int + 1, to as int);
                                    assert(inline_range(s@, k0, to as int) == "<a href=\""@
                                        + escape_range(s@, cb as int + 2, cp as int) + "\">"@
                                        + escape_range(s@, k0 + 1, cb as int) + "</a>"@ + tail);
                                    assert(pre + ("<a href=\""@ + escape_range(
                                        s@,
                                        cb as int + 2,
                                        cp as int,
                                    ) + "\">"@ + escape_range(s@, k0 + 1, cb as int) + "</a>"@
                                        + tail) =~= out@ + tail);
                                }
                                k = cp + 1;
                                linked = true;
                            },
                            None => {},
                        }
                    }
                },
                None => {},
            }
            if !linked {
                out.push(c);
                proof {
                    let tail = inline_range(s@, k0 + 1, to as int);
                    assert(inline_range(s@, k0, to as int) == seq![c] + tail);
                    assert(pre + (seq![c] + tail) =~= out@ + tail);
                }
                k = k + 1;
            }
        } else {
            if c == '&' {
                push_lit(out, "&amp;");
            } else if c == '<' {
                push_lit(out, "&lt;");
            } else if c == '>' {
                push_lit(out, "&gt;");
            } else {
                out.push(c);
                proof {
                    assert(out@ =~= pre + seq![c]);
                }
            }
            proof {
                let tail = inline_range(s@, k0 + 1, to as int);
                assert(inline_range(s@, k0, to as int) == esc_char(c) + tail);
                assert(pre + (esc_char(c) + tail) =~= out@ + tail);
            }
            k = k + 1;
        }
    }
    proof {
        assert(out@ + inline_range(s@, to as int, to as int) =~= out@);
    }
}

} // verus!

verus! {

/// Where the block-level scan stands: between blocks, inside an open list,
/// or inside an open fenced code block.
enum Mode {
    Normal,
    InList,
    InCode,
}

/// The HTML still owed from position `i` in a given mode.
spec fn rest_html(s: Seq<char>, i: int, mode: Mode) -> Seq<char> {
    match mode {
        Mode::Normal => blocks_from(s, i),
        Mode::InList => list_from(s, i),
        Mode::InCode => code_from(s, i),
    }
}

/// The termination rank of a mode: leaving a list re-reads the same line.
spec fn mode_rank(mode: Mode) -> int {
    match mode {
        Mode::InList => 1,
        _ => 0,
    }
}

/// The length of the leading `#` run of the line `s[i..e]`.
fn hash_run_len(s: &Vec<char>, i: usize, e: usize) -> (h: usize)
    requires
        i <= e <= s.len(),
    ensures
        h as int == hash_run(s@, i as int, e as int),
        i + h <= e,
{
    let mut k = i;
    while k < e && s[k] == '#'
        invariant
            i <= k <= e,
            e <= s.len(),
            hash_run(s@, i as int, e as int) == (k - i) + hash_run(s@, k as int, e as int),
        decreases e - k,
    {
        k = k + 1;
    }
    k - i
}

/// Appends the opening tag of a heading of level `h`.
fn push_heading_open(out: &mut Vec<char>, h: usize)
    requires
        1 <= h <= 6,
    ensures
        final(out)@ == old(out)@ + heading_open(h as int),
{
    if h == 1 {
        push_lit(out, "<h1>");
    } else if h == 2 {
        push_lit(out, "<h2>");
    } else if h == 3 {
        push_lit(out, "<h3>");
    } else if h == 4 {
        push_lit(out, "<h4>");
    } else if h == 5 {
        push_lit(out, "<h5>");
    } else {
        push_lit(out, "<h6>");
    }
}

/// Appends the closing tag of a heading of level `h`.
fn push_heading_close(out: &mut Vec<char>, h: usize)
    requires
        1 <= h <= 6,
    ensures
        final(out)@ == old(out)@ + heading_close(h as int),
{
    if h == 1 {
        push_lit(out, "</h1>");
    } else if h == 2 {
        push_lit(out, "</h2>");
    } else if h == 3 {
        push_lit(out, "</h3>");
    } else if h == 4 {
        push_lit(out, "</h4>");
    } else if h == 5 {
        push_lit(out, "</h5>");
    } else {
        push_lit(out, "</h6>");
    }
}

/// One block-level step outside any list or code block: consumes the line
/// `src[i..e]` and says which mode it leaves the scan in.
fn step_normal(out: &mut Vec<char>, src: &Vec<char>, i: usize, e: usize, ni: usize) -> (r: Mode)
    requires
        i < src.len(),
        i <= e <= src.len(),
        e as int == line_end(src@, i as int),
        ni as int == next_line(src@, e as int),
    ensures
        final(out)@ + rest_html(src@, ni as int, r) == old(out)@ + blocks_from(src@, i as int),
{
    let ghost i0 = i as int;
    let ghost pre = out@;
    let fence = e - i >= 3 && src[i] == '`' && src[i + 1] == '`' && src[i + 2] == '`';
    let item = e - i >= 2 && src[i] == '-' && src[i + 1] == ' ';
    if fence {
        push_lit(out, "<pre><code>\n");
        proof {
            let tail = code_from(src@, ni as int);
            assert(blocks_from(src@, i0) == "<pre><code>\n"@ + tail);
            assert(pre + ("<pre><code>\n"@ + tail) =~= out@ + tail);
        }
        Mode::InCode
    } else if item {
        push_lit(out, "<ul>\n<li>");
        inline_push(out, src, i + 2, e);
        push_lit(out, "</li>\n");
        proof {
            let tail = list_from(src@, ni as int);
            assert(blocks_from(src@, i0) == "<ul>\n<li>"@ + inline_range(src@, i0 + 2, e as int)
                + "</li>\n"@ + tail);
            assert(pre + ("<ul>\n<li>"@ + inline_range(src@, i0 + 2, e as int) + "</li>\n"@
                + tail) =~= out@ + tail);
        }
        Mode::InList
    } else {
        let h = hash_run_len(src, i, e);
        if h >= 1 && h <= 6 && i + h < e && src[i + h] == ' ' {
            proof {
                assert(heading_level(src@, i0, e as int) == h as int);
            }
            push_heading_open(out, h);
            inline_push(out, src, i + h + 1, e);
            push_heading_close(out, h);
            push_lit(out, "\n");
            proof {
                let hh = h as int;
                let tail = blocks_from(src@, ni as int);
                assert(blocks_from(src@, i0) == heading_open(hh) + inline_range(
                    src@,
                    i0 + hh + 1,
                    e as int,
                ) + heading_close(hh) + "\n"@ + tail);
                assert(pre + (heading_open(hh) + inline_range(src@, i0 + hh + 1, e as int)
                    + heading_close(hh) + "\n"@ + tail) =~= out@ + tail);
            }
            Mode::Normal
        } else if e == i {
            proof {
                assert(heading_level(src@, i0, e as int) == 0);
                assert(blocks_from(src@, i0) == blocks_from(src@, ni as int));
            }
            Mode::Normal
        } else {
            push_lit(out, "<p>");
            inline_push(out, src, i, e);
            push_lit(out, "</p>\n");
            proof {
                assert(heading_level(src@, i0, e as int) == 0);
                let tail = blocks_from(src@, ni as int);
                assert(blocks_from(src@, i0) == "<p>"@ + inline_range(src@, i0, e as int)
                    + "</p>\n"@ + tail);
                assert(pre + ("<p>"@ + inline_range(src@, i0, e as int) + "</p>\n"@ + tail)
                    =~= out@ + tail);
            }
            Mode::Normal
        }
    }
}

/// One step inside an open list: a further item joins it; anything else
/// closes it and leaves the line to be read again.
fn step_list(out: &mut Vec<char>, src: &Vec<char>, i: usize, e: usize, ni: usize) -> (r: (
    usize,
    Mode,
))
    requires
        i < src.len(),
        i <= e <= src.len(),
        e as int == line_end(src@, i as int),
        ni as int == next_line(src@, e as int),
    ensures
        final(out)@ + rest_html(src@, r.0 as int, r.1) == old(out)@ + list_from(src@, i as int),
        r.0 == ni && r.1 is InList || r.0 == i && r.1 is Normal,
{
    let ghost i0 = i as int;
    let ghost pre = out@;
    let item = e - i >= 2 && src[i] == '-' && src[i + 1] == ' ';
    if item {
        push_lit(out, "<li>");
        inline_push(out, src, i + 2, e);
        push_lit(out, "</li>\n");
        proof {
            let tail = list_from(src@, ni as int);
            assert(list_from(src@, i0) == "<li>"@ + inline_range(src@, i0 + 2, e as int)
                + "</li>\n"@ + tail);
            assert(pre + ("<li>"@ + inline_range(src@, i0 + 2, e as int) + "</li>\n"@ + tail)
                =~= out@ + tail);
        }
        (ni, Mode::InList)
    } else {
        push_lit(out, "</ul>\n");
        proof {
            let tail = blocks_from(src@, i0);
            assert(list_from(src@, i0) == "</ul>\n"@ + tail);
            assert(pre + ("</ul>\n"@ + tail) =~= out@ + tail);
        }
        (i, Mode::Normal)
    }
}

/// One step inside an open code block: a closing fence ends it; any other
/// line is escaped verbatim.
fn step_code(out: &mut Vec<char>, src: &Vec<char>, i: usize, e: usize, ni: usize) -> (r: Mode)
    requires
        i < src.len(),
        i <= e <= src.len(),
        e as int == line_end(src@, i as int),
        ni as int == next_line(src@, e as int),
    ensures
        final(out)@ + rest_html(src@, ni as int, r) == old(out)@ + code_from(src@, i as int),
{
    let ghost i0 = i as int;
    let ghost pre = out@;
    let fence = e - i >= 3 && src[i] == '`' && src[i + 1] == '`' && src[i + 2] == '`';
    if fence {
        push_lit(out, "</code></pre>\n");
        proof {
            let tail = blocks_from(src@, ni as int);
            assert(code_from(src@, i0) == "</code></pre>\n"@ + tail);
            assert(pre + ("</code></pre>\n"@ + tail) =~= out@ + tail);
        }
        Mode::Normal
    } else {
        escape_push(out, src, i, e);
        push_lit(out, "\n");
        proof {
            let tail = code_from(src@, ni as int);
            assert(code_from(src@, i0) == escape_range(src@, i0, e as int) + "\n"@ + tail);
            assert(pre + (escape_range(src@, i0, e as int) + "\n"@ + tail) =~= out@ + tail);
        }
        Mode::InCode
    }
}

/// Converts a Markdown source text to its HTML fragment.
///
/// The renderer is pure and total: the fragment is exactly
/// `markdown_html` of the source characters.
pub fn render_markdown(src: &Vec<char>) -> (r: Vec<char>)
    ensures
        r@ == markdown_html(src@),
{
    let mut out: Vec<char> = Vec::new();
    let mut i: usize = 0;
    let mut mode = Mode::Normal;
    while i < src.len()
        invariant
            i <= src.len(),
            markdown_html(src@) == out@ + rest_html(src@, i as int, mode),
        decreases src.len() - i, mode_rank(mode),
    {
        let e = match find_char_in(src, '\n', i, src.len()) {
            Some(j) => j,
            None => src.len(),
        };
        proof {
            assert(e as int == line_end(src@, i as int));
        }
        let ni = if e < src.len() {
            e + 1
        } else {
            src.len()
        };
        proof {
            assert(ni as int == next_line(src@, e as int));
        }
        match mode {
            Mode::Normal => {
                mode = step_normal(&mut out, src, i, e, ni);
                i = ni;
            },
            Mode::InList => {
                let (i2, m2) = step_list(&mut out, src, i, e, ni);
                i = i2;
                mode = m2;
            },
            Mode::InCode => {
                mode = step_code(&mut out, src, i, e, ni);
                i = ni;
            },
        }
    }
    let ghost fin = out@;
    match mode {
        Mode::Normal => {
            proof {
                assert(blocks_from(src@, i as int) == Seq::<char>::empty());
                assert(fin + Seq::<char>::empty() =~= fin);
            }
        },
        Mode::InList => {
            push_lit(&mut out, "</ul>\n");
            proof {
                assert(list_from(src@, i as int) == "</ul>\n"@);
                assert(fin + "</ul>\n"@ =~= out@);
            }
        },
        Mode::InCode => {
            push_lit(&mut out, "</code></pre>\n");
            proof {
                assert(code_from(src@, i as int) == "</code></pre>\n"@);
                assert(fin + "</code></pre>\n"@ =~= out@);
            }
        },
    }
    out
}

/// Converts a Markdown source string to its HTML fragment.
pub fn markdown_of_str(src: &str) -> (r: Vec<char>)
    ensures
        r@ == markdown_html(src@),
{
    let cs = chars_of(src);
    render_markdown(&cs)
}

} // verus!
