use vstd::prelude::*;
use vstd::std_specs::iter::IteratorSpec;
use vstd::string::StrSliceExecFns;
use vstd::string::{StringExecFns, to_string_from_display_ensures};

verus! {

broadcast use vstd::string::group_string_axioms;

/// Number of space characters at the start of `s`.
pub open spec fn leading_spaces(s: Seq<char>) -> nat
    decreases s.len(),
{
    if s.len() > 0 && s[0] == ' ' {
        1 + leading_spaces(s.drop_first())
    } else {
        0
    }
}

/// Counts the leading spaces of a line.
fn count_leading_spaces(line: &str) -> (n: usize)
    ensures
        n == leading_spaces(line@),
{
    let len = line.unicode_len();
    let mut it = line.chars();
    let mut n: usize = 0;
    loop
        invariant
            len == line@.len(),
            n <= len,
            it.remaining() == line@.skip(n as int),
            leading_spaces(line@) == n + leading_spaces(line@.skip(n as int)),
        decreases len - n,
    {
        let ghost rest = line@.skip(n as int);
        match it.next() {
            Some(c) => {
                if c == ' ' {
                    assert(rest.drop_first() =~= line@.skip(n + 1));
                    n = n + 1;
                } else {
                    return n;
                }
            },
            None => {
                return n;
            },
        }
    }
}

/// Width of the indentation of a line: its leading spaces, taken in whole groups of four.
pub open spec fn indent_width(line: Seq<char>) -> nat {
    (leading_spaces(line) / 4) * 4
}

/// The smaller of two numbers.
pub open spec fn min_nat(a: nat, b: nat) -> nat {
    if a <= b { a } else { b }
}

/// The indentation that every line shares: the smallest `indent_width` among them
/// (0 when there are no lines).
pub open spec fn common_indent(lines: Seq<Seq<char>>) -> nat
    decreases lines.len(),
{
    if lines.len() == 0 {
        0
    } else if lines.len() == 1 {
        indent_width(lines[0])
    } else {
        min_nat(common_indent(lines.drop_last()), indent_width(lines.last()))
    }
}

/// The lines put together, with one `'\n'` between each two of them.
pub open spec fn join_lines(lines: Seq<Seq<char>>) -> Seq<char>
    decreases lines.len(),
{
    if lines.len() == 0 {
        Seq::empty()
    } else if lines.len() == 1 {
        lines[0]
    } else {
        join_lines(lines.drop_last()) + seq!['\n'] + lines.last()
    }
}

/// Each line without its first `width` characters.
pub open spec fn strip_lines(lines: Seq<Seq<char>>, width: nat) -> Seq<Seq<char>> {
    lines.map_values(|l: Seq<char>| l.skip(width as int))
}

/// The text that `unindent_lines` makes of `lines`.
pub open spec fn unindented(lines: Seq<Seq<char>>) -> Seq<char> {
    join_lines(strip_lines(lines, common_indent(lines)))
}

/// The text of each line of a slice of string slices.
pub open spec fn line_views(lines: Seq<&str>) -> Seq<Seq<char>> {
    lines.map_values(|l: &str| l@)
}

proof fn lemma_leading_spaces_bound(s: Seq<char>)
    ensures
        leading_spaces(s) <= s.len(),
        forall|i: int| 0 <= i < leading_spaces(s) ==> s[i] == ' ',
    decreases s.len(),
{
    if s.len() > 0 && s[0] == ' ' {
        lemma_leading_spaces_bound(s.drop_first());
        assert forall|i: int| 0 <= i < leading_spaces(s) implies s[i] == ' ' by {
            if i > 0 {
                assert(s[i] == s.drop_first()[i - 1]);
            }
        }
    }
}

proof fn lemma_common_indent_le(lines: Seq<Seq<char>>, j: int)
    requires
        0 <= j < lines.len(),
    ensures
        common_indent(lines) <= indent_width(lines[j]),
    decreases lines.len(),
{
    if j < lines.len() - 1 {
        lemma_common_indent_le(lines.drop_last(), j);
    }
}

/// Removes from every line the indentation that all the lines share, and joins
/// the lines with `'\n'`.
///
/// The indentation of a line counts its leading spaces in whole groups of four.
pub fn unindent_lines(lines: &[&str]) -> (out: String)
    ensures
        out@ == unindented(line_views(lines@)),
{
    let ghost views = line_views(lines@);
    let mut min_indent: usize = usize::MAX;
    let mut i: usize = 0;
    while i < lines.len()
        invariant
            i <= lines@.len(),
            views == line_views(lines@),
            i == 0 ==> min_indent == usize::MAX,
            i > 0 ==> min_indent == common_indent(views.take(i as int)),
        decreases lines@.len() - i,
    {
        let spaces = count_leading_spaces(lines[i]);
        let width = (spaces / 4) * 4;
        if i == 0 || width < min_indent {
            min_indent = width;
        }
        assert(views.take(i + 1).drop_last() =~= views.take(i as int));
        i = i + 1;
    }
    assert(views.take(lines@.len() as int) =~= views);
    if lines.len() == 0 {
        return String::new();
    }
    let ghost stripped = strip_lines(views, min_indent as nat);
    let mut output = String::new();
    let mut k: usize = 0;
    while k < lines.len()
        invariant
            k <= lines@.len(),
            views == line_views(lines@),
            min_indent == common_indent(views),
            stripped == strip_lines(views, min_indent as nat),
            output@ == join_lines(stripped.take(k as int)),
        decreases lines@.len() - k,
    {
        let line = lines[k];
        proof {
            lemma_common_indent_le(views, k as int);
            lemma_leading_spaces_bound(line@);
        }
        let len = line.unicode_len();
        if k > 0 {
            output.append("\n");
        }
        output.append(line.substring_char(min_indent, len));
        proof {
            reveal_strlit("\n");
            assert(stripped.take(k + 1).drop_last() =~= stripped.take(k as int));
            assert(line@.subrange(min_indent as int, len as int) =~= stripped[k as int]);
        }
        k = k + 1;
    }
    assert(stripped.take(lines@.len() as int) =~= stripped);
    output
}


proof fn lemma_leading_spaces_skip(s: Seq<char>, k: nat)
    requires
        k <= leading_spaces(s),
    ensures
        leading_spaces(s.skip(k as int)) == leading_spaces(s) - k,
    decreases k,
{
    lemma_leading_spaces_bound(s);
    if k > 0 {
        assert(s[0] == ' ');
        let rest = s.drop_first();
        let k1 = (k - 1) as nat;
        lemma_leading_spaces_skip(rest, k1);
        assert(rest.skip(k1 as int) =~= s.skip(k as int));
    } else {
        assert(s.skip(0) =~= s);
    }
}

proof fn lemma_common_indent_attained(lines: Seq<Seq<char>>)
    requires
        lines.len() > 0,
    ensures
        exists|j: int| 0 <= j < lines.len() && common_indent(lines) == indent_width(#[trigger] lines[j]),
    decreases lines.len(),
{
    let last = lines.len() - 1;
    if lines.len() == 1 {
        assert(common_indent(lines) == indent_width(lines[last]));
    } else if indent_width(lines.last()) < common_indent(lines.drop_last()) {
        assert(common_indent(lines) == indent_width(lines[last]));
    } else {
        lemma_common_indent_attained(lines.drop_last());
        let j = choose|j: int|
            0 <= j < lines.drop_last().len() && common_indent(lines.drop_last()) == indent_width(
                #[trigger] lines.drop_last()[j],
            );
        assert(common_indent(lines) == indent_width(lines[j]));
    }
}

/// Unindenting removes nothing but spaces: each line is the shared indentation,
/// all of it spaces, followed by the line that comes out.
pub proof fn law_unindent_removes_only_spaces(lines: Seq<Seq<char>>, j: int)
    requires
        0 <= j < lines.len(),
    ensures
        common_indent(lines) <= lines[j].len(),
        lines[j] == Seq::new(common_indent(lines), |i: int| ' ') + strip_lines(
            lines,
            common_indent(lines),
        )[j],
{
    let m = common_indent(lines);
    lemma_common_indent_le(lines, j);
    lemma_leading_spaces_bound(lines[j]);
    assert(lines[j] =~= Seq::new(m, |i: int| ' ') + lines[j].skip(m as int));
}

/// Unindenting twice gives what unindenting once gives: once the shared
/// indentation is gone, the lines share none.
pub proof fn law_unindent_idempotent(lines: Seq<Seq<char>>)
    ensures
        unindented(strip_lines(lines, common_indent(lines))) == unindented(lines),
{
    let m = common_indent(lines);
    let stripped = strip_lines(lines, m);
    if lines.len() > 0 {
        lemma_common_indent_attained(lines);
        let j = choose|j: int| 0 <= j < lines.len() && m == indent_width(#[trigger] lines[j]);
        lemma_leading_spaces_bound(lines[j]);
        lemma_leading_spaces_skip(lines[j], m);
        assert(stripped[j] == lines[j].skip(m as int));
        let ls = leading_spaces(lines[j]);
        assert(ls - m < 4);
        assert(indent_width(stripped[j]) == 0);
        lemma_common_indent_le(stripped, j);
        assert(common_indent(stripped) == 0);
        assert forall|i: int| 0 <= i < stripped.len() implies strip_lines(stripped, 0)[i]
            == stripped[i] by {
            assert(stripped[i].skip(0) =~= stripped[i]);
        }
        assert(strip_lines(stripped, 0) =~= stripped);
    } else {
        assert(strip_lines(stripped, common_indent(stripped)) =~= stripped);
    }
}

/// Each line with four more spaces in front.
pub open spec fn shift_lines(lines: Seq<Seq<char>>) -> Seq<Seq<char>> {
    lines.map_values(|l: Seq<char>| seq![' ', ' ', ' ', ' '] + l)
}

proof fn lemma_shift_line(l: Seq<char>)
    ensures
        leading_spaces(seq![' ', ' ', ' ', ' '] + l) == leading_spaces(l) + 4,
        indent_width(seq![' ', ' ', ' ', ' '] + l) == indent_width(l) + 4,
{
    let s = seq![' ', ' ', ' ', ' '] + l;
    let s1 = seq![' ', ' ', ' '] + l;
    let s2 = seq![' ', ' '] + l;
    let s3 = seq![' '] + l;
    assert(s.drop_first() =~= s1);
    assert(s1.drop_first() =~= s2);
    assert(s2.drop_first() =~= s3);
    assert(s3.drop_first() =~= l);
    assert(leading_spaces(s3) == 1 + leading_spaces(l));
    assert(leading_spaces(s2) == 1 + leading_spaces(s3));
    assert(leading_spaces(s1) == 1 + leading_spaces(s2));
    assert(leading_spaces(s) == 1 + leading_spaces(s1));
    let ls = leading_spaces(l);
    assert(((ls + 4) / 4) * 4 == (ls / 4) * 4 + 4);
}

proof fn lemma_common_indent_shift(lines: Seq<Seq<char>>)
    requires
        lines.len() > 0,
    ensures
        common_indent(shift_lines(lines)) == common_indent(lines) + 4,
    decreases lines.len(),
{
    let shifted = shift_lines(lines);
    lemma_shift_line(lines.last());
    if lines.len() == 1 {
        lemma_shift_line(lines[0]);
    } else {
        assert(shifted.drop_last() =~= shift_lines(lines.drop_last()));
        lemma_common_indent_shift(lines.drop_last());
    }
}

/// Indenting every line by four more spaces leaves the unindented text as it was.
pub proof fn law_unindent_ignores_shared_shift(lines: Seq<Seq<char>>)
    ensures
        unindented(shift_lines(lines)) == unindented(lines),
{
    let shifted = shift_lines(lines);
    if lines.len() > 0 {
        lemma_common_indent_shift(lines);
        let m = common_indent(lines);
        assert forall|i: int| 0 <= i < lines.len() implies strip_lines(shifted, (m + 4) as nat)[i]
            == strip_lines(lines, m)[i] by {
            lemma_common_indent_le(lines, i);
            lemma_leading_spaces_bound(lines[i]);
            assert((seq![' ', ' ', ' ', ' '] + lines[i]).skip(m as int + 4) =~= lines[i].skip(m as int));
        }
        assert(strip_lines(shifted, (m + 4) as nat) =~= strip_lines(lines, m));
    } else {
        assert(strip_lines(shifted, common_indent(shifted)) =~= strip_lines(
            lines,
            common_indent(lines),
        ));
    }
}

/// Whether a text holds no `'\n'`.
pub open spec fn no_newline(text: Seq<char>) -> bool {
    forall|i: int| 0 <= i < text.len() ==> text[i] != '\n'
}

/// A text cut at every `'\n'`, as `str::split('\n')` cuts it: one piece more
/// than there are line feeds.
pub open spec fn split_newlines(text: Seq<char>) -> Seq<Seq<char>>
    decreases text.len(),
{
    let e = line_end(text);
    if e < text.len() {
        seq![text.take(e as int)] + split_newlines(text.skip(e as int + 1))
    } else {
        seq![text]
    }
}

proof fn lemma_line_end_bound(text: Seq<char>)
    ensures
        line_end(text) <= text.len(),
        line_end(text) < text.len() ==> text[line_end(text) as int] == '\n',
        no_newline(text.take(line_end(text) as int)),
    decreases text.len(),
{
    if text.len() > 0 && text[0] != '\n' {
        lemma_line_end_bound(text.drop_first());
        let e = line_end(text.drop_first());
        assert forall|i: int| 0 <= i < line_end(text) implies text.take(
            line_end(text) as int,
        )[i] != '\n' by {
            if i > 0 {
                assert(text.take(line_end(text) as int)[i] == text.drop_first().take(e as int)[i
                    - 1]);
            }
        }
    }
}

proof fn lemma_line_end_concat(a: Seq<char>, b: Seq<char>)
    requires
        no_newline(a),
    ensures
        line_end(a + b) == a.len() + line_end(b),
    decreases a.len(),
{
    if a.len() > 0 {
        assert((a + b).drop_first() =~= a.drop_first() + b);
        lemma_line_end_concat(a.drop_first(), b);
    } else {
        assert(a + b =~= b);
    }
}

proof fn lemma_join_front(first: Seq<char>, rest: Seq<Seq<char>>)
    requires
        rest.len() > 0,
    ensures
        join_lines(seq![first] + rest) == first + seq!['\n'] + join_lines(rest),
    decreases rest.len(),
{
    let all = seq![first] + rest;
    if rest.len() == 1 {
        assert(all.drop_last() =~= seq![first]);
        assert(all.last() == rest[0]);
        assert(join_lines(rest) == rest[0]);
        assert(join_lines(seq![first]) == first);
        assert(join_lines(all) =~= first + seq!['\n'] + join_lines(rest));
    } else {
        lemma_join_front(first, rest.drop_last());
        assert(all.drop_last() =~= seq![first] + rest.drop_last());
        assert(all.last() == rest.last());
        assert(join_lines(all) =~= first + seq!['\n'] + join_lines(rest));
    }
}

/// Cutting the joined lines at `'\n'` gives the lines back, when none of them
/// holds a `'\n'` and there is at least one.
pub proof fn law_split_join(lines: Seq<Seq<char>>)
    requires
        lines.len() > 0,
        forall|i: int| 0 <= i < lines.len() ==> no_newline(#[trigger] lines[i]),
    ensures
        split_newlines(join_lines(lines)) == lines,
    decreases lines.len(),
{
    if lines.len() == 1 {
        lemma_line_end_concat(lines[0], Seq::empty());
        assert(lines[0] + Seq::<char>::empty() =~= lines[0]);
        assert(split_newlines(lines[0]) =~= seq![lines[0]]);
        assert(lines =~= seq![lines[0]]);
    } else {
        let rest = lines.skip(1);
        assert(lines =~= seq![lines[0]] + rest);
        lemma_join_front(lines[0], rest);
        let text = join_lines(lines);
        let tail = seq!['\n'] + join_lines(rest);
        assert(text =~= lines[0] + tail);
        lemma_line_end_concat(lines[0], tail);
        assert(line_end(tail) == 0);
        assert(text.take(lines[0].len() as int) =~= lines[0]);
        assert(text.skip(lines[0].len() as int + 1) =~= join_lines(rest));
        assert forall|i: int| 0 <= i < rest.len() implies no_newline(#[trigger] rest[i]) by {
            assert(rest[i] == lines[i + 1]);
        }
        law_split_join(rest);
    }
}

/// Unindenting the text that unindenting gave, cut again at its line feeds,
/// gives that same text: where no line holds a `'\n'`, unindenting a text twice
/// is unindenting it once.
pub proof fn law_unindent_text_idempotent(lines: Seq<Seq<char>>)
    requires
        forall|i: int| 0 <= i < lines.len() ==> no_newline(#[trigger] lines[i]),
    ensures
        unindented(split_newlines(unindented(lines))) == unindented(lines),
{
    let m = common_indent(lines);
    let stripped = strip_lines(lines, m);
    if lines.len() > 0 {
        assert forall|i: int| 0 <= i < stripped.len() implies no_newline(#[trigger] stripped[i]) by {
            assert(no_newline(lines[i]));
            assert forall|k: int| 0 <= k < stripped[i].len() implies stripped[i][k] != '\n' by {
                lemma_common_indent_le(lines, i);
                lemma_leading_spaces_bound(lines[i]);
                assert(stripped[i][k] == lines[i][k + m]);
            }
        }
        law_split_join(stripped);
        law_unindent_idempotent(lines);
    } else {
        let empty = Seq::<char>::empty();
        assert(unindented(lines) =~= empty);
        lemma_line_end_concat(empty, empty);
        assert(split_newlines(empty) =~= seq![empty]);
        let one = seq![empty];
        assert(common_indent(one) == 0);
        assert(strip_lines(one, 0)[0] == one[0].skip(0));
        assert(one[0].skip(0) =~= one[0]);
        assert(strip_lines(one, common_indent(one)) =~= one);
        assert(unindented(one) =~= empty);
    }
}

/// Why the source of a span could not be read.
#[derive(Debug)]
pub enum CodeError {
    /// Reading the file failed.
    Io(std::io::Error),
    /// The span names a file that does not exist.
    FileNotFound,
}

impl CodeError {
    /// The message of the error: `File was not found`, or `IO Error: ` followed by
    /// the I/O error's own message.
    pub fn message(&self) -> (s: String)
        ensures
            match self {
                CodeError::FileNotFound => s@ == "File was not found"@,
                CodeError::Io(e) => exists|t: String|
                    to_string_from_display_ensures::<std::io::Error>(e, t) && s@ == "IO Error: "@ + t@,
            },
    {
        match self {
            CodeError::FileNotFound => String::from_str("File was not found"),
            CodeError::Io(e) => {
                let text = e.to_string();
                let mut s = String::from_str("IO Error: ");
                s.append(text.as_str());
                s
            },
        }
    }
}

/// Index of the first `'\n'` of `text`, or its length when it holds none.
pub open spec fn line_end(text: Seq<char>) -> nat
    decreases text.len(),
{
    if text.len() == 0 || text[0] == '\n' {
        0
    } else {
        1 + line_end(text.drop_first())
    }
}

/// A line without the `'\r'` that ends it, if one does.
pub open spec fn strip_cr(line: Seq<char>) -> Seq<char> {
    if line.len() > 0 && line.last() == '\r' {
        line.drop_last()
    } else {
        line
    }
}

/// The lines of a text, as `str::lines` documents them: the text is cut at each
/// `'\n'`, a line ended by `"\r\n"` loses its `'\r'` too, and a final line ending
/// makes no empty last line.
pub open spec fn text_lines(text: Seq<char>) -> Seq<Seq<char>>
    decreases text.len(),
{
    if text.len() == 0 {
        Seq::empty()
    } else {
        let e = line_end(text);
        if e < text.len() {
            seq![strip_cr(text.take(e as int))] + text_lines(text.skip(e as int + 1))
        } else {
            seq![text]
        }
    }
}

/// `str::lines`, collected: each line is a slice of `text`.
#[verifier::external_body]
fn split_lines(text: &str) -> (lines: Vec<&str>)
    ensures
        line_views(lines@) == text_lines(text@),
{
    text.lines().collect()
}

/// Number of lines of a text, counted as `str::lines` counts them.
pub fn line_count(text: &str) -> (n: usize)
    ensures
        n == text_lines(text@).len(),
{
    let lines = split_lines(text);
    proof {
        assert(line_views(lines@).len() == lines@.len());
    }
    lines.len()
}

/// The source of the lines `begin_line` through `end_line` (counted from 1, both
/// included) of a file's text, without the indentation that they share.
pub fn span_source(source_text: &str, begin_line: usize, end_line: usize) -> (out: String)
    requires
        1 <= begin_line,
        begin_line - 1 <= end_line,
        end_line <= text_lines(source_text@).len(),
    ensures
        out@ == unindented(text_lines(source_text@).subrange(begin_line - 1, end_line as int)),
{
    let lines = split_lines(source_text);
    let start_line = begin_line - 1;
    proof {
        assert(line_views(lines@).len() == lines@.len());
    }
    let sublines = &lines.as_slice()[start_line..end_line];
    proof {
        assert(line_views(sublines@) =~= text_lines(source_text@).subrange(
            start_line as int,
            end_line as int,
        ));
    }
    unindent_lines(sublines)
}

} // verus!
