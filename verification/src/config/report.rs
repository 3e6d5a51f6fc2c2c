//! How a mistake in the configuration file is shown.
use vstd::prelude::*;
use vstd::string::*;

use crate::text::{chars_of, decimal_text, text_of};

verus! {

/// The place of the first line break at `from` or behind it, or the end of the text.
pub open spec fn line_end(s: Seq<char>, from: int) -> int
    decreases s.len() - from,
{
    if from >= s.len() {
        s.len() as int
    } else if s[from] == '\n' {
        from
    } else {
        line_end(s, from + 1)
    }
}

/// The line that starts at `from` and whose break stands at `end`. A carriage return belongs to the
/// break behind it.
pub open spec fn line_text(s: Seq<char>, from: int, end: int) -> Seq<char> {
    if end < s.len() && end > from && s[end - 1] == '\r' {
        s.subrange(from, end - 1)
    } else {
        s.subrange(from, end)
    }
}

/// The `n`th line from `from` on. A text that ends in a break has no empty line behind it.
pub open spec fn nth_line(s: Seq<char>, from: int, n: nat) -> Option<Seq<char>>
    decreases n,
{
    let end = line_end(s, from);
    if from >= s.len() {
        None
    } else if n == 0 {
        Some(line_text(s, from, end))
    } else {
        nth_line(s, end + 1, (n - 1) as nat)
    }
}

/// The `n`th line of `file`, counted from zero.
pub fn line_of(file: &str, n: usize) -> (r: Option<String>)
    ensures
        r.deep_view() == nth_line(file@, 0, n as nat),
{
    let chars = chars_of(file);
    let mut left: usize = n;
    let mut from: usize = 0;
    while from < chars.len()
        invariant
            chars@ == file@,
            from <= chars.len(),
            nth_line(file@, 0, n as nat) == nth_line(file@, from as int, left as nat),
        decreases chars.len() - from,
    {
        let mut end: usize = from;
        while end < chars.len() && chars[end] != '\n'
            invariant
                chars@ == file@,
                from <= end <= chars.len(),
                line_end(file@, from as int) == line_end(file@, end as int),
            decreases chars.len() - end,
        {
            end = end + 1;
        }
        proof {
            assert(line_end(file@, from as int) == end);
        }
        if left == 0 {
            if end < chars.len() && end > from && chars[end - 1] == '\r' {
                return Some(text_of(&chars, from, end - 1));
            }
            return Some(text_of(&chars, from, end));
        }
        left = left - 1;
        if end == chars.len() {
            proof {
                assert(nth_line(file@, end + 1, left as nat) is None);
            }
            return None;
        }
        from = end + 1;
    }
    None
}

/// `n` spaces.
pub open spec fn spaces(n: nat) -> Seq<char> {
    Seq::new(n, |i: int| ' ')
}

/// What is shown of a mistake: the message, and where its place is known, that line under its number
/// and a mark under the column. Lines and columns are counted from zero.
pub open spec fn report(file: Seq<char>, message: Seq<char>, position: Option<(usize, usize)>) -> Seq<
    Seq<char>,
> {
    let first = "error parsing the configuration file: "@ + message;
    match position {
        None => seq![first],
        Some((line, column)) => seq![
            first,
            crate::text::decimal((line + 1) as nat) + "| "@ + nth_line(file, 0, line as nat)->0,
            spaces(crate::text::decimal(line as nat).len() + 2 + column as nat) + "^"@,
        ],
    }
}

/// The lines that show a mistake in the configuration file. `position` is the line and the column of
/// the mistake, where they are known.
pub fn display_toml_error(file: &str, message: &str, position: Option<(usize, usize)>) -> (r: Vec<
    String,
>)
    requires
        position matches Some((line, column)) ==> {
            &&& nth_line(file@, 0, line as nat) is Some
            &&& line < u64::MAX
            &&& crate::text::decimal(line as nat).len() + 2 + column <= usize::MAX
        },
    ensures
        r.deep_view() == report(file@, message@, position),
{
    let mut r: Vec<String> = Vec::new();
    let mut first = "error parsing the configuration file: ".to_owned();
    first.append(message);
    r.push(first);
    match position {
        None => {},
        Some((line, column)) => {
            let mut second = decimal_text(line as u64 + 1);
            second.append("| ");
            match line_of(file, line) {
                None => {},
                Some(text) => {
                    second.append(text.as_str());
                },
            }
            let l_span = decimal_text(line as u64).as_str().unicode_len();
            let mut third = String::new();
            let n: usize = l_span + 2 + column;
            let mut i: usize = 0;
            proof {
                assert(third@ =~= spaces(0));
            }
            while i < n
                invariant
                    i <= n,
                    third@ == spaces(i as nat),
                decreases n - i,
            {
                third.append(" ");
                proof {
                    reveal_strlit(" ");
                    assert(third@ =~= spaces((i + 1) as nat));
                }
                i = i + 1;
            }
            third.append("^");
            r.push(second);
            r.push(third);
        },
    }
    proof {
        assert(r.deep_view() =~= report(file@, message@, position));
    }
    r
}

proof fn lemma_line_end(s: Seq<char>, from: int, end: int)
    requires
        0 <= from <= end <= s.len(),
        forall|i: int| from <= i < end ==> s[i] != '\n',
        end < s.len() ==> s[end] == '\n',
    ensures
        line_end(s, from) == end,
    decreases end - from,
{
    if from < end {
        lemma_line_end(s, from + 1, end);
    }
}

proof fn lemma_end_is_behind(s: Seq<char>, from: int)
    requires
        0 <= from <= s.len(),
    ensures
        from <= line_end(s, from) <= s.len(),
    decreases s.len() - from,
{
    if from < s.len() && s[from] != '\n' {
        lemma_end_is_behind(s, from + 1);
    }
}

proof fn lemma_end_behind(s: Seq<char>, before: int, from: int)
    requires
        0 <= before <= from <= s.len(),
    ensures
        line_end(s, from) == before + line_end(s.skip(before), from - before),
    decreases s.len() - from,
{
    if from < s.len() && s[from] != '\n' {
        lemma_end_behind(s, before, from + 1);
    }
}

proof fn lemma_lines_behind(s: Seq<char>, before: int, from: int, n: nat)
    requires
        0 <= before <= from <= s.len(),
    ensures
        nth_line(s, from, n) == nth_line(s.skip(before), from - before, n),
    decreases n,
{
    let t = s.skip(before);
    lemma_end_behind(s, before, from);
    lemma_end_is_behind(s, from);
    let end = line_end(s, from);
    if from < s.len() {
        if n == 0 {
            assert(line_text(s, from, end) =~= line_text(t, from - before, end - before));
        } else if end < s.len() {
            lemma_lines_behind(s, before, end + 1, (n - 1) as nat);
        } else {
            assert(nth_line(s, end + 1, (n - 1) as nat) is None);
            assert(nth_line(t, end - before + 1, (n - 1) as nat) is None);
        }
    }
}

/// The lines of a text are what stands between its breaks: the first one ends in front of the first
/// break, and the others are those of the rest. The last line needs no break.
pub proof fn law_lines_stand_between_breaks(line: Seq<char>, rest: Seq<char>, n: nat)
    requires
        !line.contains('\n'),
    ensures
        ({
            let text = line.push('\n') + rest;
            &&& line.len() == 0 || line.last() != '\r' ==> nth_line(text, 0, 0) == Some(line)
            &&& line.len() > 0 && line.last() == '\r' ==> nth_line(text, 0, 0) == Some(
                line.drop_last(),
            )
            &&& nth_line(text, 0, n + 1) == nth_line(rest, 0, n)
            &&& line.len() > 0 ==> nth_line(line, 0, 0) == Some(line)
            &&& nth_line(line, 0, n + 1) is None
        }),
{
    let text = line.push('\n') + rest;
    let end = line.len() as int;
    assert forall|i: int| 0 <= i < end implies line[i] != '\n' by {
        if line[i] == '\n' {
            assert(line.contains('\n'));
        }
    }
    assert forall|i: int| 0 <= i < end implies text[i] != '\n' by {
        assert(text[i] == line[i]);
    }
    assert(text[end] == '\n');
    lemma_line_end(text, 0, end);
    lemma_line_end(line, 0, end);
    assert(text.subrange(0, end) =~= line);
    assert(line.subrange(0, end) =~= line);
    if end > 0 {
        assert(text[end - 1] == line.last());
        assert(text.subrange(0, end - 1) =~= line.drop_last());
    }
    lemma_lines_behind(text, end + 1, end + 1, n);
    assert(text.skip(end + 1) =~= rest);
    assert(nth_line(line, end + 1, n) is None);
}

/// The mark under a mistake stands behind spaces alone, and below the character of its column wherever
/// the number of the line has as many digits as that of the line before.
pub proof fn law_mark_is_under_the_mistake(
    file: Seq<char>,
    message: Seq<char>,
    line: usize,
    column: usize,
    text: Seq<char>,
)
    requires
        nth_line(file, 0, line as nat) == Some(text),
    ensures
        ({
            let shown = report(file, message, Some((line, column)));
            &&& shown.len() == 3
            &&& message == shown[0].skip(shown[0].len() - message.len())
            &&& text == shown[1].skip(shown[1].len() - text.len())
            &&& shown[2].len() > 0
            &&& shown[2].last() == '^'
            &&& forall|i: int| 0 <= i < shown[2].len() - 1 ==> #[trigger] shown[2][i] == ' '
            &&& column < text.len() && crate::text::decimal(line as nat).len()
                == crate::text::decimal((line + 1) as nat).len() ==> shown[1][shown[2].len() - 1]
                == text[column as int]
        }),
{
    reveal_strlit("^");
    reveal_strlit("| ");
    let shown = report(file, message, Some((line, column)));
    assert(shown[0].skip(shown[0].len() - message.len()) =~= message);
    assert(shown[1].skip(shown[1].len() - text.len()) =~= text);
}

} // verus!
