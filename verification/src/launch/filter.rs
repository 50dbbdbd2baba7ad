//! Filters that normalise the output of a program before it is compared.

use crate::text::{from_chars, message_view, push_char, str_eq, to_chars, views};
use vstd::prelude::*;
use vstd::string::*;

verus! {

/// Whether `c` is white space, as `char::is_whitespace` tells it: whether
/// the character has the Unicode property `White_Space`.
pub uninterp spec fn white_space(c: char) -> bool;

/// Whether `c` is white space. Trusted wrapper around `char::is_whitespace`;
/// its answer depends on the character alone.
#[verifier::external_body]
fn is_white_space(c: char) -> (b: bool)
    ensures
        b == white_space(c),
{
    c.is_whitespace()
}

/// Index of the first line feed of `s` at or after `from`; `s.len()` if
/// there is none.
pub open spec fn first_newline(s: Seq<char>, from: int) -> int
    decreases s.len() - from,
{
    if from < 0 || from >= s.len() {
        s.len() as int
    } else if s[from] == '\n' {
        from
    } else {
        first_newline(s, from + 1)
    }
}

/// `line` without the carriage return at its end, if it has one.
pub open spec fn strip_cr(line: Seq<char>) -> Seq<char> {
    if line.len() > 0 && line.last() == '\r' {
        line.drop_last()
    } else {
        line
    }
}

/// The lines of `s[i..]`.
pub open spec fn lines_from(s: Seq<char>, i: int) -> Seq<Seq<char>>
    decreases s.len() - i,
{
    if i < 0 || i >= s.len() {
        Seq::empty()
    } else {
        let j = first_newline(s, i);
        if j >= s.len() {
            seq![s.subrange(i, s.len() as int)]
        } else {
            proof {
                lemma_first_newline(s, i);
            }
            seq![strip_cr(s.subrange(i, j))] + lines_from(s, j + 1)
        }
    }
}

/// The lines of `s`. A line ends with a line feed, or with a carriage return
/// and a line feed; neither belongs to the line. The last line needs no line
/// end, and text that ends with a line end has no empty line after it.
pub open spec fn lines(s: Seq<char>) -> Seq<Seq<char>> {
    lines_from(s, 0)
}

/// `line` without the white space at its end.
pub open spec fn trim_end(line: Seq<char>) -> Seq<char>
    decreases line.len(),
{
    if line.len() > 0 && white_space(line.last()) {
        trim_end(line.drop_last())
    } else {
        line
    }
}

/// `line` without any white space.
pub open spec fn squeeze(line: Seq<char>) -> Seq<char> {
    line.filter(|c: char| !white_space(c))
}

/// `ls` without the empty lines at its end.
pub open spec fn drop_trailing_empty(ls: Seq<Seq<char>>) -> Seq<Seq<char>>
    decreases ls.len(),
{
    if ls.len() > 0 && ls.last().len() == 0 {
        drop_trailing_empty(ls.drop_last())
    } else {
        ls
    }
}

/// The lines `ls`, each followed by `line_end`.
pub open spec fn join_lines(ls: Seq<Seq<char>>, line_end: Seq<char>) -> Seq<char>
    decreases ls.len(),
{
    if ls.len() == 0 {
        Seq::empty()
    } else {
        join_lines(ls.drop_last(), line_end) + ls.last() + line_end
    }
}

/// The first line feed at or after `from` lies between `from` and the end.
pub proof fn lemma_first_newline(s: Seq<char>, from: int)
    requires
        0 <= from <= s.len(),
    ensures
        from <= first_newline(s, from) <= s.len(),
        first_newline(s, from) < s.len() ==> s[first_newline(s, from)] == '\n',
    decreases s.len() - from,
{
    if from < s.len() && s[from] != '\n' {
        lemma_first_newline(s, from + 1);
    }
}

/// A transformation of the lines of a program's output.
#[derive(Debug, Clone, Copy, PartialEq, Eq, Structural)]
pub enum OutputFilter {
    /// Removes the white space at the end of each line.
    StripTrailingWhitespace,
    /// Removes the empty lines at the end of the output.
    StripTrailingEmptyLines,
    /// Removes all white space within each line.
    StripAllWhitespace,
}

/// The lines of `content`.
pub fn lines_of(content: &str) -> (r: Vec<String>)
    ensures
        views(r@) == lines(content@),
{
    let chars = to_chars(content);
    let ghost p = content@;
    let n: usize = chars.len();
    let mut r: Vec<String> = Vec::new();
    let mut start: usize = 0;
    let mut i: usize = 0;
    assert(views(r@) + lines_from(p, 0) =~= lines(p));
    while i < n
        invariant
            chars@ == p,
            n == p.len(),
            start <= i <= n,
            first_newline(p, start as int) == first_newline(p, i as int),
            lines(p) == views(r@) + lines_from(p, start as int),
        decreases n - i,
    {
        if chars[i] == '\n' {
            let end: usize = if i > start && chars[i - 1] == '\r' {
                i - 1
            } else {
                i
            };
            let line = from_chars(&chars, start, end);
            proof {
                let whole = p.subrange(start as int, i as int);
                assert(line@ =~= strip_cr(whole));
                assert(views(r@.push(line)) =~= views(r@) + seq![strip_cr(whole)]);
                assert((views(r@) + seq![strip_cr(whole)]) + lines_from(p, i + 1) =~= views(r@)
                    + (seq![strip_cr(whole)] + lines_from(p, i + 1)));
            }
            r.push(line);
            start = i + 1;
        }
        i += 1;
    }
    if start < n {
        let line = from_chars(&chars, start, n);
        proof {
            assert(views(r@.push(line)) =~= views(r@) + seq![p.subrange(start as int, n as int)]);
        }
        r.push(line);
    } else {
        assert(views(r@) + Seq::<Seq<char>>::empty() =~= views(r@));
    }
    r
}

/// `line` without the white space at its end.
pub fn trim_line_end(line: &str) -> (r: String)
    ensures
        r@ == trim_end(line@),
{
    let chars = to_chars(line);
    let mut end: usize = chars.len();
    assert(chars@.take(end as int) == chars@);
    while end > 0 && is_white_space(chars[end - 1])
        invariant
            end <= chars.len(),
            trim_end(chars@) == trim_end(chars@.take(end as int)),
        decreases end,
    {
        assert(chars@.take(end as int).drop_last() == chars@.take(end - 1));
        end -= 1;
    }
    assert(chars@.subrange(0, end as int) == chars@.take(end as int));
    from_chars(&chars, 0, end)
}

/// `line` without any white space.
pub fn squeeze_line(line: &str) -> (r: String)
    ensures
        r@ == squeeze(line@),
{
    let chars = to_chars(line);
    let ghost keep = |c: char| !white_space(c);
    let mut r = String::new();
    let mut i: usize = 0;
    assert(chars@.take(0) == Seq::<char>::empty());
    while i < chars.len()
        invariant
            i <= chars.len(),
            keep == (|c: char| !white_space(c)),
            r@ == chars@.take(i as int).filter(keep),
        decreases chars.len() - i,
    {
        proof {
            assert(chars@.take(i + 1).drop_last() == chars@.take(i as int));
            reveal(Seq::filter);
        }
        if !is_white_space(chars[i]) {
            push_char(&mut r, chars[i]);
        }
        i += 1;
    }
    assert(chars@.take(chars.len() as int) == chars@);
    r
}

impl OutputFilter {
    /// What the filter makes of the lines of `content`.
    pub open spec fn spec_apply(self, content: Seq<char>) -> Seq<Seq<char>> {
        match self {
            OutputFilter::StripTrailingWhitespace => lines(content).map_values(
                |l: Seq<char>| trim_end(l),
            ),
            OutputFilter::StripTrailingEmptyLines => drop_trailing_empty(lines(content)),
            OutputFilter::StripAllWhitespace => lines(content).map_values(
                |l: Seq<char>| squeeze(l),
            ),
        }
    }

    /// The name of the filter in messages.
    pub open spec fn spec_name(self) -> Seq<char> {
        match self {
            OutputFilter::StripTrailingWhitespace => "strip trailing whitespace"@,
            OutputFilter::StripTrailingEmptyLines => "strip trailing empty lines"@,
            OutputFilter::StripAllWhitespace => "strip all whitespace"@,
        }
    }

    /// The lines of `content`, each without the white space at its end.
    pub fn run_strip_trailing_whitespace(content: &String) -> (r: Vec<String>)
        ensures
            views(r@) == OutputFilter::StripTrailingWhitespace.spec_apply(content@),
    {
        let ls = lines_of(content.as_str());
        let mut ans: Vec<String> = Vec::new();
        let mut i: usize = 0;
        while i < ls.len()
            invariant
                i <= ls.len(),
                ans.len() == i,
                forall|k: int| 0 <= k < i ==> ans[k]@ == trim_end(ls[k]@),
            decreases ls.len() - i,
        {
            ans.push(trim_line_end(ls[i].as_str()));
            i += 1;
        }
        assert(views(ans@) =~= views(ls@).map_values(|l: Seq<char>| trim_end(l)));
        ans
    }

    /// The lines of `content` without the empty lines at its end.
    pub fn run_strip_trailing_empty_lines(content: &String) -> (r: Vec<String>)
        ensures
            views(r@) == OutputFilter::StripTrailingEmptyLines.spec_apply(content@),
    {
        let mut ls = lines_of(content.as_str());
        let ghost all = views(ls@);
        while ls.len() > 0 && ls[ls.len() - 1].as_str().is_empty()
            invariant
                drop_trailing_empty(all) == drop_trailing_empty(views(ls@)),
            decreases ls.len(),
        {
            proof {
                assert(views(ls@).last() == ls[ls.len() - 1]@);
                assert(views(ls@).drop_last() =~= views(ls@.drop_last()));
            }
            ls.pop();
        }
        proof {
            if ls.len() > 0 {
                assert(views(ls@).last() == ls[ls.len() - 1]@);
            }
        }
        ls
    }

    /// The lines of `content`, each without any white space.
    pub fn run_strip_all_whitespace(content: &String) -> (r: Vec<String>)
        ensures
            views(r@) == OutputFilter::StripAllWhitespace.spec_apply(content@),
    {
        let ls = lines_of(content.as_str());
        let mut ans: Vec<String> = Vec::new();
        let mut i: usize = 0;
        while i < ls.len()
            invariant
                i <= ls.len(),
                ans.len() == i,
                forall|k: int| 0 <= k < i ==> ans[k]@ == squeeze(ls[k]@),
            decreases ls.len() - i,
        {
            ans.push(squeeze_line(ls[i].as_str()));
            i += 1;
        }
        assert(views(ans@) =~= views(ls@).map_values(|l: Seq<char>| squeeze(l)));
        ans
    }

    /// The filtered lines of `content`.
    pub fn apply(&self, content: &String) -> (r: Vec<String>)
        ensures
            views(r@) == self.spec_apply(content@),
    {
        match self {
            OutputFilter::StripTrailingWhitespace => Self::run_strip_trailing_whitespace(content),
            OutputFilter::StripTrailingEmptyLines => Self::run_strip_trailing_empty_lines(content),
            OutputFilter::StripAllWhitespace => Self::run_strip_all_whitespace(content),
        }
    }

    /// The text that replaces `content`: its filtered lines, each followed
    /// by `line_end`.
    pub fn run(&self, content: &String, line_end: &str) -> (r: String)
        ensures
            r@ == join_lines(self.spec_apply(content@), line_end@),
    {
        let ls = self.apply(content);
        let mut out = String::new();
        let mut i: usize = 0;
        assert(views(ls@).take(0) =~= Seq::<Seq<char>>::empty());
        while i < ls.len()
            invariant
                i <= ls.len(),
                out@ == join_lines(views(ls@).take(i as int), line_end@),
            decreases ls.len() - i,
        {
            proof {
                assert(views(ls@).take(i + 1).drop_last() =~= views(ls@).take(i as int));
                assert(views(ls@).take(i + 1).last() == ls[i as int]@);
            }
            out.append(ls[i].as_str());
            out.append(line_end);
            i += 1;
        }
        assert(views(ls@).take(ls.len() as int) =~= views(ls@));
        out
    }

    /// The name of the filter in messages.
    pub fn to_str(&self) -> (r: &'static str)
        ensures
            r@ == self.spec_name(),
    {
        match self {
            OutputFilter::StripTrailingWhitespace => "strip trailing whitespace",
            OutputFilter::StripTrailingEmptyLines => "strip trailing empty lines",
            OutputFilter::StripAllWhitespace => "strip all whitespace",
        }
    }

    /// The filter that the configuration calls `value`, or the message that
    /// says that it calls none so.
    pub open spec fn spec_try_from(value: Seq<char>) -> Result<OutputFilter, Seq<char>> {
        if value == "strip-trailing-whitespace"@ {
            Ok(OutputFilter::StripTrailingWhitespace)
        } else if value == "strip-trailing-empty-lines"@ {
            Ok(OutputFilter::StripTrailingEmptyLines)
        } else if value == "strip-all-whitespace"@ {
            Ok(OutputFilter::StripAllWhitespace)
        } else {
            Err("filter "@ + value + " is not defined in field `default.filters`"@)
        }
    }

    /// The filter that the configuration calls `value`.
    pub fn try_from(value: &str) -> (r: Result<OutputFilter, String>)
        ensures
            message_view(r) == OutputFilter::spec_try_from(value@),
    {
        if str_eq(value, "strip-trailing-whitespace") {
            Ok(OutputFilter::StripTrailingWhitespace)
        } else if str_eq(value, "strip-trailing-empty-lines") {
            Ok(OutputFilter::StripTrailingEmptyLines)
        } else if str_eq(value, "strip-all-whitespace") {
            Ok(OutputFilter::StripAllWhitespace)
        } else {
            let mut msg = "filter ".to_owned();
            msg.append(value);
            msg.append(" is not defined in field `default.filters`");
            Err(msg)
        }
    }
}

} // verus!
