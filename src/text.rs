use vstd::prelude::*;
use vstd::string::*;

verus! {

/// A span as a mathematical value: the offsets it covers and its characters.
pub ghost struct SpanModel {
    pub start: int,
    pub end: int,
    pub literal: Seq<char>,
}

/// A half-open range `[start, end)` of character offsets into a source,
/// together with the characters it covers.
#[derive(Debug)]
pub struct TextSpan {
    pub start: usize,
    pub end: usize,
    pub literal: String,
}

impl View for TextSpan {
    type V = SpanModel;

    open spec fn view(&self) -> SpanModel {
        SpanModel { start: self.start as int, end: self.end as int, literal: self.literal@ }
    }
}

/// The span `[start, end)` of `source`.
pub open spec fn span_of(source: Seq<char>, start: int, end: int) -> SpanModel {
    SpanModel { start, end, literal: source.subrange(start, end) }
}

impl Clone for TextSpan {
    fn clone(&self) -> (r: TextSpan)
        ensures
            r@ == self@,
    {
        TextSpan { start: self.start, end: self.end, literal: self.literal.clone() }
    }
}

impl TextSpan {
    pub fn new(start: usize, end: usize, literal: String) -> (r: TextSpan)
        ensures
            r.start == start,
            r.end == end,
            r.literal@ == literal@,
    {
        TextSpan { start, end, literal }
    }

    pub fn length(&self) -> (r: usize)
        requires
            self.start <= self.end,
        ensures
            r == self.end - self.start,
    {
        self.end - self.start
    }
}

/// The decimal digits of `n`, most significant first.
pub open spec fn decimal(n: nat) -> Seq<char>
    decreases n,
{
    if n < 10 {
        seq![digit_char(n)]
    } else {
        decimal(n / 10) + seq![digit_char(n % 10)]
    }
}

pub open spec fn digit_char(d: nat) -> char {
    ((d + '0' as nat) as u32) as char
}

fn digit_str(d: usize) -> (r: &'static str)
    requires
        d < 10,
    ensures
        r@ == seq![digit_char(d as nat)],
{
    proof {
        reveal_strlit("0");
        reveal_strlit("1");
        reveal_strlit("2");
        reveal_strlit("3");
        reveal_strlit("4");
        reveal_strlit("5");
        reveal_strlit("6");
        reveal_strlit("7");
        reveal_strlit("8");
        reveal_strlit("9");
    }
    let r = if d == 0 {
        "0"
    } else if d == 1 {
        "1"
    } else if d == 2 {
        "2"
    } else if d == 3 {
        "3"
    } else if d == 4 {
        "4"
    } else if d == 5 {
        "5"
    } else if d == 6 {
        "6"
    } else if d == 7 {
        "7"
    } else if d == 8 {
        "8"
    } else {
        "9"
    };
    assert(r@ =~= seq![digit_char(d as nat)]);
    r
}

/// Appends the decimal digits of `n` to `out`.
pub fn push_decimal(out: &mut String, n: u64)
    ensures
        final(out)@ == old(out)@ + decimal(n as nat),
    decreases n,
{
    if n >= 10 {
        push_decimal(out, n / 10);
    }
    out.append(digit_str((n % 10) as usize));
    assert(final(out)@ =~= old(out)@ + decimal(n as nat));
}

/// Appends `n` blanks to `out`.
pub fn push_spaces(out: &mut String, n: usize)
    ensures
        final(out)@ == old(out)@ + Seq::new(n as nat, |i: int| ' '),
{
    let mut i: usize = 0;
    while i < n
        invariant
            0 <= i <= n,
            out@ == old(out)@ + Seq::new(i as nat, |k: int| ' '),
        decreases n - i,
    {
        proof {
            reveal_strlit(" ");
        }
        out.append(" ");
        i = i + 1;
        assert(out@ =~= old(out)@ + Seq::new(i as nat, |k: int| ' '));
    }
}

/// The number of line breaks in `s`.
pub open spec fn count_newlines(s: Seq<char>) -> nat
    decreases s.len(),
{
    if s.len() == 0 {
        0
    } else {
        count_newlines(s.drop_last()) + if s.last() == '\n' {
            1nat
        } else {
            0nat
        }
    }
}

/// The offset where the line holding `pos` starts: just after the last line
/// break before `pos`, or zero.
pub open spec fn line_start_at(s: Seq<char>, pos: int) -> int
    decreases pos,
{
    if pos <= 0 {
        0
    } else if s[pos - 1] == '\n' {
        pos
    } else {
        line_start_at(s, pos - 1)
    }
}

/// The offset where the line holding `pos` ends: the first line break at or
/// after `pos`, or the end of `s`.
pub open spec fn line_end_at(s: Seq<char>, pos: int) -> int
    decreases s.len() - pos,
{
    if pos >= s.len() {
        s.len() as int
    } else if s[pos] == '\n' {
        pos
    } else {
        line_end_at(s, pos + 1)
    }
}

pub proof fn lemma_line_bounds(s: Seq<char>, pos: int)
    requires
        0 <= pos <= s.len(),
    ensures
        0 <= line_start_at(s, pos) <= pos <= line_end_at(s, pos) <= s.len(),
    decreases s.len() - pos,
{
    lemma_line_start_bounds(s, pos);
    if pos < s.len() && s[pos] != '\n' {
        lemma_line_bounds(s, pos + 1);
    }
}

proof fn lemma_line_start_bounds(s: Seq<char>, pos: int)
    requires
        0 <= pos <= s.len(),
    ensures
        0 <= line_start_at(s, pos) <= pos,
    decreases pos,
{
    if pos > 0 && s[pos - 1] != '\n' {
        lemma_line_start_bounds(s, pos - 1);
    }
}

/// The text of a source, with the mapping from offsets to lines and columns.
pub struct SourceText {
    text: String,
    chars: Vec<char>,
}

impl SourceText {
    /// The characters of the source.
    pub closed spec fn chars(&self) -> Seq<char> {
        self.chars@
    }

    pub closed spec fn wf(&self) -> bool {
        self.chars@ == self.text@
    }

    pub fn new(text: String) -> (r: SourceText)
        ensures
            r.wf(),
            r.chars() == text@,
    {
        let chars = chars_of(text.as_str());
        SourceText { text, chars }
    }

    pub fn len(&self) -> (r: usize)
        ensures
            r == self.chars().len(),
    {
        self.chars.len()
    }

    /// The zero-based index of the line that holds `position`.
    pub fn line_index(&self, position: usize) -> (r: usize)
        requires
            position <= self.chars().len(),
        ensures
            r == count_newlines(self.chars().take(position as int)),
    {
        let mut count: usize = 0;
        let mut i: usize = 0;
        while i < position
            invariant
                0 <= i <= position <= self.chars@.len(),
                count == count_newlines(self.chars@.take(i as int)),
                count <= i,
            decreases position - i,
        {
            assert(self.chars@.take(i + 1).drop_last() =~= self.chars@.take(i as int));
            if self.chars[i] == '\n' {
                count = count + 1;
            }
            i = i + 1;
        }
        count
    }

    /// The offset where the line holding `position` starts.
    pub fn line_start(&self, position: usize) -> (r: usize)
        requires
            position <= self.chars().len(),
        ensures
            r == line_start_at(self.chars(), position as int),
    {
        let mut i: usize = position;
        while i > 0 && self.chars[i - 1] != '\n'
            invariant
                0 <= i <= position <= self.chars@.len(),
                line_start_at(self.chars@, i as int) == line_start_at(
                    self.chars@,
                    position as int,
                ),
            decreases i,
        {
            i = i - 1;
        }
        i
    }

    /// The offset where the line holding `position` ends.
    pub fn line_end(&self, position: usize) -> (r: usize)
        requires
            position <= self.chars().len(),
        ensures
            r == line_end_at(self.chars(), position as int),
    {
        let mut i: usize = position;
        while i < self.chars.len() && self.chars[i] != '\n'
            invariant
                position <= i <= self.chars@.len(),
                line_end_at(self.chars@, i as int) == line_end_at(self.chars@, position as int),
            decreases self.chars@.len() - i,
        {
            i = i + 1;
        }
        i
    }

    /// Appends the characters `[from, to)` of the source to `out`.
    pub fn push_range(&self, out: &mut String, from: usize, to: usize)
        requires
            self.wf(),
            from <= to <= self.chars().len(),
        ensures
            final(out)@ == old(out)@ + self.chars().subrange(from as int, to as int),
    {
        out.append(self.text.as_str().substring_char(from, to));
    }
}

/// Relies on `str::chars` collected into a `Vec`: the characters of `s`, in order.
#[verifier::external_body]
pub(crate) fn chars_of(s: &str) -> (r: Vec<char>)
    ensures
        r@ == s@,
{
    s.chars().collect()
}

} // verus!
