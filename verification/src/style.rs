//! Text for the terminal: pages of lines, made of pieces that each have a style.
use crate::text::{chars_of, text2};
use vstd::prelude::*;
use vstd::string::*;

verus! {

/// How a piece of text is to look.
#[derive(Debug, Clone, Copy, PartialEq, Eq, Structural)]
pub enum Style {
    Plain,
    Bold,
    Dimmed,
    Red,
    Green,
    Yellow,
    Blue,
    Magenta,
    Cyan,
    White,
    Gray,
    BoldRed,
    BoldGreen,
    BoldYellow,
    BoldCyan,
    DimGreen,
}

/// A piece of text and its style.
#[derive(Debug, Clone)]
pub struct Span {
    pub text: String,
    pub style: Style,
}

impl View for Span {
    type V = (Seq<char>, Style);

    open spec fn view(&self) -> (Seq<char>, Style) {
        (self.text@, self.style)
    }
}

/// A line, from left to right.
#[derive(Debug, Clone)]
pub struct Line {
    pub spans: Vec<Span>,
}

impl View for Line {
    type V = Seq<(Seq<char>, Style)>;

    open spec fn view(&self) -> Seq<(Seq<char>, Style)> {
        Seq::new(self.spans@.len(), |i: int| self.spans@[i]@)
    }
}

/// Lines, from top to bottom.
#[derive(Debug, Clone)]
pub struct Page {
    pub lines: Vec<Line>,
}

impl View for Page {
    type V = Seq<Seq<(Seq<char>, Style)>>;

    open spec fn view(&self) -> Seq<Seq<(Seq<char>, Style)>> {
        Seq::new(self.lines@.len(), |i: int| self.lines@[i]@)
    }
}

/// The text of a line without its styles.
pub open spec fn plain_text(line: Seq<(Seq<char>, Style)>) -> Seq<char>
    decreases line.len(),
{
    if line.len() == 0 {
        Seq::empty()
    } else {
        plain_text(line.drop_last()) + line.last().0
    }
}

impl Line {
    /// An empty line.
    pub fn new() -> (r: Line)
        ensures
            r@ == Seq::<(Seq<char>, Style)>::empty(),
    {
        let r = Line { spans: Vec::new() };
        assert(r@ =~= Seq::<(Seq<char>, Style)>::empty());
        r
    }

    /// The line with one more piece at its end.
    pub fn with(self, text: &str, style: Style) -> (r: Line)
        ensures
            r@ == self@.push((text@, style)),
    {
        let ghost before = self@;
        let mut r = self;
        r.spans.push(Span { text: text.to_string(), style });
        assert(r@ =~= before.push((text@, style)));
        r
    }

    /// The line with all pieces of another at its end.
    pub fn and(self, more: Line) -> (r: Line)
        ensures
            r@ == self@ + more@,
    {
        let ghost before = self@;
        let ghost rest = more@;
        let mut r = self;
        let mut tail = more.spans;
        let ghost a = r.spans@;
        let ghost b = tail@;
        r.spans.append(&mut tail);
        assert(r.spans@ =~= a + b);
        assert(r@ =~= before + rest);
        r
    }

    /// The text of the line without its styles.
    pub fn plain(&self) -> (r: String)
        ensures
            r@ == plain_text(self@),
    {
        let mut out: String = String::new();
        let mut i: usize = 0;
        assert(out@ =~= Seq::<char>::empty());
        assert(self@.take(0) =~= Seq::<(Seq<char>, Style)>::empty());
        while i < self.spans.len()
            invariant
                i <= self.spans@.len(),
                self@.len() == self.spans@.len(),
                out@ == plain_text(self@.take(i as int)),
            decreases self.spans@.len() - i,
        {
            assert(self@[i as int] == self.spans@[i as int]@);
            assert(self@.take(i + 1).drop_last() =~= self@.take(i as int));
            out.append(&self.spans[i].text);
            i += 1;
        }
        assert(self@.take(i as int) =~= self@);
        out
    }
}

impl Page {
    /// A page without lines.
    pub fn new() -> (r: Page)
        ensures
            r@ == Seq::<Seq<(Seq<char>, Style)>>::empty(),
    {
        let r = Page { lines: Vec::new() };
        assert(r@ =~= Seq::<Seq<(Seq<char>, Style)>>::empty());
        r
    }

    /// The page with one more line at its end.
    pub fn with(self, line: Line) -> (r: Page)
        ensures
            r@ == self@.push(line@),
    {
        let ghost before = self@;
        let mut r = self;
        r.lines.push(line);
        assert(r@ =~= before.push(line@));
        r
    }

    /// The page with one more line, in one style, at its end.
    pub fn line(self, text: &str, style: Style) -> (r: Page)
        ensures
            r@ == self@.push(row1((text@, style))),
    {
        self.with(Line::new().with(text, style))
    }

    /// The page with an empty line at its end.
    pub fn gap(self) -> (r: Page)
        ensures
            r@ == self@.push(empty_row()),
    {
        self.with(Line::new())
    }

    /// The page with all lines of another at its end.
    pub fn and(self, more: Page) -> (r: Page)
        ensures
            r@ == self@ + more@,
    {
        let ghost before = self@;
        let ghost rest = more@;
        let mut r = self;
        let mut tail = more.lines;
        let ghost a = r.lines@;
        let ghost b = tail@;
        r.lines.append(&mut tail);
        assert(r.lines@ =~= a + b);
        assert(r@ =~= before + rest);
        r
    }
}

/// A line of one piece.
pub open spec fn row1(a: (Seq<char>, Style)) -> Seq<(Seq<char>, Style)> {
    Seq::empty().push(a)
}

/// A line of two pieces.
pub open spec fn row2(
    a: (Seq<char>, Style),
    b: (Seq<char>, Style),
) -> Seq<(Seq<char>, Style)> {
    row1(a).push(b)
}

/// A line of three pieces.
pub open spec fn row3(
    a: (Seq<char>, Style),
    b: (Seq<char>, Style),
    c: (Seq<char>, Style),
) -> Seq<(Seq<char>, Style)> {
    row2(a, b).push(c)
}

/// A line of four pieces.
pub open spec fn row4(
    a: (Seq<char>, Style),
    b: (Seq<char>, Style),
    c: (Seq<char>, Style),
    d: (Seq<char>, Style),
) -> Seq<(Seq<char>, Style)> {
    row3(a, b, c).push(d)
}

/// A line of five pieces.
pub open spec fn row5(
    a: (Seq<char>, Style),
    b: (Seq<char>, Style),
    c: (Seq<char>, Style),
    d: (Seq<char>, Style),
    e: (Seq<char>, Style),
) -> Seq<(Seq<char>, Style)> {
    row4(a, b, c, d).push(e)
}

/// A line of six pieces.
pub open spec fn row6(
    a: (Seq<char>, Style),
    b: (Seq<char>, Style),
    c: (Seq<char>, Style),
    d: (Seq<char>, Style),
    e: (Seq<char>, Style),
    f: (Seq<char>, Style),
) -> Seq<(Seq<char>, Style)> {
    row5(a, b, c, d, e).push(f)
}

/// A line of seven pieces.
pub open spec fn row7(
    a: (Seq<char>, Style),
    b: (Seq<char>, Style),
    c: (Seq<char>, Style),
    d: (Seq<char>, Style),
    e: (Seq<char>, Style),
    f: (Seq<char>, Style),
    g: (Seq<char>, Style),
) -> Seq<(Seq<char>, Style)> {
    row6(a, b, c, d, e, f).push(g)
}

/// A line of eight pieces.
pub open spec fn row8(
    a: (Seq<char>, Style),
    b: (Seq<char>, Style),
    c: (Seq<char>, Style),
    d: (Seq<char>, Style),
    e: (Seq<char>, Style),
    f: (Seq<char>, Style),
    g: (Seq<char>, Style),
    h: (Seq<char>, Style),
) -> Seq<(Seq<char>, Style)> {
    row7(a, b, c, d, e, f, g).push(h)
}

/// A line of nine pieces.
pub open spec fn row9(
    a: (Seq<char>, Style),
    b: (Seq<char>, Style),
    c: (Seq<char>, Style),
    d: (Seq<char>, Style),
    e: (Seq<char>, Style),
    f: (Seq<char>, Style),
    g: (Seq<char>, Style),
    h: (Seq<char>, Style),
    i: (Seq<char>, Style),
) -> Seq<(Seq<char>, Style)> {
    row8(a, b, c, d, e, f, g, h).push(i)
}

/// A line of ten pieces.
pub open spec fn row10(
    a: (Seq<char>, Style),
    b: (Seq<char>, Style),
    c: (Seq<char>, Style),
    d: (Seq<char>, Style),
    e: (Seq<char>, Style),
    f: (Seq<char>, Style),
    g: (Seq<char>, Style),
    h: (Seq<char>, Style),
    i: (Seq<char>, Style),
    j: (Seq<char>, Style),
) -> Seq<(Seq<char>, Style)> {
    row9(a, b, c, d, e, f, g, h, i).push(j)
}

/// A page of one line.
pub open spec fn page1(a: Seq<(Seq<char>, Style)>) -> Seq<Seq<(Seq<char>, Style)>> {
    Seq::empty().push(a)
}

/// A page of two lines.
pub open spec fn page2(
    a: Seq<(Seq<char>, Style)>,
    b: Seq<(Seq<char>, Style)>,
) -> Seq<Seq<(Seq<char>, Style)>> {
    page1(a).push(b)
}

/// A page of three lines.
pub open spec fn page3(
    a: Seq<(Seq<char>, Style)>,
    b: Seq<(Seq<char>, Style)>,
    c: Seq<(Seq<char>, Style)>,
) -> Seq<Seq<(Seq<char>, Style)>> {
    page2(a, b).push(c)
}

/// A page of four lines.
pub open spec fn page4(
    a: Seq<(Seq<char>, Style)>,
    b: Seq<(Seq<char>, Style)>,
    c: Seq<(Seq<char>, Style)>,
    d: Seq<(Seq<char>, Style)>,
) -> Seq<Seq<(Seq<char>, Style)>> {
    page3(a, b, c).push(d)
}

/// A page of five lines.
pub open spec fn page5(
    a: Seq<(Seq<char>, Style)>,
    b: Seq<(Seq<char>, Style)>,
    c: Seq<(Seq<char>, Style)>,
    d: Seq<(Seq<char>, Style)>,
    e: Seq<(Seq<char>, Style)>,
) -> Seq<Seq<(Seq<char>, Style)>> {
    page4(a, b, c, d).push(e)
}

/// A page of six lines.
pub open spec fn page6(
    a: Seq<(Seq<char>, Style)>,
    b: Seq<(Seq<char>, Style)>,
    c: Seq<(Seq<char>, Style)>,
    d: Seq<(Seq<char>, Style)>,
    e: Seq<(Seq<char>, Style)>,
    f: Seq<(Seq<char>, Style)>,
) -> Seq<Seq<(Seq<char>, Style)>> {
    page5(a, b, c, d, e).push(f)
}

/// A line without text.
pub open spec fn empty_row() -> Seq<(Seq<char>, Style)> {
    Seq::empty()
}

/// `c`, `n` times.
pub open spec fn repeated(c: char, n: int) -> Seq<char> {
    Seq::new(
        if n < 0 {
            0
        } else {
            n as nat
        },
        |i: int| c,
    )
}

pub fn repeat_char(c: char, n: usize) -> (r: String)
    ensures
        r@ == repeated(c, n as int),
{
    let mut out: String = String::new();
    let mut i: usize = 0;
    assert(out@ =~= repeated(c, 0));
    while i < n
        invariant
            i <= n,
            out@ == repeated(c, i as int),
        decreases n - i,
    {
        out.push(c);
        i += 1;
        assert(out@ =~= repeated(c, i as int));
    }
    out
}

/// `s`, filled up with spaces on the right to `n` characters.
pub open spec fn pad_end(s: Seq<char>, n: int) -> Seq<char> {
    s + repeated(' ', n - s.len())
}

/// `s`, filled up with spaces on the left to `n` characters.
pub open spec fn pad_start(s: Seq<char>, n: int) -> Seq<char> {
    repeated(' ', n - s.len()) + s
}

fn missing(s: &str, n: usize) -> (r: String)
    ensures
        r@ == repeated(' ', n - s@.len()),
{
    let len: usize = chars_of(s).len();
    if len >= n {
        let none: String = String::new();
        assert(none@ =~= repeated(' ', n - s@.len()));
        none
    } else {
        repeat_char(' ', n - len)
    }
}

pub fn padded_end(s: &str, n: usize) -> (r: String)
    ensures
        r@ == pad_end(s@, n as int),
{
    let fill = missing(s, n);
    text2(s, &fill)
}

pub fn padded_start(s: &str, n: usize) -> (r: String)
    ensures
        r@ == pad_start(s@, n as int),
{
    let fill = missing(s, n);
    text2(&fill, s)
}

} // verus!
