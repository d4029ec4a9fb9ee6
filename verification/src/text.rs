//! Decimal rendering of counts, string concatenation, and styled console text.
use vstd::prelude::*;

verus! {

/// The decimal digit `d` as a character.
pub open spec fn digit_char(d: nat) -> char {
    (48 + d) as char
}

/// The decimal numeral of `n`, most significant digit first, without leading zeros.
pub open spec fn decimal_chars(n: nat) -> Seq<char>
    decreases n,
{
    if n < 10 {
        seq![digit_char(n)]
    } else {
        decimal_chars(n / 10).push(digit_char(n % 10))
    }
}

/// Whether `c` is one of the ten decimal digits.
pub open spec fn is_digit(c: char) -> bool {
    48 <= c as int <= 57
}

fn digit_text(d: usize) -> (r: &'static str)
    requires
        d < 10,
    ensures
        r@ == seq![digit_char(d as nat)],
{
    proof {
        reveal_strlit("0");
        reveal_strlit("1");
        reveal_strlit("2");
        reveal_strlit("3");
        reveal_strlit("4");
        reveal_strlit("5");
        reveal_strlit("6");
        reveal_strlit("7");
        reveal_strlit("8");
        reveal_strlit("9");
    }
    match d {
        0 => "0",
        1 => "1",
        2 => "2",
        3 => "3",
        4 => "4",
        5 => "5",
        6 => "6",
        7 => "7",
        8 => "8",
        _ => "9",
    }
}

/// The decimal numeral of `n`.
pub fn decimal(n: usize) -> (r: String)
    ensures
        r@ == decimal_chars(n as nat),
    decreases n,
{
    if n < 10 {
        digit_text(n).to_owned()
    } else {
        let mut text = decimal(n / 10);
        text.append(digit_text(n % 10));
        text
    }
}

/// How a piece of console text is coloured.
#[derive(Clone, Copy, Debug, PartialEq, Eq, Structural)]
pub enum Style {
    /// No colour.
    Plain,
    /// A configured number.
    Value,
    /// A path.
    Path,
    /// A section heading.
    Heading,
    /// A warning.
    Warning,
    /// A running count, in the colour that the logger keeps for numbers.
    Number,
}

impl Style {
    /// The fixed ANSI code of the style. `Plain` text has none, and the code of `Number` is the
    /// logger's own.
    pub fn code(&self) -> (r: Option<&'static str>)
        ensures
            match *self {
                Style::Plain | Style::Number => r is None,
                Style::Value => r is Some && r->0@ == "31"@,
                Style::Path => r is Some && r->0@ == "32;1"@,
                Style::Heading => r is Some && r->0@ == "34;1"@,
                Style::Warning => r is Some && r->0@ == "33"@,
            },
    {
        match self {
            Style::Plain => None,
            Style::Value => Some("31"),
            Style::Path => Some("32;1"),
            Style::Heading => Some("34;1"),
            Style::Warning => Some("33"),
            Style::Number => None,
        }
    }
}

/// A piece of text in one style.
#[derive(Debug)]
pub struct Span {
    pub text: String,
    pub style: Style,
}

/// What a [`Span`] holds.
pub ghost struct SpanView {
    pub text: Seq<char>,
    pub style: Style,
}

impl View for Span {
    type V = SpanView;

    open spec fn view(&self) -> SpanView {
        SpanView { text: self.text@, style: self.style }
    }
}

/// The view of unstyled text.
pub open spec fn plain(text: Seq<char>) -> SpanView {
    SpanView { text, style: Style::Plain }
}

/// The view of text in `style`.
pub open spec fn styled(text: Seq<char>, style: Style) -> SpanView {
    SpanView { text, style }
}

/// A line of console text.
#[derive(Debug)]
pub struct Line {
    pub spans: Vec<Span>,
}

impl View for Line {
    type V = Seq<SpanView>;

    open spec fn view(&self) -> Seq<SpanView> {
        self.spans@.map_values(|s: Span| s@)
    }
}

/// The views of several lines.
pub open spec fn lines_view(lines: Seq<Line>) -> Seq<Seq<SpanView>> {
    lines.map_values(|l: Line| l@)
}

impl Line {
    /// A line without text.
    pub fn new() -> (r: Self)
        ensures
            r@ == Seq::<SpanView>::empty(),
    {
        let r = Line { spans: Vec::new() };
        assert(r@ =~= Seq::<SpanView>::empty());
        r
    }

    /// Appends `text` in `style`.
    pub fn push(&mut self, text: String, style: Style)
        ensures
            final(self)@ == old(self)@.push(styled(text@, style)),
            final(self).spans@ == old(self).spans@.push(Span { text, style }),
    {
        self.spans.push(Span { text, style });
        assert(self@ =~= old(self)@.push(styled(text@, style)));
    }

    /// A line made of one piece.
    pub fn single(text: &str, style: Style) -> (r: Self)
        ensures
            r@ == seq![styled(text@, style)],
            r@ == seq![SpanView { text: text@, style }],
    {
        let mut line = Line::new();
        line.push(text.to_owned(), style);
        assert(line@ =~= seq![styled(text@, style)]);
        line
    }

    /// An unstyled label followed by a value.
    pub fn labelled(label: &str, value: String, style: Style) -> (r: Self)
        ensures
            r@ == seq![plain(label@), styled(value@, style)],
            r@ == seq![
                SpanView { text: label@, style: Style::Plain },
                SpanView { text: value@, style },
            ],
    {
        let mut line = Line::new();
        line.push(label.to_owned(), Style::Plain);
        line.push(value, style);
        assert(line@ =~= seq![plain(label@), styled(value@, style)]);
        line
    }
}

/// A numeral is never empty and holds digits only.
pub proof fn lemma_decimal_digits(n: nat)
    ensures
        decimal_chars(n).len() > 0,
        forall|i: int| 0 <= i < decimal_chars(n).len() ==> is_digit(#[trigger] decimal_chars(n)[i]),
    decreases n,
{
    if n >= 10 {
        lemma_decimal_digits(n / 10);
    }
}

/// The number that decimal digits stand for.
pub open spec fn read_decimal(digits: Seq<char>) -> int
    decreases digits.len(),
{
    if digits.len() == 0 {
        0
    } else {
        10 * read_decimal(digits.drop_last()) + (digits.last() as int - '0' as int)
    }
}

/// Reading a numeral gives the number back, and only the numeral of zero begins with a zero.
pub proof fn lemma_decimal_reads_back(n: nat)
    ensures
        read_decimal(decimal_chars(n)) == n,
        decimal_chars(n).len() > 0,
        n > 0 ==> decimal_chars(n)[0] != '0',
        n == 0 ==> decimal_chars(n) == seq!['0'],
    decreases n,
{
    assert('0' as int == 48);
    let digits = decimal_chars(n);
    assert(digit_char(n % 10) as int == 48 + n % 10);
    if n < 10 {
        assert(digit_char(n) as int == 48 + n);
        assert(digits.drop_last() =~= Seq::<char>::empty());
        assert(read_decimal(digits.drop_last()) == 0);
        assert(digits[0] as int == 48 + n);
    } else {
        lemma_decimal_reads_back(n / 10);
        assert(digits.drop_last() =~= decimal_chars(n / 10));
    }
}

/// Different numbers have different numerals.
pub proof fn lemma_decimal_injective(a: nat, b: nat)
    requires
        decimal_chars(a) == decimal_chars(b),
    ensures
        a == b,
    decreases a,
{
    lemma_decimal_digits(a / 10);
    lemma_decimal_digits(b / 10);
    if a < 10 && b < 10 {
        assert(decimal_chars(a)[0] == digit_char(a));
        assert(decimal_chars(b)[0] == digit_char(b));
        assert(digit_char(a) as int == 48 + a);
        assert(digit_char(b) as int == 48 + b);
    } else if a < 10 {
        assert(decimal_chars(a).len() == 1);
        assert(decimal_chars(b).len() > 1);
    } else if b < 10 {
        assert(decimal_chars(b).len() == 1);
        assert(decimal_chars(a).len() > 1);
    } else {
        assert(decimal_chars(a).last() == digit_char(a % 10));
        assert(decimal_chars(b).last() == digit_char(b % 10));
        assert(digit_char(a % 10) as int == 48 + a % 10);
        assert(digit_char(b % 10) as int == 48 + b % 10);
        assert(decimal_chars(a / 10) =~= decimal_chars(a).drop_last());
        assert(decimal_chars(b / 10) =~= decimal_chars(b).drop_last());
        lemma_decimal_injective(a / 10, b / 10);
    }
}

/// A numeral followed by a non-digit can be read back: the number and the rest are both
/// determined by the whole text.
pub proof fn lemma_decimal_prefix(a: nat, b: nat, rest_a: Seq<char>, rest_b: Seq<char>)
    requires
        decimal_chars(a) + rest_a == decimal_chars(b) + rest_b,
        rest_a.len() > 0 ==> !is_digit(rest_a[0]),
        rest_b.len() > 0 ==> !is_digit(rest_b[0]),
    ensures
        a == b,
        rest_a == rest_b,
{
    let da = decimal_chars(a);
    let db = decimal_chars(b);
    lemma_decimal_digits(a);
    lemma_decimal_digits(b);
    if da.len() < db.len() {
        assert((db + rest_b)[da.len() as int] == db[da.len() as int]);
        assert((da + rest_a)[da.len() as int] == rest_a[0]);
        assert(false);
    }
    if db.len() < da.len() {
        assert((da + rest_a)[db.len() as int] == da[db.len() as int]);
        assert((db + rest_b)[db.len() as int] == rest_b[0]);
        assert(false);
    }
    assert(da =~= (da + rest_a).take(da.len() as int));
    assert(db =~= (db + rest_b).take(db.len() as int));
    assert(rest_a =~= (da + rest_a).skip(da.len() as int));
    assert(rest_b =~= (db + rest_b).skip(db.len() as int));
    lemma_decimal_injective(a, b);
}

} // verus!
