//! The scanner: from the characters of a source text to tokens.

use crate::compiler::token::{lookup, token_views, word_token, Token, TokenView};
use crate::text::{alphabetic, chars_of, decimal, is_digit, leading, numeric, whitespace};
use vstd::prelude::*;

verus! {

/// Whether `c` can begin a word.
pub open spec fn is_letter_char(c: char) -> bool {
    alphabetic(c) || c == '_'
}

/// Whether `c` can begin a word: it is alphabetic or `_`.
pub fn is_letter(c: char) -> (r: bool)
    ensures
        r == is_letter_char(c),
{
    c.is_alphabetic() || c == '_'
}

/// The characters that are white space.
pub open spec fn blank() -> spec_fn(char) -> bool {
    |c: char| whitespace(c)
}

/// The characters that can go on a word.
pub open spec fn in_word() -> spec_fn(char) -> bool {
    |c: char| is_letter_char(c) || numeric(c)
}

/// The characters that can go on a number.
pub open spec fn in_number() -> spec_fn(char) -> bool {
    |c: char| numeric(c)
}

/// The characters that do not end a line.
pub open spec fn in_line() -> spec_fn(char) -> bool {
    |c: char| c != '\n'
}

/// The characters that do not end a string literal.
pub open spec fn in_string() -> spec_fn(char) -> bool {
    |c: char| c != '"'
}

/// How many line feeds `s` holds.
pub open spec fn newlines(s: Seq<char>) -> nat
    decreases s.len(),
{
    if s.len() == 0 {
        0
    } else {
        newlines(s.drop_last()) + if s.last() == '\n' {
            1nat
        } else {
            0nat
        }
    }
}

/// Whether every character of `s` is one of the digits `0` to `9`.
pub open spec fn all_digits(s: Seq<char>) -> bool {
    forall|i: int| 0 <= i < s.len() ==> is_digit(#[trigger] s[i])
}

/// Whether `c` is a character that makes, or begins, a token by itself.
pub open spec fn is_symbol(c: char) -> bool {
    c == '+' || c == '-' || c == '*' || c == '/' || c == ',' || c == '.' || c == '(' || c == ')'
        || c == '{' || c == '}' || c == ';' || c == ':' || c == '"' || c == '^' || c == '%' || c
        == '|' || c == '&' || c == '=' || c == '!' || c == '<' || c == '>'
}

/// The mathematical value of a scanner: the number of the current line,
/// counted from 0, and the characters not yet read.
pub struct ScannerView {
    pub line: nat,
    pub rest: Seq<char>,
}

impl ScannerView {
    /// The next character, if any is left.
    pub open spec fn peek(self) -> Option<char> {
        if self.rest.len() > 0 {
            Some(self.rest[0])
        } else {
            None
        }
    }

    /// Whether the next character is `c`.
    pub open spec fn at(self, c: char) -> bool {
        self.peek() == Some(c)
    }

    /// The scanner after `n` more characters, or all that are left, have
    /// been read.
    pub open spec fn skip(self, n: int) -> ScannerView {
        if n <= self.rest.len() {
            ScannerView { line: self.line, rest: self.rest.skip(n) }
        } else {
            ScannerView { line: self.line, rest: Seq::empty() }
        }
    }

    /// The scanner after the white space at its start has been read; each
    /// line feed in it begins a line.
    pub open spec fn skip_whitespace(self) -> ScannerView {
        let n = leading(self.rest, blank());
        ScannerView { line: self.line + newlines(self.rest.take(n as int)), rest: self.rest.skip(n as int) }
    }

    /// The scanner after the rest of the line has been read, with the line
    /// feed that ends it, if there is one. A line begins in either case.
    pub open spec fn skip_comment(self) -> ScannerView {
        let n = leading(self.rest, in_line());
        ScannerView { line: self.line + 1, rest: self.rest.skip(n as int) }.skip(1)
    }

    /// The word that begins with `first` and goes on at the scanner's
    /// place.
    pub open spec fn word(self, first: char) -> Seq<char> {
        seq![first] + self.rest.take(leading(self.rest, in_word()) as int)
    }

    /// The scanner after the word that goes on at its place.
    pub open spec fn after_word(self) -> ScannerView {
        self.skip(leading(self.rest, in_word()) as int)
    }

    /// The text of the string literal whose opening quote has been read.
    pub open spec fn string(self) -> Seq<char> {
        self.rest.take(leading(self.rest, in_string()) as int)
    }

    /// The scanner after the string literal whose opening quote has been
    /// read: behind the closing quote, or at the end of the input.
    pub open spec fn after_string(self) -> ScannerView {
        self.skip(leading(self.rest, in_string()) as int).skip(1)
    }

    /// How many characters go on the whole part of a number.
    pub open spec fn whole_length(self) -> int {
        leading(self.rest, in_number()) as int
    }

    /// The whole part of the number that begins with `first`.
    pub open spec fn whole(self, first: char) -> Seq<char> {
        seq![first] + self.rest.take(self.whole_length())
    }

    /// Whether the number has a fraction: a `.` with a numeric character
    /// after it.
    pub open spec fn has_fraction(self) -> bool {
        let n = self.whole_length();
        n + 1 < self.rest.len() && self.rest[n] == '.' && numeric(self.rest[n + 1])
    }

    /// The characters behind the `.` of a number.
    pub open spec fn behind_point(self) -> Seq<char> {
        self.rest.skip(self.whole_length() + 1)
    }

    /// The digits of the fraction of a number.
    pub open spec fn fraction(self) -> Seq<char> {
        self.behind_point().take(leading(self.behind_point(), in_number()) as int)
    }

    /// Whether the number that begins with `first` and goes on at the
    /// scanner's place can be written as a token: its numeric characters
    /// are digits from `0` to `9`, and without a fraction its value is at
    /// most `i32::MAX`.
    pub open spec fn number_valid(self, first: char) -> bool {
        &&& all_digits(self.whole(first))
        &&& if self.has_fraction() {
            all_digits(self.fraction())
        } else {
            decimal(self.whole(first)) <= i32::MAX
        }
    }

    /// The token of the number that begins with `first`.
    pub open spec fn number(self, first: char) -> TokenView {
        if self.has_fraction() {
            TokenView::FloatLiteral(self.whole(first) + seq!['.'] + self.fraction())
        } else {
            TokenView::IntegerLiteral(decimal(self.whole(first)) as i32)
        }
    }

    /// The scanner after the number that goes on at its place.
    pub open spec fn after_number(self) -> ScannerView {
        if self.has_fraction() {
            self.skip(self.whole_length() + 1 + leading(self.behind_point(), in_number()))
        } else {
            self.skip(self.whole_length())
        }
    }

    /// The token that the symbol `c` makes, alone or with the character
    /// after it, which is the next of this scanner.
    pub open spec fn symbol(self, c: char) -> (TokenView, ScannerView) {
        if c == '+' {
            (TokenView::Add, self)
        } else if c == '-' {
            (TokenView::Subtract, self)
        } else if c == '*' {
            (TokenView::Multiply, self)
        } else if c == '/' {
            if self.at('/') {
                (TokenView::Comment, self.skip_comment())
            } else {
                (TokenView::Divide, self)
            }
        } else if c == ',' {
            (TokenView::Comma, self)
        } else if c == '.' {
            if self.at('.') {
                (TokenView::DotDot, self.skip(1))
            } else {
                (TokenView::Dot, self)
            }
        } else if c == '(' {
            (TokenView::LeftParenthesis, self)
        } else if c == ')' {
            (TokenView::RightParenthesis, self)
        } else if c == '{' {
            (TokenView::LeftBrace, self)
        } else if c == '}' {
            (TokenView::RightBrace, self)
        } else if c == ';' {
            (TokenView::Semicolon, self)
        } else if c == ':' {
            (TokenView::Colon, self)
        } else if c == '"' {
            (TokenView::StringLiteral(self.string()), self.after_string())
        } else if c == '^' {
            (TokenView::Xor, self)
        } else if c == '%' {
            (TokenView::Modulo, self)
        } else if c == '|' {
            if self.at('|') {
                (TokenView::LogicalOr, self.skip(1))
            } else {
                (TokenView::Or, self)
            }
        } else if c == '&' {
            if self.at('&') {
                (TokenView::LogicalAnd, self.skip(1))
            } else {
                (TokenView::And, self)
            }
        } else if c == '=' {
            if self.at('=') {
                (TokenView::Equality, self.skip(1))
            } else {
                (TokenView::Assign, self)
            }
        } else if c == '!' {
            if self.at('=') {
                (TokenView::NotEquality, self.skip(1))
            } else {
                (TokenView::Bang, self)
            }
        } else if c == '<' {
            if self.at('=') {
                (TokenView::LessThanEqual, self.skip(1))
            } else if self.at('<') {
                (TokenView::ShiftLeft, self.skip(1))
            } else {
                (TokenView::LessThan, self)
            }
        } else {
            if self.at('=') {
                (TokenView::GreaterThanEqual, self.skip(1))
            } else if self.at('>') {
                (TokenView::ShiftRight, self.skip(1))
            } else {
                (TokenView::GreaterThan, self)
            }
        }
    }

    /// Whether the token that begins with `c` is a number: `c` is numeric,
    /// and neither a symbol nor the beginning of a word.
    pub open spec fn begins_number(c: char) -> bool {
        !is_symbol(c) && !is_letter_char(c) && numeric(c)
    }

    /// The token that begins with `c`, which has been read, and the
    /// scanner after that token.
    pub open spec fn token(self, c: char) -> (TokenView, ScannerView) {
        if is_symbol(c) {
            self.symbol(c)
        } else if is_letter_char(c) {
            (word_token(self.word(c)), self.after_word())
        } else if numeric(c) {
            (self.number(c), self.after_number())
        } else {
            (TokenView::Illegal, self)
        }
    }

    /// The next token and the scanner after it. White space before the
    /// token is passed over. At the end of the input the token is the end
    /// marker.
    pub open spec fn scan(self) -> (TokenView, ScannerView) {
        let s = self.skip_whitespace();
        match s.peek() {
            None => (TokenView::EOF, s),
            Some(c) => s.skip(1).token(c),
        }
    }

    /// The tokens from the scanner's place on, up to the end marker and
    /// with it; nothing if one of the tokens cannot be written down. The
    /// definition asks that a token other than the end marker has taken
    /// characters, which `next_token` shows to be so.
    pub open spec fn tokens(self) -> Option<Seq<TokenView>>
        decreases self.rest.len(),
    {
        if !self.scannable() {
            None
        } else {
            let (tok, next) = self.scan();
            if tok == TokenView::EOF {
                Some(seq![tok])
            } else if next.rest.len() < self.rest.len() {
                match next.tokens() {
                    Some(more) => Some(seq![tok] + more),
                    None => None,
                }
            } else {
                None
            }
        }
    }

    /// Whether the next token can be written down: if it is a number, the
    /// number is valid.
    pub open spec fn scannable(self) -> bool {
        let s = self.skip_whitespace();
        match s.peek() {
            None => true,
            Some(c) => Self::begins_number(c) ==> s.skip(1).number_valid(c),
        }
    }
}

/// A class of characters that a scanner reads in a run.
#[derive(Clone, Copy)]
enum Class {
    Blank,
    Word,
    Number,
    Line,
    Text,
}

impl Class {
    /// The characters of the class.
    spec fn holds(self) -> spec_fn(char) -> bool {
        match self {
            Class::Blank => blank(),
            Class::Word => in_word(),
            Class::Number => in_number(),
            Class::Line => in_line(),
            Class::Text => in_string(),
        }
    }

    fn has(self, c: char) -> (r: bool)
        ensures
            r == (self.holds())(c),
    {
        match self {
            Class::Blank => c.is_whitespace(),
            Class::Word => is_letter(c) || c.is_numeric(),
            Class::Number => c.is_numeric(),
            Class::Line => c != '\n',
            Class::Text => c != '"',
        }
    }
}

/// Whether `c` is a character that makes, or begins, a token by itself.
fn is_symbol_char(c: char) -> (r: bool)
    ensures
        r == is_symbol(c),
{
    c == '+' || c == '-' || c == '*' || c == '/' || c == ',' || c == '.' || c == '(' || c == ')'
        || c == '{' || c == '}' || c == ';' || c == ':' || c == '"' || c == '^' || c == '%' || c
        == '|' || c == '&' || c == '=' || c == '!' || c == '<' || c == '>'
}

/// A scanner over a source text.
pub struct Scanner {
    line: usize,
    source: Vec<char>,
    /// The place in `source` of the next character.
    pos: usize,
}

impl View for Scanner {
    type V = ScannerView;

    closed spec fn view(&self) -> ScannerView {
        ScannerView { line: self.line as nat, rest: self.source@.skip(self.pos as int) }
    }
}

impl Scanner {
    #[verifier::type_invariant]
    spec fn well_formed(self) -> bool {
        &&& self.pos <= self.source@.len()
        &&& self.line + (self.source@.len() - self.pos) <= usize::MAX
    }

    /// What is left of the source from the place `from` on.
    spec fn from(self, from: int) -> ScannerView {
        ScannerView { line: self.line as nat, rest: self.source@.skip(from) }
    }

    /// A scanner at the start of `input`, on line 0.
    pub fn new(input: &str) -> (scanner: Scanner)
        ensures
            scanner@ == (ScannerView { line: 0, rest: input@ }),
    {
        let source = chars_of(input);
        assert(source.len() <= usize::MAX);
        assert(source@.skip(0) =~= source@);
        Scanner { line: 0, source, pos: 0 }
    }

    /// The number of the current line, counted from 0.
    pub fn line(&self) -> (line: usize)
        ensures
            line == self@.line,
    {
        self.line
    }

    /// Reads the next character, if one is left.
    pub fn read_char(&mut self) -> (c: Option<char>)
        ensures
            c == old(self)@.peek(),
            final(self)@ == old(self)@.skip(1),
    {
        proof {
            use_type_invariant(&*self);
        }
        if self.pos < self.source.len() {
            let c = self.source[self.pos];
            self.pos += 1;
            assert(self@.rest =~= old(self)@.rest.skip(1));
            Some(c)
        } else {
            assert(self@.rest =~= Seq::empty());
            None
        }
    }

    /// The next character, if one is left, without reading it.
    pub fn peek_char(&self) -> (c: Option<&char>)
        ensures
            match c {
                Some(c) => self@.peek() == Some(*c),
                None => self@.peek() is None,
            },
    {
        proof {
            use_type_invariant(self);
        }
        if self.pos < self.source.len() {
            Some(&self.source[self.pos])
        } else {
            None
        }
    }

    /// Whether the next character is `ch`.
    pub fn peek_match(&self, ch: char) -> (r: bool)
        ensures
            r == self@.at(ch),
    {
        match self.peek_char() {
            Some(p_c) => *p_c == ch,
            None => false,
        }
    }

    /// Whether the next character can begin a word.
    pub fn peek_alpha(&self) -> (r: bool)
        ensures
            r == match self@.peek() {
                Some(c) => is_letter_char(c),
                None => false,
            },
    {
        match self.peek_char() {
            Some(c) => is_letter(*c),
            None => false,
        }
    }

    /// Whether the next character is numeric.
    pub fn peek_digit(&self) -> (r: bool)
        ensures
            r == match self@.peek() {
                Some(c) => numeric(c),
                None => false,
            },
    {
        match self.peek_char() {
            Some(c) => c.is_numeric(),
            None => false,
        }
    }

    /// The place behind the run of characters of `class` that begins at
    /// the place `from`.
    fn run_end(&self, from: usize, class: Class) -> (end: usize)
        requires
            from <= self.source@.len(),
        ensures
            from <= end <= self.source@.len(),
            end - from == leading(self.source@.skip(from as int), class.holds()),
    {
        let ghost run = self.source@.skip(from as int);
        let mut end = from;
        while end < self.source.len() && class.has(self.source[end])
            invariant
                from <= end <= self.source@.len(),
                run == self.source@.skip(from as int),
                leading(run, class.holds()) == (end - from) + leading(
                    self.source@.skip(end as int),
                    class.holds(),
                ),
            decreases self.source@.len() - end,
        {
            assert(self.source@.skip(end as int).drop_first() =~= self.source@.skip(end + 1));
            end += 1;
        }
        end
    }

    /// How many line feeds stand from the place `from` up to `to`.
    fn newlines_between(&self, from: usize, to: usize) -> (n: usize)
        requires
            from <= to <= self.source@.len(),
        ensures
            n == newlines(self.source@.subrange(from as int, to as int)),
            n <= to - from,
    {
        let mut n: usize = 0;
        let mut i = from;
        assert(self.source@.subrange(from as int, from as int) =~= Seq::empty());
        while i < to
            invariant
                from <= i <= to <= self.source@.len(),
                n == newlines(self.source@.subrange(from as int, i as int)),
                n <= i - from,
            decreases to - i,
        {
            assert(self.source@.subrange(from as int, i + 1).drop_last() =~= self.source@.subrange(
                from as int,
                i as int,
            ));
            if self.source[i] == '\n' {
                n += 1;
            }
            i += 1;
        }
        n
    }

    /// Appends the characters from the place `from` up to `to` to `text`.
    fn append_between(&self, text: &mut String, from: usize, to: usize)
        requires
            from <= to <= self.source@.len(),
        ensures
            final(text)@ == old(text)@ + self.source@.subrange(from as int, to as int),
    {
        let mut i = from;
        assert(self.source@.subrange(from as int, from as int) =~= Seq::empty());
        assert(text@ + Seq::<char>::empty() =~= text@);
        while i < to
            invariant
                from <= i <= to <= self.source@.len(),
                text@ == old(text)@ + self.source@.subrange(from as int, i as int),
            decreases to - i,
        {
            assert(self.source@.subrange(from as int, i + 1) =~= self.source@.subrange(
                from as int,
                i as int,
            ).push(self.source@[i as int]));
            text.push(self.source[i]);
            assert(text@ =~= old(text)@ + self.source@.subrange(from as int, i + 1));
            i += 1;
        }
    }

    /// Moves on to the place `to`, which is not before the current one.
    fn move_to(&mut self, to: usize)
        requires
            old(self).pos <= to <= old(self).source@.len(),
        ensures
            final(self)@ == old(self)@.skip(to - old(self).pos),
            final(self).pos == to,
            final(self).source == old(self).source,
            final(self).line == old(self).line,
    {
        proof {
            use_type_invariant(&*self);
        }
        self.pos = to;
        assert(self@.rest =~= old(self)@.rest.skip(to - old(self).pos));
    }

    /// Reads the rest of the line and the line feed that ends it.
    fn skip_comment(&mut self)
        requires
            old(self)@.line + old(self)@.rest.len() < usize::MAX,
        ensures
            final(self)@ == old(self)@.skip_comment(),
            final(self)@.rest.len() <= old(self)@.rest.len(),
    {
        proof {
            use_type_invariant(&*self);
        }
        let end = self.run_end(self.pos, Class::Line);
        self.move_to(end);
        self.read_char();
        proof {
            use_type_invariant(&*self);
            assert(self@.rest.len() == self.source@.len() - self.pos);
            assert(self@.rest.len() <= old(self)@.rest.len());
        }
        self.line += 1;
    }

    /// Reads the white space before the next token; each line feed in it
    /// begins a line.
    pub fn skip_whitespace(&mut self)
        ensures
            final(self)@ == old(self)@.skip_whitespace(),
            final(self)@.rest.len() <= old(self)@.rest.len(),
    {
        proof {
            use_type_invariant(&*self);
        }
        let from = self.pos;
        let end = self.run_end(from, Class::Blank);
        let lines = self.newlines_between(from, end);
        self.move_to(end);
        proof {
            use_type_invariant(&*self);
            assert(old(self)@.rest.take(end - from) =~= self.source@.subrange(
                from as int,
                end as int,
            ));
        }
        self.line += lines;
    }

    /// Reads the word that begins with `first`, which has been read.
    pub fn read_word(&mut self, first: char) -> (word: String)
        ensures
            word@ == old(self)@.word(first),
            final(self)@ == old(self)@.after_word(),
            final(self)@.rest.len() <= old(self)@.rest.len(),
    {
        proof {
            use_type_invariant(&*self);
        }
        let mut s = String::new();
        s.push(first);
        let from = self.pos;
        let end = self.run_end(from, Class::Word);
        self.append_between(&mut s, from, end);
        self.move_to(end);
        proof {
            assert(old(self)@.rest.take(end - from) =~= self.source@.subrange(
                from as int,
                end as int,
            ));
            assert(s@ =~= old(self)@.word(first));
        }
        s
    }

    /// Whether the characters from the place `from` up to `to` are digits.
    fn digits_between(&self, from: usize, to: usize) -> (r: bool)
        requires
            from <= to <= self.source@.len(),
        ensures
            r == all_digits(self.source@.subrange(from as int, to as int)),
    {
        let mut i = from;
        while i < to
            invariant
                from <= i <= to <= self.source@.len(),
                all_digits(self.source@.subrange(from as int, i as int)),
            decreases to - i,
        {
            let c = self.source[i];
            if !('0' <= c && c <= '9') {
                assert(self.source@.subrange(from as int, to as int)[i - from] == c);
                return false;
            }
            assert forall|j: int| 0 <= j < i + 1 - from implies is_digit(
                #[trigger] self.source@.subrange(from as int, i + 1)[j],
            ) by {
                if j < i - from {
                    assert(self.source@.subrange(from as int, i as int)[j] == self.source@.subrange(
                        from as int,
                        i + 1,
                    )[j]);
                }
            }
            i += 1;
        }
        true
    }

    /// The value of the digit `first` followed by the digits from the
    /// place `from` up to `to`, if it is at most `i32::MAX`.
    fn value_between(&self, first: char, from: usize, to: usize) -> (r: Option<i32>)
        requires
            from <= to <= self.source@.len(),
            is_digit(first),
            all_digits(self.source@.subrange(from as int, to as int)),
        ensures
            match r {
                Some(v) => v == decimal(seq![first] + self.source@.subrange(from as int, to as int)),
                None => decimal(seq![first] + self.source@.subrange(from as int, to as int))
                    > i32::MAX,
            },
    {
        let ghost digits = |i: int| seq![first] + self.source@.subrange(from as int, i);
        let mut value: u64 = (first as u32 - '0' as u32) as u64;
        let mut fits = true;
        let mut i = from;
        proof {
            assert(digits(from as int) =~= seq![first]);
            assert(seq![first].drop_last() =~= Seq::<char>::empty());
            reveal_with_fuel(decimal, 2);
        }
        while i < to
            invariant
                from <= i <= to <= self.source@.len(),
                all_digits(self.source@.subrange(from as int, to as int)),
                digits == |i: int| seq![first] + self.source@.subrange(from as int, i),
                fits ==> value == decimal(digits(i as int)) && value <= i32::MAX,
                !fits ==> decimal(digits(i as int)) > i32::MAX,
            decreases to - i,
        {
            let c = self.source[i];
            proof {
                assert(self.source@.subrange(from as int, to as int)[i - from] == c);
                assert(digits(i + 1).drop_last() =~= digits(i as int));
                assert(digits(i + 1).last() == c);
            }
            if fits {
                value = value * 10 + (c as u32 - '0' as u32) as u64;
                if value > i32::MAX as u64 {
                    fits = false;
                }
            }
            i += 1;
        }
        if fits {
            Some(value as i32)
        } else {
            None
        }
    }

    /// The token of the number that begins with `first` and goes on at the
    /// place `from`, if the number is valid, and the place behind it.
    fn number_at(&self, first: char, from: usize) -> (r: (Option<Token>, usize))
        requires
            from <= self.source@.len(),
        ensures
            from <= r.1 <= self.source@.len(),
            self.from(r.1 as int) == self.from(from as int).after_number(),
            match r.0 {
                Some(tok) => self.from(from as int).number_valid(first) && tok@ == self.from(
                    from as int,
                ).number(first),
                None => !self.from(from as int).number_valid(first),
            },
    {
        let ghost v = self.from(from as int);
        let end = self.run_end(from, Class::Number);
        proof {
            assert(v.rest.take(end - from) =~= self.source@.subrange(from as int, end as int));
            assert(v.rest.skip(end - from) =~= self.source@.skip(end as int));
        }
        let fraction = end < self.source.len() && self.source[end] == '.' && end + 1
            < self.source.len() && self.source[end + 1].is_numeric();
        let first_is_digit = '0' <= first && first <= '9';
        proof {
            assert(v.whole(first)[0] == first);
            assert(all_digits(v.whole(first)) <==> is_digit(first) && all_digits(
                self.source@.subrange(from as int, end as int),
            )) by {
                let rest = self.source@.subrange(from as int, end as int);
                if is_digit(first) && all_digits(rest) {
                    assert forall|j: int| 0 <= j < v.whole(first).len() implies is_digit(
                        #[trigger] v.whole(first)[j],
                    ) by {
                        if j > 0 {
                            assert(v.whole(first)[j] == rest[j - 1]);
                        }
                    }
                }
                if all_digits(v.whole(first)) {
                    assert forall|j: int| 0 <= j < rest.len() implies is_digit(
                        #[trigger] rest[j],
                    ) by {
                        assert(rest[j] == v.whole(first)[j + 1]);
                    }
                }
            }
        }
        if fraction {
            let behind = end + 1;
            let fend = self.run_end(behind, Class::Number);
            proof {
                assert(v.behind_point() =~= self.source@.skip(behind as int));
                assert(v.fraction() =~= self.source@.subrange(behind as int, fend as int));
                assert(v.rest.skip(fend - from) =~= self.source@.skip(fend as int));
            }
            if first_is_digit && self.digits_between(from, end) && self.digits_between(
                behind,
                fend,
            ) {
                let mut s = String::new();
                s.push(first);
                self.append_between(&mut s, from, end);
                s.push('.');
                self.append_between(&mut s, behind, fend);
                proof {
                    assert(s@ =~= v.whole(first) + seq!['.'] + v.fraction());
                }
                (Some(Token::FloatLiteral(s)), fend)
            } else {
                (None, fend)
            }
        } else {
            if first_is_digit && self.digits_between(from, end) {
                match self.value_between(first, from, end) {
                    Some(value) => (Some(Token::IntegerLiteral(value)), end),
                    None => (None, end),
                }
            } else {
                (None, end)
            }
        }
    }

    /// Reads the number that begins with `first`, which has been read.
    pub fn read_number(&mut self, first: char) -> (tok: Token)
        requires
            old(self)@.number_valid(first),
        ensures
            tok@ == old(self)@.number(first),
            final(self)@ == old(self)@.after_number(),
            final(self)@.rest.len() <= old(self)@.rest.len(),
    {
        proof {
            use_type_invariant(&*self);
        }
        let (tok, end) = self.number_at(first, self.pos);
        self.move_to(end);
        tok.unwrap()
    }

    /// Reads the string literal whose opening quote has been read: its
    /// text goes up to the next quote, or to the end of the input.
    pub fn read_string(&mut self) -> (tok: Token)
        ensures
            tok@ == TokenView::StringLiteral(old(self)@.string()),
            final(self)@ == old(self)@.after_string(),
            final(self)@.rest.len() <= old(self)@.rest.len(),
    {
        proof {
            use_type_invariant(&*self);
        }
        let mut s = String::new();
        let from = self.pos;
        let end = self.run_end(from, Class::Text);
        self.append_between(&mut s, from, end);
        proof {
            assert(old(self)@.rest.take(end - from) =~= self.source@.subrange(
                from as int,
                end as int,
            ));
            assert(s@ =~= old(self)@.string());
        }
        self.move_to(end);
        self.read_char();
        Token::StringLiteral(s)
    }

    /// Reads `num` characters, or as many as are left.
    pub fn skip(&mut self, num: usize)
        requires
            num > 0,
        ensures
            final(self)@ == old(self)@.skip(num as int),
    {
        proof {
            use_type_invariant(&*self);
        }
        let left = self.source.len() - self.pos;
        if num <= left {
            self.move_to(self.pos + num);
        } else {
            self.move_to(self.source.len());
            assert(self@.rest =~= Seq::empty());
        }
    }

    /// Whether the next token can be written down: if it is a number, the
    /// number is valid.
    pub fn can_scan(&self) -> (r: bool)
        ensures
            r == self@.scannable(),
    {
        proof {
            use_type_invariant(self);
        }
        let at = self.run_end(self.pos, Class::Blank);
        proof {
            assert(self@.skip_whitespace().rest =~= self.source@.skip(at as int));
        }
        if at >= self.source.len() {
            return true;
        }
        let c = self.source[at];
        if is_symbol_char(c) || is_letter(c) || !c.is_numeric() {
            return true;
        }
        proof {
            assert(self@.skip_whitespace().skip(1).rest =~= self.source@.skip(at + 1));
            assert(self.from(at + 1).number_valid(c) == self@.skip_whitespace().skip(
                1,
            ).number_valid(c));
        }
        self.number_at(c, at + 1).0.is_some()
    }

    /// Reads the next token. White space before it is passed over; at the
    /// end of the input the token is the end marker.
    pub fn next_token(&mut self) -> (tok: Token)
        requires
            old(self)@.scannable(),
        ensures
            (tok@, final(self)@) == old(self)@.scan(),
            tok@ == TokenView::EOF || final(self)@.rest.len() < old(self)@.rest.len(),
    {
        self.skip_whitespace();
        let ghost blank_read = self@;
        proof {
            use_type_invariant(&*self);
        }
        let tok = match self.read_char() {
            Some('+') => Token::Add,
            Some('-') => Token::Subtract,
            Some('*') => Token::Multiply,
            Some('/') => {
                if self.peek_match('/') {
                    self.skip_comment();
                    Token::Comment
                } else {
                    Token::Divide
                }
            },
            Some(',') => Token::Comma,
            Some('.') => {
                if self.peek_match('.') {
                    self.read_char();
                    Token::DotDot
                } else {
                    Token::Dot
                }
            },
            Some('(') => Token::LeftParenthesis,
            Some(')') => Token::RightParenthesis,
            Some('{') => Token::LeftBrace,
            Some('}') => Token::RightBrace,
            Some(';') => Token::Semicolon,
            Some(':') => Token::Colon,
            Some('"') => self.read_string(),
            Some('^') => Token::Xor,
            Some('%') => Token::Modulo,
            Some('|') => {
                if self.peek_match('|') {
                    self.read_char();
                    Token::LogicalOr
                } else {
                    Token::Or
                }
            },
            Some('&') => {
                if self.peek_match('&') {
                    self.read_char();
                    Token::LogicalAnd
                } else {
                    Token::And
                }
            },
            Some('=') => {
                if self.peek_match('=') {
                    self.read_char();
                    Token::Equality
                } else {
                    Token::Assign
                }
            },
            Some('!') => {
                if self.peek_match('=') {
                    self.read_char();
                    Token::NotEquality
                } else {
                    Token::Bang
                }
            },
            Some('<') => {
                if self.peek_match('=') {
                    self.read_char();
                    Token::LessThanEqual
                } else if self.peek_match('<') {
                    self.read_char();
                    Token::ShiftLeft
                } else {
                    Token::LessThan
                }
            },
            Some('>') => {
                if self.peek_match('=') {
                    self.read_char();
                    Token::GreaterThanEqual
                } else if self.peek_match('>') {
                    self.read_char();
                    Token::ShiftRight
                } else {
                    Token::GreaterThan
                }
            },
            Some(ch) => {
                if is_letter(ch) {
                    let ident = self.read_word(ch);
                    lookup(ident.as_str())
                } else if ch.is_numeric() {
                    self.read_number(ch)
                } else {
                    Token::Illegal
                }
            },
            None => Token::EOF,
        };
        proof {
            assert(self@.rest =~= old(self)@.scan().1.rest);
        }
        tok
    }

    /// Reads the next token if it can be written down, and nothing
    /// otherwise.
    pub fn checked_next_token(&mut self) -> (tok: Option<Token>)
        ensures
            match tok {
                Some(tok) => old(self)@.scannable() && (tok@, final(self)@) == old(self)@.scan()
                    && (tok@ == TokenView::EOF || final(self)@.rest.len() < old(self)@.rest.len()),
                None => !old(self)@.scannable() && final(self)@ == old(self)@,
            },
    {
        if self.can_scan() {
            Some(self.next_token())
        } else {
            None
        }
    }
}

/// The tokens of `source` in the order of the text, up to the end marker
/// and with it; nothing if a number in the text cannot be written down.
pub fn tokenize(source: &str) -> (tokens: Option<Vec<Token>>)
    ensures
        match tokens {
            Some(tokens) => (ScannerView { line: 0, rest: source@ }).tokens() == Some(
                token_views(tokens@),
            ),
            None => (ScannerView { line: 0, rest: source@ }).tokens() is None,
        },
{
    let mut scanner = Scanner::new(source);
    let ghost start = scanner@;
    let mut tokens: Vec<Token> = Vec::new();
    assert(token_views(tokens@) =~= Seq::empty());
    loop
        invariant
            start == (ScannerView { line: 0, rest: source@ }),
            start.tokens() == match scanner@.tokens() {
                Some(more) => Some(token_views(tokens@) + more),
                None => None,
            },
        decreases scanner@.rest.len(),
    {
        match scanner.checked_next_token() {
            None => {
                return None;
            },
            Some(tok) => {
                let done = matches!(tok, Token::EOF);
                proof {
                    assert(token_views(tokens@.push(tok)) =~= token_views(tokens@) + seq![tok@]);
                    assert forall|more: Seq<TokenView>|
                        token_views(tokens@) + (seq![tok@] + more) == #[trigger] (token_views(
                            tokens@.push(tok),
                        ) + more) by {
                        assert(token_views(tokens@) + (seq![tok@] + more) =~= token_views(
                            tokens@.push(tok),
                        ) + more);
                    }
                }
                tokens.push(tok);
                if done {
                    return Some(tokens);
                }
            },
        }
    }
}

} // verus!
