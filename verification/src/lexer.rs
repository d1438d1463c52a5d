//! Tokenization of raw input text.
//!
//! The lexer walks a borrowed source string by character index and classifies
//! maximal runs of characters into tokens: line endings, whitespace runs, and
//! text (either an unquoted word or the unescaped body of one double-quoted
//! segment). The specification-level functions below define exactly which
//! token starts at every position, and every exec method is proved against
//! them.

use vstd::prelude::*;
use vstd::string::StrSliceExecFns;

verus! {

/// One classified run of input characters.
#[derive(Clone, Debug, PartialEq, Eq)]
pub enum Token {
    Newline,
    Whitespace,
    Text(String),
}

/// What a token holds, at the specification level: text is a sequence of
/// characters rather than a `String`.
pub enum TokenModel {
    Newline,
    Whitespace,
    Text(Seq<char>),
}

impl View for Token {
    type V = TokenModel;

    open spec fn view(&self) -> TokenModel {
        match self {
            Token::Newline => TokenModel::Newline,
            Token::Whitespace => TokenModel::Whitespace,
            Token::Text(s) => TokenModel::Text(s@),
        }
    }
}

/// The ways a line of input can fail to lex.
#[derive(Clone, Copy, Debug, PartialEq, Eq, Structural)]
pub enum ParseError {
    /// A double quote was opened but never closed before the end of input.
    UnclosedDelimiter,
    /// A character outside every recognized class was met.
    UnexpectedChar,
    /// The input ended immediately after a backslash inside a quoted segment.
    UnexpectedEnd,
}

pub type ParseResult<T> = Result<T, ParseError>;

impl ParseError {
    /// A short human-readable description of the error.
    pub fn description(&self) -> (r: &'static str)
        ensures
            r@ == match self {
                ParseError::UnclosedDelimiter => "unclosed delimiter"@,
                ParseError::UnexpectedChar => "unexpected character"@,
                ParseError::UnexpectedEnd => "unexpected end of input"@,
            },
    {
        match self {
            ParseError::UnclosedDelimiter => "unclosed delimiter",
            ParseError::UnexpectedChar => "unexpected character",
            ParseError::UnexpectedEnd => "unexpected end of input",
        }
    }
}

/// Space and tab separate arguments.
pub open spec fn is_space_char(c: char) -> bool {
    c == ' ' || c == '\t'
}

/// The characters allowed in an unquoted word.
pub open spec fn is_word_char(c: char) -> bool {
    ('a' <= c && c <= 'z') || ('A' <= c && c <= 'Z') || ('0' <= c && c <= '9') || c == '-'
        || c == '+' || c == '/' || c == '_' || c == '.'
}

/// Carriage return or line feed ends a logical command line.
pub open spec fn is_line_end(c: char) -> bool {
    c == '\r' || c == '\n'
}

/// The two character classes whose maximal runs the lexer consumes.
#[derive(Clone, Copy, Debug, PartialEq, Eq, Structural)]
pub enum CharClass {
    Space,
    Word,
}

/// Membership of a character in a class.
pub open spec fn in_class(class: CharClass, c: char) -> bool {
    match class {
        CharClass::Space => is_space_char(c),
        CharClass::Word => is_word_char(c),
    }
}

/// The position just after the maximal run of `class` characters starting at
/// `pos`.
pub open spec fn run_end(s: Seq<char>, pos: int, class: CharClass) -> int
    recommends
        0 <= pos <= s.len(),
    decreases s.len() - pos when pos <= s.len()
{
    if pos >= s.len() {
        pos
    } else if in_class(class, s[pos]) {
        run_end(s, pos + 1, class)
    } else {
        pos
    }
}

pub proof fn lemma_run_end_bounds(s: Seq<char>, pos: int, class: CharClass)
    requires
        0 <= pos <= s.len(),
    ensures
        pos <= run_end(s, pos, class) <= s.len(),
    decreases s.len() - pos,
{
    if pos < s.len() && in_class(class, s[pos]) {
        lemma_run_end_bounds(s, pos + 1, class);
    }
}

/// The remainder of a double-quoted segment, starting just after the opening
/// quote or in its middle: `acc` is the unescaped text gathered so far. On
/// success the result is the full unescaped body and the position just after
/// the closing quote. A backslash escapes only `"` and `\`; before any other
/// character both the backslash and that character are kept literally.
pub open spec fn quoted_rest(s: Seq<char>, pos: int, acc: Seq<char>) -> Result<
    (Seq<char>, int),
    ParseError,
>
    recommends
        0 <= pos <= s.len(),
    decreases s.len() - pos when pos <= s.len()
{
    if pos >= s.len() {
        Err(ParseError::UnclosedDelimiter)
    } else if s[pos] == '"' {
        Ok((acc, pos + 1))
    } else if s[pos] == '\\' {
        if pos + 1 >= s.len() {
            Err(ParseError::UnexpectedEnd)
        } else if s[pos + 1] == '"' || s[pos + 1] == '\\' {
            quoted_rest(s, pos + 2, acc.push(s[pos + 1]))
        } else {
            quoted_rest(s, pos + 2, acc.push('\\').push(s[pos + 1]))
        }
    } else {
        quoted_rest(s, pos + 1, acc.push(s[pos]))
    }
}

pub proof fn lemma_quoted_rest_bounds(s: Seq<char>, pos: int, acc: Seq<char>)
    requires
        0 <= pos <= s.len(),
    ensures
        quoted_rest(s, pos, acc) matches Ok((t, p2)) ==> pos < p2 <= s.len(),
    decreases s.len() - pos,
{
    if pos >= s.len() {
    } else if s[pos] == '"' {
    } else if s[pos] == '\\' {
        if pos + 1 < s.len() {
            if s[pos + 1] == '"' || s[pos + 1] == '\\' {
                lemma_quoted_rest_bounds(s, pos + 2, acc.push(s[pos + 1]));
            } else {
                lemma_quoted_rest_bounds(s, pos + 2, acc.push('\\').push(s[pos + 1]));
            }
        }
    } else {
        lemma_quoted_rest_bounds(s, pos + 1, acc.push(s[pos]));
    }
}

/// Escape fidelity inside a double-quoted segment: a backslash before `"` or
/// `\` contributes that character alone to the unescaped body, while a
/// backslash before any other character contributes both characters
/// literally, wherever in the segment the escape stands and whatever was
/// gathered before it.
pub proof fn lemma_escape_fidelity(s: Seq<char>, pos: int, acc: Seq<char>)
    requires
        0 <= pos,
        pos + 1 < s.len(),
        s[pos] == '\\',
    ensures
        s[pos + 1] == '"' || s[pos + 1] == '\\' ==> quoted_rest(s, pos, acc) == quoted_rest(
            s,
            pos + 2,
            acc.push(s[pos + 1]),
        ),
        s[pos + 1] != '"' && s[pos + 1] != '\\' ==> quoted_rest(s, pos, acc) == quoted_rest(
            s,
            pos + 2,
            acc.push('\\').push(s[pos + 1]),
        ),
{
}

/// A quoted segment that never closes fails: where no double quote and no
/// backslash follows, the segment cannot end before the input does, whatever
/// was gathered so far.
pub proof fn lemma_unclosed_quote_fails(s: Seq<char>, pos: int, acc: Seq<char>)
    requires
        0 <= pos <= s.len(),
        forall|i: int| pos <= i < s.len() ==> s[i] != '"' && s[i] != '\\',
    ensures
        quoted_rest(s, pos, acc) == Err::<(Seq<char>, int), ParseError>(
            ParseError::UnclosedDelimiter,
        ),
    decreases s.len() - pos,
{
    if pos < s.len() {
        lemma_unclosed_quote_fails(s, pos + 1, acc.push(s[pos]));
    }
}

/// A quoted segment can only fail by running out of input: never closed, or
/// cut short in the middle of an escape.
pub proof fn lemma_quoted_rest_errors(s: Seq<char>, pos: int, acc: Seq<char>)
    requires
        0 <= pos <= s.len(),
    ensures
        quoted_rest(s, pos, acc) matches Err(e) ==> (e is UnclosedDelimiter
            || e is UnexpectedEnd),
    decreases s.len() - pos,
{
    if pos < s.len() {
        if s[pos] == '"' {
        } else if s[pos] == '\\' {
            if pos + 1 < s.len() {
                if s[pos + 1] == '"' || s[pos + 1] == '\\' {
                    lemma_quoted_rest_errors(s, pos + 2, acc.push(s[pos + 1]));
                } else {
                    lemma_quoted_rest_errors(s, pos + 2, acc.push('\\').push(s[pos + 1]));
                }
            }
        } else {
            lemma_quoted_rest_errors(s, pos + 1, acc.push(s[pos]));
        }
    }
}

/// The token starting at `pos`, together with the position just after it:
/// `None` at the end of input, an error where no token starts there.
pub open spec fn next_token(s: Seq<char>, pos: int) -> Option<
    Result<(TokenModel, int), ParseError>,
>
    recommends
        0 <= pos <= s.len(),
{
    if pos >= s.len() {
        None
    } else if is_space_char(s[pos]) {
        Some(Ok((TokenModel::Whitespace, run_end(s, pos, CharClass::Space))))
    } else if is_word_char(s[pos]) {
        Some(
            Ok(
                (
                    TokenModel::Text(s.subrange(pos, run_end(s, pos, CharClass::Word))),
                    run_end(s, pos, CharClass::Word),
                ),
            ),
        )
    } else if is_line_end(s[pos]) {
        Some(Ok((TokenModel::Newline, pos + 1)))
    } else if s[pos] == '"' {
        match quoted_rest(s, pos + 1, Seq::empty()) {
            Ok((text, p2)) => Some(Ok((TokenModel::Text(text), p2))),
            Err(e) => Some(Err(e)),
        }
    } else {
        Some(Err(ParseError::UnexpectedChar))
    }
}

/// Every token covers at least one character and stays inside the input.
pub proof fn lemma_next_token_advances(s: Seq<char>, pos: int)
    requires
        0 <= pos <= s.len(),
    ensures
        next_token(s, pos) matches Some(Ok((t, p2))) ==> pos < p2 <= s.len(),
{
    if pos < s.len() {
        if is_space_char(s[pos]) {
            lemma_run_end_bounds(s, pos + 1, CharClass::Space);
            assert(run_end(s, pos, CharClass::Space) == run_end(s, pos + 1, CharClass::Space));
        } else if is_word_char(s[pos]) {
            lemma_run_end_bounds(s, pos + 1, CharClass::Word);
            assert(run_end(s, pos, CharClass::Word) == run_end(s, pos + 1, CharClass::Word));
        } else if is_line_end(s[pos]) {
        } else if s[pos] == '"' {
            lemma_quoted_rest_bounds(s, pos + 1, Seq::empty());
        }
    }
}

/// Relies on std's `FromIterator<char> for String`: collecting a vector of
/// characters yields the string of exactly those characters in order.
#[verifier::external_body]
fn chars_to_string(v: Vec<char>) -> (r: String)
    ensures
        r@ == v@,
{
    v.into_iter().collect()
}

/// A cursor over a borrowed source string, by character index.
#[derive(Clone, Debug, PartialEq, Eq)]
pub struct Lexer<'src> {
    source: &'src str,
    position: usize,
}

impl<'src> Lexer<'src> {
    /// The characters of the source text.
    pub closed spec fn src_view(self) -> Seq<char> {
        self.source@
    }

    /// The current cursor position, as a character index.
    pub closed spec fn pos_view(self) -> int {
        self.position as int
    }

    /// The cursor never passes the end of the source.
    pub open spec fn wf(self) -> bool {
        0 <= self.pos_view() <= self.src_view().len()
    }

    pub fn new(source: &'src str) -> (l: Lexer<'src>)
        ensures
            l.wf(),
            l.src_view() == source@,
            l.pos_view() == 0,
    {
        Lexer { source, position: 0 }
    }

    fn read_char(&mut self) -> (r: Option<char>)
        requires
            old(self).wf(),
        ensures
            final(self).wf(),
            final(self).src_view() == old(self).src_view(),
            match r {
                Some(c) => old(self).pos_view() < old(self).src_view().len() && c == old(
                    self,
                ).src_view()[old(self).pos_view()] && final(self).pos_view() == old(self).pos_view()
                    + 1,
                None => old(self).pos_view() == old(self).src_view().len() && final(self).pos_view() == old(self).pos_view(),
            },
    {
        if self.position < self.source.unicode_len() {
            let c = self.source.get_char(self.position);
            self.position = self.position + 1;
            Some(c)
        } else {
            None
        }
    }

    /// Step backwards one character. Must not be called more times than
    /// `read_char` has advanced.
    fn unread_char(&mut self)
        requires
            old(self).wf(),
            old(self).pos_view() > 0,
        ensures
            final(self).wf(),
            final(self).src_view() == old(self).src_view(),
            final(self).pos_view() == old(self).pos_view() - 1,
    {
        self.position = self.position - 1;
    }

    fn is_whitespace(c: char) -> (r: bool)
        ensures
            r == is_space_char(c),
    {
        c == ' ' || c == '\t'
    }

    fn is_unquoted_text(c: char) -> (r: bool)
        ensures
            r == is_word_char(c),
    {
        ('a' <= c && c <= 'z') || ('A' <= c && c <= 'Z') || ('0' <= c && c <= '9') || c == '-'
            || c == '+' || c == '/' || c == '_' || c == '.'
    }

    fn matches_class(class: CharClass, c: char) -> (r: bool)
        ensures
            r == in_class(class, c),
    {
        match class {
            CharClass::Space => Lexer::is_whitespace(c),
            CharClass::Word => Lexer::is_unquoted_text(c),
        }
    }

    /// Advance past the maximal run of `class` characters.
    fn skip_while(&mut self, class: CharClass)
        requires
            old(self).wf(),
        ensures
            final(self).wf(),
            final(self).src_view() == old(self).src_view(),
            final(self).pos_view() == run_end(old(self).src_view(), old(self).pos_view(), class),
    {
        let ghost s = self.src_view();
        let ghost p0 = self.pos_view();
        proof {
            lemma_run_end_bounds(s, p0, class);
        }
        loop
            invariant
                self.wf(),
                self.src_view() == s,
                p0 <= self.pos_view() <= run_end(s, p0, class),
                run_end(s, self.pos_view(), class) == run_end(s, p0, class),
            ensures
                self.wf(),
                self.src_view() == s,
                self.pos_view() == run_end(s, p0, class),
            decreases s.len() - self.pos_view(),
        {
            match self.read_char() {
                Some(c) => {
                    if !Lexer::matches_class(class, c) {
                        self.unread_char();
                        break ;
                    }
                    proof {
                        lemma_run_end_bounds(s, self.pos_view(), class);
                    }
                },
                None => {
                    break ;
                },
            }
        }
    }

    fn lex_whitespace(&mut self) -> (r: ParseResult<Token>)
        requires
            old(self).wf(),
        ensures
            final(self).wf(),
            final(self).src_view() == old(self).src_view(),
            final(self).pos_view() == run_end(
                old(self).src_view(),
                old(self).pos_view(),
                CharClass::Space,
            ),
            r matches Ok(t) && t@ is Whitespace,
    {
        self.skip_while(CharClass::Space);
        Ok(Token::Whitespace)
    }

    fn lex_unquoted_text(&mut self) -> (r: ParseResult<Token>)
        requires
            old(self).wf(),
        ensures
            final(self).wf(),
            final(self).src_view() == old(self).src_view(),
            final(self).pos_view() == run_end(
                old(self).src_view(),
                old(self).pos_view(),
                CharClass::Word,
            ),
            r matches Ok(t) && t@ == TokenModel::Text(
                old(self).src_view().subrange(
                    old(self).pos_view(),
                    run_end(old(self).src_view(), old(self).pos_view(), CharClass::Word),
                ),
            ),
    {
        let start = self.position;
        self.skip_while(CharClass::Word);
        let end = self.position;
        proof {
            lemma_run_end_bounds(self.src_view(), start as int, CharClass::Word);
        }
        let text = self.source.substring_char(start, end).to_owned();
        Ok(Token::Text(text))
    }

    #[verifier::loop_isolation(false)]
    fn lex_double_quoted_text(&mut self) -> (r: ParseResult<Token>)
        requires
            old(self).wf(),
        ensures
            final(self).wf(),
            final(self).src_view() == old(self).src_view(),
            match r {
                Ok(t) => quoted_rest(old(self).src_view(), old(self).pos_view(), Seq::empty())
                    matches Ok((txt, p2)) && t@ == TokenModel::Text(txt) && final(self).pos_view()
                    == p2,
                Err(e) => quoted_rest(old(self).src_view(), old(self).pos_view(), Seq::empty())
                    matches Err(e2) && e == e2 && final(self).pos_view() == old(
                    self,
                ).src_view().len(),
            },
    {
        let mut buf: Vec<char> = Vec::new();
        let ghost s = self.src_view();
        let ghost p0 = self.pos_view();
        loop
            invariant
                self.wf(),
                self.src_view() == s,
                quoted_rest(s, self.pos_view(), buf@) == quoted_rest(s, p0, Seq::<char>::empty()),
            decreases s.len() - self.pos_view(),
        {
            match self.read_char() {
                None => {
                    return Err(ParseError::UnclosedDelimiter);
                },
                Some(c) => {
                    if c == '"' {
                        return Ok(Token::Text(chars_to_string(buf)));
                    } else if c == '\\' {
                        match self.lex_double_quote_escape(&mut buf) {
                            Ok(()) => {},
                            Err(e) => {
                                return Err(e);
                            },
                        }
                    } else {
                        buf.push(c);
                    }
                },
            }
        }
    }

    fn lex_double_quote_escape(&mut self, text: &mut Vec<char>) -> (r: ParseResult<()>)
        requires
            old(self).wf(),
        ensures
            final(self).wf(),
            final(self).src_view() == old(self).src_view(),
            match r {
                Ok(()) => old(self).pos_view() < old(self).src_view().len() && final(self).pos_view() == old(self).pos_view() + 1 && final(text)@ == (
                    {
                        let c = old(self).src_view()[old(self).pos_view()];
                        if c == '"' || c == '\\' {
                            old(text)@.push(c)
                        } else {
                            old(text)@.push('\\').push(c)
                        }
                    }
                ),
                Err(e) => e == ParseError::UnexpectedEnd && old(self).pos_view() == old(
                    self,
                ).src_view().len() && final(self).pos_view() == old(self).pos_view() && final(text)@ == old(text)@,
            },
    {
        match self.read_char() {
            None => Err(ParseError::UnexpectedEnd),
            Some(escaped) => {
                if escaped == '\\' || escaped == '"' {
                    text.push(escaped);
                } else {
                    text.push('\\');
                    text.push(escaped);
                }
                Ok(())
            },
        }
    }

    /// The next token of the source, or `None` at the end of input. The
    /// result and the new cursor position are exactly what `next_token` says
    /// of the old position.
    pub fn next(&mut self) -> (r: Option<ParseResult<Token>>)
        requires
            old(self).wf(),
        ensures
            final(self).wf(),
            final(self).src_view() == old(self).src_view(),
            match r {
                None => next_token(old(self).src_view(), old(self).pos_view()) is None && final(self).pos_view() == old(self).pos_view(),
                Some(Ok(t)) => next_token(old(self).src_view(), old(self).pos_view()) matches Some(
                    Ok((tm, p2)),
                ) && t@ == tm && final(self).pos_view() == p2,
                Some(Err(e)) => next_token(old(self).src_view(), old(self).pos_view()) matches Some(
                    Err(e2),
                ) && e == e2 && final(self).pos_view() == (if e is UnexpectedChar {
                    old(self).pos_view() + 1
                } else {
                    old(self).src_view().len() as int
                }),
            },
    {
        let ghost s = self.src_view();
        let ghost p0 = self.pos_view();
        match self.read_char() {
            None => None,
            Some(c) => Some(
                if Lexer::is_whitespace(c) {
                    proof {
                        assert(run_end(s, p0, CharClass::Space) == run_end(
                            s,
                            p0 + 1,
                            CharClass::Space,
                        ));
                    }
                    self.lex_whitespace()
                } else if Lexer::is_unquoted_text(c) {
                    self.unread_char();
                    self.lex_unquoted_text()
                } else if c == '\r' || c == '\n' {
                    Ok(Token::Newline)
                } else if c == '"' {
                    proof {
                        lemma_quoted_rest_errors(s, p0 + 1, Seq::empty());
                    }
                    self.lex_double_quoted_text()
                } else {
                    Err(ParseError::UnexpectedChar)
                },
            ),
        }
    }
}

} // verus!
