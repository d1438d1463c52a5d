//! Construction of the command tree.
//!
//! The parser pulls tokens from the lexer one at a time. Leading whitespace
//! and newlines are skipped; the first text token becomes the command name,
//! and the following text tokens are gathered into arguments, where adjacent
//! text tokens concatenate into one argument and whitespace separates
//! arguments. A newline, or the end of the input, completes the call. The
//! specification functions `parse_from` and `parse_call_from` define the
//! result exactly, and `Parser::parse` is proved to return it.

use vstd::prelude::*;

use crate::lexer::CharClass;
use crate::lexer::Lexer;
use crate::lexer::ParseError;
use crate::lexer::ParseResult;
use crate::lexer::Token;
use crate::lexer::TokenModel;
use crate::lexer::is_line_end;
use crate::lexer::is_space_char;
use crate::lexer::is_word_char;
use crate::lexer::lemma_next_token_advances;
use crate::lexer::lemma_run_end_bounds;
use crate::lexer::next_token;
use crate::lexer::run_end;

verus! {

/// One fragment of an argument's value. Arguments are sequences of fragments
/// so that adjacent quoted and unquoted runs concatenate into one argument.
#[derive(Clone, Debug, PartialEq, Eq)]
pub enum Expr {
    Text(String),
}

impl View for Expr {
    type V = Seq<char>;

    open spec fn view(&self) -> Seq<char> {
        match self {
            Expr::Text(s) => s@,
        }
    }
}

/// A parsed command line: either nothing, or a command name with its
/// arguments, each argument a sequence of fragments.
#[derive(Clone, Debug, PartialEq, Eq)]
pub enum Ast {
    Empty,
    Call { command: String, args: Vec<Vec<Expr>> },
}

/// The command tree at the specification level: all text as character
/// sequences.
pub enum AstModel {
    Empty,
    Call { command: Seq<char>, args: Seq<Seq<Seq<char>>> },
}

/// The fragments of one argument, as character sequences.
pub open spec fn arg_view(arg: Seq<Expr>) -> Seq<Seq<char>> {
    arg.map_values(|e: Expr| e@)
}

/// All arguments, each as its sequence of fragments.
pub open spec fn args_view(args: Seq<Vec<Expr>>) -> Seq<Seq<Seq<char>>> {
    args.map_values(|a: Vec<Expr>| arg_view(a@))
}

impl View for Ast {
    type V = AstModel;

    open spec fn view(&self) -> AstModel {
        match self {
            Ast::Empty => AstModel::Empty,
            Ast::Call { command, args } => AstModel::Call {
                command: command@,
                args: args_view(args@),
            },
        }
    }
}

/// The completed call: a pending non-empty argument is appended to the
/// finished ones.
pub open spec fn finish_call(
    cmd: Seq<char>,
    args: Seq<Seq<Seq<char>>>,
    cur: Seq<Seq<char>>,
) -> AstModel {
    AstModel::Call { command: cmd, args: if cur.len() > 0 { args.push(cur) } else { args } }
}

/// Argument accumulation after the command name: `args` are the finished
/// arguments and `cur` the fragments of the argument being gathered. Text
/// extends the current argument, whitespace closes a non-empty one, and a
/// newline or the end of input completes the call. On success the result
/// carries the position just past the terminating newline (or the end of
/// input), where the next line begins.
pub open spec fn parse_call_from(
    s: Seq<char>,
    pos: int,
    cmd: Seq<char>,
    args: Seq<Seq<Seq<char>>>,
    cur: Seq<Seq<char>>,
) -> Result<(AstModel, int), ParseError>
    recommends
        0 <= pos <= s.len(),
    decreases s.len() - pos when 0 <= pos <= s.len()
{
    match next_token(s, pos) {
        None => Ok((finish_call(cmd, args, cur), pos)),
        Some(Err(e)) => Err(e),
        Some(Ok((t, p2))) => match t {
            TokenModel::Newline => Ok((finish_call(cmd, args, cur), p2)),
            TokenModel::Whitespace => {
                proof {
                    lemma_next_token_advances(s, pos);
                }
                parse_call_from(
                    s,
                    p2,
                    cmd,
                    if cur.len() > 0 {
                        args.push(cur)
                    } else {
                        args
                    },
                    Seq::empty(),
                )
            },
            TokenModel::Text(txt) => {
                proof {
                    lemma_next_token_advances(s, pos);
                }
                parse_call_from(s, p2, cmd, args, cur.push(txt))
            },
        },
    }
}

/// The command line starting at `pos`: leading whitespace and newlines are
/// skipped, the first non-empty text token names the command, and a lexical
/// error anywhere invalidates the whole line. An empty text token (an empty
/// quoted word) cannot name a command — a command name is never empty — so
/// it is skipped like a separator. On success the result carries the
/// position where the next line begins.
pub open spec fn parse_from(s: Seq<char>, pos: int) -> Result<(AstModel, int), ParseError>
    recommends
        0 <= pos <= s.len(),
    decreases s.len() - pos when 0 <= pos <= s.len()
{
    match next_token(s, pos) {
        None => Ok((AstModel::Empty, pos)),
        Some(Err(e)) => Err(e),
        Some(Ok((t, p2))) => match t {
            TokenModel::Whitespace | TokenModel::Newline => {
                proof {
                    lemma_next_token_advances(s, pos);
                }
                parse_from(s, p2)
            },
            TokenModel::Text(cmd) => {
                if cmd.len() == 0 {
                    proof {
                        lemma_next_token_advances(s, pos);
                    }
                    parse_from(s, p2)
                } else {
                    parse_call_from(s, p2, cmd, Seq::empty(), Seq::empty())
                }
            },
        },
    }
}

/// Builds the command tree for one line of input.
#[derive(Clone)]
pub struct Parser<'src> {
    lexer: Lexer<'src>,
}

impl<'src> Parser<'src> {
    /// The characters of the input text.
    pub closed spec fn src_view(self) -> Seq<char> {
        self.lexer.src_view()
    }

    /// The position of the next character to be consumed.
    pub closed spec fn pos_view(self) -> int {
        self.lexer.pos_view()
    }

    /// The parser never passes the end of its input.
    pub closed spec fn wf(self) -> bool {
        self.lexer.wf()
    }

    pub fn new(input: &'src str) -> (p: Parser<'src>)
        ensures
            p.wf(),
            p.src_view() == input@,
            p.pos_view() == 0,
    {
        Parser { lexer: Lexer::new(input) }
    }

    /// Parses one command line, returning exactly what `parse_from` says of
    /// the input from the current position. On success the cursor stops just
    /// past the line's terminating newline (or at the end of input), so a
    /// further call parses the following line.
    #[verifier::loop_isolation(false)]
    pub fn parse(&mut self) -> (r: ParseResult<Ast>)
        requires
            old(self).wf(),
        ensures
            final(self).wf(),
            match r {
                Ok(ast) => parse_from(old(self).src_view(), old(self).pos_view()) matches Ok(
                    (m, end),
                ) && ast@ == m && final(self).pos_view() == end,
                Err(e) => parse_from(old(self).src_view(), old(self).pos_view()) matches Err(e2)
                    && e == e2,
            },
    {
        let ghost s = self.lexer.src_view();
        let ghost p0 = self.lexer.pos_view();
        loop
            invariant
                self.lexer.wf(),
                self.lexer.src_view() == s,
                parse_from(s, self.lexer.pos_view()) == parse_from(s, p0),
            decreases s.len() - self.lexer.pos_view(),
        {
            let ghost p = self.lexer.pos_view();
            match self.lexer.next() {
                None => {
                    return Ok(Ast::Empty);
                },
                Some(Err(e)) => {
                    return Err(e);
                },
                Some(Ok(token)) => {
                    proof {
                        lemma_next_token_advances(s, p);
                    }
                    match token {
                        Token::Whitespace => {},
                        Token::Newline => {},
                        Token::Text(command) => {
                            if !command.as_str().is_empty() {
                                return self.parse_call(command);
                            }
                        },
                    }
                },
            }
        }
    }

    /// Gathers the arguments of a call whose command name has just been read.
    #[verifier::loop_isolation(false)]
    fn parse_call(&mut self, command: String) -> (r: ParseResult<Ast>)
        requires
            old(self).wf(),
        ensures
            final(self).wf(),
            match r {
                Ok(ast) => parse_call_from(
                    old(self).src_view(),
                    old(self).pos_view(),
                    command@,
                    Seq::empty(),
                    Seq::empty(),
                ) matches Ok((m, end)) && ast@ == m && final(self).pos_view() == end,
                Err(e) => parse_call_from(
                    old(self).src_view(),
                    old(self).pos_view(),
                    command@,
                    Seq::empty(),
                    Seq::empty(),
                ) matches Err(e2) && e == e2,
            },
    {
        let mut args: Vec<Vec<Expr>> = Vec::new();
        let mut current_arg: Vec<Expr> = Vec::new();
        let ghost s = self.lexer.src_view();
        let ghost p0 = self.lexer.pos_view();
        proof {
            assert(args_view(args@) =~= Seq::<Seq<Seq<char>>>::empty());
            assert(arg_view(current_arg@) =~= Seq::<Seq<char>>::empty());
        }
        loop
            invariant
                self.lexer.wf(),
                self.lexer.src_view() == s,
                parse_call_from(
                    s,
                    self.lexer.pos_view(),
                    command@,
                    args_view(args@),
                    arg_view(current_arg@),
                ) == parse_call_from(s, p0, command@, Seq::empty(), Seq::empty()),
            decreases s.len() - self.lexer.pos_view(),
        {
            let ghost p = self.lexer.pos_view();
            match self.lexer.next() {
                None => {
                    if current_arg.len() > 0 {
                        proof {
                            assert(args_view(args@.push(current_arg)) =~= args_view(args@).push(
                                arg_view(current_arg@),
                            ));
                        }
                        args.push(current_arg);
                    }
                    return Ok(Ast::Call { command, args });
                },
                Some(Err(e)) => {
                    return Err(e);
                },
                Some(Ok(token)) => {
                    proof {
                        lemma_next_token_advances(s, p);
                    }
                    match token {
                        Token::Newline => {
                            if current_arg.len() > 0 {
                                proof {
                                    assert(args_view(args@.push(current_arg)) =~= args_view(
                                        args@,
                                    ).push(arg_view(current_arg@)));
                                }
                                args.push(current_arg);
                            }
                            return Ok(Ast::Call { command, args });
                        },
                        Token::Whitespace => {
                            if current_arg.len() > 0 {
                                proof {
                                    assert(args_view(args@.push(current_arg)) =~= args_view(
                                        args@,
                                    ).push(arg_view(current_arg@)));
                                }
                                args.push(current_arg);
                                current_arg = Vec::new();
                            }
                            proof {
                                assert(arg_view(current_arg@) =~= Seq::<Seq<char>>::empty());
                            }
                        },
                        Token::Text(text) => {
                            let e = Expr::Text(text);
                            proof {
                                assert(arg_view(current_arg@.push(e)) =~= arg_view(
                                    current_arg@,
                                ).push(e@));
                            }
                            current_arg.push(e);
                        },
                    }
                },
            }
        }
    }
}

/// A line consisting solely of whitespace and line endings parses to the
/// empty command, from any starting position.
proof fn lemma_blank_input_parses_empty_from(s: Seq<char>, pos: int)
    requires
        0 <= pos <= s.len(),
        forall|i: int| 0 <= i < s.len() ==> is_space_char(s[i]) || is_line_end(s[i]),
    ensures
        parse_from(s, pos) == Ok::<(AstModel, int), ParseError>(
            (AstModel::Empty, s.len() as int),
        ),
    decreases s.len() - pos,
{
    if pos < s.len() {
        lemma_next_token_advances(s, pos);
        if is_space_char(s[pos]) {
            lemma_run_end_bounds(s, pos, CharClass::Space);
            lemma_blank_input_parses_empty_from(s, run_end(s, pos, CharClass::Space));
        } else {
            lemma_blank_input_parses_empty_from(s, pos + 1);
        }
    }
}

/// A line consisting solely of whitespace and line endings parses to the
/// empty command, consuming all of it.
pub proof fn lemma_blank_input_parses_empty(s: Seq<char>)
    requires
        forall|i: int| 0 <= i < s.len() ==> is_space_char(s[i]) || is_line_end(s[i]),
    ensures
        parse_from(s, 0) == Ok::<(AstModel, int), ParseError>((AstModel::Empty, s.len() as int)),
{
    lemma_blank_input_parses_empty_from(s, 0);
}

/// A maximal run that covers the whole rest of the input.
proof fn lemma_run_end_full(s: Seq<char>, pos: int, class: CharClass)
    requires
        0 <= pos <= s.len(),
        forall|i: int| pos <= i < s.len() ==> crate::lexer::in_class(class, s[i]),
    ensures
        run_end(s, pos, class) == s.len(),
    decreases s.len() - pos,
{
    if pos < s.len() {
        lemma_run_end_full(s, pos + 1, class);
    }
}

/// A well-formed single unquoted word, with no whitespace and no quoting,
/// parses to a call of that word as the command with no arguments.
pub proof fn lemma_single_word_parses_to_command(s: Seq<char>)
    requires
        s.len() > 0,
        forall|i: int| 0 <= i < s.len() ==> is_word_char(s[i]),
    ensures
        parse_from(s, 0) == Ok::<(AstModel, int), ParseError>(
            (AstModel::Call { command: s, args: Seq::empty() }, s.len() as int),
        ),
{
    lemma_run_end_full(s, 0, CharClass::Word);
    assert(s.subrange(0, s.len() as int) =~= s);
    assert(next_token(s, s.len() as int) is None);
}

/// Gathering arguments never changes the command name it was started with.
proof fn lemma_parse_call_keeps_command(
    s: Seq<char>,
    pos: int,
    cmd: Seq<char>,
    args: Seq<Seq<Seq<char>>>,
    cur: Seq<Seq<char>>,
)
    requires
        0 <= pos <= s.len(),
    ensures
        parse_call_from(s, pos, cmd, args, cur) matches Ok((ast, end)) ==> (ast matches
            AstModel::Call { command, .. } && command == cmd),
    decreases s.len() - pos,
{
    lemma_next_token_advances(s, pos);
    match next_token(s, pos) {
        None => {},
        Some(Err(e)) => {},
        Some(Ok((t, p2))) => match t {
            TokenModel::Newline => {},
            TokenModel::Whitespace => {
                lemma_parse_call_keeps_command(
                    s,
                    p2,
                    cmd,
                    if cur.len() > 0 {
                        args.push(cur)
                    } else {
                        args
                    },
                    Seq::empty(),
                );
            },
            TokenModel::Text(txt) => {
                lemma_parse_call_keeps_command(s, p2, cmd, args, cur.push(txt));
            },
        },
    }
}

/// Parsing never yields a call with an empty command: a line is either the
/// empty command or a `Call` whose command name holds at least one
/// character.
pub proof fn lemma_command_nonempty(s: Seq<char>, pos: int)
    requires
        0 <= pos <= s.len(),
    ensures
        parse_from(s, pos) matches Ok((ast, end)) ==> (ast matches AstModel::Call {
            command,
            ..
        } ==> command.len() > 0),
    decreases s.len() - pos,
{
    lemma_next_token_advances(s, pos);
    match next_token(s, pos) {
        None => {},
        Some(Err(e)) => {},
        Some(Ok((t, p2))) => match t {
            TokenModel::Whitespace | TokenModel::Newline => {
                lemma_command_nonempty(s, p2);
            },
            TokenModel::Text(cmd) => {
                if cmd.len() == 0 {
                    lemma_command_nonempty(s, p2);
                } else {
                    lemma_parse_call_keeps_command(s, p2, cmd, Seq::empty(), Seq::empty());
                }
            },
        },
    }
}

} // verus!
