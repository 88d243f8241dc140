use vstd::prelude::*;

verus! {

/// A token of a command comment.
#[derive(Debug, Clone, PartialEq, Eq)]
pub enum Token {
    Dot,
    EndOfLine,
    Word(String),
}

/// The mathematical value of a token.
pub enum TokenView {
    Dot,
    EndOfLine,
    Word(Seq<char>),
}

impl View for Token {
    type V = TokenView;

    open spec fn view(&self) -> TokenView {
        match self {
            Token::Dot => TokenView::Dot,
            Token::EndOfLine => TokenView::EndOfLine,
            Token::Word(w) => TokenView::Word(w@),
        }
    }
}

pub open spec fn is_space(c: char) -> bool {
    c == ' ' || c == '\t' || c == '\n' || c == '\r'
}

/// The tokens so far, with the pending word appended when it is not empty.
pub open spec fn flush(toks: Seq<TokenView>, word: Seq<char>) -> Seq<TokenView> {
    if word.len() == 0 {
        toks
    } else {
        toks.push(TokenView::Word(word))
    }
}

/// The lexer state after the characters of `s`: completed tokens and the pending word.
pub open spec fn lex_prefix(s: Seq<char>) -> (Seq<TokenView>, Seq<char>)
    decreases s.len(),
{
    if s.len() == 0 {
        (Seq::empty(), Seq::empty())
    } else {
        let (toks, word) = lex_prefix(s.drop_last());
        let c = s.last();
        if is_space(c) {
            (flush(toks, word), Seq::empty())
        } else if c == '.' {
            (flush(toks, word).push(TokenView::Dot), Seq::empty())
        } else {
            (toks, word.push(c))
        }
    }
}

/// The tokens of `s`: words separated by whitespace, and a dot as a token of its own.
pub open spec fn lex(s: Seq<char>) -> Seq<TokenView> {
    flush(lex_prefix(s).0, lex_prefix(s).1)
}

pub open spec fn views(v: Seq<Token>) -> Seq<TokenView> {
    v.map_values(|t: Token| t@)
}

/// The token at position `i` of a stream, past whose end every token is an end of line.
pub open spec fn token_at(ts: Seq<TokenView>, i: int) -> TokenView {
    if 0 <= i < ts.len() {
        ts[i]
    } else {
        TokenView::EndOfLine
    }
}

/// A cursor over the tokens of a comment.
#[derive(Debug, Clone)]
pub struct Tokenizer {
    tokens: Vec<Token>,
    pos: usize,
}

impl View for Tokenizer {
    type V = Seq<TokenView>;

    /// The tokens that remain.
    closed spec fn view(&self) -> Seq<TokenView> {
        views(self.tokens@).skip(self.pos as int)
    }
}

impl Tokenizer {
    pub closed spec fn wf(&self) -> bool {
        self.pos <= self.tokens.len()
    }

    fn push_word(toks: &mut Vec<Token>, input: &str, start: usize, end: usize)
        requires
            start <= end <= input@.len(),
        ensures
            views(final(toks)@) == flush(views(old(toks)@), input@.subrange(start as int, end as int)),
    {
        if start < end {
            let w = input.substring_char(start, end).to_owned();
            toks.push(Token::Word(w));
            assert(views(final(toks)@) =~= views(old(toks)@).push(TokenView::Word(input@.subrange(start as int, end as int))));
        } else {
            assert(input@.subrange(start as int, end as int).len() == 0);
        }
    }

    /// Splits `input` into tokens.
    pub fn new(input: &str) -> (r: Tokenizer)
        ensures
            r.wf(),
            r@ == lex(input@),
    {
        let n = input.unicode_len();
        let mut toks: Vec<Token> = Vec::new();
        let mut start: usize = 0;
        let mut i: usize = 0;
        while i < n
            invariant
                n == input@.len(),
                start <= i <= n,
                views(toks@) == lex_prefix(input@.take(i as int)).0,
                input@.subrange(start as int, i as int) == lex_prefix(input@.take(i as int)).1,
            decreases n - i,
        {
            let c = input.get_char(i);
            proof {
                assert(input@.take(i + 1).drop_last() =~= input@.take(i as int));
                assert(input@.take(i + 1).last() == c);
            }
            if c == ' ' || c == '\t' || c == '\n' || c == '\r' {
                Self::push_word(&mut toks, input, start, i);
                start = i + 1;
            } else if c == '.' {
                Self::push_word(&mut toks, input, start, i);
                toks.push(Token::Dot);
                start = i + 1;
            } else {
                assert(input@.subrange(start as int, i + 1) =~= input@.subrange(
                    start as int,
                    i as int,
                ).push(c));
            }
            i = i + 1;
            assert(input@.subrange(start as int, i as int) == lex_prefix(input@.take(i as int)).1)
                by {
                if start == i {
                    assert(input@.subrange(start as int, i as int) =~= Seq::<char>::empty());
                }
            };
            assert(views(toks@) =~= lex_prefix(input@.take(i as int)).0);
        }
        Self::push_word(&mut toks, input, start, n);
        assert(input@.take(n as int) =~= input@);
        let r = Tokenizer { tokens: toks, pos: 0 };
        assert(r@ =~= lex(input@));
        r
    }

    /// The next token, without consuming it; past the end, an end of line.
    pub fn peek_token(&self) -> (r: Token)
        requires
            self.wf(),
        ensures
            r@ == token_at(self@, 0),
    {
        self.peek_token_at(0)
    }

    /// The token `i` places ahead of the cursor, without consuming anything.
    pub fn peek_token_at(&self, i: usize) -> (r: Token)
        requires
            self.wf(),
        ensures
            r@ == token_at(self@, i as int),
    {
        if i < self.tokens.len() - self.pos {
            match &self.tokens[self.pos + i] {
                Token::Dot => Token::Dot,
                Token::EndOfLine => Token::EndOfLine,
                Token::Word(w) => Token::Word(w.clone()),
            }
        } else {
            Token::EndOfLine
        }
    }

    /// Consumes and returns the next token; past the end, an end of line.
    pub fn next_token(&mut self) -> (r: Token)
        requires
            old(self).wf(),
        ensures
            final(self).wf(),
            r@ == token_at(old(self)@, 0),
            final(self)@ == if old(self)@.len() == 0 {
                old(self)@
            } else {
                old(self)@.skip(1)
            },
    {
        let r = self.peek_token();
        if self.pos < self.tokens.len() {
            self.pos = self.pos + 1;
            assert(self@ =~= old(self)@.skip(1));
        }
        r
    }
}

} // verus!
