use vstd::prelude::*;

use crate::token::{token_at, Token, TokenView, Tokenizer};

verus! {

/// How a decision is to be settled once its window has elapsed.
#[derive(Debug, Clone, Copy, PartialEq, Eq, Structural)]
pub enum Resolution {
    Merge,
    Hold,
}

/// Whether the effect of a decision can be undone after it is final.
#[derive(Debug, Clone, Copy, PartialEq, Eq, Structural)]
pub enum Reversibility {
    Reversible,
    Irreversible,
}

/// A command as received from a comment that calls the bot, like `@bot merge`.
#[derive(Debug, Clone, Copy, PartialEq, Eq, Structural)]
pub struct DecisionCommand {
    pub resolution: Resolution,
    pub reversibility: Reversibility,
}

/// Why a comment that starts with a decision keyword is not a decision command.
#[derive(Debug, Clone, Copy, PartialEq, Eq, Structural)]
pub enum ParseError {
    ExpectedEnd,
}

impl ParseError {
    pub open spec fn message_spec(self) -> Seq<char> {
        "expected end of command"@
    }

    /// The text shown to the user for this error.
    pub fn message(&self) -> (r: String)
        ensures
            r@ == self.message_spec(),
    {
        String::from_str("expected end of command")
    }
}

/// The stable lowercase name of a resolution, as stored and as rendered.
pub open spec fn resolution_name(r: Resolution) -> Seq<char> {
    match r {
        Resolution::Merge => "merge"@,
        Resolution::Hold => "hold"@,
    }
}

/// The stable lowercase name of a reversibility, as stored.
pub open spec fn reversibility_name(r: Reversibility) -> Seq<char> {
    match r {
        Reversibility::Reversible => "reversible"@,
        Reversibility::Irreversible => "irreversible"@,
    }
}

/// The resolution that a keyword token names, if any.
pub open spec fn keyword(t: TokenView) -> Option<Resolution> {
    match t {
        TokenView::Word(w) => if w == "merge"@ {
            Some(Resolution::Merge)
        } else if w == "hold"@ {
            Some(Resolution::Hold)
        } else {
            None
        },
        _ => None,
    }
}

/// A token that may end a command.
pub open spec fn is_end(t: TokenView) -> bool {
    t is Dot || t is EndOfLine
}

/// What parsing the token stream `ts` yields.
pub open spec fn parse_spec(ts: Seq<TokenView>) -> Result<Option<DecisionCommand>, ParseError> {
    match keyword(token_at(ts, 0)) {
        Some(resolution) => if is_end(token_at(ts, 1)) {
            Ok(Some(DecisionCommand { resolution, reversibility: Reversibility::Reversible }))
        } else {
            Err(ParseError::ExpectedEnd)
        },
        None => Ok(None),
    }
}

/// The tokens that remain after a command has been read from `ts`.
pub open spec fn after_command(ts: Seq<TokenView>) -> Seq<TokenView> {
    if ts.len() >= 2 {
        ts.skip(2)
    } else {
        ts.skip(1)
    }
}

impl DecisionCommand {
    /// Reads a decision command at the cursor. On success the cursor moves past the
    /// command; when the input is not a decision command, or is a malformed one, it
    /// stays where it was.
    pub fn parse(input: &mut Tokenizer) -> (r: Result<Option<Self>, ParseError>)
        requires
            old(input).wf(),
        ensures
            final(input).wf(),
            r == parse_spec(old(input)@),
            final(input)@ == match r {
                Ok(Some(_)) => after_command(old(input)@),
                _ => old(input)@,
            },
    {
        let first = input.peek_token();
        let resolution = match keyword_of(&first) {
            Some(res) => res,
            None => {
                return Ok(None);
            },
        };
        if is_token_eol(Some(input.peek_token_at(1))) {
            let _ = input.next_token();
            let _ = input.next_token();
            proof {
                let ts = old(input)@;
                assert(ts.len() > 0);
                if ts.len() >= 2 {
                    assert(ts.skip(1).skip(1) =~= ts.skip(2));
                } else {
                    assert(ts.skip(1).len() == 0);
                }
            }
            Ok(Some(DecisionCommand { resolution, reversibility: Reversibility::Reversible }))
        } else {
            Err(ParseError::ExpectedEnd)
        }
    }
}

/// Which resolution a token names as a keyword.
fn keyword_of(t: &Token) -> (r: Option<Resolution>)
    ensures
        r == keyword(t@),
{
    match t {
        Token::Word(w) => {
            let merge = String::from_str("merge");
            let hold = String::from_str("hold");
            if *w == merge {
                Some(Resolution::Merge)
            } else if *w == hold {
                Some(Resolution::Hold)
            } else {
                None
            }
        },
        _ => None,
    }
}

/// Whether a token ends a command: a dot or the end of the line.
pub fn is_token_eol(token: Option<Token>) -> (r: bool)
    ensures
        r == match token {
            Some(t) => is_end(t@),
            None => false,
        },
{
    if let Some(Token::Dot) | Some(Token::EndOfLine) = token {
        true
    } else {
        false
    }
}

/// The lowercase name of a resolution.
pub fn resolution_to_str(resolution: &Resolution) -> (r: String)
    ensures
        r@ == resolution_name(*resolution),
{
    match resolution {
        Resolution::Merge => String::from_str("merge"),
        Resolution::Hold => String::from_str("hold"),
    }
}

/// The lowercase name of a reversibility.
pub fn reversibility_to_str(reversibility: &Reversibility) -> (r: String)
    ensures
        r@ == reversibility_name(*reversibility),
{
    match reversibility {
        Reversibility::Reversible => String::from_str("reversible"),
        Reversibility::Irreversible => String::from_str("irreversible"),
    }
}

/// Reads a resolution back from its stored name.
pub fn resolution_from_str(s: &str) -> (r: Option<Resolution>)
    ensures
        r matches Some(res) ==> resolution_name(res) == s@,
        r is None ==> (forall|res: Resolution| resolution_name(res) != s@),
{
    let st = s.to_owned();
    if st == String::from_str("merge") {
        Some(Resolution::Merge)
    } else if st == String::from_str("hold") {
        Some(Resolution::Hold)
    } else {
        proof {
            assert forall|res: Resolution| resolution_name(res) != s@ by {
                match res {
                    Resolution::Merge => {},
                    Resolution::Hold => {},
                }
            };
        }
        None
    }
}

/// Reads a reversibility back from its stored name.
pub fn reversibility_from_str(s: &str) -> (r: Option<Reversibility>)
    ensures
        r matches Some(rev) ==> reversibility_name(rev) == s@,
        r is None ==> (forall|rev: Reversibility| reversibility_name(rev) != s@),
{
    let st = s.to_owned();
    if st == String::from_str("reversible") {
        Some(Reversibility::Reversible)
    } else if st == String::from_str("irreversible") {
        Some(Reversibility::Irreversible)
    } else {
        proof {
            assert forall|rev: Reversibility| reversibility_name(rev) != s@ by {
                match rev {
                    Reversibility::Reversible => {},
                    Reversibility::Irreversible => {},
                }
            };
        }
        None
    }
}

} // verus!
