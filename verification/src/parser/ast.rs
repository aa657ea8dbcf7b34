//! The token tree of a circuit source file, as the file grammar yields it.

use vstd::prelude::*;

verus! {

/// The rules of the file grammar that the template reader looks at.
#[derive(PartialEq, Eq, Structural, Debug, Clone, Copy, Hash)]
pub enum Rule {
    TemplateBlock,
    TemplateName,
    Parameters,
    Body,
    DeclarationStatement,
    SignalDeclarationWithConstraint,
    ComponentDeclaration,
    VariableDeclarationKW,
    ArrayDeclaration,
    PublicSignalBlock,
    ForStatement,
    Expression,
    Value,
    MemberAccessOperator,
    RelationalOrderingOperator,
    PostfixOperator,
    EndOfLine,
    Other,
}

/// A token with tokens inside: the rule that matched, what matched inside
/// it, and the byte range of the source that it covers.
#[derive(PartialEq, Eq, Debug)]
pub struct NonTerminalToken {
    pub rule: Rule,
    pub subrules: Vec<Token>,
    pub span: (usize, usize),
}

/// A token of source text.
#[derive(PartialEq, Eq, Debug)]
pub struct TerminalToken {
    pub rule: Rule,
    pub content: String,
}

/// A node of the token tree.
#[derive(PartialEq, Eq, Debug)]
pub enum Token {
    NonTerminal(NonTerminalToken),
    Terminal(TerminalToken),
}

/// The token inside `t` at place `i`, if `t` has tokens inside and that many.
pub open spec fn sub_token(t: Token, i: int) -> Option<Token> {
    match t {
        Token::NonTerminal(n) => if 0 <= i < n.subrules@.len() {
            Some(n.subrules@[i])
        } else {
            None
        },
        Token::Terminal(_) => None,
    }
}

/// The token at place `i` of a list, if the list is that long.
pub open spec fn token_at(tokens: Seq<Token>, i: int) -> Option<Token> {
    if 0 <= i < tokens.len() {
        Some(tokens[i])
    } else {
        None
    }
}

/// The text of `t`, if `t` is a token of source text.
pub open spec fn terminal_text(t: Option<Token>) -> Option<Seq<char>> {
    match t {
        Some(Token::Terminal(tt)) => Some(tt.content@),
        _ => None,
    }
}

/// The token at place `i` of a list, if the list is that long.
pub fn get_token(tokens: &Vec<Token>, i: usize) -> (res: Option<&Token>)
    ensures
        match res {
            Some(t) => token_at(tokens@, i as int) == Some(*t),
            None => token_at(tokens@, i as int) is None,
        },
{
    if i < tokens.len() {
        Some(&tokens[i])
    } else {
        None
    }
}

/// The token inside `t` at place `i`, if `t` has tokens inside and that many.
pub fn get_sub_token(t: &Token, i: usize) -> (res: Option<&Token>)
    ensures
        match res {
            Some(s) => sub_token(*t, i as int) == Some(*s),
            None => sub_token(*t, i as int) is None,
        },
{
    match t {
        Token::NonTerminal(n) => get_token(&n.subrules, i),
        Token::Terminal(_) => None,
    }
}

} // verus!
