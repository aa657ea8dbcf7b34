//! Reads templates, declarations and loops out of the token tree of a
//! circuit source file.
//!
//! The tree is read by shape: a token that is missing, or of another kind
//! than the one looked for, leaves the value being read at its default.

use vstd::prelude::*;
use vstd::string::*;
use vstd::utf8::*;
use crate::circuit::{
    BoolExpression, BoolExpressionView, Component, ComponentView, DeclStatement,
    DeclStatementView, DeclType, Expression, ForLoop, ForLoopView, Instruction, Signal,
    SignalDirection, SignalView, SingleCommand, SingleCommandView, Template, TemplateView,
    clone_template, command_view, commands_view, components_view, push_command, push_signal,
    signals_view, templates_view,
};
use crate::collections::NameMap;
use crate::reach::{
    lemma_assoc_dom, lemma_used_templates_are_the_reachable, reachable, templates_used, used_from,
    used_templates,
};
use crate::execution_variable::{ExecutionVariable, ExecutionVariableView};
use crate::parser::text::{copy_numbers, copy_strings};
use crate::parser::ast::{
    NonTerminalToken, Rule, TerminalToken, Token, get_sub_token, get_token, sub_token,
    terminal_text, token_at,
};
use crate::parser::expression_parser::{
    Stmt, StmtView, clone_stmt, parse_statement, statement_of_text,
};
use crate::parser::grammar::has_token;
use crate::parser::text::{chars_of, decimal_value, parse_decimal, str_eq, strings_view};

verus! {

/// Whether `needle` occurs in `hay`.
pub open spec fn contains_text(hay: Seq<char>, needle: Seq<char>) -> bool {
    exists|i: int| has_token(hay, i, needle)
}

/// Whether `needle` occurs in `hay`.
pub fn contains_text_exec(hay: &str, needle: &str) -> (res: bool)
    ensures
        res == contains_text(hay@, needle@),
{
    let h = chars_of(hay);
    let n = chars_of(needle);
    if n.len() > h.len() {
        assert forall|i: int| !has_token(hay@, i, needle@) by {}
        return false;
    }
    let last = h.len() - n.len();
    let mut i: usize = 0;
    while i <= last
        invariant
            i <= last + 1,
            last == h.len() - n.len(),
            h@ == hay@,
            n@ == needle@,
            forall|j: int| 0 <= j < i ==> !has_token(hay@, j, needle@),
        decreases last + 1 - i,
    {
        let mut k: usize = 0;
        while k < n.len() && h[i + k] == n[k]
            invariant
                k <= n.len(),
                i <= last,
                last == h.len() - n.len(),
                h@.subrange(i as int, i + k) == n@.subrange(0, k as int),
            decreases n.len() - k,
        {
            k += 1;
            assert(h@.subrange(i as int, i + k) =~= n@.subrange(0, k as int));
        }
        if k == n.len() {
            assert(n@.subrange(0, k as int) =~= n@);
            assert(has_token(hay@, i as int, needle@));
            return true;
        }
        assert(!has_token(hay@, i as int, needle@)) by {
            if has_token(hay@, i as int, needle@) {
                assert(h@.subrange(i as int, i + n.len())[k as int] == n@[k as int]);
            }
        }
        i += 1;
    }
    assert forall|j: int| !has_token(hay@, j, needle@) by {}
    false
}

/// The text between two byte offsets of `content`, if the offsets are in
/// order, within the text and on character boundaries.
pub open spec fn byte_slice(content: Seq<char>, span: (usize, usize)) -> Option<Seq<char>> {
    let bytes = encode_utf8(content);
    if span.0 <= span.1 <= bytes.len() && is_char_boundary(bytes, span.1 as int)
        && is_char_boundary(bytes.subrange(0, span.1 as int), span.0 as int) {
        Some(decode_utf8(bytes.subrange(span.0 as int, span.1 as int)))
    } else {
        None
    }
}

/// The text between two byte offsets of `content`.
pub fn byte_slice_exec(content: &str, span: (usize, usize)) -> (res: Option<&str>)
    ensures
        match res {
            Some(text) => byte_slice(content@, span) == Some(text@),
            None => byte_slice(content@, span) is None,
        },
{
    broadcast use encode_utf8_decode_utf8;

    if span.0 > span.1 || span.1 > content.as_bytes().len() {
        return None;
    }
    if !content.is_char_boundary(span.1) {
        return None;
    }
    let (head, _rest) = content.split_at(span.1);
    if !head.is_char_boundary(span.0) {
        return None;
    }
    let (_skipped, text) = head.split_at(span.0);
    assert(text.spec_bytes() =~= encode_utf8(content@).subrange(span.0 as int, span.1 as int));
    assert(decode_utf8(encode_utf8(text@)) == text@);
    Some(text)
}

/// The statement written between two byte offsets of the file `path`. A
/// span that is no text of the file gives the empty statement; a file that
/// is not known counts as empty.
pub open spec fn statement_of_span(
    contents: Map<Seq<char>, String>,
    span: (usize, usize),
    path: Seq<char>,
) -> StmtView {
    if contents.contains_key(path) {
        match byte_slice(contents[path]@, span) {
            Some(text) => statement_of_text(text),
            None => StmtView::Empty,
        }
    } else {
        statement_of_text(Seq::empty())
    }
}

/// Parses the statement written between two byte offsets of a file.
pub fn extract_original_content_from_span(
    path_to_content_map: &NameMap<String>,
    span: (usize, usize),
    file_path: &String,
) -> (res: Stmt)
    ensures
        res@ == statement_of_span(path_to_content_map@, span, file_path@),
{
    match path_to_content_map.get(file_path.as_str()) {
        Some(content) => match byte_slice_exec(content.as_str(), span) {
            Some(text) => parse_statement(text),
            None => Stmt::Empty,
        },
        None => {
            proof {
                reveal_strlit("");
            }
            assert(""@ =~= Seq::<char>::empty());
            parse_statement("")
        },
    }
}

/// The text of the first `n` tokens of a list, one after the other.
pub open spec fn tokens_text(tokens: Seq<Token>, n: int) -> Seq<char>
    decreases tokens, n,
{
    if n <= 0 || n > tokens.len() {
        Seq::empty()
    } else {
        tokens_text(tokens, n - 1) + token_text(tokens[n - 1])
    }
}

/// The source text of a token: its own text, or that of the tokens inside
/// it, in order.
pub open spec fn token_text(t: Token) -> Seq<char>
    decreases t, 0int,
{
    match t {
        Token::NonTerminal(ntt) => tokens_text(ntt.subrules@, ntt.subrules@.len() as int),
        Token::Terminal(tt) => tt.content@,
    }
}

/// The text of a list of tokens, one after the other.
fn tokens_text_exec(tokens: &Vec<Token>) -> (res: String)
    ensures
        res@ == tokens_text(tokens@, tokens@.len() as int),
    decreases tokens, 0int,
{
    let mut result = String::new();
    let mut i: usize = 0;
    assert(result@ =~= tokens_text(tokens@, 0));
    while i < tokens.len()
        invariant
            i <= tokens.len(),
            result@ == tokens_text(tokens@, i as int),
        decreases tokens.len() - i,
    {
        let inner = parse_expression(&tokens[i]);
        result.append(inner.content.as_str());
        i += 1;
    }
    result
}

/// The source text of a token.
pub fn parse_expression(expression: &Token) -> (res: Expression)
    ensures
        res.content@ == token_text(*expression),
    decreases expression, 0int,
{
    match expression {
        Token::NonTerminal(ntt) => Expression { content: tokens_text_exec(&ntt.subrules) },
        Token::Terminal(tt) => Expression { content: tt.content.clone() },
    }
}

/// The text of the first token inside the first token inside `t`, through
/// one more level where that token has tokens inside.
pub open spec fn innermost_text(t: Token) -> Seq<char> {
    match sub_token(t, 0) {
        Some(inner) => match sub_token(inner, 0) {
            Some(Token::NonTerminal(deep)) => match token_at(deep.subrules@, 0) {
                Some(Token::Terminal(tt)) => tt.content@,
                _ => Seq::empty(),
            },
            Some(Token::Terminal(tt)) => tt.content@,
            None => Seq::empty(),
        },
        None => Seq::empty(),
    }
}

/// The size text of an array declaration: the innermost text of its second
/// token, empty where the tokens are not shaped so.
pub open spec fn array_size_text(root: Seq<Token>) -> Seq<char> {
    match token_at(root, 1) {
        Some(t) => innermost_text(t),
        None => Seq::empty(),
    }
}

/// The size text of an array declaration.
pub fn parse_array_declaration(array_decl_root: &Vec<Token>) -> (res: String)
    ensures
        res@ == array_size_text(array_decl_root@),
{
    match get_token(array_decl_root, 1) {
        Some(t) => match get_sub_token(t, 0) {
            Some(inner) => match get_sub_token(inner, 0) {
                Some(Token::NonTerminal(deep)) => match get_token(&deep.subrules, 0) {
                    Some(Token::Terminal(tt)) => {
                        return tt.content.clone();
                    },
                    _ => {},
                },
                Some(Token::Terminal(tt)) => {
                    return tt.content.clone();
                },
                None => {},
            },
            None => {},
        },
        None => {},
    }
    String::new()
}

/// The first texts of those among the first `n` tokens that have tokens inside.
pub open spec fn names_in(tokens: Seq<Token>, n: int) -> Seq<Seq<char>>
    decreases n,
{
    if n <= 0 || n > tokens.len() {
        Seq::empty()
    } else {
        match terminal_text(sub_token(tokens[n - 1], 0)) {
            Some(name) => names_in(tokens, n - 1).push(name),
            None => names_in(tokens, n - 1),
        }
    }
}

/// The names or values listed inside the token at place `index`.
pub open spec fn listed_names(root: Seq<Token>, index: int) -> Seq<Seq<char>> {
    match token_at(root, index) {
        Some(Token::NonTerminal(ntt)) => names_in(ntt.subrules@, ntt.subrules@.len() as int),
        _ => Seq::empty(),
    }
}

/// The names or values listed inside the token at place `index`.
pub fn parse_list_of_vars_or_values(argument_decl_root: &Vec<Token>, index: usize) -> (res: Vec<
    String,
>)
    ensures
        strings_view(res) == listed_names(argument_decl_root@, index as int),
{
    let mut temp: Vec<String> = Vec::new();
    assert(strings_view(temp) =~= Seq::empty());
    match get_token(argument_decl_root, index) {
        Some(Token::NonTerminal(ntt)) => {
            let mut i: usize = 0;
            while i < ntt.subrules.len()
                invariant
                    i <= ntt.subrules.len(),
                    strings_view(temp) == names_in(ntt.subrules@, i as int),
                decreases ntt.subrules.len() - i,
            {
                match get_sub_token(&ntt.subrules[i], 0) {
                    Some(Token::Terminal(tt)) => {
                        let ghost prev = strings_view(temp);
                        temp.push(tt.content.clone());
                        assert(strings_view(temp) =~= prev.push(tt.content@));
                    },
                    _ => {},
                }
                i += 1;
            }
        },
        _ => {},
    }
    temp
}

/// The direction that a signal keyword spells: output where it holds
/// `output`, else input where it holds `input`, else intermediate.
pub open spec fn direction_of(text: Seq<char>) -> SignalDirection {
    if contains_text(text, "output"@) {
        SignalDirection::Output
    } else if contains_text(text, "input"@) {
        SignalDirection::Input
    } else {
        SignalDirection::Intermediate
    }
}

/// Whether `t` ends the line of a declaration.
pub open spec fn is_end_of_line(t: Token) -> bool {
    match t {
        Token::Terminal(tt) => tt.rule == Rule::EndOfLine,
        Token::NonTerminal(_) => false,
    }
}

/// The token with tokens inside that `t` is, if it is one of rule `rule`.
pub open spec fn as_rule(t: Option<Token>, rule: Rule) -> Option<NonTerminalToken> {
    match t {
        Some(Token::NonTerminal(n)) => if n.rule == rule {
            Some(n)
        } else {
            None
        },
        _ => None,
    }
}

/// The size texts of the array declarations among `tokens[i..]`, up to the
/// end of the line.
pub open spec fn sizes_from(tokens: Seq<Token>, i: int) -> Seq<Seq<char>>
    decreases tokens.len() - i,
{
    if i < 0 || i >= tokens.len() || is_end_of_line(tokens[i]) {
        Seq::empty()
    } else {
        match as_rule(Some(tokens[i]), Rule::ArrayDeclaration) {
            Some(n) => seq![array_size_text(n.subrules@)] + sizes_from(tokens, i + 1),
            None => sizes_from(tokens, i + 1),
        }
    }
}

/// The template named by an instantiation expression: the innermost text
/// of the expression, if its tokens are shaped so.
pub open spec fn template_name_of(expr: NonTerminalToken) -> Option<Seq<char>> {
    match token_at(expr.subrules@, 0) {
        Some(a) => match sub_token(a, 0) {
            Some(b) => terminal_text(sub_token(b, 0)),
            None => None,
        },
        None => None,
    }
}

/// The numbers among the first `n` texts, in order; a text that spells no
/// number is passed over.
pub open spec fn numbers_in(texts: Seq<Seq<char>>, n: int) -> Seq<u32>
    decreases n,
{
    if n <= 0 || n > texts.len() {
        Seq::empty()
    } else {
        match decimal_value(texts[n - 1]) {
            Some(value) => numbers_in(texts, n - 1).push(value),
            None => numbers_in(texts, n - 1),
        }
    }
}

/// The arguments of an instantiation expression: the numbers listed in its
/// third token, where it has more than three tokens.
pub open spec fn arguments_of(expr: NonTerminalToken) -> Seq<u32> {
    if expr.subrules@.len() > 3 {
        match expr.subrules@[2] {
            Token::NonTerminal(list) => {
                let texts = listed_names(list.subrules@, 0);
                numbers_in(texts, texts.len() as int)
            },
            Token::Terminal(_) => Seq::empty(),
        }
    } else {
        Seq::empty()
    }
}

/// The template named by the last instantiation expression among
/// `tokens[i..]` that names one, up to the end of the line; `current`
/// where none does.
pub open spec fn template_from(tokens: Seq<Token>, i: int, current: Seq<char>) -> Seq<char>
    decreases tokens.len() - i,
{
    if i < 0 || i >= tokens.len() || is_end_of_line(tokens[i]) {
        current
    } else {
        match as_rule(Some(tokens[i]), Rule::Expression) {
            Some(n) => template_from(
                tokens,
                i + 1,
                match template_name_of(n) {
                    Some(name) => name,
                    None => current,
                },
            ),
            None => template_from(tokens, i + 1, current),
        }
    }
}

/// The arguments of the instantiation expressions among `tokens[i..]`, up
/// to the end of the line.
pub open spec fn arguments_from(tokens: Seq<Token>, i: int) -> Seq<u32>
    decreases tokens.len() - i,
{
    if i < 0 || i >= tokens.len() || is_end_of_line(tokens[i]) {
        Seq::empty()
    } else {
        match as_rule(Some(tokens[i]), Rule::Expression) {
            Some(n) => arguments_of(n) + arguments_from(tokens, i + 1),
            None => arguments_from(tokens, i + 1),
        }
    }
}

/// The declaration that declares nothing yet: an unnamed input variable.
pub open spec fn blank_declaration() -> DeclStatementView {
    DeclStatementView {
        decl_type: DeclType::Variable,
        name: Seq::empty(),
        direction: SignalDirection::Input,
        size_per_dimension: Seq::empty(),
        template_to_use: Seq::empty(),
        expression: StmtView::Empty,
        arguments: Seq::empty(),
    }
}

/// The text of the token at place `i`, or the empty text.
pub open spec fn text_at(tokens: Seq<Token>, i: int) -> Seq<char> {
    match terminal_text(token_at(tokens, i)) {
        Some(text) => text,
        None => Seq::empty(),
    }
}

/// The direction of a signal declaration: that spelled by the third token
/// inside its first token, input where there is none.
pub open spec fn signal_direction(tokens: Seq<Token>) -> SignalDirection {
    match token_at(tokens, 0) {
        Some(wrapper) => match terminal_text(sub_token(wrapper, 2)) {
            Some(keyword) => direction_of(keyword),
            None => SignalDirection::Input,
        },
        None => SignalDirection::Input,
    }
}

/// The name of a signal declaration: the text of its second token, read
/// only where its first token has tokens inside.
pub open spec fn signal_name(tokens: Seq<Token>) -> Seq<char> {
    match token_at(tokens, 0) {
        Some(Token::NonTerminal(_)) => text_at(tokens, 1),
        _ => Seq::empty(),
    }
}

/// The declaration of a signal. The array declarations up to the end of
/// the line give the sizes, and a last token that is an expression gives the
/// statement written there.
pub open spec fn signal_declaration(
    ntt: NonTerminalToken,
    path: Seq<char>,
    contents: Map<Seq<char>, String>,
) -> DeclStatementView {
    let tokens = ntt.subrules@;
    DeclStatementView {
        decl_type: DeclType::Signal,
        name: signal_name(tokens),
        direction: signal_direction(tokens),
        size_per_dimension: sizes_from(tokens, 2),
        template_to_use: Seq::empty(),
        expression: if tokens.len() > 2 {
            match as_rule(Some(tokens.last()), Rule::Expression) {
                Some(e) => statement_of_span(contents, e.span, path),
                None => StmtView::Empty,
            }
        } else {
            StmtView::Empty
        },
        arguments: Seq::empty(),
    }
}

/// The declaration of a component. The second token is the name; up to
/// the end of the line the array declarations give the sizes and the
/// instantiation expressions the template and its arguments.
pub open spec fn component_declaration(ntt: NonTerminalToken) -> DeclStatementView {
    let tokens = ntt.subrules@;
    DeclStatementView {
        decl_type: DeclType::Component,
        name: text_at(tokens, 1),
        direction: SignalDirection::Input,
        size_per_dimension: sizes_from(tokens, 2),
        template_to_use: template_from(tokens, 2, Seq::empty()),
        expression: StmtView::Empty,
        arguments: arguments_from(tokens, 2),
    }
}

/// The declaration that the tokens of a declaration statement make, by the
/// first of them: a signal declaration, a component declaration, or the
/// keyword of a variable declaration, which the name follows. Any other
/// first token declares nothing.
pub open spec fn declaration_of(
    root: Seq<Token>,
    path: Seq<char>,
    contents: Map<Seq<char>, String>,
) -> DeclStatementView {
    match token_at(root, 0) {
        Some(Token::NonTerminal(ntt)) => if ntt.rule == Rule::SignalDeclarationWithConstraint {
            signal_declaration(ntt, path, contents)
        } else if ntt.rule == Rule::ComponentDeclaration {
            component_declaration(ntt)
        } else {
            blank_declaration()
        },
        Some(Token::Terminal(kw)) => if kw.rule == Rule::VariableDeclarationKW {
            DeclStatementView { name: text_at(root, 1), ..blank_declaration() }
        } else {
            blank_declaration()
        },
        None => blank_declaration(),
    }
}

/// The text of the token at place `i`, or the empty text.
fn text_at_exec(tokens: &Vec<Token>, i: usize) -> (res: String)
    ensures
        res@ == text_at(tokens@, i as int),
{
    match get_token(tokens, i) {
        Some(Token::Terminal(tt)) => tt.content.clone(),
        _ => String::new(),
    }
}

/// The direction that a signal keyword spells.
fn direction_of_exec(text: &str) -> (res: SignalDirection)
    ensures
        res == direction_of(text@),
{
    if contains_text_exec(text, "output") {
        SignalDirection::Output
    } else if contains_text_exec(text, "input") {
        SignalDirection::Input
    } else {
        SignalDirection::Intermediate
    }
}

/// The numbers among the texts, in order.
fn numbers_exec(texts: &Vec<String>) -> (res: Vec<u32>)
    ensures
        res@ == numbers_in(strings_view(*texts), texts.len() as int),
{
    let mut out: Vec<u32> = Vec::new();
    let mut i: usize = 0;
    while i < texts.len()
        invariant
            i <= texts.len(),
            out@ == numbers_in(strings_view(*texts), i as int),
        decreases texts.len() - i,
    {
        assert(strings_view(*texts)[i as int] == texts@[i as int]@);
        match parse_decimal(texts[i].as_str()) {
            Some(value) => {
                out.push(value);
            },
            None => {},
        }
        i += 1;
    }
    out
}

/// The template named by an instantiation expression.
fn template_name_exec(expr: &NonTerminalToken) -> (res: Option<String>)
    ensures
        match res {
            Some(name) => template_name_of(*expr) == Some(name@),
            None => template_name_of(*expr) is None,
        },
{
    match get_token(&expr.subrules, 0) {
        Some(a) => match get_sub_token(a, 0) {
            Some(b) => match get_sub_token(b, 0) {
                Some(Token::Terminal(tt)) => Some(tt.content.clone()),
                _ => None,
            },
            None => None,
        },
        None => None,
    }
}

/// The arguments of an instantiation expression.
fn arguments_exec(expr: &NonTerminalToken) -> (res: Vec<u32>)
    ensures
        res@ == arguments_of(*expr),
{
    if expr.subrules.len() > 3 {
        match &expr.subrules[2] {
            Token::NonTerminal(list) => {
                let texts = parse_list_of_vars_or_values(&list.subrules, 0);
                numbers_exec(&texts)
            },
            Token::Terminal(_) => Vec::new(),
        }
    } else {
        Vec::new()
    }
}

/// Appends the numbers of `more` to `numbers`.
fn extend_numbers(numbers: &mut Vec<u32>, more: &Vec<u32>)
    ensures
        final(numbers)@ == old(numbers)@ + more@,
{
    let mut i: usize = 0;
    assert(numbers@ =~= old(numbers)@ + more@.subrange(0, 0));
    while i < more.len()
        invariant
            i <= more.len(),
            numbers@ == old(numbers)@ + more@.subrange(0, i as int),
        decreases more.len() - i,
    {
        numbers.push(more[i]);
        i += 1;
        assert(numbers@ =~= old(numbers)@ + more@.subrange(0, i as int));
    }
    assert(more@.subrange(0, more.len() as int) =~= more@);
}

/// What the tokens of a declaration hold from the third token to the end
/// of the line: the sizes, the template and its arguments.
fn read_declaration_line(tokens: &Vec<Token>) -> (res: (Vec<String>, String, Vec<u32>))
    ensures
        strings_view(res.0) == sizes_from(tokens@, 2),
        res.1@ == template_from(tokens@, 2, Seq::empty()),
        res.2@ == arguments_from(tokens@, 2),
{
    let mut sizes: Vec<String> = Vec::new();
    let mut template = String::new();
    let mut arguments: Vec<u32> = Vec::new();
    let mut i: usize = 2;
    assert(strings_view(sizes) + sizes_from(tokens@, 2) =~= sizes_from(tokens@, 2));
    assert(arguments@ + arguments_from(tokens@, 2) =~= arguments_from(tokens@, 2));
    while i < tokens.len()
        invariant
            2 <= i,
            strings_view(sizes) + sizes_from(tokens@, i as int) == sizes_from(tokens@, 2),
            template_from(tokens@, i as int, template@) == template_from(tokens@, 2, Seq::empty()),
            arguments@ + arguments_from(tokens@, i as int) == arguments_from(tokens@, 2),
        decreases tokens.len() - i,
    {
        let ghost old_sizes = strings_view(sizes);
        let ghost old_arguments = arguments@;
        match &tokens[i] {
            Token::Terminal(tt) => {
                if tt.rule == Rule::EndOfLine {
                    assert(old_sizes + Seq::<Seq<char>>::empty() =~= old_sizes);
                    assert(old_arguments + Seq::<u32>::empty() =~= old_arguments);
                    return (sizes, template, arguments);
                }
            },
            Token::NonTerminal(n) => {
                if n.rule == Rule::ArrayDeclaration {
                    let size = parse_array_declaration(&n.subrules);
                    sizes.push(size);
                    assert(strings_view(sizes) =~= old_sizes + seq![size@]);
                    assert(strings_view(sizes) + sizes_from(tokens@, i + 1) =~= old_sizes
                        + sizes_from(tokens@, i as int));
                }
                if n.rule == Rule::Expression {
                    match template_name_exec(n) {
                        Some(name) => {
                            template = name;
                        },
                        None => {},
                    }
                    let more = arguments_exec(n);
                    extend_numbers(&mut arguments, &more);
                    assert(arguments@ + arguments_from(tokens@, i + 1) =~= old_arguments
                        + arguments_from(tokens@, i as int));
                }
            },
        }
        i += 1;
    }
    assert(strings_view(sizes) + Seq::<Seq<char>>::empty() =~= strings_view(sizes));
    assert(arguments@ + Seq::<u32>::empty() =~= arguments@);
    (sizes, template, arguments)
}

/// Reads the declaration that the tokens of a declaration statement make.
pub fn parse_declaration_statement(
    declaration_statement_root: &Vec<Token>,
    path: &String,
    path_to_content_map: &NameMap<String>,
) -> (res: DeclStatement)
    ensures
        res@ == declaration_of(declaration_statement_root@, path@, path_to_content_map@),
{
    let mut name = String::new();
    let mut decl_type = DeclType::Variable;
    let mut direction = SignalDirection::Input;
    let mut size_per_dimension: Vec<String> = Vec::new();
    let mut template_to_use = String::new();
    let mut expression = Stmt::Empty;
    let mut arguments: Vec<u32> = Vec::new();
    assert(strings_view(size_per_dimension) =~= Seq::empty());
    match get_token(declaration_statement_root, 0) {
        Some(Token::NonTerminal(ntt)) => {
            if ntt.rule == Rule::SignalDeclarationWithConstraint {
                decl_type = DeclType::Signal;
                match get_token(&ntt.subrules, 0) {
                    Some(Token::NonTerminal(wrapper)) => {
                        match get_token(&wrapper.subrules, 2) {
                            Some(Token::Terminal(subtt)) => {
                                direction = direction_of_exec(subtt.content.as_str());
                            },
                            _ => {},
                        }
                        name = text_at_exec(&ntt.subrules, 1);
                    },
                    _ => {},
                }
                let (sizes, _template, _arguments) = read_declaration_line(&ntt.subrules);
                size_per_dimension = sizes;
                if ntt.subrules.len() > 2 {
                    match &ntt.subrules[ntt.subrules.len() - 1] {
                        Token::NonTerminal(last) => {
                            if last.rule == Rule::Expression {
                                expression = extract_original_content_from_span(
                                    path_to_content_map,
                                    last.span,
                                    path,
                                );
                            }
                        },
                        Token::Terminal(_) => {},
                    }
                }
            } else if ntt.rule == Rule::ComponentDeclaration {
                decl_type = DeclType::Component;
                name = text_at_exec(&ntt.subrules, 1);
                let (sizes, template, numbers) = read_declaration_line(&ntt.subrules);
                size_per_dimension = sizes;
                template_to_use = template;
                arguments = numbers;
            }
        },
        Some(Token::Terminal(kw)) => {
            if kw.rule == Rule::VariableDeclarationKW {
                name = text_at_exec(declaration_statement_root, 1);
            }
        },
        None => {},
    }
    DeclStatement {
        size_per_dimension,
        name,
        decl_type,
        direction,
        template_to_use,
        expression,
        arguments,
    }
}

/// What has been read of a variable reference: its indexes, the name and
/// the indexes of its member, and whether the member access is still to come.
pub struct Reading {
    pub indexing: Seq<Seq<char>>,
    pub member_id: Seq<char>,
    pub member_indexing: Seq<Seq<char>>,
    pub before: bool,
}

/// What one more token adds to a reading. A member-access operator starts
/// the member; a text after it names the member; an array declaration adds
/// an index, to the variable before the member access and to the member
/// after it.
pub open spec fn read_suffix(t: Token, r: Reading) -> Reading {
    match t {
        Token::Terminal(tt) => if r.before {
            if tt.rule == Rule::MemberAccessOperator {
                Reading { before: false, ..r }
            } else {
                r
            }
        } else {
            Reading { member_id: tt.content@, ..r }
        },
        Token::NonTerminal(n) => if n.rule == Rule::ArrayDeclaration {
            if r.before {
                Reading { indexing: r.indexing.push(array_size_text(n.subrules@)), ..r }
            } else {
                Reading {
                    member_indexing: r.member_indexing.push(array_size_text(n.subrules@)),
                    ..r
                }
            }
        } else {
            r
        },
    }
}

/// The reading after the tokens `tokens[i..]`.
pub open spec fn read_suffixes(tokens: Seq<Token>, i: int, r: Reading) -> Reading
    decreases tokens.len() - i,
{
    if i < 0 || i >= tokens.len() {
        r
    } else {
        read_suffixes(tokens, i + 1, read_suffix(tokens[i], r))
    }
}

/// A variable with nothing read into it.
pub open spec fn blank_variable(sub_variable: Option<Box<ExecutionVariableView>>)
    -> ExecutionVariableView {
    ExecutionVariableView {
        id: Seq::empty(),
        indexing: Seq::empty(),
        sub_variable,
        is_constant: false,
        numerical_value: 0,
    }
}

/// The variable reference, or the constant, that a value token holds. A
/// first token with tokens inside is a reference: its first text is the
/// name, and the rest is read as indexes and member. A first token of text
/// is a constant, zero where the text spells no number.
pub open spec fn variable_of(container: Token) -> ExecutionVariableView {
    match sub_token(container, 0) {
        Some(Token::NonTerminal(reference)) => {
            let r = read_suffixes(
                reference.subrules@,
                1,
                Reading {
                    indexing: Seq::empty(),
                    member_id: Seq::empty(),
                    member_indexing: Seq::empty(),
                    before: true,
                },
            );
            ExecutionVariableView {
                id: text_at(reference.subrules@, 0),
                indexing: r.indexing,
                sub_variable: Some(
                    Box::new(
                        ExecutionVariableView {
                            id: r.member_id,
                            indexing: r.member_indexing,
                            ..blank_variable(None)
                        },
                    ),
                ),
                is_constant: false,
                numerical_value: 0,
            }
        },
        Some(Token::Terminal(constant)) => ExecutionVariableView {
            is_constant: true,
            numerical_value: match decimal_value(constant.content@) {
                Some(value) => value,
                None => 0,
            },
            ..blank_variable(Some(Box::new(blank_variable(None))))
        },
        None => blank_variable(Some(Box::new(blank_variable(None)))),
    }
}

/// Reads the variable reference, or the constant, that a value token holds.
pub fn parse_compl_variable(container: &Token) -> (res: ExecutionVariable)
    ensures
        res@ == variable_of(*container),
{
    let mut id = String::new();
    let mut indexing: Vec<String> = Vec::new();
    let mut member_id = String::new();
    let mut member_indexing: Vec<String> = Vec::new();
    let mut is_constant = false;
    let mut numerical_value: u32 = 0;
    assert(strings_view(indexing) =~= Seq::empty());
    assert(strings_view(member_indexing) =~= Seq::empty());
    match get_sub_token(container, 0) {
        Some(Token::NonTerminal(reference)) => {
            id = text_at_exec(&reference.subrules, 0);
            let mut before = true;
            let mut i: usize = 1;
            while i < reference.subrules.len()
                invariant
                    1 <= i,
                    read_suffixes(
                        reference.subrules@,
                        i as int,
                        Reading {
                            indexing: strings_view(indexing),
                            member_id: member_id@,
                            member_indexing: strings_view(member_indexing),
                            before,
                        },
                    ) == read_suffixes(
                        reference.subrules@,
                        1,
                        Reading {
                            indexing: Seq::empty(),
                            member_id: Seq::empty(),
                            member_indexing: Seq::empty(),
                            before: true,
                        },
                    ),
                decreases reference.subrules.len() - i,
            {
                match &reference.subrules[i] {
                    Token::Terminal(tt) => {
                        if before {
                            if tt.rule == Rule::MemberAccessOperator {
                                before = false;
                            }
                        } else {
                            member_id = tt.content.clone();
                        }
                    },
                    Token::NonTerminal(n) => {
                        if n.rule == Rule::ArrayDeclaration {
                            let inside = parse_array_declaration(&n.subrules);
                            if before {
                                let ghost prev = strings_view(indexing);
                                indexing.push(inside);
                                assert(strings_view(indexing) =~= prev.push(inside@));
                            } else {
                                let ghost prev = strings_view(member_indexing);
                                member_indexing.push(inside);
                                assert(strings_view(member_indexing) =~= prev.push(inside@));
                            }
                        }
                    },
                }
                i += 1;
            }
        },
        Some(Token::Terminal(constant)) => {
            is_constant = true;
            numerical_value = match parse_decimal(constant.content.as_str()) {
                Some(value) => value,
                None => 0,
            };
        },
        None => {},
    }
    let member = ExecutionVariable {
        id: member_id,
        indexing: member_indexing,
        sub_variable: None,
        is_constant: false,
        numerical_value: 0,
    };
    assert(member@ == ExecutionVariableView {
        id: member_id@,
        indexing: strings_view(member_indexing),
        ..blank_variable(None)
    });
    ExecutionVariable {
        id,
        indexing,
        sub_variable: Some(Box::new(member)),
        is_constant,
        numerical_value,
    }
}

/// The name that a value token holds: the innermost text of a token of the
/// value rule, empty otherwise.
pub open spec fn value_name(t: Option<Token>) -> Seq<char> {
    match as_rule(t, Rule::Value) {
        Some(v) => match token_at(v.subrules@, 0) {
            Some(inner) => match terminal_text(sub_token(inner, 0)) {
                Some(name) => name,
                None => Seq::empty(),
            },
            None => Seq::empty(),
        },
        None => Seq::empty(),
    }
}

/// The text of `t` where it is a text of rule `rule`, empty otherwise.
pub open spec fn text_of_rule(t: Option<Token>, rule: Rule) -> Seq<char> {
    match t {
        Some(Token::Terminal(tt)) => if tt.rule == rule {
            tt.content@
        } else {
            Seq::empty()
        },
        _ => Seq::empty(),
    }
}

/// The boundary condition that the third token of a loop holds.
pub open spec fn condition_of(t: Option<Token>) -> BoolExpressionView {
    match as_rule(t, Rule::Expression) {
        Some(e) => BoolExpressionView {
            lhs: value_name(token_at(e.subrules@, 0)),
            rhs: value_name(token_at(e.subrules@, 2)),
            operation: text_of_rule(token_at(e.subrules@, 1), Rule::RelationalOrderingOperator),
        },
        None => BoolExpressionView {
            lhs: Seq::empty(),
            rhs: Seq::empty(),
            operation: Seq::empty(),
        },
    }
}

/// The step that the fourth token of a loop holds: one for a postfix
/// operator that holds `++`, minus one for any other postfix operator, zero
/// where there is none.
pub open spec fn step_of(t: Option<Token>) -> i32 {
    match as_rule(t, Rule::Expression) {
        Some(e) => match token_at(e.subrules@, 1) {
            Some(Token::Terminal(tt)) => if tt.rule == Rule::PostfixOperator {
                if contains_text(tt.content@, "++"@) {
                    1i32
                } else {
                    -1i32
                }
            } else {
                0i32
            },
            _ => 0i32,
        },
        None => 0i32,
    }
}

/// The index that the second token of a loop declares.
pub open spec fn index_of(t: Option<Token>, path: Seq<char>, contents: Map<Seq<char>, String>)
    -> Seq<char> {
    match as_rule(t, Rule::DeclarationStatement) {
        Some(d) => declaration_of(d.subrules@, path, contents).name,
        None => Seq::empty(),
    }
}

/// The commands that the first `n` tokens of a loop body make: a loop for
/// each loop statement and an instruction for each expression.
pub open spec fn body_of(
    elements: Seq<Token>,
    n: int,
    path: Seq<char>,
    contents: Map<Seq<char>, String>,
) -> Seq<SingleCommandView>
    decreases elements, n,
{
    if n <= 0 || n > elements.len() {
        Seq::empty()
    } else {
        let before = body_of(elements, n - 1, path, contents);
        match elements[n - 1] {
            Token::NonTerminal(ntt) => if ntt.rule == Rule::ForStatement {
                before.push(for_loop_of(ntt.subrules@, path, contents))
            } else if ntt.rule == Rule::Expression {
                before.push(
                    SingleCommandView::Instruction {
                        statement: statement_of_span(contents, ntt.span, path),
                        span: ntt.span,
                    },
                )
            } else {
                before
            },
            Token::Terminal(_) => before,
        }
    }
}

/// The loop that the tokens of a loop statement make: the second token
/// declares the index, which starts at zero; the third is the boundary
/// condition; the fourth the step; the fifth the body.
pub open spec fn for_loop_of(
    elements: Seq<Token>,
    path: Seq<char>,
    contents: Map<Seq<char>, String>,
) -> SingleCommandView
    decreases elements, elements.len() + 1,
{
    SingleCommandView::ForLoop(
        ForLoopView {
            index: index_of(token_at(elements, 1), path, contents),
            start_value: 0,
            condition: condition_of(token_at(elements, 2)),
            step: step_of(token_at(elements, 3)),
            body: if elements.len() > 4 {
                match elements[4] {
                    Token::NonTerminal(b) => if b.rule == Rule::Body {
                        body_of(b.subrules@, b.subrules@.len() as int, path, contents)
                    } else {
                        Seq::empty()
                    },
                    Token::Terminal(_) => Seq::empty(),
                }
            } else {
                Seq::empty()
            },
        },
    )
}

/// The name that a value token holds.
fn value_name_exec(t: Option<&Token>) -> (res: String)
    ensures
        res@ == value_name(
            match t {
                Some(t) => Some(*t),
                None => None,
            },
        ),
{
    match t {
        Some(Token::NonTerminal(v)) => {
            if v.rule == Rule::Value {
                match get_token(&v.subrules, 0) {
                    Some(inner) => match get_sub_token(inner, 0) {
                        Some(Token::Terminal(tt)) => {
                            return tt.content.clone();
                        },
                        _ => {},
                    },
                    None => {},
                }
            }
        },
        _ => {},
    }
    String::new()
}

/// The boundary condition that the third token of a loop holds.
fn condition_exec(t: Option<&Token>) -> (res: BoolExpression)
    ensures
        res@ == condition_of(
            match t {
                Some(t) => Some(*t),
                None => None,
            },
        ),
{
    match t {
        Some(Token::NonTerminal(e)) => {
            if e.rule == Rule::Expression {
                let lhs = value_name_exec(get_token(&e.subrules, 0));
                let operation = match get_token(&e.subrules, 1) {
                    Some(Token::Terminal(tt)) => if tt.rule == Rule::RelationalOrderingOperator {
                        tt.content.clone()
                    } else {
                        String::new()
                    },
                    _ => String::new(),
                };
                let rhs = value_name_exec(get_token(&e.subrules, 2));
                return BoolExpression { lhs, rhs, operation };
            }
        },
        _ => {},
    }
    BoolExpression { lhs: String::new(), rhs: String::new(), operation: String::new() }
}

/// The step that the fourth token of a loop holds.
fn step_exec(t: Option<&Token>) -> (res: i32)
    ensures
        res == step_of(
            match t {
                Some(t) => Some(*t),
                None => None,
            },
        ),
{
    match t {
        Some(Token::NonTerminal(e)) => {
            if e.rule == Rule::Expression {
                match get_token(&e.subrules, 1) {
                    Some(Token::Terminal(tt)) => {
                        if tt.rule == Rule::PostfixOperator {
                            if contains_text_exec(tt.content.as_str(), "++") {
                                return 1;
                            } else {
                                return -1;
                            }
                        }
                    },
                    _ => {},
                }
            }
        },
        _ => {},
    }
    0
}

/// Reads the commands of a loop body.
pub fn parse_body_nested(
    elements: &Vec<Token>,
    path: &String,
    path_to_content_map: &NameMap<String>,
) -> (res: Vec<SingleCommand>)
    ensures
        commands_view(res) == body_of(
            elements@,
            elements@.len() as int,
            path@,
            path_to_content_map@,
        ),
    decreases elements, elements@.len(),
{
    let mut lines: Vec<SingleCommand> = Vec::new();
    let mut i: usize = 0;
    assert(commands_view(lines) =~= body_of(elements@, 0, path@, path_to_content_map@));
    while i < elements.len()
        invariant
            i <= elements.len(),
            commands_view(lines) == body_of(elements@, i as int, path@, path_to_content_map@),
        decreases elements.len() - i,
    {
        match &elements[i] {
            Token::NonTerminal(ntt) => {
                if ntt.rule == Rule::ForStatement {
                    push_command(
                        &mut lines,
                        parse_for_loop(&ntt.subrules, path, path_to_content_map),
                    );
                } else if ntt.rule == Rule::Expression {
                    let statement = extract_original_content_from_span(
                        path_to_content_map,
                        ntt.span,
                        path,
                    );
                    push_command(
                        &mut lines,
                        SingleCommand::Instruction(
                            Instruction { statement, span: (ntt.span.0, ntt.span.1) },
                        ),
                    );
                }
            },
            Token::Terminal(_) => {},
        }
        i += 1;
    }
    lines
}

/// Reads the loop that the tokens of a loop statement make.
pub fn parse_for_loop(elements: &Vec<Token>, path: &String, path_to_content_map: &NameMap<String>)
    -> (res: SingleCommand)
    ensures
        res@ == for_loop_of(elements@, path@, path_to_content_map@),
    decreases elements, elements@.len() + 1,
{
    let index = match get_token(elements, 1) {
        Some(Token::NonTerminal(d)) => if d.rule == Rule::DeclarationStatement {
            parse_declaration_statement(&d.subrules, path, path_to_content_map).name
        } else {
            String::new()
        },
        _ => String::new(),
    };
    let condition = condition_exec(get_token(elements, 2));
    let step = step_exec(get_token(elements, 3));
    let body = if elements.len() > 4 {
        match &elements[4] {
            Token::NonTerminal(b) => if b.rule == Rule::Body {
                parse_body_nested(&b.subrules, path, path_to_content_map)
            } else {
                Vec::new()
            },
            Token::Terminal(_) => Vec::new(),
        }
    } else {
        Vec::new()
    };
    let res = SingleCommand::ForLoop(ForLoop { index, start_value: 0, condition, step, body });
    assert(commands_view(body) =~= for_loop_of(elements@, path@, path_to_content_map@)->ForLoop_0.body);
    res
}

/// The texts among the first `n` tokens, in order.
pub open spec fn texts_in(tokens: Seq<Token>, n: int) -> Seq<Seq<char>>
    decreases n,
{
    if n <= 0 || n > tokens.len() {
        Seq::empty()
    } else {
        match tokens[n - 1] {
            Token::Terminal(tt) => texts_in(tokens, n - 1).push(tt.content@),
            Token::NonTerminal(_) => texts_in(tokens, n - 1),
        }
    }
}

/// The signal that a signal declaration declares.
pub open spec fn signal_of(d: DeclStatementView) -> SignalView {
    SignalView {
        name: d.name,
        direction: d.direction,
        size_per_dimension: d.size_per_dimension,
        expression: d.expression,
    }
}

/// The component that a component declaration declares.
pub open spec fn component_of(d: DeclStatementView) -> ComponentView {
    ComponentView {
        name: d.name,
        size_per_dimension: d.size_per_dimension,
        template_to_use: d.template_to_use,
        arguments: d.arguments,
    }
}

/// The declaration that a body token makes, if it is a declaration statement.
pub open spec fn declared_by(t: Token, path: Seq<char>, contents: Map<Seq<char>, String>)
    -> Option<DeclStatementView> {
    match as_rule(Some(t), Rule::DeclarationStatement) {
        Some(d) => Some(declaration_of(d.subrules@, path, contents)),
        None => None,
    }
}

/// The signals of direction `direction` declared by the first `n` tokens
/// of a template body, in order.
pub open spec fn signals_in(
    body: Seq<Token>,
    n: int,
    direction: SignalDirection,
    path: Seq<char>,
    contents: Map<Seq<char>, String>,
) -> Seq<SignalView>
    decreases n,
{
    if n <= 0 || n > body.len() {
        Seq::empty()
    } else {
        let before = signals_in(body, n - 1, direction, path, contents);
        match declared_by(body[n - 1], path, contents) {
            Some(d) => if d.decl_type == DeclType::Signal && d.direction == direction {
                before.push(signal_of(d))
            } else {
                before
            },
            None => before,
        }
    }
}

/// The components declared by the first `n` tokens of a template body, in order.
pub open spec fn components_in(
    body: Seq<Token>,
    n: int,
    path: Seq<char>,
    contents: Map<Seq<char>, String>,
) -> Seq<ComponentView>
    decreases n,
{
    if n <= 0 || n > body.len() {
        Seq::empty()
    } else {
        let before = components_in(body, n - 1, path, contents);
        match declared_by(body[n - 1], path, contents) {
            Some(d) => if d.decl_type == DeclType::Component {
                before.push(component_of(d))
            } else {
                before
            },
            None => before,
        }
    }
}

/// The commands that the first `n` tokens of a template body make: a
/// declaration for each declaration statement, a loop for each loop
/// statement and an instruction for each expression.
pub open spec fn commands_in(
    body: Seq<Token>,
    n: int,
    path: Seq<char>,
    contents: Map<Seq<char>, String>,
) -> Seq<SingleCommandView>
    decreases n,
{
    if n <= 0 || n > body.len() {
        Seq::empty()
    } else {
        let before = commands_in(body, n - 1, path, contents);
        match body[n - 1] {
            Token::NonTerminal(ntt) => if ntt.rule == Rule::DeclarationStatement {
                before.push(
                    SingleCommandView::DeclarationStatement(
                        declaration_of(ntt.subrules@, path, contents),
                    ),
                )
            } else if ntt.rule == Rule::ForStatement {
                before.push(for_loop_of(ntt.subrules@, path, contents))
            } else if ntt.rule == Rule::Expression {
                before.push(
                    SingleCommandView::Instruction {
                        statement: statement_of_span(contents, ntt.span, path),
                        span: ntt.span,
                    },
                )
            } else {
                before
            },
            Token::Terminal(_) => before,
        }
    }
}

/// The tokens of the body of a template: those inside its fourth token.
pub open spec fn template_body(root: Seq<Token>) -> Seq<Token> {
    match as_rule(token_at(root, 3), Rule::Body) {
        Some(b) => b.subrules@,
        None => Seq::empty(),
    }
}

/// The template that the tokens of a template block make: the second token
/// is its name, the third lists its parameters, the fourth is its body.
pub open spec fn template_of(root: Seq<Token>, path: Seq<char>, contents: Map<Seq<char>, String>)
    -> TemplateView {
    let body = template_body(root);
    let n = body.len() as int;
    TemplateView {
        name: text_of_rule(token_at(root, 1), Rule::TemplateName),
        params: match as_rule(token_at(root, 2), Rule::Parameters) {
            Some(p) => texts_in(p.subrules@, p.subrules@.len() as int),
            None => Seq::empty(),
        },
        private_input_signals: signals_in(body, n, SignalDirection::Input, path, contents),
        output_signals: signals_in(body, n, SignalDirection::Output, path, contents),
        intermediate_signals: signals_in(body, n, SignalDirection::Intermediate, path, contents),
        components: components_in(body, n, path, contents),
        constraints: Seq::empty(),
        instructions: commands_in(body, n, path, contents),
        path,
    }
}

/// The signal that a signal declaration declares.
fn signal_of_exec(d: &DeclStatement) -> (res: Signal)
    ensures
        res@ == signal_of(d@),
{
    Signal {
        name: d.name.clone(),
        direction: d.direction,
        size_per_dimension: copy_strings(&d.size_per_dimension),
        expression: clone_stmt(&d.expression),
    }
}

/// The component that a component declaration declares.
fn component_of_exec(d: &DeclStatement) -> (res: Component)
    ensures
        res@ == component_of(d@),
{
    Component {
        name: d.name.clone(),
        size_per_dimension: copy_strings(&d.size_per_dimension),
        template_to_use: d.template_to_use.clone(),
        arguments: copy_numbers(&d.arguments),
    }
}

/// The texts among the tokens, in order.
fn texts_exec(tokens: &Vec<Token>) -> (res: Vec<String>)
    ensures
        strings_view(res) == texts_in(tokens@, tokens@.len() as int),
{
    let mut out: Vec<String> = Vec::new();
    let mut i: usize = 0;
    assert(strings_view(out) =~= texts_in(tokens@, 0));
    while i < tokens.len()
        invariant
            i <= tokens.len(),
            strings_view(out) == texts_in(tokens@, i as int),
        decreases tokens.len() - i,
    {
        match &tokens[i] {
            Token::Terminal(tt) => {
                let ghost prev = strings_view(out);
                out.push(tt.content.clone());
                assert(strings_view(out) =~= prev.push(tt.content@));
            },
            Token::NonTerminal(_) => {},
        }
        i += 1;
    }
    out
}

/// Reads the template that the tokens of a template block make.
pub fn parse_template_from_ast(
    template_root_token: &Vec<Token>,
    path: &String,
    path_to_content_map: &NameMap<String>,
) -> (res: Template)
    ensures
        res@ == template_of(template_root_token@, path@, path_to_content_map@),
{
    let temp_name = match get_token(template_root_token, 1) {
        Some(Token::Terminal(tt)) => if tt.rule == Rule::TemplateName {
            tt.content.clone()
        } else {
            String::new()
        },
        _ => String::new(),
    };
    let mut template_param_vec: Vec<String> = Vec::new();
    assert(strings_view(template_param_vec) =~= Seq::empty());
    match get_token(template_root_token, 2) {
        Some(Token::NonTerminal(p)) => {
            if p.rule == Rule::Parameters {
                template_param_vec = texts_exec(&p.subrules);
            }
        },
        _ => {},
    }
    let mut output_signals: Vec<Signal> = Vec::new();
    let mut private_input_signals: Vec<Signal> = Vec::new();
    let mut intermediate_signals: Vec<Signal> = Vec::new();
    let mut components: Vec<Component> = Vec::new();
    let constraints: Vec<Expression> = Vec::new();
    let mut commands: Vec<SingleCommand> = Vec::new();
    let ghost body = template_body(template_root_token@);
    let ghost contents = path_to_content_map@;
    assert(signals_view(output_signals) =~= Seq::empty());
    assert(signals_view(private_input_signals) =~= Seq::empty());
    assert(signals_view(intermediate_signals) =~= Seq::empty());
    assert(components_view(components) =~= Seq::empty());
    assert(commands_view(commands) =~= Seq::empty());
    match get_token(template_root_token, 3) {
        Some(Token::NonTerminal(b)) => {
            if b.rule == Rule::Body {
                let mut i: usize = 0;
                while i < b.subrules.len()
                    invariant
                        i <= b.subrules.len(),
                        body == b.subrules@,
                        contents == path_to_content_map@,
                        signals_view(private_input_signals) == signals_in(
                            body,
                            i as int,
                            SignalDirection::Input,
                            path@,
                            contents,
                        ),
                        signals_view(output_signals) == signals_in(
                            body,
                            i as int,
                            SignalDirection::Output,
                            path@,
                            contents,
                        ),
                        signals_view(intermediate_signals) == signals_in(
                            body,
                            i as int,
                            SignalDirection::Intermediate,
                            path@,
                            contents,
                        ),
                        components_view(components) == components_in(
                            body,
                            i as int,
                            path@,
                            contents,
                        ),
                        commands_view(commands) == commands_in(body, i as int, path@, contents),
                    decreases b.subrules.len() - i,
                {
                    match &b.subrules[i] {
                        Token::NonTerminal(ntt) => {
                            if ntt.rule == Rule::DeclarationStatement {
                                let statement = parse_declaration_statement(
                                    &ntt.subrules,
                                    path,
                                    path_to_content_map,
                                );
                                match statement.decl_type {
                                    DeclType::Signal => {
                                        match statement.direction {
                                            SignalDirection::Output => {
                                                push_signal(
                                                    &mut output_signals,
                                                    signal_of_exec(&statement),
                                                );
                                            },
                                            SignalDirection::Input => {
                                                push_signal(
                                                    &mut private_input_signals,
                                                    signal_of_exec(&statement),
                                                );
                                            },
                                            SignalDirection::Intermediate => {
                                                push_signal(
                                                    &mut intermediate_signals,
                                                    signal_of_exec(&statement),
                                                );
                                            },
                                        }
                                    },
                                    DeclType::Component => {
                                        let ghost prev = components_view(components);
                                        let c = component_of_exec(&statement);
                                        components.push(c);
                                        assert(components_view(components) =~= prev.push(c@));
                                    },
                                    DeclType::Variable => {},
                                }
                                push_command(
                                    &mut commands,
                                    SingleCommand::DeclarationStatement(statement),
                                );
                            } else if ntt.rule == Rule::ForStatement {
                                push_command(
                                    &mut commands,
                                    parse_for_loop(&ntt.subrules, path, path_to_content_map),
                                );
                            } else if ntt.rule == Rule::Expression {
                                let statement = extract_original_content_from_span(
                                    path_to_content_map,
                                    ntt.span,
                                    path,
                                );
                                push_command(
                                    &mut commands,
                                    SingleCommand::Instruction(
                                        Instruction { statement, span: (ntt.span.0, ntt.span.1) },
                                    ),
                                );
                            }
                        },
                        Token::Terminal(_) => {},
                    }
                    i += 1;
                }
            }
        },
        _ => {},
    }
    let res = Template {
        name: temp_name,
        params: template_param_vec,
        private_input_signals,
        output_signals,
        intermediate_signals,
        components,
        constraints,
        instructions: commands,
        path: path.clone(),
    };
    assert(res@.constraints =~= Seq::empty());
    res
}

/// The templates that the first `n` tokens of a file make: one for each
/// template block, in order.
pub open spec fn templates_in(
    tokens: Seq<Token>,
    n: int,
    path: Seq<char>,
    contents: Map<Seq<char>, String>,
) -> Seq<TemplateView>
    decreases n,
{
    if n <= 0 || n > tokens.len() {
        Seq::empty()
    } else {
        let before = templates_in(tokens, n - 1, path, contents);
        match as_rule(Some(tokens[n - 1]), Rule::TemplateBlock) {
            Some(t) => before.push(template_of(t.subrules@, path, contents)),
            None => before,
        }
    }
}

/// The main component that the first `n` tokens of a file declare: the
/// component of the last declaration of a component named `main`.
pub open spec fn main_in(
    tokens: Seq<Token>,
    n: int,
    path: Seq<char>,
    contents: Map<Seq<char>, String>,
) -> Option<ComponentView>
    decreases n,
{
    if n <= 0 || n > tokens.len() {
        None
    } else {
        match declared_by(tokens[n - 1], path, contents) {
            Some(d) => if d.decl_type == DeclType::Component && d.name == "main"@ {
                Some(component_of(d))
            } else {
                main_in(tokens, n - 1, path, contents)
            },
            None => main_in(tokens, n - 1, path, contents),
        }
    }
}

/// The model of an optional component.
pub open spec fn optional_component_view(c: Option<Component>) -> Option<ComponentView> {
    match c {
        Some(c) => Some(c@),
        None => None,
    }
}

/// Reads the main component and the templates out of the top-level tokens
/// of a file.
pub fn find_templates(subrules: &Vec<Token>, path: &String, path_to_content_map: &NameMap<String>)
    -> (res: (Option<Component>, Vec<Template>))
    ensures
        optional_component_view(res.0) == main_in(
            subrules@,
            subrules@.len() as int,
            path@,
            path_to_content_map@,
        ),
        templates_view(res.1) == templates_in(
            subrules@,
            subrules@.len() as int,
            path@,
            path_to_content_map@,
        ),
{
    let mut templates: Vec<Template> = Vec::new();
    let mut main_component: Option<Component> = None;
    let mut i: usize = 0;
    assert(templates_view(templates) =~= Seq::empty());
    while i < subrules.len()
        invariant
            i <= subrules.len(),
            optional_component_view(main_component) == main_in(
                subrules@,
                i as int,
                path@,
                path_to_content_map@,
            ),
            templates_view(templates) == templates_in(
                subrules@,
                i as int,
                path@,
                path_to_content_map@,
            ),
        decreases subrules.len() - i,
    {
        match &subrules[i] {
            Token::NonTerminal(ntt) => {
                if ntt.rule == Rule::TemplateBlock {
                    let temp = parse_template_from_ast(&ntt.subrules, path, path_to_content_map);
                    let ghost prev = templates_view(templates);
                    templates.push(temp);
                    assert(templates_view(templates) =~= prev.push(temp@));
                }
                if ntt.rule == Rule::DeclarationStatement {
                    let decl_statement = parse_declaration_statement(
                        &ntt.subrules,
                        path,
                        path_to_content_map,
                    );
                    match decl_statement.decl_type {
                        DeclType::Component => {
                            if str_eq(decl_statement.name.as_str(), "main") {
                                main_component = Some(component_of_exec(&decl_statement));
                            }
                        },
                        _ => {},
                    }
                }
            },
            Token::Terminal(_) => {},
        }
        i += 1;
    }
    (main_component, templates)
}

/// The models of the templates of a map.
pub open spec fn template_map_view(tm: Map<Seq<char>, Template>) -> Map<Seq<char>, TemplateView> {
    tm.map_values(|t: Template| t@)
}

/// Collects the templates that `start_node` uses, directly or through the
/// components of its template: the result holds exactly the known
/// templates that are reachable from the template of `start_node`, each
/// under its name.
pub fn get_used_templates(template_map: &NameMap<Template>, start_node: Component) -> (res:
    NameMap<Template>)
    ensures
        forall|name: Seq<char>| #[trigger]
            res@.contains_key(name) <==> reachable(
                template_map@,
                start_node@.template_to_use,
                name,
            ),
        forall|name: Seq<char>| #[trigger]
            res@.contains_key(name) ==> res@[name]@ == template_map@[name]@,
        template_map_view(res@) == used_templates(
            template_map@,
            start_node@,
            template_map.entries@.len(),
        ),
{
    proof {
        lemma_assoc_dom(template_map.entries@);
        lemma_used_templates_are_the_reachable(
            template_map@,
            start_node@,
            template_map.entries@.len(),
        );
    }
    let mut queue: Vec<String> = Vec::new();
    let mut found: NameMap<Template> = NameMap::new();
    let mut budget: usize = template_map.entries.len();
    let mut head: usize = 0;
    queue.push(start_node.template_to_use);
    assert(strings_view(queue) =~= seq![start_node@.template_to_use]);
    assert(template_map_view(found@) =~= Map::empty());
    while head < queue.len()
        invariant
            head <= queue.len(),
            used_from(
                strings_view(queue),
                head as int,
                template_map_view(found@),
                template_map@,
                budget as nat,
            ) == used_templates(template_map@, start_node@, template_map.entries@.len()),
        decreases budget, queue.len() - head,
    {
        assert(strings_view(queue)[head as int] == queue@[head as int]@);
        let name = queue[head].clone();
        head += 1;
        if !found.contains_key(name.as_str()) {
            match template_map.get(name.as_str()) {
                Some(t) => {
                    if budget == 0 {
                        proof {
                            lemma_template_map_view(found@);
                            lemma_assoc_dom(template_map.entries@);
                            lemma_used_templates_are_the_reachable(
                                template_map@,
                                start_node@,
                                template_map.entries@.len(),
                            );
                        }
                        return found;
                    }
                    budget -= 1;
                    let ghost before = template_map_view(found@);
                    found.insert(name, clone_template(t));
                    assert(template_map_view(found@) =~= before.insert(name@, t@));
                    let ghost old_queue = strings_view(queue);
                    let mut i: usize = 0;
                    assert(strings_view(queue) =~= old_queue + templates_used(t.components@, 0));
                    while i < t.components.len()
                        invariant
                            i <= t.components.len(),
                            head <= queue.len(),
                            strings_view(queue) == old_queue + templates_used(
                                t.components@,
                                i as int,
                            ),
                        decreases t.components.len() - i,
                    {
                        let ghost prev = strings_view(queue);
                        let used = t.components[i].template_to_use.clone();
                        queue.push(used);
                        assert(strings_view(queue) =~= prev.push(used@));
                        i += 1;
                        assert(strings_view(queue) =~= old_queue + templates_used(
                            t.components@,
                            i as int,
                        ));
                    }
                },
                None => {},
            }
        }
    }
    proof {
        lemma_template_map_view(found@);
    }
    found
}

/// The models of the templates of a map have the keys of the map, and at
/// each key the model of its template.
pub proof fn lemma_template_map_view(tm: Map<Seq<char>, Template>)
    ensures
        forall|name: Seq<char>| #[trigger]
            tm.contains_key(name) <==> template_map_view(tm).contains_key(name),
        forall|name: Seq<char>| #[trigger]
            tm.contains_key(name) ==> template_map_view(tm)[name] == tm[name]@,
{
}

} // verus!
