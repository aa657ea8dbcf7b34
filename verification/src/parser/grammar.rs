//! The statement grammar: a parsing expression grammar read by recursive
//! descent, and the untyped parse tree it produces.
//!
//! Every rule is given twice: as a specification function over the characters
//! of the input, and as an executable function proved to compute it.

use vstd::prelude::*;
use vstd::string::*;
use crate::parser::text::{chars_of, is_blank, is_digit, is_ident_continue, is_ident_start};

verus! {

/// The rules of the statement grammar.
#[derive(Eq, Hash, PartialEq, Debug, Clone, Copy)]
pub enum Rule {
    Constraint,
    Assignment,
    Assertion,
    TernaryExpr,
    LogicalExpr,
    ArithExpr,
    Term,
    Exponent,
    BitwiseExpr,
    ShiftExpr,
    UnaryExpr,
    Factor,
    ComponentInstance,
    ComplexVariable,
    ArrayDeclaration,
    Identifier,
    Number,
    LogicalOp,
    AddOp,
    MultiplyOp,
    ExponentOp,
    ShiftOp,
    BitwiseOp,
    UnaryOp,
    SymmetricConstraintOp,
    LeftConstraintOp,
    RightConstraintOp,
    AssignmentOp,
}

/// A node of the parse tree: the rule that matched, the text it matched and
/// the nodes of the rules matched inside it, in source order.
#[derive(Eq, Hash, PartialEq, Debug)]
pub struct Pair {
    pub rule: Rule,
    pub text: String,
    pub inner: Vec<Pair>,
}

/// Mathematical model of a [`Pair`].
pub struct PairView {
    pub rule: Rule,
    pub text: Seq<char>,
    pub inner: Seq<PairView>,
}

/// The views of a vector of nodes, element by element.
pub open spec fn pairs_view(v: Vec<Pair>) -> Seq<PairView>
    decreases v,
{
    Seq::new(
        v@.len(),
        |i: int|
            if 0 <= i < v@.len() {
                pair_view(v@[i])
            } else {
                PairView { rule: Rule::Number, text: Seq::empty(), inner: Seq::empty() }
            },
    )
}

/// The model of a parse-tree node.
pub open spec fn pair_view(p: Pair) -> PairView
    decreases p,
{
    PairView { rule: p.rule, text: p.text@, inner: pairs_view(p.inner) }
}

impl View for Pair {
    type V = PairView;

    open spec fn view(&self) -> PairView {
        pair_view(*self)
    }
}

/// Copies a list of nodes.
pub fn clone_pairs(v: &Vec<Pair>) -> (res: Vec<Pair>)
    ensures
        pairs_view(res) == pairs_view(*v),
    decreases v,
{
    let mut out: Vec<Pair> = Vec::new();
    let mut i: usize = 0;
    while i < v.len()
        invariant
            i <= v.len(),
            out.len() == i,
            forall|j: int| 0 <= j < i ==> pair_view(#[trigger] out@[j]) == pair_view(v@[j]),
        decreases v.len() - i,
    {
        let item = clone_pair(&v[i]);
        out.push(item);
        i += 1;
    }
    assert(pairs_view(out) =~= pairs_view(*v));
    out
}

/// Copies a node with everything below it.
pub fn clone_pair(p: &Pair) -> (res: Pair)
    ensures
        res@ == p@,
    decreases p,
{
    Pair { rule: p.rule, text: p.text.clone(), inner: clone_pairs(&p.inner) }
}

impl Clone for Pair {
    fn clone(&self) -> (res: Self)
        ensures
            res@ == self@,
    {
        clone_pair(self)
    }
}

/// A successful match: the node and the half-open range of input it covers.
pub struct Match {
    pub pair: Pair,
    pub start: usize,
    pub end: usize,
}

/// Mathematical model of a [`Match`].
pub struct MatchView {
    pub pair: PairView,
    pub start: int,
    pub end: int,
}

impl View for Match {
    type V = MatchView;

    open spec fn view(&self) -> MatchView {
        MatchView { pair: self.pair@, start: self.start as int, end: self.end as int }
    }
}

/// The model of an optional match.
pub open spec fn match_view(m: Option<Match>) -> Option<MatchView> {
    match m {
        Some(m) => Some(m@),
        None => None,
    }
}

/// Number of characters from `pos` to the end of the input.
pub open spec fn remaining(s: Seq<char>, pos: int) -> nat {
    if 0 <= pos <= s.len() {
        (s.len() - pos) as nat
    } else {
        0
    }
}

/// First position at or after `pos` that holds no blank.
pub open spec fn skip_blanks(s: Seq<char>, pos: int) -> int
    decreases remaining(s, pos),
{
    if 0 <= pos < s.len() && is_blank(s[pos]) {
        skip_blanks(s, pos + 1)
    } else {
        pos
    }
}

/// Whether the characters of `lit` stand at `pos`.
pub open spec fn has_token(s: Seq<char>, pos: int, lit: Seq<char>) -> bool {
    0 <= pos && pos + lit.len() <= s.len() && s.subrange(pos, pos + lit.len()) == lit
}

/// The range of the literal `lit` when it is the next token after `pos`.
pub open spec fn token(s: Seq<char>, pos: int, lit: Seq<char>) -> Option<(int, int)> {
    let start = skip_blanks(s, pos);
    if lit.len() > 0 && has_token(s, start, lit) {
        Some((start, start + lit.len()))
    } else {
        None
    }
}

/// Whether a token was found and lies within the input at or after `pos`.
pub open spec fn token_advances(t: Option<(int, int)>, s: Seq<char>, pos: int) -> bool {
    t matches Some(r) && 0 <= pos <= r.0 < r.1 <= s.len()
}

/// Whether a match was found and lies within the input at or after `pos`.
pub open spec fn advances(m: Option<MatchView>, s: Seq<char>, pos: int) -> bool {
    m matches Some(r) && 0 <= pos <= r.start < r.end <= s.len()
}

/// The node of `rule` over the input range `start..end`.
pub open spec fn composite(
    s: Seq<char>,
    rule: Rule,
    inner: Seq<PairView>,
    start: int,
    end: int,
) -> MatchView {
    MatchView { pair: PairView { rule, text: s.subrange(start, end), inner }, start, end }
}

/// The spellings of each operator rule, in the order in which they are tried.
pub open spec fn op_tokens(rule: Rule) -> Seq<Seq<char>> {
    match rule {
        Rule::LogicalOp => seq!["!="@, "&&"@, "||"@, "=="@, "<="@, ">="@, "<"@, ">"@],
        Rule::AddOp => seq!["+"@, "-"@],
        Rule::MultiplyOp => seq!["*"@, "/"@, "\\"@, "%"@],
        Rule::ExponentOp => seq!["**"@],
        Rule::BitwiseOp => seq!["&"@, "|"@, "^"@],
        Rule::ShiftOp => seq!["<<"@, ">>"@],
        Rule::UnaryOp => seq!["!"@, "-"@, "~"@],
        Rule::SymmetricConstraintOp => seq!["==="@],
        Rule::LeftConstraintOp => seq!["<=="@, "<--"@],
        Rule::RightConstraintOp => seq!["==>"@, "-->"@],
        Rule::AssignmentOp => seq!["**="@, "+="@, "-="@, "*="@, "/="@, "\\="@, "%="@, "="@],
        _ => Seq::empty(),
    }
}

/// End of the first spelling among `toks[i..]` that stands at `start`.
pub open spec fn first_token(s: Seq<char>, start: int, toks: Seq<Seq<char>>, i: int) -> Option<int>
    decreases toks.len() - i,
{
    if i < 0 || i >= toks.len() {
        None
    } else if toks[i].len() > 0 && has_token(s, start, toks[i]) {
        Some(start + toks[i].len())
    } else {
        first_token(s, start, toks, i + 1)
    }
}

/// An operator of `rule` as the next token after `pos`.
pub open spec fn operator(s: Seq<char>, pos: int, rule: Rule) -> Option<MatchView> {
    let start = skip_blanks(s, pos);
    match first_token(s, start, op_tokens(rule), 0) {
        Some(end) => Some(composite(s, rule, Seq::empty(), start, end)),
        None => None,
    }
}

/// End of the run of identifier characters that starts at `pos`.
pub open spec fn identifier_end(s: Seq<char>, pos: int) -> int
    decreases remaining(s, pos),
{
    if 0 <= pos < s.len() && is_ident_continue(s[pos]) {
        identifier_end(s, pos + 1)
    } else {
        pos
    }
}

/// End of the run of digits that starts at `pos`.
pub open spec fn digits_end(s: Seq<char>, pos: int) -> int
    decreases remaining(s, pos),
{
    if 0 <= pos < s.len() && is_digit(s[pos]) {
        digits_end(s, pos + 1)
    } else {
        pos
    }
}

/// An identifier as the next token after `pos`: a letter or underscore
/// followed by letters, digits and underscores.
pub open spec fn identifier(s: Seq<char>, pos: int) -> Option<MatchView> {
    let start = skip_blanks(s, pos);
    if 0 <= start < s.len() && is_ident_start(s[start]) {
        Some(composite(s, Rule::Identifier, Seq::empty(), start, identifier_end(s, start + 1)))
    } else {
        None
    }
}

/// A number as the next token after `pos`: one or more decimal digits.
pub open spec fn number(s: Seq<char>, pos: int) -> Option<MatchView> {
    let start = skip_blanks(s, pos);
    if 0 <= start < s.len() && is_digit(s[start]) {
        Some(composite(s, Rule::Number, Seq::empty(), start, digits_end(s, start + 1)))
    } else {
        None
    }
}

/// The rule of each binary layer of the precedence cascade.
pub open spec fn layer_rule(level: int) -> Rule {
    if level == 1 {
        Rule::LogicalExpr
    } else if level == 2 {
        Rule::ArithExpr
    } else if level == 3 {
        Rule::Term
    } else if level == 4 {
        Rule::Exponent
    } else if level == 5 {
        Rule::BitwiseExpr
    } else {
        Rule::ShiftExpr
    }
}

/// The operator rule of each binary layer.
pub open spec fn layer_op_rule(level: int) -> Rule {
    if level == 1 {
        Rule::LogicalOp
    } else if level == 2 {
        Rule::AddOp
    } else if level == 3 {
        Rule::MultiplyOp
    } else if level == 4 {
        Rule::ExponentOp
    } else if level == 5 {
        Rule::BitwiseOp
    } else {
        Rule::ShiftOp
    }
}

/// Additive and multiplicative layers take any number of operands; the other
/// binary layers take at most two.
pub open spec fn layer_is_chain(level: int) -> bool {
    level == 2 || level == 3
}

/// Termination rank of a layer: outer layers rank higher.
pub open spec fn rank(level: int) -> nat {
    if 0 <= level <= 8 {
        (20 - level) as nat
    } else {
        0
    }
}

/// The expression grammar, one layer per level:
///
/// ```text
/// 0  ternary  := logical ("?" ternary ":" ternary)?
/// 1  logical  := arith (logical_op arith)?
/// 2  arith    := term (add_op term)*
/// 3  term     := exponent (multiply_op exponent)*
/// 4  exponent := bitwise (exponent_op bitwise)?
/// 5  bitwise  := shift (bitwise_op shift)?
/// 6  shift    := unary (shift_op unary)?
/// 7  unary    := unary_op factor / factor
/// 8  factor   := "(" ternary ")" / component_instance / complex_variable / number
/// ```
///
/// Blanks may stand before every token. A choice takes its first alternative
/// that matches, a repetition as many rounds as match, and none is undone later.
pub open spec fn expression(s: Seq<char>, pos: int, level: int) -> Option<MatchView>
    decreases remaining(s, pos), rank(level), 0nat,
{
    if level < 0 || level > 8 || pos < 0 || pos > s.len() {
        None
    } else if level == 0 {
        let cond = expression(s, pos, 1);
        if !advances(cond, s, pos) {
            None
        } else {
            let c = cond.unwrap();
            let single = Some(composite(s, Rule::TernaryExpr, seq![c.pair], c.start, c.end));
            let q = token(s, c.end, "?"@);
            if !token_advances(q, s, c.end) {
                single
            } else {
                let t = expression(s, q.unwrap().1, 0);
                if !advances(t, s, q.unwrap().1) {
                    single
                } else {
                    let colon = token(s, t.unwrap().end, ":"@);
                    if !token_advances(colon, s, t.unwrap().end) {
                        single
                    } else {
                        let f = expression(s, colon.unwrap().1, 0);
                        if !advances(f, s, colon.unwrap().1) {
                            single
                        } else {
                            Some(
                                composite(
                                    s,
                                    Rule::TernaryExpr,
                                    seq![c.pair, t.unwrap().pair, f.unwrap().pair],
                                    c.start,
                                    f.unwrap().end,
                                ),
                            )
                        }
                    }
                }
            }
        }
    } else if level <= 6 {
        let first = expression(s, pos, level + 1);
        if !advances(first, s, pos) {
            None
        } else {
            let f = first.unwrap();
            let rest = operands(s, f.end, level, seq![f.pair]);
            Some(composite(s, layer_rule(level), rest.0, f.start, rest.1))
        }
    } else if level == 7 {
        let op = operator(s, pos, Rule::UnaryOp);
        let operand = if advances(op, s, pos) {
            expression(s, op.unwrap().end, 8)
        } else {
            None
        };
        if advances(op, s, pos) && advances(operand, s, op.unwrap().end) {
            Some(
                composite(
                    s,
                    Rule::UnaryExpr,
                    seq![op.unwrap().pair, operand.unwrap().pair],
                    op.unwrap().start,
                    operand.unwrap().end,
                ),
            )
        } else {
            let f = expression(s, pos, 8);
            if advances(f, s, pos) {
                Some(
                    composite(
                        s,
                        Rule::UnaryExpr,
                        seq![f.unwrap().pair],
                        f.unwrap().start,
                        f.unwrap().end,
                    ),
                )
            } else {
                None
            }
        }
    } else {
        let lp = token(s, pos, "("@);
        let inner = if token_advances(lp, s, pos) {
            expression(s, lp.unwrap().1, 0)
        } else {
            None
        };
        let rp = if token_advances(lp, s, pos) && advances(inner, s, lp.unwrap().1) {
            token(s, inner.unwrap().end, ")"@)
        } else {
            None
        };
        if token_advances(lp, s, pos) && advances(inner, s, lp.unwrap().1) && token_advances(
            rp,
            s,
            inner.unwrap().end,
        ) {
            Some(
                composite(
                    s,
                    Rule::Factor,
                    seq![inner.unwrap().pair],
                    lp.unwrap().0,
                    rp.unwrap().1,
                ),
            )
        } else {
            let ci = component_instance(s, pos);
            if advances(ci, s, pos) {
                Some(wrap(s, Rule::Factor, ci.unwrap()))
            } else {
                let cv = complex_variable(s, pos);
                if advances(cv, s, pos) {
                    Some(wrap(s, Rule::Factor, cv.unwrap()))
                } else {
                    let n = number(s, pos);
                    if advances(n, s, pos) {
                        Some(wrap(s, Rule::Factor, n.unwrap()))
                    } else {
                        None
                    }
                }
            }
        }
    }
}

/// The node of `rule` whose only child is `m`, over the same range.
pub open spec fn wrap(s: Seq<char>, rule: Rule, m: MatchView) -> MatchView {
    composite(s, rule, seq![m.pair], m.start, m.end)
}

/// The operator/operand rounds that follow the first operand of a binary
/// layer: the children gathered so far and the position reached.
pub open spec fn operands(s: Seq<char>, pos: int, level: int, acc: Seq<PairView>) -> (
    Seq<PairView>,
    int,
)
    decreases remaining(s, pos), rank(level), 1nat,
{
    if level < 1 || level > 6 || pos < 0 || pos > s.len() {
        (acc, pos)
    } else {
        let op = operator(s, pos, layer_op_rule(level));
        if !advances(op, s, pos) {
            (acc, pos)
        } else {
            let operand = expression(s, op.unwrap().end, level + 1);
            if !advances(operand, s, op.unwrap().end) {
                (acc, pos)
            } else {
                let grown = acc.push(op.unwrap().pair).push(operand.unwrap().pair);
                if layer_is_chain(level) {
                    operands(s, operand.unwrap().end, level, grown)
                } else {
                    (grown, operand.unwrap().end)
                }
            }
        }
    }
}

/// `component_instance := identifier "(" (ternary ("," ternary)*)? ")"`
pub open spec fn component_instance(s: Seq<char>, pos: int) -> Option<MatchView>
    decreases remaining(s, pos), 5nat, 0nat,
{
    let id = identifier(s, pos);
    if !advances(id, s, pos) {
        None
    } else {
        let name = id.unwrap();
        let lp = token(s, name.end, "("@);
        if !token_advances(lp, s, name.end) {
            None
        } else {
            let close = token(s, lp.unwrap().1, ")"@);
            if token_advances(close, s, lp.unwrap().1) {
                Some(
                    composite(
                        s,
                        Rule::ComponentInstance,
                        seq![name.pair],
                        name.start,
                        close.unwrap().1,
                    ),
                )
            } else {
                match arguments(s, lp.unwrap().1, seq![name.pair]) {
                    Some(args) => {
                        let rp = token(s, args.1, ")"@);
                        if token_advances(rp, s, args.1) {
                            Some(
                                composite(
                                    s,
                                    Rule::ComponentInstance,
                                    args.0,
                                    name.start,
                                    rp.unwrap().1,
                                ),
                            )
                        } else {
                            None
                        }
                    },
                    None => None,
                }
            }
        }
    }
}

/// One or more comma-separated expressions, appended to `acc`.
pub open spec fn arguments(s: Seq<char>, pos: int, acc: Seq<PairView>) -> Option<
    (Seq<PairView>, int),
>
    decreases remaining(s, pos), 30nat, 0nat,
{
    let a = expression(s, pos, 0);
    if !advances(a, s, pos) {
        None
    } else {
        let grown = acc.push(a.unwrap().pair);
        let comma = token(s, a.unwrap().end, ","@);
        if token_advances(comma, s, a.unwrap().end) {
            arguments(s, comma.unwrap().1, grown)
        } else {
            Some((grown, a.unwrap().end))
        }
    }
}

/// `complex_variable := identifier (array_declaration / "." identifier)*`
pub open spec fn complex_variable(s: Seq<char>, pos: int) -> Option<MatchView>
    decreases remaining(s, pos), 5nat, 0nat,
{
    let id = identifier(s, pos);
    if !advances(id, s, pos) {
        None
    } else {
        let rest = suffixes(s, id.unwrap().end, seq![id.unwrap().pair]);
        Some(composite(s, Rule::ComplexVariable, rest.0, id.unwrap().start, rest.1))
    }
}

/// The index and member suffixes of a complex variable, with
/// `array_declaration := "[" ternary "]"`.
pub open spec fn suffixes(s: Seq<char>, pos: int, acc: Seq<PairView>) -> (Seq<PairView>, int)
    decreases remaining(s, pos), 30nat, 0nat,
{
    let lb = token(s, pos, "["@);
    let idx = if token_advances(lb, s, pos) {
        expression(s, lb.unwrap().1, 0)
    } else {
        None
    };
    let rb = if token_advances(lb, s, pos) && advances(idx, s, lb.unwrap().1) {
        token(s, idx.unwrap().end, "]"@)
    } else {
        None
    };
    if token_advances(lb, s, pos) && advances(idx, s, lb.unwrap().1) && token_advances(
        rb,
        s,
        idx.unwrap().end,
    ) {
        suffixes(
            s,
            rb.unwrap().1,
            acc.push(
                composite(
                    s,
                    Rule::ArrayDeclaration,
                    seq![idx.unwrap().pair],
                    lb.unwrap().0,
                    rb.unwrap().1,
                ).pair,
            ),
        )
    } else {
        let dot = token(s, pos, "."@);
        let member = if token_advances(dot, s, pos) {
            identifier(s, dot.unwrap().1)
        } else {
            None
        };
        if token_advances(dot, s, pos) && advances(member, s, dot.unwrap().1) {
            suffixes(s, member.unwrap().end, acc.push(member.unwrap().pair))
        } else {
            (acc, pos)
        }
    }
}

/// Whether only blanks and at most one semicolon follow `pos`.
pub open spec fn finished(s: Seq<char>, pos: int) -> bool {
    let semi = token(s, pos, ";"@);
    let after = if token_advances(semi, s, pos) {
        semi.unwrap().1
    } else {
        pos
    };
    skip_blanks(s, after) == s.len()
}

/// The operator that joins the two sides of a statement. The spellings are
/// tried so that none hides a longer one: `===`, then `<==` `<--`, then
/// `==>` `-->`, then the assignment forms.
pub open spec fn statement_operator(s: Seq<char>, pos: int) -> Option<MatchView> {
    let sym = operator(s, pos, Rule::SymmetricConstraintOp);
    let left = operator(s, pos, Rule::LeftConstraintOp);
    let right = operator(s, pos, Rule::RightConstraintOp);
    if sym is Some {
        sym
    } else if left is Some {
        left
    } else if right is Some {
        right
    } else {
        operator(s, pos, Rule::AssignmentOp)
    }
}

/// The statement rule that an operator rule makes.
pub open spec fn statement_rule(op_rule: Rule) -> Rule {
    match op_rule {
        Rule::SymmetricConstraintOp => Rule::Assertion,
        Rule::LeftConstraintOp => Rule::Constraint,
        Rule::RightConstraintOp => Rule::Constraint,
        _ => Rule::Assignment,
    }
}

/// `"assert" "(" ternary ")" ";"?` over the whole input.
pub open spec fn assert_call(s: Seq<char>) -> Option<PairView> {
    let kw = token(s, 0, "assert"@);
    let lp = if token_advances(kw, s, 0) {
        token(s, kw.unwrap().1, "("@)
    } else {
        None
    };
    let e = if token_advances(kw, s, 0) && token_advances(lp, s, kw.unwrap().1) {
        expression(s, lp.unwrap().1, 0)
    } else {
        None
    };
    let rp = if token_advances(kw, s, 0) && token_advances(lp, s, kw.unwrap().1) && advances(
        e,
        s,
        lp.unwrap().1,
    ) {
        token(s, e.unwrap().end, ")"@)
    } else {
        None
    };
    if token_advances(kw, s, 0) && token_advances(lp, s, kw.unwrap().1) && advances(
        e,
        s,
        lp.unwrap().1,
    ) && token_advances(rp, s, e.unwrap().end) && finished(s, rp.unwrap().1) {
        Some(
            composite(
                s,
                Rule::Assertion,
                seq![e.unwrap().pair],
                kw.unwrap().0,
                rp.unwrap().1,
            ).pair,
        )
    } else {
        None
    }
}

/// The parse tree of a whole statement, if the text is one:
///
/// ```text
/// statement := "assert" "(" ternary ")" ";"?
///            / ternary ";"?
///            / ternary statement_operator ternary ";"?
/// ```
///
/// A bare expression yields its `TernaryExpr` node. Two sides joined by an
/// operator yield a `Constraint`, `Assignment` or `Assertion` node with the
/// children left, operator, right.
pub open spec fn statement_tree(s: Seq<char>) -> Option<PairView> {
    let call = assert_call(s);
    if call is Some {
        call
    } else {
        let left = expression(s, 0, 0);
        if !advances(left, s, 0) {
            None
        } else {
            let l = left.unwrap();
            if finished(s, l.end) {
                Some(l.pair)
            } else {
                let op = statement_operator(s, l.end);
                if !advances(op, s, l.end) {
                    None
                } else {
                    let right = expression(s, op.unwrap().end, 0);
                    if advances(right, s, op.unwrap().end) && finished(s, right.unwrap().end) {
                        Some(
                            composite(
                                s,
                                statement_rule(op.unwrap().pair.rule),
                                seq![l.pair, op.unwrap().pair, right.unwrap().pair],
                                l.start,
                                right.unwrap().end,
                            ).pair,
                        )
                    } else {
                        None
                    }
                }
            }
        }
    }
}

/// Builds a node and states its model.
pub fn make_pair(rule: Rule, text: String, inner: Vec<Pair>) -> (res: Pair)
    ensures
        res@ == (PairView { rule, text: text@, inner: pairs_view(inner) }),
        res.rule == rule,
        res.text == text,
        res.inner == inner,
{
    Pair { rule, text, inner }
}

/// Appends a node to a list of nodes.
pub fn push_pair(v: &mut Vec<Pair>, p: Pair)
    ensures
        pairs_view(*final(v)) == pairs_view(*old(v)).push(p@),
        final(v)@ == old(v)@.push(p),
{
    v.push(p);
    assert(pairs_view(*v) =~= pairs_view(*old(v)).push(p@));
}

/// The node of `rule` that covers `start..end` of the source.
fn make_match(text: &str, rule: Rule, inner: Vec<Pair>, start: usize, end: usize) -> (res: Match)
    requires
        start <= end <= text@.len(),
    ensures
        res@ == composite(text@, rule, pairs_view(inner), start as int, end as int),
{
    let piece = String::from_str(text.substring_char(start, end));
    Match { pair: make_pair(rule, piece, inner), start, end }
}

/// The childless node of `rule` that covers `start..end` of the source.
fn leaf_match(text: &str, rule: Rule, start: usize, end: usize) -> (res: Match)
    requires
        start <= end <= text@.len(),
    ensures
        res@ == composite(text@, rule, Seq::empty(), start as int, end as int),
{
    let inner: Vec<Pair> = Vec::new();
    assert(pairs_view(inner) =~= Seq::empty());
    make_match(text, rule, inner, start, end)
}

fn skip_blanks_exec(chars: &Vec<char>, pos: usize) -> (res: usize)
    requires
        pos <= chars.len(),
    ensures
        res == skip_blanks(chars@, pos as int),
        pos <= res <= chars.len(),
{
    let mut i = pos;
    while i < chars.len() && (chars[i] == ' ' || chars[i] == '\t' || chars[i] == '\n' || chars[i]
        == '\r')
        invariant
            pos <= i <= chars.len(),
            skip_blanks(chars@, i as int) == skip_blanks(chars@, pos as int),
        decreases chars.len() - i,
    {
        i += 1;
    }
    i
}

fn identifier_end_exec(chars: &Vec<char>, pos: usize) -> (res: usize)
    requires
        pos <= chars.len(),
    ensures
        res == identifier_end(chars@, pos as int),
        pos <= res <= chars.len(),
{
    let mut i = pos;
    while i < chars.len() && is_ident_continue_exec(chars[i])
        invariant
            pos <= i <= chars.len(),
            identifier_end(chars@, i as int) == identifier_end(chars@, pos as int),
        decreases chars.len() - i,
    {
        i += 1;
    }
    i
}

fn digits_end_exec(chars: &Vec<char>, pos: usize) -> (res: usize)
    requires
        pos <= chars.len(),
    ensures
        res == digits_end(chars@, pos as int),
        pos <= res <= chars.len(),
{
    let mut i = pos;
    while i < chars.len() && chars[i] >= '0' && chars[i] <= '9'
        invariant
            pos <= i <= chars.len(),
            digits_end(chars@, i as int) == digits_end(chars@, pos as int),
        decreases chars.len() - i,
    {
        i += 1;
    }
    i
}

fn is_ident_start_exec(c: char) -> (res: bool)
    ensures
        res == is_ident_start(c),
{
    (c >= 'a' && c <= 'z') || (c >= 'A' && c <= 'Z') || c == '_'
}

fn is_ident_continue_exec(c: char) -> (res: bool)
    ensures
        res == is_ident_continue(c),
{
    is_ident_start_exec(c) || (c >= '0' && c <= '9')
}

/// End of `lit` when it stands at `pos`.
fn has_token_exec(chars: &Vec<char>, pos: usize, lit: &str) -> (res: Option<usize>)
    requires
        pos <= chars.len(),
    ensures
        res == (if lit@.len() > 0 && has_token(chars@, pos as int, lit@) {
            Some((pos + lit@.len()) as usize)
        } else {
            None
        }),
        res matches Some(end) ==> pos < end <= chars.len(),
{
    let l = chars_of(lit);
    let n = l.len();
    if n == 0 || n > chars.len() - pos {
        return None;
    }
    let mut i: usize = 0;
    while i < n
        invariant
            i <= n,
            n == l.len(),
            l@ == lit@,
            pos + n <= chars.len(),
            chars@.subrange(pos as int, pos + i) == l@.subrange(0, i as int),
        decreases n - i,
    {
        if chars[pos + i] != l[i] {
            assert(chars@.subrange(pos as int, pos + n)[i as int] != l@[i as int]);
            return None;
        }
        i += 1;
        assert(chars@.subrange(pos as int, pos + i) =~= l@.subrange(0, i as int));
    }
    assert(l@.subrange(0, n as int) =~= l@);
    Some(pos + n)
}

/// The range of `lit` when it is the next token after `pos`.
fn token_exec(chars: &Vec<char>, pos: usize, lit: &str) -> (res: Option<(usize, usize)>)
    requires
        pos <= chars.len(),
    ensures
        match res {
            Some(r) => token(chars@, pos as int, lit@) == Some((r.0 as int, r.1 as int)),
            None => token(chars@, pos as int, lit@) is None,
        },
        res matches Some(r) ==> pos <= r.0 < r.1 <= chars.len(),
{
    let start = skip_blanks_exec(chars, pos);
    match has_token_exec(chars, start, lit) {
        Some(end) => Some((start, end)),
        None => None,
    }
}

/// The spellings of an operator rule.
fn op_token_list(rule: Rule) -> (res: Vec<&'static str>)
    ensures
        res@.len() == op_tokens(rule).len(),
        forall|i: int| 0 <= i < res@.len() ==> (#[trigger] res@[i])@ == op_tokens(rule)[i],
{
    match rule {
        Rule::LogicalOp => vec!["!=", "&&", "||", "==", "<=", ">=", "<", ">"],
        Rule::AddOp => vec!["+", "-"],
        Rule::MultiplyOp => vec!["*", "/", "\\", "%"],
        Rule::ExponentOp => vec!["**"],
        Rule::BitwiseOp => vec!["&", "|", "^"],
        Rule::ShiftOp => vec!["<<", ">>"],
        Rule::UnaryOp => vec!["!", "-", "~"],
        Rule::SymmetricConstraintOp => vec!["==="],
        Rule::LeftConstraintOp => vec!["<==", "<--"],
        Rule::RightConstraintOp => vec!["==>", "-->"],
        Rule::AssignmentOp => vec!["**=", "+=", "-=", "*=", "/=", "\\=", "%=", "="],
        _ => Vec::new(),
    }
}

/// An operator of `rule` as the next token after `pos`.
fn operator_exec(text: &str, chars: &Vec<char>, pos: usize, rule: Rule) -> (res: Option<Match>)
    requires
        chars@ == text@,
        pos <= chars.len(),
    ensures
        match_view(res) == operator(chars@, pos as int, rule),
        res matches Some(m) ==> pos <= m.start < m.end <= chars.len(),
{
    let start = skip_blanks_exec(chars, pos);
    let toks = op_token_list(rule);
    let mut i: usize = 0;
    while i < toks.len()
        invariant
            i <= toks.len(),
            pos <= start <= chars.len(),
            start == skip_blanks(chars@, pos as int),
            chars@ == text@,
            toks@.len() == op_tokens(rule).len(),
            forall|j: int| 0 <= j < toks@.len() ==> (#[trigger] toks@[j])@ == op_tokens(rule)[j],
            first_token(chars@, start as int, op_tokens(rule), i as int) == first_token(
                chars@,
                start as int,
                op_tokens(rule),
                0,
            ),
        decreases toks.len() - i,
    {
        match has_token_exec(chars, start, toks[i]) {
            Some(end) => {
                return Some(leaf_match(text, rule, start, end));
            },
            None => {},
        }
        i += 1;
    }
    None
}

/// An identifier as the next token after `pos`.
fn identifier_exec(text: &str, chars: &Vec<char>, pos: usize) -> (res: Option<Match>)
    requires
        chars@ == text@,
        pos <= chars.len(),
    ensures
        match_view(res) == identifier(chars@, pos as int),
        res matches Some(m) ==> pos <= m.start < m.end <= chars.len(),
{
    let start = skip_blanks_exec(chars, pos);
    if start < chars.len() && is_ident_start_exec(chars[start]) {
        let end = identifier_end_exec(chars, start + 1);
        Some(leaf_match(text, Rule::Identifier, start, end))
    } else {
        None
    }
}

/// A number as the next token after `pos`.
fn number_exec(text: &str, chars: &Vec<char>, pos: usize) -> (res: Option<Match>)
    requires
        chars@ == text@,
        pos <= chars.len(),
    ensures
        match_view(res) == number(chars@, pos as int),
        res matches Some(m) ==> pos <= m.start < m.end <= chars.len(),
{
    let start = skip_blanks_exec(chars, pos);
    if start < chars.len() && chars[start] >= '0' && chars[start] <= '9' {
        let end = digits_end_exec(chars, start + 1);
        Some(leaf_match(text, Rule::Number, start, end))
    } else {
        None
    }
}

/// A list with one node.
fn one(a: Pair) -> (res: Vec<Pair>)
    ensures
        pairs_view(res) == seq![a@],
{
    let mut v: Vec<Pair> = Vec::new();
    v.push(a);
    assert(pairs_view(v) =~= seq![a@]);
    v
}

/// A list with two nodes.
fn two(a: Pair, b: Pair) -> (res: Vec<Pair>)
    ensures
        pairs_view(res) == seq![a@, b@],
{
    let mut v: Vec<Pair> = Vec::new();
    v.push(a);
    v.push(b);
    assert(pairs_view(v) =~= seq![a@, b@]);
    v
}

/// A list with three nodes.
fn three(a: Pair, b: Pair, c: Pair) -> (res: Vec<Pair>)
    ensures
        pairs_view(res) == seq![a@, b@, c@],
{
    let mut v: Vec<Pair> = Vec::new();
    v.push(a);
    v.push(b);
    v.push(c);
    assert(pairs_view(v) =~= seq![a@, b@, c@]);
    v
}

fn layer_rule_exec(level: u8) -> (res: Rule)
    ensures
        res == layer_rule(level as int),
{
    if level == 1 {
        Rule::LogicalExpr
    } else if level == 2 {
        Rule::ArithExpr
    } else if level == 3 {
        Rule::Term
    } else if level == 4 {
        Rule::Exponent
    } else if level == 5 {
        Rule::BitwiseExpr
    } else {
        Rule::ShiftExpr
    }
}

fn layer_op_rule_exec(level: u8) -> (res: Rule)
    ensures
        res == layer_op_rule(level as int),
{
    if level == 1 {
        Rule::LogicalOp
    } else if level == 2 {
        Rule::AddOp
    } else if level == 3 {
        Rule::MultiplyOp
    } else if level == 4 {
        Rule::ExponentOp
    } else if level == 5 {
        Rule::BitwiseOp
    } else {
        Rule::ShiftOp
    }
}

/// The node of `rule` whose only child is `m`.
fn wrap_exec(text: &str, rule: Rule, m: Match) -> (res: Match)
    requires
        m.start <= m.end <= text@.len(),
    ensures
        res@ == wrap(text@, rule, m@),
        res.start == m.start,
        res.end == m.end,
{
    let start = m.start;
    let end = m.end;
    make_match(text, rule, one(m.pair), start, end)
}

/// Matches the layer `level` of the expression grammar at `pos`.
fn expression_exec(text: &str, chars: &Vec<char>, pos: usize, level: u8) -> (res: Option<
    Match,
>)
    requires
        chars@ == text@,
        pos <= chars.len(),
        level <= 8,
    ensures
        match_view(res) == expression(chars@, pos as int, level as int),
        res matches Some(m) ==> pos <= m.start < m.end <= chars.len(),
    decreases remaining(chars@, pos as int), rank(level as int), 0nat,
{
    if level == 0 {
        let c = match expression_exec(text, chars, pos, 1) {
            Some(c) => c,
            None => {
                return None;
            },
        };
        let mut branches: Option<(Match, Match)> = None;
        match token_exec(chars, c.end, "?") {
            Some(q) => {
                match expression_exec(text, chars, q.1, 0) {
                    Some(t) => {
                        match token_exec(chars, t.end, ":") {
                            Some(colon) => {
                                match expression_exec(text, chars, colon.1, 0) {
                                    Some(f) => {
                                        branches = Some((t, f));
                                    },
                                    None => {},
                                }
                            },
                            None => {},
                        }
                    },
                    None => {},
                }
            },
            None => {},
        }
        match branches {
            Some((t, f)) => {
                let start = c.start;
                let end = f.end;
                Some(
                    make_match(text, Rule::TernaryExpr, three(c.pair, t.pair, f.pair), start, end),
                )
            },
            None => Some(wrap_exec(text, Rule::TernaryExpr, c)),
        }
    } else if level <= 6 {
        let f = match expression_exec(text, chars, pos, level + 1) {
            Some(f) => f,
            None => {
                return None;
            },
        };
        let start = f.start;
        let (inner, end) = operands_exec(text, chars, f.end, level, one(f.pair));
        Some(make_match(text, layer_rule_exec(level), inner, start, end))
    } else if level == 7 {
        match operator_exec(text, chars, pos, Rule::UnaryOp) {
            Some(op) => {
                match expression_exec(text, chars, op.end, 8) {
                    Some(operand) => {
                        let start = op.start;
                        let end = operand.end;
                        return Some(
                            make_match(
                                text,
                                Rule::UnaryExpr,
                                two(op.pair, operand.pair),
                                start,
                                end,
                            ),
                        );
                    },
                    None => {},
                }
            },
            None => {},
        }
        match expression_exec(text, chars, pos, 8) {
            Some(f) => Some(wrap_exec(text, Rule::UnaryExpr, f)),
            None => None,
        }
    } else {
        match token_exec(chars, pos, "(") {
            Some(lp) => {
                match expression_exec(text, chars, lp.1, 0) {
                    Some(inner) => {
                        match token_exec(chars, inner.end, ")") {
                            Some(rp) => {
                                return Some(
                                    make_match(text, Rule::Factor, one(inner.pair), lp.0, rp.1),
                                );
                            },
                            None => {},
                        }
                    },
                    None => {},
                }
            },
            None => {},
        }
        match component_instance_exec(text, chars, pos) {
            Some(ci) => {
                return Some(wrap_exec(text, Rule::Factor, ci));
            },
            None => {},
        }
        match complex_variable_exec(text, chars, pos) {
            Some(cv) => {
                return Some(wrap_exec(text, Rule::Factor, cv));
            },
            None => {},
        }
        match number_exec(text, chars, pos) {
            Some(n) => Some(wrap_exec(text, Rule::Factor, n)),
            None => None,
        }
    }
}

/// Gathers the operator/operand rounds of a binary layer.
fn operands_exec(text: &str, chars: &Vec<char>, pos: usize, level: u8, acc: Vec<Pair>) -> (res: (
    Vec<Pair>,
    usize,
))
    requires
        chars@ == text@,
        pos <= chars.len(),
        1 <= level <= 6,
    ensures
        (pairs_view(res.0), res.1 as int) == operands(
            chars@,
            pos as int,
            level as int,
            pairs_view(acc),
        ),
        pos <= res.1 <= chars.len(),
    decreases remaining(chars@, pos as int), rank(level as int), 1nat,
{
    let op = match operator_exec(text, chars, pos, layer_op_rule_exec(level)) {
        Some(op) => op,
        None => {
            return (acc, pos);
        },
    };
    let operand = match expression_exec(text, chars, op.end, level + 1) {
        Some(operand) => operand,
        None => {
            return (acc, pos);
        },
    };
    let end = operand.end;
    let mut grown = acc;
    push_pair(&mut grown, op.pair);
    push_pair(&mut grown, operand.pair);
    if level == 2 || level == 3 {
        operands_exec(text, chars, end, level, grown)
    } else {
        (grown, end)
    }
}

/// Matches a template instantiation at `pos`.
fn component_instance_exec(text: &str, chars: &Vec<char>, pos: usize) -> (res: Option<Match>)
    requires
        chars@ == text@,
        pos <= chars.len(),
    ensures
        match_view(res) == component_instance(chars@, pos as int),
        res matches Some(m) ==> pos <= m.start < m.end <= chars.len(),
    decreases remaining(chars@, pos as int), 5nat, 0nat,
{
    let name = match identifier_exec(text, chars, pos) {
        Some(name) => name,
        None => {
            return None;
        },
    };
    let lp = match token_exec(chars, name.end, "(") {
        Some(lp) => lp,
        None => {
            return None;
        },
    };
    let start = name.start;
    match token_exec(chars, lp.1, ")") {
        Some(close) => {
            return Some(make_match(text, Rule::ComponentInstance, one(name.pair), start, close.1));
        },
        None => {},
    }
    match arguments_exec(text, chars, lp.1, one(name.pair)) {
        Some(args) => {
            match token_exec(chars, args.1, ")") {
                Some(rp) => Some(make_match(text, Rule::ComponentInstance, args.0, start, rp.1)),
                None => None,
            }
        },
        None => None,
    }
}

/// Matches one or more comma-separated expressions.
fn arguments_exec(text: &str, chars: &Vec<char>, pos: usize, acc: Vec<Pair>) -> (res: Option<
    (Vec<Pair>, usize),
>)
    requires
        chars@ == text@,
        pos <= chars.len(),
    ensures
        match res {
            Some(r) => arguments(chars@, pos as int, pairs_view(acc)) == Some(
                (pairs_view(r.0), r.1 as int),
            ),
            None => arguments(chars@, pos as int, pairs_view(acc)) is None,
        },
        res matches Some(r) ==> pos < r.1 <= chars.len(),
    decreases remaining(chars@, pos as int), 30nat, 0nat,
{
    let a = match expression_exec(text, chars, pos, 0) {
        Some(a) => a,
        None => {
            return None;
        },
    };
    let end = a.end;
    let mut grown = acc;
    push_pair(&mut grown, a.pair);
    match token_exec(chars, end, ",") {
        Some(comma) => arguments_exec(text, chars, comma.1, grown),
        None => Some((grown, end)),
    }
}

/// Matches a variable reference with its index and member suffixes.
fn complex_variable_exec(text: &str, chars: &Vec<char>, pos: usize) -> (res: Option<Match>)
    requires
        chars@ == text@,
        pos <= chars.len(),
    ensures
        match_view(res) == complex_variable(chars@, pos as int),
        res matches Some(m) ==> pos <= m.start < m.end <= chars.len(),
    decreases remaining(chars@, pos as int), 5nat, 0nat,
{
    let id = match identifier_exec(text, chars, pos) {
        Some(id) => id,
        None => {
            return None;
        },
    };
    let start = id.start;
    let (inner, end) = suffixes_exec(text, chars, id.end, one(id.pair));
    Some(make_match(text, Rule::ComplexVariable, inner, start, end))
}

/// Gathers the index and member suffixes of a variable reference.
fn suffixes_exec(text: &str, chars: &Vec<char>, pos: usize, acc: Vec<Pair>) -> (res: (
    Vec<Pair>,
    usize,
))
    requires
        chars@ == text@,
        pos <= chars.len(),
    ensures
        (pairs_view(res.0), res.1 as int) == suffixes(chars@, pos as int, pairs_view(acc)),
        pos <= res.1 <= chars.len(),
    decreases remaining(chars@, pos as int), 30nat, 0nat,
{
    match token_exec(chars, pos, "[") {
        Some(lb) => {
            match expression_exec(text, chars, lb.1, 0) {
                Some(idx) => {
                    match token_exec(chars, idx.end, "]") {
                        Some(rb) => {
                            let node = make_match(
                                text,
                                Rule::ArrayDeclaration,
                                one(idx.pair),
                                lb.0,
                                rb.1,
                            );
                            let mut grown = acc;
                            push_pair(&mut grown, node.pair);
                            return suffixes_exec(text, chars, rb.1, grown);
                        },
                        None => {},
                    }
                },
                None => {},
            }
        },
        None => {},
    }
    match token_exec(chars, pos, ".") {
        Some(dot) => {
            match identifier_exec(text, chars, dot.1) {
                Some(member) => {
                    let end = member.end;
                    let mut grown = acc;
                    push_pair(&mut grown, member.pair);
                    return suffixes_exec(text, chars, end, grown);
                },
                None => {},
            }
        },
        None => {},
    }
    (acc, pos)
}

/// Whether only blanks and at most one semicolon follow `pos`.
fn finished_exec(chars: &Vec<char>, pos: usize) -> (res: bool)
    requires
        pos <= chars.len(),
    ensures
        res == finished(chars@, pos as int),
{
    let after = match token_exec(chars, pos, ";") {
        Some(semi) => semi.1,
        None => pos,
    };
    skip_blanks_exec(chars, after) == chars.len()
}

/// Matches the operator that joins the two sides of a statement.
fn statement_operator_exec(text: &str, chars: &Vec<char>, pos: usize) -> (res: Option<Match>)
    requires
        chars@ == text@,
        pos <= chars.len(),
    ensures
        match_view(res) == statement_operator(chars@, pos as int),
        res matches Some(m) ==> pos <= m.start < m.end <= chars.len(),
{
    match operator_exec(text, chars, pos, Rule::SymmetricConstraintOp) {
        Some(m) => {
            return Some(m);
        },
        None => {},
    }
    match operator_exec(text, chars, pos, Rule::LeftConstraintOp) {
        Some(m) => {
            return Some(m);
        },
        None => {},
    }
    match operator_exec(text, chars, pos, Rule::RightConstraintOp) {
        Some(m) => {
            return Some(m);
        },
        None => {},
    }
    operator_exec(text, chars, pos, Rule::AssignmentOp)
}

fn statement_rule_exec(op_rule: Rule) -> (res: Rule)
    ensures
        res == statement_rule(op_rule),
{
    match op_rule {
        Rule::SymmetricConstraintOp => Rule::Assertion,
        Rule::LeftConstraintOp => Rule::Constraint,
        Rule::RightConstraintOp => Rule::Constraint,
        _ => Rule::Assignment,
    }
}

/// Matches `assert(...)` over the whole input.
fn assert_call_exec(text: &str, chars: &Vec<char>) -> (res: Option<Pair>)
    requires
        chars@ == text@,
    ensures
        match res {
            Some(p) => assert_call(chars@) == Some(p@),
            None => assert_call(chars@) is None,
        },
{
    let kw = match token_exec(chars, 0, "assert") {
        Some(kw) => kw,
        None => {
            return None;
        },
    };
    let lp = match token_exec(chars, kw.1, "(") {
        Some(lp) => lp,
        None => {
            return None;
        },
    };
    let e = match expression_exec(text, chars, lp.1, 0) {
        Some(e) => e,
        None => {
            return None;
        },
    };
    let rp = match token_exec(chars, e.end, ")") {
        Some(rp) => rp,
        None => {
            return None;
        },
    };
    if finished_exec(chars, rp.1) {
        Some(make_match(text, Rule::Assertion, one(e.pair), kw.0, rp.1).pair)
    } else {
        None
    }
}

/// The recursive-descent parser of the statement grammar.
pub struct ExpressionParser;

impl ExpressionParser {
    /// Parses one statement. The result is the parse tree that the grammar
    /// assigns to the text, and `None` exactly when the text is no statement.
    pub fn parse(input: &str) -> (res: Option<Pair>)
        ensures
            match res {
                Some(p) => statement_tree(input@) == Some(p@),
                None => statement_tree(input@) is None,
            },
    {
        let chars = chars_of(input);
        match assert_call_exec(input, &chars) {
            Some(p) => {
                return Some(p);
            },
            None => {},
        }
        let l = match expression_exec(input, &chars, 0, 0) {
            Some(l) => l,
            None => {
                return None;
            },
        };
        if finished_exec(&chars, l.end) {
            return Some(l.pair);
        }
        let op = match statement_operator_exec(input, &chars, l.end) {
            Some(op) => op,
            None => {
                return None;
            },
        };
        let right = match expression_exec(input, &chars, op.end, 0) {
            Some(right) => right,
            None => {
                return None;
            },
        };
        if finished_exec(&chars, right.end) {
            let rule = statement_rule_exec(op.pair.rule);
            let start = l.start;
            let end = right.end;
            Some(make_match(input, rule, three(l.pair, op.pair, right.pair), start, end).pair)
        } else {
            None
        }
    }
}

/// Where one of the spellings `toks[i..]` stands at `start`, the text up to
/// the end that is found is one of them.
pub proof fn lemma_first_token_is_spelled(
    s: Seq<char>,
    start: int,
    toks: Seq<Seq<char>>,
    i: int,
)
    requires
        0 <= i,
    ensures
        match first_token(s, start, toks, i) {
            Some(end) => exists|k: int|
                i <= k < toks.len() && s.subrange(start, end) == #[trigger] toks[k],
            None => true,
        },
    decreases toks.len() - i,
{
    if i < toks.len() {
        if toks[i].len() > 0 && has_token(s, start, toks[i]) {
            assert(s.subrange(start, start + toks[i].len()) == toks[i]);
        } else {
            lemma_first_token_is_spelled(s, start, toks, i + 1);
        }
    }
}

/// An operator node of the grammar holds one of the spellings of its rule,
/// and nothing inside.
pub proof fn lemma_operator_is_spelled(s: Seq<char>, pos: int, rule: Rule)
    ensures
        match operator(s, pos, rule) {
            Some(m) => {
                &&& m.pair.rule == rule
                &&& m.pair.inner.len() == 0
                &&& exists|k: int|
                    0 <= k < op_tokens(rule).len() && m.pair.text == #[trigger] op_tokens(rule)[k]
            },
            None => true,
        },
{
    lemma_first_token_is_spelled(s, skip_blanks(s, pos), op_tokens(rule), 0);
}

} // verus!
