//! Arithmetic expressions typed into a numeric field: numbers, `+ - * /`,
//! parentheses and unary signs, parsed by recursive descent into a tree.
//!
//! Number literals are kept as the characters that were typed; turning
//! them into values (and evaluating the tree) is left to the caller.
use vstd::prelude::*;

verus! {

/// Characters with the Unicode `White_Space` property.
pub open spec fn is_space_spec(c: char) -> bool {
    let u = c as u32;
    ||| 0x9 <= u <= 0xd
    ||| u == 0x20
    ||| u == 0x85
    ||| u == 0xa0
    ||| u == 0x1680
    ||| 0x2000 <= u <= 0x200a
    ||| u == 0x2028
    ||| u == 0x2029
    ||| u == 0x202f
    ||| u == 0x205f
    ||| u == 0x3000
}

/// An ASCII digit or a decimal point: the characters of a number literal.
pub open spec fn is_numeral_spec(c: char) -> bool {
    let u = c as u32;
    (0x30 <= u <= 0x39) || u == 0x2e
}

/// Whether `c` is white space (same set as `char::is_whitespace`).
pub fn is_space(c: char) -> (r: bool)
    ensures
        r == is_space_spec(c),
{
    let u = c as u32;
    (0x9 <= u && u <= 0xd) || u == 0x20 || u == 0x85 || u == 0xa0 || u == 0x1680 || (0x2000 <= u
        && u <= 0x200a) || u == 0x2028 || u == 0x2029 || u == 0x202f || u == 0x205f || u == 0x3000
}

/// Whether `c` may appear in a number literal.
pub fn is_numeral(c: char) -> (r: bool)
    ensures
        r == is_numeral_spec(c),
{
    let u = c as u32;
    (0x30 <= u && u <= 0x39) || u == 0x2e
}

/// Whether typing `c` into an idle field should start entering a number:
/// a digit, a sign, a decimal point or an opening parenthesis.
pub fn starts_number(c: char) -> (r: bool)
    ensures
        r == ((0x30 <= (c as u32) <= 0x39) || c == '-' || c == '+' || c == '.' || c == '('),
{
    let u = c as u32;
    (0x30 <= u && u <= 0x39) || c == '-' || c == '+' || c == '.' || c == '('
}

/// Syntax tree of a parsed expression. Parentheses and unary `+` leave no node.
#[derive(Debug)]
pub enum Expr {
    Number(Vec<char>),
    Add(Box<Expr>, Box<Expr>),
    Sub(Box<Expr>, Box<Expr>),
    Mul(Box<Expr>, Box<Expr>),
    Div(Box<Expr>, Box<Expr>),
    Neg(Box<Expr>),
}

/// Mathematical model of [`Expr`].
pub enum SpecExpr {
    Number(Seq<char>),
    Add(Box<SpecExpr>, Box<SpecExpr>),
    Sub(Box<SpecExpr>, Box<SpecExpr>),
    Mul(Box<SpecExpr>, Box<SpecExpr>),
    Div(Box<SpecExpr>, Box<SpecExpr>),
    Neg(Box<SpecExpr>),
}

impl Expr {
    pub open spec fn model(&self) -> SpecExpr
        decreases self,
    {
        match self {
            Expr::Number(v) => SpecExpr::Number(v@),
            Expr::Add(a, b) => SpecExpr::Add(Box::new(a.model()), Box::new(b.model())),
            Expr::Sub(a, b) => SpecExpr::Sub(Box::new(a.model()), Box::new(b.model())),
            Expr::Mul(a, b) => SpecExpr::Mul(Box::new(a.model()), Box::new(b.model())),
            Expr::Div(a, b) => SpecExpr::Div(Box::new(a.model()), Box::new(b.model())),
            Expr::Neg(a) => SpecExpr::Neg(Box::new(a.model())),
        }
    }
}

impl View for Expr {
    type V = SpecExpr;

    open spec fn view(&self) -> SpecExpr {
        self.model()
    }
}

/// Characters left from `pos` to the end of `s` (0 past the end).
pub open spec fn remaining(s: Seq<char>, pos: int) -> nat {
    if pos < s.len() {
        (s.len() - pos) as nat
    } else {
        0
    }
}

/// `x`, but never before `lo`.
pub open spec fn not_before(lo: int, x: int) -> int {
    if x >= lo {
        x
    } else {
        lo
    }
}

/// Number of consecutive white-space characters of `s` starting at `pos`.
pub open spec fn spaces_from(s: Seq<char>, pos: int) -> nat
    decreases remaining(s, pos),
{
    if 0 <= pos < s.len() && is_space_spec(s[pos]) {
        1 + spaces_from(s, pos + 1)
    } else {
        0
    }
}

/// Number of consecutive number-literal characters of `s` starting at `pos`.
pub open spec fn numerals_from(s: Seq<char>, pos: int) -> nat
    decreases remaining(s, pos),
{
    if 0 <= pos < s.len() && is_numeral_spec(s[pos]) {
        1 + numerals_from(s, pos + 1)
    } else {
        0
    }
}

/// `s[pos] == c`, with `pos` in bounds.
pub open spec fn char_at(s: Seq<char>, pos: int, c: char) -> bool {
    0 <= pos < s.len() && s[pos] == c
}

/// number := spaces [0-9.]+
pub open spec fn parse_number(s: Seq<char>, pos: int) -> Option<(SpecExpr, int)> {
    let p = pos + spaces_from(s, pos);
    let n = numerals_from(s, p);
    if n == 0 {
        None
    } else {
        Some((SpecExpr::Number(s.subrange(p, p + n)), p + n))
    }
}

/// factor := spaces ( '(' expr spaces ')' | '-' factor | '+' factor | number )
///
/// Each parser returns the tree and the position just past what it read.
pub open spec fn parse_factor(s: Seq<char>, pos: int) -> Option<(SpecExpr, int)>
    decreases remaining(s, pos), 0int,
{
    let p = pos + spaces_from(s, pos);
    if char_at(s, p, '(') {
        match parse_expr(s, p + 1) {
            Some((e, q)) => {
                let r = q + spaces_from(s, q);
                if char_at(s, r, ')') {
                    Some((e, r + 1))
                } else {
                    None
                }
            },
            None => None,
        }
    } else if char_at(s, p, '-') {
        match parse_factor(s, p + 1) {
            Some((e, q)) => Some((SpecExpr::Neg(Box::new(e)), q)),
            None => None,
        }
    } else if char_at(s, p, '+') {
        parse_factor(s, p + 1)
    } else {
        parse_number(s, pos)
    }
}

/// term := factor ( spaces ('*' | '/') factor )*
pub open spec fn parse_term(s: Seq<char>, pos: int) -> Option<(SpecExpr, int)>
    decreases remaining(s, pos), 2int,
{
    match parse_factor(s, pos) {
        Some((f, q)) => parse_term_rest(s, not_before(pos, q), f),
        None => None,
    }
}

/// The `( spaces ('*' | '/') factor )*` tail of a term, folded left onto `acc`.
pub open spec fn parse_term_rest(s: Seq<char>, pos: int, acc: SpecExpr) -> Option<(SpecExpr, int)>
    decreases remaining(s, pos), 1int,
{
    let p = pos + spaces_from(s, pos);
    if char_at(s, p, '*') {
        match parse_factor(s, p + 1) {
            Some((f, q)) => parse_term_rest(
                s,
                not_before(p + 1, q),
                SpecExpr::Mul(Box::new(acc), Box::new(f)),
            ),
            None => None,
        }
    } else if char_at(s, p, '/') {
        match parse_factor(s, p + 1) {
            Some((f, q)) => parse_term_rest(
                s,
                not_before(p + 1, q),
                SpecExpr::Div(Box::new(acc), Box::new(f)),
            ),
            None => None,
        }
    } else {
        Some((acc, p))
    }
}

/// expr := term ( spaces ('+' | '-') term )*
pub open spec fn parse_expr(s: Seq<char>, pos: int) -> Option<(SpecExpr, int)>
    decreases remaining(s, pos), 4int,
{
    match parse_term(s, pos) {
        Some((t, q)) => parse_expr_rest(s, not_before(pos, q), t),
        None => None,
    }
}

/// The `( spaces ('+' | '-') term )*` tail of an expression, folded left onto `acc`.
pub open spec fn parse_expr_rest(s: Seq<char>, pos: int, acc: SpecExpr) -> Option<(SpecExpr, int)>
    decreases remaining(s, pos), 3int,
{
    let p = pos + spaces_from(s, pos);
    if char_at(s, p, '+') {
        match parse_term(s, p + 1) {
            Some((t, q)) => parse_expr_rest(
                s,
                not_before(p + 1, q),
                SpecExpr::Add(Box::new(acc), Box::new(t)),
            ),
            None => None,
        }
    } else if char_at(s, p, '-') {
        match parse_term(s, p + 1) {
            Some((t, q)) => parse_expr_rest(
                s,
                not_before(p + 1, q),
                SpecExpr::Sub(Box::new(acc), Box::new(t)),
            ),
            None => None,
        }
    } else {
        Some((acc, p))
    }
}

/// A whole input: an expression followed only by white space.
pub open spec fn parse_input(s: Seq<char>) -> Option<SpecExpr> {
    match parse_expr(s, 0) {
        Some((e, q)) => if q + spaces_from(s, q) == s.len() {
            Some(e)
        } else {
            None
        },
        None => None,
    }
}

/// After skipping white space, the next character (if any) is not white space.
pub proof fn lemma_spaces_stop(s: Seq<char>, pos: int)
    requires
        0 <= pos,
    ensures
        spaces_from(s, pos + spaces_from(s, pos)) == 0,
        pos + spaces_from(s, pos) <= s.len() || pos > s.len(),
    decreases remaining(s, pos),
{
    if 0 <= pos < s.len() && is_space_spec(s[pos]) {
        lemma_spaces_stop(s, pos + 1);
    }
}

/// Reading position of a recursive-descent parse over a character buffer.
pub struct Parser {
    chars: Vec<char>,
    pos: usize,
}

impl Parser {
    /// The characters being parsed.
    pub closed spec fn text(&self) -> Seq<char> {
        self.chars@
    }

    /// The index of the next character to read.
    pub closed spec fn cursor(&self) -> int {
        self.pos as int
    }

    /// The cursor is never negative and fits a machine index.
    pub proof fn lemma_cursor_bounds(&self)
        ensures
            0 <= self.cursor() <= usize::MAX,
    {
    }

    /// A parser at the start of `chars`.
    pub fn new(chars: Vec<char>) -> (p: Parser)
        ensures
            p.text() == chars@,
            p.cursor() == 0,
    {
        Parser { chars, pos: 0 }
    }

    /// The next character, if any is left.
    pub fn peek(&self) -> (c: Option<char>)
        ensures
            c == (if 0 <= self.cursor() < self.text().len() {
                Some(self.text()[self.cursor()])
            } else {
                None
            }),
    {
        if self.pos < self.chars.len() {
            Some(self.chars[self.pos])
        } else {
            None
        }
    }

    /// Advance past white space.
    pub fn skip_ws(&mut self)
        ensures
            final(self).text() == old(self).text(),
            final(self).cursor() == old(self).cursor() + spaces_from(
                old(self).text(),
                old(self).cursor(),
            ),
    {
        let ghost s = self.chars@;
        let ghost start = self.pos as int;
        while self.pos < self.chars.len() && is_space(self.chars[self.pos])
            invariant
                self.chars@ == s,
                start <= self.pos,
                self.pos + spaces_from(s, self.pos as int) == start + spaces_from(s, start),
            decreases self.chars.len() - self.pos,
        {
            self.pos = self.pos + 1;
        }
    }
}


impl Parser {
    /// Read a number literal (after optional white space) as a leaf.
    pub fn number(&mut self) -> (r: Option<Expr>)
        requires
            old(self).cursor() <= old(self).text().len(),
        ensures
            final(self).text() == old(self).text(),
            old(self).cursor() <= final(self).cursor() <= final(self).text().len(),
            match parse_number(old(self).text(), old(self).cursor()) {
                Some((e, q)) => r is Some && r->0@ == e && final(self).cursor() == q,
                None => r is None,
            },
    {
        let ghost s = self.chars@;
        proof {
            lemma_spaces_stop(s, self.pos as int);
        }
        self.skip_ws();
        let start = self.pos;
        let mut digits: Vec<char> = Vec::new();
        while self.pos < self.chars.len() && is_numeral(self.chars[self.pos])
            invariant
                self.chars@ == s,
                start <= self.pos <= s.len(),
                digits@ == s.subrange(start as int, self.pos as int),
                self.pos + numerals_from(s, self.pos as int) == start + numerals_from(
                    s,
                    start as int,
                ),
            decreases self.chars.len() - self.pos,
        {
            digits.push(self.chars[self.pos]);
            self.pos = self.pos + 1;
            assert(digits@ =~= s.subrange(start as int, self.pos as int));
        }
        if self.pos == start {
            None
        } else {
            Some(Expr::Number(digits))
        }
    }

    /// factor := spaces ( '(' expr spaces ')' | '-' factor | '+' factor | number )
    pub fn factor(&mut self) -> (r: Option<Expr>)
        requires
            old(self).cursor() <= old(self).text().len(),
        ensures
            final(self).text() == old(self).text(),
            old(self).cursor() <= final(self).cursor() <= final(self).text().len(),
            match parse_factor(old(self).text(), old(self).cursor()) {
                Some((e, q)) => r is Some && r->0@ == e && final(self).cursor() == q,
                None => r is None,
            },
        decreases remaining(old(self).text(), old(self).cursor()), 0int,
    {
        let ghost s = self.chars@;
        let ghost pos0 = self.pos as int;
        proof {
            lemma_spaces_stop(s, pos0);
        }
        self.skip_ws();
        let c = self.peek();
        match c {
            Some('(') => {
                assert(self.pos < self.chars.len());
                self.pos = self.pos + 1;
                let v = match self.expr() {
                    Some(v) => v,
                    None => return None,
                };
                proof {
                    lemma_spaces_stop(s, self.pos as int);
                }
                self.skip_ws();
                if self.peek() == Some(')') {
                    self.pos = self.pos + 1;
                    Some(v)
                } else {
                    None
                }
            },
            Some('-') => {
                assert(self.pos < self.chars.len());
                self.pos = self.pos + 1;
                match self.factor() {
                    Some(v) => Some(Expr::Neg(Box::new(v))),
                    None => None,
                }
            },
            Some('+') => {
                assert(self.pos < self.chars.len());
                self.pos = self.pos + 1;
                self.factor()
            },
            _ => {
                self.number()
            },
        }
    }

    /// term := factor ( spaces ('*' | '/') factor )*
    pub fn term(&mut self) -> (r: Option<Expr>)
        requires
            old(self).cursor() <= old(self).text().len(),
        ensures
            final(self).text() == old(self).text(),
            old(self).cursor() <= final(self).cursor() <= final(self).text().len(),
            match parse_term(old(self).text(), old(self).cursor()) {
                Some((e, q)) => r is Some && r->0@ == e && final(self).cursor() == q,
                None => r is None,
            },
        decreases remaining(old(self).text(), old(self).cursor()), 2int,
    {
        let ghost s = self.chars@;
        let ghost pos0 = self.pos as int;
        let mut v = match self.factor() {
            Some(v) => v,
            None => return None,
        };
        let ghost target = parse_term_rest(s, self.pos as int, v@);
        loop
            invariant_except_break
                parse_term_rest(s, self.pos as int, v@) == target,
            invariant
                self.chars@ == s,
                s == old(self).chars@,
                pos0 == old(self).pos,
                pos0 <= self.pos <= s.len(),
                target == parse_term(s, pos0),
            ensures
                self.chars@ == s,
                pos0 <= self.pos <= s.len(),
                target == Some((v@, self.pos as int)),
            decreases s.len() - self.pos,
        {
            let ghost here = self.pos as int;
            proof {
                lemma_spaces_stop(s, here);
            }
            self.skip_ws();
            let c = self.peek();
            match c {
                Some('*') => {
                    assert(self.pos < self.chars.len());
                    self.pos = self.pos + 1;
                    match self.factor() {
                        Some(f) => {
                            v = Expr::Mul(Box::new(v), Box::new(f));
                        },
                        None => return None,
                    }
                },
                Some('/') => {
                    assert(self.pos < self.chars.len());
                    self.pos = self.pos + 1;
                    match self.factor() {
                        Some(f) => {
                            v = Expr::Div(Box::new(v), Box::new(f));
                        },
                        None => return None,
                    }
                },
                _ => break,
            }
        }
        Some(v)
    }

    /// expr := term ( spaces ('+' | '-') term )*
    pub fn expr(&mut self) -> (r: Option<Expr>)
        requires
            old(self).cursor() <= old(self).text().len(),
        ensures
            final(self).text() == old(self).text(),
            old(self).cursor() <= final(self).cursor() <= final(self).text().len(),
            match parse_expr(old(self).text(), old(self).cursor()) {
                Some((e, q)) => r is Some && r->0@ == e && final(self).cursor() == q,
                None => r is None,
            },
        decreases remaining(old(self).text(), old(self).cursor()), 4int,
    {
        let ghost s = self.chars@;
        let ghost pos0 = self.pos as int;
        let mut v = match self.term() {
            Some(v) => v,
            None => return None,
        };
        let ghost target = parse_expr_rest(s, self.pos as int, v@);
        loop
            invariant_except_break
                parse_expr_rest(s, self.pos as int, v@) == target,
            invariant
                self.chars@ == s,
                s == old(self).chars@,
                pos0 == old(self).pos,
                pos0 <= self.pos <= s.len(),
                target == parse_expr(s, pos0),
            ensures
                self.chars@ == s,
                pos0 <= self.pos <= s.len(),
                target == Some((v@, self.pos as int)),
            decreases s.len() - self.pos,
        {
            let ghost here = self.pos as int;
            proof {
                lemma_spaces_stop(s, here);
            }
            self.skip_ws();
            let c = self.peek();
            match c {
                Some('+') => {
                    assert(self.pos < self.chars.len());
                    self.pos = self.pos + 1;
                    match self.term() {
                        Some(t) => {
                            v = Expr::Add(Box::new(v), Box::new(t));
                        },
                        None => return None,
                    }
                },
                Some('-') => {
                    assert(self.pos < self.chars.len());
                    self.pos = self.pos + 1;
                    match self.term() {
                        Some(t) => {
                            v = Expr::Sub(Box::new(v), Box::new(t));
                        },
                        None => return None,
                    }
                },
                _ => break,
            }
        }
        Some(v)
    }
}

/// Parse a whole typed entry such as `100/2` or `10+2*3`: one expression,
/// optionally surrounded by white space. `None` when the text is empty,
/// blank, or not an expression of the grammar.
pub fn parse_expr_chars(chars: &Vec<char>) -> (r: Option<Expr>)
    ensures
        match parse_input(chars@) {
            Some(e) => r is Some && r->0@ == e,
            None => r is None,
        },
{
    let mut p = Parser::new(chars.clone());
    let e = match p.expr() {
        Some(e) => e,
        None => return None,
    };
    p.skip_ws();
    if p.pos == p.chars.len() {
        Some(e)
    } else {
        None
    }
}


proof fn lemma_all_numerals(s: Seq<char>, pos: int)
    requires
        0 <= pos <= s.len(),
        forall|i: int| pos <= i < s.len() ==> is_numeral_spec(#[trigger] s[i]),
    ensures
        numerals_from(s, pos) == s.len() - pos,
    decreases s.len() - pos,
{
    if pos < s.len() {
        lemma_all_numerals(s, pos + 1);
    }
}

/// A non-empty run of digits and decimal points is read as one number
/// literal holding exactly those characters.
pub proof fn lemma_number_only(s: Seq<char>)
    requires
        s.len() > 0,
        forall|i: int| 0 <= i < s.len() ==> is_numeral_spec(#[trigger] s[i]),
    ensures
        parse_input(s) == Some(SpecExpr::Number(s)),
{
    lemma_all_numerals(s, 0);
    assert(!is_space_spec(s[0]));
    assert(spaces_from(s, 0) == 0);
    assert(s.subrange(0, s.len() as int) =~= s);
    assert(spaces_from(s, s.len() as int) == 0);
}

/// A non-empty run of digits and decimal points.
pub open spec fn numeral_run(a: Seq<char>) -> bool {
    a.len() > 0 && forall|i: int| 0 <= i < a.len() ==> is_numeral_spec(#[trigger] a[i])
}

/// The tree node a binary operator character builds.
pub open spec fn binary(op: char, x: SpecExpr, y: SpecExpr) -> SpecExpr {
    if op == '+' {
        SpecExpr::Add(Box::new(x), Box::new(y))
    } else if op == '-' {
        SpecExpr::Sub(Box::new(x), Box::new(y))
    } else if op == '*' {
        SpecExpr::Mul(Box::new(x), Box::new(y))
    } else {
        SpecExpr::Div(Box::new(x), Box::new(y))
    }
}

/// The number literal made of the characters `a`.
pub open spec fn num(a: Seq<char>) -> SpecExpr {
    SpecExpr::Number(a)
}

proof fn lemma_numeral_count(s: Seq<char>, pos: int, k: int)
    requires
        0 <= pos,
        0 <= k,
        pos + k <= s.len(),
        forall|i: int| pos <= i < pos + k ==> is_numeral_spec(#[trigger] s[i]),
        pos + k == s.len() || !is_numeral_spec(s[pos + k]),
    ensures
        numerals_from(s, pos) == k,
    decreases k,
{
    if k > 0 {
        lemma_numeral_count(s, pos + 1, k - 1);
    }
}

/// A factor that is a run of `k` numerals at `pos`, followed by a
/// non-numeral or the end, is read as that number literal.
proof fn lemma_numeral_factor(s: Seq<char>, pos: int, k: int)
    requires
        0 <= pos,
        0 < k,
        pos + k <= s.len(),
        forall|i: int| pos <= i < pos + k ==> is_numeral_spec(#[trigger] s[i]),
        pos + k == s.len() || !is_numeral_spec(s[pos + k]),
    ensures
        parse_factor(s, pos) == Some((num(s.subrange(pos, pos + k)), pos + k)),
{
    lemma_numeral_count(s, pos, k);
    assert(is_numeral_spec(s[pos]));
    assert(spaces_from(s, pos) == 0);
    assert(!char_at(s, pos, '('));
    assert(!char_at(s, pos, '-'));
    assert(!char_at(s, pos, '+'));
}

/// A term's tail stops at a character that is neither white space nor a
/// product operator (or at the end).
proof fn lemma_term_rest_stops(s: Seq<char>, p: int, acc: SpecExpr)
    requires
        0 <= p,
        p >= s.len() || (!is_space_spec(s[p]) && s[p] != '*' && s[p] != '/'),
    ensures
        parse_term_rest(s, p, acc) == Some((acc, p)),
{
    assert(spaces_from(s, p) == 0);
}

/// An expression's tail stops at a character that is neither white space
/// nor a sum operator (or at the end).
proof fn lemma_expr_rest_stops(s: Seq<char>, p: int, acc: SpecExpr)
    requires
        0 <= p,
        p >= s.len() || (!is_space_spec(s[p]) && s[p] != '+' && s[p] != '-'),
    ensures
        parse_expr_rest(s, p, acc) == Some((acc, p)),
{
    assert(spaces_from(s, p) == 0);
}

/// `+` or `-`.
pub open spec fn is_sum_op(op: char) -> bool {
    op == '+' || op == '-'
}

/// `*` or `/`.
pub open spec fn is_product_op(op: char) -> bool {
    op == '*' || op == '/'
}

/// Precedence and associativity of the binary operators, for any three
/// number literals `a`, `b`, `c` and any two operators: `*` and `/` bind
/// tighter than `+` and `-` (so `10-2*3` is `10-(2*3)` and `10*2-3` is
/// `(10*2)-3`), and operators of the same level group to the left (so
/// `10-2-3` is `(10-2)-3` and `8/4/2` is `(8/4)/2`).
pub proof fn lemma_operator_precedence(a: Seq<char>, op1: char, b: Seq<char>, op2: char, c: Seq<char>)
    requires
        numeral_run(a),
        numeral_run(b),
        numeral_run(c),
        is_sum_op(op1) || is_product_op(op1),
        is_sum_op(op2) || is_product_op(op2),
    ensures
        parse_input(a + seq![op1] + b + seq![op2] + c) == (if is_sum_op(op1) && is_product_op(op2) {
            Some(binary(op1, num(a), binary(op2, num(b), num(c))))
        } else {
            Some(binary(op2, binary(op1, num(a), num(b)), num(c)))
        }),
{
    let s = a + seq![op1] + b + seq![op2] + c;
    let la = a.len() as int;
    let lb = b.len() as int;
    let lc = c.len() as int;
    let p1 = la;
    let p2 = la + 1 + lb;
    let n = la + lb + lc + 2;
    assert(s.len() == n);
    assert forall|i: int| 0 <= i < la implies s[i] == a[i] by {}
    assert(s[p1] == op1);
    assert forall|i: int| 0 <= i < lb implies s[p1 + 1 + i] == b[i] by {}
    assert(s[p2] == op2);
    assert forall|i: int| 0 <= i < lc implies s[p2 + 1 + i] == c[i] by {}
    assert(!is_numeral_spec(op1) && !is_space_spec(op1));
    assert(!is_numeral_spec(op2) && !is_space_spec(op2));
    assert forall|i: int| 0 <= i < la implies is_numeral_spec(#[trigger] s[i]) by {
        assert(s[i] == a[i]);
    }
    assert forall|i: int| p1 + 1 <= i < p2 implies is_numeral_spec(#[trigger] s[i]) by {
        assert(s[i] == b[i - p1 - 1]);
    }
    assert forall|i: int| p2 + 1 <= i < n implies is_numeral_spec(#[trigger] s[i]) by {
        assert(s[i] == c[i - p2 - 1]);
    }
    assert(s.subrange(0, la) =~= a);
    assert(s.subrange(p1 + 1, p2) =~= b);
    assert(s.subrange(p2 + 1, n) =~= c);
    lemma_numeral_factor(s, 0, la);
    lemma_numeral_factor(s, p1 + 1, lb);
    lemma_numeral_factor(s, p2 + 1, lc);
    assert(spaces_from(s, n) == 0);
    let na = num(a);
    let nb = num(b);
    let nc = num(c);
    // the last literal ends both tails
    lemma_term_rest_stops(s, n, nc);
    lemma_term_rest_stops(s, n, binary(op2, nb, nc));
    lemma_term_rest_stops(s, n, binary(op2, binary(op1, na, nb), nc));
    if is_product_op(op1) {
        let ab = binary(op1, na, nb);
        assert(spaces_from(s, p1) == 0);
        assert(parse_term_rest(s, p1, na) == parse_term_rest(s, p2, ab));
        if is_product_op(op2) {
            assert(spaces_from(s, p2) == 0);
            assert(parse_term_rest(s, p2, ab) == Some((binary(op2, ab, nc), n)));
            assert(parse_term(s, 0) == Some((binary(op2, ab, nc), n)));
            lemma_expr_rest_stops(s, n, binary(op2, ab, nc));
        } else {
            lemma_term_rest_stops(s, p2, ab);
            assert(parse_term(s, 0) == Some((ab, p2)));
            assert(parse_term(s, p2 + 1) == Some((nc, n)));
            lemma_expr_rest_stops(s, n, binary(op2, ab, nc));
            assert(spaces_from(s, p2) == 0);
            assert(parse_expr_rest(s, p2, ab) == Some((binary(op2, ab, nc), n)));
        }
        assert(parse_expr(s, 0) == Some((binary(op2, ab, nc), n)));
    } else {
        lemma_term_rest_stops(s, p1, na);
        assert(parse_term(s, 0) == Some((na, p1)));
        assert(spaces_from(s, p1) == 0);
        if is_product_op(op2) {
            let bc = binary(op2, nb, nc);
            assert(spaces_from(s, p2) == 0);
            assert(parse_term_rest(s, p2, nb) == Some((bc, n)));
            assert(parse_term(s, p1 + 1) == Some((bc, n)));
            lemma_expr_rest_stops(s, n, binary(op1, na, bc));
            assert(parse_expr_rest(s, p1, na) == Some((binary(op1, na, bc), n)));
            assert(parse_expr(s, 0) == Some((binary(op1, na, bc), n)));
        } else {
            let ab = binary(op1, na, nb);
            lemma_term_rest_stops(s, p2, nb);
            assert(parse_term(s, p1 + 1) == Some((nb, p2)));
            assert(parse_term(s, p2 + 1) == Some((nc, n)));
            lemma_expr_rest_stops(s, n, binary(op2, ab, nc));
            assert(spaces_from(s, p2) == 0);
            assert(parse_expr_rest(s, p2, ab) == Some((binary(op2, ab, nc), n)));
            assert(parse_expr_rest(s, p1, na) == Some((binary(op2, ab, nc), n)));
            assert(parse_expr(s, 0) == Some((binary(op2, ab, nc), n)));
        }
    }
}

/// A literal under a unary sign: `-` negates it, `+` leaves it as it is.
pub open spec fn signed(sign: char, x: SpecExpr) -> SpecExpr {
    if sign == '-' {
        SpecExpr::Neg(Box::new(x))
    } else {
        x
    }
}

/// A unary sign binds tighter than every binary operator: for any number
/// literals `a` and `b`, a sign and a binary operator, `-a op b` is
/// `(-a) op b` (so `-2*3` is `(-2)*3` and `-2-3` is `(-2)-3`), and a unary
/// `+` leaves no trace.
pub proof fn lemma_unary_sign_binds_tightest(sign: char, a: Seq<char>, op: char, b: Seq<char>)
    requires
        sign == '-' || sign == '+',
        numeral_run(a),
        numeral_run(b),
        is_sum_op(op) || is_product_op(op),
    ensures
        parse_input(seq![sign] + a + seq![op] + b) == Some(binary(op, signed(sign, num(a)), num(b))),
{
    let s = seq![sign] + a + seq![op] + b;
    let la = a.len() as int;
    let lb = b.len() as int;
    let p = la + 1;
    let n = la + lb + 2;
    assert(s.len() == n);
    assert(s[0] == sign);
    assert(s[p] == op);
    assert(!is_numeral_spec(op) && !is_space_spec(op));
    assert(!is_space_spec(sign));
    assert forall|i: int| 1 <= i < p implies is_numeral_spec(#[trigger] s[i]) by {
        assert(s[i] == a[i - 1]);
    }
    assert forall|i: int| p + 1 <= i < n implies is_numeral_spec(#[trigger] s[i]) by {
        assert(s[i] == b[i - p - 1]);
    }
    assert(s.subrange(1, p) =~= a);
    assert(s.subrange(p + 1, n) =~= b);
    lemma_numeral_factor(s, 1, la);
    lemma_numeral_factor(s, p + 1, lb);
    assert(spaces_from(s, 0) == 0);
    assert(spaces_from(s, p) == 0);
    assert(spaces_from(s, n) == 0);
    let sa = signed(sign, num(a));
    let nb = num(b);
    assert(parse_factor(s, 0) == Some((sa, p)));
    lemma_term_rest_stops(s, n, nb);
    lemma_term_rest_stops(s, n, binary(op, sa, nb));
    lemma_expr_rest_stops(s, n, binary(op, sa, nb));
    if is_product_op(op) {
        assert(parse_term_rest(s, p, sa) == Some((binary(op, sa, nb), n)));
        assert(parse_term(s, 0) == Some((binary(op, sa, nb), n)));
    } else {
        lemma_term_rest_stops(s, p, sa);
        assert(parse_term(s, 0) == Some((sa, p)));
        assert(parse_term(s, p + 1) == Some((nb, n)));
        assert(parse_expr_rest(s, p, sa) == Some((binary(op, sa, nb), n)));
    }
    assert(parse_expr(s, 0) == Some((binary(op, sa, nb), n)));
}

/// Parentheses group what they enclose into one operand, whatever the
/// operators: for any number literals `a`, `b`, `c` and binary operators,
/// `a op1 (b op2 c)` is `a op1 (b op2 c)` (so `2*(3+4)` multiplies by the
/// sum and `10-(2-3)` subtracts the difference).
pub proof fn lemma_parentheses_group(a: Seq<char>, op1: char, b: Seq<char>, op2: char, c: Seq<char>)
    requires
        numeral_run(a),
        numeral_run(b),
        numeral_run(c),
        is_sum_op(op1) || is_product_op(op1),
        is_sum_op(op2) || is_product_op(op2),
    ensures
        parse_input(a + seq![op1, '('] + b + seq![op2] + c + seq![')']) == Some(
            binary(op1, num(a), binary(op2, num(b), num(c))),
        ),
{
    let s = a + seq![op1, '('] + b + seq![op2] + c + seq![')'];
    let la = a.len() as int;
    let lb = b.len() as int;
    let lc = c.len() as int;
    let p1 = la;
    let lp = la + 1;
    let p2 = la + 2 + lb;
    let rp = p2 + 1 + lc;
    let n = rp + 1;
    assert(s.len() == n);
    assert(s[p1] == op1);
    assert(s[lp] == '(');
    assert(s[p2] == op2);
    assert(s[rp] == ')');
    assert(!is_numeral_spec(op1) && !is_space_spec(op1));
    assert(!is_numeral_spec(op2) && !is_space_spec(op2));
    assert(!is_numeral_spec(')') && !is_space_spec(')') && !is_space_spec('('));
    assert forall|i: int| 0 <= i < la implies is_numeral_spec(#[trigger] s[i]) by {
        assert(s[i] == a[i]);
    }
    assert forall|i: int| lp + 1 <= i < p2 implies is_numeral_spec(#[trigger] s[i]) by {
        assert(s[i] == b[i - lp - 1]);
    }
    assert forall|i: int| p2 + 1 <= i < rp implies is_numeral_spec(#[trigger] s[i]) by {
        assert(s[i] == c[i - p2 - 1]);
    }
    assert(s.subrange(0, la) =~= a);
    assert(s.subrange(lp + 1, p2) =~= b);
    assert(s.subrange(p2 + 1, rp) =~= c);
    lemma_numeral_factor(s, 0, la);
    lemma_numeral_factor(s, lp + 1, lb);
    lemma_numeral_factor(s, p2 + 1, lc);
    assert(spaces_from(s, p1) == 0);
    assert(spaces_from(s, lp) == 0);
    assert(spaces_from(s, p2) == 0);
    assert(spaces_from(s, rp) == 0);
    assert(spaces_from(s, n) == 0);
    let na = num(a);
    let nb = num(b);
    let nc = num(c);
    let bc = binary(op2, nb, nc);
    let e = binary(op1, na, bc);
    lemma_term_rest_stops(s, rp, nc);
    lemma_term_rest_stops(s, rp, bc);
    lemma_expr_rest_stops(s, rp, bc);
    if is_product_op(op2) {
        assert(parse_term_rest(s, p2, nb) == Some((bc, rp)));
        assert(parse_term(s, lp + 1) == Some((bc, rp)));
    } else {
        lemma_term_rest_stops(s, p2, nb);
        assert(parse_term(s, lp + 1) == Some((nb, p2)));
        assert(parse_term(s, p2 + 1) == Some((nc, rp)));
        assert(parse_expr_rest(s, p2, nb) == Some((bc, rp)));
    }
    assert(parse_expr(s, lp + 1) == Some((bc, rp)));
    assert(parse_factor(s, lp) == Some((bc, n)));
    lemma_term_rest_stops(s, n, bc);
    lemma_term_rest_stops(s, n, e);
    lemma_expr_rest_stops(s, n, e);
    if is_product_op(op1) {
        assert(parse_term_rest(s, p1, na) == Some((e, n)));
        assert(parse_term(s, 0) == Some((e, n)));
    } else {
        lemma_term_rest_stops(s, p1, na);
        assert(parse_term(s, 0) == Some((na, p1)));
        assert(parse_term(s, lp) == Some((bc, n)));
        assert(parse_expr_rest(s, p1, na) == Some((e, n)));
    }
    assert(parse_expr(s, 0) == Some((e, n)));
}

} // verus!
