//! Declarative invariants: `INVARIANT <expression>` over the fields of a
//! JSON value.
//!
//! Grammar (keywords are matched without regard to ASCII case):
//!
//! ```text
//! invariant    ::= "INVARIANT" ws+ expression
//! expression   ::= logical_and (ws* "OR" ws* logical_and)*
//! logical_and  ::= comparison (ws* "AND" ws* comparison)*
//! comparison   ::= term (ws* comp_op ws* term)?
//! comp_op      ::= "==" | "!=" | "<=" | ">=" | "<" | ">"
//! term         ::= "NOT" ws+ comparison | "(" ws* expression ws* ")" | field_access | literal
//! field_access ::= identifier ("." identifier)*
//! literal      ::= boolean | number | string
//! identifier   ::= [a-zA-Z_][a-zA-Z0-9_]*
//! number       ::= "-"? [0-9]+
//! string       ::= "\"" [^"]* "\""
//! ```
//!
//! Alternatives are tried in order and the first that matches wins; a
//! repetition stops at the first item that does not match, giving back what
//! that item had consumed.
use vstd::prelude::*;
use crate::text::{owned, push_str, str_eq, str_less, str_lt, bool_text, debug_str, int_dec, push_bool, push_signed_decimal, str_debug_text};
use crate::json::{JsonValue, JsonView, view_debug, member_view, lemma_items_view, jview, items_view, members_view, lemma_items_push, push_member};
use crate::domain::{Artifact, Message, Part, Role, Task, TaskState, TaskStatus};
use crate::invariants::{Invariant, InvariantResult, InvariantViolation, ViolationView, result_view};

verus! {

/// A literal of the language.
#[derive(Debug, Clone)]
pub enum LiteralValue {
    Number(i64),
    String(String),
    Boolean(bool),
}

/// A comparison operator.
#[derive(Debug, Clone, Copy, PartialEq, Eq, Structural)]
pub enum ComparisonOp {
    Equal,
    NotEqual,
    LessThan,
    LessThanOrEqual,
    GreaterThan,
    GreaterThanOrEqual,
}

/// An expression of the language.
#[derive(Debug)]
pub enum Expr {
    Literal(LiteralValue),
    /// A path of field names, such as `task.artifacts.length`.
    FieldAccess(Vec<String>),
    Comparison { left: Box<Expr>, op: ComparisonOp, right: Box<Expr> },
    And(Box<Expr>, Box<Expr>),
    Or(Box<Expr>, Box<Expr>),
    Not(Box<Expr>),
}

/// The abstract content of a literal.
pub enum LitView {
    Number(int),
    Str(Seq<char>),
    Boolean(bool),
}

/// The abstract content of an expression.
pub enum ExprView {
    Literal(LitView),
    FieldAccess(Seq<Seq<char>>),
    Comparison(Box<ExprView>, ComparisonOp, Box<ExprView>),
    And(Box<ExprView>, Box<ExprView>),
    Or(Box<ExprView>, Box<ExprView>),
    Not(Box<ExprView>),
}

impl View for LiteralValue {
    type V = LitView;

    open spec fn view(&self) -> LitView {
        match self {
            LiteralValue::Number(n) => LitView::Number(*n as int),
            LiteralValue::String(s) => LitView::Str(s@),
            LiteralValue::Boolean(b) => LitView::Boolean(*b),
        }
    }
}

/// The views of a sequence of strings.
pub open spec fn path_view(p: Seq<String>) -> Seq<Seq<char>> {
    Seq::new(p.len(), |i: int| p[i]@)
}

impl View for Expr {
    type V = ExprView;

    open spec fn view(&self) -> ExprView
        decreases self,
    {
        match self {
            Expr::Literal(l) => ExprView::Literal(l@),
            Expr::FieldAccess(p) => ExprView::FieldAccess(path_view(p@)),
            Expr::Comparison { left, op, right } => ExprView::Comparison(
                Box::new((**left).view()),
                *op,
                Box::new((**right).view()),
            ),
            Expr::And(a, b) => ExprView::And(Box::new((**a).view()), Box::new((**b).view())),
            Expr::Or(a, b) => ExprView::Or(Box::new((**a).view()), Box::new((**b).view())),
            Expr::Not(a) => ExprView::Not(Box::new((**a).view())),
        }
    }
}

/// The outcome of a grammar rule at a position: no match, a match ending at
/// a position, or an abort (a number literal out of the range of `i64`).
pub enum Parsed<T> {
    Fail,
    Done(T, int),
    Abort,
}

/// Whitespace as the grammar knows it.
pub open spec fn is_ws(c: char) -> bool {
    c == ' ' || c == '\t' || c == '\r' || c == '\n'
}

/// The first position at or after `p` that is not whitespace.
pub open spec fn skip_ws(s: Seq<char>, p: int) -> int
    decreases s.len() - p,
{
    if 0 <= p < s.len() && is_ws(s[p]) { skip_ws(s, p + 1) } else { p }
}

/// The keyword written `lo` in lower case and `up` in upper case occurs at
/// `p`, each letter in either case.
pub open spec fn kw_at(s: Seq<char>, p: int, lo: Seq<char>, up: Seq<char>) -> bool {
    &&& 0 <= p
    &&& p + lo.len() <= s.len()
    &&& forall|i: int| 0 <= i < lo.len() ==> (#[trigger] s[p + i] == lo[i] || s[p + i] == up[i])
}

/// A letter or underscore.
pub open spec fn is_ident_start(c: char) -> bool {
    ('a' <= c <= 'z') || ('A' <= c <= 'Z') || c == '_'
}

/// A letter, digit or underscore.
pub open spec fn is_ident_char(c: char) -> bool {
    is_ident_start(c) || ('0' <= c <= '9')
}

/// A decimal digit.
pub open spec fn is_digit(c: char) -> bool {
    '0' <= c <= '9'
}

/// The end of the run of identifier characters from `p`.
pub open spec fn ident_end(s: Seq<char>, p: int) -> int
    decreases s.len() - p,
{
    if 0 <= p < s.len() && is_ident_char(s[p]) { ident_end(s, p + 1) } else { p }
}

/// The end of the run of digits from `p`.
pub open spec fn digits_end(s: Seq<char>, p: int) -> int
    decreases s.len() - p,
{
    if 0 <= p < s.len() && is_digit(s[p]) { digits_end(s, p + 1) } else { p }
}

/// The value of a run of digits.
pub open spec fn digits_value(d: Seq<char>) -> int
    decreases d.len(),
{
    if d.len() == 0 { 0 } else { digits_value(d.drop_last()) * 10 + (d.last() as int - '0' as int) }
}

/// The first `"` at or after `p`.
pub open spec fn quote_at_or_after(s: Seq<char>, p: int) -> int
    decreases s.len() - p,
{
    if 0 <= p < s.len() && s[p] != '"' { quote_at_or_after(s, p + 1) } else { p }
}

/// An identifier at `p`.
pub open spec fn p_ident(s: Seq<char>, p: int) -> Parsed<Seq<char>> {
    if 0 <= p < s.len() && is_ident_start(s[p]) {
        Parsed::Done(s.subrange(p, ident_end(s, p)), ident_end(s, p))
    } else {
        Parsed::Fail
    }
}

/// More `.identifier` parts after a path ending at `p`.
pub open spec fn path_rest(s: Seq<char>, p: int, acc: Seq<Seq<char>>) -> (Seq<Seq<char>>, int)
    decreases s.len() - p,
{
    if 0 <= p < s.len() && s[p] == '.' {
        match p_ident(s, p + 1) {
            Parsed::Done(id, q) => if p < q <= s.len() { path_rest(s, q, acc.push(id)) } else { (acc, p) },
            _ => (acc, p),
        }
    } else {
        (acc, p)
    }
}

/// A field path at `p`.
pub open spec fn p_field(s: Seq<char>, p: int) -> Parsed<Seq<Seq<char>>> {
    match p_ident(s, p) {
        Parsed::Done(id, q) => {
            let (path, r) = path_rest(s, q, seq![id]);
            Parsed::Done(path, r)
        },
        _ => Parsed::Fail,
    }
}

/// A literal at `p`.
pub open spec fn p_literal(s: Seq<char>, p: int) -> Parsed<LitView> {
    if kw_at(s, p, "true"@, "TRUE"@) {
        Parsed::Done(LitView::Boolean(true), p + 4)
    } else if kw_at(s, p, "false"@, "FALSE"@) {
        Parsed::Done(LitView::Boolean(false), p + 5)
    } else {
        let neg = 0 <= p < s.len() && s[p] == '-';
        let q = if neg { p + 1 } else { p };
        let d = digits_end(s, q);
        if 0 <= p <= s.len() && d > q {
            let mag = digits_value(s.subrange(q, d));
            let v = if neg { -mag } else { mag };
            if i64::MIN <= v <= i64::MAX {
                Parsed::Done(LitView::Number(v), d)
            } else {
                Parsed::Abort
            }
        } else if 0 <= p < s.len() && s[p] == '"' {
            let j = quote_at_or_after(s, p + 1);
            if j < s.len() {
                Parsed::Done(LitView::Str(s.subrange(p + 1, j)), j + 1)
            } else {
                Parsed::Fail
            }
        } else {
            Parsed::Fail
        }
    }
}

/// A comparison operator at `p`.
pub open spec fn p_op(s: Seq<char>, p: int) -> Option<(ComparisonOp, int)> {
    let at = |c: char, i: int| 0 <= p + i < s.len() && s[p + i] == c;
    if at('=', 0) && at('=', 1) {
        Some((ComparisonOp::Equal, p + 2))
    } else if at('!', 0) && at('=', 1) {
        Some((ComparisonOp::NotEqual, p + 2))
    } else if at('<', 0) && at('=', 1) {
        Some((ComparisonOp::LessThanOrEqual, p + 2))
    } else if at('>', 0) && at('=', 1) {
        Some((ComparisonOp::GreaterThanOrEqual, p + 2))
    } else if at('<', 0) {
        Some((ComparisonOp::LessThan, p + 1))
    } else if at('>', 0) {
        Some((ComparisonOp::GreaterThan, p + 1))
    } else {
        None
    }
}

/// A term at `p`.
pub open spec fn p_term(s: Seq<char>, p: int) -> Parsed<ExprView>
    decreases s.len() - p, 0int, 0int,
{
    let not_branch: Parsed<ExprView> = if kw_at(s, p, "not"@, "NOT"@) && p + 3 < s.len() && is_ws(s[p + 3]) {
        let q = skip_ws(s, p + 3);
        if p < q <= s.len() {
            match p_comparison(s, q) {
                Parsed::Done(e, r) => Parsed::Done(ExprView::Not(Box::new(e)), r),
                Parsed::Abort => Parsed::Abort,
                Parsed::Fail => Parsed::Fail,
            }
        } else {
            Parsed::Fail
        }
    } else {
        Parsed::Fail
    };
    if !(not_branch is Fail) {
        not_branch
    } else {
        let paren: Parsed<ExprView> = if 0 <= p < s.len() && s[p] == '(' {
            let q = skip_ws(s, p + 1);
            if p < q <= s.len() {
                match p_or(s, q) {
                    Parsed::Done(e, r) => {
                        let r2 = skip_ws(s, r);
                        if 0 <= r2 < s.len() && s[r2] == ')' { Parsed::Done(e, r2 + 1) } else { Parsed::Fail }
                    },
                    Parsed::Abort => Parsed::Abort,
                    Parsed::Fail => Parsed::Fail,
                }
            } else {
                Parsed::Fail
            }
        } else {
            Parsed::Fail
        };
        if !(paren is Fail) {
            paren
        } else {
            match p_field(s, p) {
                Parsed::Done(path, r) => Parsed::Done(ExprView::FieldAccess(path), r),
                _ => match p_literal(s, p) {
                    Parsed::Done(l, r) => Parsed::Done(ExprView::Literal(l), r),
                    Parsed::Abort => Parsed::Abort,
                    Parsed::Fail => Parsed::Fail,
                },
            }
        }
    }
}

/// A comparison (or a lone term) at `p`.
pub open spec fn p_comparison(s: Seq<char>, p: int) -> Parsed<ExprView>
    decreases s.len() - p, 1int, 0int,
{
    match p_term(s, p) {
        Parsed::Done(l, q) => {
            match p_op(s, skip_ws(s, q)) {
                Some((op, q2)) => {
                    let q3 = skip_ws(s, q2);
                    if p <= q3 <= s.len() {
                        match p_term(s, q3) {
                            Parsed::Done(rt, r) => Parsed::Done(ExprView::Comparison(Box::new(l), op, Box::new(rt)), r),
                            Parsed::Abort => Parsed::Abort,
                            Parsed::Fail => Parsed::Done(l, q),
                        }
                    } else {
                        Parsed::Done(l, q)
                    }
                },
                None => Parsed::Done(l, q),
            }
        },
        Parsed::Abort => Parsed::Abort,
        Parsed::Fail => Parsed::Fail,
    }
}

/// More `AND comparison` parts after `acc`, which ends at `q`.
pub open spec fn and_rest(s: Seq<char>, q: int, acc: ExprView) -> Parsed<ExprView>
    decreases s.len() - q, 2int, 0int,
{
    let q1 = skip_ws(s, q);
    if q1 >= q && kw_at(s, q1, "and"@, "AND"@) {
        let q2 = skip_ws(s, q1 + 3);
        if q < q2 <= s.len() {
            match p_comparison(s, q2) {
                Parsed::Done(e, r) => if q < r <= s.len() { and_rest(s, r, ExprView::And(Box::new(acc), Box::new(e))) } else { Parsed::Done(acc, q) },
                Parsed::Abort => Parsed::Abort,
                Parsed::Fail => Parsed::Done(acc, q),
            }
        } else {
            Parsed::Done(acc, q)
        }
    } else {
        Parsed::Done(acc, q)
    }
}

/// A conjunction at `p`.
pub open spec fn p_and(s: Seq<char>, p: int) -> Parsed<ExprView>
    decreases s.len() - p, 2int, 1int,
{
    match p_comparison(s, p) {
        Parsed::Done(e, q) => if p <= q <= s.len() { and_rest(s, q, e) } else { Parsed::Done(e, q) },
        Parsed::Abort => Parsed::Abort,
        Parsed::Fail => Parsed::Fail,
    }
}

/// More `OR conjunction` parts after `acc`, which ends at `q`.
pub open spec fn or_rest(s: Seq<char>, q: int, acc: ExprView) -> Parsed<ExprView>
    decreases s.len() - q, 3int, 0int,
{
    let q1 = skip_ws(s, q);
    if q1 >= q && kw_at(s, q1, "or"@, "OR"@) {
        let q2 = skip_ws(s, q1 + 2);
        if q < q2 <= s.len() {
            match p_and(s, q2) {
                Parsed::Done(e, r) => if q < r <= s.len() { or_rest(s, r, ExprView::Or(Box::new(acc), Box::new(e))) } else { Parsed::Done(acc, q) },
                Parsed::Abort => Parsed::Abort,
                Parsed::Fail => Parsed::Done(acc, q),
            }
        } else {
            Parsed::Done(acc, q)
        }
    } else {
        Parsed::Done(acc, q)
    }
}

/// An expression at `p`.
pub open spec fn p_or(s: Seq<char>, p: int) -> Parsed<ExprView>
    decreases s.len() - p, 3int, 1int,
{
    match p_and(s, p) {
        Parsed::Done(e, q) => if p <= q <= s.len() { or_rest(s, q, e) } else { Parsed::Done(e, q) },
        Parsed::Abort => Parsed::Abort,
        Parsed::Fail => Parsed::Fail,
    }
}

/// The expression after the `INVARIANT` keyword of `s`.
pub open spec fn invariant_body(s: Seq<char>) -> Parsed<ExprView> {
    if kw_at(s, 0, "invariant"@, "INVARIANT"@) && 9 < s.len() && is_ws(s[9]) {
        p_or(s, skip_ws(s, 9))
    } else {
        Parsed::Fail
    }
}

/// What `str::trim` gives for a string.
pub uninterp spec fn trimmed(s: Seq<char>) -> Seq<char>;

/// `str::trim`: the string without leading and trailing whitespace.
#[verifier::external_body]
pub(crate) fn trim_str(s: &str) -> (r: &str)
    ensures
        r@ == trimmed(s@),
{
    s.trim()
}

/// `r` holds what the rule's outcome `sp` says.
pub open spec fn agrees(r: Result<Option<(Expr, usize)>, ()>, sp: Parsed<ExprView>) -> bool {
    match sp {
        Parsed::Done(e, q) => r matches Ok(Some((x, k))) && x@ == e && k as int == q,
        Parsed::Fail => r matches Ok(None),
        Parsed::Abort => r is Err,
    }
}

pub(crate) fn ws_at(s: &Vec<char>, p: usize) -> (r: bool)
    ensures
        r == (p < s@.len() && is_ws(s@[p as int])),
{
    p < s.len() && (s[p] == ' ' || s[p] == '\t' || s[p] == '\r' || s[p] == '\n')
}

pub(crate) fn skip_ws_exec(s: &Vec<char>, p: usize) -> (r: usize)
    requires
        p <= s@.len(),
    ensures
        r as int == skip_ws(s@, p as int),
        p <= r <= s@.len(),
    decreases s@.len() - p,
{
    if p < s.len() && ws_at(s, p) { skip_ws_exec(s, p + 1) } else { p }
}

pub(crate) fn kw_at_exec(s: &Vec<char>, p: usize, lo: &str, up: &str) -> (r: bool)
    requires
        lo@.len() == up@.len(),
    ensures
        r == kw_at(s@, p as int, lo@, up@),
{
    let l = crate::text::chars_of(lo);
    let u = crate::text::chars_of(up);
    if p > s.len() || l.len() > s.len() - p {
        return false;
    }
    let mut i: usize = 0;
    while i < l.len()
        invariant
            l@ == lo@,
            u@ == up@,
            lo@.len() == up@.len(),
            p + l@.len() <= s@.len(),
            i <= l@.len(),
            forall|j: int| 0 <= j < i ==> (#[trigger] s@[p + j] == lo@[j] || s@[p + j] == up@[j]),
        decreases l@.len() - i,
    {
        assert(p + i < s.len());
        let idx = p + i;
        if s[idx] != l[i] && s[idx] != u[i] {
            return false;
        }
        i = i + 1;
    }
    true
}

fn is_ident_start_exec(c: char) -> (r: bool)
    ensures
        r == is_ident_start(c),
{
    ('a' <= c && c <= 'z') || ('A' <= c && c <= 'Z') || c == '_'
}

fn is_ident_char_exec(c: char) -> (r: bool)
    ensures
        r == is_ident_char(c),
{
    is_ident_start_exec(c) || ('0' <= c && c <= '9')
}

fn ident_end_exec(s: &Vec<char>, p: usize) -> (r: usize)
    requires
        p <= s@.len(),
    ensures
        r as int == ident_end(s@, p as int),
        p <= r <= s@.len(),
        p < s@.len() && is_ident_char(s@[p as int]) ==> r > p,
    decreases s@.len() - p,
{
    if p < s.len() && is_ident_char_exec(s[p]) { ident_end_exec(s, p + 1) } else { p }
}

pub(crate) fn digits_end_exec(s: &Vec<char>, p: usize) -> (r: usize)
    requires
        p <= s@.len(),
    ensures
        r as int == digits_end(s@, p as int),
        p <= r <= s@.len(),
    decreases s@.len() - p,
{
    if p < s.len() && '0' <= s[p] && s[p] <= '9' { digits_end_exec(s, p + 1) } else { p }
}

fn quote_exec(s: &Vec<char>, p: usize) -> (r: usize)
    requires
        p <= s@.len(),
    ensures
        r as int == quote_at_or_after(s@, p as int),
        p <= r <= s@.len(),
    decreases s@.len() - p,
{
    if p < s.len() && s[p] != '"' { quote_exec(s, p + 1) } else { p }
}

/// The characters `s[a..b]` as a string.
pub(crate) fn string_of(s: &Vec<char>, a: usize, b: usize) -> (r: String)
    requires
        a <= b <= s@.len(),
    ensures
        r@ == s@.subrange(a as int, b as int),
{
    let mut r = String::new();
    let mut i: usize = a;
    while i < b
        invariant
            a <= i <= b <= s@.len(),
            r@ == s@.subrange(a as int, i as int),
        decreases b - i,
    {
        crate::text::push_char(&mut r, s[i]);
        assert(r@ =~= s@.subrange(a as int, i + 1));
        i = i + 1;
    }
    r
}

fn ident_exec(s: &Vec<char>, p: usize) -> (r: Option<(String, usize)>)
    requires
        p <= s@.len(),
    ensures
        match p_ident(s@, p as int) {
            Parsed::Done(id, q) => r matches Some((x, k)) && x@ == id && k as int == q && p < k <= s@.len(),
            _ => r is None,
        },
{
    if p < s.len() && is_ident_start_exec(s[p]) {
        let e = ident_end_exec(s, p);
        Some((string_of(s, p, e), e))
    } else {
        None
    }
}

fn field_exec(s: &Vec<char>, p: usize) -> (r: Option<(Vec<String>, usize)>)
    requires
        p <= s@.len(),
    ensures
        match p_field(s@, p as int) {
            Parsed::Done(path, q) => r matches Some((x, k)) && path_view(x@) == path && k as int == q && k <= s@.len(),
            _ => r is None,
        },
{
    let (first, q) = match ident_exec(s, p) {
        Some(x) => x,
        None => {
            return None;
        },
    };
    let mut path: Vec<String> = Vec::new();
    let ghost fv = first@;
    path.push(first);
    assert(path_view(path@) =~= seq![fv]);
    let mut k: usize = q;
    loop
        invariant
            q <= k <= s@.len(),
            path_rest(s@, q as int, seq![fv]) == path_rest(s@, k as int, path_view(path@)),
        ensures
            k <= s@.len(),
            path_rest(s@, q as int, seq![fv]) == (path_view(path@), k as int),
        decreases s@.len() - k,
    {
        if k >= s.len() || s[k] != '.' {
            break;
        }
        match ident_exec(s, k + 1) {
            Some((id, k2)) => {
                let ghost before = path@;
                let ghost iv = id@;
                path.push(id);
                assert(path_view(path@) =~= path_view(before).push(iv));
                k = k2;
            },
            None => {
                break;
            },
        }
    }
    Some((path, k))
}

fn literal_exec(s: &Vec<char>, p: usize) -> (r: Result<Option<(LiteralValue, usize)>, ()>)
    requires
        p <= s@.len(),
    ensures
        match p_literal(s@, p as int) {
            Parsed::Done(l, q) => r matches Ok(Some((x, k))) && x@ == l && k as int == q && p < k <= s@.len(),
            Parsed::Fail => r matches Ok(None),
            Parsed::Abort => r is Err,
        },
{
    let n = s.len();
    assert(n == s@.len());
    proof {
        reveal_strlit("true");
        reveal_strlit("TRUE");
        reveal_strlit("false");
        reveal_strlit("FALSE");
        assert("true"@.len() == 4);
        assert("false"@.len() == 5);
    }
    if kw_at_exec(s, p, "true", "TRUE") {
        assert(p + 4 <= s@.len());
        return Ok(Some((LiteralValue::Boolean(true), p + 4)));
    }
    if kw_at_exec(s, p, "false", "FALSE") {
        assert(p + 5 <= s@.len());
        return Ok(Some((LiteralValue::Boolean(false), p + 5)));
    }
    let neg = p < s.len() && s[p] == '-';
    let q = if neg { p + 1 } else { p };
    let d = digits_end_exec(s, q);
    if d > q {
        // Accumulate, saturating just above the range of i64.
        let cap: u128 = 9223372036854775809;
        let mut acc: u128 = 0;
        let mut i: usize = q;
        while i < d
            invariant
                q <= i <= d <= s@.len(),
                d as int == digits_end(s@, q as int),
                acc as int == if digits_value(s@.subrange(q as int, i as int)) < cap as int {
                    digits_value(s@.subrange(q as int, i as int))
                } else {
                    cap as int
                },
                cap == 9223372036854775809u128,
            decreases d - i,
        {
            proof {
                lemma_digits_run(s@, q as int, i as int);
                assert(s@.subrange(q as int, i + 1).drop_last() =~= s@.subrange(q as int, i as int));
                lemma_digits_value_nonneg(s@.subrange(q as int, i as int));
            }
            let dig: u128 = (s[i] as u32 - 48) as u128;
            let next: u128 = acc * 10 + dig;
            acc = if next < cap { next } else { cap };
            i = i + 1;
        }
        proof {
            lemma_digits_value_nonneg(s@.subrange(q as int, d as int));
        }
        if neg {
            if acc > 9223372036854775808 {
                return Err(());
            }
            let v: i64 = if acc == 9223372036854775808 { i64::MIN } else { -(acc as i64) };
            return Ok(Some((LiteralValue::Number(v), d)));
        } else {
            if acc > 9223372036854775807 {
                return Err(());
            }
            return Ok(Some((LiteralValue::Number(acc as i64), d)));
        }
    }
    if p < s.len() && s[p] == '"' {
        let j = quote_exec(s, p + 1);
        if j < s.len() {
            return Ok(Some((LiteralValue::String(string_of(s, p + 1, j)), j + 1)));
        }
    }
    Ok(None)
}

/// A digit run ends at the end or at a non-digit.
proof fn lemma_digits_end_stops(s: Seq<char>, p: int)
    requires
        0 <= p <= s.len(),
    ensures
        p <= digits_end(s, p) <= s.len(),
        digits_end(s, p) < s.len() ==> !is_digit(s[digits_end(s, p)]),
    decreases s.len() - p,
{
    if p < s.len() && is_digit(s[p]) {
        lemma_digits_end_stops(s, p + 1);
    }
}

/// Every position of a digit run holds a digit.
proof fn lemma_digits_run(s: Seq<char>, q: int, i: int)
    requires
        0 <= q <= i < digits_end(s, q),
    ensures
        is_digit(s[i]),
    decreases i - q,
{
    if q < i {
        lemma_digits_run(s, q + 1, i);
    }
}

proof fn lemma_digits_value_nonneg(d: Seq<char>)
    ensures
        digits_value(d) >= 0 || exists|k: int| 0 <= k < d.len() && !is_digit(#[trigger] d[k]),
    decreases d.len(),
{
    if d.len() > 0 {
        lemma_digits_value_nonneg(d.drop_last());
        if exists|k: int| 0 <= k < d.drop_last().len() && !is_digit(#[trigger] d.drop_last()[k]) {
            let k = choose|k: int| 0 <= k < d.drop_last().len() && !is_digit(#[trigger] d.drop_last()[k]);
            assert(d[k] == d.drop_last()[k]);
        } else if !is_digit(d.last()) {
            assert(!is_digit(d[d.len() - 1]));
        }
    }
}

fn op_exec(s: &Vec<char>, p: usize) -> (r: Option<(ComparisonOp, usize)>)
    requires
        p <= s@.len(),
    ensures
        match p_op(s@, p as int) {
            Some((op, q)) => r matches Some((o, k)) && o == op && k as int == q && k <= s@.len(),
            None => r is None,
        },
{
    let c0 = if p < s.len() { Some(s[p]) } else { None };
    let c1 = if p < s.len() && p + 1 < s.len() { Some(s[p + 1]) } else { None };
    match (c0, c1) {
        (Some('='), Some('=')) => Some((ComparisonOp::Equal, p + 2)),
        (Some('!'), Some('=')) => Some((ComparisonOp::NotEqual, p + 2)),
        (Some('<'), Some('=')) => Some((ComparisonOp::LessThanOrEqual, p + 2)),
        (Some('>'), Some('=')) => Some((ComparisonOp::GreaterThanOrEqual, p + 2)),
        (Some('<'), _) => Some((ComparisonOp::LessThan, p + 1)),
        (Some('>'), _) => Some((ComparisonOp::GreaterThan, p + 1)),
        _ => None,
    }
}

fn term_exec(s: &Vec<char>, p: usize) -> (r: Result<Option<(Expr, usize)>, ()>)
    requires
        p <= s@.len(),
    ensures
        agrees(r, p_term(s@, p as int)),
        r matches Ok(Some((_, k))) ==> k <= s@.len(),
    decreases s@.len() - p, 0int, 0int,
{
    proof {
        reveal_strlit("not");
        reveal_strlit("NOT");
        assert("not"@.len() == 3);
    }
    let n = s.len();
    assert(n == s@.len());
    if kw_at_exec(s, p, "not", "NOT") && p + 3 < s.len() && ws_at(s, p + 3) {
        let q = skip_ws_exec(s, p + 3);
        if p < q {
            match comparison_exec(s, q) {
                Err(()) => return Err(()),
                Ok(Some((e, r))) => {
                    return Ok(Some((Expr::Not(Box::new(e)), r)));
                },
                Ok(None) => {},
            }
        }
    }
    if p < s.len() && s[p] == '(' {
        let q = skip_ws_exec(s, p + 1);
        if p < q {
            match or_exec(s, q) {
                Err(()) => return Err(()),
                Ok(Some((e, r))) => {
                    let r2 = skip_ws_exec(s, r);
                    if r2 < s.len() && s[r2] == ')' {
                        return Ok(Some((e, r2 + 1)));
                    }
                },
                Ok(None) => {},
            }
        }
    }
    match field_exec(s, p) {
        Some((path, r)) => {
            return Ok(Some((Expr::FieldAccess(path), r)));
        },
        None => {},
    }
    match literal_exec(s, p) {
        Err(()) => Err(()),
        Ok(Some((l, r))) => Ok(Some((Expr::Literal(l), r))),
        Ok(None) => Ok(None),
    }
}

fn comparison_exec(s: &Vec<char>, p: usize) -> (r: Result<Option<(Expr, usize)>, ()>)
    requires
        p <= s@.len(),
    ensures
        agrees(r, p_comparison(s@, p as int)),
        r matches Ok(Some((_, k))) ==> k <= s@.len(),
    decreases s@.len() - p, 1int, 0int,
{
    match term_exec(s, p) {
        Err(()) => Err(()),
        Ok(None) => Ok(None),
        Ok(Some((l, q))) => {
            let q1 = skip_ws_exec(s, q);
            match op_exec(s, q1) {
                Some((op, q2)) => {
                    let q3 = skip_ws_exec(s, q2);
                    if p <= q3 {
                        match term_exec(s, q3) {
                            Err(()) => Err(()),
                            Ok(Some((rt, r))) => Ok(Some((Expr::Comparison { left: Box::new(l), op, right: Box::new(rt) }, r))),
                            Ok(None) => Ok(Some((l, q))),
                        }
                    } else {
                        Ok(Some((l, q)))
                    }
                },
                None => Ok(Some((l, q))),
            }
        },
    }
}

fn and_rest_exec(s: &Vec<char>, q: usize, acc: Expr) -> (r: Result<Option<(Expr, usize)>, ()>)
    requires
        q <= s@.len(),
    ensures
        agrees(r, and_rest(s@, q as int, acc@)),
        r matches Ok(Some((_, k))) ==> k <= s@.len(),
    decreases s@.len() - q, 2int, 0int,
{
    proof {
        reveal_strlit("and");
        reveal_strlit("AND");
        assert("and"@.len() == 3);
    }
    let n = s.len();
    assert(n == s@.len());
    let q1 = skip_ws_exec(s, q);
    if kw_at_exec(s, q1, "and", "AND") {
        let q2 = skip_ws_exec(s, q1 + 3);
        if q < q2 {
            match comparison_exec(s, q2) {
                Err(()) => Err(()),
                Ok(Some((e, r))) => {
                    if q < r {
                        and_rest_exec(s, r, Expr::And(Box::new(acc), Box::new(e)))
                    } else {
                        Ok(Some((acc, q)))
                    }
                },
                Ok(None) => Ok(Some((acc, q))),
            }
        } else {
            Ok(Some((acc, q)))
        }
    } else {
        Ok(Some((acc, q)))
    }
}

fn and_exec(s: &Vec<char>, p: usize) -> (r: Result<Option<(Expr, usize)>, ()>)
    requires
        p <= s@.len(),
    ensures
        agrees(r, p_and(s@, p as int)),
        r matches Ok(Some((_, k))) ==> k <= s@.len(),
    decreases s@.len() - p, 2int, 1int,
{
    match comparison_exec(s, p) {
        Err(()) => Err(()),
        Ok(None) => Ok(None),
        Ok(Some((e, q))) => {
            if p <= q {
                and_rest_exec(s, q, e)
            } else {
                Ok(Some((e, q)))
            }
        },
    }
}

fn or_rest_exec(s: &Vec<char>, q: usize, acc: Expr) -> (r: Result<Option<(Expr, usize)>, ()>)
    requires
        q <= s@.len(),
    ensures
        agrees(r, or_rest(s@, q as int, acc@)),
        r matches Ok(Some((_, k))) ==> k <= s@.len(),
    decreases s@.len() - q, 3int, 0int,
{
    proof {
        reveal_strlit("or");
        reveal_strlit("OR");
        assert("or"@.len() == 2);
    }
    let n = s.len();
    assert(n == s@.len());
    let q1 = skip_ws_exec(s, q);
    if kw_at_exec(s, q1, "or", "OR") {
        let q2 = skip_ws_exec(s, q1 + 2);
        if q < q2 {
            match and_exec(s, q2) {
                Err(()) => Err(()),
                Ok(Some((e, r))) => {
                    if q < r {
                        or_rest_exec(s, r, Expr::Or(Box::new(acc), Box::new(e)))
                    } else {
                        Ok(Some((acc, q)))
                    }
                },
                Ok(None) => Ok(Some((acc, q))),
            }
        } else {
            Ok(Some((acc, q)))
        }
    } else {
        Ok(Some((acc, q)))
    }
}

fn or_exec(s: &Vec<char>, p: usize) -> (r: Result<Option<(Expr, usize)>, ()>)
    requires
        p <= s@.len(),
    ensures
        agrees(r, p_or(s@, p as int)),
        r matches Ok(Some((_, k))) ==> k <= s@.len(),
    decreases s@.len() - p, 3int, 1int,
{
    match and_exec(s, p) {
        Err(()) => Err(()),
        Ok(None) => Ok(None),
        Ok(Some((e, q))) => {
            if p <= q {
                or_rest_exec(s, q, e)
            } else {
                Ok(Some((e, q)))
            }
        },
    }
}

/// A parsed invariant with its source text.
#[derive(Debug)]
pub struct InvariantExpr {
    /// The expression.
    pub expr: Expr,
    /// The text it was parsed from.
    pub source: String,
}

/// Parses `INVARIANT <expression>`; text after the expression other than
/// whitespace is refused.
pub fn parse_invariant(input: &str) -> (r: Result<InvariantExpr, String>)
    ensures
        match invariant_body(input@) {
            Parsed::Done(e, q) => {
                let rest = trimmed(input@.subrange(q, input@.len() as int));
                if rest.len() == 0 {
                    r matches Ok(ie) && ie.expr@ == e && ie.source@ == input@
                } else {
                    r matches Err(m) && m@ == "Unexpected input after invariant: "@ + rest
                }
            },
            Parsed::Abort => r matches Err(m) && m@ == "Parse error: number out of range"@,
            Parsed::Fail => r matches Err(m) && "Parse error: "@.is_prefix_of(m@),
        },
{
    proof {
        reveal_strlit("invariant");
        reveal_strlit("INVARIANT");
        reveal_strlit("Parse error: ");
        reveal_strlit("Parse error: invalid invariant syntax");
        assert("invariant"@.len() == 9);
    }
    let s = crate::text::chars_of(input);
    if kw_at_exec(&s, 0, "invariant", "INVARIANT") && 9 < s.len() && ws_at(&s, 9) {
        let q = skip_ws_exec(&s, 9);
        match or_exec(&s, q) {
            Err(()) => {
                return Err(owned("Parse error: number out of range"));
            },
            Ok(Some((e, r))) => {
                let rest = string_of(&s, r, s.len());
                let t = trim_str(rest.as_str());
                if t.is_empty() {
                    return Ok(InvariantExpr { expr: e, source: owned(input) });
                } else {
                    let mut m = owned("Unexpected input after invariant: ");
                    push_str(&mut m, t);
                    return Err(m);
                }
            },
            Ok(None) => {},
        }
    }
    let m = owned("Parse error: invalid invariant syntax");
    assert("Parse error: "@.is_prefix_of(m@));
    Err(m)
}

/// The value of an expression.
#[derive(Debug)]
pub enum EvalResult {
    Number(i64),
    String(String),
    Boolean(bool),
    Null,
}

/// The abstract value of an expression.
pub enum EvalView {
    Number(int),
    Str(Seq<char>),
    Boolean(bool),
    Null,
}

impl View for EvalResult {
    type V = EvalView;

    open spec fn view(&self) -> EvalView {
        match self {
            EvalResult::Number(n) => EvalView::Number(*n as int),
            EvalResult::String(s) => EvalView::Str(s@),
            EvalResult::Boolean(b) => EvalView::Boolean(*b),
            EvalResult::Null => EvalView::Null,
        }
    }
}

/// An evaluation error: its message.
pub type EvalError = Seq<char>;

/// The `Debug` text of a value of an expression: `Number(5)`,
/// `String("x")`, `Boolean(true)` or `Null`.
pub open spec fn debug_eval_text(v: EvalView) -> Seq<char> {
    match v {
        EvalView::Number(n) => "Number("@ + int_dec(n) + ")"@,
        EvalView::Str(s) => "String("@ + str_debug_text(s) + ")"@,
        EvalView::Boolean(b) => "Boolean("@ + bool_text(b) + ")"@,
        EvalView::Null => "Null"@,
    }
}

/// The integer that a JSON number's text denotes, if it is an integer in the
/// range of `i64` (as `serde_json::Number::as_i64` gives it).
pub open spec fn int_of_text(t: Seq<char>) -> Option<int> {
    let neg = t.len() > 0 && t[0] == '-';
    let digits = if neg { t.drop_first() } else { t };
    if digits.len() > 0 && all_digits(digits) {
        let v = if neg { -digits_value(digits) } else { digits_value(digits) };
        if i64::MIN <= v <= i64::MAX { Some(v) } else { None }
    } else {
        None
    }
}

/// Every character is a decimal digit.
pub open spec fn all_digits(d: Seq<char>) -> bool {
    forall|i: int| 0 <= i < d.len() ==> is_digit(#[trigger] d[i])
}

/// The value of a JSON value at the end of a field path.
pub open spec fn value_result(v: JsonView) -> Result<EvalView, EvalError> {
    match v {
        JsonView::Number(t) => match int_of_text(t) {
            Some(i) => Ok(EvalView::Number(i)),
            None => Err("Unsupported number type: "@ + t),
        },
        JsonView::Str(s) => Ok(EvalView::Str(s)),
        JsonView::Bool(b) => Ok(EvalView::Boolean(b)),
        JsonView::Null => Ok(EvalView::Null),
        _ => Err("Cannot convert value to result: "@ + view_debug(v)),
    }
}

/// Follows a field path from `cur`; `length` gives the length of an array
/// and `exists` whether the value is not null, ending the walk.
pub open spec fn walk(path: Seq<Seq<char>>, cur: JsonView) -> Result<EvalView, EvalError>
    decreases path.len(),
{
    if path.len() == 0 {
        value_result(cur)
    } else if path[0] == "length"@ {
        match cur {
            JsonView::Array(items) => Ok(EvalView::Number((items.len() as i64) as int)),
            _ => Err("Cannot get length of non-array: "@ + view_debug(cur)),
        }
    } else if path[0] == "exists"@ {
        Ok(EvalView::Boolean(!(cur is Null)))
    } else {
        match cur {
            JsonView::Object(_) => walk(path.drop_first(), match member_view(cur, path[0]) {
                Some(x) => x,
                None => JsonView::Null,
            }),
            JsonView::Null => Ok(EvalView::Null),
            _ => Err("Cannot access field '"@ + path[0] + "' on non-object: "@ + view_debug(cur)),
        }
    }
}

/// How an operator is written.
pub open spec fn op_text(op: ComparisonOp) -> Seq<char> {
    match op {
        ComparisonOp::Equal => "=="@,
        ComparisonOp::NotEqual => "!="@,
        ComparisonOp::LessThan => "<"@,
        ComparisonOp::LessThanOrEqual => "<="@,
        ComparisonOp::GreaterThan => ">"@,
        ComparisonOp::GreaterThanOrEqual => ">="@,
    }
}

/// The result of comparing two values.
pub open spec fn compare_values(l: EvalView, op: ComparisonOp, r: EvalView) -> Result<bool, EvalError> {
    match (l, r) {
        (EvalView::Number(a), EvalView::Number(b)) => Ok(match op {
            ComparisonOp::Equal => a == b,
            ComparisonOp::NotEqual => a != b,
            ComparisonOp::LessThan => a < b,
            ComparisonOp::LessThanOrEqual => a <= b,
            ComparisonOp::GreaterThan => a > b,
            ComparisonOp::GreaterThanOrEqual => a >= b,
        }),
        (EvalView::Str(a), EvalView::Str(b)) => Ok(match op {
            ComparisonOp::Equal => a == b,
            ComparisonOp::NotEqual => a != b,
            ComparisonOp::LessThan => str_lt(a, b),
            ComparisonOp::LessThanOrEqual => !str_lt(b, a),
            ComparisonOp::GreaterThan => str_lt(b, a),
            ComparisonOp::GreaterThanOrEqual => !str_lt(a, b),
        }),
        (EvalView::Boolean(a), EvalView::Boolean(b)) => match op {
            ComparisonOp::Equal => Ok(a == b),
            ComparisonOp::NotEqual => Ok(a != b),
            _ => Err("Operator "@ + op_text(op) + " not supported for booleans"@),
        },
        _ => Err("Cannot compare "@ + debug_eval_text(l) + " and "@ + debug_eval_text(r) + " with "@ + op_text(op)),
    }
}

/// The value of an expression over a JSON context.
pub open spec fn eval(e: ExprView, ctx: JsonView) -> Result<EvalView, EvalError>
    decreases e,
{
    match e {
        ExprView::Literal(l) => Ok(match l {
            LitView::Number(n) => EvalView::Number(n),
            LitView::Str(s) => EvalView::Str(s),
            LitView::Boolean(b) => EvalView::Boolean(b),
        }),
        ExprView::FieldAccess(path) => walk(path, ctx),
        ExprView::Comparison(l, op, r) => match eval(*l, ctx) {
            Err(m) => Err(m),
            Ok(a) => match eval(*r, ctx) {
                Err(m) => Err(m),
                Ok(b) => match compare_values(a, op, b) {
                    Ok(x) => Ok(EvalView::Boolean(x)),
                    Err(m) => Err(m),
                },
            },
        },
        ExprView::And(l, r) => match eval(*l, ctx) {
            Err(m) => Err(m),
            Ok(a) => match eval(*r, ctx) {
                Err(m) => Err(m),
                Ok(b) => match (a, b) {
                    (EvalView::Boolean(x), EvalView::Boolean(y)) => Ok(EvalView::Boolean(x && y)),
                    _ => Err("AND requires boolean operands"@),
                },
            },
        },
        ExprView::Or(l, r) => match eval(*l, ctx) {
            Err(m) => Err(m),
            Ok(a) => match eval(*r, ctx) {
                Err(m) => Err(m),
                Ok(b) => match (a, b) {
                    (EvalView::Boolean(x), EvalView::Boolean(y)) => Ok(EvalView::Boolean(x || y)),
                    _ => Err("OR requires boolean operands"@),
                },
            },
        },
        ExprView::Not(x) => match eval(*x, ctx) {
            Err(m) => Err(m),
            Ok(EvalView::Boolean(b)) => Ok(EvalView::Boolean(!b)),
            Ok(_) => Err("NOT requires boolean operand"@),
        },
    }
}

/// `r` holds what `sp` says.
pub open spec fn eval_agrees(r: Result<EvalResult, String>, sp: Result<EvalView, EvalError>) -> bool {
    match sp {
        Ok(v) => r matches Ok(x) && x@ == v,
        Err(m) => r matches Err(x) && x@ == m,
    }
}

/// The `Debug` text of a JSON value.
fn debug_json(v: &JsonValue) -> (r: String)
    ensures
        r@ == view_debug(v@),
{
    crate::json::debug_text(v)
}

/// The `Debug` text of a value of an expression.
fn debug_value(v: &EvalResult) -> (r: String)
    ensures
        r@ == debug_eval_text(v@),
{
    let mut r = String::new();
    match v {
        EvalResult::Number(n) => {
            push_str(&mut r, "Number(");
            push_signed_decimal(*n, &mut r);
            push_str(&mut r, ")");
        },
        EvalResult::String(s) => {
            push_str(&mut r, "String(");
            let d = debug_str(s.as_str());
            push_str(&mut r, d.as_str());
            push_str(&mut r, ")");
        },
        EvalResult::Boolean(b) => {
            push_str(&mut r, "Boolean(");
            push_bool(*b, &mut r);
            push_str(&mut r, ")");
        },
        EvalResult::Null => {
            push_str(&mut r, "Null");
        },
    }
    assert(r@ =~= debug_eval_text(v@));
    r
}

fn int_of_text_exec(t: &str) -> (r: Option<i64>)
    ensures
        match int_of_text(t@) {
            Some(i) => r == Some(i as i64) && i64::MIN <= i <= i64::MAX,
            None => r is None,
        },
{
    let s = crate::text::chars_of(t);
    let neg = s.len() > 0 && s[0] == '-';
    let start: usize = if neg { 1 } else { 0 };
    let ghost digits = if neg { t@.drop_first() } else { t@ };
    assert(digits =~= s@.subrange(start as int, s@.len() as int));
    if start >= s.len() {
        assert(digits.len() == 0);
        return None;
    }
    let d = digits_end_exec(&s, start);
    if d < s.len() {
        proof {
            lemma_digits_end_stops(s@, start as int);
            assert(!is_digit(s@[d as int]));
            assert(digits[d - start] == s@[d as int]);
            assert(!is_digit(digits[d - start]));
            assert(!all_digits(digits));
            assert(neg == (t@.len() > 0 && t@[0] == '-'));
            assert(int_of_text(t@) is None);
        }
        return None;
    }
    proof {
        assert forall|i: int| 0 <= i < digits.len() implies is_digit(#[trigger] digits[i]) by {
            lemma_digits_run(s@, start as int, start + i);
        }
    }
    let cap: u128 = 9223372036854775809;
    let mut acc: u128 = 0;
    let mut i: usize = start;
    while i < d
        invariant
            start <= i <= d <= s@.len(),
            d as int == digits_end(s@, start as int),
            acc as int == if digits_value(s@.subrange(start as int, i as int)) < cap as int {
                digits_value(s@.subrange(start as int, i as int))
            } else {
                cap as int
            },
            cap == 9223372036854775809u128,
        decreases d - i,
    {
        proof {
            lemma_digits_run(s@, start as int, i as int);
            assert(s@.subrange(start as int, i + 1).drop_last() =~= s@.subrange(start as int, i as int));
            lemma_digits_value_nonneg(s@.subrange(start as int, i as int));
        }
        let dig: u128 = (s[i] as u32 - 48) as u128;
        let next: u128 = acc * 10 + dig;
        acc = if next < cap { next } else { cap };
        i = i + 1;
    }
    proof {
        lemma_digits_value_nonneg(s@.subrange(start as int, d as int));
    }
    if neg {
        if acc > 9223372036854775808 {
            return None;
        }
        if acc == 9223372036854775808 {
            Some(i64::MIN)
        } else {
            Some(-(acc as i64))
        }
    } else {
        if acc > 9223372036854775807 {
            return None;
        }
        Some(acc as i64)
    }
}

fn value_result_exec(v: &JsonValue) -> (r: Result<EvalResult, String>)
    ensures
        eval_agrees(r, value_result(v@)),
{
    match v {
        JsonValue::Number(t) => match int_of_text_exec(t.as_str()) {
            Some(i) => Ok(EvalResult::Number(i)),
            None => {
                let mut m = owned("Unsupported number type: ");
                push_str(&mut m, t.as_str());
                Err(m)
            },
        },
        JsonValue::String(s) => Ok(EvalResult::String(s.clone())),
        JsonValue::Bool(b) => Ok(EvalResult::Boolean(*b)),
        JsonValue::Null => Ok(EvalResult::Null),
        _ => {
            let mut m = owned("Cannot convert value to result: ");
            push_str(&mut m, debug_json(v).as_str());
            Err(m)
        },
    }
}

fn walk_exec(path: &Vec<String>, i: usize, cur: &JsonValue) -> (r: Result<EvalResult, String>)
    requires
        i <= path@.len(),
    ensures
        eval_agrees(r, walk(path_view(path@).skip(i as int), cur@)),
    decreases path@.len() - i,
{
    let ghost rest = path_view(path@).skip(i as int);
    if i == path.len() {
        assert(rest.len() == 0);
        return value_result_exec(cur);
    }
    assert(rest[0] == path@[i as int]@);
    proof {
        reveal_strlit("length");
        reveal_strlit("exists");
    }
    let field = path[i].as_str();
    if str_eq(field, "length") {
        return match cur {
            JsonValue::Array(items) => {
                proof {
                    lemma_items_view(items@);
                }
                Ok(EvalResult::Number(items.len() as i64))
            },
            _ => {
                let mut m = owned("Cannot get length of non-array: ");
                push_str(&mut m, debug_json(cur).as_str());
                Err(m)
            },
        };
    }
    if str_eq(field, "exists") {
        return Ok(EvalResult::Boolean(!(cur matches JsonValue::Null)));
    }
    assert(rest.drop_first() =~= path_view(path@).skip(i + 1));
    match cur {
        JsonValue::Object(_) => {
            match cur.get(field) {
                Some(x) => walk_exec(path, i + 1, x),
                None => walk_exec(path, i + 1, &JsonValue::Null),
            }
        },
        JsonValue::Null => Ok(EvalResult::Null),
        _ => {
            let mut m = owned("Cannot access field '");
            push_str(&mut m, field);
            push_str(&mut m, "' on non-object: ");
            push_str(&mut m, debug_json(cur).as_str());
            Err(m)
        },
    }
}

fn op_str(op: ComparisonOp) -> (r: &'static str)
    ensures
        r@ == op_text(op),
{
    match op {
        ComparisonOp::Equal => "==",
        ComparisonOp::NotEqual => "!=",
        ComparisonOp::LessThan => "<",
        ComparisonOp::LessThanOrEqual => "<=",
        ComparisonOp::GreaterThan => ">",
        ComparisonOp::GreaterThanOrEqual => ">=",
    }
}

fn compare_exec(l: &EvalResult, op: ComparisonOp, r: &EvalResult) -> (res: Result<bool, String>)
    ensures
        match compare_values(l@, op, r@) {
            Ok(b) => res == Ok::<bool, String>(b),
            Err(m) => res matches Err(x) && x@ == m,
        },
{
    match (l, r) {
        (EvalResult::Number(a), EvalResult::Number(b)) => Ok(match op {
            ComparisonOp::Equal => *a == *b,
            ComparisonOp::NotEqual => *a != *b,
            ComparisonOp::LessThan => *a < *b,
            ComparisonOp::LessThanOrEqual => *a <= *b,
            ComparisonOp::GreaterThan => *a > *b,
            ComparisonOp::GreaterThanOrEqual => *a >= *b,
        }),
        (EvalResult::String(a), EvalResult::String(b)) => Ok(match op {
            ComparisonOp::Equal => str_eq(a.as_str(), b.as_str()),
            ComparisonOp::NotEqual => !str_eq(a.as_str(), b.as_str()),
            ComparisonOp::LessThan => str_less(a.as_str(), b.as_str()),
            ComparisonOp::LessThanOrEqual => !str_less(b.as_str(), a.as_str()),
            ComparisonOp::GreaterThan => str_less(b.as_str(), a.as_str()),
            ComparisonOp::GreaterThanOrEqual => !str_less(a.as_str(), b.as_str()),
        }),
        (EvalResult::Boolean(a), EvalResult::Boolean(b)) => match op {
            ComparisonOp::Equal => Ok(*a == *b),
            ComparisonOp::NotEqual => Ok(*a != *b),
            _ => {
                let mut m = owned("Operator ");
                push_str(&mut m, op_str(op));
                push_str(&mut m, " not supported for booleans");
                Err(m)
            },
        },
        _ => {
            let mut m = owned("Cannot compare ");
            push_str(&mut m, debug_value(l).as_str());
            push_str(&mut m, " and ");
            push_str(&mut m, debug_value(r).as_str());
            push_str(&mut m, " with ");
            push_str(&mut m, op_str(op));
            Err(m)
        },
    }
}

/// Evaluates an expression over a JSON context.
pub fn eval_expr(expr: &Expr, context: &JsonValue) -> (r: Result<EvalResult, String>)
    ensures
        eval_agrees(r, eval(expr@, context@)),
    decreases expr,
{
    match expr {
        Expr::Literal(l) => Ok(match l {
            LiteralValue::Number(n) => EvalResult::Number(*n),
            LiteralValue::String(s) => EvalResult::String(s.clone()),
            LiteralValue::Boolean(b) => EvalResult::Boolean(*b),
        }),
        Expr::FieldAccess(path) => {
            assert(path_view(path@).skip(0) =~= path_view(path@));
            walk_exec(path, 0, context)
        },
        Expr::Comparison { left, op, right } => {
            let a = eval_expr(left, context)?;
            let b = eval_expr(right, context)?;
            match compare_exec(&a, *op, &b) {
                Ok(x) => Ok(EvalResult::Boolean(x)),
                Err(m) => Err(m),
            }
        },
        Expr::And(left, right) => {
            let a = eval_expr(left, context)?;
            let b = eval_expr(right, context)?;
            match (a, b) {
                (EvalResult::Boolean(x), EvalResult::Boolean(y)) => Ok(EvalResult::Boolean(x && y)),
                _ => Err(owned("AND requires boolean operands")),
            }
        },
        Expr::Or(left, right) => {
            let a = eval_expr(left, context)?;
            let b = eval_expr(right, context)?;
            match (a, b) {
                (EvalResult::Boolean(x), EvalResult::Boolean(y)) => Ok(EvalResult::Boolean(x || y)),
                _ => Err(owned("OR requires boolean operands")),
            }
        },
        Expr::Not(inner) => {
            let v = eval_expr(inner, context)?;
            match v {
                EvalResult::Boolean(b) => Ok(EvalResult::Boolean(!b)),
                _ => Err(owned("NOT requires boolean operand")),
            }
        },
    }
}

/// The member `(key, v)` added when `v` is present.
pub open spec fn opt_member(s: Seq<(Seq<char>, JsonView)>, key: Seq<char>, v: Option<JsonView>) -> Seq<(Seq<char>, JsonView)> {
    match v {
        Some(x) => s.push((key, x)),
        None => s,
    }
}

/// A string field as JSON, when present.
pub open spec fn opt_str_json(o: Option<String>) -> Option<JsonView> {
    match o {
        Some(x) => Some(JsonView::Str(x@)),
        None => None,
    }
}

/// How a task state is written in JSON.
pub open spec fn state_json_name(s: TaskState) -> Seq<char> {
    match s {
        TaskState::Submitted => "submitted"@,
        TaskState::Working => "working"@,
        TaskState::InputRequired => "input-required"@,
        TaskState::Completed => "completed"@,
        TaskState::Canceled => "canceled"@,
        TaskState::Failed => "failed"@,
        TaskState::Rejected => "rejected"@,
        TaskState::AuthRequired => "auth-required"@,
        TaskState::Unknown => "unknown"@,
    }
}

/// A part as JSON.
pub open spec fn part_json(p: Part) -> JsonView {
    match p {
        Part::Text { text } => JsonView::Object(seq![("kind"@, JsonView::Str("text"@)), ("text"@, JsonView::Str(text@))]),
        Part::File { name, mime_type, uri, bytes } => JsonView::Object(seq![
            ("file"@, JsonView::Object(opt_member(opt_member(opt_member(opt_member(Seq::empty(),
                "bytes"@, opt_str_json(bytes)), "mimeType"@, opt_str_json(mime_type)), "name"@, opt_str_json(name)),
                "uri"@, opt_str_json(uri)))),
            ("kind"@, JsonView::Str("file"@)),
        ]),
        Part::Data { data } => JsonView::Object(seq![("data"@, JsonView::Str(data@)), ("kind"@, JsonView::Str("data"@))]),
    }
}

/// Parts as a JSON array.
pub open spec fn parts_json(ps: Seq<Part>) -> JsonView {
    JsonView::Array(Seq::new(ps.len(), |i: int| part_json(ps[i])))
}

/// A message as JSON.
pub open spec fn message_json(m: Message) -> JsonView {
    JsonView::Object(
        opt_member(
            opt_member(Seq::<(Seq<char>, JsonView)>::empty(), "contextId"@, opt_str_json(m.context_id)).push(
                ("kind"@, JsonView::Str("message"@)),
            ).push(("messageId"@, JsonView::Str(m.message_id@))).push(("parts"@, parts_json(m.parts@))).push(
                ("role"@, JsonView::Str(if m.role == Role::User { "user"@ } else { "agent"@ })),
            ),
            "taskId"@,
            opt_str_json(m.task_id),
        ),
    )
}

/// An artifact as JSON.
pub open spec fn artifact_json(a: Artifact) -> JsonView {
    JsonView::Object(
        opt_member(opt_member(seq![("artifactId"@, JsonView::Str(a.artifact_id@))], "description"@, opt_str_json(a.description)),
            "name"@, opt_str_json(a.name)).push(("parts"@, parts_json(a.parts@))),
    )
}

/// A task status as JSON.
pub open spec fn status_json(st: TaskStatus) -> JsonView {
    JsonView::Object(
        opt_member(
            opt_member(Seq::empty(), "message"@, match st.message { Some(m) => Some(message_json(m)), None => None }).push(
                ("state"@, JsonView::Str(state_json_name(st.state))),
            ),
            "timestamp"@,
            opt_str_json(st.timestamp),
        ),
    )
}

/// A task as JSON, members in key order as serde_json's map keeps them.
pub open spec fn task_json(t: Task) -> JsonView {
    JsonView::Object(
        opt_member(
            opt_member(Seq::empty(), "artifacts"@, match t.artifacts {
                Some(v) => Some(JsonView::Array(Seq::new(v@.len(), |i: int| artifact_json(v@[i])))),
                None => None,
            }).push(("contextId"@, JsonView::Str(t.context_id@))),
            "history"@,
            match t.history {
                Some(v) => Some(JsonView::Array(Seq::new(v@.len(), |i: int| message_json(v@[i])))),
                None => None,
            },
        ).push(("id"@, JsonView::Str(t.id@))).push(("kind"@, JsonView::Str("task"@))).push(("status"@, status_json(t.status))),
    )
}

fn json_string(s: &String) -> (r: JsonValue)
    ensures
        jview(r) == JsonView::Str(s@),
{
    JsonValue::String(s.clone())
}

fn json_literal(s: &str) -> (r: JsonValue)
    ensures
        jview(r) == JsonView::Str(s@),
{
    JsonValue::String(owned(s))
}

fn push_opt_str(members: &mut Vec<(String, JsonValue)>, key: &str, value: &Option<String>)
    ensures
        members_view(final(members)@) == opt_member(members_view(old(members)@), key@, opt_str_json(*value)),
{
    match value {
        Some(v) => push_member(members, key, json_string(v)),
        None => {},
    }
}

fn object_of(members: Vec<(String, JsonValue)>) -> (r: JsonValue)
    ensures
        jview(r) == JsonView::Object(members_view(members@)),
{
    JsonValue::Object(members)
}

pub(crate) fn part_to_json(p: &Part) -> (r: JsonValue)
    ensures
        jview(r) == part_json(*p),
{
    let mut m: Vec<(String, JsonValue)> = Vec::new();
    match p {
        Part::Text { text } => {
            push_member(&mut m, "kind", json_literal("text"));
            push_member(&mut m, "text", json_string(text));
            assert(*p == Part::Text { text: *text });
            assert(members_view(m@) =~= seq![("kind"@, JsonView::Str("text"@)), ("text"@, JsonView::Str(text@))]);
            let r = object_of(m);
            assert(jview(r) =~~= part_json(*p));
            r
        },
        Part::File { name, mime_type, uri, bytes } => {
            let mut f: Vec<(String, JsonValue)> = Vec::new();
            assert(members_view(f@) =~= Seq::<(Seq<char>, JsonView)>::empty());
            push_opt_str(&mut f, "bytes", bytes);
            push_opt_str(&mut f, "mimeType", mime_type);
            push_opt_str(&mut f, "name", name);
            push_opt_str(&mut f, "uri", uri);
            push_member(&mut m, "file", object_of(f));
            push_member(&mut m, "kind", json_literal("file"));
            assert(*p == Part::File { name: *name, mime_type: *mime_type, uri: *uri, bytes: *bytes });
            let ghost fv = JsonView::Object(opt_member(opt_member(opt_member(opt_member(Seq::empty(),
                "bytes"@, opt_str_json(*bytes)), "mimeType"@, opt_str_json(*mime_type)), "name"@, opt_str_json(*name)),
                "uri"@, opt_str_json(*uri)));
            assert(members_view(m@) =~= seq![("file"@, fv), ("kind"@, JsonView::Str("file"@))]);
            let r = object_of(m);
            assert(jview(r) =~~= part_json(*p));
            r
        },
        Part::Data { data } => {
            push_member(&mut m, "data", json_string(data));
            push_member(&mut m, "kind", json_literal("data"));
            assert(*p == Part::Data { data: *data });
            assert(members_view(m@) =~= seq![("data"@, JsonView::Str(data@)), ("kind"@, JsonView::Str("data"@))]);
            let r = object_of(m);
            assert(jview(r) =~~= part_json(*p));
            r
        },
    }
}

fn parts_to_json(ps: &Vec<Part>) -> (r: JsonValue)
    ensures
        jview(r) == parts_json(ps@),
{
    let mut items: Vec<JsonValue> = Vec::new();
    let mut i: usize = 0;
    while i < ps.len()
        invariant
            i <= ps@.len(),
            items_view(items@) == Seq::new(i as nat, |k: int| part_json(ps@[k])),
        decreases ps@.len() - i,
    {
        let x = part_to_json(&ps[i]);
        let ghost before = items@;
        items.push(x);
        proof {
            lemma_items_push(before, x);
        }
        assert(items_view(items@) =~= Seq::new((i + 1) as nat, |k: int| part_json(ps@[k])));
        i = i + 1;
    }
    assert(Seq::new(i as nat, |k: int| part_json(ps@[k])) =~= Seq::new(ps@.len(), |k: int| part_json(ps@[k])));
    JsonValue::Array(items)
}

pub(crate) fn message_to_json(msg: &Message) -> (r: JsonValue)
    ensures
        jview(r) == message_json(*msg),
{
    let mut m: Vec<(String, JsonValue)> = Vec::new();
    push_opt_str(&mut m, "contextId", &msg.context_id);
    push_member(&mut m, "kind", json_literal("message"));
    push_member(&mut m, "messageId", json_string(&msg.message_id));
    push_member(&mut m, "parts", parts_to_json(&msg.parts));
    let role = match msg.role {
        Role::User => "user",
        Role::Agent => "agent",
    };
    push_member(&mut m, "role", json_literal(role));
    push_opt_str(&mut m, "taskId", &msg.task_id);
    let r = object_of(m);
    assert(jview(r) =~~= message_json(*msg));
    r
}

pub(crate) fn artifact_to_json(a: &Artifact) -> (r: JsonValue)
    ensures
        jview(r) == artifact_json(*a),
{
    let mut m: Vec<(String, JsonValue)> = Vec::new();
    push_member(&mut m, "artifactId", json_string(&a.artifact_id));
    push_opt_str(&mut m, "description", &a.description);
    push_opt_str(&mut m, "name", &a.name);
    push_member(&mut m, "parts", parts_to_json(&a.parts));
    let r = object_of(m);
    assert(jview(r) =~~= artifact_json(*a));
    r
}

fn state_name_json(s: TaskState) -> (r: &'static str)
    ensures
        r@ == state_json_name(s),
{
    match s {
        TaskState::Submitted => "submitted",
        TaskState::Working => "working",
        TaskState::InputRequired => "input-required",
        TaskState::Completed => "completed",
        TaskState::Canceled => "canceled",
        TaskState::Failed => "failed",
        TaskState::Rejected => "rejected",
        TaskState::AuthRequired => "auth-required",
        TaskState::Unknown => "unknown",
    }
}

/// A task written as JSON.
pub fn task_to_json(t: &Task) -> (r: JsonValue)
    ensures
        r@ == task_json(*t),
{
    let mut m: Vec<(String, JsonValue)> = Vec::new();
    match &t.artifacts {
        Some(v) => {
            let mut items: Vec<JsonValue> = Vec::new();
            let mut i: usize = 0;
            while i < v.len()
                invariant
                    i <= v@.len(),
                    items_view(items@) == Seq::new(i as nat, |k: int| artifact_json(v@[k])),
                decreases v@.len() - i,
            {
                let x = artifact_to_json(&v[i]);
                let ghost before = items@;
                items.push(x);
                proof {
                    lemma_items_push(before, x);
                }
                assert(items_view(items@) =~= Seq::new((i + 1) as nat, |k: int| artifact_json(v@[k])));
                i = i + 1;
            }
            assert(Seq::new(i as nat, |k: int| artifact_json(v@[k])) =~= Seq::new(v@.len(), |k: int| artifact_json(v@[k])));
            push_member(&mut m, "artifacts", JsonValue::Array(items));
        },
        None => {},
    }
    push_member(&mut m, "contextId", json_string(&t.context_id));
    match &t.history {
        Some(v) => {
            let mut items: Vec<JsonValue> = Vec::new();
            let mut i: usize = 0;
            while i < v.len()
                invariant
                    i <= v@.len(),
                    items_view(items@) == Seq::new(i as nat, |k: int| message_json(v@[k])),
                decreases v@.len() - i,
            {
                let x = message_to_json(&v[i]);
                let ghost before = items@;
                items.push(x);
                proof {
                    lemma_items_push(before, x);
                }
                assert(items_view(items@) =~= Seq::new((i + 1) as nat, |k: int| message_json(v@[k])));
                i = i + 1;
            }
            assert(Seq::new(i as nat, |k: int| message_json(v@[k])) =~= Seq::new(v@.len(), |k: int| message_json(v@[k])));
            push_member(&mut m, "history", JsonValue::Array(items));
        },
        None => {},
    }
    push_member(&mut m, "id", json_string(&t.id));
    push_member(&mut m, "kind", json_literal("task"));
    let mut st: Vec<(String, JsonValue)> = Vec::new();
    match &t.status.message {
        Some(msg) => push_member(&mut st, "message", message_to_json(msg)),
        None => {},
    }
    push_member(&mut st, "state", json_literal(state_name_json(t.status.state)));
    push_opt_str(&mut st, "timestamp", &t.status.timestamp);
    push_member(&mut m, "status", object_of(st));
    let r = object_of(m);
    assert(jview(r) =~~= task_json(*t));
    r
}

/// What an invariant expression reports on a JSON value.
pub open spec fn dsl_verdict(e: ExprView, source: Seq<char>, v: JsonView) -> Result<(), ViolationView> {
    match eval(e, v) {
        Ok(EvalView::Boolean(true)) => Ok(()),
        Ok(EvalView::Boolean(false)) => Err(ViolationView::Custom {
            name: "dsl_invariant"@,
            reason: "Invariant violated: "@ + source,
        }),
        Ok(x) => Err(ViolationView::Custom {
            name: "dsl_invariant"@,
            reason: "Invariant expression must evaluate to boolean, got: "@ + debug_eval_text(x),
        }),
        Err(m) => Err(ViolationView::Custom { name: "dsl_invariant"@, reason: "Evaluation error: "@ + m }),
    }
}

fn violation(reason: String) -> (r: InvariantViolation)
    ensures
        r@ == (ViolationView::Custom { name: "dsl_invariant"@, reason: reason@ }),
{
    InvariantViolation::Custom { name: owned("dsl_invariant"), reason }
}

impl InvariantExpr {
    /// Evaluates the invariant on a JSON value: it holds when the expression
    /// is `true`.
    pub fn evaluate_json(&self, value: &JsonValue) -> (r: InvariantResult)
        ensures
            result_view(r) == dsl_verdict(self.expr@, self.source@, value@),
    {
        match eval_expr(&self.expr, value) {
            Ok(EvalResult::Boolean(true)) => Ok(()),
            Ok(EvalResult::Boolean(false)) => {
                let mut m = owned("Invariant violated: ");
                push_str(&mut m, self.source.as_str());
                Err(violation(m))
            },
            Ok(x) => {
                let mut m = owned("Invariant expression must evaluate to boolean, got: ");
                push_str(&mut m, debug_value(&x).as_str());
                Err(violation(m))
            },
            Err(e) => {
                let mut m = owned("Evaluation error: ");
                push_str(&mut m, e.as_str());
                Err(violation(m))
            },
        }
    }

    /// Evaluates the invariant on a task, written as JSON.
    pub fn evaluate(&self, task: &Task) -> (r: InvariantResult)
        ensures
            result_view(r) == dsl_verdict(self.expr@, self.source@, task_json(*task)),
    {
        self.evaluate_json(&task_to_json(task))
    }
}

impl Invariant<JsonValue> for InvariantExpr {
    open spec fn verdict(&self, value: JsonValue) -> Result<(), ViolationView> {
        dsl_verdict(self.expr@, self.source@, value@)
    }

    fn check(&self, value: &JsonValue) -> (r: InvariantResult) {
        self.evaluate_json(value)
    }

    fn name(&self) -> &str {
        "dsl_invariant"
    }

    fn description(&self) -> &str {
        self.source.as_str()
    }
}

impl Invariant<Task> for InvariantExpr {
    open spec fn verdict(&self, value: Task) -> Result<(), ViolationView> {
        dsl_verdict(self.expr@, self.source@, task_json(value))
    }

    fn check(&self, value: &Task) -> (r: InvariantResult) {
        self.evaluate(value)
    }

    fn name(&self) -> &str {
        "dsl_invariant"
    }

    fn description(&self) -> &str {
        self.source.as_str()
    }
}

/// The boolean opposite of an outcome that is a boolean.
pub open spec fn negated(v: Result<EvalView, EvalError>) -> Result<EvalView, EvalError> {
    match v {
        Ok(EvalView::Boolean(x)) => Ok(EvalView::Boolean(!x)),
        other => other,
    }
}

/// Comparing two numbers: each operator is the integer relation it is
/// written as, whatever expressions give the numbers. In particular `x > x`
/// is false and `x >= x` is true.
pub proof fn law_number_comparison(l: ExprView, r: ExprView, ctx: JsonView, a: int, b: int)
    requires
        eval(l, ctx) == Ok::<EvalView, EvalError>(EvalView::Number(a)),
        eval(r, ctx) == Ok::<EvalView, EvalError>(EvalView::Number(b)),
    ensures
        eval(ExprView::Comparison(Box::new(l), ComparisonOp::Equal, Box::new(r)), ctx)
            == Ok::<EvalView, EvalError>(EvalView::Boolean(a == b)),
        eval(ExprView::Comparison(Box::new(l), ComparisonOp::NotEqual, Box::new(r)), ctx)
            == Ok::<EvalView, EvalError>(EvalView::Boolean(a != b)),
        eval(ExprView::Comparison(Box::new(l), ComparisonOp::LessThan, Box::new(r)), ctx)
            == Ok::<EvalView, EvalError>(EvalView::Boolean(a < b)),
        eval(ExprView::Comparison(Box::new(l), ComparisonOp::LessThanOrEqual, Box::new(r)), ctx)
            == Ok::<EvalView, EvalError>(EvalView::Boolean(a <= b)),
        eval(ExprView::Comparison(Box::new(l), ComparisonOp::GreaterThan, Box::new(r)), ctx)
            == Ok::<EvalView, EvalError>(EvalView::Boolean(a > b)),
        eval(ExprView::Comparison(Box::new(l), ComparisonOp::GreaterThanOrEqual, Box::new(r)), ctx)
            == Ok::<EvalView, EvalError>(EvalView::Boolean(a >= b)),
{
}

/// Comparing two strings: equality is equality of the texts; `>` is `<`
/// with the operands swapped and `<=` is `>=` with them swapped; `>=` is
/// the opposite of `<`; no string is less or greater than itself; and
/// strings of one character are ordered as their characters.
pub proof fn law_string_comparison(l: ExprView, r: ExprView, ctx: JsonView, a: Seq<char>, b: Seq<char>)
    requires
        eval(l, ctx) == Ok::<EvalView, EvalError>(EvalView::Str(a)),
        eval(r, ctx) == Ok::<EvalView, EvalError>(EvalView::Str(b)),
    ensures
        eval(ExprView::Comparison(Box::new(l), ComparisonOp::Equal, Box::new(r)), ctx)
            == Ok::<EvalView, EvalError>(EvalView::Boolean(a == b)),
        eval(ExprView::Comparison(Box::new(l), ComparisonOp::NotEqual, Box::new(r)), ctx)
            == Ok::<EvalView, EvalError>(EvalView::Boolean(a != b)),
        eval(ExprView::Comparison(Box::new(l), ComparisonOp::GreaterThan, Box::new(r)), ctx)
            == eval(ExprView::Comparison(Box::new(r), ComparisonOp::LessThan, Box::new(l)), ctx),
        eval(ExprView::Comparison(Box::new(l), ComparisonOp::LessThanOrEqual, Box::new(r)), ctx)
            == eval(ExprView::Comparison(Box::new(r), ComparisonOp::GreaterThanOrEqual, Box::new(l)), ctx),
        eval(ExprView::Comparison(Box::new(l), ComparisonOp::GreaterThanOrEqual, Box::new(r)), ctx)
            == negated(eval(ExprView::Comparison(Box::new(l), ComparisonOp::LessThan, Box::new(r)), ctx)),
        eval(ExprView::Comparison(Box::new(l), ComparisonOp::LessThan, Box::new(l)), ctx)
            == Ok::<EvalView, EvalError>(EvalView::Boolean(false)),
        eval(ExprView::Comparison(Box::new(l), ComparisonOp::GreaterThan, Box::new(l)), ctx)
            == Ok::<EvalView, EvalError>(EvalView::Boolean(false)),
        a.len() == 1 && b.len() == 1 ==> eval(ExprView::Comparison(Box::new(l), ComparisonOp::LessThan, Box::new(r)), ctx)
            == Ok::<EvalView, EvalError>(EvalView::Boolean(a[0] < b[0])),
{
    crate::text::lemma_lex_irreflexive(a, 0);
    if a.len() == 1 && b.len() == 1 {
        reveal_with_fuel(crate::text::lex_lt_from, 3);
    }
}

/// An invariant `<path> > m` over a value where the path gives the number
/// `n` holds exactly when `n` is strictly greater than `m`; otherwise it is
/// violated, naming its source.
pub proof fn law_field_greater_than(path: Seq<Seq<char>>, m: int, source: Seq<char>, v: JsonView, n: int)
    requires
        walk(path, v) == Ok::<EvalView, EvalError>(EvalView::Number(n)),
    ensures
        n > m ==> dsl_verdict(ExprView::Comparison(Box::new(ExprView::FieldAccess(path)), ComparisonOp::GreaterThan,
            Box::new(ExprView::Literal(LitView::Number(m)))), source, v) is Ok,
        n <= m ==> dsl_verdict(ExprView::Comparison(Box::new(ExprView::FieldAccess(path)), ComparisonOp::GreaterThan,
            Box::new(ExprView::Literal(LitView::Number(m)))), source, v) == Err::<(), ViolationView>(
            ViolationView::Custom { name: "dsl_invariant"@, reason: "Invariant violated: "@ + source }),
{
    law_number_comparison(ExprView::FieldAccess(path), ExprView::Literal(LitView::Number(m)), v, n, m);
}

/// The comparison operators are read from the characters written: `==`,
/// `!=`, `<=` and `>=` take two characters; a `<` or `>` not followed by `=`
/// is the strict comparison and takes one.
pub proof fn law_operator_symbols(s: Seq<char>, p: int)
    requires
        0 <= p < s.len(),
    ensures
        s[p] == '>' && !(p + 1 < s.len() && s[p + 1] == '=') ==> p_op(s, p) == Some((ComparisonOp::GreaterThan, p + 1)),
        s[p] == '<' && !(p + 1 < s.len() && s[p + 1] == '=') ==> p_op(s, p) == Some((ComparisonOp::LessThan, p + 1)),
        s[p] == '>' && p + 1 < s.len() && s[p + 1] == '=' ==> p_op(s, p) == Some((ComparisonOp::GreaterThanOrEqual, p + 2)),
        s[p] == '<' && p + 1 < s.len() && s[p + 1] == '=' ==> p_op(s, p) == Some((ComparisonOp::LessThanOrEqual, p + 2)),
        s[p] == '=' && p + 1 < s.len() && s[p + 1] == '=' ==> p_op(s, p) == Some((ComparisonOp::Equal, p + 2)),
        s[p] == '!' && p + 1 < s.len() && s[p + 1] == '=' ==> p_op(s, p) == Some((ComparisonOp::NotEqual, p + 2)),
{
}

} // verus!
