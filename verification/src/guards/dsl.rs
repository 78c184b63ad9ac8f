//! A text language for guard rules.
//!
//! ```text
//! REQUIRE <path> TYPE <type>          type of a field (string, number, boolean, object, array, null)
//! REQUIRE <path> IN [<value>, ...]    field among the listed values
//! REQUIRE <path> RANGE <min>..<max>   number within bounds (either may be left out)
//! REQUIRE <path> LENGTH <min>..<max>  string length within bounds
//! REQUIRE FIELD <name>                field present
//! ALLOW TRANSITION <from> -> <to>     allowed state transition
//! ```
//!
//! Keywords are matched in either case; spaces, tabs and line breaks
//! separate the parts. Bounds are kept as the text of their numbers.
use vstd::prelude::*;
use crate::invariants::dsl::{digits_end, digits_end_exec, is_ws, kw_at, kw_at_exec, skip_ws, skip_ws_exec,
    string_of, trim_str, trimmed};
use crate::text::{debug_str, owned, push_str, str_debug_text};

verus! {

/// A parse failure of the guard language.
#[derive(Debug)]
pub enum DslError {
    /// The text is not a rule; the message says where the last rule form failed.
    ParseError(String),
    /// A rule of a kind that cannot be compiled.
    UnsupportedGuard(String),
    /// A rule followed by other text.
    InvalidSyntax(String),
}

/// A parsed guard rule.
#[derive(Debug, PartialEq, Eq)]
pub enum GuardRule {
    TypeCheck { path: String, expected_type: String },
    EnumCheck { path: String, allowed_values: Vec<String> },
    /// Numeric bounds, as the text of their numbers.
    RangeCheck { path: String, min: Option<String>, max: Option<String> },
    /// Length bounds, as the text of their numbers.
    StringLengthCheck { path: String, min_length: Option<String>, max_length: Option<String> },
    RequiredField { field_name: String },
    StateTransition { from: String, to: String },
}

/// The abstract content of a rule.
pub enum RuleView {
    TypeCheck { path: Seq<char>, expected_type: Seq<char> },
    EnumCheck { path: Seq<char>, allowed_values: Seq<Seq<char>> },
    RangeCheck { path: Seq<char>, min: Option<Seq<char>>, max: Option<Seq<char>> },
    StringLengthCheck { path: Seq<char>, min_length: Option<Seq<char>>, max_length: Option<Seq<char>> },
    RequiredField { field_name: Seq<char> },
    StateTransition { from: Seq<char>, to: Seq<char> },
}

/// The view of an optional string.
pub open spec fn ostr(o: Option<String>) -> Option<Seq<char>> {
    match o {
        Some(s) => Some(s@),
        None => None,
    }
}

impl View for GuardRule {
    type V = RuleView;

    open spec fn view(&self) -> RuleView {
        match self {
            GuardRule::TypeCheck { path, expected_type } => RuleView::TypeCheck { path: path@, expected_type: expected_type@ },
            GuardRule::EnumCheck { path, allowed_values } => RuleView::EnumCheck {
                path: path@,
                allowed_values: crate::text::strings_view(allowed_values@),
            },
            GuardRule::RangeCheck { path, min, max } => RuleView::RangeCheck { path: path@, min: ostr(*min), max: ostr(*max) },
            GuardRule::StringLengthCheck { path, min_length, max_length } => RuleView::StringLengthCheck {
                path: path@,
                min_length: ostr(*min_length),
                max_length: ostr(*max_length),
            },
            GuardRule::RequiredField { field_name } => RuleView::RequiredField { field_name: field_name@ },
            GuardRule::StateTransition { from, to } => RuleView::StateTransition { from: from@, to: to@ },
        }
    }
}

/// Whether `char::is_alphanumeric` holds of a character (Unicode letters and
/// numbers); it depends on the character alone.
pub uninterp spec fn alphanumeric(c: char) -> bool;

/// `char::is_alphanumeric`.
#[verifier::external_body]
fn is_alphanumeric(c: char) -> (r: bool)
    ensures
        r == alphanumeric(c),
{
    c.is_alphanumeric()
}

/// A character of a name: alphanumeric, `_` or `-`.
pub open spec fn is_name_char(c: char) -> bool {
    alphanumeric(c) || c == '_' || c == '-'
}

/// A character of a field path: a name character or `.`.
pub open spec fn is_path_char(c: char) -> bool {
    is_name_char(c) || c == '.'
}

/// The end of the run of name characters from `p`.
pub open spec fn name_end(s: Seq<char>, p: int) -> int
    decreases s.len() - p,
{
    if 0 <= p < s.len() && is_name_char(s[p]) { name_end(s, p + 1) } else { p }
}

/// The end of the run of path characters from `p`.
pub open spec fn path_end(s: Seq<char>, p: int) -> int
    decreases s.len() - p,
{
    if 0 <= p < s.len() && is_path_char(s[p]) { path_end(s, p + 1) } else { p }
}

/// A JSON type name at `p`, in either case: the name in lower case and
/// where it ends.
pub open spec fn json_type_at(s: Seq<char>, p: int) -> Option<(Seq<char>, int)> {
    if kw_at(s, p, "string"@, "STRING"@) {
        Some(("string"@, p + 6))
    } else if kw_at(s, p, "number"@, "NUMBER"@) {
        Some(("number"@, p + 6))
    } else if kw_at(s, p, "boolean"@, "BOOLEAN"@) {
        Some(("boolean"@, p + 7))
    } else if kw_at(s, p, "object"@, "OBJECT"@) {
        Some(("object"@, p + 6))
    } else if kw_at(s, p, "array"@, "ARRAY"@) {
        Some(("array"@, p + 5))
    } else if kw_at(s, p, "null"@, "NULL"@) {
        Some(("null"@, p + 4))
    } else {
        None
    }
}

/// `s[i]` is `c`.
pub open spec fn char_at(s: Seq<char>, i: int, c: char) -> bool {
    0 <= i < s.len() && s[i] == c
}

/// The end of the mantissa of a number at `a` (after its sign): digits with
/// an optional fraction of at least one digit, or a point and digits.
pub open spec fn mantissa_end(s: Seq<char>, a: int) -> Option<int> {
    let d = digits_end(s, a);
    if d > a {
        if char_at(s, d, '.') && digits_end(s, d + 1) > d + 1 { Some(digits_end(s, d + 1)) } else { Some(d) }
    } else if char_at(s, a, '.') && digits_end(s, a + 1) > a + 1 {
        Some(digits_end(s, a + 1))
    } else {
        None
    }
}

/// The end of a number at `p`: an optional sign, a mantissa and an optional
/// exponent (`e` or `E`, an optional sign and digits).
pub open spec fn number_end(s: Seq<char>, p: int) -> Option<int> {
    let a = if char_at(s, p, '+') || char_at(s, p, '-') { p + 1 } else { p };
    match mantissa_end(s, a) {
        Some(m) => {
            if char_at(s, m, 'e') || char_at(s, m, 'E') {
                let x = if char_at(s, m + 1, '+') || char_at(s, m + 1, '-') { m + 2 } else { m + 1 };
                let y = digits_end(s, x);
                if y > x { Some(y) } else { Some(m) }
            } else {
                Some(m)
            }
        },
        None => None,
    }
}

/// A range at `p`: optional lower bound, `..`, optional upper bound.
pub open spec fn range_at(s: Seq<char>, p: int) -> Option<(Option<Seq<char>>, Option<Seq<char>>, int)> {
    let (lo, a) = match number_end(s, p) {
        Some(e) => (Some(s.subrange(p, e)), e),
        None => (None, p),
    };
    if char_at(s, a, '.') && char_at(s, a + 1, '.') {
        match number_end(s, a + 2) {
            Some(e) => Some((lo, Some(s.subrange(a + 2, e)), e)),
            None => Some((lo, None, a + 2)),
        }
    } else {
        None
    }
}

/// More `, name` items after the list `acc`, which ends at `q`.
pub open spec fn more_names(s: Seq<char>, q: int, acc: Seq<Seq<char>>) -> (Seq<Seq<char>>, int)
    decreases s.len() - q,
{
    let a = skip_ws(s, q);
    if q <= a && char_at(s, a, ',') {
        let b = skip_ws(s, a + 1);
        let c = name_end(s, b);
        if c > b && b > q && c <= s.len() { more_names(s, c, acc.push(s.subrange(b, c))) } else { (acc, q) }
    } else {
        (acc, q)
    }
}

/// A bracketed list of names at `p`.
pub open spec fn names_at(s: Seq<char>, p: int) -> Option<(Seq<Seq<char>>, int)> {
    if char_at(s, p, '[') {
        let q = skip_ws(s, p + 1);
        let q1 = name_end(s, q);
        if q1 > q {
            let (names, e) = more_names(s, q1, seq![s.subrange(q, q1)]);
            let r = skip_ws(s, e);
            if char_at(s, r, ']') { Some((names, r + 1)) } else { None }
        } else {
            None
        }
    } else {
        None
    }
}

/// `REQUIRE <path>` and whitespace at `p`: the path's bounds and where the
/// whitespace after it ends.
pub open spec fn require_path(s: Seq<char>, p: int) -> Option<(int, int, int)> {
    if kw_at(s, p, "require"@, "REQUIRE"@) {
        let b = skip_ws(s, p + 7);
        let c = path_end(s, b);
        let d = skip_ws(s, c);
        if b > p + 7 && c > b && d > c { Some((b, c, d)) } else { None }
    } else {
        None
    }
}

/// A keyword of `n` letters and whitespace after it at `d`: where that
/// whitespace ends.
pub open spec fn kw_ws(s: Seq<char>, d: int, lo: Seq<char>, up: Seq<char>) -> Option<int> {
    if kw_at(s, d, lo, up) {
        let f = skip_ws(s, d + lo.len());
        if f > d + lo.len() { Some(f) } else { None }
    } else {
        None
    }
}

/// `REQUIRE <path> TYPE <type>` at `p`.
pub open spec fn type_rule(s: Seq<char>, p: int) -> Option<(RuleView, int)> {
    match require_path(s, p) {
        Some((b, c, d)) => match kw_ws(s, d, "type"@, "TYPE"@) {
            Some(f) => match json_type_at(s, f) {
                Some((t, g)) => Some((RuleView::TypeCheck { path: s.subrange(b, c), expected_type: t }, g)),
                None => None,
            },
            None => None,
        },
        None => None,
    }
}

/// `REQUIRE <path> IN [<name>, ...]` at `p`.
pub open spec fn enum_rule(s: Seq<char>, p: int) -> Option<(RuleView, int)> {
    match require_path(s, p) {
        Some((b, c, d)) => if kw_at(s, d, "in"@, "IN"@) {
            match names_at(s, skip_ws(s, d + 2)) {
                Some((names, g)) => Some((RuleView::EnumCheck { path: s.subrange(b, c), allowed_values: names }, g)),
                None => None,
            }
        } else {
            None
        },
        None => None,
    }
}

/// `REQUIRE <path> RANGE <range>` at `p`.
pub open spec fn range_rule(s: Seq<char>, p: int) -> Option<(RuleView, int)> {
    match require_path(s, p) {
        Some((b, c, d)) => match kw_ws(s, d, "range"@, "RANGE"@) {
            Some(f) => match range_at(s, f) {
                Some((lo, hi, g)) => Some((RuleView::RangeCheck { path: s.subrange(b, c), min: lo, max: hi }, g)),
                None => None,
            },
            None => None,
        },
        None => None,
    }
}

/// `REQUIRE <path> LENGTH <range>` at `p`.
pub open spec fn length_rule(s: Seq<char>, p: int) -> Option<(RuleView, int)> {
    match require_path(s, p) {
        Some((b, c, d)) => match kw_ws(s, d, "length"@, "LENGTH"@) {
            Some(f) => match range_at(s, f) {
                Some((lo, hi, g)) => Some((RuleView::StringLengthCheck { path: s.subrange(b, c), min_length: lo, max_length: hi }, g)),
                None => None,
            },
            None => None,
        },
        None => None,
    }
}

/// `REQUIRE FIELD <name>` at `p`.
pub open spec fn field_rule(s: Seq<char>, p: int) -> Option<(RuleView, int)> {
    match kw_ws(s, p, "require"@, "REQUIRE"@) {
        Some(b) => match kw_ws(s, b, "field"@, "FIELD"@) {
            Some(d) => {
                let e = name_end(s, d);
                if e > d { Some((RuleView::RequiredField { field_name: s.subrange(d, e) }, e)) } else { None }
            },
            None => None,
        },
        None => None,
    }
}

/// `ALLOW TRANSITION <from> -> <to>` at `p`, or where and why it fails: the
/// position and the kind of the failed step (`Tag`, `MultiSpace` or
/// `TakeWhile1`).
pub open spec fn transition_rule(s: Seq<char>, p: int) -> Result<(RuleView, int), (int, Seq<char>)> {
    if !kw_at(s, p, "allow"@, "ALLOW"@) {
        Err((p, "Tag"@))
    } else if skip_ws(s, p + 5) == p + 5 {
        Err((p + 5, "MultiSpace"@))
    } else {
        let b = skip_ws(s, p + 5);
        if !kw_at(s, b, "transition"@, "TRANSITION"@) {
            Err((b, "Tag"@))
        } else if skip_ws(s, b + 10) == b + 10 {
            Err((b + 10, "MultiSpace"@))
        } else {
            let d = skip_ws(s, b + 10);
            let e = name_end(s, d);
            if e == d {
                Err((d, "TakeWhile1"@))
            } else {
                let f = skip_ws(s, e);
                if !(char_at(s, f, '-') && char_at(s, f + 1, '>')) {
                    Err((f, "Tag"@))
                } else {
                    let g = skip_ws(s, f + 2);
                    let h = name_end(s, g);
                    if h == g {
                        Err((g, "TakeWhile1"@))
                    } else {
                        Ok((RuleView::StateTransition { from: s.subrange(d, e), to: s.subrange(g, h) }, h))
                    }
                }
            }
        }
    }
}

/// The first rule form that matches at `p`, tried in the order type, enum,
/// range, length, field, transition; else the failure of the last form.
pub open spec fn rule_at(s: Seq<char>, p: int) -> Result<(RuleView, int), (int, Seq<char>)> {
    if let Some(x) = type_rule(s, p) {
        Ok(x)
    } else if let Some(x) = enum_rule(s, p) {
        Ok(x)
    } else if let Some(x) = range_rule(s, p) {
        Ok(x)
    } else if let Some(x) = length_rule(s, p) {
        Ok(x)
    } else if let Some(x) = field_rule(s, p) {
        Ok(x)
    } else {
        transition_rule(s, p)
    }
}

/// The abstract outcome of parsing a guard rule.
pub enum DslOutcome {
    Parsed(RuleView),
    ParseError(Seq<char>),
    InvalidSyntax(Seq<char>),
    Unsupported(Seq<char>),
}

/// What `parse_guard` gives for `s`: the rule, after leading and before
/// trailing whitespace; a rule followed by other text is invalid syntax;
/// text that is no rule is a parse error naming where and why the last rule
/// form failed.
pub open spec fn guard_grammar(s: Seq<char>) -> DslOutcome {
    match rule_at(s, skip_ws(s, 0)) {
        Ok((rule, e)) => {
            let rest = s.subrange(skip_ws(s, e), s.len() as int);
            if trimmed(rest).len() == 0 {
                DslOutcome::Parsed(rule)
            } else {
                DslOutcome::InvalidSyntax("Unexpected trailing input: '"@ + rest + "'"@)
            }
        },
        Err((q, kind)) => DslOutcome::ParseError("Failed to parse guard rule: Error(Error { input: "@
            + str_debug_text(s.subrange(q, s.len() as int)) + ", code: "@ + kind + " })"@),
    }
}

/// The view of a parse outcome.
pub open spec fn outcome_of(r: Result<GuardRule, DslError>) -> DslOutcome {
    match r {
        Ok(g) => DslOutcome::Parsed(g@),
        Err(DslError::ParseError(m)) => DslOutcome::ParseError(m@),
        Err(DslError::InvalidSyntax(m)) => DslOutcome::InvalidSyntax(m@),
        Err(DslError::UnsupportedGuard(m)) => DslOutcome::Unsupported(m@),
    }
}

fn name_end_exec(s: &Vec<char>, p: usize) -> (r: usize)
    requires
        p <= s@.len(),
    ensures
        r as int == name_end(s@, p as int),
        p <= r <= s@.len(),
    decreases s@.len() - p,
{
    let slen = s.len();
    assert(slen == s@.len());
    if p < s.len() && (is_alphanumeric(s[p]) || s[p] == '_' || s[p] == '-') { name_end_exec(s, p + 1) } else { p }
}

fn path_end_exec(s: &Vec<char>, p: usize) -> (r: usize)
    requires
        p <= s@.len(),
    ensures
        r as int == path_end(s@, p as int),
        p <= r <= s@.len(),
    decreases s@.len() - p,
{
    let slen = s.len();
    assert(slen == s@.len());
    if p < s.len() && (is_alphanumeric(s[p]) || s[p] == '_' || s[p] == '-' || s[p] == '.') {
        path_end_exec(s, p + 1)
    } else {
        p
    }
}

fn char_at_exec(s: &Vec<char>, i: usize, c: char) -> (r: bool)
    ensures
        r == char_at(s@, i as int, c),
{
    let slen = s.len();
    assert(slen == s@.len());
    i < s.len() && s[i] == c
}

fn json_type_exec(s: &Vec<char>, p: usize) -> (r: Option<(String, usize)>)
    requires
        p <= s@.len(),
    ensures
        match json_type_at(s@, p as int) {
            Some((t, e)) => r matches Some((x, k)) && x@ == t && k as int == e && k <= s@.len(),
            None => r is None,
        },
{
    let slen = s.len();
    assert(slen == s@.len());
    proof {
        reveal_strlit("string"); reveal_strlit("STRING");
        reveal_strlit("number"); reveal_strlit("NUMBER");
        reveal_strlit("boolean"); reveal_strlit("BOOLEAN");
        reveal_strlit("object"); reveal_strlit("OBJECT");
        reveal_strlit("array"); reveal_strlit("ARRAY");
        reveal_strlit("null"); reveal_strlit("NULL");
    }
    if kw_at_exec(s, p, "string", "STRING") {
        Some((owned("string"), p + 6))
    } else if kw_at_exec(s, p, "number", "NUMBER") {
        Some((owned("number"), p + 6))
    } else if kw_at_exec(s, p, "boolean", "BOOLEAN") {
        Some((owned("boolean"), p + 7))
    } else if kw_at_exec(s, p, "object", "OBJECT") {
        Some((owned("object"), p + 6))
    } else if kw_at_exec(s, p, "array", "ARRAY") {
        Some((owned("array"), p + 5))
    } else if kw_at_exec(s, p, "null", "NULL") {
        Some((owned("null"), p + 4))
    } else {
        None
    }
}

fn mantissa_end_exec(s: &Vec<char>, a: usize) -> (r: Option<usize>)
    requires
        a <= s@.len(),
    ensures
        match mantissa_end(s@, a as int) {
            Some(e) => r == Some(e as usize) && a < e <= s@.len(),
            None => r is None,
        },
{
    let slen = s.len();
    assert(slen == s@.len());
    let d = digits_end_exec(s, a);
    if d > a {
        if char_at_exec(s, d, '.') {
            let f = digits_end_exec(s, d + 1);
            if f > d + 1 {
                return Some(f);
            }
        }
        Some(d)
    } else if char_at_exec(s, a, '.') {
        let f = digits_end_exec(s, a + 1);
        if f > a + 1 { Some(f) } else { None }
    } else {
        None
    }
}

fn number_end_exec(s: &Vec<char>, p: usize) -> (r: Option<usize>)
    requires
        p <= s@.len(),
    ensures
        match number_end(s@, p as int) {
            Some(e) => r == Some(e as usize) && p < e <= s@.len(),
            None => r is None,
        },
{
    let slen = s.len();
    assert(slen == s@.len());
    let a = if char_at_exec(s, p, '+') || char_at_exec(s, p, '-') { p + 1 } else { p };
    match mantissa_end_exec(s, a) {
        Some(m) => {
            if char_at_exec(s, m, 'e') || char_at_exec(s, m, 'E') {
                let x = if char_at_exec(s, m + 1, '+') || char_at_exec(s, m + 1, '-') { m + 2 } else { m + 1 };
                let y = digits_end_exec(s, x);
                if y > x { Some(y) } else { Some(m) }
            } else {
                Some(m)
            }
        },
        None => None,
    }
}

fn range_exec(s: &Vec<char>, p: usize) -> (r: Option<(Option<String>, Option<String>, usize)>)
    requires
        p <= s@.len(),
    ensures
        match range_at(s@, p as int) {
            Some((lo, hi, e)) => r matches Some((x, y, k)) && ostr(x) == lo && ostr(y) == hi && k as int == e
                && k <= s@.len(),
            None => r is None,
        },
{
    let slen = s.len();
    assert(slen == s@.len());
    let (lo, a) = match number_end_exec(s, p) {
        Some(e) => (Some(string_of(s, p, e)), e),
        None => (None, p),
    };
    if char_at_exec(s, a, '.') && char_at_exec(s, a + 1, '.') {
        match number_end_exec(s, a + 2) {
            Some(e) => Some((lo, Some(string_of(s, a + 2, e)), e)),
            None => Some((lo, None, a + 2)),
        }
    } else {
        None
    }
}

fn more_names_exec(s: &Vec<char>, q: usize, acc: Vec<String>) -> (r: (Vec<String>, usize))
    requires
        q <= s@.len(),
    ensures
        (crate::text::strings_view(r.0@), r.1 as int) == more_names(s@, q as int, crate::text::strings_view(acc@)),
        r.1 <= s@.len(),
    decreases s@.len() - q,
{
    let slen = s.len();
    assert(slen == s@.len());
    let a = skip_ws_exec(s, q);
    if char_at_exec(s, a, ',') {
        let b = skip_ws_exec(s, a + 1);
        let c = name_end_exec(s, b);
        if c > b && b > q {
            let mut acc2 = acc;
            let ghost before = acc2@;
            acc2.push(string_of(s, b, c));
            assert(crate::text::strings_view(acc2@) =~= crate::text::strings_view(before).push(s@.subrange(b as int, c as int)));
            return more_names_exec(s, c, acc2);
        }
    }
    (acc, q)
}

fn names_exec(s: &Vec<char>, p: usize) -> (r: Option<(Vec<String>, usize)>)
    requires
        p <= s@.len(),
    ensures
        match names_at(s@, p as int) {
            Some((n, e)) => r matches Some((v, k)) && crate::text::strings_view(v@) == n && k as int == e,
            None => r is None,
        },
{
    let slen = s.len();
    assert(slen == s@.len());
    if !char_at_exec(s, p, '[') {
        return None;
    }
    let q = skip_ws_exec(s, p + 1);
    let q1 = name_end_exec(s, q);
    if q1 <= q {
        return None;
    }
    let mut first: Vec<String> = Vec::new();
    first.push(string_of(s, q, q1));
    assert(crate::text::strings_view(first@) =~= seq![s@.subrange(q as int, q1 as int)]);
    let (names, e) = more_names_exec(s, q1, first);
    let r = skip_ws_exec(s, e);
    if char_at_exec(s, r, ']') { Some((names, r + 1)) } else { None }
}

fn require_path_exec(s: &Vec<char>, p: usize) -> (r: Option<(usize, usize, usize)>)
    requires
        p <= s@.len(),
    ensures
        match require_path(s@, p as int) {
            Some((b, c, d)) => r matches Some((x, y, z)) && x == b && y == c && z == d && z <= s@.len(),
            None => r is None,
        },
{
    let slen = s.len();
    assert(slen == s@.len());
    proof { reveal_strlit("require"); reveal_strlit("REQUIRE"); }
    if kw_at_exec(s, p, "require", "REQUIRE") {
        let b = skip_ws_exec(s, p + 7);
        let c = path_end_exec(s, b);
        let d = skip_ws_exec(s, c);
        if b > p + 7 && c > b && d > c { Some((b, c, d)) } else { None }
    } else {
        None
    }
}

fn kw_ws_exec(s: &Vec<char>, d: usize, lo: &str, up: &str, n: usize) -> (r: Option<usize>)
    requires
        d <= s@.len(),
        lo@.len() == up@.len(),
        n == lo@.len(),
    ensures
        match kw_ws(s@, d as int, lo@, up@) {
            Some(f) => r == Some(f as usize) && f <= s@.len(),
            None => r is None,
        },
{
    let slen = s.len();
    assert(slen == s@.len());
    if kw_at_exec(s, d, lo, up) {
        let f = skip_ws_exec(s, d + n);
        if f > d + n { Some(f) } else { None }
    } else {
        None
    }
}

/// The outcome `sp` of a rule form, held by `r`.
pub open spec fn rule_agrees(r: Option<(GuardRule, usize)>, sp: Option<(RuleView, int)>) -> bool {
    match sp {
        Some((v, e)) => r matches Some((g, k)) && g@ == v && k as int == e,
        None => r is None,
    }
}

fn type_rule_exec(s: &Vec<char>, p: usize) -> (r: Option<(GuardRule, usize)>)
    requires
        p <= s@.len(),
    ensures
        rule_agrees(r, type_rule(s@, p as int)),
        r matches Some((_, k)) ==> k <= s@.len(),
{
    let slen = s.len();
    assert(slen == s@.len());
    proof { reveal_strlit("type"); reveal_strlit("TYPE"); }
    match require_path_exec(s, p) {
        Some((b, c, d)) => match kw_ws_exec(s, d, "type", "TYPE", 4) {
            Some(f) => match json_type_exec(s, f) {
                Some((t, g)) => Some((GuardRule::TypeCheck { path: string_of(s, b, c), expected_type: t }, g)),
                None => None,
            },
            None => None,
        },
        None => None,
    }
}

fn enum_rule_exec(s: &Vec<char>, p: usize) -> (r: Option<(GuardRule, usize)>)
    requires
        p <= s@.len(),
    ensures
        rule_agrees(r, enum_rule(s@, p as int)),
        r matches Some((_, k)) ==> k <= s@.len(),
{
    let slen = s.len();
    assert(slen == s@.len());
    proof { reveal_strlit("in"); reveal_strlit("IN"); }
    match require_path_exec(s, p) {
        Some((b, c, d)) => {
            if kw_at_exec(s, d, "in", "IN") {
                let q = skip_ws_exec(s, d + 2);
                match names_exec(s, q) {
                    Some((names, g)) => Some((GuardRule::EnumCheck { path: string_of(s, b, c), allowed_values: names }, g)),
                    None => None,
                }
            } else {
                None
            }
        },
        None => None,
    }
}

fn range_rule_exec(s: &Vec<char>, p: usize, length: bool) -> (r: Option<(GuardRule, usize)>)
    requires
        p <= s@.len(),
    ensures
        rule_agrees(r, if length { length_rule(s@, p as int) } else { range_rule(s@, p as int) }),
        r matches Some((_, k)) ==> k <= s@.len(),
{
    let slen = s.len();
    assert(slen == s@.len());
    proof { reveal_strlit("range"); reveal_strlit("RANGE"); reveal_strlit("length"); reveal_strlit("LENGTH"); }
    match require_path_exec(s, p) {
        Some((b, c, d)) => {
            let k = if length { kw_ws_exec(s, d, "length", "LENGTH", 6) } else { kw_ws_exec(s, d, "range", "RANGE", 5) };
            match k {
                Some(f) => match range_exec(s, f) {
                    Some((lo, hi, g)) => {
                        let path = string_of(s, b, c);
                        if length {
                            Some((GuardRule::StringLengthCheck { path, min_length: lo, max_length: hi }, g))
                        } else {
                            Some((GuardRule::RangeCheck { path, min: lo, max: hi }, g))
                        }
                    },
                    None => None,
                },
                None => None,
            }
        },
        None => None,
    }
}

fn field_rule_exec(s: &Vec<char>, p: usize) -> (r: Option<(GuardRule, usize)>)
    requires
        p <= s@.len(),
    ensures
        rule_agrees(r, field_rule(s@, p as int)),
        r matches Some((_, k)) ==> k <= s@.len(),
{
    let slen = s.len();
    assert(slen == s@.len());
    proof { reveal_strlit("require"); reveal_strlit("REQUIRE"); reveal_strlit("field"); reveal_strlit("FIELD"); }
    match kw_ws_exec(s, p, "require", "REQUIRE", 7) {
        Some(b) => match kw_ws_exec(s, b, "field", "FIELD", 5) {
            Some(d) => {
                let e = name_end_exec(s, d);
                if e > d { Some((GuardRule::RequiredField { field_name: string_of(s, d, e) }, e)) } else { None }
            },
            None => None,
        },
        None => None,
    }
}

fn transition_rule_exec(s: &Vec<char>, p: usize) -> (r: Result<(GuardRule, usize), (usize, &'static str)>)
    requires
        p <= s@.len(),
    ensures
        match transition_rule(s@, p as int) {
            Ok((v, e)) => r matches Ok((g, k)) && g@ == v && k as int == e && k <= s@.len(),
            Err((q, kind)) => r matches Err((x, t)) && x as int == q && t@ == kind && x <= s@.len(),
        },
{
    let slen = s.len();
    assert(slen == s@.len());
    proof { reveal_strlit("allow"); reveal_strlit("ALLOW"); reveal_strlit("transition"); reveal_strlit("TRANSITION"); }
    if !kw_at_exec(s, p, "allow", "ALLOW") {
        return Err((p, "Tag"));
    }
    if p + 5 > s.len() {
        return Err((p + 5, "MultiSpace"));
    }
    let b = skip_ws_exec(s, p + 5);
    if b == p + 5 {
        return Err((p + 5, "MultiSpace"));
    }
    if !kw_at_exec(s, b, "transition", "TRANSITION") {
        return Err((b, "Tag"));
    }
    let d = skip_ws_exec(s, b + 10);
    if d == b + 10 {
        return Err((b + 10, "MultiSpace"));
    }
    let e = name_end_exec(s, d);
    if e == d {
        return Err((d, "TakeWhile1"));
    }
    let f = skip_ws_exec(s, e);
    if !(char_at_exec(s, f, '-') && char_at_exec(s, f + 1, '>')) {
        return Err((f, "Tag"));
    }
    let g = skip_ws_exec(s, f + 2);
    let h = name_end_exec(s, g);
    if h == g {
        return Err((g, "TakeWhile1"));
    }
    Ok((GuardRule::StateTransition { from: string_of(s, d, e), to: string_of(s, g, h) }, h))
}

/// Parses one guard rule. Text that is no rule is a `ParseError`; a rule
/// followed by other text is `InvalidSyntax`.
pub fn parse_guard(input: &str) -> (r: Result<GuardRule, DslError>)
    ensures
        outcome_of(r) == guard_grammar(input@),
{
    let s = crate::text::chars_of(input);
    let slen = s.len();
    assert(slen == s@.len());
    let p = skip_ws_exec(&s, 0);
    let found = match type_rule_exec(&s, p) {
        Some(x) => Ok(x),
        None => match enum_rule_exec(&s, p) {
            Some(x) => Ok(x),
            None => match range_rule_exec(&s, p, false) {
                Some(x) => Ok(x),
                None => match range_rule_exec(&s, p, true) {
                    Some(x) => Ok(x),
                    None => match field_rule_exec(&s, p) {
                        Some(x) => Ok(x),
                        None => transition_rule_exec(&s, p),
                    },
                },
            },
        },
    };
    match found {
        Ok((rule, e)) => {
            let q = skip_ws_exec(&s, e);
            let rest = string_of(&s, q, s.len());
            let t = trim_str(rest.as_str());
            if t.is_empty() {
                Ok(rule)
            } else {
                let mut m = owned("Unexpected trailing input: '");
                push_str(&mut m, rest.as_str());
                push_str(&mut m, "'");
                Err(DslError::InvalidSyntax(m))
            }
        },
        Err((q, kind)) => {
            let rest = string_of(&s, q, s.len());
            let mut m = owned("Failed to parse guard rule: Error(Error { input: ");
            let d = debug_str(rest.as_str());
            push_str(&mut m, d.as_str());
            push_str(&mut m, ", code: ");
            push_str(&mut m, kind);
            push_str(&mut m, " })");
            Err(DslError::ParseError(m))
        },
    }
}

/// The pieces of `s` between `\n` characters (one more than there are).
pub open spec fn pieces(s: Seq<char>) -> Seq<Seq<char>>
    decreases s.len(),
{
    if s.len() == 0 {
        seq![Seq::empty()]
    } else if s.last() == '\n' {
        pieces(s.drop_last()).push(Seq::empty())
    } else {
        let p = pieces(s.drop_last());
        p.update(p.len() - 1, p.last().push(s.last()))
    }
}

/// A line without the `\r` of a `\r\n` ending.
pub open spec fn strip_cr(l: Seq<char>) -> Seq<char> {
    if l.len() > 0 && l.last() == '\r' { l.drop_last() } else { l }
}

/// The lines of `s`, as `str::lines` gives them: split at `\n`, each line
/// ended by `\n` losing a `\r` before it, and no empty line after a final `\n`.
pub open spec fn lines_of(s: Seq<char>) -> Seq<Seq<char>> {
    let p = pieces(s);
    Seq::new((p.len() - 1) as nat, |i: int| strip_cr(p[i])) + (if p.last().len() > 0 { seq![p.last()] } else { Seq::empty() })
}

/// `str::lines`, each line copied.
#[verifier::external_body]
fn str_lines(s: &str) -> (r: Vec<String>)
    ensures
        crate::text::strings_view(r@) == lines_of(s@),
{
    s.lines().map(|l| l.to_string()).collect()
}

/// How a parse error of a line is written.
pub open spec fn error_text(o: DslOutcome) -> Seq<char> {
    match o {
        DslOutcome::ParseError(m) => "Parse error: "@ + m,
        DslOutcome::InvalidSyntax(m) => "Invalid syntax: "@ + m,
        DslOutcome::Unsupported(m) => "Unsupported guard type: "@ + m,
        DslOutcome::Parsed(_) => Seq::empty(),
    }
}

/// A line that holds no rule: blank, or a comment starting with `#`.
pub open spec fn skipped(t: Seq<char>) -> bool {
    t.len() == 0 || t[0] == '#'
}

/// The rules of the lines of `ls` from `i` on, after those in `acc`; the
/// first line that holds a bad rule stops it, with its number (from 1).
pub open spec fn rules_from(ls: Seq<Seq<char>>, i: int, acc: Seq<RuleView>) -> Result<Seq<RuleView>, Seq<char>>
    decreases ls.len() - i,
{
    if i >= ls.len() || i < 0 {
        Ok(acc)
    } else {
        let t = trimmed(ls[i]);
        if skipped(t) {
            rules_from(ls, i + 1, acc)
        } else {
            match guard_grammar(t) {
                DslOutcome::Parsed(r) => rules_from(ls, i + 1, acc.push(r)),
                o => Err("Line "@ + crate::text::dec_of((i + 1) as nat) + ": "@ + error_text(o)),
            }
        }
    }
}

/// Parses one rule per line, skipping blank lines and `#` comments; a bad
/// line is a `ParseError` naming it.
pub fn parse_guards(input: &str) -> (r: Result<Vec<GuardRule>, DslError>)
    ensures
        match rules_from(lines_of(input@), 0, Seq::empty()) {
            Ok(rules) => r matches Ok(v) && v@.len() == rules.len()
                && forall|k: int| 0 <= k < rules.len() ==> (#[trigger] v@[k])@ == rules[k],
            Err(m) => r matches Err(DslError::ParseError(x)) && x@ == m,
        },
{
    let lines = str_lines(input);
    let ghost ls = lines_of(input@);
    let mut rules: Vec<GuardRule> = Vec::new();
    let ghost acc: Seq<RuleView> = Seq::empty();
    let mut i: usize = 0;
    while i < lines.len()
        invariant
            crate::text::strings_view(lines@) == ls,
            ls == lines_of(input@),
            i <= lines@.len(),
            rules@.len() == acc.len(),
            forall|k: int| 0 <= k < acc.len() ==> (#[trigger] rules@[k])@ == acc[k],
            rules_from(ls, 0, Seq::empty()) == rules_from(ls, i as int, acc),
        decreases lines@.len() - i,
    {
        assert(ls[i as int] == lines@[i as int]@);
        let t = trim_str(lines[i].as_str());
        let tc = crate::text::chars_of(t);
        if tc.len() == 0 || tc[0] == '#' {
            i = i + 1;
            continue;
        }
        match parse_guard(t) {
            Ok(rule) => {
                proof {
                    acc = acc.push(rule@);
                }
                rules.push(rule);
            },
            Err(e) => {
                let mut m = owned("Line ");
                crate::text::push_decimal((i as u64) + 1, &mut m);
                push_str(&mut m, ": ");
                match e {
                    DslError::ParseError(x) => {
                        push_str(&mut m, "Parse error: ");
                        push_str(&mut m, x.as_str());
                    },
                    DslError::InvalidSyntax(x) => {
                        push_str(&mut m, "Invalid syntax: ");
                        push_str(&mut m, x.as_str());
                    },
                    DslError::UnsupportedGuard(x) => {
                        push_str(&mut m, "Unsupported guard type: ");
                        push_str(&mut m, x.as_str());
                    },
                }
                return Err(DslError::ParseError(m));
            },
        }
        i = i + 1;
    }
    Ok(rules)
}

} // verus!
