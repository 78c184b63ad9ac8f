//! JSON values as the guards read them, and their compact JSON text.
use vstd::prelude::*;
use crate::text::{push_bool, push_char, push_str, str_eq, bool_text, debug_str, str_debug_text};
use crate::hashing::{hex_digit, push_hex};

verus! {

/// A JSON value. Object members keep the order they were given in; a value
/// read from serde_json has them in key order, as serde_json's map keeps them.
#[derive(Debug)]
pub enum JsonValue {
    Null,
    Bool(bool),
    /// A number, held as the text serde_json writes for it.
    Number(String),
    String(String),
    Array(Vec<JsonValue>),
    Object(Vec<(String, JsonValue)>),
}

/// The name of a value's JSON type.
pub open spec fn kind_name(v: JsonValue) -> Seq<char> {
    match v {
        JsonValue::Null => "null"@,
        JsonValue::Bool(_) => "boolean"@,
        JsonValue::Number(_) => "number"@,
        JsonValue::String(_) => "string"@,
        JsonValue::Array(_) => "array"@,
        JsonValue::Object(_) => "object"@,
    }
}

/// The hexadecimal digit `d < 16`, lowercase.
pub open spec fn hex4(c: char) -> Seq<char> {
    let n = c as nat;
    seq!['0', '0', hex_digit(n / 16), hex_digit(n % 16)]
}

/// How serde_json writes one character inside a string.
pub open spec fn escape_char(c: char) -> Seq<char> {
    if c == '"' {
        seq!['\\', '"']
    } else if c == '\\' {
        seq!['\\', '\\']
    } else if c == '\u{8}' {
        seq!['\\', 'b']
    } else if c == '\u{c}' {
        seq!['\\', 'f']
    } else if c == '\n' {
        seq!['\\', 'n']
    } else if c == '\r' {
        seq!['\\', 'r']
    } else if c == '\t' {
        seq!['\\', 't']
    } else if (c as nat) < 32 {
        seq!['\\', 'u'] + hex4(c)
    } else {
        seq![c]
    }
}

/// The pieces of `ss`, one after the other.
pub open spec fn concat_all(ss: Seq<Seq<char>>) -> Seq<char>
    decreases ss.len(),
{
    if ss.len() == 0 { Seq::empty() } else { concat_all(ss.drop_last()) + ss.last() }
}

/// The pieces of `ss`, separated by commas.
pub open spec fn join_commas(ss: Seq<Seq<char>>) -> Seq<char>
    decreases ss.len(),
{
    if ss.len() == 0 {
        Seq::empty()
    } else if ss.len() == 1 {
        ss[0]
    } else {
        join_commas(ss.drop_last()) + seq![','] + ss.last()
    }
}

/// A string written as a JSON string literal.
pub open spec fn quoted(s: Seq<char>) -> Seq<char> {
    seq!['"'] + concat_all(Seq::new(s.len(), |i: int| escape_char(s[i]))) + seq!['"']
}

/// The compact JSON text of a value, as `serde_json::to_string` writes it.
pub open spec fn json_text(v: JsonValue) -> Seq<char>
    decreases v,
{
    match v {
        JsonValue::Null => "null"@,
        JsonValue::Bool(b) => if b { "true"@ } else { "false"@ },
        JsonValue::Number(n) => n@,
        JsonValue::String(s) => quoted(s@),
        JsonValue::Array(items) => {
            proof {
                assert(decreases_to!(v => v->Array_0));
                assert(decreases_to!(items => items@));
            }
            seq!['['] + items_text(items@) + seq![']']
        },
        JsonValue::Object(members) => {
            proof {
                assert(decreases_to!(v => v->Object_0));
                assert(decreases_to!(members => members@));
            }
            seq!['{'] + members_text(members@) + seq!['}']
        },
    }
}

/// The texts of `s`, separated by commas.
pub open spec fn items_text(s: Seq<JsonValue>) -> Seq<char>
    decreases s,
{
    if s.len() == 0 {
        Seq::empty()
    } else {
        proof {
            assert(decreases_to!(s => s[s.len() - 1]));
            assert(decreases_to!(s => s.subrange(0, s.len() - 1)));
        }
        if s.len() == 1 {
            json_text(s[0])
        } else {
            items_text(s.subrange(0, s.len() - 1)) + seq![','] + json_text(s[s.len() - 1])
        }
    }
}

/// The members of an object, `"key":value`, separated by commas.
pub open spec fn members_text(s: Seq<(String, JsonValue)>) -> Seq<char>
    decreases s,
{
    if s.len() == 0 {
        Seq::empty()
    } else {
        proof {
            assert(decreases_to!(s => s[s.len() - 1]));
            assert(decreases_to!(s[s.len() - 1] => s[s.len() - 1].1));
            assert(decreases_to!(s => s.subrange(0, s.len() - 1)));
        }
        if s.len() == 1 {
            quoted(s[0].0@) + seq![':'] + json_text(s[0].1)
        } else {
            members_text(s.subrange(0, s.len() - 1)) + seq![','] + quoted(s[s.len() - 1].0@) + seq![':']
                + json_text(s[s.len() - 1].1)
        }
    }
}

fn push_escaped_char(c: char, out: &mut String)
    ensures
        final(out)@ == old(out)@ + escape_char(c),
{
    if c == '"' {
        push_str(out, "\\\"");
        proof { reveal_strlit("\\\""); }
    } else if c == '\\' {
        push_str(out, "\\\\");
        proof { reveal_strlit("\\\\"); }
    } else if c == '\u{8}' {
        push_str(out, "\\b");
        proof { reveal_strlit("\\b"); }
    } else if c == '\u{c}' {
        push_str(out, "\\f");
        proof { reveal_strlit("\\f"); }
    } else if c == '\n' {
        push_str(out, "\\n");
        proof { reveal_strlit("\\n"); }
    } else if c == '\r' {
        push_str(out, "\\r");
        proof { reveal_strlit("\\r"); }
    } else if c == '\t' {
        push_str(out, "\\t");
        proof { reveal_strlit("\\t"); }
    } else if (c as u32) < 32 {
        push_str(out, "\\u00");
        proof { reveal_strlit("\\u00"); }
        let n: u32 = c as u32;
        let ghost mid = out@;
        if n < 16 {
            push_char(out, '0');
        } else {
            push_char(out, '1');
        }
        push_hex((n % 16) as u64, out);
        proof {
            assert(hex_digit((c as nat) / 16) == if n < 16 { '0' } else { '1' });
            reveal_with_fuel(crate::hashing::hex_of, 2);
        }
        assert(out@ =~= old(out)@ + escape_char(c));
        return;
    } else {
        push_char(out, c);
    }
    assert(out@ =~= old(out)@ + escape_char(c));
}

/// Appends `s` as a JSON string literal.
pub fn push_quoted(s: &str, out: &mut String)
    ensures
        final(out)@ == old(out)@ + quoted(s@),
{
    let ghost pieces = Seq::new(s@.len(), |i: int| escape_char(s@[i]));
    push_char(out, '"');
    let ghost start = out@;
    let mut i: usize = 0;
    for c in it: s.chars()
        invariant
            it.seq() == s@,
            out@ == start + concat_all(pieces.take(it.index() as int)),
            pieces == Seq::new(s@.len(), |i: int| escape_char(s@[i])),
    {
        let ghost k = it.index();
        assert(pieces.take(k + 1).drop_last() =~= pieces.take(k as int));
        push_escaped_char(c, out);
        assert(out@ =~= start + concat_all(pieces.take(k + 1)));
    }
    assert(pieces.take(s@.len() as int) =~= pieces);
    push_char(out, '"');
    assert(out@ =~= old(out)@ + quoted(s@));
}

/// Appends the compact JSON text of `v`.
pub fn write_json(v: &JsonValue, out: &mut String)
    ensures
        final(out)@ == old(out)@ + json_text(*v),
    decreases v,
{
    match v {
        JsonValue::Null => {
            push_str(out, "null");
            proof { reveal_strlit("null"); }
        },
        JsonValue::Bool(b) => {
            if *b {
                push_str(out, "true");
                proof { reveal_strlit("true"); }
            } else {
                push_str(out, "false");
                proof { reveal_strlit("false"); }
            }
        },
        JsonValue::Number(n) => {
            push_str(out, n.as_str());
        },
        JsonValue::String(s) => {
            push_quoted(s.as_str(), out);
        },
        JsonValue::Array(items) => {
            push_char(out, '[');
            let ghost start = out@;
            let mut i: usize = 0;
            assert(items@.subrange(0, 0) =~= Seq::<JsonValue>::empty());
            while i < items.len()
                invariant
                    i <= items@.len(),
                    out@ == start + items_text(items@.subrange(0, i as int)),
                    *v == JsonValue::Array(*items),
                decreases items@.len() - i,
            {
                proof {
                    assert(decreases_to!(*v => (*v)->Array_0));
                    assert(decreases_to!(*items => items[i as int]));
                }
                let ghost pre = items@.subrange(0, i as int);
                let ghost next = items@.subrange(0, i + 1);
                assert(next.subrange(0, next.len() - 1) =~= pre);
                assert(next[next.len() - 1] == items@[i as int]);
                if i > 0 {
                    push_char(out, ',');
                } else {
                    assert(next[0] == items@[0]);
                }
                write_json(&items[i], out);
                assert(out@ =~= start + items_text(next));
                i = i + 1;
            }
            assert(items@.subrange(0, i as int) =~= items@);
            push_char(out, ']');
        },
        JsonValue::Object(members) => {
            push_char(out, '{');
            let ghost start = out@;
            let mut i: usize = 0;
            assert(members@.subrange(0, 0) =~= Seq::<(String, JsonValue)>::empty());
            while i < members.len()
                invariant
                    i <= members@.len(),
                    out@ == start + members_text(members@.subrange(0, i as int)),
                    *v == JsonValue::Object(*members),
                decreases members@.len() - i,
            {
                proof {
                    assert(decreases_to!(*v => (*v)->Object_0));
                    assert(decreases_to!(*members => members[i as int]));
                    assert(decreases_to!(members[i as int] => members[i as int].1));
                }
                let ghost pre = members@.subrange(0, i as int);
                let ghost next = members@.subrange(0, i + 1);
                assert(next.subrange(0, next.len() - 1) =~= pre);
                assert(next[next.len() - 1] == members@[i as int]);
                if i > 0 {
                    push_char(out, ',');
                } else {
                    assert(next[0] == members@[0]);
                }
                push_quoted(members[i].0.as_str(), out);
                push_char(out, ':');
                write_json(&members[i].1, out);
                assert(out@ =~= start + members_text(next));
                i = i + 1;
            }
            assert(members@.subrange(0, i as int) =~= members@);
            push_char(out, '}');
        },
    }
    assert(out@ =~= old(out)@ + json_text(*v));
}

/// The `Debug` text of an abstract JSON value, as serde_json writes it for
/// its `Value`: `Null`, `Bool(true)`, `Number(5)`, `String("x")`,
/// `Array [..]` and `Object {"k": ..}`, items separated by `", "`.
pub open spec fn view_debug(v: JsonView) -> Seq<char>
    decreases v,
{
    match v {
        JsonView::Null => "Null"@,
        JsonView::Bool(b) => "Bool("@ + bool_text(b) + ")"@,
        JsonView::Number(n) => "Number("@ + n + ")"@,
        JsonView::Str(s) => "String("@ + str_debug_text(s) + ")"@,
        JsonView::Array(items) => {
            proof {
                assert(decreases_to!(v => v->Array_0));
            }
            "Array ["@ + debug_items(items) + "]"@
        },
        JsonView::Object(members) => {
            proof {
                assert(decreases_to!(v => v->Object_0));
            }
            "Object {"@ + debug_members(members) + "}"@
        },
    }
}

/// The `Debug` texts of abstract items, separated by `", "`.
pub open spec fn debug_items(s: Seq<JsonView>) -> Seq<char>
    decreases s,
{
    if s.len() == 0 {
        Seq::empty()
    } else {
        proof {
            assert(decreases_to!(s => s[s.len() - 1]));
            assert(decreases_to!(s => s.subrange(0, s.len() - 1)));
        }
        if s.len() == 1 {
            view_debug(s[0])
        } else {
            debug_items(s.subrange(0, s.len() - 1)) + ", "@ + view_debug(s[s.len() - 1])
        }
    }
}

/// The `Debug` texts of abstract members, `"key": value`, separated by `", "`.
pub open spec fn debug_members(s: Seq<(Seq<char>, JsonView)>) -> Seq<char>
    decreases s,
{
    if s.len() == 0 {
        Seq::empty()
    } else {
        proof {
            assert(decreases_to!(s => s[s.len() - 1]));
            assert(decreases_to!(s[s.len() - 1] => s[s.len() - 1].1));
            assert(decreases_to!(s => s.subrange(0, s.len() - 1)));
        }
        if s.len() == 1 {
            str_debug_text(s[0].0) + ": "@ + view_debug(s[0].1)
        } else {
            debug_members(s.subrange(0, s.len() - 1)) + ", "@ + str_debug_text(s[s.len() - 1].0) + ": "@
                + view_debug(s[s.len() - 1].1)
        }
    }
}

/// Appends the `Debug` text of `v`.
pub fn write_debug(v: &JsonValue, out: &mut String)
    ensures
        final(out)@ == old(out)@ + view_debug(v@),
    decreases v,
{
    match v {
        JsonValue::Null => {
            push_str(out, "Null");
        },
        JsonValue::Bool(b) => {
            push_str(out, "Bool(");
            push_bool(*b, out);
            push_str(out, ")");
        },
        JsonValue::Number(n) => {
            push_str(out, "Number(");
            push_str(out, n.as_str());
            push_str(out, ")");
        },
        JsonValue::String(s) => {
            push_str(out, "String(");
            let d = debug_str(s.as_str());
            push_str(out, d.as_str());
            push_str(out, ")");
        },
        JsonValue::Array(items) => {
            push_str(out, "Array [");
            let ghost start = out@;
            let mut i: usize = 0;
            assert(items_view(items@.subrange(0, 0)) =~= Seq::<JsonView>::empty());
            while i < items.len()
                invariant
                    i <= items@.len(),
                    out@ == start + debug_items(items_view(items@.subrange(0, i as int))),
                    *v == JsonValue::Array(*items),
                decreases items@.len() - i,
            {
                proof {
                    assert(decreases_to!(*v => (*v)->Array_0));
                    assert(decreases_to!(*items => items[i as int]));
                }
                let ghost pre = items@.subrange(0, i as int);
                let ghost next = items@.subrange(0, i + 1);
                assert(next.subrange(0, next.len() - 1) =~= pre);
                assert(next[next.len() - 1] == items@[i as int]);
                let ghost nv = items_view(next);
                assert(nv == items_view(pre).push(jview(items@[i as int])));
                assert(nv.subrange(0, nv.len() - 1) =~= items_view(pre));
                proof { lemma_items_view(pre); }
                if i > 0 {
                    push_str(out, ", ");
                } else {
                    assert(nv.len() == 1);
                }
                write_debug(&items[i], out);
                assert(out@ =~= start + debug_items(nv));
                i = i + 1;
            }
            assert(items@.subrange(0, i as int) =~= items@);
            push_str(out, "]");
        },
        JsonValue::Object(members) => {
            push_str(out, "Object {");
            let ghost start = out@;
            let mut i: usize = 0;
            assert(members_view(members@.subrange(0, 0)) =~= Seq::<(Seq<char>, JsonView)>::empty());
            while i < members.len()
                invariant
                    i <= members@.len(),
                    out@ == start + debug_members(members_view(members@.subrange(0, i as int))),
                    *v == JsonValue::Object(*members),
                decreases members@.len() - i,
            {
                proof {
                    assert(decreases_to!(*v => (*v)->Object_0));
                    assert(decreases_to!(*members => members[i as int]));
                    assert(decreases_to!(members[i as int] => members[i as int].1));
                }
                let ghost pre = members@.subrange(0, i as int);
                let ghost next = members@.subrange(0, i + 1);
                assert(next.subrange(0, next.len() - 1) =~= pre);
                assert(next[next.len() - 1] == members@[i as int]);
                let ghost nv = members_view(next);
                assert(nv == members_view(pre).push((members@[i as int].0@, jview(members@[i as int].1))));
                assert(nv.subrange(0, nv.len() - 1) =~= members_view(pre));
                proof { lemma_members_view(pre); }
                if i > 0 {
                    push_str(out, ", ");
                } else {
                    assert(nv.len() == 1);
                }
                let k = debug_str(members[i].0.as_str());
                push_str(out, k.as_str());
                push_str(out, ": ");
                write_debug(&members[i].1, out);
                assert(out@ =~= start + debug_members(nv));
                i = i + 1;
            }
            assert(members@.subrange(0, i as int) =~= members@);
            push_str(out, "}");
        },
    }
    assert(out@ =~= old(out)@ + view_debug(v@));
}

/// The `Debug` text of `v`.
pub fn debug_text(v: &JsonValue) -> (r: String)
    ensures
        r@ == view_debug(v@),
{
    let mut r = String::new();
    write_debug(v, &mut r);
    assert(r@ =~= view_debug(v@));
    r
}

/// The compact JSON text of `v`.
pub fn to_json_string(v: &JsonValue) -> (r: String)
    ensures
        r@ == json_text(*v),
{
    let mut r = String::new();
    write_json(v, &mut r);
    assert(r@ =~= json_text(*v));
    r
}

impl JsonValue {
    /// The name of this value's JSON type.
    pub fn kind(&self) -> (r: &'static str)
        ensures
            r@ == kind_name(*self),
    {
        match self {
            JsonValue::Null => "null",
            JsonValue::Bool(_) => "boolean",
            JsonValue::Number(_) => "number",
            JsonValue::String(_) => "string",
            JsonValue::Array(_) => "array",
            JsonValue::Object(_) => "object",
        }
    }

    /// The text of a string value.
    pub fn as_str(&self) -> (r: Option<&str>)
        ensures
            match *self {
                JsonValue::String(s) => r matches Some(t) && t@ == s@,
                _ => r is None,
            },
    {
        match self {
            JsonValue::String(s) => Some(s.as_str()),
            _ => None,
        }
    }

    /// The first member named `key` of an object.
    pub fn get(&self, key: &str) -> (r: Option<&JsonValue>)
        ensures
            r is Some == member(*self, key@) is Some,
            r matches Some(x) ==> *x == member(*self, key@)->0,
            r is Some == member_view(self@, key@) is Some,
            r matches Some(x) ==> x@ == member_view(self@, key@)->0,
    {
        match self {
            JsonValue::Object(members) => {
                let mut i: usize = 0;
                assert(members@.skip(0) =~= members@);
                assert(views_of(members@).skip(0) =~= views_of(members@));
                proof {
                    lemma_members_view(members@);
                    assert(views_of(members@) =~= members_view(members@));
                }
                assert(views_of(members@) =~= self@->Object_0);
                while i < members.len()
                    invariant
                        i <= members@.len(),
                        forall|j: int| 0 <= j < i ==> members@[j].0@ != key@,
                        *self == JsonValue::Object(*members),
                        first_member(members@, key@) == first_member(members@.skip(i as int), key@),
                        member_view(self@, key@) == first_member_view(views_of(members@).skip(i as int), key@),
                    decreases members@.len() - i,
                {
                    assert(members@.skip(i as int).first() == members@[i as int]);
                    assert(members@.skip(i as int).drop_first() =~= members@.skip(i + 1));
                    assert(views_of(members@).skip(i as int).drop_first() =~= views_of(members@).skip(i + 1));
                    assert(views_of(members@).skip(i as int).first() == (members@[i as int].0@, members@[i as int].1@));
                    if str_eq(members[i].0.as_str(), key) {
                        assert(first_member(members@.skip(i as int), key@) == Some(members@[i as int].1));
                        assert(first_member_view(views_of(members@).skip(i as int), key@) == Some(jview(members@[i as int].1)));
                        return Some(&members[i].1);
                    }
                    i = i + 1;
                }
                None
            },
            _ => None,
        }
    }
}

/// The views of object members.
pub open spec fn views_of(members: Seq<(String, JsonValue)>) -> Seq<(Seq<char>, JsonView)> {
    Seq::new(members.len(), |i: int| (members[i].0@, jview(members[i].1)))
}

/// The value of the first member named `key` in `members`.
pub open spec fn first_member(members: Seq<(String, JsonValue)>, key: Seq<char>) -> Option<JsonValue>
    decreases members.len(),
{
    if members.len() == 0 {
        None
    } else if members.first().0@ == key {
        Some(members.first().1)
    } else {
        first_member(members.drop_first(), key)
    }
}

/// The value of member `key` of an object (`None` for other values).
pub open spec fn member(v: JsonValue, key: Seq<char>) -> Option<JsonValue> {
    match v {
        JsonValue::Object(members) => first_member(members@, key),
        _ => None,
    }
}

/// The abstract content of a JSON value.
pub enum JsonView {
    Null,
    Bool(bool),
    Number(Seq<char>),
    Str(Seq<char>),
    Array(Seq<JsonView>),
    Object(Seq<(Seq<char>, JsonView)>),
}

/// The abstract content of a JSON value.
pub open spec fn jview(v: JsonValue) -> JsonView
    decreases v,
{
    match v {
        JsonValue::Null => JsonView::Null,
        JsonValue::Bool(b) => JsonView::Bool(b),
        JsonValue::Number(n) => JsonView::Number(n@),
        JsonValue::String(s) => JsonView::Str(s@),
        JsonValue::Array(items) => {
            proof {
                assert(decreases_to!(v => v->Array_0));
                assert(decreases_to!(items => items@));
            }
            JsonView::Array(items_view(items@))
        },
        JsonValue::Object(members) => {
            proof {
                assert(decreases_to!(v => v->Object_0));
                assert(decreases_to!(members => members@));
            }
            JsonView::Object(members_view(members@))
        },
    }
}

/// The views of array items.
pub open spec fn items_view(s: Seq<JsonValue>) -> Seq<JsonView>
    decreases s,
{
    if s.len() == 0 {
        Seq::empty()
    } else {
        proof {
            assert(decreases_to!(s => s[s.len() - 1]));
            assert(decreases_to!(s => s.subrange(0, s.len() - 1)));
        }
        items_view(s.subrange(0, s.len() - 1)).push(jview(s[s.len() - 1]))
    }
}

/// The views of object members.
pub open spec fn members_view(s: Seq<(String, JsonValue)>) -> Seq<(Seq<char>, JsonView)>
    decreases s,
{
    if s.len() == 0 {
        Seq::empty()
    } else {
        proof {
            assert(decreases_to!(s => s[s.len() - 1]));
            assert(decreases_to!(s[s.len() - 1] => s[s.len() - 1].1));
            assert(decreases_to!(s => s.subrange(0, s.len() - 1)));
        }
        members_view(s.subrange(0, s.len() - 1)).push((s[s.len() - 1].0@, jview(s[s.len() - 1].1)))
    }
}

/// Member views, position by position.
pub proof fn lemma_members_view(s: Seq<(String, JsonValue)>)
    ensures
        members_view(s).len() == s.len(),
        forall|k: int| 0 <= k < s.len() ==> #[trigger] members_view(s)[k] == (s[k].0@, jview(s[k].1)),
    decreases s.len(),
{
    if s.len() > 0 {
        let t = s.subrange(0, s.len() - 1);
        lemma_members_view(t);
        assert forall|k: int| 0 <= k < s.len() implies #[trigger] members_view(s)[k] == (s[k].0@, jview(s[k].1)) by {
            if k < s.len() - 1 {
                assert(t[k] == s[k]);
            }
        }
    }
}

/// Item views, position by position.
pub proof fn lemma_items_view(s: Seq<JsonValue>)
    ensures
        items_view(s).len() == s.len(),
        forall|k: int| 0 <= k < s.len() ==> #[trigger] items_view(s)[k] == jview(s[k]),
    decreases s.len(),
{
    if s.len() > 0 {
        let t = s.subrange(0, s.len() - 1);
        lemma_items_view(t);
        assert forall|k: int| 0 <= k < s.len() implies #[trigger] items_view(s)[k] == jview(s[k]) by {
            if k < s.len() - 1 {
                assert(t[k] == s[k]);
            }
        }
    }
}

impl View for JsonValue {
    type V = JsonView;

    open spec fn view(&self) -> JsonView {
        jview(*self)
    }
}

/// The value of the first member named `key`.
pub open spec fn first_member_view(members: Seq<(Seq<char>, JsonView)>, key: Seq<char>) -> Option<JsonView>
    decreases members.len(),
{
    if members.len() == 0 {
        None
    } else if members.first().0 == key {
        Some(members.first().1)
    } else {
        first_member_view(members.drop_first(), key)
    }
}

/// The value of member `key` of an object (`None` for other values).
pub open spec fn member_view(v: JsonView, key: Seq<char>) -> Option<JsonView> {
    match v {
        JsonView::Object(members) => first_member_view(members, key),
        _ => None,
    }
}

/// Pushing a member extends the member views by its view.
pub proof fn lemma_members_push(s: Seq<(String, JsonValue)>, x: (String, JsonValue))
    ensures
        members_view(s.push(x)) == members_view(s).push((x.0@, jview(x.1))),
{
    assert(s.push(x).subrange(0, s.len() as int) =~= s);
}

/// Pushing an item extends the item views by its view.
pub proof fn lemma_items_push(s: Seq<JsonValue>, x: JsonValue)
    ensures
        items_view(s.push(x)) == items_view(s).push(jview(x)),
{
    assert(s.push(x).subrange(0, s.len() as int) =~= s);
}

/// The compact JSON text of an abstract value.
pub open spec fn view_text(v: JsonView) -> Seq<char>
    decreases v,
{
    match v {
        JsonView::Null => "null"@,
        JsonView::Bool(b) => if b { "true"@ } else { "false"@ },
        JsonView::Number(n) => n,
        JsonView::Str(s) => quoted(s),
        JsonView::Array(items) => {
            proof {
                assert(decreases_to!(v => v->Array_0));
            }
            seq!['['] + view_items_text(items) + seq![']']
        },
        JsonView::Object(members) => {
            proof {
                assert(decreases_to!(v => v->Object_0));
            }
            seq!['{'] + view_members_text(members) + seq!['}']
        },
    }
}

/// The texts of abstract items, separated by commas.
pub open spec fn view_items_text(s: Seq<JsonView>) -> Seq<char>
    decreases s,
{
    if s.len() == 0 {
        Seq::empty()
    } else {
        proof {
            assert(decreases_to!(s => s[s.len() - 1]));
            assert(decreases_to!(s => s.subrange(0, s.len() - 1)));
        }
        if s.len() == 1 {
            view_text(s[0])
        } else {
            view_items_text(s.subrange(0, s.len() - 1)) + seq![','] + view_text(s[s.len() - 1])
        }
    }
}

/// The abstract members `"key":value`, separated by commas.
pub open spec fn view_members_text(s: Seq<(Seq<char>, JsonView)>) -> Seq<char>
    decreases s,
{
    if s.len() == 0 {
        Seq::empty()
    } else {
        proof {
            assert(decreases_to!(s => s[s.len() - 1]));
            assert(decreases_to!(s[s.len() - 1] => s[s.len() - 1].1));
            assert(decreases_to!(s => s.subrange(0, s.len() - 1)));
        }
        if s.len() == 1 {
            quoted(s[0].0) + seq![':'] + view_text(s[0].1)
        } else {
            view_members_text(s.subrange(0, s.len() - 1)) + seq![','] + quoted(s[s.len() - 1].0) + seq![':']
                + view_text(s[s.len() - 1].1)
        }
    }
}

/// The text of a value depends on its view alone.
pub proof fn lemma_text_of_view(v: JsonValue)
    ensures
        json_text(v) == view_text(jview(v)),
    decreases v,
{
    match v {
        JsonValue::Array(items) => {
            assert(decreases_to!(v => v->Array_0));
            assert(decreases_to!(items => items@));
            lemma_items_text_view(items@);
        },
        JsonValue::Object(members) => {
            assert(decreases_to!(v => v->Object_0));
            assert(decreases_to!(members => members@));
            lemma_members_text_view(members@);
        },
        _ => {},
    }
}

/// The text of array items depends on their views alone.
pub proof fn lemma_items_text_view(s: Seq<JsonValue>)
    ensures
        items_text(s) == view_items_text(items_view(s)),
    decreases s,
{
    if s.len() > 0 {
        let t = s.subrange(0, s.len() - 1);
        assert(decreases_to!(s => s[s.len() - 1]));
        assert(decreases_to!(s => t));
        lemma_items_view(s);
        lemma_text_of_view(s[s.len() - 1]);
        if s.len() == 1 {
            assert(items_view(s)[0] == jview(s[0]));
        } else {
            lemma_items_text_view(t);
            assert(items_view(s).subrange(0, s.len() - 1) =~= items_view(t));
        }
    }
}

/// The text of object members depends on their views alone.
pub proof fn lemma_members_text_view(s: Seq<(String, JsonValue)>)
    ensures
        members_text(s) == view_members_text(members_view(s)),
    decreases s,
{
    if s.len() > 0 {
        let t = s.subrange(0, s.len() - 1);
        assert(decreases_to!(s => s[s.len() - 1]));
        assert(decreases_to!(s[s.len() - 1] => s[s.len() - 1].1));
        assert(decreases_to!(s => t));
        lemma_members_view(s);
        lemma_text_of_view(s[s.len() - 1].1);
        if s.len() == 1 {
            assert(members_view(s)[0] == (s[0].0@, jview(s[0].1)));
        } else {
            lemma_members_text_view(t);
            assert(members_view(s).subrange(0, s.len() - 1) =~= members_view(t));
        }
    }
}

/// Appends an item to an array under construction, tracking its view.
pub fn push_item(items: &mut Vec<JsonValue>, x: JsonValue)
    ensures
        items_view(final(items)@) == items_view(old(items)@).push(jview(x)),
{
    let ghost before = items@;
    items.push(x);
    proof {
        lemma_items_push(before, x);
    }
}

/// A builder of JSON objects that tracks the view of what it holds.
pub fn push_member(members: &mut Vec<(String, JsonValue)>, key: &str, value: JsonValue)
    ensures
        members_view(final(members)@) == members_view(old(members)@).push((key@, jview(value))),
{
    let k = crate::text::owned(key);
    let ghost before = members@;
    members.push((k, value));
    proof {
        lemma_members_push(before, (k, value));
    }
}

/// A copy of a JSON value.
pub fn clone_json(v: &JsonValue) -> (r: JsonValue)
    ensures
        jview(r) == jview(*v),
    decreases v,
{
    match v {
        JsonValue::Null => JsonValue::Null,
        JsonValue::Bool(b) => JsonValue::Bool(*b),
        JsonValue::Number(n) => JsonValue::Number(n.clone()),
        JsonValue::String(t) => JsonValue::String(t.clone()),
        JsonValue::Array(items) => {
            let mut out: Vec<JsonValue> = Vec::new();
            let mut i: usize = 0;
            while i < items.len()
                invariant
                    i <= items@.len(),
                    v is Array,
                    v->Array_0 == *items,
                    items_view(out@) == items_view(items@.take(i as int)),
                decreases items@.len() - i,
            {
                proof {
                    assert(decreases_to!(*v => v->Array_0));
                    assert(decreases_to!(v->Array_0 => v->Array_0@));
                    assert(decreases_to!(v->Array_0@ => v->Array_0@[i as int]));
                }
                let x = clone_json(&items[i]);
                let ghost before = out@;
                out.push(x);
                proof {
                    lemma_items_push(before, x);
                    lemma_items_push(items@.take(i as int), items@[i as int]);
                    assert(items@.take(i + 1) =~= items@.take(i as int).push(items@[i as int]));
                }
                i = i + 1;
            }
            assert(items@.take(i as int) =~= items@);
            JsonValue::Array(out)
        },
        JsonValue::Object(members) => {
            let mut out: Vec<(String, JsonValue)> = Vec::new();
            let mut i: usize = 0;
            while i < members.len()
                invariant
                    i <= members@.len(),
                    v is Object,
                    v->Object_0 == *members,
                    members_view(out@) == members_view(members@.take(i as int)),
                decreases members@.len() - i,
            {
                proof {
                    assert(decreases_to!(*v => v->Object_0));
                    assert(decreases_to!(v->Object_0 => v->Object_0@));
                    assert(decreases_to!(v->Object_0@ => v->Object_0@[i as int]));
                    assert(decreases_to!(v->Object_0@[i as int] => v->Object_0@[i as int].1));
                }
                let x = clone_json(&members[i].1);
                let k = members[i].0.clone();
                let ghost before = out@;
                out.push((k, x));
                proof {
                    lemma_members_push(before, (k, x));
                    lemma_members_push(members@.take(i as int), members@[i as int]);
                    assert(members@.take(i + 1) =~= members@.take(i as int).push(members@[i as int]));
                }
                i = i + 1;
            }
            assert(members@.take(i as int) =~= members@);
            JsonValue::Object(out)
        },
    }
}

} // verus!
