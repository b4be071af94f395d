//! A structural model of JSON documents.
//!
//! Request and response bodies, GraphQL variables and error extensions run
//! through the attribute-forwarding logic as values of this type, so that the
//! projection rules over them can be stated and proved. Numbers keep their
//! literal text, which sidesteps floating point entirely.

use vstd::prelude::*;

use crate::text::str_eq;

verus! {

broadcast use
    vstd::seq::axiom_seq_index_decreases,
    vstd::std_specs::vec::axiom_vec_decreases_to_view,
    vstd::std_specs::vec::axiom_vec_index_decreases;

/// A JSON document. Object members keep their order; a lookup takes the first
/// member with the wanted key.
pub enum JsonValue {
    Null,
    Bool(bool),
    /// The literal text of a JSON number, e.g. `1` or `2.5`.
    Number(String),
    Text(String),
    Array(Vec<JsonValue>),
    Object(Vec<(String, JsonValue)>),
}

/// One step of a body path: a member name or an array index.
pub enum PathSegment {
    Key(String),
    Index(usize),
}

/// The view of a path step, over plain character sequences.
pub enum PathSegV {
    Key(Seq<char>),
    Index(int),
}

impl View for PathSegment {
    type V = PathSegV;

    open spec fn view(&self) -> PathSegV {
        match self {
            PathSegment::Key(k) => PathSegV::Key(k@),
            PathSegment::Index(i) => PathSegV::Index(*i as int),
        }
    }
}

/// The view of a whole path.
pub open spec fn path_view(path: Seq<PathSegment>) -> Seq<PathSegV> {
    path.map_values(|s: PathSegment| s@)
}

impl Clone for PathSegment {
    /// A copied path step has the same view.
    fn clone(&self) -> (r: Self)
        ensures
            r@ == self@,
    {
        match self {
            PathSegment::Key(k) => PathSegment::Key(k.clone()),
            PathSegment::Index(i) => PathSegment::Index(*i),
        }
    }
}

// ---------------------------------------------------------------------------
// Serialization to compact JSON text.
// ---------------------------------------------------------------------------

/// The hexadecimal digit for `n` (lower case), for escape sequences.
pub open spec fn hex_digit(n: int) -> char {
    if n == 0 { '0' } else if n == 1 { '1' } else if n == 2 { '2' } else if n == 3 { '3' }
    else if n == 4 { '4' } else if n == 5 { '5' } else if n == 6 { '6' } else if n == 7 { '7' }
    else if n == 8 { '8' } else if n == 9 { '9' } else if n == 10 { 'a' } else if n == 11 { 'b' }
    else if n == 12 { 'c' } else if n == 13 { 'd' } else if n == 14 { 'e' } else { 'f' }
}

/// How one character appears inside a JSON string literal: quote and backslash
/// are escaped, control characters use their short escape or `\u00XX`, and
/// everything else stands for itself.
pub open spec fn escape_char(c: char) -> Seq<char> {
    if c == '"' { seq!['\\', '"'] }
    else if c == '\\' { seq!['\\', '\\'] }
    else if c == '\u{8}' { seq!['\\', 'b'] }
    else if c == '\u{9}' { seq!['\\', 't'] }
    else if c == '\u{a}' { seq!['\\', 'n'] }
    else if c == '\u{c}' { seq!['\\', 'f'] }
    else if c == '\u{d}' { seq!['\\', 'r'] }
    else if (c as u32) < 0x20 {
        seq!['\\', 'u', '0', '0', hex_digit((c as u32) as int / 16), hex_digit((c as u32) as int % 16)]
    } else { seq![c] }
}

/// The body of a JSON string literal for `s`.
pub open spec fn escape_seq(s: Seq<char>) -> Seq<char>
    decreases s.len(),
{
    if s.len() == 0 {
        Seq::empty()
    } else {
        escape_char(s[0]) + escape_seq(s.drop_first())
    }
}

/// A complete JSON string literal for `s`, quotes included.
pub open spec fn quoted(s: Seq<char>) -> Seq<char> {
    seq!['"'] + escape_seq(s) + seq!['"']
}

/// The compact JSON text of a value: no spaces, object members and array
/// items in their stored order.
pub open spec fn json_text(v: JsonValue) -> Seq<char>
    decreases v,
{
    match v {
        JsonValue::Null => "null"@,
        JsonValue::Bool(b) => if b { "true"@ } else { "false"@ },
        JsonValue::Number(n) => n@,
        JsonValue::Text(s) => quoted(s@),
        JsonValue::Array(items) => seq!['['] + json_items(items@) + seq![']'],
        JsonValue::Object(fields) => seq!['{'] + json_members(fields@) + seq!['}'],
    }
}

/// The comma-separated items of a JSON array.
pub open spec fn json_items(items: Seq<JsonValue>) -> Seq<char>
    decreases items,
{
    if items.len() == 0 {
        Seq::empty()
    } else if items.len() == 1 {
        json_text(items[0])
    } else {
        json_text(items[0]) + seq![','] + json_items(items.drop_first())
    }
}

/// The comma-separated members of a JSON object.
pub open spec fn json_members(fields: Seq<(String, JsonValue)>) -> Seq<char>
    decreases fields,
{
    if fields.len() == 0 {
        Seq::empty()
    } else if fields.len() == 1 {
        quoted(fields[0].0@) + seq![':'] + json_text(fields[0].1)
    } else {
        quoted(fields[0].0@) + seq![':'] + json_text(fields[0].1) + seq![',']
            + json_members(fields.drop_first())
    }
}

/// Appends the hexadecimal digit for `n` to `out`.
fn push_hex_digit(out: &mut String, n: u32)
    requires
        n < 16,
    ensures
        final(out)@ == old(out)@.push(hex_digit(n as int)),
{
    let c: char = match n {
        0 => '0', 1 => '1', 2 => '2', 3 => '3', 4 => '4', 5 => '5', 6 => '6', 7 => '7',
        8 => '8', 9 => '9', 10 => 'a', 11 => 'b', 12 => 'c', 13 => 'd', 14 => 'e', _ => 'f',
    };
    out.push(c);
}

/// Appends the escape of one character to `out`.
fn push_escaped_char(out: &mut String, c: char)
    ensures
        final(out)@ == old(out)@ + escape_char(c),
{
    if c == '"' {
        out.push('\\');
        out.push('"');
    } else if c == '\\' {
        out.push('\\');
        out.push('\\');
    } else if c == '\u{8}' {
        out.push('\\');
        out.push('b');
    } else if c == '\u{9}' {
        out.push('\\');
        out.push('t');
    } else if c == '\u{a}' {
        out.push('\\');
        out.push('n');
    } else if c == '\u{c}' {
        out.push('\\');
        out.push('f');
    } else if c == '\u{d}' {
        out.push('\\');
        out.push('r');
    } else if (c as u32) < 0x20 {
        out.push('\\');
        out.push('u');
        out.push('0');
        out.push('0');
        push_hex_digit(out, (c as u32) / 16);
        push_hex_digit(out, (c as u32) % 16);
    } else {
        out.push(c);
    }
    assert(final(out)@ =~= old(out)@ + escape_char(c));
}

/// Appends the JSON string literal for `s` to `out`.
pub fn push_quoted(out: &mut String, s: &str)
    ensures
        final(out)@ == old(out)@ + quoted(s@),
{
    let ghost start = out@;
    out.push('"');
    let len = s.unicode_len();
    let mut i: usize = 0;
    while i < len
        invariant
            len == s@.len(),
            i <= len,
            out@ == start + seq!['"'] + escape_seq(s@.subrange(0, i as int)),
        decreases len - i,
    {
        let c = s.get_char(i);
        push_escaped_char(out, c);
        proof {
            lemma_escape_seq_snoc(s@, i as int);
        }
        i += 1;
    }
    out.push('"');
    proof {
        assert(s@.subrange(0, len as int) =~= s@);
        assert(final(out)@ =~= start + quoted(s@));
    }
}

/// Escaping one more character extends the escape of the prefix.
proof fn lemma_escape_seq_snoc(s: Seq<char>, i: int)
    requires
        0 <= i < s.len(),
    ensures
        escape_seq(s.subrange(0, i + 1)) == escape_seq(s.subrange(0, i)) + escape_char(s[i]),
    decreases i,
{
    let pre = s.subrange(0, i);
    let ext = s.subrange(0, i + 1);
    if i == 0 {
        assert(ext =~= seq![s[0]]);
        assert(ext.drop_first() =~= Seq::<char>::empty());
        assert(pre =~= Seq::<char>::empty());
        assert(escape_seq(ext) =~= escape_seq(pre) + escape_char(s[0]));
    } else {
        let tail = s.subrange(1, s.len() as int);
        lemma_escape_seq_snoc(tail, i - 1);
        assert(ext.drop_first() =~= tail.subrange(0, i));
        assert(pre.drop_first() =~= tail.subrange(0, i - 1));
        assert(tail.subrange(0, i - 1 + 1) == tail.subrange(0, i));
        assert(tail[i - 1] == s[i]);
        assert(escape_seq(ext) == escape_char(s[0]) + escape_seq(tail.subrange(0, i)));
        assert(escape_seq(ext) =~= escape_seq(pre) + escape_char(s[i]));
    }
}

/// Renders a value as compact JSON text, exactly `json_text`.
pub fn json_to_string(v: &JsonValue) -> (r: String)
    ensures
        r@ == json_text(*v),
{
    let mut out = String::new();
    write_json(&mut out, v);
    out
}

/// Appends the compact JSON text of `v` to `out`.
#[verifier::loop_isolation(false)]
#[verifier::rlimit(50)]
fn write_json(out: &mut String, v: &JsonValue)
    ensures
        final(out)@ == old(out)@ + json_text(*v),
    decreases *v,
{
    match v {
        JsonValue::Null => {
            out.append("null");
        }
        JsonValue::Bool(b) => {
            if *b {
                out.append("true");
            } else {
                out.append("false");
            }
        }
        JsonValue::Number(n) => {
            out.append(n.as_str());
        }
        JsonValue::Text(s) => {
            push_quoted(out, s.as_str());
        }
        JsonValue::Array(items) => {
            let ghost start = out@;
            out.push('[');
            proof {
                assert(items@.subrange(0, 0) =~= Seq::<JsonValue>::empty());
            }
            let mut i: usize = 0;
            while i < items.len()
                invariant
                    i <= items.len(),
                    out@ == start + seq!['['] + json_items(items@.subrange(0, i as int)),
                decreases items.len() - i,
            {
                if i > 0 {
                    out.push(',');
                }
                proof {
                    assert(decreases_to!(*v => (*v)->Array_0));
                    assert((*v)->Array_0 == *items);
                    vstd::std_specs::vec::axiom_vec_index_decreases(*items, i as int);
                    assert(decreases_to!(*v => items@[i as int]));
                }
                write_json(out, &items[i]);
                proof {
                    lemma_json_items_snoc(items@, i as int);
                    assert(out@ =~= start + seq!['['] + json_items(items@.subrange(0, i + 1)));
                }
                i += 1;
            }
            out.push(']');
            proof {
                assert(items@.subrange(0, items@.len() as int) =~= items@);
                assert(final(out)@ =~= start + json_text(JsonValue::Array(*items)));
            }
        }
        JsonValue::Object(fields) => {
            let ghost start = out@;
            out.push('{');
            proof {
                assert(fields@.subrange(0, 0) =~= Seq::<(String, JsonValue)>::empty());
            }
            let mut i: usize = 0;
            while i < fields.len()
                invariant
                    i <= fields.len(),
                    out@ == start + seq!['{'] + json_members(fields@.subrange(0, i as int)),
                decreases fields.len() - i,
            {
                if i > 0 {
                    out.push(',');
                }
                push_quoted(out, fields[i].0.as_str());
                out.push(':');
                proof {
                    assert(decreases_to!(*v => (*v)->Object_0));
                    assert((*v)->Object_0 == *fields);
                    vstd::std_specs::vec::axiom_vec_index_decreases(*fields, i as int);
                    assert(decreases_to!(fields@[i as int] => fields@[i as int].1));
                    assert(decreases_to!(*v => fields@[i as int].1));
                }
                write_json(out, &fields[i].1);
                proof {
                    lemma_json_members_snoc(fields@, i as int);
                    assert(out@ =~= start + seq!['{'] + json_members(fields@.subrange(0, i + 1)));
                }
                i += 1;
            }
            out.push('}');
            proof {
                assert(fields@.subrange(0, fields@.len() as int) =~= fields@);
                assert(final(out)@ =~= start + json_text(JsonValue::Object(*fields)));
            }
        }
    }
}

/// One more array item extends the rendered items, with a comma before it
/// when it is not the first.
proof fn lemma_json_items_snoc(items: Seq<JsonValue>, i: int)
    requires
        0 <= i < items.len(),
    ensures
        json_items(items.subrange(0, i + 1)) ==
            json_items(items.subrange(0, i))
            + (if i > 0 { seq![','] } else { Seq::<char>::empty() })
            + json_text(items[i]),
    decreases i,
{
    let pre = items.subrange(0, i);
    let ext = items.subrange(0, i + 1);
    if i == 0 {
        assert(ext =~= seq![items[0]]);
        assert(pre =~= Seq::<JsonValue>::empty());
        assert(json_items(ext) =~= json_items(pre) + Seq::<char>::empty() + json_text(items[0]));
    } else {
        let tail = items.subrange(1, items.len() as int);
        lemma_json_items_snoc(tail, i - 1);
        assert(tail.subrange(0, i - 1) =~= pre.drop_first());
        assert(tail.subrange(0, i) =~= ext.drop_first());
        assert(tail[i - 1] == items[i]);
        assert(ext[0] == items[0] && pre[0] == items[0]);
        assert(ext.len() >= 2);
        assert(json_items(ext) == json_text(items[0]) + seq![','] + json_items(tail.subrange(0, i)));
        if i == 1 {
            assert(json_items(pre) == json_text(items[0]));
            assert(tail.subrange(0, 0) =~= Seq::<JsonValue>::empty());
            assert(json_items(ext) =~= json_items(pre) + seq![','] + json_text(items[i]));
        } else {
            assert(json_items(pre) == json_text(items[0]) + seq![','] + json_items(tail.subrange(0, i - 1)));
            assert(json_items(ext) =~= json_items(pre) + seq![','] + json_text(items[i]));
        }
    }
}

/// One more object member extends the rendered members, with a comma before
/// it when it is not the first.
proof fn lemma_json_members_snoc(fields: Seq<(String, JsonValue)>, i: int)
    requires
        0 <= i < fields.len(),
    ensures
        json_members(fields.subrange(0, i + 1)) ==
            json_members(fields.subrange(0, i))
            + (if i > 0 { seq![','] } else { Seq::<char>::empty() })
            + quoted(fields[i].0@) + seq![':'] + json_text(fields[i].1),
    decreases i,
{
    let pre = fields.subrange(0, i);
    let ext = fields.subrange(0, i + 1);
    if i == 0 {
        assert(ext =~= seq![fields[0]]);
        assert(pre =~= Seq::<(String, JsonValue)>::empty());
        assert(json_members(ext) =~= json_members(pre) + Seq::<char>::empty()
            + quoted(fields[0].0@) + seq![':'] + json_text(fields[0].1));
    } else {
        let tail = fields.subrange(1, fields.len() as int);
        lemma_json_members_snoc(tail, i - 1);
        assert(tail.subrange(0, i - 1) =~= pre.drop_first());
        assert(tail.subrange(0, i) =~= ext.drop_first());
        assert(tail[i - 1] == fields[i]);
        assert(ext[0] == fields[0] && pre[0] == fields[0]);
        assert(ext.len() >= 2);
        assert(json_members(ext) == quoted(fields[0].0@) + seq![':'] + json_text(fields[0].1)
            + seq![','] + json_members(tail.subrange(0, i)));
        if i == 1 {
            assert(json_members(pre) == quoted(fields[0].0@) + seq![':'] + json_text(fields[0].1));
            assert(tail.subrange(0, 0) =~= Seq::<(String, JsonValue)>::empty());
            assert(json_members(ext) =~= json_members(pre) + seq![',']
                + quoted(fields[i].0@) + seq![':'] + json_text(fields[i].1));
        } else {
            assert(json_members(pre) == quoted(fields[0].0@) + seq![':'] + json_text(fields[0].1)
                + seq![','] + json_members(tail.subrange(0, i - 1)));
            assert(json_members(ext) =~= json_members(pre) + seq![',']
                + quoted(fields[i].0@) + seq![':'] + json_text(fields[i].1));
        }
    }
}

// ---------------------------------------------------------------------------
// Path resolution.
// ---------------------------------------------------------------------------

/// The value of the first object member named `key`, if any.
pub open spec fn spec_member(fields: Seq<(String, JsonValue)>, key: Seq<char>) -> Option<JsonValue>
    decreases fields.len(),
{
    if fields.len() == 0 {
        None
    } else if fields[0].0@ == key {
        Some(fields[0].1)
    } else {
        spec_member(fields.drop_first(), key)
    }
}

/// The value a path leads to: member names step into objects, indices into
/// arrays; any mismatch resolves to nothing.
pub open spec fn spec_resolve(v: JsonValue, path: Seq<PathSegV>) -> Option<JsonValue>
    decreases path.len(),
{
    if path.len() == 0 {
        Some(v)
    } else {
        match path[0] {
            PathSegV::Key(k) => match v {
                JsonValue::Object(fields) => match spec_member(fields@, k) {
                    Some(next) => spec_resolve(next, path.drop_first()),
                    None => None,
                },
                _ => None,
            },
            PathSegV::Index(i) => match v {
                JsonValue::Array(items) => if 0 <= i < items@.len() {
                    spec_resolve(items@[i], path.drop_first())
                } else {
                    None
                },
                _ => None,
            },
        }
    }
}

/// Follows `path` through `v`, exactly `spec_resolve`.
#[verifier::loop_isolation(false)]
pub fn resolve<'a>(v: &'a JsonValue, path: &Vec<PathSegment>) -> (r: Option<&'a JsonValue>)
    ensures
        match r {
            Some(found) => spec_resolve(*v, path_view(path@)) == Some(*found),
            None => spec_resolve(*v, path_view(path@)) is None,
        },
{
    let mut cur: &'a JsonValue = v;
    let mut i: usize = 0;
    proof {
        assert(path_view(path@).subrange(0, path@.len() as int) =~= path_view(path@));
    }
    while i < path.len()
        invariant
            i <= path.len(),
            spec_resolve(*v, path_view(path@)) == spec_resolve(
                *cur,
                path_view(path@).subrange(i as int, path@.len() as int),
            ),
        decreases path.len() - i,
    {
        let ghost rest = path_view(path@).subrange(i as int, path@.len() as int);
        proof {
            assert(rest[0] == path@[i as int]@);
            assert(rest.drop_first() =~= path_view(path@).subrange(
                i as int + 1,
                path@.len() as int,
            ));
        }
        match &path[i] {
            PathSegment::Key(k) => {
                match cur {
                    JsonValue::Object(fields) => {
                        let mut j: usize = 0;
                        let mut found: Option<&'a JsonValue> = None;
                        proof {
                            assert(fields@.subrange(0, fields@.len() as int) =~= fields@);
                        }
                        while j < fields.len()
                            invariant
                                j <= fields.len(),
                                match found {
                                    Some(f) => spec_member(fields@, k@) == Some(*f),
                                    None => spec_member(fields@.subrange(j as int, fields@.len() as int), k@)
                                        == spec_member(fields@, k@),
                                },
                                found is Some ==> j == fields.len(),
                            decreases fields.len() - j,
                        {
                            let ghost fs = fields@.subrange(j as int, fields@.len() as int);
                            proof {
                                assert(fs[0] == fields@[j as int]);
                                assert(fs.drop_first() =~= fields@.subrange(j as int + 1, fields@.len() as int));
                            }
                            if str_eq(fields[j].0.as_str(), k.as_str()) {
                                found = Some(&fields[j].1);
                                j = fields.len();
                            } else {
                                j += 1;
                            }
                        }
                        proof {
                            if found is None {
                                assert(fields@.subrange(fields@.len() as int, fields@.len() as int)
                                    =~= Seq::<(String, JsonValue)>::empty());
                            }
                        }
                        match found {
                            Some(next) => {
                                cur = next;
                                i += 1;
                            }
                            None => {
                                return None;
                            }
                        }
                    }
                    _ => {
                        return None;
                    }
                }
            }
            PathSegment::Index(idx) => {
                match cur {
                    JsonValue::Array(items) => {
                        if *idx < items.len() {
                            cur = &items[*idx];
                            i += 1;
                        } else {
                            return None;
                        }
                    }
                    _ => {
                        return None;
                    }
                }
            }
        }
    }
    proof {
        assert(path_view(path@).subrange(path@.len() as int, path@.len() as int)
            =~= Seq::<PathSegV>::empty());
    }
    Some(cur)
}

/// The string an attribute shows for a resolved value: the content of a text
/// value, the compact JSON text of anything else.
pub open spec fn spec_attr_text(v: JsonValue) -> Seq<char> {
    match v {
        JsonValue::Text(s) => s@,
        _ => json_text(v),
    }
}

/// Renders a value the way attributes show it, exactly `spec_attr_text`.
pub fn attr_text(v: &JsonValue) -> (r: String)
    ensures
        r@ == spec_attr_text(*v),
{
    match v {
        JsonValue::Text(s) => s.clone(),
        _ => json_to_string(v),
    }
}

} // verus!
