//! JSON values as this crate reads them: the outermost level is a value of
//! its own, nested values are kept as compact JSON text until they are asked
//! for.
use crate::pairs;
use serde_json::Value as Json;
use vstd::prelude::*;

verus! {

/// A JSON number: its text, and its value where it is a `u64`.
#[derive(Debug, PartialEq, Eq)]
pub struct Number {
    pub unsigned: Option<u64>,
    pub text: String,
}

/// One JSON value, its first level opened. `Array` holds the items and
/// `Object` the fields as compact JSON text, in the order of their keys.
#[derive(Debug, PartialEq, Eq)]
pub enum Value {
    Null,
    Bool(bool),
    Number(Number),
    String(String),
    Array(Vec<String>),
    Object(Vec<(String, String)>),
}

/// What a [`Value`] holds.
#[verifier::ext_equal]
pub enum ValueView {
    Null,
    Bool(bool),
    Number { unsigned: Option<u64>, text: Seq<char> },
    String(Seq<char>),
    Array(Seq<Seq<char>>),
    Object(Seq<(Seq<char>, Seq<char>)>),
}

impl View for Value {
    type V = ValueView;

    open spec fn view(&self) -> ValueView {
        match *self {
            Value::Null => ValueView::Null,
            Value::Bool(flag) => ValueView::Bool(flag),
            Value::Number(number) => ValueView::Number {
                unsigned: number.unsigned,
                text: number.text@,
            },
            Value::String(text) => ValueView::String(text@),
            Value::Array(items) => ValueView::Array(items.deep_view()),
            Value::Object(fields) => ValueView::Object(fields.deep_view()),
        }
    }
}

impl DeepView for Value {
    type V = ValueView;

    open spec fn deep_view(&self) -> ValueView {
        self@
    }
}

impl Clone for Value {
    fn clone(&self) -> (r: Self)
        ensures
            r@ == self@,
    {
        match self {
            Value::Null => Value::Null,
            Value::Bool(flag) => Value::Bool(*flag),
            Value::Number(number) => Value::Number(
                Number { unsigned: number.unsigned, text: number.text.clone() },
            ),
            Value::String(text) => Value::String(text.clone()),
            Value::Array(items) => {
                let copy = items.clone();
                assert(copy.deep_view() =~= items.deep_view());
                Value::Array(copy)
            },
            Value::Object(fields) => Value::Object(clone_fields(fields)),
        }
    }
}

fn clone_fields(fields: &Vec<(String, String)>) -> (r: Vec<(String, String)>)
    ensures
        r.deep_view() == fields.deep_view(),
{
    let mut out: Vec<(String, String)> = Vec::new();
    let mut i: usize = 0;
    while i < fields.len()
        invariant
            i <= fields.len(),
            out.len() == i,
            out.deep_view() == fields.deep_view().take(i as int),
        decreases fields.len() - i,
    {
        out.push((fields[i].0.clone(), fields[i].1.clone()));
        i += 1;
        assert(out.deep_view() =~= fields.deep_view().take(i as int));
    }
    assert(fields.deep_view().take(i as int) =~= fields.deep_view());
    out
}

/// What reading a JSON document gives: its value, or the reader's message.
pub uninterp spec fn parsed(text: Seq<char>) -> Result<ValueView, Seq<char>>;

/// `serde_json::from_str` on a whole document. The document's value depends
/// on the text alone and is named [`parsed`]; of what the JSON grammar makes
/// of a given text nothing further is stated.
#[verifier::external_body]
fn read_document(text: &str) -> (r: Result<Value, String>)
    ensures
        match r {
            Ok(value) => parsed(text@) == Ok::<ValueView, Seq<char>>(value@),
            Err(message) => parsed(text@) == Err::<ValueView, Seq<char>>(message@),
        },
{
    match serde_json::from_str(text) {
        Ok(Json::Null) => Ok(Value::Null),
        Ok(Json::Bool(flag)) => Ok(Value::Bool(flag)),
        Ok(Json::Number(n)) => Ok(Value::Number(Number { unsigned: n.as_u64(), text: n.to_string() })),
        Ok(Json::String(s)) => Ok(Value::String(s)),
        Ok(Json::Array(a)) => Ok(Value::Array(a.iter().map(Json::to_string).collect())),
        Ok(Json::Object(o)) => Ok(
            Value::Object(o.into_iter().map(|(k, v)| (k, v.to_string())).collect()),
        ),
        Err(e) => Err(e.to_string()),
    }
}

/// How far a JSON text is nested, read up to some character.
#[verifier::ext_equal]
pub struct Nesting {
    /// Inside a string.
    pub quoted: bool,
    /// Inside a string, behind a reverse solidus.
    pub escaped: bool,
    /// The brackets open here.
    pub open: nat,
    /// The most brackets that were open at once.
    pub most: nat,
}

/// How far `text` is nested. Brackets inside strings do not count.
pub open spec fn nesting(text: Seq<char>) -> Nesting
    decreases text.len(),
{
    if text.len() == 0 {
        Nesting { quoted: false, escaped: false, open: 0, most: 0 }
    } else {
        let before = nesting(text.drop_last());
        let c = text.last();
        if before.escaped {
            Nesting { escaped: false, ..before }
        } else if before.quoted {
            Nesting { quoted: c != '"', escaped: c == '\\', ..before }
        } else if c == '"' {
            Nesting { quoted: true, ..before }
        } else if c == '[' || c == '{' {
            let open = before.open + 1;
            Nesting {
                open,
                most: if open > before.most {
                    open
                } else {
                    before.most
                },
                ..before
            }
        } else if (c == ']' || c == '}') && before.open > 0 {
            Nesting { open: (before.open - 1) as nat, ..before }
        } else {
            before
        }
    }
}

/// The most brackets of `text` that are open at once.
pub fn nesting_of(text: &str) -> (r: usize)
    ensures
        r == nesting(text@).most,
{
    let chars = crate::text::chars_of(text);
    let mut quoted = false;
    let mut escaped = false;
    let mut open: usize = 0;
    let mut most: usize = 0;
    let mut i: usize = 0;
    while i < chars.len()
        invariant
            i <= chars.len(),
            chars@ == text@,
            open <= i,
            nesting(text@.take(i as int)) == (Nesting {
                quoted,
                escaped,
                open: open as nat,
                most: most as nat,
            }),
        decreases chars.len() - i,
    {
        let c = chars[i];
        assert(text@.take(i as int + 1).drop_last() =~= text@.take(i as int));
        assert(text@.take(i as int + 1).last() == c);
        if escaped {
            escaped = false;
        } else if quoted {
            quoted = c != '"';
            escaped = c == '\\';
        } else if c == '"' {
            quoted = true;
        } else if c == '[' || c == '{' {
            open += 1;
            if open > most {
                most = open;
            }
        } else if (c == ']' || c == '}') && open > 0 {
            open -= 1;
        }
        i += 1;
    }
    assert(text@.take(i as int) =~= text@);
    most
}

/// The hexadecimal digit for `d`, lower case.
pub open spec fn hex_char(d: nat) -> char {
    if d < 10 {
        (48 + d) as char
    } else {
        (87 + d) as char
    }
}

/// How one character is written inside a JSON string.
pub open spec fn escaped(c: char) -> Seq<char> {
    if c == '"' {
        seq!['\\', '"']
    } else if c == '\\' {
        seq!['\\', '\\']
    } else if c as nat == 8 {
        seq!['\\', 'b']
    } else if c == '\t' {
        seq!['\\', 't']
    } else if c == '\n' {
        seq!['\\', 'n']
    } else if c as nat == 12 {
        seq!['\\', 'f']
    } else if c == '\r' {
        seq!['\\', 'r']
    } else if (c as nat) < 32 {
        seq!['\\', 'u', '0', '0', hex_char(c as nat / 16), hex_char(c as nat % 16)]
    } else {
        seq![c]
    }
}

/// The characters of `text`, each written as in a JSON string.
pub open spec fn escaped_text(text: Seq<char>) -> Seq<char>
    decreases text.len(),
{
    if text.len() == 0 {
        Seq::empty()
    } else {
        escaped_text(text.drop_last()) + escaped(text.last())
    }
}

/// `text` as a JSON string.
pub open spec fn quoted(text: Seq<char>) -> Seq<char> {
    seq!['"'] + escaped_text(text) + seq!['"']
}

/// `serde_json::to_string` on a string: the text between quotation marks,
/// with quotation mark, reverse solidus and the control characters below
/// U+0020 escaped and every other character as it is. Writing a string into
/// memory does not fail.
#[verifier::external_body]
pub(crate) fn quote(text: &str) -> (r: String)
    ensures
        r@ == quoted(text@),
{
    serde_json::to_string(text).unwrap_or_default()
}

/// A field of an object as JSON text.
pub open spec fn field_text(field: (Seq<char>, Seq<char>)) -> Seq<char> {
    quoted(field.0) + seq![':'] + field.1
}

/// The compact JSON text of a value.
pub open spec fn rendered(value: ValueView) -> Seq<char> {
    match value {
        ValueView::Null => "null"@,
        ValueView::Bool(flag) => if flag {
            "true"@
        } else {
            "false"@
        },
        ValueView::Number { text, .. } => text,
        ValueView::String(text) => quoted(text),
        ValueView::Array(items) => seq!['['] + crate::text::joined(items, ","@) + seq![']'],
        ValueView::Object(fields) => object_text(fields),
    }
}

/// An object with the given fields as JSON text.
pub open spec fn object_text(fields: Seq<(Seq<char>, Seq<char>)>) -> Seq<char> {
    seq!['{'] + crate::text::joined(
        fields.map_values(|f: (Seq<char>, Seq<char>)| field_text(f)),
        ","@,
    )
        + seq!['}']
}

/// The value of a field, read from its text.
pub open spec fn field_value(value: ValueView, key: Seq<char>) -> Option<ValueView> {
    match value {
        ValueView::Object(fields) => match pairs::lookup(fields, key) {
            Some(text) => match parsed(text) {
                Ok(inner) => Some(inner),
                Err(_) => None,
            },
            None => None,
        },
        _ => None,
    }
}

/// `newer` folded into `older`: fields of two objects combine, with the newer
/// value under a shared key; anything else is replaced.
pub open spec fn merged(older: ValueView, newer: ValueView) -> ValueView {
    match (older, newer) {
        (ValueView::Object(base), ValueView::Object(extra)) => ValueView::Object(
            merged_fields(base, extra),
        ),
        _ => newer,
    }
}

/// The fields of `base` with each of `extra` written over them in order.
pub open spec fn merged_fields<V>(
    base: Seq<(Seq<char>, V)>,
    extra: Seq<(Seq<char>, V)>,
) -> Seq<(Seq<char>, V)>
    decreases extra.len(),
{
    if extra.len() == 0 {
        base
    } else {
        pairs::put(merged_fields(base, extra.drop_last()), extra.last().0, extra.last().1)
    }
}

/// The value that the last of `fields` with `key` holds.
pub open spec fn last_value<V>(fields: Seq<(Seq<char>, V)>, key: Seq<char>) -> Option<V>
    decreases fields.len(),
{
    if fields.len() == 0 {
        None
    } else if fields.last().0 == key {
        Some(fields.last().1)
    } else {
        last_value(fields.drop_last(), key)
    }
}

/// Of a merge, every key of the newer fields reads as they have it, and every
/// other key as before.
pub proof fn merging_overrides<V>(
    base: Seq<(Seq<char>, V)>,
    extra: Seq<(Seq<char>, V)>,
    key: Seq<char>,
)
    ensures
        pairs::lookup(merged_fields(base, extra), key) == (match last_value(extra, key) {
            Some(value) => Some(value),
            None => pairs::lookup(base, key),
        }),
    decreases extra.len(),
{
    if extra.len() > 0 {
        let before = merged_fields(base, extra.drop_last());
        pairs::lookup_after_put(before, extra.last().0, extra.last().1, key);
        merging_overrides(base, extra.drop_last(), key);
    }
}

/// `base` with `value` written under `key`.
pub fn put_field(base: &mut Vec<(String, String)>, key: &str, value: &str)
    ensures
        final(base).deep_view() == pairs::put(old(base).deep_view(), key@, value@),
{
    let ghost before = base.deep_view();
    let mut i: usize = 0;
    while i < base.len()
        invariant
            i <= base.len(),
            base.deep_view() == before,
            before == old(base).deep_view(),
            forall|j: int|
                0 <= j < i ==> (#[trigger] before[j]).0 != key@ && !crate::text::precedes(
                    key@,
                    before[j].0,
                ),
        decreases base.len() - i,
    {
        assert(before[i as int] == base[i as int].deep_view());
        if crate::text::same(base[i].0.as_str(), key) {
            proof {
                pairs::write_position(before, key@, i as int, value@);
            }
            base.set(i, (key.to_owned(), value.to_owned()));
            assert(base.deep_view() =~= before.update(i as int, (key@, value@)));
            return;
        }
        if crate::text::comes_before(key, base[i].0.as_str()) {
            proof {
                pairs::write_position(before, key@, i as int, value@);
            }
            base.insert(i, (key.to_owned(), value.to_owned()));
            assert(base.deep_view() =~= before.insert(i as int, (key@, value@)));
            return;
        }
        i += 1;
    }
    proof {
        pairs::write_position(before, key@, before.len() as int, value@);
    }
    base.push((key.to_owned(), value.to_owned()));
    assert(base.deep_view() =~= before.insert(before.len() as int, (key@, value@)));
}

impl Value {
    /// Reads a JSON document.
    pub fn parse(text: &str) -> (r: Result<Value, String>)
        ensures
            match r {
                Ok(value) => parsed(text@) == Ok::<ValueView, Seq<char>>(value@),
                Err(message) => parsed(text@) == Err::<ValueView, Seq<char>>(message@),
            },
    {
        read_document(text)
    }

    /// The number `n`.
    pub fn unsigned(n: u64) -> (r: Value)
        ensures
            r@ == unsigned_value(n),
    {
        Value::Number(Number { unsigned: Some(n), text: crate::text::decimal_of(n) })
    }

    /// The string `text`.
    pub fn string(text: &str) -> (r: Value)
        ensures
            r@ == ValueView::String(text@),
    {
        Value::String(text.to_owned())
    }

    /// The string that this value is.
    pub fn as_str(&self) -> (r: Option<&str>)
        ensures
            match (r, self@) {
                (Some(text), ValueView::String(own)) => text@ == own,
                (None, ValueView::String(_)) => false,
                (Some(_), _) => false,
                (None, _) => true,
            },
    {
        match self {
            Value::String(text) => Some(text.as_str()),
            _ => None,
        }
    }

    /// The `u64` that this value is.
    pub fn as_u64(&self) -> (r: Option<u64>)
        ensures
            r == as_unsigned(self@),
    {
        match self {
            Value::Number(number) => number.unsigned,
            _ => None,
        }
    }

    /// The value of the field `key`, where this value is an object with it.
    pub fn get(&self, key: &str) -> (r: Option<Value>)
        ensures
            match r {
                Some(inner) => field_value(self@, key@) == Some(inner@),
                None => field_value(self@, key@) is None,
            },
    {
        match self {
            Value::Object(fields) => {
                let ghost all = fields.deep_view();
                let mut i: usize = 0;
                while i < fields.len()
                    invariant
                        i <= fields.len(),
                        all == fields.deep_view(),
                        self@ == ValueView::Object(all),
                        forall|j: int| 0 <= j < i ==> (#[trigger] all[j]).0 != key@,
                    decreases fields.len() - i,
                {
                    assert(all[i as int] == fields[i as int].deep_view());
                    if crate::text::same(fields[i].0.as_str(), key) {
                        proof {
                            pairs::first_match(all, key@, i as int);
                        }
                        return match Value::parse(fields[i].1.as_str()) {
                            Ok(inner) => Some(inner),
                            Err(_) => None,
                        };
                    }
                    i += 1;
                }
                proof {
                    pairs::first_match(all, key@, all.len() as int);
                }
                None
            },
            _ => None,
        }
    }

    /// This value with `newer` folded in.
    pub fn merge(self, newer: Value) -> (r: Value)
        ensures
            r@ == merged(self@, newer@),
    {
        match (self, newer) {
            (Value::Object(base), Value::Object(extra)) => {
                let mut out = base;
                let ghost start = base.deep_view();
                let ghost added = extra.deep_view();
                let mut i: usize = 0;
                while i < extra.len()
                    invariant
                        i <= extra.len(),
                        added == extra.deep_view(),
                        out.deep_view() == merged_fields(start, added.take(i as int)),
                    decreases extra.len() - i,
                {
                    put_field(&mut out, extra[i].0.as_str(), extra[i].1.as_str());
                    i += 1;
                    assert(added.take(i as int).drop_last() =~= added.take(i as int - 1));
                    assert(added.take(i as int).last() == added[i as int - 1]);
                    assert(added[i as int - 1] == extra[i as int - 1].deep_view());
                }
                assert(added.take(i as int) =~= added);
                Value::Object(out)
            },
            (_, other) => other,
        }
    }

    /// The compact JSON text of this value.
    pub fn render(&self) -> (r: String)
        ensures
            r@ == rendered(self@),
    {
        match self {
            Value::Null => "null".to_owned(),
            Value::Bool(flag) => if *flag {
                "true".to_owned()
            } else {
                "false".to_owned()
            },
            Value::Number(number) => number.text.clone(),
            Value::String(text) => quote(text.as_str()),
            Value::Array(items) => {
                let mut out = String::new();
                out.push('[');
                let inner = crate::text::join(items, ",");
                out.append(inner.as_str());
                out.push(']');
                assert(out@ =~= rendered(self@));
                out
            },
            Value::Object(fields) => render_object(fields),
        }
    }
}

/// The number `n` as a value.
pub open spec fn unsigned_value(n: u64) -> ValueView {
    ValueView::Number { unsigned: Some(n), text: crate::text::decimal(n as nat) }
}

/// The `u64` that a value is.
pub open spec fn as_unsigned(value: ValueView) -> Option<u64> {
    match value {
        ValueView::Number { unsigned, .. } => unsigned,
        _ => None,
    }
}

/// An object's compact JSON text.
pub fn render_object(fields: &Vec<(String, String)>) -> (r: String)
    ensures
        r@ == object_text(fields.deep_view()),
{
    let ghost all = fields.deep_view();
    let ghost texts = all.map_values(|f: (Seq<char>, Seq<char>)| field_text(f));
    let mut parts: Vec<String> = Vec::new();
    let mut i: usize = 0;
    while i < fields.len()
        invariant
            i <= fields.len(),
            all == fields.deep_view(),
            texts == all.map_values(|f: (Seq<char>, Seq<char>)| field_text(f)),
            parts.len() == i,
            parts.deep_view() == texts.take(i as int),
        decreases fields.len() - i,
    {
        let mut part = quote(fields[i].0.as_str());
        part.push(':');
        part.append(fields[i].1.as_str());
        assert(all[i as int] == fields[i as int].deep_view());
        assert(part@ =~= field_text(all[i as int]));
        parts.push(part);
        i += 1;
        assert(parts.deep_view() =~= texts.take(i as int));
    }
    assert(texts.take(i as int) =~= texts);
    let mut out = String::new();
    out.push('{');
    let inner = crate::text::join(&parts, ",");
    out.append(inner.as_str());
    out.push('}');
    assert(out@ =~= object_text(all));
    out
}

} // verus!
