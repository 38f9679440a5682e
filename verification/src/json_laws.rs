//! How JSON text is written, in terms of what is written.
use crate::json;
use crate::json::ValueView;
use crate::pairs;
use crate::text;
use crate::text_laws;
use vstd::prelude::*;

verus! {

/// A text is escaped character by character.
pub proof fn texts_are_escaped_character_by_character(a: Seq<char>, b: Seq<char>, c: char)
    ensures
        json::escaped_text(a + b) == json::escaped_text(a) + json::escaped_text(b),
        json::escaped_text(seq![c]) == json::escaped(c),
    decreases b.len(),
{
    reveal_with_fuel(json::escaped_text, 2);
    assert(seq![c].drop_last() =~= Seq::empty());
    assert(json::escaped_text(seq![c]) =~= json::escaped(c));
    if b.len() == 0 {
        assert(a + b =~= a);
        assert(json::escaped_text(a) + json::escaped_text(b) =~= json::escaped_text(a));
    } else {
        texts_are_escaped_character_by_character(a, b.drop_last(), c);
        assert((a + b).drop_last() =~= a + b.drop_last());
        assert((a + b).last() == b.last());
        assert(json::escaped_text(a + b) =~= json::escaped_text(a) + json::escaped_text(b));
    }
}

/// A character is written as it is, unless it is a quotation mark, a reverse
/// solidus or a control character: then it is written behind a reverse solidus.
/// No two characters are written alike.
pub proof fn escapes_are_told_apart(c: char, d: char)
    ensures
        c != '"' && c != '\\' && c as nat >= 32 <==> json::escaped(c) == seq![c],
        c == '"' || c == '\\' || (c as nat) < 32 ==> json::escaped(c).len() >= 2 && json::escaped(
            c,
        )[0] == '\\',
        json::escaped(c) == json::escaped(d) ==> c == d,
{
    let x = json::escaped(c);
    let y = json::escaped(d);
    assert(seq![c][0] == c);
    assert(seq![c].len() == 1);
    if x == y {
        assert(x[0] == y[0]);
        if x.len() > 1 {
            assert(x[1] == y[1]);
        }
        if x.len() > 4 {
            assert(x[4] == y[4]);
            assert(x[5] == y[5]);
            assert(c as nat / 16 < 2);
            assert(d as nat / 16 < 2);
            assert(json::hex_char(c as nat / 16) == json::hex_char(d as nat / 16));
            assert(json::hex_char(c as nat % 16) == json::hex_char(d as nat % 16));
        }
    }
}

/// Two texts that are quoted alike are the same text.
pub proof fn quoting_is_faithful(a: Seq<char>, b: Seq<char>)
    requires
        json::quoted(a) == json::quoted(b),
    ensures
        a == b,
{
    let x = json::escaped_text(a);
    let y = json::escaped_text(b);
    assert(json::quoted(a).subrange(1, json::quoted(a).len() - 1) =~= x);
    assert(json::quoted(b).subrange(1, json::quoted(b).len() - 1) =~= y);
    escapes_are_faithful(a, b);
}

proof fn first_comes_first(s: Seq<char>)
    requires
        s.len() > 0,
    ensures
        json::escaped_text(s) == json::escaped(s[0]) + json::escaped_text(s.drop_first()),
{
    assert(s =~= seq![s[0]] + s.drop_first());
    texts_are_escaped_character_by_character(seq![s[0]], s.drop_first(), s[0]);
}

proof fn escapes_are_faithful(a: Seq<char>, b: Seq<char>)
    requires
        json::escaped_text(a) == json::escaped_text(b),
    ensures
        a == b,
    decreases a.len() + b.len(),
{
    if a.len() == 0 {
        if b.len() > 0 {
            first_comes_first(b);
            assert(json::escaped_text(b).len() > 0);
        }
        assert(a =~= b);
    } else if b.len() == 0 {
        first_comes_first(a);
        assert(json::escaped_text(a).len() > 0);
    } else {
        first_comes_first(a);
        first_comes_first(b);
        let x = json::escaped(a[0]);
        let y = json::escaped(b[0]);
        let p = json::escaped_text(a.drop_first());
        let q = json::escaped_text(b.drop_first());
        let whole = x + p;
        assert(whole == y + q);
        assert(whole[0] == x[0] && whole[0] == y[0]);
        if x.len() > 1 || y.len() > 1 {
            assert(x.len() > 1 && y.len() > 1) by {
                escapes_are_told_apart(a[0], b[0]);
                escapes_are_told_apart(b[0], a[0]);
            }
            assert(whole[1] == x[1] && whole[1] == y[1]);
        }
        assert(x.len() == y.len());
        assert(x =~= whole.take(x.len() as int));
        assert(y =~= whole.take(y.len() as int));
        escapes_are_told_apart(a[0], b[0]);
        assert(p =~= whole.skip(x.len() as int));
        assert(q =~= whole.skip(y.len() as int));
        escapes_are_faithful(a.drop_first(), b.drop_first());
        assert(a =~= seq![a[0]] + a.drop_first());
        assert(b =~= seq![b[0]] + b.drop_first());
    }
}

/// An object is written field by field, in order, a comma between them: the
/// quoted key, a colon and the value's own text.
pub proof fn objects_are_written_field_by_field(
    fields: Seq<(Seq<char>, Seq<char>)>,
    key: Seq<char>,
    value: Seq<char>,
)
    ensures
        json::object_text(Seq::empty()) == seq!['{', '}'],
        ({
            let after = json::object_text(fields.push((key, value)));
            let before = json::object_text(fields);
            let shown = json::quoted(key) + seq![':'] + value;
            after == before.drop_last() + (if fields.len() == 0 {
                Seq::empty()
            } else {
                ","@
            }) + shown + seq!['}']
        }),
{
    let written = |f: (Seq<char>, Seq<char>)| json::field_text(f);
    let texts = fields.map_values(written);
    let longer = fields.push((key, value));
    let shown = json::quoted(key) + seq![':'] + value;
    assert(longer.map_values(written) =~= texts.push(shown));
    let none = Seq::<(Seq<char>, Seq<char>)>::empty();
    assert(none.map_values(written) =~= Seq::empty());
    assert(json::object_text(none) =~= seq!['{', '}']);
    text_laws::joining_is_piecewise(texts, seq![shown], ","@);
    text_laws::joining_is_piecewise(seq![shown], seq![shown], ","@);
    assert(texts + seq![shown] =~= texts.push(shown));
    let before = json::object_text(fields);
    assert(before.drop_last() =~= seq!['{'] + text::joined(texts, ","@));
    if fields.len() == 0 {
        assert(texts.push(shown) =~= seq![shown]);
        assert(texts =~= Seq::empty());
    }
    assert(json::object_text(longer) =~= before.drop_last() + (if fields.len() == 0 {
        Seq::empty()
    } else {
        ","@
    }) + shown + seq!['}']);
}

/// A value is written as JSON writes it: the three words, a number as its
/// text, a string in quotation marks, an array between brackets.
pub proof fn values_are_written_as_json(
    said: Seq<char>,
    unsigned: Option<u64>,
    items: Seq<Seq<char>>,
)
    ensures
        json::rendered(ValueView::Null) == "null"@,
        json::rendered(ValueView::Bool(true)) == "true"@,
        json::rendered(ValueView::Bool(false)) == "false"@,
        json::rendered(ValueView::Number { unsigned, text: said }) == said,
        json::rendered(ValueView::String(said)) == seq!['"'] + json::escaped_text(said) + seq!['"'],
        json::rendered(ValueView::Array(items)) == seq!['['] + text::joined(items, ","@) + seq![
            ']',
        ],
{
}

/// A newer value replaces an older one unless both are objects, and then the
/// result is an object.
pub proof fn only_objects_combine(older: ValueView, newer: ValueView)
    ensures
        !(older is Object && newer is Object) ==> json::merged(older, newer) == newer,
        older is Object && newer is Object ==> json::merged(older, newer) is Object,
{
}

/// The nesting of a text is the most brackets that are open at once: at no
/// point are more open, and at some point that many are.
pub proof fn nesting_is_the_highest_point(s: Seq<char>, k: int)
    requires
        0 <= k <= s.len(),
    ensures
        json::nesting(s.take(k)).open <= json::nesting(s).most,
        exists|j: int|
            0 <= j <= s.len() && #[trigger] json::nesting(s.take(j)).open == json::nesting(s).most,
    decreases s.len(),
{
    if s.len() == 0 {
        assert(s.take(k) =~= s);
        assert(json::nesting(s.take(0)).open == json::nesting(s).most);
    } else {
        let before = s.drop_last();
        let last = s.len() as int;
        assert(s.take(last) =~= s);
        if k < s.len() {
            nesting_is_the_highest_point(before, k);
            assert(before.take(k) =~= s.take(k));
        } else {
            nesting_is_the_highest_point(before, before.len() as int);
            assert(before.take(before.len() as int) =~= before);
        }
        let j = choose|j: int|
            0 <= j <= before.len() && #[trigger] json::nesting(before.take(j)).open
                == json::nesting(before).most;
        assert(before.take(j) =~= s.take(j));
        if json::nesting(s).most != json::nesting(before).most {
            assert(json::nesting(s.take(last)).open == json::nesting(s).most);
        } else {
            assert(json::nesting(s.take(j)).open == json::nesting(s).most);
        }
    }
}

/// Outside of strings an opening bracket opens one more and a closing one closes
/// one; within a string brackets count nothing, and a string leaves the nesting
/// as it was.
pub proof fn brackets_count_outside_strings(s: Seq<char>, inner: Seq<char>)
    requires
        !json::nesting(s).quoted,
        !json::nesting(s).escaped,
    ensures
        json::nesting(s.push('[')).open == json::nesting(s).open + 1,
        json::nesting(s.push('{')).open == json::nesting(s).open + 1,
        json::nesting(s).open > 0 ==> json::nesting(s.push(']')).open == json::nesting(s).open - 1
            && json::nesting(s.push('}')).open == json::nesting(s).open - 1,
        json::nesting(s + json::quoted(inner)) == json::nesting(s),
{
    assert(s.push('[').drop_last() =~= s);
    assert(s.push('{').drop_last() =~= s);
    assert(s.push(']').drop_last() =~= s);
    assert(s.push('}').drop_last() =~= s);
    let opened = s.push('"');
    assert(opened.drop_last() =~= s);
    within_a_string(opened, inner);
    let whole = s + json::quoted(inner);
    let body = opened + json::escaped_text(inner);
    assert(whole =~= body.push('"'));
    assert(whole.drop_last() =~= body);
}

proof fn within_a_string(s: Seq<char>, inner: Seq<char>)
    requires
        json::nesting(s).quoted,
        !json::nesting(s).escaped,
    ensures
        json::nesting(s + json::escaped_text(inner)) == json::nesting(s),
    decreases inner.len(),
{
    if inner.len() == 0 {
        assert(s + json::escaped_text(inner) =~= s);
    } else {
        let before = inner.drop_last();
        within_a_string(s, before);
        let so_far = s + json::escaped_text(before);
        let shown = json::escaped(inner.last());
        assert(s + json::escaped_text(inner) =~= so_far + shown);
        let c = inner.last();
        let one = so_far.push(shown[0]);
        assert(one.drop_last() =~= so_far);
        if shown.len() == 1 {
            assert(so_far + shown =~= one);
        } else {
            let two = one.push(shown[1]);
            escapes_are_told_apart(c, c);
            assert(one.last() == '\\');
            assert(json::nesting(one) == json::Nesting {
                escaped: true,
                ..json::nesting(so_far)
            });
            assert(two.drop_last() =~= one);
            assert(json::nesting(two) == json::nesting(so_far));
            if shown.len() == 2 {
                assert(so_far + shown =~= two);
            } else {
                let three = two.push(shown[2]);
                let four = three.push(shown[3]);
                let five = four.push(shown[4]);
                let six = five.push(shown[5]);
                assert(c as nat / 16 < 2 && c as nat % 16 < 16);
                assert(shown[4] != '"' && shown[4] != '\\');
                assert(shown[5] != '"' && shown[5] != '\\');
                assert(three.drop_last() =~= two);
                assert(json::nesting(three) == json::nesting(two));
                assert(four.drop_last() =~= three);
                assert(json::nesting(four) == json::nesting(three));
                assert(five.drop_last() =~= four);
                assert(json::nesting(five) == json::nesting(four));
                assert(six.drop_last() =~= five);
                assert(json::nesting(six) == json::nesting(five));
                assert(so_far + shown =~= six);
            }
        }
    }
}

/// A field of an object is read from its own text; what has no such field, or
/// is no object, gives nothing.
pub proof fn fields_are_read_from_their_text(
    fields: Seq<(Seq<char>, Seq<char>)>,
    key: Seq<char>,
    written: Seq<char>,
    value: ValueView,
    other: ValueView,
)
    ensures
        pairs::lookup(fields, key) == Some(written) && json::parsed(written) == Ok::<
            ValueView,
            Seq<char>,
        >(value) ==> json::field_value(ValueView::Object(fields), key) == Some(value),
        pairs::lookup(fields, key) is None ==> json::field_value(ValueView::Object(fields), key)
            is None,
        !(other is Object) ==> json::field_value(other, key) is None,
{
}

} // verus!
