//! What trimming, joining, searching and counting come to, in terms of the
//! texts that go in.
use crate::text;
use vstd::prelude::*;

verus! {

/// Whether `s` is white space throughout.
pub open spec fn blank(s: Seq<char>) -> bool {
    forall|i: int| 0 <= i < s.len() ==> text::white(#[trigger] s[i])
}

proof fn start_is_cut(s: Seq<char>)
    ensures
        exists|head: Seq<char>| #[trigger] blank(head) && s == head + text::trimmed_start(s),
        text::trimmed_start(s).len() > 0 ==> !text::white(text::trimmed_start(s)[0]),
    decreases s.len(),
{
    if s.len() > 0 && text::white(s[0]) {
        let rest = s.drop_first();
        start_is_cut(rest);
        let head = choose|head: Seq<char>| #[trigger]
            blank(head) && rest == head + text::trimmed_start(rest);
        let longer = seq![s[0]] + head;
        assert(blank(longer)) by {
            assert forall|i: int| 0 <= i < longer.len() implies text::white(
                #[trigger] longer[i],
            ) by {
                if i > 0 {
                    assert(longer[i] == head[i - 1]);
                }
            }
        }
        let kept = text::trimmed_start(s);
        assert(rest == head + kept);
        assert(s =~= seq![s[0]] + rest);
        assert(seq![s[0]] + (head + kept) =~= longer + kept);
        assert(s == longer + kept);
    } else {
        let head = Seq::<char>::empty();
        assert(blank(head));
        assert(s =~= head + text::trimmed_start(s));
    }
}

proof fn end_is_cut(s: Seq<char>)
    ensures
        exists|tail: Seq<char>| #[trigger] blank(tail) && s == text::trimmed_end(s) + tail,
        text::trimmed_end(s).len() > 0 ==> !text::white(text::trimmed_end(s).last())
            && text::trimmed_end(s)[0] == s[0],
    decreases s.len(),
{
    if s.len() > 0 && text::white(s.last()) {
        let rest = s.drop_last();
        end_is_cut(rest);
        let tail = choose|tail: Seq<char>| #[trigger]
            blank(tail) && rest == text::trimmed_end(rest) + tail;
        let longer = tail + seq![s.last()];
        assert(blank(longer)) by {
            assert forall|i: int| 0 <= i < longer.len() implies text::white(
                #[trigger] longer[i],
            ) by {
                if i < tail.len() {
                    assert(longer[i] == tail[i]);
                }
            }
        }
        let kept = text::trimmed_end(s);
        assert(rest == kept + tail);
        assert(s =~= rest + seq![s.last()]);
        assert((kept + tail) + seq![s.last()] =~= kept + longer);
        assert(s == kept + longer);
    } else {
        let tail = Seq::<char>::empty();
        assert(blank(tail));
        assert(s =~= text::trimmed_end(s) + tail);
    }
}

/// Trimming takes white space off both ends and nothing else: the text is what
/// was kept with white space around it, and what was kept neither starts nor
/// ends in white space.
pub proof fn trimming_takes_white_space_only(s: Seq<char>)
    ensures
        exists|head: Seq<char>, tail: Seq<char>|
            #![trigger blank(head), blank(tail)]
            blank(head) && blank(tail) && s == head + text::trimmed(s) + tail,
        text::trimmed(s).len() > 0 ==> !text::white(text::trimmed(s)[0]) && !text::white(
            text::trimmed(s).last(),
        ),
{
    start_is_cut(s);
    let rest = text::trimmed_start(s);
    end_is_cut(rest);
    let head = choose|head: Seq<char>| #[trigger] blank(head) && s == head + rest;
    let tail = choose|tail: Seq<char>| #[trigger]
        blank(tail) && rest == text::trimmed_end(rest) + tail;
    assert(s =~= head + text::trimmed(s) + tail);
    assert(blank(head) && blank(tail));
}

/// White space around a text that neither starts nor ends in white space is
/// all that trimming takes off.
pub proof fn trimming_finds_the_core(head: Seq<char>, core: Seq<char>, tail: Seq<char>)
    requires
        blank(head),
        blank(tail),
        core.len() > 0,
        !text::white(core[0]),
        !text::white(core.last()),
    ensures
        text::trimmed(head + core + tail) == core,
    decreases head.len() + tail.len(),
{
    let s = head + core + tail;
    if head.len() > 0 {
        assert(s[0] == head[0]);
        let fewer = head.drop_first();
        assert(blank(fewer)) by {
            assert forall|i: int| 0 <= i < fewer.len() implies text::white(#[trigger] fewer[i]) by {
                assert(fewer[i] == head[i + 1]);
            }
        }
        assert(s.drop_first() =~= fewer + core + tail);
        trimming_finds_the_core(fewer, core, tail);
    } else {
        assert(s =~= core + tail);
        assert(s[0] == core[0]);
        assert(text::trimmed_start(s) == s);
        if tail.len() > 0 {
            assert(s.last() == tail.last());
            let fewer = tail.drop_last();
            assert(tail.last() == tail[tail.len() - 1]);
            assert(blank(fewer)) by {
                assert forall|i: int| 0 <= i < fewer.len() implies text::white(
                    #[trigger] fewer[i],
                ) by {
                    assert(fewer[i] == tail[i]);
                }
            }
            let shorter = head + core + fewer;
            assert(s.drop_last() =~= shorter);
            trimming_finds_the_core(head, core, fewer);
            assert(shorter[0] == core[0]);
            assert(text::trimmed_start(shorter) == shorter);
        } else {
            assert(s =~= core);
        }
    }
}

/// A blank text is trimmed away whole.
pub proof fn trimming_empties_blanks(s: Seq<char>)
    requires
        blank(s),
    ensures
        text::trimmed(s) == Seq::<char>::empty(),
{
    trimming_takes_white_space_only(s);
    let core = text::trimmed(s);
    let (head, tail) = choose|head: Seq<char>, tail: Seq<char>|
        #![trigger blank(head), blank(tail)]
        blank(head) && blank(tail) && s == head + core + tail;
    if core.len() > 0 {
        assert(s[head.len() as int] == core[0]);
    }
    assert(core =~= Seq::empty());
}

/// A text that neither starts nor ends in white space is trimmed to itself.
pub proof fn trimming_keeps_the_core(s: Seq<char>)
    requires
        s.len() > 0 ==> !text::white(s[0]) && !text::white(s.last()),
    ensures
        text::trimmed(s) == s,
{
}

/// A text occurs in another exactly where the other is something, the text,
/// and something again.
pub proof fn occurring_is_standing_between(hay: Seq<char>, needle: Seq<char>)
    ensures
        text::occurs(hay, needle) <==> exists|before: Seq<char>, after: Seq<char>|
            hay == #[trigger] (before + needle + after),
{
    if text::occurs(hay, needle) {
        let at = choose|at: int| text::stands_at(hay, needle, at);
        let before = hay.take(at);
        let after = hay.skip(at + needle.len());
        assert(hay.subrange(at, at + needle.len()) == needle);
        assert(hay =~= before + hay.subrange(at, at + needle.len()) + after);
        assert(hay == before + needle + after);
    }
    if exists|before: Seq<char>, after: Seq<char>| hay == #[trigger] (before + needle + after) {
        let (before, after) = choose|before: Seq<char>, after: Seq<char>|
            hay == #[trigger] (before + needle + after);
        let at = before.len() as int;
        assert(hay.subrange(at, at + needle.len()) =~= needle);
        assert(text::stands_at(hay, needle, at));
    }
}

/// Joining is piecewise: two lists joined one after the other are the joined
/// texts of each with the separator between them; one text alone is joined to
/// itself, and none to nothing.
pub proof fn joining_is_piecewise(a: Seq<Seq<char>>, b: Seq<Seq<char>>, sep: Seq<char>)
    ensures
        text::joined(Seq::empty(), sep) == Seq::<char>::empty(),
        a.len() == 1 ==> text::joined(a, sep) == a[0],
        a.len() > 0 && b.len() > 0 ==> text::joined(a + b, sep) == text::joined(a, sep) + sep
            + text::joined(b, sep),
    decreases b.len(),
{
    if a.len() > 0 && b.len() > 0 {
        assert((a + b).drop_last() =~= a + b.drop_last());
        assert((a + b).last() == b.last());
        if b.len() == 1 {
            assert(a + b.drop_last() =~= a);
            assert(text::joined(a + b, sep) =~= text::joined(a, sep) + sep + text::joined(b, sep));
        } else {
            joining_is_piecewise(a, b.drop_last(), sep);
            assert(text::joined(a + b, sep) =~= text::joined(a, sep) + sep + text::joined(b, sep));
        }
    }
}

/// What a row of decimal digits stands for.
pub open spec fn numeral(s: Seq<char>) -> nat
    decreases s.len(),
{
    if s.len() == 0 {
        0
    } else {
        10 * numeral(s.drop_last()) + (s.last() as nat - '0' as nat) as nat
    }
}

/// A number is written in decimal digits that stand for it, without a leading
/// zero unless it is the one digit.
pub proof fn decimals_stand_for_their_number(n: nat)
    ensures
        text::decimal(n).len() > 0,
        forall|i: int|
            0 <= i < text::decimal(n).len() ==> '0' <= #[trigger] text::decimal(n)[i] <= '9',
        numeral(text::decimal(n)) == n,
        n > 0 ==> text::decimal(n)[0] != '0',
    decreases n,
{
    let shown = text::decimal(n);
    if n < 10 {
        assert(shown.drop_last() =~= Seq::empty());
        assert(numeral(shown.drop_last()) == 0);
    } else {
        decimals_stand_for_their_number(n / 10);
        assert(shown.drop_last() =~= text::decimal(n / 10));
        assert forall|i: int| 0 <= i < shown.len() implies '0' <= #[trigger] shown[i] <= '9' by {
            if i < shown.len() - 1 {
                assert(shown[i] == text::decimal(n / 10)[i]);
            }
        }
        assert(shown[0] == text::decimal(n / 10)[0]);
    }
}

/// Texts are ordered by the first character in which they differ; of two of
/// which one begins the other, the shorter is first.
pub proof fn texts_are_ordered_by_first_difference(
    head: Seq<char>,
    a: char,
    b: char,
    rest: Seq<char>,
    other: Seq<char>,
)
    ensures
        a < b ==> text::precedes(head.push(a) + rest, head.push(b) + other),
        text::precedes(head, head.push(a) + rest),
        !text::precedes(head, head),
    decreases head.len(),
{
    let x = head.push(a) + rest;
    let y = head.push(b) + other;
    if head.len() > 0 {
        let fewer = head.drop_first();
        texts_are_ordered_by_first_difference(fewer, a, b, rest, other);
        assert(x.drop_first() =~= fewer.push(a) + rest);
        assert(y.drop_first() =~= fewer.push(b) + other);
    }
}

} // verus!
