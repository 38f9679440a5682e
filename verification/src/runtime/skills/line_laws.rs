//! What the lines of a skill file come to, in terms of what is written on
//! them.
use crate::pairs;
use crate::runtime::skills::frontmatter;
use crate::runtime::skills::frontmatter::FrontmatterIssueView;
use crate::text;
use crate::text_laws;
use vstd::prelude::*;

verus! {

/// A line that gives a key a value.
pub open spec fn entry(key: Seq<char>, value: Seq<char>) -> Seq<char> {
    key + seq![':'] + value
}

/// Whether `c` stands in `s`.
pub open spec fn holds(s: Seq<char>, c: char) -> bool {
    exists|i: int| 0 <= i < s.len() && #[trigger] s[i] == c
}

/// Whether `text` is one line that is neither blank nor a comment.
pub open spec fn speaks(text: Seq<char>) -> bool {
    &&& !holds(text, '\n')
    &&& text::trimmed(text).len() > 0
    &&& text::trimmed(text)[0] != '#'
}

/// Whether a value without quotation marks can be taken as it is.
pub open spec fn plain(value: Seq<char>) -> bool {
    &&& value.len() > 0
    &&& value[0] != '"' && value[0] != '\''
    &&& value.last() != '"' && value.last() != '\''
    &&& !text::occurs(value, ": "@)
    &&& value.last() != ':'
    &&& value[0] != '>' && value[0] != '|' && value[0] != '&' && value[0] != '*' && value[0]
        != '!' && value[0] != '%' && value[0] != '@' && value[0] != '`' && value[0] != '['
        && value[0] != '{'
}

proof fn one_line(text: Seq<char>)
    requires
        !holds(text, '\n'),
        text.len() > 0,
    ensures
        frontmatter::lines_of(text) == seq![text],
{
    assert forall|j: int| 0 <= j < text.len() implies #[trigger] text[j] != '\n' by {
        if text[j] == '\n' {
            assert(holds(text, '\n'));
        }
    }
    frontmatter::char_at_is(text, '\n', text.len() as int);
}

proof fn cut_at_the_colon(key: Seq<char>, value: Seq<char>)
    requires
        !holds(key, ':'),
    ensures
        frontmatter::char_at(entry(key, value), ':') == key.len(),
        entry(key, value).take(key.len() as int) == key,
        entry(key, value).skip(key.len() as int + 1) == value,
{
    let line = entry(key, value);
    assert forall|j: int| 0 <= j < key.len() implies #[trigger] line[j] != ':' by {
        assert(line[j] == key[j]);
        if key[j] == ':' {
            assert(holds(key, ':'));
        }
    }
    assert(line[key.len() as int] == ':');
    frontmatter::char_at_is(line, ':', key.len() as int);
    assert(line.take(key.len() as int) =~= key);
    assert(line.skip(key.len() as int + 1) =~= value);
}

proof fn one_line_is_all(line: Seq<char>)
    requires
        speaks(line),
    ensures
        frontmatter::pairs_of(frontmatter::lines_of(line)) == (match frontmatter::read_line(line) {
            frontmatter::Line::Pair(key, value) => seq![(key, value)],
            _ => Seq::empty(),
        }),
        frontmatter::issues_of(frontmatter::lines_of(line)) == (match frontmatter::read_line(
            line,
        ) {
            frontmatter::Line::Problem(issue) => seq![issue],
            _ => Seq::empty(),
        }),
{
    if line.len() == 0 {
        text_laws::trimming_empties_blanks(line);
    }
    one_line(line);
    let lines = seq![line];
    assert(lines.drop_last() =~= Seq::empty());
    assert(frontmatter::pairs_of(lines.drop_last()) =~= Seq::empty());
    assert(frontmatter::issues_of(lines.drop_last()) =~= Seq::empty());
    match frontmatter::read_line(line) {
        frontmatter::Line::Problem(issue) => {
            assert(Seq::<FrontmatterIssueView>::empty().push(issue) =~= seq![issue]);
        },
        _ => {},
    }
}

/// A line that gives a key a plain value is read as just that: the key and the
/// value, each trimmed and otherwise unchanged, however many words the value
/// has, and no issue.
pub proof fn plain_values_are_taken_whole(key: Seq<char>, value: Seq<char>)
    requires
        !holds(key, ':'),
        speaks(entry(key, value)),
        plain(text::trimmed(value)),
    ensures
        frontmatter::pairs_of(frontmatter::lines_of(entry(key, value))) == seq![
            (text::trimmed(key), text::trimmed(value)),
        ],
        frontmatter::issues_of(frontmatter::lines_of(entry(key, value))) == Seq::<
            FrontmatterIssueView,
        >::empty(),
{
    cut_at_the_colon(key, value);
    one_line_is_all(entry(key, value));
}

/// A plain value keeps every word: what stands behind the colon is read back as
/// the words with what stands between them.
pub proof fn words_stay_together(key: Seq<char>, first: Seq<char>, gap: Seq<char>, rest: Seq<char>)
    requires
        !holds(key, ':'),
        speaks(entry(key, first + gap + rest)),
        first.len() > 0,
        rest.len() > 0,
        !text::white(first[0]),
        !text::white(rest.last()),
        plain(first + gap + rest),
    ensures
        pairs::lookup(
            frontmatter::pairs_of(frontmatter::lines_of(entry(key, first + gap + rest))),
            text::trimmed(key),
        ) == Some(first + gap + rest),
{
    let value = first + gap + rest;
    assert(value[0] == first[0]);
    assert(value.last() == rest.last());
    text_laws::trimming_keeps_the_core(value);
    plain_values_are_taken_whole(key, value);
}

/// A value in quotation marks is read without them and otherwise unchanged,
/// colons and leading indicators included.
pub proof fn quoted_values_lose_their_marks(key: Seq<char>, mark: char, inner: Seq<char>)
    requires
        !holds(key, ':'),
        mark == '"' || mark == '\'',
        speaks(entry(key, seq![mark] + inner + seq![mark])),
        inner.len() > 0 ==> inner[0] != '"' && inner[0] != '\'' && inner.last() != '"'
            && inner.last() != '\'',
    ensures
        frontmatter::pairs_of(
            frontmatter::lines_of(entry(key, seq![mark] + inner + seq![mark])),
        ) == seq![(text::trimmed(key), inner)],
        frontmatter::issues_of(
            frontmatter::lines_of(entry(key, seq![mark] + inner + seq![mark])),
        ) == Seq::<FrontmatterIssueView>::empty(),
{
    let value = seq![mark] + inner + seq![mark];
    cut_at_the_colon(key, value);
    one_line_is_all(entry(key, value));
    assert(value[0] == mark);
    assert(value.last() == mark);
    text_laws::trimming_keeps_the_core(value);
    let rest = value.drop_first();
    assert(rest =~= inner + seq![mark]);
    reveal_with_fuel(frontmatter::unquoted_start, 3);
    reveal_with_fuel(frontmatter::unquoted_end, 3);
    if inner.len() > 0 {
        assert(rest[0] == inner[0]);
        assert(rest.last() == mark);
        assert(rest.drop_last() =~= inner);
    } else {
        assert(rest.drop_first() =~= Seq::empty());
        assert(inner =~= Seq::empty());
    }
    assert(frontmatter::unquoted(value) =~= inner);
}

/// A key with nothing behind its colon has the empty value.
pub proof fn empty_values_are_empty(key: Seq<char>, value: Seq<char>)
    requires
        !holds(key, ':'),
        speaks(entry(key, value)),
        text_laws::blank(value),
    ensures
        frontmatter::pairs_of(frontmatter::lines_of(entry(key, value))) == seq![
            (text::trimmed(key), Seq::<char>::empty()),
        ],
        frontmatter::issues_of(frontmatter::lines_of(entry(key, value))) == Seq::<
            FrontmatterIssueView,
        >::empty(),
{
    cut_at_the_colon(key, value);
    one_line_is_all(entry(key, value));
    text_laws::trimming_empties_blanks(value);
}

/// A value that cannot be taken gives no pair but one issue that names its key:
/// a quotation mark that is not closed, a plain value with a colon in front of
/// a space or at its end, a plain value that starts with an indicator.
pub proof fn unfit_values_are_reported(key: Seq<char>, value: Seq<char>)
    requires
        !holds(key, ':'),
        speaks(entry(key, value)),
        text::trimmed(value).len() > 0,
    ensures
        ({
            let lines = frontmatter::lines_of(entry(key, value));
            let body = text::trimmed(value);
            let quoted = body[0] == '"' || body[0] == '\'';
            let nothing = Seq::<(Seq<char>, Seq<char>)>::empty();
            &&& quoted && (body.len() == 1 || body.last() != body[0]) ==> {
                &&& frontmatter::pairs_of(lines) == nothing
                &&& frontmatter::issues_of(lines) == seq![
                    FrontmatterIssueView::UnterminatedQuote(text::trimmed(key)),
                ]
            }
            &&& !quoted && (text::occurs(body, ": "@) || body.last() == ':') ==> {
                &&& frontmatter::pairs_of(lines) == nothing
                &&& frontmatter::issues_of(lines) == seq![
                    FrontmatterIssueView::PlainScalarColon(text::trimmed(key)),
                ]
            }
            &&& !text::occurs(body, ": "@) && body.last() != ':' && (body[0] == '>' || body[0]
                == '|' || body[0] == '&' || body[0] == '*' || body[0] == '!' || body[0] == '%'
                || body[0] == '@' || body[0] == '`' || body[0] == '[' || body[0] == '{') ==> {
                &&& frontmatter::pairs_of(lines) == nothing
                &&& frontmatter::issues_of(lines) == seq![
                    FrontmatterIssueView::IndicatorStart(text::trimmed(key)),
                ]
            }
        }),
{
    cut_at_the_colon(key, value);
    one_line_is_all(entry(key, value));
}

/// A line without a colon is reported as it stands; a blank line and a comment
/// say nothing.
pub proof fn other_lines_give_no_pair(line: Seq<char>)
    requires
        !holds(line, '\n'),
    ensures
        speaks(line) && !holds(line, ':') ==> {
            &&& frontmatter::pairs_of(frontmatter::lines_of(line)) == Seq::<
                (Seq<char>, Seq<char>),
            >::empty()
            &&& frontmatter::issues_of(frontmatter::lines_of(line)) == seq![
                FrontmatterIssueView::UnparseableLine(line),
            ]
        },
        !speaks(line) ==> {
            &&& frontmatter::pairs_of(frontmatter::lines_of(line)) == Seq::<
                (Seq<char>, Seq<char>),
            >::empty()
            &&& frontmatter::issues_of(frontmatter::lines_of(line)) == Seq::<
                FrontmatterIssueView,
            >::empty()
        },
{
    if speaks(line) {
        one_line_is_all(line);
        if !holds(line, ':') {
            assert forall|j: int| 0 <= j < line.len() implies #[trigger] line[j] != ':' by {
                if line[j] == ':' {
                    assert(holds(line, ':'));
                }
            }
            frontmatter::char_at_is(line, ':', line.len() as int);
        }
    } else if line.len() > 0 {
        one_line(line);
        assert(seq![line].drop_last() =~= Seq::empty());
        assert(frontmatter::read_line(line) is Skipped);
        assert(frontmatter::pairs_of(seq![line].drop_last()) =~= Seq::empty());
        assert(frontmatter::issues_of(seq![line].drop_last()) =~= Seq::empty());
    } else {
        assert(frontmatter::lines_of(line) =~= Seq::empty());
        assert(frontmatter::pairs_of(frontmatter::lines_of(line)) =~= Seq::empty());
        assert(frontmatter::issues_of(frontmatter::lines_of(line)) =~= Seq::empty());
    }
}

proof fn plain_endings_stay(s: Seq<char>)
    requires
        !holds(s, '\r'),
    ensures
        frontmatter::unix(s) == s,
    decreases s.len(),
{
    if s.len() > 0 {
        let rest = s.skip(1);
        if s[0] == '\r' {
            assert(holds(s, '\r'));
        }
        if holds(rest, '\r') {
            let i = choose|i: int| 0 <= i < rest.len() && #[trigger] rest[i] == '\r';
            assert(s[i + 1] == '\r');
        }
        plain_endings_stay(rest);
        assert(seq![s[0]] + rest =~= s);
    }
}

/// A file made of frontmatter between fences and a body is split into just
/// these two, as long as no fence stands within the frontmatter.
pub proof fn fenced_files_are_split(frontmatter: Seq<char>, body: Seq<char>)
    requires
        !holds("---\n"@ + frontmatter + "\n---\n"@ + body, '\r'),
        forall|j: int|
            0 <= j < frontmatter.len() ==> !#[trigger] text::stands_at(
                frontmatter + "\n---\n"@ + body,
                "\n---\n"@,
                j,
            ),
    ensures
        frontmatter::split("---\n"@ + frontmatter + "\n---\n"@ + body) == Ok::<
            (Seq<char>, Seq<char>),
            Seq<char>,
        >((frontmatter, body)),
{
    let file = "---\n"@ + frontmatter + "\n---\n"@ + body;
    let rest = frontmatter + "\n---\n"@ + body;
    plain_endings_stay(file);
    assert(file.subrange(0, "---\n"@.len() as int) =~= "---\n"@);
    assert(file.skip("---\n"@.len() as int) =~= rest);
    let end = frontmatter.len() as int;
    assert(rest.subrange(end, end + "\n---\n"@.len()) =~= "\n---\n"@);
    assert(text::stands_at(rest, "\n---\n"@, end));
    frontmatter::first_at_is(rest, "\n---\n"@, 0, Some(end));
    assert(rest.take(end) =~= frontmatter);
    assert(rest.skip(end + "\n---\n"@.len()) =~= body);
}

/// Either kind of line ending reads the same: a text with carriage returns in
/// front of its line feeds is split as the text without them.
pub proof fn line_endings_do_not_matter(a: Seq<char>, b: Seq<char>)
    requires
        !holds(a, '\r'),
        !holds(b, '\r'),
    ensures
        frontmatter::unix(a + seq!['\r', '\n'] + b) == a + seq!['\n'] + b,
        frontmatter::split(a + seq!['\r', '\n'] + b) == frontmatter::split(a + seq!['\n'] + b),
    decreases a.len(),
{
    returns_are_dropped(a, b);
    let short = a + seq!['\n'] + b;
    if holds(short, '\r') {
        let i = choose|i: int| 0 <= i < short.len() && #[trigger] short[i] == '\r';
        if i < a.len() {
            assert(a[i] == '\r');
        } else if i > a.len() {
            assert(b[i - a.len() - 1] == '\r');
        }
    }
    plain_endings_stay(short);
}

proof fn returns_are_dropped(a: Seq<char>, b: Seq<char>)
    requires
        !holds(a, '\r'),
        !holds(b, '\r'),
    ensures
        frontmatter::unix(a + seq!['\r', '\n'] + b) == a + seq!['\n'] + b,
    decreases a.len(),
{
    let long = a + seq!['\r', '\n'] + b;
    if a.len() == 0 {
        assert(long[0] == '\r' && long[1] == '\n');
        assert(long.skip(2) =~= b);
        plain_endings_stay(b);
        assert(seq!['\n'] + b =~= a + seq!['\n'] + b);
    } else {
        assert(long[0] == a[0]);
        if a[0] == '\r' {
            assert(holds(a, '\r'));
        }
        let rest = a.skip(1);
        if holds(rest, '\r') {
            let i = choose|i: int| 0 <= i < rest.len() && #[trigger] rest[i] == '\r';
            assert(a[i + 1] == '\r');
        }
        returns_are_dropped(rest, b);
        assert(long.skip(1) =~= rest + seq!['\r', '\n'] + b);
        assert(seq![a[0]] + (rest + seq!['\n'] + b) =~= a + seq!['\n'] + b);
    }
}

/// An accepted skill is listed under the name and the description that its
/// frontmatter gives, word for word; a refused one is told the first rule that
/// it breaks.
pub proof fn skills_are_listed_as_written(
    frontmatter: Seq<(Seq<char>, Seq<char>)>,
    dir_name: Seq<char>,
    name: Seq<char>,
    description: Seq<char>,
)
    ensures
        frontmatter::validated(frontmatter, dir_name) == Ok::<
            (Seq<char>, Seq<char>),
            Seq<char>,
        >((name, description)) ==> {
            &&& pairs::lookup(frontmatter, "name"@) == Some(name)
            &&& pairs::lookup(frontmatter, "description"@) == Some(description)
        },
        pairs::lookup(frontmatter, "name"@) is None ==> frontmatter::validated(
            frontmatter,
            dir_name,
        ) == Err::<(Seq<char>, Seq<char>), Seq<char>>("frontmatter requires `name`"@),
        pairs::lookup(frontmatter, "name"@) == Some(dir_name) && frontmatter::well_formed_name(
            dir_name,
        ) && pairs::lookup(frontmatter, "description"@) is None ==> frontmatter::validated(
            frontmatter,
            dir_name,
        ) == Err::<(Seq<char>, Seq<char>), Seq<char>>("frontmatter requires `description`"@),
{
}

/// Which names are well-formed, character by character: each of 1 to 64
/// characters is a lowercase letter, a digit or a hyphen, and every hyphen has
/// something other than a hyphen on both sides.
pub proof fn names_are_words_joined_by_hyphens(name: Seq<char>)
    ensures
        frontmatter::well_formed_name(name) <==> {
            &&& 0 < name.len() < 65
            &&& forall|i: int|
                0 <= i < name.len() ==> {
                    ||| 'a' <= #[trigger] name[i] <= 'z'
                    ||| '0' <= name[i] <= '9'
                    ||| name[i] == '-' && 0 < i < name.len() - 1 && name[i - 1] != '-' && name[i
                        + 1] != '-'
                }
        },
{
    if frontmatter::well_formed_name(name) {
        assert forall|i: int| 0 <= i < name.len() implies {
            ||| 'a' <= #[trigger] name[i] <= 'z'
            ||| '0' <= name[i] <= '9'
            ||| name[i] == '-' && 0 < i < name.len() - 1 && name[i - 1] != '-' && name[i + 1]
                != '-'
        } by {
            assert(frontmatter::name_char(name[i]));
            if i > 0 {
                assert(!(name[i - 1] == '-' && name[i] == '-'));
            }
            if i < name.len() - 1 {
                assert(!(name[i] == '-' && name[i + 1] == '-'));
            }
        }
    }
    if 0 < name.len() < 65 && forall|i: int|
        0 <= i < name.len() ==> {
            ||| 'a' <= #[trigger] name[i] <= 'z'
            ||| '0' <= name[i] <= '9'
            ||| name[i] == '-' && 0 < i < name.len() - 1 && name[i - 1] != '-' && name[i + 1]
                != '-'
        } {
        assert(name[0] != '-');
        assert(name[name.len() - 1] != '-');
    }
}

/// A line may end in a carriage return and a line feed: the line before them is
/// read without either, and what is behind them is read as it would be alone.
pub proof fn lines_end_in_either_way(line: Seq<char>, rest: Seq<char>)
    requires
        !holds(line, '\n'),
        line.len() > 0 ==> line.last() != '\r',
    ensures
        frontmatter::lines_of(line + seq!['\r', '\n'] + rest) == seq![line]
            + frontmatter::lines_of(rest),
        frontmatter::lines_of(line + seq!['\n'] + rest) == seq![line] + frontmatter::lines_of(rest),
{
    assert forall|j: int| 0 <= j < line.len() implies #[trigger] line[j] != '\n' by {
        if line[j] == '\n' {
            assert(holds(line, '\n'));
        }
    }
    let long = line + seq!['\r', '\n'] + rest;
    let end = line.len() as int + 1;
    assert forall|j: int| 0 <= j < end implies #[trigger] long[j] != '\n' by {
        if j < line.len() {
            assert(long[j] == line[j]);
        }
    }
    assert(long[end] == '\n');
    frontmatter::char_at_is(long, '\n', end);
    assert(long.take(end) =~= line.push('\r'));
    assert(line.push('\r').drop_last() =~= line);
    assert(long.skip(end + 1) =~= rest);
    let short = line + seq!['\n'] + rest;
    assert forall|j: int| 0 <= j < line.len() implies #[trigger] short[j] != '\n' by {
        assert(short[j] == line[j]);
    }
    assert(short[line.len() as int] == '\n');
    frontmatter::char_at_is(short, '\n', line.len() as int);
    assert(short.take(line.len() as int) =~= line);
    assert(short.skip(line.len() as int + 1) =~= rest);
}

/// A skill that is refused over its name or its description is told what is
/// wrong, with the name, the directory or the length that it is about; an
/// ill-formed name is told before a directory that differs, and both before the
/// description.
pub proof fn refused_skills_are_told_why(
    frontmatter: Seq<(Seq<char>, Seq<char>)>,
    dir_name: Seq<char>,
    name: Seq<char>,
)
    requires
        pairs::lookup(frontmatter, "name"@) == Some(name),
    ensures
        ({
            let told = frontmatter::validated(frontmatter, dir_name);
            &&& !frontmatter::well_formed_name(name) ==> told == Err::<
                (Seq<char>, Seq<char>),
                Seq<char>,
            >(
                "name "@ + text::debug_text(name)
                    + " must be 1-64 chars of lowercase letters, digits and hyphens, with no leading, trailing or consecutive hyphens"@,
            )
            &&& frontmatter::well_formed_name(name) && name != dir_name ==> told == Err::<
                (Seq<char>, Seq<char>),
                Seq<char>,
            >(
                "name "@ + text::debug_text(name) + " must equal directory name "@
                    + text::debug_text(dir_name),
            )
            &&& frontmatter::well_formed_name(name) && name == dir_name ==> (
            pairs::lookup(frontmatter, "description"@) matches Some(description) ==> (
            !(1 <= description.len() <= 1024) ==> told == Err::<
                (Seq<char>, Seq<char>),
                Seq<char>,
            >(
                "description must be 1..1024 chars (got "@ + text::decimal(description.len())
                    + ")"@,
            )))
        }),
{
}

/// An issue's text names what it is about.
pub proof fn issues_name_their_subject(subject: Seq<char>)
    ensures
        frontmatter::issue_text(FrontmatterIssueView::UnparseableLine(subject))
            == "unparseable frontmatter line: "@ + text::debug_text(subject),
        frontmatter::issue_text(FrontmatterIssueView::UnterminatedQuote(subject))
            == "unterminated quoted scalar for "@ + text::debug_text(subject),
        frontmatter::issue_text(FrontmatterIssueView::PlainScalarColon(subject))
            == "plain scalar for "@ + text::debug_text(subject)
            + " contains ':' — strict YAML hosts reject this; wrap the value in double quotes"@,
        frontmatter::issue_text(FrontmatterIssueView::IndicatorStart(subject)) == "value for "@
            + text::debug_text(subject)
            + " starts with a YAML indicator — only single-line plain or quoted scalars are supported in SKILL.md frontmatter"@,
{
}

/// A file that does not start with a fence is told so, and so is one in which no
/// fence closes the frontmatter.
pub proof fn unfenced_files_are_told(file: Seq<char>)
    ensures
        !text::stands_at(frontmatter::unix(file), "---\n"@, 0) ==> frontmatter::split(file)
            == Err::<(Seq<char>, Seq<char>), Seq<char>>(
            "missing YAML frontmatter (must start with ---)"@,
        ),
        text::stands_at(frontmatter::unix(file), "---\n"@, 0) && (forall|j: int|
            0 <= j ==> !#[trigger] text::stands_at(
                frontmatter::unix(file).skip("---\n"@.len() as int),
                "\n---\n"@,
                j,
            )) ==> frontmatter::split(file) == Err::<(Seq<char>, Seq<char>), Seq<char>>(
            "frontmatter is not closed with ---"@,
        ),
{
    let rest = frontmatter::unix(file).skip("---\n"@.len() as int);
    if forall|j: int| 0 <= j ==> !#[trigger] text::stands_at(rest, "\n---\n"@, j) {
        frontmatter::first_at_is(rest, "\n---\n"@, 0, None);
    }
}

/// Whether `s` is quotation marks throughout.
pub open spec fn marks(s: Seq<char>) -> bool {
    forall|i: int| 0 <= i < s.len() ==> #[trigger] s[i] == '"' || s[i] == '\''
}

proof fn start_loses_its_marks(s: Seq<char>)
    ensures
        exists|head: Seq<char>| #[trigger] marks(head) && s == head + frontmatter::unquoted_start(s),
        frontmatter::unquoted_start(s).len() > 0 ==> frontmatter::unquoted_start(s)[0] != '"'
            && frontmatter::unquoted_start(s)[0] != '\'',
    decreases s.len(),
{
    if s.len() > 0 && frontmatter::quote_mark(s[0]) {
        let rest = s.drop_first();
        start_loses_its_marks(rest);
        let kept = frontmatter::unquoted_start(s);
        let head = choose|head: Seq<char>| #[trigger] marks(head) && rest == head + kept;
        let longer = seq![s[0]] + head;
        assert(marks(longer)) by {
            assert forall|i: int| 0 <= i < longer.len() implies #[trigger] longer[i] == '"'
                || longer[i] == '\'' by {
                if i > 0 {
                    assert(longer[i] == head[i - 1]);
                }
            }
        }
        assert(s =~= seq![s[0]] + rest);
        assert(seq![s[0]] + (head + kept) =~= longer + kept);
        assert(s == longer + kept);
    } else {
        let head = Seq::<char>::empty();
        assert(marks(head));
        assert(s =~= head + frontmatter::unquoted_start(s));
    }
}

proof fn end_loses_its_marks(s: Seq<char>)
    ensures
        exists|tail: Seq<char>| #[trigger] marks(tail) && s == frontmatter::unquoted_end(s) + tail,
        frontmatter::unquoted_end(s).len() > 0 ==> frontmatter::unquoted_end(s).last() != '"'
            && frontmatter::unquoted_end(s).last() != '\'' && frontmatter::unquoted_end(s)[0]
            == s[0],
    decreases s.len(),
{
    if s.len() > 0 && frontmatter::quote_mark(s.last()) {
        let rest = s.drop_last();
        end_loses_its_marks(rest);
        let kept = frontmatter::unquoted_end(s);
        let tail = choose|tail: Seq<char>| #[trigger] marks(tail) && rest == kept + tail;
        let longer = tail + seq![s.last()];
        assert(marks(longer)) by {
            assert forall|i: int| 0 <= i < longer.len() implies #[trigger] longer[i] == '"'
                || longer[i] == '\'' by {
                if i < tail.len() {
                    assert(longer[i] == tail[i]);
                }
            }
        }
        assert(s =~= rest + seq![s.last()]);
        assert((kept + tail) + seq![s.last()] =~= kept + longer);
        assert(s == kept + longer);
    } else {
        let tail = Seq::<char>::empty();
        assert(marks(tail));
        assert(s =~= frontmatter::unquoted_end(s) + tail);
    }
}

/// Whatever a line gives its key without an issue is the trimmed value with the
/// quotation marks taken off both its ends, all of them and nothing else.
pub proof fn values_lose_only_their_marks(key: Seq<char>, value: Seq<char>)
    requires
        !holds(key, ':'),
        speaks(entry(key, value)),
        frontmatter::issues_of(frontmatter::lines_of(entry(key, value))).len() == 0,
    ensures
        exists|head: Seq<char>, core: Seq<char>, tail: Seq<char>|
            #![trigger marks(head), marks(tail), text::trimmed(key).push(':') + core]
            {
                &&& marks(head) && marks(tail)
                &&& text::trimmed(value) == head + core + tail
                &&& core.len() > 0 ==> core[0] != '"' && core[0] != '\'' && core.last() != '"'
                    && core.last() != '\''
                &&& frontmatter::pairs_of(frontmatter::lines_of(entry(key, value))) == seq![
                    (text::trimmed(key), core),
                ]
            },
{
    cut_at_the_colon(key, value);
    one_line_is_all(entry(key, value));
    let body = text::trimmed(value);
    let rest = frontmatter::unquoted_start(body);
    let core = frontmatter::unquoted(body);
    start_loses_its_marks(body);
    end_loses_its_marks(rest);
    let head = choose|head: Seq<char>| #[trigger] marks(head) && body == head + rest;
    let tail = choose|tail: Seq<char>| #[trigger] marks(tail) && rest == core + tail;
    assert(body =~= head + core + tail);
    let shown = text::trimmed(key).push(':') + core;
    assert(marks(head) && marks(tail));
}

} // verus!
