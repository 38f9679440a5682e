//! The frontmatter of a skill file: splitting, parsing and validation.
use crate::json;
use crate::pairs;
use crate::text;
use vstd::prelude::*;

verus! {

/// One non-fatal frontmatter problem. Parsing continues past it, so that a
/// checker reports every issue in one pass.
#[derive(Debug, PartialEq, Eq)]
pub enum FrontmatterIssue {
    /// A line with no `key: value` shape at all.
    UnparseableLine(String),
    /// A quoted scalar missing its closing quote.
    UnterminatedQuote(String),
    /// A plain scalar containing `: ` or ending in `:`.
    PlainScalarColon(String),
    /// A value starting with a YAML indicator character.
    IndicatorStart(String),
}

/// What a [`FrontmatterIssue`] holds.
#[verifier::ext_equal]
pub enum FrontmatterIssueView {
    UnparseableLine(Seq<char>),
    UnterminatedQuote(Seq<char>),
    PlainScalarColon(Seq<char>),
    IndicatorStart(Seq<char>),
}

impl View for FrontmatterIssue {
    type V = FrontmatterIssueView;

    open spec fn view(&self) -> FrontmatterIssueView {
        match *self {
            FrontmatterIssue::UnparseableLine(inner) => FrontmatterIssueView::UnparseableLine(inner@),
            FrontmatterIssue::UnterminatedQuote(inner) => FrontmatterIssueView::UnterminatedQuote(inner@),
            FrontmatterIssue::PlainScalarColon(inner) => FrontmatterIssueView::PlainScalarColon(inner@),
            FrontmatterIssue::IndicatorStart(inner) => FrontmatterIssueView::IndicatorStart(inner@),
        }
    }
}

impl DeepView for FrontmatterIssue {
    type V = FrontmatterIssueView;

    open spec fn deep_view(&self) -> FrontmatterIssueView {
        self@
    }
}

impl Clone for FrontmatterIssue {
    fn clone(&self) -> (r: Self)
        ensures
            r@ == self@,
    {
        match self {
            FrontmatterIssue::UnparseableLine(inner) => FrontmatterIssue::UnparseableLine(inner.clone()),
            FrontmatterIssue::UnterminatedQuote(inner) => FrontmatterIssue::UnterminatedQuote(inner.clone()),
            FrontmatterIssue::PlainScalarColon(inner) => FrontmatterIssue::PlainScalarColon(inner.clone()),
            FrontmatterIssue::IndicatorStart(inner) => FrontmatterIssue::IndicatorStart(inner.clone()),
        }
    }
}

/// The text of an issue.
pub open spec fn issue_text(issue: FrontmatterIssueView) -> Seq<char> {
    match issue {
        FrontmatterIssueView::UnparseableLine(line) => "unparseable frontmatter line: "@
            + text::debug_text(line),
        FrontmatterIssueView::UnterminatedQuote(key) => "unterminated quoted scalar for "@
            + text::debug_text(key),
        FrontmatterIssueView::PlainScalarColon(key) => "plain scalar for "@ + text::debug_text(key)
            + COLON_ADVICE@,
        FrontmatterIssueView::IndicatorStart(key) => "value for "@ + text::debug_text(key)
            + INDICATOR_ADVICE@,
    }
}

/// What a plain scalar with a colon is answered.
pub const COLON_ADVICE: &'static str = " contains ':' — strict YAML hosts reject this; wrap the value in double quotes";

/// What a value with a leading indicator is answered.
pub const INDICATOR_ADVICE: &'static str = " starts with a YAML indicator — only single-line plain or quoted scalars are supported in SKILL.md frontmatter";

impl FrontmatterIssue {
    /// The issue for humans.
    pub fn to_text(&self) -> (r: String)
        ensures
            r@ == issue_text(self@),
    {
        match self {
            FrontmatterIssue::UnparseableLine(line) => text::prefixed(
                "unparseable frontmatter line: ",
                text::show_debug(line.as_str()).as_str(),
            ),
            FrontmatterIssue::UnterminatedQuote(key) => text::prefixed(
                "unterminated quoted scalar for ",
                text::show_debug(key.as_str()).as_str(),
            ),
            FrontmatterIssue::PlainScalarColon(key) => {
                let mut out = text::prefixed(
                    "plain scalar for ",
                    text::show_debug(key.as_str()).as_str(),
                );
                out.append(COLON_ADVICE);
                out
            },
            FrontmatterIssue::IndicatorStart(key) => {
                let mut out = text::prefixed(
                    "value for ",
                    text::show_debug(key.as_str()).as_str(),
                );
                out.append(INDICATOR_ADVICE);
                out
            },
        }
    }
}

/// The parsed pairs; a key written again has its last value.
#[derive(Debug, PartialEq, Eq)]
pub struct Frontmatter {
    pub entries: Vec<(String, String)>,
}

impl View for Frontmatter {
    type V = Seq<(Seq<char>, Seq<char>)>;

    open spec fn view(&self) -> Seq<(Seq<char>, Seq<char>)> {
        self.entries.deep_view()
    }
}

impl Frontmatter {
    pub fn new() -> (r: Frontmatter)
        ensures
            r@ == Seq::<(Seq<char>, Seq<char>)>::empty(),
    {
        let r = Frontmatter { entries: Vec::new() };
        assert(r@ =~= Seq::empty());
        r
    }

    /// Writes `value` under `key`.
    pub fn insert(&mut self, key: &str, value: &str)
        ensures
            final(self)@ == pairs::put(old(self)@, key@, value@),
    {
        json::put_field(&mut self.entries, key, value);
    }

    /// The value under `key`.
    pub fn get(&self, key: &str) -> (r: Option<&str>)
        ensures
            match r {
                Some(value) => pairs::lookup(self@, key@) == Some(value@),
                None => pairs::lookup(self@, key@) is None,
            },
    {
        let ghost all = self.entries.deep_view();
        let mut i: usize = 0;
        while i < self.entries.len()
            invariant
                i <= self.entries.len(),
                all == self.entries.deep_view(),
                forall|j: int| 0 <= j < i ==> (#[trigger] all[j]).0 != key@,
            decreases self.entries.len() - i,
        {
            assert(all[i as int] == self.entries[i as int].deep_view());
            if text::same(self.entries[i].0.as_str(), key) {
                proof {
                    pairs::first_match(all, key@, i as int);
                }
                return Some(self.entries[i].1.as_str());
            }
            i += 1;
        }
        proof {
            pairs::first_match(all, key@, all.len() as int);
        }
        None
    }
}

/// `s` with each carriage return in front of a line feed removed.
pub open spec fn unix(s: Seq<char>) -> Seq<char>
    decreases s.len(),
{
    if s.len() == 0 {
        s
    } else if s.len() >= 2 && s[0] == '\r' && s[1] == '\n' {
        seq!['\n'] + unix(s.skip(2))
    } else {
        seq![s[0]] + unix(s.skip(1))
    }
}

/// The first position from `from` on where `needle` stands.
pub open spec fn first_at(hay: Seq<char>, needle: Seq<char>, from: int) -> Option<int>
    decreases hay.len() + 1 - from,
{
    if from < 0 || from > hay.len() {
        None
    } else if text::stands_at(hay, needle, from) {
        Some(from)
    } else {
        first_at(hay, needle, from + 1)
    }
}

pub(crate) proof fn first_at_is(hay: Seq<char>, needle: Seq<char>, from: int, at: Option<int>)
    requires
        0 <= from,
        match at {
            Some(at) => from <= at && text::stands_at(hay, needle, at) && forall|j: int|
                from <= j < at ==> !text::stands_at(hay, needle, j),
            None => forall|j: int| from <= j ==> !text::stands_at(hay, needle, j),
        },
    ensures
        first_at(hay, needle, from) == at,
    decreases hay.len() + 1 - from,
{
    if from <= hay.len() && !text::stands_at(hay, needle, from) {
        first_at_is(hay, needle, from + 1, at);
    }
}

/// The two parts of a file, or what is wrong with it.
pub open spec fn split(text: Seq<char>) -> Result<(Seq<char>, Seq<char>), Seq<char>> {
    let lines = unix(text);
    if !text::stands_at(lines, "---\n"@, 0) {
        Err(NOT_OPENED@)
    } else {
        let rest = lines.skip("---\n"@.len() as int);
        match first_at(rest, "\n---\n"@, 0) {
            Some(end) => Ok((rest.take(end), rest.skip(end + "\n---\n"@.len()))),
            None => Err(NOT_CLOSED@),
        }
    }
}

/// What a file without frontmatter is answered.
pub const NOT_OPENED: &'static str = "missing YAML frontmatter (must start with ---)";

/// What a file with open frontmatter is answered.
pub const NOT_CLOSED: &'static str = "frontmatter is not closed with ---";

fn to_unix(chars: &Vec<char>) -> (r: Vec<char>)
    ensures
        r@ == unix(chars@),
{
    let mut out: Vec<char> = Vec::new();
    let mut i: usize = 0;
    assert(chars@.skip(0) =~= chars@);
    assert(out@ + unix(chars@) =~= unix(chars@));
    while i < chars.len()
        invariant
            i <= chars.len(),
            out@ + unix(chars@.skip(i as int)) == unix(chars@),
        decreases chars.len() - i,
    {
        let ghost rest = chars@.skip(i as int);
        let ghost before = out@;
        if chars[i] == '\r' && i + 1 < chars.len() && chars[i + 1] == '\n' {
            out.push('\n');
            assert(rest.skip(2) =~= chars@.skip(i as int + 2));
            assert(out@ + unix(rest.skip(2)) =~= before + unix(rest));
            i += 2;
        } else {
            out.push(chars[i]);
            assert(rest.skip(1) =~= chars@.skip(i as int + 1));
            assert(out@ + unix(rest.skip(1)) =~= before + unix(rest));
            i += 1;
        }
    }
    assert(chars@.skip(i as int) =~= Seq::empty());
    assert(out@ + Seq::empty() =~= out@);
    out
}

/// Splits raw file text into frontmatter and body, with either kind of line
/// ending.
pub fn split_frontmatter(text: &str) -> (r: Result<(String, String), &'static str>)
    ensures
        match r {
            Ok((frontmatter, body)) => split(text@) == Ok::<
                (Seq<char>, Seq<char>),
                Seq<char>,
            >((frontmatter@, body@)),
            Err(message) => split(text@) == Err::<(Seq<char>, Seq<char>), Seq<char>>(message@),
        },
{
    let lines = to_unix(&text::chars_of(text));
    let opening = text::chars_of("---\n");
    if !text::is_at(&lines, &opening, 0) {
        return Err(NOT_OPENED);
    }
    let start: usize = opening.len();
    let ghost rest = lines@.skip(start as int);
    let rest_text = text::string_of(&lines, start, lines.len());
    assert(rest_text@ =~= rest);
    let rest_chars = text::chars_of(rest_text.as_str());
    let closing = text::chars_of("\n---\n");
    match text::find_from(&rest_chars, &closing, 0) {
        Some(end) => {
            proof {
                first_at_is(rest, "\n---\n"@, 0, Some(end as int));
            }
            let from: usize = end + closing.len();
            let frontmatter = text::string_of(&rest_chars, 0, end);
            let body = text::string_of(&rest_chars, from, rest_chars.len());
            assert(frontmatter@ =~= rest.take(end as int));
            assert(body@ =~= rest.skip(from as int));
            Ok((frontmatter, body))
        },
        None => {
            proof {
                first_at_is(rest, "\n---\n"@, 0, None);
            }
            Err(NOT_CLOSED)
        },
    }
}

/// The split loses nothing: fences, frontmatter and body make up the file
/// again, and no fence stands within the frontmatter.
pub proof fn split_reassembles(text: Seq<char>, frontmatter: Seq<char>, body: Seq<char>)
    requires
        split(text) == Ok::<(Seq<char>, Seq<char>), Seq<char>>((frontmatter, body)),
    ensures
        unix(text) == "---\n"@ + frontmatter + "\n---\n"@ + body,
        forall|j: int|
            0 <= j < frontmatter.len() ==> !#[trigger] text::stands_at(
                unix(text).skip("---\n"@.len() as int),
                "\n---\n"@,
                j,
            ),
{
    let lines = unix(text);
    let rest = lines.skip("---\n"@.len() as int);
    first_at_bounds(rest, "\n---\n"@, 0);
    let end = first_at(rest, "\n---\n"@, 0).unwrap();
    assert(lines =~= "---\n"@ + rest) by {
        assert(lines.subrange(0, "---\n"@.len() as int) == "---\n"@);
        assert(lines =~= lines.subrange(0, "---\n"@.len() as int) + rest);
    }
    assert(rest.subrange(end, end + "\n---\n"@.len()) == "\n---\n"@);
    assert(rest =~= rest.take(end) + rest.subrange(end, end + "\n---\n"@.len()) + rest.skip(
        end + "\n---\n"@.len(),
    ));
    assert(lines =~= "---\n"@ + frontmatter + "\n---\n"@ + body);
}

proof fn first_at_bounds(hay: Seq<char>, needle: Seq<char>, from: int)
    requires
        0 <= from,
    ensures
        first_at(hay, needle, from) matches Some(at) ==> {
            &&& from <= at
            &&& text::stands_at(hay, needle, at)
            &&& forall|j: int| from <= j < at ==> !#[trigger] text::stands_at(hay, needle, j)
        },
    decreases hay.len() + 1 - from,
{
    if from <= hay.len() && !text::stands_at(hay, needle, from) {
        first_at_bounds(hay, needle, from + 1);
    }
}

/// The first position of `c`, or the length.
pub open spec fn char_at(s: Seq<char>, c: char) -> int
    decreases s.len(),
{
    if s.len() == 0 || s[0] == c {
        0
    } else {
        1 + char_at(s.skip(1), c)
    }
}

pub(crate) proof fn char_at_is(s: Seq<char>, c: char, at: int)
    requires
        0 <= at <= s.len(),
        forall|j: int| 0 <= j < at ==> #[trigger] s[j] != c,
        at < s.len() ==> s[at] == c,
    ensures
        char_at(s, c) == at,
    decreases s.len(),
{
    if at > 0 {
        let rest = s.skip(1);
        assert(s[0] != c);
        assert forall|j: int| 0 <= j < at - 1 implies #[trigger] rest[j] != c by {
            assert(rest[j] == s[j + 1]);
        }
        char_at_is(rest, c, at - 1);
    }
}

/// The first position of `c` from `from` on, or the length.
fn find_char(chars: &Vec<char>, from: usize, c: char) -> (r: usize)
    requires
        from <= chars.len(),
    ensures
        from <= r <= chars.len(),
        r - from == char_at(chars@.skip(from as int), c),
        r < chars.len() ==> chars@[r as int] == c,
{
    let ghost rest = chars@.skip(from as int);
    let mut at: usize = from;
    while at < chars.len() && chars[at] != c
        invariant
            from <= at <= chars.len(),
            rest == chars@.skip(from as int),
            forall|j: int| 0 <= j < at - from ==> #[trigger] rest[j] != c,
        decreases chars.len() - at,
    {
        assert(rest[at - from] == chars@[at as int]);
        at += 1;
    }
    proof {
        if at < chars.len() {
            assert(rest[at - from] == chars@[at as int]);
        }
        char_at_is(rest, c, at - from);
    }
    at
}

/// A line without the carriage return at its end.
pub open spec fn without_return(line: Seq<char>) -> Seq<char> {
    if line.len() > 0 && line.last() == '\r' {
        line.drop_last()
    } else {
        line
    }
}

/// The lines of a text: each ends at a line feed, with a carriage return in
/// front of it or not; what is behind the last line feed is a line where it is
/// not empty.
pub open spec fn lines_of(s: Seq<char>) -> Seq<Seq<char>>
    decreases s.len(),
{
    if s.len() == 0 {
        Seq::empty()
    } else {
        let end = char_at(s, '\n');
        if 0 <= end < s.len() {
            seq![without_return(s.take(end))] + lines_of(s.skip(end + 1))
        } else {
            seq![s]
        }
    }
}

/// The lines of a text.
pub fn lines(s: &str) -> (r: Vec<String>)
    ensures
        r.deep_view() == lines_of(s@),
{
    let chars = text::chars_of(s);
    let mut out: Vec<String> = Vec::new();
    let mut from: usize = 0;
    assert(s@.skip(0) =~= s@);
    assert(out.deep_view() + lines_of(s@) =~= lines_of(s@));
    while from < chars.len()
        invariant
            from <= chars.len(),
            chars@ == s@,
            out.deep_view() + lines_of(s@.skip(from as int)) == lines_of(s@),
        decreases chars.len() - from,
    {
        let ghost rest = s@.skip(from as int);
        let ghost before = out.deep_view();
        let end: usize = find_char(&chars, from, '\n');
        if end < chars.len() {
            let mut to: usize = end;
            if to > from && chars[to - 1] == '\r' {
                to -= 1;
            }
            let line = text::string_of(&chars, from, to);
            let ghost raw = rest.take(end - from);
            assert(raw =~= chars@.subrange(from as int, end as int));
            assert(line@ =~= without_return(raw));
            out.push(line);
            assert(out.deep_view() =~= before.push(without_return(raw)));
            assert(rest.skip(end - from + 1) =~= s@.skip(end as int + 1));
            assert(out.deep_view() + lines_of(s@.skip(end as int + 1)) =~= before + lines_of(rest));
            from = end + 1;
        } else {
            let line = text::string_of(&chars, from, chars.len());
            assert(line@ =~= rest);
            out.push(line);
            assert(out.deep_view() =~= before.push(rest));
            assert(before + lines_of(rest) =~= out.deep_view());
            from = chars.len();
            assert(s@.skip(from as int) =~= Seq::empty());
            assert(out.deep_view() + Seq::<Seq<char>>::empty() =~= out.deep_view());
        }
    }
    assert(s@.skip(from as int) =~= Seq::empty());
    assert(out.deep_view() + Seq::<Seq<char>>::empty() =~= out.deep_view());
    out
}

/// Whether `c` is a quotation mark.
pub open spec fn quote_mark(c: char) -> bool {
    c == '"' || c == '\''
}

/// Whether `c` starts a YAML construct.
pub open spec fn indicator(c: char) -> bool {
    ||| c == '>'
    ||| c == '|'
    ||| c == '&'
    ||| c == '*'
    ||| c == '!'
    ||| c == '%'
    ||| c == '@'
    ||| c == '`'
    ||| c == '['
    ||| c == '{'
}

/// `s` without the quotation marks at its start.
pub open spec fn unquoted_start(s: Seq<char>) -> Seq<char>
    decreases s.len(),
{
    if s.len() > 0 && quote_mark(s[0]) {
        unquoted_start(s.drop_first())
    } else {
        s
    }
}

/// `s` without the quotation marks at its end.
pub open spec fn unquoted_end(s: Seq<char>) -> Seq<char>
    decreases s.len(),
{
    if s.len() > 0 && quote_mark(s.last()) {
        unquoted_end(s.drop_last())
    } else {
        s
    }
}

/// `s` without the quotation marks around it.
pub open spec fn unquoted(s: Seq<char>) -> Seq<char> {
    unquoted_end(unquoted_start(s))
}

fn unquote(s: &str) -> (r: String)
    ensures
        r@ == unquoted(s@),
{
    let chars = text::chars_of(s);
    let mut from: usize = 0;
    assert(s@.skip(0) =~= s@);
    while from < chars.len() && (chars[from] == '"' || chars[from] == '\'')
        invariant
            from <= chars.len(),
            chars@ == s@,
            unquoted_start(s@) == unquoted_start(s@.skip(from as int)),
        decreases chars.len() - from,
    {
        assert(s@.skip(from as int).drop_first() =~= s@.skip(from as int + 1));
        from += 1;
    }
    let ghost rest = s@.skip(from as int);
    assert(unquoted_start(s@) == rest);
    let mut to: usize = chars.len();
    assert(rest.take(to - from) =~= rest);
    while from < to && (chars[to - 1] == '"' || chars[to - 1] == '\'')
        invariant
            from <= to <= chars.len(),
            chars@ == s@,
            rest == s@.skip(from as int),
            unquoted_end(rest) == unquoted_end(rest.take(to - from)),
        decreases to - from,
    {
        assert(rest.take(to - from).drop_last() =~= rest.take(to - 1 - from));
        assert(rest.take(to - from).last() == chars@[to - 1]);
        to -= 1;
    }
    assert(rest.take(to - from) =~= chars@.subrange(from as int, to as int));
    if from < to {
        assert(rest.take(to - from).last() == chars@[to - 1]);
    }
    text::string_of(&chars, from, to)
}

/// What one line comes to.
#[verifier::ext_equal]
pub enum Line {
    /// A comment or an empty line.
    Skipped,
    Problem(FrontmatterIssueView),
    Pair(Seq<char>, Seq<char>),
}

/// What is wrong with a value, if anything.
pub open spec fn value_problem(key: Seq<char>, value: Seq<char>) -> Option<FrontmatterIssueView> {
    if value.len() == 0 {
        None
    } else if quote_mark(value[0]) {
        if value.len() < 2 || value.last() != value[0] {
            Some(FrontmatterIssueView::UnterminatedQuote(key))
        } else {
            None
        }
    } else if text::occurs(value, ": "@) || value.last() == ':' {
        Some(FrontmatterIssueView::PlainScalarColon(key))
    } else if indicator(value[0]) {
        Some(FrontmatterIssueView::IndicatorStart(key))
    } else {
        None
    }
}

/// What one line comes to.
pub open spec fn read_line(line: Seq<char>) -> Line {
    let stripped = text::trimmed(line);
    if stripped.len() == 0 || stripped[0] == '#' {
        Line::Skipped
    } else {
        let at = char_at(line, ':');
        if 0 <= at < line.len() {
            let key = text::trimmed(line.take(at));
            let value = text::trimmed(line.skip(at + 1));
            match value_problem(key, value) {
                Some(issue) => Line::Problem(issue),
                None => Line::Pair(key, unquoted(value)),
            }
        } else {
            Line::Problem(FrontmatterIssueView::UnparseableLine(line))
        }
    }
}

/// The pairs of the given lines.
pub open spec fn pairs_of(lines: Seq<Seq<char>>) -> Seq<(Seq<char>, Seq<char>)>
    decreases lines.len(),
{
    if lines.len() == 0 {
        Seq::empty()
    } else {
        let before = pairs_of(lines.drop_last());
        match read_line(lines.last()) {
            Line::Pair(key, value) => pairs::put(before, key, value),
            _ => before,
        }
    }
}

/// The issues of the given lines, in order.
pub open spec fn issues_of(lines: Seq<Seq<char>>) -> Seq<FrontmatterIssueView>
    decreases lines.len(),
{
    if lines.len() == 0 {
        Seq::empty()
    } else {
        let before = issues_of(lines.drop_last());
        match read_line(lines.last()) {
            Line::Problem(issue) => before.push(issue),
            _ => before,
        }
    }
}

fn first_char(s: &str) -> (r: Option<char>)
    ensures
        match r {
            Some(c) => s@.len() > 0 && c == s@[0],
            None => s@.len() == 0,
        },
{
    let chars = text::chars_of(s);
    if chars.len() > 0 {
        Some(chars[0])
    } else {
        None
    }
}

fn problem_with(key: &str, value: &str) -> (r: Option<FrontmatterIssue>)
    ensures
        r.deep_view() == value_problem(key@, value@),
{
    let chars = text::chars_of(value);
    if chars.len() == 0 {
        return None;
    }
    let first: char = chars[0];
    let last: char = chars[chars.len() - 1];
    if first == '"' || first == '\'' {
        if chars.len() < 2 || last != first {
            return Some(FrontmatterIssue::UnterminatedQuote(key.to_owned()));
        }
        return None;
    }
    if text::contains(value, ": ") || last == ':' {
        return Some(FrontmatterIssue::PlainScalarColon(key.to_owned()));
    }
    if first == '>' || first == '|' || first == '&' || first == '*' || first == '!' || first == '%'
        || first == '@' || first == '`' || first == '[' || first == '{' {
        return Some(FrontmatterIssue::IndicatorStart(key.to_owned()));
    }
    None
}

/// Parses the single-line `key: value` subset. Returns the pairs and every
/// issue; an issue never ends the parse.
pub fn parse_frontmatter(text: &str) -> (r: (Frontmatter, Vec<FrontmatterIssue>))
    ensures
        r.0@ == pairs_of(lines_of(text@)),
        r.1.deep_view() == issues_of(lines_of(text@)),
{
    let all = lines(text);
    let ghost whole = lines_of(text@);
    let mut frontmatter = Frontmatter::new();
    let mut issues: Vec<FrontmatterIssue> = Vec::new();
    let mut i: usize = 0;
    while i < all.len()
        invariant
            i <= all.len(),
            all.deep_view() == whole,
            frontmatter@ == pairs_of(whole.take(i as int)),
            issues.deep_view() == issues_of(whole.take(i as int)),
        decreases all.len() - i,
    {
        let line = all[i].as_str();
        assert(whole[i as int] == line@);
        i += 1;
        assert(whole.take(i as int).drop_last() =~= whole.take(i as int - 1));
        assert(whole.take(i as int).last() == line@);
        let ghost found = issues.deep_view();
        match first_char(text::trim(line).as_str()) {
            Some(c) => {
                if c == '#' {
                    continue;
                }
            },
            None => {
                continue;
            },
        }
        let chars = text::chars_of(line);
        let at: usize = find_char(&chars, 0, ':');
        assert(chars@.skip(0) =~= line@);
        if at >= chars.len() {
            issues.push(FrontmatterIssue::UnparseableLine(line.to_owned()));
            assert(issues.deep_view() =~= found.push(
                FrontmatterIssueView::UnparseableLine(line@),
            ));
            continue;
        }
        let head = text::string_of(&chars, 0, at);
        let tail = text::string_of(&chars, at + 1, chars.len());
        assert(head@ =~= line@.take(at as int));
        assert(tail@ =~= line@.skip(at as int + 1));
        let key = text::trim(head.as_str());
        let value = text::trim(tail.as_str());
        match problem_with(key.as_str(), value.as_str()) {
            Some(issue) => {
                let ghost view = issue@;
                issues.push(issue);
                assert(issues.deep_view() =~= found.push(view));
            },
            None => {
                frontmatter.insert(key.as_str(), unquote(value.as_str()).as_str());
            },
        }
    }
    assert(whole.take(i as int) =~= whole);
    (frontmatter, issues)
}

proof fn char_at_bounds(s: Seq<char>, c: char)
    ensures
        0 <= char_at(s, c) <= s.len(),
        forall|j: int| 0 <= j < char_at(s, c) ==> #[trigger] s[j] != c,
        char_at(s, c) < s.len() ==> s[char_at(s, c)] == c,
    decreases s.len(),
{
    if s.len() > 0 && s[0] != c {
        let rest = s.skip(1);
        char_at_bounds(rest, c);
        let at = char_at(s, c);
        assert forall|j: int| 0 <= j < at implies #[trigger] s[j] != c by {
            if j > 0 {
                assert(rest[j - 1] == s[j]);
            }
        }
        if at < s.len() {
            assert(rest[at - 1] == s[at]);
        }
    }
}

/// Two texts on lines of their own.
pub open spec fn under(a: Seq<char>, b: Seq<char>) -> Seq<char> {
    a + seq!['\n'] + b
}

/// The empty line that a line feed behind `a` makes, where `a` has no line
/// left open.
pub open spec fn gap(a: Seq<char>) -> Seq<Seq<char>> {
    if a.len() == 0 || a.last() == '\n' {
        seq![Seq::empty()]
    } else {
        Seq::empty()
    }
}

proof fn lines_join(a: Seq<char>, b: Seq<char>)
    requires
        a.len() > 0 ==> a.last() != '\r',
    ensures
        lines_of(under(a, b)) == lines_of(a) + gap(a) + lines_of(b),
    decreases a.len(),
{
    let whole = under(a, b);
    let end = char_at(a, '\n');
    char_at_bounds(a, '\n');
    assert forall|j: int| 0 <= j < end implies #[trigger] whole[j] != '\n' by {
        assert(whole[j] == a[j]);
    }
    if a.len() > 0 && end < a.len() {
        assert(whole[end] == a[end]);
        char_at_is(whole, '\n', end);
        let rest = a.skip(end + 1);
        assert(whole.take(end) =~= a.take(end));
        assert(whole.skip(end + 1) =~= under(rest, b));
        if rest.len() > 0 {
            assert(rest.last() == a.last());
        } else {
            assert(a.last() == a[end]);
        }
        lines_join(rest, b);
        let line = without_return(a.take(end));
        assert(lines_of(whole) =~= lines_of(a) + gap(a) + lines_of(b));
    } else {
        assert(end == a.len());
        assert(whole[end] == '\n');
        char_at_is(whole, '\n', end);
        assert(whole.take(end) =~= a);
        assert(whole.skip(end + 1) =~= b);
        assert(without_return(a) == a);
        assert(lines_of(whole) =~= seq![a] + lines_of(b));
        if a.len() == 0 {
            assert(a =~= Seq::empty());
            assert(lines_of(a) + gap(a) =~= seq![a]);
        } else {
            assert(a.last() == a[a.len() - 1]);
            assert(lines_of(a) + gap(a) =~= seq![a]);
        }
    }
}

proof fn blank_lines_say_nothing(before: Seq<Seq<char>>)
    ensures
        pairs_of(before.push(Seq::empty())) == pairs_of(before),
        issues_of(before.push(Seq::empty())) == issues_of(before),
{
    assert(before.push(Seq::empty()).drop_last() =~= before);
    let blank = Seq::<char>::empty();
    assert(text::trimmed_start(blank) == blank);
    assert(text::trimmed(blank) == blank);
    assert(read_line(blank) is Skipped);
}

proof fn lines_add_up(first: Seq<Seq<char>>, second: Seq<Seq<char>>, key: Seq<char>)
    ensures
        issues_of(first + second) == issues_of(first) + issues_of(second),
        pairs::lookup(pairs_of(first + second), key) == (match pairs::lookup(
            pairs_of(second),
            key,
        ) {
            Some(value) => Some(value),
            None => pairs::lookup(pairs_of(first), key),
        }),
    decreases second.len(),
{
    if second.len() == 0 {
        assert(first + second =~= first);
        assert(issues_of(first) + issues_of(second) =~= issues_of(first));
    } else {
        let fewer = second.drop_last();
        lines_add_up(first, fewer, key);
        assert((first + second).drop_last() =~= first + fewer);
        assert((first + second).last() == second.last());
        match read_line(second.last()) {
            Line::Pair(own, value) => {
                pairs::lookup_after_put(pairs_of(first + fewer), own, value, key);
                pairs::lookup_after_put(pairs_of(fewer), own, value, key);
            },
            Line::Problem(issue) => {
                assert(issues_of(first + second) =~= issues_of(first) + issues_of(second));
            },
            _ => {},
        }
    }
}

/// Frontmatter is read line by line: of two texts on lines of their own the
/// issues are those of the one and then those of the other, and a key has the
/// value that the second gives it, else the one of the first. The first text
/// does not end in the middle of a line ending.
pub proof fn texts_add_up(a: Seq<char>, b: Seq<char>, key: Seq<char>)
    requires
        a.len() > 0 ==> a.last() != '\r',
    ensures
        issues_of(lines_of(under(a, b))) == issues_of(lines_of(a)) + issues_of(lines_of(b)),
        pairs::lookup(pairs_of(lines_of(under(a, b))), key) == (match pairs::lookup(
            pairs_of(lines_of(b)),
            key,
        ) {
            Some(value) => Some(value),
            None => pairs::lookup(pairs_of(lines_of(a)), key),
        }),
{
    let first = lines_of(a);
    lines_join(a, b);
    lines_add_up(first + gap(a), lines_of(b), key);
    if gap(a).len() > 0 {
        assert(first + gap(a) =~= first.push(Seq::empty()));
        blank_lines_say_nothing(first);
    } else {
        assert(first + gap(a) =~= first);
    }
}

/// Whether `c` may stand in a skill's name.
pub open spec fn name_char(c: char) -> bool {
    ('a' <= c && c <= 'z') || ('0' <= c && c <= '9') || c == '-'
}

/// A skill's name: 1 to 64 lowercase letters, digits and hyphens, with no
/// leading, trailing or consecutive hyphens.
pub open spec fn well_formed_name(name: Seq<char>) -> bool {
    &&& 1 <= name.len() <= 64
    &&& forall|i: int| 0 <= i < name.len() ==> name_char(#[trigger] name[i])
    &&& name[0] != '-'
    &&& name.last() != '-'
    &&& forall|i: int|
        0 <= i < name.len() - 1 ==> !(#[trigger] name[i] == '-' && name[i + 1] == '-')
}

/// Whether a skill's name is well-formed.
fn is_well_formed_name(name: &str) -> (r: bool)
    ensures
        r == well_formed_name(name@),
{
    let chars = text::chars_of(name);
    if chars.len() == 0 || chars.len() > 64 || chars[0] == '-' || chars[chars.len() - 1] == '-' {
        return false;
    }
    let mut i: usize = 0;
    while i < chars.len()
        invariant
            i <= chars.len(),
            chars@ == name@,
            forall|j: int| 0 <= j < i ==> name_char(#[trigger] name@[j]),
            forall|j: int|
                0 <= j < i && j < name@.len() - 1 ==> !(#[trigger] name@[j] == '-' && name@[j + 1]
                    == '-'),
        decreases chars.len() - i,
    {
        let c: char = chars[i];
        assert(c == name@[i as int]);
        if !(('a' <= c && c <= 'z') || ('0' <= c && c <= '9') || c == '-') {
            return false;
        }
        if c == '-' && i + 1 < chars.len() && chars[i + 1] == '-' {
            return false;
        }
        i += 1;
    }
    true
}

/// The rule that an ill-formed name breaks.
pub const NAME_RULE: &'static str = " must be 1-64 chars of lowercase letters, digits and hyphens, with no leading, trailing or consecutive hyphens";

/// The name and description of a skill, or what is wrong with it: the first
/// of the rules that it breaks.
pub open spec fn validated(
    frontmatter: Seq<(Seq<char>, Seq<char>)>,
    dir_name: Seq<char>,
) -> Result<(Seq<char>, Seq<char>), Seq<char>> {
    match pairs::lookup(frontmatter, "name"@) {
        None => Err("frontmatter requires `name`"@),
        Some(name) => if !well_formed_name(name) {
            Err("name "@ + text::debug_text(name) + NAME_RULE@)
        } else if name != dir_name {
            Err(
                "name "@ + text::debug_text(name) + " must equal directory name "@
                    + text::debug_text(dir_name),
            )
        } else {
            match pairs::lookup(frontmatter, "description"@) {
                None => Err("frontmatter requires `description`"@),
                Some(description) => if 1 <= description.len() <= 1024 {
                    Ok((name, description))
                } else {
                    Err(
                        "description must be 1..1024 chars (got "@ + text::decimal(
                            description.len(),
                        ) + ")"@,
                    )
                },
            }
        },
    }
}

/// A skill is accepted exactly when its name is well-formed and that of its
/// directory, and its description is 1 to 1024 characters long.
pub proof fn accepted_skills(frontmatter: Seq<(Seq<char>, Seq<char>)>, dir_name: Seq<char>)
    ensures
        validated(frontmatter, dir_name) is Ok <==> {
            &&& pairs::lookup(frontmatter, "name"@) == Some(dir_name)
            &&& well_formed_name(dir_name)
            &&& pairs::lookup(frontmatter, "description"@) matches Some(description)
                && 1 <= description.len() <= 1024
        },
{
}

/// Validates one parsed frontmatter: the one validator for every surface.
pub fn validate(frontmatter: &Frontmatter, dir_name: &str) -> (r: Result<(String, String), String>)
    ensures
        match r {
            Ok((name, description)) => validated(frontmatter@, dir_name@) == Ok::<
                (Seq<char>, Seq<char>),
                Seq<char>,
            >((name@, description@)),
            Err(message) => validated(frontmatter@, dir_name@) == Err::<
                (Seq<char>, Seq<char>),
                Seq<char>,
            >(message@),
        },
{
    let name = match frontmatter.get("name") {
        Some(name) => name,
        None => {
            return Err("frontmatter requires `name`".to_owned());
        },
    };
    if !is_well_formed_name(name) {
        let mut out = text::prefixed("name ", text::show_debug(name).as_str());
        out.append(NAME_RULE);
        return Err(out);
    }
    if !text::same(name, dir_name) {
        let mut out = text::prefixed("name ", text::show_debug(name).as_str());
        out.append(" must equal directory name ");
        out.append(text::show_debug(dir_name).as_str());
        return Err(out);
    }
    let description = match frontmatter.get("description") {
        Some(description) => description,
        None => {
            return Err("frontmatter requires `description`".to_owned());
        },
    };
    let count: usize = text::chars_of(description).len();
    if count < 1 || count > 1024 {
        let mut out = text::prefixed(
            "description must be 1..1024 chars (got ",
            text::decimal_of(count as u64).as_str(),
        );
        out.append(")");
        return Err(out);
    }
    Ok((name.to_owned(), description.to_owned()))
}

} // verus!
