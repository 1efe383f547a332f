//! The text form of the high-score table: one run per line, written as
//! `score,length`.
//!
//! Reading is lenient: a line counts when its first two comma-separated
//! fields, with surrounding white space removed, are unsigned decimal
//! numbers that fit their types (an optional leading `+` is allowed); every
//! other line is skipped. The runs read are then ranked and cut to the table
//! size, as registering them one by one would.

use vstd::prelude::*;

use crate::scores::{
    is_valid_table, lemma_valid_table_is_own_top, rank_top_scores, top_scores, HighScoreEntry,
};

verus! {

// ---------------------------------------------------------------- specs

/// The characters with the Unicode `White_Space` property, which is what
/// `char::is_whitespace` tests.
pub open spec fn is_white(c: char) -> bool {
    let u = c as u32;
    ||| 0x09 <= u <= 0x0D
    ||| u == 0x20
    ||| u == 0x85
    ||| u == 0xA0
    ||| u == 0x1680
    ||| 0x2000 <= u <= 0x200A
    ||| u == 0x2028
    ||| u == 0x2029
    ||| u == 0x202F
    ||| u == 0x205F
    ||| u == 0x3000
}

/// `s` without its leading white space.
pub open spec fn trim_start(s: Seq<char>) -> Seq<char>
    decreases s.len(),
{
    if s.len() > 0 && is_white(s[0]) {
        trim_start(s.drop_first())
    } else {
        s
    }
}

/// `s` without its trailing white space.
pub open spec fn trim_end(s: Seq<char>) -> Seq<char>
    decreases s.len(),
{
    if s.len() > 0 && is_white(s.last()) {
        trim_end(s.drop_last())
    } else {
        s
    }
}

/// `s` without white space at either end, as `str::trim` gives it.
pub open spec fn trim(s: Seq<char>) -> Seq<char> {
    trim_end(trim_start(s))
}

/// The index of the first `c` in `s`, or the length of `s` when there is
/// none.
pub open spec fn find_char(s: Seq<char>, c: char) -> nat
    decreases s.len(),
{
    if s.len() == 0 {
        0
    } else if s[0] == c {
        0
    } else {
        1 + find_char(s.drop_first(), c)
    }
}

/// An ASCII decimal digit.
pub open spec fn is_digit(c: char) -> bool {
    48 <= (c as u32) <= 57
}

/// Every character of `s` is a decimal digit.
pub open spec fn all_digits(s: Seq<char>) -> bool {
    forall|i: int| 0 <= i < s.len() ==> is_digit(#[trigger] s[i])
}

/// The number that the decimal digits `s` spell.
pub open spec fn digits_value(s: Seq<char>) -> nat
    decreases s.len(),
{
    if s.len() == 0 {
        0
    } else {
        digits_value(s.drop_last()) * 10 + ((s.last() as u32) - 48) as nat
    }
}

/// What `from_str` gives for an unsigned type whose largest value is `max`:
/// an optional `+`, then at least one decimal digit, and a value that fits.
pub open spec fn parse_unsigned(s: Seq<char>, max: nat) -> Option<nat> {
    if s.len() == 0 {
        None
    } else {
        let d = if s[0] == '+' { s.drop_first() } else { s };
        if d.len() > 0 && all_digits(d) && digits_value(d) <= max {
            Some(digits_value(d))
        } else {
            None
        }
    }
}

/// The run a line holds, if it holds one: its first two comma-separated
/// fields, trimmed, read as the score and the length.
pub open spec fn parse_line(line: Seq<char>) -> Option<HighScoreEntry> {
    let i = find_char(line, ',');
    if i >= line.len() {
        None
    } else {
        let rest = line.skip(i + 1 as int);
        let second = rest.take(find_char(rest, ',') as int);
        match (parse_unsigned(trim(line.take(i as int)), u32::MAX as nat), parse_unsigned(trim(second), usize::MAX as nat)) {
            (Some(score), Some(length)) => Some(HighScoreEntry { score: score as u32, length: length as usize }),
            _ => None,
        }
    }
}

/// The runs of a text, line by line, skipping the lines that hold none.
/// Lines end at `\n`; a last line needs none.
pub open spec fn parsed_entries(text: Seq<char>) -> Seq<HighScoreEntry>
    decreases text.len(),
{
    if text.len() == 0 {
        Seq::empty()
    } else {
        let e = find_char(text, '\n');
        let rest = if e < text.len() { text.skip(e + 1 as int) } else { Seq::empty() };
        proof {
            lemma_find_char_bound(text, '\n');
        }
        match parse_line(text.take(e as int)) {
            Some(x) => seq![x] + parsed_entries(rest),
            None => parsed_entries(rest),
        }
    }
}

/// The digit character of `d < 10`.
pub open spec fn digit_char(d: nat) -> char {
    (48 + d) as char
}

/// The decimal digits of `n`, without leading zeros.
pub open spec fn decimal(n: nat) -> Seq<char>
    decreases n,
{
    if n < 10 {
        seq![digit_char(n)]
    } else {
        decimal(n / 10).push(digit_char(n % 10))
    }
}

/// The line of a run, without its line end: `score,length`.
pub open spec fn line_text(e: HighScoreEntry) -> Seq<char> {
    decimal(e.score as nat) + seq![','] + decimal(e.length as nat)
}

/// Each run's line followed by a line end.
pub open spec fn rendered_lines(table: Seq<HighScoreEntry>) -> Seq<char>
    decreases table.len(),
{
    if table.len() == 0 {
        Seq::empty()
    } else {
        line_text(table[0]) + seq!['\n'] + rendered_lines(table.drop_first())
    }
}

/// The file text of a table: the lines joined by line ends, and one more
/// line end after them (so an empty table is a single line end).
pub open spec fn render_table(table: Seq<HighScoreEntry>) -> Seq<char> {
    if table.len() == 0 {
        seq!['\n']
    } else {
        rendered_lines(table)
    }
}

// ---------------------------------------------------------------- lemmas

pub proof fn lemma_find_char_bound(s: Seq<char>, c: char)
    ensures
        find_char(s, c) <= s.len(),
        find_char(s, c) < s.len() ==> s[find_char(s, c) as int] == c,
        forall|k: int| 0 <= k < find_char(s, c) ==> s[k] != c,
    decreases s.len(),
{
    if s.len() > 0 && s[0] != c {
        lemma_find_char_bound(s.drop_first(), c);
        assert forall|k: int| 0 <= k < find_char(s, c) implies s[k] != c by {
            if k > 0 {
                assert(s[k] == s.drop_first()[k - 1]);
            }
        }
    }
}

/// Searching past a stretch without `c` adds the stretch's length.
proof fn lemma_find_char_concat(a: Seq<char>, b: Seq<char>, c: char)
    requires
        forall|k: int| 0 <= k < a.len() ==> a[k] != c,
    ensures
        find_char(a + b, c) == a.len() + find_char(b, c),
    decreases a.len(),
{
    if a.len() > 0 {
        assert((a + b).drop_first() =~= a.drop_first() + b);
        lemma_find_char_concat(a.drop_first(), b, c);
    } else {
        assert(a + b =~= b);
    }
}

proof fn lemma_decimal(n: nat)
    ensures
        decimal(n).len() > 0,
        all_digits(decimal(n)),
        digits_value(decimal(n)) == n,
    decreases n,
{
    let d = digit_char(n % 10);
    assert((d as u32) == 48 + n % 10);
    if n >= 10 {
        lemma_decimal(n / 10);
        let s = decimal(n);
        assert(s.drop_last() =~= decimal(n / 10));
        assert(s.last() == d);
        assert(n == (n / 10) * 10 + n % 10);
        assert(digits_value(s) == digits_value(decimal(n / 10)) * 10 + n % 10);
    } else {
        let s = decimal(n);
        assert(s.drop_last() =~= Seq::<char>::empty());
        assert(digits_value(s.drop_last()) == 0);
    }
}

proof fn lemma_digits_not_special(s: Seq<char>)
    requires
        all_digits(s),
    ensures
        forall|k: int| 0 <= k < s.len() ==> s[k] != ',' && s[k] != '\n' && s[k] != '+' && !is_white(#[trigger] s[k]),
{
    assert forall|k: int| 0 <= k < s.len() implies s[k] != ',' && s[k] != '\n' && s[k] != '+' && !is_white(#[trigger] s[k]) by {
        assert(is_digit(s[k]));
    }
}

proof fn lemma_trim_digits(s: Seq<char>)
    requires
        s.len() > 0,
        all_digits(s),
    ensures
        trim(s) == s,
{
    lemma_digits_not_special(s);
    assert(!is_white(s[0]));
    assert(trim_start(s) == s);
    assert(!is_white(s.last()));
}

proof fn lemma_parse_line_text(e: HighScoreEntry)
    ensures
        parse_line(line_text(e)) == Some(e),
{
    let a = decimal(e.score as nat);
    let b = decimal(e.length as nat);
    lemma_decimal(e.score as nat);
    lemma_decimal(e.length as nat);
    lemma_digits_not_special(a);
    lemma_digits_not_special(b);
    let line = line_text(e);
    assert(line =~= a + (seq![','] + b));
    lemma_find_char_concat(a, seq![','] + b, ',');
    assert(find_char(seq![','] + b, ',') == 0);
    assert(line.take(a.len() as int) =~= a);
    assert(line.skip(a.len() + 1 as int) =~= b);
    assert(b =~= b + Seq::<char>::empty());
    lemma_find_char_concat(b, Seq::<char>::empty(), ',');
    assert(b.take(b.len() as int) =~= b);
    lemma_trim_digits(a);
    lemma_trim_digits(b);
    assert(a[0] != '+');
    assert(b[0] != '+');
}

proof fn lemma_parse_rendered(table: Seq<HighScoreEntry>)
    ensures
        parsed_entries(rendered_lines(table)) == table,
    decreases table.len(),
{
    if table.len() > 0 {
        let e = table[0];
        let line = line_text(e);
        let rest = rendered_lines(table.drop_first());
        let text = rendered_lines(table);
        lemma_decimal(e.score as nat);
        lemma_decimal(e.length as nat);
        lemma_digits_not_special(decimal(e.score as nat));
        lemma_digits_not_special(decimal(e.length as nat));
        assert forall|k: int| 0 <= k < line.len() implies line[k] != '\n' by {
            let a = decimal(e.score as nat);
            if k < a.len() {
                assert(line[k] == a[k]);
            } else if k > a.len() {
                assert(line[k] == decimal(e.length as nat)[k - a.len() - 1]);
            }
        }
        assert(text =~= line + (seq!['\n'] + rest));
        lemma_find_char_concat(line, seq!['\n'] + rest, '\n');
        assert(find_char(seq!['\n'] + rest, '\n') == 0);
        assert(text.take(line.len() as int) =~= line);
        assert(text.skip(line.len() + 1 as int) =~= rest);
        lemma_parse_line_text(e);
        lemma_parse_rendered(table.drop_first());
        assert(table =~= seq![e] + table.drop_first());
    }
}

/// Reading back a written table gives its runs in order, whatever they are.
pub proof fn lemma_render_then_parse(table: Seq<HighScoreEntry>)
    ensures
        parsed_entries(render_table(table)) == table,
{
    if table.len() == 0 {
        let t = seq!['\n'];
        assert(find_char(t, '\n') == 0);
        assert(t.skip(1) =~= Seq::<char>::empty());
        assert(parse_line(t.take(0)) is None);
        assert(parsed_entries(Seq::<char>::empty()) == Seq::<HighScoreEntry>::empty());
        assert(table =~= Seq::<HighScoreEntry>::empty());
    } else {
        lemma_parse_rendered(table);
    }
}

/// A table that is written to the file and read back is the same table.
pub proof fn lemma_file_round_trip(table: Seq<HighScoreEntry>)
    requires
        is_valid_table(table),
    ensures
        top_scores(parsed_entries(render_table(table))) == table,
{
    lemma_render_then_parse(table);
    lemma_valid_table_is_own_top(table);
}

// ---------------------------------------------------------------- reading

fn is_white_char(c: char) -> (b: bool)
    ensures
        b == is_white(c),
{
    let u = c as u32;
    (0x09 <= u && u <= 0x0D) || u == 0x20 || u == 0x85 || u == 0xA0 || u == 0x1680 || (0x2000
        <= u && u <= 0x200A) || u == 0x2028 || u == 0x2029 || u == 0x202F || u == 0x205F || u
        == 0x3000
}

/// The index of the first `c` in `text[start..end]`, or `end`.
fn find_from(text: &[char], start: usize, end: usize, c: char) -> (r: usize)
    requires
        start <= end <= text@.len(),
    ensures
        r == start + find_char(text@.subrange(start as int, end as int), c),
        start <= r <= end,
{
    let mut i = start;
    proof {
        lemma_find_char_bound(text@.subrange(start as int, end as int), c);
    }
    while i < end && text[i] != c
        invariant
            start <= i <= end <= text@.len(),
            start + find_char(text@.subrange(start as int, end as int), c) == i + find_char(
                text@.subrange(i as int, end as int),
                c,
            ),
        decreases end - i,
    {
        assert(text@.subrange(i as int, end as int).drop_first() =~= text@.subrange(
            i + 1,
            end as int,
        ));
        i = i + 1;
    }
    i
}

/// The bounds of `text[a..b]` without white space at either end.
fn trim_range(text: &[char], a: usize, b: usize) -> (r: (usize, usize))
    requires
        a <= b <= text@.len(),
    ensures
        a <= r.0 <= r.1 <= b,
        text@.subrange(r.0 as int, r.1 as int) == trim(text@.subrange(a as int, b as int)),
{
    let mut s = a;
    while s < b && is_white_char(text[s])
        invariant
            a <= s <= b <= text@.len(),
            trim_start(text@.subrange(a as int, b as int)) == trim_start(
                text@.subrange(s as int, b as int),
            ),
        decreases b - s,
    {
        assert(text@.subrange(s as int, b as int).drop_first() =~= text@.subrange(
            s + 1,
            b as int,
        ));
        s = s + 1;
    }
    assert(trim_start(text@.subrange(s as int, b as int)) == text@.subrange(s as int, b as int));
    let mut e = b;
    while e > s && is_white_char(text[e - 1])
        invariant
            a <= s <= e <= b <= text@.len(),
            trim_end(text@.subrange(s as int, b as int)) == trim_end(
                text@.subrange(s as int, e as int),
            ),
        decreases e - s,
    {
        assert(text@.subrange(s as int, e as int).drop_last() =~= text@.subrange(
            s as int,
            e - 1,
        ));
        e = e - 1;
    }
    (s, e)
}

/// Appending a digit to a number of digits does not make it smaller.
proof fn lemma_digits_value_prefix(d: Seq<char>, k: int)
    requires
        all_digits(d),
        0 <= k <= d.len(),
    ensures
        digits_value(d.take(k)) <= digits_value(d),
    decreases d.len() - k,
{
    if k < d.len() {
        let e = d.drop_last();
        assert(all_digits(e)) by {
            assert forall|i: int| 0 <= i < e.len() implies is_digit(#[trigger] e[i]) by {
                assert(e[i] == d[i]);
            }
        }
        lemma_digits_value_prefix(e, k);
        assert(e.take(k) =~= d.take(k));
        assert(is_digit(d.last()));
    } else {
        assert(d.take(k) =~= d);
    }
}

/// What `from_str` gives on `text[a..b]` for an unsigned type whose
/// largest value is `max`.
fn parse_unsigned_range(text: &[char], a: usize, b: usize, max: u64) -> (r: Option<u64>)
    requires
        a <= b <= text@.len(),
        9 <= max,
    ensures
        match r {
            Some(v) => parse_unsigned(text@.subrange(a as int, b as int), max as nat) == Some(
                v as nat,
            ),
            None => parse_unsigned(text@.subrange(a as int, b as int), max as nat) is None,
        },
{
    let ghost s = text@.subrange(a as int, b as int);
    if a == b {
        return None;
    }
    let mut i = a;
    if text[a] == '+' {
        i = a + 1;
    }
    let ghost d = if s[0] == '+' { s.drop_first() } else { s };
    assert(d =~= text@.subrange(i as int, b as int));
    if i == b {
        return None;
    }
    let start = i;
    let mut v: u64 = 0;
    assert(d.take(0) =~= Seq::<char>::empty());
    while i < b
        invariant
            a <= start <= i <= b <= text@.len(),
            d == text@.subrange(start as int, b as int),
            all_digits(d.take(i - start)),
            v as nat == digits_value(d.take(i - start)),
            v <= max,
            s == text@.subrange(a as int, b as int),
            d == (if s[0] == '+' { s.drop_first() } else { s }),
            d.len() > 0,
            9 <= max,
        decreases b - i,
    {
        let c = text[i];
        let u = c as u32;
        let ghost k: int = i - start;
        if u < 48 || u > 57 {
            assert(!is_digit(d[k]));
            return None;
        }
        let dv: u64 = (u - 48) as u64;
        let ghost t = d.take(k + 1);
        assert(t.drop_last() =~= d.take(k));
        assert(t.last() == c);
        assert(digits_value(t) == digits_value(d.take(k)) * 10 + dv);
        assert(all_digits(t)) by {
            assert forall|j: int| 0 <= j < t.len() implies is_digit(#[trigger] t[j]) by {
                if j < k {
                    assert(t[j] == d.take(k)[j]);
                }
            }
        }
        if v > (max - dv) / 10 {
            assert(v * 10 + dv > max) by (nonlinear_arith)
                requires
                    v > (max - dv) / 10,
                    dv <= 9,
                    9 <= max,
            ;
            proof {
                if all_digits(d) {
                    lemma_digits_value_prefix(d, k + 1);
                }
            }
            return None;
        }
        assert(v * 10 + dv <= max) by (nonlinear_arith)
            requires
                v <= (max - dv) / 10,
                dv <= 9,
                9 <= max,
        ;
        v = v * 10 + dv;
        i = i + 1;
    }
    assert(d.take(i - start) =~= d);
    Some(v)
}

/// The run that the line `text[a..b]` holds, if any.
fn parse_line_range(text: &[char], a: usize, b: usize) -> (r: Option<HighScoreEntry>)
    requires
        a <= b <= text@.len(),
    ensures
        r == parse_line(text@.subrange(a as int, b as int)),
{
    let ghost line = text@.subrange(a as int, b as int);
    let i = find_from(text, a, b, ',');
    if i >= b {
        return None;
    }
    let j = find_from(text, i + 1, b, ',');
    let ghost rest = line.skip(i - a + 1);
    assert(rest =~= text@.subrange(i + 1, b as int));
    assert(line.take(i - a) =~= text@.subrange(a as int, i as int));
    assert(rest.take(j - (i + 1)) =~= text@.subrange(i + 1, j as int));
    let (s0, e0) = trim_range(text, a, i);
    let (s1, e1) = trim_range(text, i + 1, j);
    let score = parse_unsigned_range(text, s0, e0, 4294967295u64);
    let length = parse_unsigned_range(text, s1, e1, usize::MAX as u64);
    match (score, length) {
        (Some(sc), Some(len)) => Some(HighScoreEntry { score: sc as u32, length: len as usize }),
        _ => None,
    }
}

/// Reads the high-score table from the text of its file: every line that
/// holds a run, ranked best first and cut to five.
pub fn parse_high_scores(text: &[char]) -> (table: Vec<HighScoreEntry>)
    ensures
        table@ == top_scores(parsed_entries(text@)),
{
    let n = text.len();
    let mut found: Vec<HighScoreEntry> = Vec::new();
    let mut pos: usize = 0;
    assert(text@.skip(0) =~= text@);
    while pos < n
        invariant
            n == text@.len(),
            pos <= n,
            parsed_entries(text@) == found@ + parsed_entries(text@.skip(pos as int)),
        decreases n - pos,
    {
        let e = find_from(text, pos, n, '\n');
        let ghost t = text@.skip(pos as int);
        assert(t =~= text@.subrange(pos as int, n as int));
        assert(t.take(e - pos) =~= text@.subrange(pos as int, e as int));
        let parsed = parse_line_range(text, pos, e);
        let ghost old_found = found@;
        let next = if e < n {
            e + 1
        } else {
            n
        };
        proof {
            if e < n {
                assert(t.skip(e - pos + 1) =~= text@.skip(next as int));
            } else {
                assert(text@.skip(next as int) =~= Seq::<char>::empty());
            }
        }
        match parsed {
            Some(x) => {
                found.push(x);
                assert(found@ + parsed_entries(text@.skip(next as int)) =~= old_found + (seq![x]
                    + parsed_entries(text@.skip(next as int))));
            },
            None => {},
        }
        pos = next;
    }
    assert(text@.skip(n as int) =~= Seq::<char>::empty());
    assert(found@ + Seq::<HighScoreEntry>::empty() =~= found@);
    rank_top_scores(&found)
}

// ---------------------------------------------------------------- writing

/// Appends the decimal digits of `n`.
fn push_decimal(out: &mut Vec<char>, n: u64)
    ensures
        final(out)@ == old(out)@ + decimal(n as nat),
    decreases n,
{
    if n >= 10 {
        push_decimal(out, n / 10);
    }
    let d: u8 = (n % 10) as u8;
    let c = (48u8 + d) as char;
    assert(c == digit_char((n % 10) as nat));
    out.push(c);
    proof {
        if n >= 10 {
            assert(final(out)@ =~= old(out)@ + decimal(n as nat));
        } else {
            assert(final(out)@ =~= old(out)@ + decimal(n as nat));
        }
    }
}

proof fn lemma_rendered_push(s: Seq<HighScoreEntry>, x: HighScoreEntry)
    ensures
        rendered_lines(s.push(x)) == rendered_lines(s) + line_text(x) + seq!['\n'],
    decreases s.len(),
{
    if s.len() == 0 {
        assert(s.push(x).drop_first() =~= Seq::<HighScoreEntry>::empty());
        assert(s.push(x)[0] == x);
        assert(rendered_lines(Seq::<HighScoreEntry>::empty()) == Seq::<char>::empty());
        assert(rendered_lines(s.push(x)) =~= rendered_lines(s) + line_text(x) + seq!['\n']);
    } else {
        lemma_rendered_push(s.drop_first(), x);
        assert(s.push(x).drop_first() =~= s.drop_first().push(x));
        assert(s.push(x)[0] == s[0]);
        let a = line_text(s[0]) + seq!['\n'];
        assert(rendered_lines(s.push(x)) == a + rendered_lines(s.drop_first().push(x)));
        assert(rendered_lines(s) == a + rendered_lines(s.drop_first()));
        assert(rendered_lines(s.push(x)) =~= rendered_lines(s) + line_text(x) + seq!['\n']);
    }
}

/// Writes the high-score table as the text of its file.
pub fn format_high_scores(entries: &[HighScoreEntry]) -> (text: Vec<char>)
    ensures
        text@ == render_table(entries@),
{
    let mut out: Vec<char> = Vec::new();
    if entries.len() == 0 {
        out.push('\n');
        assert(out@ =~= seq!['\n']);
        return out;
    }
    let mut i: usize = 0;
    assert(entries@.take(0) =~= Seq::<HighScoreEntry>::empty());
    assert(out@ =~= rendered_lines(entries@.take(0)));
    while i < entries.len()
        invariant
            0 <= i <= entries@.len(),
            out@ == rendered_lines(entries@.take(i as int)),
        decreases entries@.len() - i,
    {
        let e = entries[i];
        let ghost before = out@;
        push_decimal(&mut out, e.score as u64);
        out.push(',');
        push_decimal(&mut out, e.length as u64);
        out.push('\n');
        proof {
            assert(entries@.take(i + 1) =~= entries@.take(i as int).push(e));
            lemma_rendered_push(entries@.take(i as int), e);
            assert(out@ =~= before + line_text(e) + seq!['\n']);
        }
        i = i + 1;
    }
    assert(entries@.take(i as int) =~= entries@);
    out
}

} // verus!
