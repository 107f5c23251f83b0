//! Text as sequences of characters: trimming, splitting into lines, decimal
//! numbers and the joining of message parts.
use vstd::prelude::*;
use vstd::string::*;

verus! {

/// The characters with the Unicode `White_Space` property.
pub open spec fn white_space(c: char) -> bool {
    let u = c as u32;
    ||| 0x9 <= u <= 0xd
    ||| u == 0x20
    ||| u == 0x85
    ||| u == 0xa0
    ||| u == 0x1680
    ||| 0x2000 <= u <= 0x200a
    ||| u == 0x2028
    ||| u == 0x2029
    ||| u == 0x202f
    ||| u == 0x205f
    ||| u == 0x3000
}

/// `s` without the white space at either end.
pub open spec fn trimmed(s: Seq<char>) -> Seq<char>
    decreases s.len(),
{
    if s.len() == 0 {
        s
    } else if white_space(s.first()) {
        trimmed(s.drop_first())
    } else if white_space(s.last()) {
        trimmed(s.drop_last())
    } else {
        s
    }
}

/// `s` is empty or consists of white space alone.
pub open spec fn is_blank(s: Seq<char>) -> bool {
    forall|i: int| 0 <= i < s.len() ==> white_space(#[trigger] s[i])
}

/// A line without the carriage return that stands before its line feed.
pub open spec fn without_return(line: Seq<char>) -> Seq<char> {
    if line.len() > 0 && line.last() == '\r' {
        line.drop_last()
    } else {
        line
    }
}

/// How many characters of `s` stand before its first line feed, or in `s` where
/// it has none.
pub open spec fn line_len(s: Seq<char>) -> nat
    decreases s.len(),
{
    if s.len() == 0 || s.first() == '\n' {
        0
    } else {
        1 + line_len(s.drop_first())
    }
}

/// The lines of `s`. A line ends with a line feed, or with a carriage return
/// and a line feed; the end of the last line is optional.
pub open spec fn lines(s: Seq<char>) -> Seq<Seq<char>>
    decreases s.len(),
{
    if s.len() == 0 {
        Seq::empty()
    } else if line_len(s) < s.len() {
        let n = line_len(s) as int;
        seq![without_return(s.take(n))] + lines(s.skip(n + 1))
    } else {
        seq![s]
    }
}

/// The index of the last space of `s`, or -1 where it has none.
pub open spec fn last_space(s: Seq<char>) -> int
    decreases s.len(),
{
    if s.len() == 0 {
        -1
    } else if s.last() == ' ' {
        s.len() - 1
    } else {
        last_space(s.drop_last())
    }
}

/// A decimal digit.
pub open spec fn is_digit(c: char) -> bool {
    '0' <= c <= '9'
}

/// `s` holds decimal digits only.
pub open spec fn all_digits(s: Seq<char>) -> bool {
    forall|i: int| 0 <= i < s.len() ==> is_digit(#[trigger] s[i])
}

/// The number that a sequence of decimal digits denotes.
pub open spec fn decimal_value(digits: Seq<char>) -> nat
    decreases digits.len(),
{
    if digits.len() == 0 {
        0
    } else {
        10 * decimal_value(digits.drop_last()) + (digits.last() as nat - '0' as nat) as nat
    }
}

/// The number that `s` denotes: decimal digits, at least one, behind an
/// optional plus sign, with a value that a `usize` can hold.
pub open spec fn parsed_number(s: Seq<char>) -> Option<usize> {
    let digits = if s.len() > 0 && s[0] == '+' {
        s.skip(1)
    } else {
        s
    };
    if digits.len() > 0 && all_digits(digits) && decimal_value(digits) <= usize::MAX {
        Some(decimal_value(digits) as usize)
    } else {
        None
    }
}

/// The decimal digit for `d`.
pub open spec fn digit_char(d: nat) -> char {
    if d == 0 {
        '0'
    } else if d == 1 {
        '1'
    } else if d == 2 {
        '2'
    } else if d == 3 {
        '3'
    } else if d == 4 {
        '4'
    } else if d == 5 {
        '5'
    } else if d == 6 {
        '6'
    } else if d == 7 {
        '7'
    } else if d == 8 {
        '8'
    } else {
        '9'
    }
}

/// `n` in decimal digits, without leading zeros.
pub open spec fn decimal(n: nat) -> Seq<char>
    decreases n,
{
    if n < 10 {
        seq![digit_char(n)]
    } else {
        decimal(n / 10).push(digit_char(n % 10))
    }
}

/// `s` with every `from` replaced by `to`.
pub open spec fn with_replaced(s: Seq<char>, from: char, to: char) -> Seq<char> {
    s.map_values(
        |c: char|
            if c == from {
                to
            } else {
                c
            },
    )
}

/// Whether `c` is white space.
pub fn is_white_space(c: char) -> (r: bool)
    ensures
        r == white_space(c),
{
    let u: u32 = c as u32;
    (0x9 <= u && u <= 0xd) || u == 0x20 || u == 0x85 || u == 0xa0 || u == 0x1680 || (0x2000 <= u
        && u <= 0x200a) || u == 0x2028 || u == 0x2029 || u == 0x202f || u == 0x205f || u == 0x3000
}

/// The characters of `s`.
pub fn chars_of(s: &str) -> (r: Vec<char>)
    ensures
        r@ == s@,
{
    let mut out: Vec<char> = Vec::new();
    for c in it: s.chars()
        invariant
            it.seq() == s@,
            out@ == s@.take(it.index() as int),
    {
        out.push(c);
        assert(s@.take(it.index() + 1) =~= s@.take(it.index() as int).push(c));
    }
    assert(s@.take(s@.len() as int) =~= s@);
    out
}

/// `a` and `b` are the same text.
pub fn same_text(a: &str, b: &str) -> (r: bool)
    ensures
        r == (a@ == b@),
{
    a.to_owned() == b.to_owned()
}

/// `a` followed by `b`.
pub fn join(a: &str, b: &str) -> (r: String)
    ensures
        r@ == a@ + b@,
{
    let mut out = a.to_owned();
    out.append(b);
    out
}

/// `a`, `b` and `c` one after the other.
pub fn join3(a: &str, b: &str, c: &str) -> (r: String)
    ensures
        r@ == a@ + b@ + c@,
{
    let mut out = a.to_owned();
    out.append(b);
    out.append(c);
    out
}

proof fn lemma_trimmed_range(s: Seq<char>, i: int, j: int)
    requires
        0 <= i <= j <= s.len(),
        forall|k: int| 0 <= k < i ==> white_space(#[trigger] s[k]),
        forall|k: int| j <= k < s.len() ==> white_space(#[trigger] s[k]),
        i < j ==> !white_space(s[i]) && !white_space(s[j - 1]),
    ensures
        trimmed(s) == s.subrange(i, j),
    decreases s.len(),
{
    if i == j {
        lemma_blank_trims_to_nothing(s);
        assert(s.subrange(i, j) =~= Seq::<char>::empty());
    } else if i > 0 {
        assert(white_space(s[0]));
        lemma_trimmed_range(s.drop_first(), i - 1, j - 1);
        assert(s.drop_first().subrange(i - 1, j - 1) =~= s.subrange(i, j));
    } else if j < s.len() {
        assert(white_space(s[s.len() - 1]));
        lemma_trimmed_range(s.drop_last(), i, j);
        assert(s.drop_last().subrange(i, j) =~= s.subrange(i, j));
    } else {
        assert(s.subrange(i, j) =~= s);
    }
}

proof fn lemma_blank_trims_to_nothing(s: Seq<char>)
    requires
        is_blank(s),
    ensures
        trimmed(s) == Seq::<char>::empty(),
    decreases s.len(),
{
    if s.len() > 0 {
        assert(white_space(s[0]));
        lemma_blank_trims_to_nothing(s.drop_first());
    } else {
        assert(s =~= Seq::<char>::empty());
    }
}

/// `s` without the white space at either end.
pub fn trim(s: &str) -> (r: String)
    ensures
        r@ == trimmed(s@),
{
    let cs = chars_of(s);
    let mut i: usize = 0;
    while i < cs.len() && is_white_space(cs[i])
        invariant
            cs@ == s@,
            i <= cs.len(),
            forall|k: int| 0 <= k < i ==> white_space(#[trigger] s@[k]),
        decreases cs.len() - i,
    {
        i = i + 1;
    }
    let mut j: usize = cs.len();
    while j > i && is_white_space(cs[j - 1])
        invariant
            cs@ == s@,
            i <= j <= cs.len(),
            forall|k: int| j <= k < s@.len() ==> white_space(#[trigger] s@[k]),
        decreases j,
    {
        j = j - 1;
    }
    proof {
        lemma_trimmed_range(s@, i as int, j as int);
    }
    s.substring_char(i, j).to_owned()
}

/// Whether nothing is left of `s` once it is trimmed.
pub fn trims_to_nothing(s: &str) -> (r: bool)
    ensures
        r == (trimmed(s@).len() == 0),
{
    trim(s).as_str().is_empty()
}

pub(crate) proof fn lemma_line_len(s: Seq<char>, n: int)
    requires
        0 <= n <= s.len(),
        forall|k: int| 0 <= k < n ==> #[trigger] s[k] != '\n',
        n == s.len() || s[n] == '\n',
    ensures
        line_len(s) == n,
    decreases n,
{
    if n > 0 {
        assert(s[0] != '\n');
        lemma_line_len(s.drop_first(), n - 1);
    }
}

/// The lines of `s`, each without its end.
pub fn split_lines(s: &str) -> (r: Vec<String>)
    ensures
        r@.map_values(|l: String| l@) == lines(s@),
{
    let cs = chars_of(s);
    let mut out: Vec<String> = Vec::new();
    let mut start: usize = 0;
    proof {
        assert(s@.skip(0) =~= s@);
        assert(out@.map_values(|l: String| l@) =~= Seq::<Seq<char>>::empty());
    }
    while start < cs.len()
        invariant
            cs@ == s@,
            start <= cs.len(),
            lines(s@) == out@.map_values(|l: String| l@) + lines(s@.skip(start as int)),
        decreases cs.len() - start,
    {
        let mut i: usize = start;
        while i < cs.len() && cs[i] != '\n'
            invariant
                cs@ == s@,
                start <= i <= cs.len(),
                forall|k: int| start <= k < i ==> #[trigger] s@[k] != '\n',
            decreases cs.len() - i,
        {
            i = i + 1;
        }
        let ghost rest = s@.skip(start as int);
        let ghost n = i - start;
        proof {
            lemma_line_len(rest, n);
        }
        let ghost before = out@.map_values(|l: String| l@);
        if i == cs.len() {
            let line = s.substring_char(start, i).to_owned();
            assert(line@ =~= rest);
            out.push(line);
            start = i;
            proof {
                assert(out@.map_values(|l: String| l@) =~= before.push(line@));
                assert(lines(s@.skip(start as int)) =~= Seq::<Seq<char>>::empty());
                assert(before.push(line@) =~= before + seq![rest]);
            }
        } else {
            let end: usize = if i > start && cs[i - 1] == '\r' {
                i - 1
            } else {
                i
            };
            let line = s.substring_char(start, end).to_owned();
            assert(line@ =~= without_return(rest.take(n)));
            out.push(line);
            start = i + 1;
            proof {
                assert(out@.map_values(|l: String| l@) =~= before.push(line@));
                assert(s@.skip(start as int) =~= rest.skip(n + 1));
                assert(before + (seq![line@] + lines(rest.skip(n + 1))) =~= before.push(line@)
                    + lines(rest.skip(n + 1)));
            }
        }
    }
    assert(s@.skip(start as int) =~= Seq::<char>::empty());
    assert(out@.map_values(|l: String| l@) + Seq::<Seq<char>>::empty() =~= out@.map_values(
        |l: String| l@,
    ));
    out
}

proof fn lemma_decimal_value_grows(digits: Seq<char>, n: int)
    requires
        0 <= n <= digits.len(),
    ensures
        decimal_value(digits.take(n)) <= decimal_value(digits),
    decreases digits.len() - n,
{
    if n < digits.len() {
        lemma_decimal_value_grows(digits, n + 1);
        assert(digits.take(n + 1).drop_last() =~= digits.take(n));
    } else {
        assert(digits.take(n) =~= digits);
    }
}

/// The number that `s` denotes in decimal, if it denotes one.
pub fn parse_number(s: &str) -> (r: Option<usize>)
    ensures
        r == parsed_number(s@),
{
    let cs = chars_of(s);
    let start: usize = if cs.len() > 0 && cs[0] == '+' {
        1
    } else {
        0
    };
    let ghost digits = if s@.len() > 0 && s@[0] == '+' {
        s@.skip(1)
    } else {
        s@
    };
    if start == cs.len() {
        return None;
    }
    let mut value: usize = 0;
    let mut i: usize = start;
    while i < cs.len()
        invariant
            cs@ == s@,
            start <= i <= cs.len(),
            start == cs.len() - digits.len(),
            digits == s@.skip(start as int),
            digits.len() > 0,
            digits == (if s@.len() > 0 && s@[0] == '+' {
                s@.skip(1)
            } else {
                s@
            }),
            forall|k: int| 0 <= k < i - start ==> is_digit(#[trigger] digits[k]),
            value == decimal_value(digits.take(i - start)),
        decreases cs.len() - i,
    {
        let c = cs[i];
        let ghost k = i - start;
        assert(digits[k] == c);
        if c < '0' || c > '9' {
            assert(!all_digits(digits));
            return None;
        }
        let d: usize = (c as u32 - '0' as u32) as usize;
        proof {
            assert(digits.take(k + 1).drop_last() =~= digits.take(k));
            assert(decimal_value(digits.take(k + 1)) == 10 * value + d);
            lemma_decimal_value_grows(digits, k + 1);
        }
        if value > (usize::MAX - d) / 10 {
            return None;
        }
        value = value * 10 + d;
        i = i + 1;
    }
    assert(digits.take(digits.len() as int) =~= digits);
    Some(value)
}

fn digit_text(d: usize) -> (r: String)
    requires
        d < 10,
    ensures
        r@ == seq![digit_char(d as nat)],
{
    let t = match d {
        0 => "0",
        1 => "1",
        2 => "2",
        3 => "3",
        4 => "4",
        5 => "5",
        6 => "6",
        7 => "7",
        8 => "8",
        _ => "9",
    };
    proof {
        reveal_strlit("0");
        reveal_strlit("1");
        reveal_strlit("2");
        reveal_strlit("3");
        reveal_strlit("4");
        reveal_strlit("5");
        reveal_strlit("6");
        reveal_strlit("7");
        reveal_strlit("8");
        reveal_strlit("9");
        assert(t@ =~= seq![digit_char(d as nat)]);
    }
    t.to_owned()
}

/// `n` in decimal digits.
pub fn decimal_text(n: usize) -> (r: String)
    ensures
        r@ == decimal(n as nat),
    decreases n,
{
    if n < 10 {
        digit_text(n)
    } else {
        let mut out = decimal_text(n / 10);
        out.append(digit_text(n % 10).as_str());
        assert(out@ =~= decimal(n as nat));
        out
    }
}

/// Where the last space of `s` stands, if it has one.
pub fn find_last_space(s: &Vec<char>) -> (r: Option<usize>)
    ensures
        match r {
            Some(i) => i == last_space(s@) && i < s.len(),
            None => last_space(s@) == -1,
        },
{
    let mut n: usize = s.len();
    assert(s@.take(n as int) =~= s@);
    while n > 0
        invariant
            n <= s.len(),
            last_space(s@) == last_space(s@.take(n as int)),
        decreases n,
    {
        if s[n - 1] == ' ' {
            return Some(n - 1);
        }
        assert(s@.take(n as int).drop_last() =~= s@.take(n - 1));
        n = n - 1;
    }
    None
}

/// `s` with every `from` replaced by the one-character text `to`.
pub fn replace_char(s: &str, from: char, to: &str) -> (r: String)
    requires
        to@.len() == 1,
    ensures
        r@ == with_replaced(s@, from, to@[0]),
{
    let cs = chars_of(s);
    let mut out = String::new();
    let mut i: usize = 0;
    while i < cs.len()
        invariant
            cs@ == s@,
            i <= cs.len(),
            to@.len() == 1,
            out@ == with_replaced(s@.take(i as int), from, to@[0]),
        decreases cs.len() - i,
    {
        if cs[i] == from {
            out.append(to);
        } else {
            out.append(s.substring_char(i, i + 1));
        }
        i = i + 1;
        assert(out@ =~= with_replaced(s@.take(i as int), from, to@[0]));
    }
    assert(s@.take(i as int) =~= s@);
    out
}

/// Trimming twice is trimming once.
pub proof fn trimming_is_idempotent(s: Seq<char>)
    ensures
        trimmed(trimmed(s)) == trimmed(s),
    decreases s.len(),
{
    if s.len() > 0 && white_space(s.first()) {
        trimming_is_idempotent(s.drop_first());
    } else if s.len() > 0 && white_space(s.last()) {
        trimming_is_idempotent(s.drop_last());
    }
}

/// A trimmed text has no white space at either end.
pub proof fn trimmed_ends_are_solid(s: Seq<char>)
    ensures
        trimmed(s).len() > 0 ==> !white_space(trimmed(s).first()) && !white_space(
            trimmed(s).last(),
        ),
    decreases s.len(),
{
    if s.len() > 0 && white_space(s.first()) {
        trimmed_ends_are_solid(s.drop_first());
    } else if s.len() > 0 && white_space(s.last()) {
        trimmed_ends_are_solid(s.drop_last());
    }
}

/// Nothing is left of a text if and only if it consists of white space alone.
pub proof fn blank_texts_trim_to_nothing(s: Seq<char>)
    ensures
        trimmed(s).len() == 0 <==> is_blank(s),
    decreases s.len(),
{
    if is_blank(s) {
        lemma_blank_trims_to_nothing(s);
    } else if white_space(s.first()) {
        let rest = s.drop_first();
        blank_texts_trim_to_nothing(rest);
        let i = choose|i: int| 0 <= i < s.len() && !white_space(#[trigger] s[i]);
        assert(rest[i - 1] == s[i]);
    } else if white_space(s.last()) {
        let rest = s.drop_last();
        blank_texts_trim_to_nothing(rest);
        let i = choose|i: int| 0 <= i < s.len() && !white_space(#[trigger] s[i]);
        assert(rest[i] == s[i]);
    }
}

/// The decimal digits of a number denote it.
pub proof fn decimal_denotes_number(n: nat)
    ensures
        decimal(n).len() > 0,
        all_digits(decimal(n)),
        decimal_value(decimal(n)) == n,
        n <= usize::MAX ==> parsed_number(decimal(n)) == Some(n as usize),
    decreases n,
{
    reveal_with_fuel(decimal_value, 2);
    if n < 10 {
        assert(decimal(n).drop_last() =~= Seq::<char>::empty());
    } else {
        decimal_denotes_number(n / 10);
        let shorter = decimal(n / 10);
        assert(decimal(n).drop_last() =~= shorter);
        assert forall|i: int| 0 <= i < decimal(n).len() implies is_digit(
            #[trigger] decimal(n)[i],
        ) by {
            if i < shorter.len() {
                assert(is_digit(shorter[i]));
            }
        }
    }
    assert(is_digit(decimal(n)[0]));
}

/// Trimming takes white space off the two ends and nothing else: what is left
/// is one piece of the text, and all that stands before and behind it is white
/// space.
pub proof fn trimming_keeps_the_middle(s: Seq<char>) -> (r: (Seq<char>, Seq<char>))
    ensures
        r.0 + trimmed(s) + r.1 == s,
        forall|i: int| 0 <= i < r.0.len() ==> white_space(#[trigger] r.0[i]),
        forall|i: int| 0 <= i < r.1.len() ==> white_space(#[trigger] r.1[i]),
    decreases s.len(),
{
    if s.len() == 0 {
        assert(Seq::<char>::empty() + trimmed(s) + Seq::<char>::empty() =~= s);
        (Seq::empty(), Seq::empty())
    } else if white_space(s.first()) {
        let rest = trimming_keeps_the_middle(s.drop_first());
        let before = seq![s.first()] + rest.0;
        assert(s =~= seq![s.first()] + s.drop_first());
        assert(before + trimmed(s) + rest.1 =~= s);
        (before, rest.1)
    } else if white_space(s.last()) {
        let rest = trimming_keeps_the_middle(s.drop_last());
        let behind = rest.1.push(s.last());
        assert(s =~= s.drop_last().push(s.last()));
        assert(rest.0 + trimmed(s) + behind =~= s);
        (rest.0, behind)
    } else {
        assert(Seq::<char>::empty() + trimmed(s) + Seq::<char>::empty() =~= s);
        (Seq::empty(), Seq::empty())
    }
}

/// The white space inside a text survives trimming: a text without white space
/// at its ends is kept as it is, whatever white space stands around it.
pub proof fn trimming_undoes_padding(before: Seq<char>, middle: Seq<char>, behind: Seq<char>)
    requires
        is_blank(before),
        is_blank(behind),
        middle.len() > 0,
        !white_space(middle.first()),
        !white_space(middle.last()),
    ensures
        trimmed(before + middle + behind) == middle,
{
    let s = before + middle + behind;
    let i = before.len() as int;
    let j = i + middle.len();
    assert forall|k: int| 0 <= k < i implies white_space(#[trigger] s[k]) by {
        assert(s[k] == before[k]);
    }
    assert forall|k: int| j <= k < s.len() implies white_space(#[trigger] s[k]) by {
        assert(s[k] == behind[k - j]);
    }
    lemma_trimmed_range(s, i, j);
    assert(s.subrange(i, j) =~= middle);
}

/// Lines are parted by line feeds, and by carriage returns before these; what
/// stands in a line is kept. The last line needs no end.
pub proof fn line_feeds_part_lines(line: Seq<char>, rest: Seq<char>)
    requires
        !line.contains('\n'),
    ensures
        lines(line.push('\r').push('\n') + rest) == seq![line] + lines(rest),
        line.len() == 0 || line.last() != '\r' ==> lines(line.push('\n') + rest) == seq![line]
            + lines(rest),
        line.len() > 0 ==> lines(line) == seq![line],
        lines(Seq::<char>::empty()) == Seq::<Seq<char>>::empty(),
{
    assert forall|k: int| 0 <= k < line.len() implies #[trigger] line[k] != '\n' by {
        assert(line.contains(line[k]));
    }
    let a = line.push('\n') + rest;
    lemma_line_len(a, line.len() as int);
    assert(a.take(line.len() as int) =~= line);
    assert(a.skip(line.len() as int + 1) =~= rest);
    let b = line.push('\r').push('\n') + rest;
    lemma_line_len(b, line.len() as int + 1);
    assert(b.take(line.len() as int + 1) =~= line.push('\r'));
    assert(line.push('\r').drop_last() =~= line);
    assert(b.skip(line.len() as int + 2) =~= rest);
    lemma_line_len(line, line.len() as int);
}

/// The last space of a text is a space, and none follows it; a text has none if
/// and only if it holds no space.
pub proof fn last_space_is_last(s: Seq<char>, i: int)
    ensures
        last_space(s) == -1 || (0 <= last_space(s) < s.len() && s[last_space(s)] == ' '),
        last_space(s) < i < s.len() ==> s[i] != ' ',
    decreases s.len(),
{
    if s.len() > 0 && s.last() != ' ' {
        last_space_is_last(s.drop_last(), i);
    }
}

/// The decimal digits, by their code points.
pub proof fn digits_are_ascii(c: char)
    ensures
        is_digit(c) <==> 48 <= c as u32 <= 57,
{
}

/// A digit behind a number shifts it by a place and adds its value; nothing but
/// digits behind an optional plus sign is a number, and what a `usize` cannot
/// hold is none.
pub proof fn numbers_are_read_digit_by_digit(digits: Seq<char>, c: char)
    requires
        all_digits(digits),
        is_digit(c),
    ensures
        decimal_value(digits.push(c)) == 10 * decimal_value(digits) + (c as u32 - 48),
        digits.len() > 0 && decimal_value(digits) <= usize::MAX ==> parsed_number(digits) == Some(
            decimal_value(digits) as usize,
        ),
        parsed_number(digits) is Some <==> digits.len() > 0 && decimal_value(digits) <= usize::MAX,
        parsed_number(seq!['+'] + digits) == parsed_number(digits),
{
    assert(digits.push(c).drop_last() =~= digits);
    assert((seq!['+'] + digits).skip(1) =~= digits);
    if digits.len() > 0 {
        assert(is_digit(digits[0]));
    }
}

/// A text with anything but digits behind an optional plus sign is no number.
pub proof fn other_texts_are_no_numbers(s: Seq<char>, i: int)
    requires
        0 <= i < s.len(),
        !is_digit(s[i]),
        i > 0 || s[i] != '+',
    ensures
        parsed_number(s) is None,
{
    if s[0] == '+' {
        assert(s.skip(1)[i - 1] == s[i]);
    } else {
        assert(!all_digits(s));
    }
}

/// A number is written in digits, without a leading zero but for zero itself;
/// the last digit is its remainder by ten.
pub proof fn numbers_are_written_shortest(n: nat)
    ensures
        all_digits(decimal(n)),
        decimal(n).len() > 0,
        n >= 10 ==> decimal(n)[0] != '0',
        n > 0 ==> decimal(n)[0] != '0',
        decimal(n).last() as u32 == 48 + n % 10,
        n >= 10 ==> decimal(n).drop_last() == decimal(n / 10),
    decreases n,
{
    decimal_denotes_number(n);
    if n >= 10 {
        numbers_are_written_shortest(n / 10);
        assert(decimal(n).drop_last() =~= decimal(n / 10));
    }
}

/// Replacing a character keeps every other one in its place.
pub proof fn replacing_keeps_the_rest(s: Seq<char>, from: char, to: char, i: int)
    requires
        0 <= i < s.len(),
    ensures
        with_replaced(s, from, to).len() == s.len(),
        s[i] == from ==> with_replaced(s, from, to)[i] == to,
        s[i] != from ==> with_replaced(s, from, to)[i] == s[i],
{
}

} // verus!
