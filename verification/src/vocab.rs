//! The vocabulary file: one line "<token> <id>" for each token.
use vstd::prelude::*;
use vstd::string::*;

use crate::error::{GigaamError, GigaamErrorView, IoKind};
use crate::text::{
    all_digits, chars_of, decimal, decimal_denotes_number, find_last_space, is_digit, last_space,
    last_space_is_last, lemma_line_len, lines, parse_number, parsed_number, replace_char, same_text, split_lines, trim,
    trimmed, with_replaced,
};

verus! {

/// The SentencePiece mark that stands for a space in a token.
pub const SENTENCEPIECE_SPACE: char = '\u{2581}';

/// The token and the id of a line. The token may hold spaces: the last space
/// parts the two. A line without a space or without a number has neither.
pub open spec fn line_entry(line: Seq<char>) -> Option<(Seq<char>, usize)> {
    let i = last_space(line);
    if i < 0 {
        None
    } else {
        match parsed_number(trimmed(line.skip(i + 1))) {
            Some(id) => Some((line.take(i), id)),
            None => None,
        }
    }
}

/// The entries of a file with these lines, in the file's order.
pub open spec fn entries_of(ls: Seq<Seq<char>>) -> Seq<(Seq<char>, usize)>
    decreases ls.len(),
{
    if ls.len() == 0 {
        Seq::empty()
    } else {
        match line_entry(ls.last()) {
            Some(e) => entries_of(ls.drop_last()).push(e),
            None => entries_of(ls.drop_last()),
        }
    }
}

/// The entries of a vocabulary file.
pub open spec fn vocab_entries(content: Seq<char>) -> Seq<(Seq<char>, usize)> {
    entries_of(lines(content))
}

/// The size of the table: one more than the greatest id.
pub open spec fn table_size(entries: Seq<(Seq<char>, usize)>) -> nat
    decreases entries.len(),
{
    if entries.len() == 0 {
        1
    } else {
        let n = table_size(entries.drop_last());
        if entries.last().1 + 1 > n {
            (entries.last().1 + 1) as nat
        } else {
            n
        }
    }
}

/// The text for id `i`: that of the last entry with this id, with its marks
/// made spaces, or nothing.
pub open spec fn slot_text(entries: Seq<(Seq<char>, usize)>, i: int) -> Seq<char>
    decreases entries.len(),
{
    if entries.len() == 0 {
        Seq::empty()
    } else if entries.last().1 == i {
        with_replaced(entries.last().0, SENTENCEPIECE_SPACE, ' ')
    } else {
        slot_text(entries.drop_last(), i)
    }
}

/// The texts by id.
pub open spec fn vocab_table(entries: Seq<(Seq<char>, usize)>) -> Seq<Seq<char>> {
    Seq::new(table_size(entries), |i: int| slot_text(entries, i))
}

/// The id of the last blank token.
pub open spec fn blank_id(entries: Seq<(Seq<char>, usize)>) -> Option<usize>
    decreases entries.len(),
{
    if entries.len() == 0 {
        None
    } else if entries.last().0 == "<blk>"@ {
        Some(entries.last().1)
    } else {
        blank_id(entries.drop_last())
    }
}

/// A vector of `n` strings, of three words each, can be addressed.
pub open spec fn addressable(n: int) -> bool {
    n <= isize::MAX as int / (3 * (usize::BITS as int / 8))
}

/// The table of these entries can be addressed.
pub open spec fn table_fits(entries: Seq<(Seq<char>, usize)>) -> bool {
    addressable(table_size(entries) as int)
}

/// The texts of a vector of strings.
pub open spec fn texts(v: Seq<String>) -> Seq<Seq<char>> {
    v.map_values(|s: String| s@)
}

/// The entries as sequences.
pub open spec fn entry_views(v: Seq<(String, usize)>) -> Seq<(Seq<char>, usize)> {
    v.map_values(|e: (String, usize)| (e.0@, e.1))
}

fn parse_line(line: &str) -> (r: Option<(String, usize)>)
    ensures
        match r {
            Some(e) => line_entry(line@) == Some((e.0@, e.1)),
            None => line_entry(line@) is None,
        },
{
    let cs = chars_of(line);
    match find_last_space(&cs) {
        None => None,
        Some(i) => {
            let n: usize = cs.len();
            let id_text = line.substring_char(i + 1, n);
            assert(id_text@ =~= line@.skip(i + 1));
            match parse_number(trim(id_text).as_str()) {
                None => None,
                Some(id) => {
                    let token = line.substring_char(0, i).to_owned();
                    assert(token@ =~= line@.take(i as int));
                    Some((token, id))
                },
            }
        },
    }
}

/// The entries of a vocabulary file, in its order. Lines that hold none are
/// passed over.
pub fn parse_vocab(content: &str) -> (r: Vec<(String, usize)>)
    ensures
        entry_views(r@) == vocab_entries(content@),
{
    let ls = split_lines(content);
    let ghost all = ls@.map_values(|l: String| l@);
    let mut out: Vec<(String, usize)> = Vec::new();
    let mut i: usize = 0;
    assert(entry_views(out@) =~= entries_of(all.take(0)));
    while i < ls.len()
        invariant
            i <= ls.len(),
            all == ls@.map_values(|l: String| l@),
            entry_views(out@) == entries_of(all.take(i as int)),
        decreases ls.len() - i,
    {
        let ghost before = out@;
        assert(all.take(i + 1).drop_last() =~= all.take(i as int));
        assert(all[i as int] == ls@[i as int]@);
        match parse_line(ls[i].as_str()) {
            Some(e) => {
                out.push(e);
                assert(entry_views(out@) =~= entry_views(before).push((e.0@, e.1)));
            },
            None => {},
        }
        i = i + 1;
    }
    assert(all.take(i as int) =~= all);
    out
}

proof fn lemma_table_size_covers(entries: Seq<(Seq<char>, usize)>, k: int)
    requires
        0 <= k < entries.len(),
    ensures
        entries[k].1 < table_size(entries),
    decreases entries.len(),
{
    if k < entries.len() - 1 {
        lemma_table_size_covers(entries.drop_last(), k);
    }
}

/// Whether the table of a file's entries can be addressed.
pub fn vocab_fits(entries: &Vec<(String, usize)>) -> (r: bool)
    ensures
        r == table_fits(entry_views(entries@)),
{
    let ghost views = entry_views(entries@);
    let limit: usize = isize::MAX as usize / (3 * (usize::BITS as usize / 8));
    let mut i: usize = 0;
    let mut fits = limit >= 1;
    assert(table_size(views.take(0)) == 1);
    while i < entries.len()
        invariant
            i <= entries.len(),
            views == entry_views(entries@),
            limit == isize::MAX as int / (3 * (usize::BITS as int / 8)),
            fits == addressable(table_size(views.take(i as int)) as int),
        decreases entries.len() - i,
    {
        assert(views.take(i + 1).drop_last() =~= views.take(i as int));
        if entries[i].1 >= limit {
            fits = false;
        }
        i = i + 1;
    }
    assert(views.take(i as int) =~= views);
    fits
}

fn size_of_table(entries: &Vec<(String, usize)>) -> (r: usize)
    requires
        table_fits(entry_views(entries@)),
    ensures
        r == table_size(entry_views(entries@)),
{
    let ghost views = entry_views(entries@);
    let mut i: usize = 0;
    let mut size: usize = 1;
    assert(table_size(views.take(0)) == 1);
    while i < entries.len()
        invariant
            i <= entries.len(),
            views == entry_views(entries@),
            addressable(table_size(views) as int),
            size == table_size(views.take(i as int)),
        decreases entries.len() - i,
    {
        assert(views.take(i + 1).drop_last() =~= views.take(i as int));
        proof {
            lemma_table_size_covers(views, i as int);
            assert(views[i as int].1 == entries@[i as int].1);
        }
        if entries[i].1 >= size {
            size = entries[i].1 + 1;
        }
        i = i + 1;
    }
    assert(views.take(i as int) =~= views);
    size
}

fn empty_table(size: usize) -> (r: Vec<String>)
    ensures
        r.len() == size,
        forall|i: int| 0 <= i < size ==> #[trigger] r@[i]@ == Seq::<char>::empty(),
{
    let mut table: Vec<String> = Vec::new();
    while table.len() < size
        invariant
            table.len() <= size,
            forall|i: int| 0 <= i < table.len() ==> #[trigger] table@[i]@ == Seq::<char>::empty(),
        decreases size - table.len(),
    {
        table.push(String::new());
    }
    table
}

fn fill_table(entries: &Vec<(String, usize)>) -> (r: Vec<String>)
    requires
        table_fits(entry_views(entries@)),
    ensures
        texts(r@) == vocab_table(entry_views(entries@)),
{
    let ghost views = entry_views(entries@);
    let size = size_of_table(entries);
    let mut table = empty_table(size);
    let mut k: usize = 0;
    while k < entries.len()
        invariant
            k <= entries.len(),
            views == entry_views(entries@),
            table.len() == size,
            size == table_size(views),
            forall|i: int|
                0 <= i < size ==> #[trigger] table@[i]@ == slot_text(views.take(k as int), i),
        decreases entries.len() - k,
    {
        proof {
            lemma_table_size_covers(views, k as int);
            assert(views[k as int] == (entries@[k as int].0@, entries@[k as int].1));
            assert(views.take(k + 1).drop_last() =~= views.take(k as int));
            reveal_strlit(" ");
        }
        let text = replace_char(entries[k].0.as_str(), SENTENCEPIECE_SPACE, " ");
        table.set(entries[k].1, text);
        k = k + 1;
    }
    proof {
        assert(views.take(k as int) =~= views);
        assert(texts(table@) =~= vocab_table(views));
    }
    table
}

fn find_blank(entries: &Vec<(String, usize)>) -> (r: Option<usize>)
    ensures
        r == blank_id(entry_views(entries@)),
{
    let ghost views = entry_views(entries@);
    let mut blank: Option<usize> = None;
    let mut k: usize = 0;
    while k < entries.len()
        invariant
            k <= entries.len(),
            views == entry_views(entries@),
            blank == blank_id(views.take(k as int)),
        decreases entries.len() - k,
    {
        proof {
            assert(views[k as int] == (entries@[k as int].0@, entries@[k as int].1));
            assert(views.take(k + 1).drop_last() =~= views.take(k as int));
        }
        if same_text(entries[k].0.as_str(), "<blk>") {
            blank = Some(entries[k].1);
        }
        k = k + 1;
    }
    assert(views.take(k as int) =~= views);
    blank
}

/// The blank token's id is one of the table's.
pub proof fn blank_is_in_table(entries: Seq<(Seq<char>, usize)>)
    requires
        blank_id(entries) is Some,
    ensures
        blank_id(entries).unwrap() < vocab_table(entries).len(),
    decreases entries.len(),
{
    if entries.last().0 != "<blk>"@ {
        blank_is_in_table(entries.drop_last());
    }
}

/// Every token of the file has a place in the table.
pub proof fn table_covers_tokens(entries: Seq<(Seq<char>, usize)>, k: int)
    requires
        0 <= k < entries.len(),
    ensures
        entries[k].1 < vocab_table(entries).len(),
{
    lemma_table_size_covers(entries, k);
}

/// No text of the table holds the mark that stands for a space.
pub proof fn table_has_no_marks(entries: Seq<(Seq<char>, usize)>, i: int)
    requires
        0 <= i < vocab_table(entries).len(),
    ensures
        !vocab_table(entries)[i].contains(SENTENCEPIECE_SPACE),
{
    lemma_no_mark(entries, i);
}

proof fn lemma_no_mark(entries: Seq<(Seq<char>, usize)>, i: int)
    ensures
        !slot_text(entries, i).contains(SENTENCEPIECE_SPACE),
    decreases entries.len(),
{
    if entries.len() > 0 && entries.last().1 != i {
        lemma_no_mark(entries.drop_last(), i);
    }
}

/// A token whose id no later line repeats is the table's text for that id, with
/// its marks made spaces.
pub proof fn table_holds_token(entries: Seq<(Seq<char>, usize)>, k: int)
    requires
        0 <= k < entries.len(),
        forall|j: int| k < j < entries.len() ==> (#[trigger] entries[j]).1 != entries[k].1,
    ensures
        vocab_table(entries)[entries[k].1 as int] == with_replaced(
            entries[k].0,
            SENTENCEPIECE_SPACE,
            ' ',
        ),
    decreases entries.len(),
{
    lemma_table_size_covers(entries, k);
    if k < entries.len() - 1 {
        assert(entries[entries.len() - 1].1 != entries[k].1);
        let shorter = entries.drop_last();
        assert(shorter[k] == entries[k]);
        lemma_table_size_covers(shorter, k);
        table_holds_token(shorter, k);
    }
}

/// The table of a vocabulary file and the id of its blank token. A file without
/// a blank token is refused as invalid data.
pub fn load_vocab(content: &str) -> (r: Result<(Vec<String>, usize), GigaamError>)
    requires
        table_fits(vocab_entries(content@)),
    ensures
        match r {
            Ok(v) => {
                &&& texts(v.0@) == vocab_table(vocab_entries(content@))
                &&& blank_id(vocab_entries(content@)) == Some(v.1)
                &&& v.1 < v.0.len()
            },
            Err(e) => {
                &&& blank_id(vocab_entries(content@)) is None
                &&& e@ == GigaamErrorView::Io(
                    IoKind::InvalidData,
                    "Missing <blk> token in GigaAM vocabulary"@,
                )
            },
        },
{
    let entries = parse_vocab(content);
    let vocab = fill_table(&entries);
    match find_blank(&entries) {
        Some(blank_idx) => {
            proof {
                blank_is_in_table(vocab_entries(content@));
                assert(texts(vocab@).len() == vocab@.len());
            }
            Ok((vocab, blank_idx))
        },
        None => Err(
            GigaamError::Io(
                IoKind::InvalidData,
                "Missing <blk> token in GigaAM vocabulary".to_owned(),
            ),
        ),
    }
}

/// The line for a token and its id.
pub open spec fn written_line(e: (Seq<char>, usize)) -> Seq<char> {
    e.0.push(' ') + decimal(e.1 as nat)
}

/// The file with a line for each entry.
pub open spec fn written_file(entries: Seq<(Seq<char>, usize)>) -> Seq<char>
    decreases entries.len(),
{
    if entries.len() == 0 {
        Seq::empty()
    } else {
        written_line(entries.first()).push('\n') + written_file(entries.drop_first())
    }
}

proof fn lemma_last_space_before_digits(token: Seq<char>, digits: Seq<char>)
    requires
        all_digits(digits),
    ensures
        last_space(token.push(' ') + digits) == token.len(),
    decreases digits.len(),
{
    let s = token.push(' ') + digits;
    if digits.len() == 0 {
        assert(s =~= token.push(' '));
    } else {
        assert(is_digit(digits[digits.len() - 1]));
        let shorter = digits.drop_last();
        assert forall|i: int| 0 <= i < shorter.len() implies is_digit(#[trigger] shorter[i]) by {
            assert(is_digit(digits[i]));
        }
        assert(s.drop_last() =~= token.push(' ') + shorter);
        lemma_last_space_before_digits(token, shorter);
    }
}

/// The line for a token and its id gives them back, whatever the token holds.
pub proof fn written_line_is_read_back(e: (Seq<char>, usize))
    ensures
        line_entry(written_line(e)) == Some(e),
{
    let digits = decimal(e.1 as nat);
    let line = written_line(e);
    decimal_denotes_number(e.1 as nat);
    lemma_last_space_before_digits(e.0, digits);
    assert(line.skip(e.0.len() as int + 1) =~= digits);
    assert(line.take(e.0.len() as int) =~= e.0);
    assert(is_digit(digits[0]));
    assert(is_digit(digits[digits.len() - 1]));
    assert(trimmed(digits) == digits);
}

proof fn lemma_first_line(line: Seq<char>, rest: Seq<char>)
    requires
        !line.contains('\n'),
        line.len() > 0,
        line.last() != '\r',
    ensures
        lines(line.push('\n') + rest) == seq![line] + lines(rest),
{
    let s = line.push('\n') + rest;
    assert forall|k: int| 0 <= k < line.len() implies #[trigger] s[k] != '\n' by {
        assert(line.contains(line[k]));
    }
    lemma_line_len(s, line.len() as int);
    assert(s.take(line.len() as int) =~= line);
    assert(s.skip(line.len() as int + 1) =~= rest);
}

proof fn lemma_entries_front(line: Seq<char>, rest: Seq<Seq<char>>)
    ensures
        entries_of(seq![line] + rest) == (match line_entry(line) {
            Some(e) => seq![e] + entries_of(rest),
            None => entries_of(rest),
        }),
    decreases rest.len(),
{
    let all = seq![line] + rest;
    if rest.len() == 0 {
        assert(all.drop_last() =~= Seq::<Seq<char>>::empty());
        assert(entries_of(all.drop_last()) =~= Seq::empty());
        assert(all.last() == line);
        if let Some(e) = line_entry(line) {
            assert(entries_of(all) =~= seq![e] + entries_of(rest));
        }
    } else {
        assert(all.drop_last() =~= seq![line] + rest.drop_last());
        lemma_entries_front(line, rest.drop_last());
        if let Some(e) = line_entry(line) {
            assert(entries_of(all) =~= seq![e] + entries_of(rest));
        }
    }
}

/// A file with a line for each entry gives the entries back, in order, whatever
/// the tokens hold but line feeds.
pub proof fn written_file_is_read_back(entries: Seq<(Seq<char>, usize)>)
    requires
        forall|k: int| 0 <= k < entries.len() ==> !(#[trigger] entries[k]).0.contains('\n'),
    ensures
        vocab_entries(written_file(entries)) == entries,
    decreases entries.len(),
{
    if entries.len() == 0 {
        assert(vocab_entries(written_file(entries)) =~= entries);
    } else {
        let e = entries.first();
        let rest = entries.drop_first();
        let line = written_line(e);
        decimal_denotes_number(e.1 as nat);
        let digits = decimal(e.1 as nat);
        assert(is_digit(digits[digits.len() - 1]));
        assert(line.last() == digits.last());
        assert(!entries[0].0.contains('\n'));
        assert forall|k: int| 0 <= k < line.len() implies #[trigger] line[k] != '\n' by {
            if k < e.0.len() {
                assert(e.0.contains(e.0[k]));
            } else if k > e.0.len() {
                assert(is_digit(digits[k - e.0.len() - 1]));
            }
        }
        assert forall|k: int| 0 <= k < rest.len() implies !(#[trigger] rest[k]).0.contains(
            '\n',
        ) by {
            assert(!entries[k + 1].0.contains('\n'));
        }
        lemma_first_line(line, written_file(rest));
        written_line_is_read_back(e);
        lemma_entries_front(line, lines(written_file(rest)));
        written_file_is_read_back(rest);
        assert(seq![e] + rest =~= entries);
    }
}

/// A line is a token, a space and a number, in which the token may hold spaces
/// and the number may have white space other than spaces around it.
pub proof fn line_is_token_and_number(token: Seq<char>, rest: Seq<char>)
    requires
        !rest.contains(' '),
    ensures
        line_entry(token.push(' ') + rest) == (match parsed_number(trimmed(rest)) {
            Some(id) => Some((token, id)),
            None => None,
        }),
        line_entry(rest) is None,
{
    let line = token.push(' ') + rest;
    let i = last_space(line);
    assert(line[token.len() as int] == ' ');
    last_space_is_last(line, token.len() as int);
    if i > token.len() {
        assert(rest.contains(rest[i - token.len() - 1]));
    }
    assert(line.skip(token.len() as int + 1) =~= rest);
    assert(line.take(token.len() as int) =~= token);
    last_space_is_last(rest, 0);
    if last_space(rest) >= 0 {
        assert(rest.contains(rest[last_space(rest)]));
    }
}

/// Each line adds its own entry, and the order of the lines is kept.
pub proof fn lines_add_their_entries(a: Seq<Seq<char>>, b: Seq<Seq<char>>, line: Seq<char>)
    ensures
        entries_of(a + b) == entries_of(a) + entries_of(b),
        entries_of(seq![line]) == (match line_entry(line) {
            Some(e) => seq![e],
            None => seq![],
        }),
        entries_of(Seq::<Seq<char>>::empty()) == Seq::<(Seq<char>, usize)>::empty(),
    decreases b.len(),
{
    reveal_with_fuel(entries_of, 2);
    assert(seq![line].drop_last() =~= Seq::<Seq<char>>::empty());
    assert(entries_of(seq![line]) =~= (match line_entry(line) {
        Some(e) => seq![e],
        None => seq![],
    }));
    if b.len() == 0 {
        assert(a + b =~= a);
        assert(entries_of(a + b) =~= entries_of(a) + entries_of(b));
    } else {
        lines_add_their_entries(a, b.drop_last(), line);
        assert((a + b).drop_last() =~= a + b.drop_last());
        assert((a + b).last() == b.last());
        assert(entries_of(a + b) =~= entries_of(a) + entries_of(b));
    }
}

/// The blank token's id is the one that stands in the last line for it,
/// whatever number that is: entry `k` is a blank token's with this id, and no
/// later entry is a blank token's.
pub proof fn blank_id_is_that_of_its_line(entries: Seq<(Seq<char>, usize)>) -> (k: int)
    requires
        blank_id(entries) is Some,
    ensures
        0 <= k < entries.len(),
        entries[k].0 == "<blk>"@,
        blank_id(entries) == Some(entries[k].1),
        forall|j: int| k < j < entries.len() ==> (#[trigger] entries[j]).0 != "<blk>"@,
    decreases entries.len(),
{
    if entries.last().0 == "<blk>"@ {
        entries.len() - 1
    } else {
        let shorter = entries.drop_last();
        let k = blank_id_is_that_of_its_line(shorter);
        assert forall|j: int| k < j < entries.len() implies (#[trigger] entries[j]).0
            != "<blk>"@ by {
            if j < shorter.len() {
                assert(shorter[j].0 != "<blk>"@);
            }
        }
        k
    }
}

/// There is a blank token if and only if some entry is one.
pub proof fn blank_is_found(entries: Seq<(Seq<char>, usize)>, k: int)
    requires
        0 <= k < entries.len(),
        entries[k].0 == "<blk>"@,
    ensures
        blank_id(entries) is Some,
    decreases entries.len(),
{
    if entries.last().0 != "<blk>"@ {
        blank_is_found(entries.drop_last(), k);
    }
}

/// In a file whose ids differ, the table's text for the blank token's id is the
/// blank token.
pub proof fn blank_id_names_the_blank(entries: Seq<(Seq<char>, usize)>)
    requires
        blank_id(entries) is Some,
        forall|i: int, j: int|
            0 <= i < j < entries.len() ==> (#[trigger] entries[i]).1 != (#[trigger] entries[j]).1,
    ensures
        vocab_table(entries)[blank_id(entries).unwrap() as int] == "<blk>"@,
{
    let k = blank_id_is_that_of_its_line(entries);
    table_holds_token(entries, k);
    reveal_strlit("<blk>");
    assert(with_replaced("<blk>"@, SENTENCEPIECE_SPACE, ' ') =~= "<blk>"@);
}

/// The table is no larger than its greatest id needs, and an id that no line
/// gives has no text.
pub proof fn table_is_tight(entries: Seq<(Seq<char>, usize)>, i: int) -> (k: int)
    requires
        0 <= i < vocab_table(entries).len(),
    ensures
        vocab_table(entries).len() == 1 || (0 <= k < entries.len() && vocab_table(entries).len()
            == entries[k].1 + 1),
        (forall|j: int| 0 <= j < entries.len() ==> (#[trigger] entries[j]).1 != i)
            ==> vocab_table(entries)[i] == Seq::<char>::empty(),
{
    if forall|j: int| 0 <= j < entries.len() ==> (#[trigger] entries[j]).1 != i {
        lemma_no_slot(entries, i);
    }
    lemma_table_size_reached(entries)
}

proof fn lemma_no_slot(entries: Seq<(Seq<char>, usize)>, i: int)
    requires
        forall|j: int| 0 <= j < entries.len() ==> (#[trigger] entries[j]).1 != i,
    ensures
        slot_text(entries, i) == Seq::<char>::empty(),
    decreases entries.len(),
{
    if entries.len() > 0 {
        let shorter = entries.drop_last();
        assert(entries[entries.len() - 1].1 != i);
        assert forall|j: int| 0 <= j < shorter.len() implies (#[trigger] shorter[j]).1 != i by {
            assert(entries[j].1 != i);
        }
        lemma_no_slot(shorter, i);
    }
}

proof fn lemma_table_size_reached(entries: Seq<(Seq<char>, usize)>) -> (k: int)
    ensures
        table_size(entries) == 1 || (0 <= k < entries.len() && table_size(entries)
            == entries[k].1 + 1),
    decreases entries.len(),
{
    if entries.len() == 0 {
        0
    } else {
        let k = lemma_table_size_reached(entries.drop_last());
        if entries.last().1 + 1 > table_size(entries.drop_last()) {
            entries.len() - 1
        } else {
            k
        }
    }
}

/// A table can be addressed if and only if its strings, of three words each,
/// take no more bytes than an `isize` can count.
pub proof fn tables_are_bounded_by_bytes(entries: Seq<(Seq<char>, usize)>)
    ensures
        usize::BITS == 64 ==> (table_fits(entries) <==> 24 * vocab_table(entries).len()
            <= isize::MAX),
        usize::BITS == 32 ==> (table_fits(entries) <==> 12 * vocab_table(entries).len()
            <= isize::MAX),
{
    let most = isize::MAX as int;
    let bytes = 3 * (usize::BITS as int / 8);
    if usize::BITS == 64 {
        assert(bytes == 24);
        assert(most / bytes == most / 24);
    }
    if usize::BITS == 32 {
        assert(bytes == 12);
        assert(most / bytes == most / 12);
    }
}

/// Texts and entries stand for all of their characters, in order.
pub proof fn texts_keep_characters(v: Seq<String>, entries: Seq<(String, usize)>, i: int)
    ensures
        texts(v).len() == v.len(),
        0 <= i < v.len() ==> texts(v)[i] == v[i]@,
        entry_views(entries).len() == entries.len(),
        0 <= i < entries.len() ==> entry_views(entries)[i].0 == entries[i].0@ && entry_views(
            entries,
        )[i].1 == entries[i].1,
{
}

} // verus!
