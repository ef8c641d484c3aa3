use vstd::prelude::*;
use vstd::std_specs::iter::IteratorSpec;
use vstd::string::{axiom_spec_iter, next_postcondition};

use crate::libmount::error::AllocationError;
use crate::libmount::fs::{FileSystem, MountEntry};
use crate::libmount::table::{entries_view, entry_view, Table};

verus! {

/// `String::push` of std: appends the character to the end of the string.
pub assume_specification[ String::push ](text: &mut String, ch: char)
    ensures
        final(text)@ == old(text)@.push(ch),
;

/// The characters of a text, in order.
pub fn to_chars(text: &str) -> (r: Vec<char>)
    ensures
        r@ == text@,
{
    broadcast use {axiom_spec_iter, next_postcondition};

    let mut chars: Vec<char> = Vec::new();
    let mut rest = text.chars();
    loop
        invariant
            chars@ + rest.remaining() == text@,
            rest.decrease() is Some,
        decreases rest.decrease()->0,
    {
        let ghost before = rest.remaining();
        match rest.next() {
            Some(ch) => {
                chars.push(ch);
                assert(chars@ + rest.remaining() =~= text@);
            },
            None => {
                assert(chars@ + rest.remaining() =~= chars@);
                return chars;
            },
        }
    }
}

/// Whether a character separates two fields of a row.
pub open spec fn is_blank(ch: char) -> bool {
    ch == ' ' || ch == '\t' || ch == '\r'
}

fn blank(ch: char) -> (r: bool)
    ensures
        r == is_blank(ch),
{
    ch == ' ' || ch == '\t' || ch == '\r'
}

/// The lines of a text: what stands between its line feeds. A text of `n`
/// line feeds has `n + 1` lines, empty ones among them.
pub open spec fn spec_lines(text: Seq<char>) -> Seq<Seq<char>>
    decreases text.len(),
{
    if text.len() == 0 {
        seq![Seq::<char>::empty()]
    } else {
        let lines = spec_lines(text.drop_last());
        if text.last() == '\n' {
            lines.push(Seq::<char>::empty())
        } else {
            lines.update(lines.len() - 1, lines.last().push(text.last()))
        }
    }
}

/// The fields of a line: its longest runs of characters that are not
/// blank, in order.
pub open spec fn spec_fields(line: Seq<char>) -> Seq<Seq<char>>
    decreases line.len(),
{
    if line.len() == 0 {
        Seq::empty()
    } else {
        let fields = spec_fields(line.drop_last());
        if is_blank(line.last()) {
            fields
        } else if line.len() >= 2 && !is_blank(line[line.len() - 2]) && fields.len() > 0 {
            fields.update(fields.len() - 1, fields.last().push(line.last()))
        } else {
            fields.push(seq![line.last()])
        }
    }
}

/// How the rows of a table are written.
#[derive(Debug, Clone, Copy, PartialEq, Eq, Structural)]
pub enum TableFormat {
    /// Source, mount point, type of the filesystem, options.
    Fstab,
    /// What the kernel says of each mount: identifier, root, mount point
    /// and options before a lone `-`, type and source after it.
    MountInfo,
    /// What userspace notes of a mount: fields of the form `NAME=value`.
    Utab,
    /// Each line in the form that it has.
    Guess,
}

/// Whether a field begins a comment.
pub open spec fn is_comment(field: Seq<char>) -> bool {
    field.len() > 0 && field[0] == '#'
}

/// Whether a field is the lone `-` of a row of the kernel.
pub open spec fn is_separator(field: Seq<char>) -> bool {
    field.len() == 1 && field[0] == '-'
}

pub open spec fn is_digit(ch: char) -> bool {
    '0' <= ch <= '9'
}

/// The number that a field of decimal digits stands for.
pub open spec fn spec_decimal(text: Seq<char>) -> Option<int>
    decreases text.len(),
{
    if text.len() == 0 || !is_digit(text.last()) {
        None
    } else if text.len() == 1 {
        Some(text.last() as int - '0' as int)
    } else {
        match spec_decimal(text.drop_last()) {
            Some(value) => Some(value * 10 + (text.last() as int - '0' as int)),
            None => None,
        }
    }
}

/// The identifier that a field stands for: a decimal number that a mount
/// identifier can hold.
pub open spec fn spec_identifier(text: Seq<char>) -> Option<int> {
    match spec_decimal(text) {
        Some(value) => if value <= i32::MAX {
            Some(value)
        } else {
            None
        },
        None => None,
    }
}

/// The row that the fields of a line of a static table make up: source,
/// mount point, type of the filesystem and, where there is a fourth field,
/// options. A line of fewer than three fields makes no row, nor does one
/// that begins with `#`.
pub open spec fn spec_fstab_row(fields: Seq<Seq<char>>) -> Option<MountEntry> {
    if fields.len() < 3 || is_comment(fields[0]) {
        None
    } else {
        Some(
            MountEntry {
                id: 0,
                source: Some(fields[0]),
                root: None,
                bindsrc: None,
                target: Some(fields[1]),
                fstype: Some(fields[2]),
                options: if fields.len() > 3 {
                    Some(fields[3])
                } else {
                    None
                },
            },
        )
    }
}

/// Whether field `k` is the first lone `-` after the six leading fields of
/// a row of the kernel.
pub open spec fn is_first_separator(fields: Seq<Seq<char>>, k: int) -> bool {
    &&& 6 <= k < fields.len()
    &&& is_separator(fields[k])
    &&& forall|j: int| 6 <= j < k ==> !is_separator(#[trigger] fields[j])
}

pub open spec fn has_separator(fields: Seq<Seq<char>>) -> bool {
    exists|k: int| 6 <= k < fields.len() && is_separator(#[trigger] fields[k])
}

pub open spec fn first_separator(fields: Seq<Seq<char>>) -> int {
    choose|k: int| is_first_separator(fields, k)
}

/// The row that the fields of a line of the kernel make up: the first
/// field is the identifier, the fourth the root, the fifth the mount
/// point, the sixth the options; after the first lone `-` behind them
/// come the type of the filesystem and the source. A line of another
/// shape makes no row.
pub open spec fn spec_mountinfo_row(fields: Seq<Seq<char>>) -> Option<MountEntry> {
    if fields.len() < 6 || !has_separator(fields) || spec_identifier(fields[0]) is None
        || first_separator(fields) + 2 >= fields.len() {
        None
    } else {
        Some(
            MountEntry {
                id: spec_identifier(fields[0])->Some_0,
                source: Some(fields[first_separator(fields) + 2]),
                root: Some(fields[3]),
                bindsrc: None,
                target: Some(fields[4]),
                fstype: Some(fields[first_separator(fields) + 1]),
                options: Some(fields[5]),
            },
        )
    }
}

/// Whether position `k` holds the first `=` of a field.
pub open spec fn is_first_equals(field: Seq<char>, k: int) -> bool {
    &&& 0 <= k < field.len()
    &&& field[k] == '='
    &&& forall|j: int| 0 <= j < k ==> field[j] != '='
}

pub open spec fn has_equals(field: Seq<char>) -> bool {
    exists|k: int| 0 <= k < field.len() && field[k] == '='
}

pub open spec fn first_equals(field: Seq<char>) -> int {
    choose|k: int| is_first_equals(field, k)
}

/// The name in a field of the form `NAME=value`.
pub open spec fn spec_name(field: Seq<char>) -> Seq<char> {
    field.subrange(0, first_equals(field))
}

/// The value in a field of the form `NAME=value`.
pub open spec fn spec_value(field: Seq<char>) -> Seq<char> {
    field.subrange(first_equals(field) + 1, field.len() as int)
}

/// Whether a field gives one of the values that a row holds.
pub open spec fn is_assignment(field: Seq<char>) -> bool {
    has_equals(field) && (spec_name(field) == seq!['S', 'R', 'C'] || spec_name(field) == seq![
        'T',
        'A',
        'R',
        'G',
        'E',
        'T',
    ] || spec_name(field) == seq!['R', 'O', 'O', 'T'] || spec_name(field) == seq![
        'B',
        'I',
        'N',
        'D',
        'S',
        'R',
        'C',
    ] || spec_name(field) == seq!['O', 'P', 'T', 'S'] || spec_name(field) == seq!['I', 'D'])
}

/// The row after a field has been read into it: `SRC` gives the source,
/// `TARGET` the mount point, `ROOT` the root, `BINDSRC` the directory
/// that a bind mount was made from, `OPTS` the options, and `ID` the
/// identifier where its value is one. Any other field changes nothing.
pub open spec fn spec_assign(entry: MountEntry, field: Seq<char>) -> MountEntry {
    if !has_equals(field) {
        entry
    } else if spec_name(field) == seq!['S', 'R', 'C'] {
        MountEntry { source: Some(spec_value(field)), ..entry }
    } else if spec_name(field) == seq!['T', 'A', 'R', 'G', 'E', 'T'] {
        MountEntry { target: Some(spec_value(field)), ..entry }
    } else if spec_name(field) == seq!['R', 'O', 'O', 'T'] {
        MountEntry { root: Some(spec_value(field)), ..entry }
    } else if spec_name(field) == seq!['B', 'I', 'N', 'D', 'S', 'R', 'C'] {
        MountEntry { bindsrc: Some(spec_value(field)), ..entry }
    } else if spec_name(field) == seq!['O', 'P', 'T', 'S'] {
        MountEntry { options: Some(spec_value(field)), ..entry }
    } else if spec_name(field) == seq!['I', 'D'] {
        match spec_identifier(spec_value(field)) {
            Some(id) => MountEntry { id, ..entry },
            None => entry,
        }
    } else {
        entry
    }
}

/// The row after all the fields have been read into it, in order.
pub open spec fn spec_assigned(fields: Seq<Seq<char>>) -> MountEntry
    decreases fields.len(),
{
    if fields.len() == 0 {
        MountEntry::empty()
    } else {
        spec_assign(spec_assigned(fields.drop_last()), fields.last())
    }
}

/// The row that the fields of a line of userspace make up. A line whose
/// first field gives none of the values of a row makes no row.
pub open spec fn spec_utab_row(fields: Seq<Seq<char>>) -> Option<MountEntry> {
    if fields.len() > 0 && is_assignment(fields[0]) {
        Some(spec_assigned(fields))
    } else {
        None
    }
}

/// The row that the fields of a line make up in a format. Where the
/// format is to be guessed, a line that makes a row of the kernel is taken
/// as one, else a line that makes a row of userspace as one, and any other
/// as a line of a static table.
pub open spec fn spec_row(fields: Seq<Seq<char>>, format: TableFormat) -> Option<MountEntry> {
    match format {
        TableFormat::Fstab => spec_fstab_row(fields),
        TableFormat::MountInfo => spec_mountinfo_row(fields),
        TableFormat::Utab => spec_utab_row(fields),
        TableFormat::Guess => match spec_mountinfo_row(fields) {
            Some(entry) => Some(entry),
            None => match spec_utab_row(fields) {
                Some(entry) => Some(entry),
                None => spec_fstab_row(fields),
            },
        },
    }
}

/// The rows of a sequence of lines, in order.
pub open spec fn spec_rows(lines: Seq<Seq<char>>, format: TableFormat) -> Seq<MountEntry>
    decreases lines.len(),
{
    if lines.len() == 0 {
        Seq::empty()
    } else {
        match spec_row(spec_fields(lines.last()), format) {
            Some(entry) => spec_rows(lines.drop_last(), format).push(entry),
            None => spec_rows(lines.drop_last(), format),
        }
    }
}

/// The table that a text stands for: one row for each line that makes one,
/// in the order of the lines.
pub open spec fn spec_parse(text: Seq<char>, format: TableFormat) -> Seq<MountEntry> {
    spec_rows(spec_lines(text), format)
}

/// A text has one line at least, and no line holds a line feed.
pub proof fn lemma_lines_hold_no_line_feed(text: Seq<char>)
    ensures
        spec_lines(text).len() >= 1,
        forall|k: int, j: int|
            0 <= k < spec_lines(text).len() && 0 <= j < spec_lines(text)[k].len() ==> (
            #[trigger] spec_lines(text)[k][j]) != '\n',
    decreases text.len(),
{
    if text.len() > 0 {
        lemma_lines_hold_no_line_feed(text.drop_last());
    }
}

/// Every field holds a character, and none holds a blank.
pub proof fn lemma_fields_hold_no_blank(line: Seq<char>)
    ensures
        forall|k: int| 0 <= k < spec_fields(line).len() ==> (#[trigger] spec_fields(line)[k]).len() > 0,
        forall|k: int, j: int|
            0 <= k < spec_fields(line).len() && 0 <= j < spec_fields(line)[k].len() ==> !is_blank(
                #[trigger] spec_fields(line)[k][j],
            ),
        line.len() > 0 && !is_blank(line.last()) ==> spec_fields(line).len() > 0,
    decreases line.len(),
{
    if line.len() > 0 {
        lemma_fields_hold_no_blank(line.drop_last());
        let before = spec_fields(line.drop_last());
        let fields = spec_fields(line);
        assert forall|k: int| 0 <= k < fields.len() implies (#[trigger] fields[k]).len() > 0 && (
        forall|j: int| 0 <= j < fields[k].len() ==> !is_blank(#[trigger] fields[k][j])) by {
            if k < before.len() - 1 || (k < before.len() && fields.len() > before.len()) || is_blank(
                line.last(),
            ) {
                assert(fields[k] == before[k]);
                assert forall|j: int| 0 <= j < fields[k].len() implies !is_blank(
                    #[trigger] fields[k][j],
                ) by {
                    assert(!is_blank(before[k][j]));
                }
            } else if fields.len() > before.len() {
                assert(fields[k] == seq![line.last()]);
            } else {
                assert(fields[k] == before[k].push(line.last()));
                assert forall|j: int| 0 <= j < fields[k].len() implies !is_blank(
                    #[trigger] fields[k][j],
                ) by {
                    if j < before[k].len() {
                        assert(!is_blank(before[k][j]));
                    }
                }
            }
        }
    }
}

/// What a sequence of lines holds.
pub open spec fn lines_view(lines: Seq<Vec<char>>) -> Seq<Seq<char>> {
    lines.map_values(|line: Vec<char>| line@)
}

/// What a sequence of fields holds.
pub open spec fn fields_view(fields: Seq<String>) -> Seq<Seq<char>> {
    fields.map_values(|field: String| field@)
}

/// Cuts a text into its lines.
pub fn split_lines(text: &Vec<char>) -> (r: Vec<Vec<char>>)
    ensures
        lines_view(r@) == spec_lines(text@),
{
    let mut lines: Vec<Vec<char>> = Vec::new();
    let mut line: Vec<char> = Vec::new();
    let mut i: usize = 0;
    assert(lines_view(lines@).push(line@) =~= spec_lines(text@.take(0)));
    while i < text.len()
        invariant
            i <= text.len(),
            lines_view(lines@).push(line@) == spec_lines(text@.take(i as int)),
        decreases text.len() - i,
    {
        let ghost done = lines_view(lines@);
        let ghost open = line@;
        let ch = text[i];
        assert(text@.take(i + 1).drop_last() =~= text@.take(i as int));
        assert(text@.take(i + 1).last() == ch);
        if ch == '\n' {
            lines.push(line);
            line = Vec::new();
            assert(lines_view(lines@) =~= done.push(open));
        } else {
            line.push(ch);
            assert(done.push(line@) =~= done.push(open).update(done.len() as int, open.push(ch)));
        }
        i = i + 1;
    }
    assert(text@.take(i as int) =~= text@);
    let ghost done = lines_view(lines@);
    let ghost open = line@;
    lines.push(line);
    assert(lines_view(lines@) =~= done.push(open));
    lines
}

/// Cuts a line into its fields.
pub fn split_fields(line: &Vec<char>) -> (r: Vec<String>)
    ensures
        fields_view(r@) == spec_fields(line@),
{
    let mut fields: Vec<String> = Vec::new();
    let mut field: String = String::new();
    let mut inside: bool = false;
    let mut i: usize = 0;
    assert(fields_view(fields@) =~= spec_fields(line@.take(0)));
    while i < line.len()
        invariant
            i <= line.len(),
            inside <==> i > 0 && !is_blank(line@[i - 1]),
            inside ==> spec_fields(line@.take(i as int)) == fields_view(fields@).push(field@),
            !inside ==> spec_fields(line@.take(i as int)) == fields_view(fields@),
            !inside ==> field@.len() == 0,
        decreases line.len() - i,
    {
        let ghost done = fields_view(fields@);
        let ghost open = field@;
        let ch = line[i];
        assert(line@.take(i + 1).drop_last() =~= line@.take(i as int));
        assert(line@.take(i + 1).last() == ch);
        if i > 0 {
            assert(line@.take(i + 1)[i - 1] == line@[i - 1]);
        }
        if blank(ch) {
            if inside {
                fields.push(field);
                field = String::new();
                assert(fields_view(fields@) =~= done.push(open));
            }
            inside = false;
        } else {
            field.push(ch);
            if inside {
                assert(done.push(field@) =~= done.push(open).update(
                    done.len() as int,
                    open.push(ch),
                ));
            } else {
                assert(field@ =~= seq![ch]);
            }
            inside = true;
        }
        i = i + 1;
    }
    assert(line@.take(i as int) =~= line@);
    if inside {
        let ghost done = fields_view(fields@);
        let ghost open = field@;
        fields.push(field);
        assert(fields_view(fields@) =~= done.push(open));
    }
    fields
}

fn starts_a_comment(field: &String) -> (r: bool)
    ensures
        r == is_comment(field@),
{
    let text = field.as_str();
    if text.unicode_len() > 0 {
        text.get_char(0) == '#'
    } else {
        false
    }
}

fn separates(field: &String) -> (r: bool)
    ensures
        r == is_separator(field@),
{
    let text = field.as_str();
    if text.unicode_len() == 1 {
        text.get_char(0) == '-'
    } else {
        false
    }
}

/// Reads a mount identifier.
pub fn identifier(field: &str) -> (r: Option<i32>)
    ensures
        r is Some <==> spec_identifier(field@) is Some,
        r is Some ==> r->Some_0 as int == spec_identifier(field@)->Some_0,
{
    let digits = to_chars(field);
    if digits.len() == 0 {
        return None;
    }
    let mut value: i64 = 0;
    let mut i: usize = 0;
    while i < digits.len()
        invariant
            i <= digits.len(),
            digits@ == field@,
            0 <= value <= i32::MAX,
            i == 0 ==> value == 0,
            i > 0 ==> spec_decimal(digits@.take(i as int)) == Some(value as int),
        decreases digits.len() - i,
    {
        let ch = digits[i];
        assert(digits@.take(i + 1).drop_last() =~= digits@.take(i as int));
        assert(digits@.take(i + 1).last() == ch);
        if !(ch >= '0' && ch <= '9') {
            proof {
                lemma_decimal_needs_digits(digits@, i as int);
            }
            return None;
        }
        let digit: i64 = (ch as u32 - '0' as u32) as i64;
        assert(digit as int == ch as int - '0' as int);
        assert(0 <= digit <= 9);
        let ghost before = value as int;
        value = value * 10 + digit;
        proof {
            let head = digits@.take(i + 1);
            assert(is_digit(head.last()));
            assert(head.len() == i + 1);
            if i > 0 {
                assert(spec_decimal(head.drop_last()) == Some(before));
            }
            assert(spec_decimal(head) == Some(value as int));
        }
        if value > i32::MAX as i64 {
            proof {
                lemma_decimal_grows(digits@, i + 1);
            }
            return None;
        }
        i = i + 1;
    }
    assert(digits@.take(i as int) =~= digits@);
    Some(value as i32)
}

/// A text with a character that is no digit stands for no number.
proof fn lemma_decimal_needs_digits(text: Seq<char>, at: int)
    requires
        0 <= at < text.len(),
        !is_digit(text[at]),
    ensures
        spec_decimal(text) is None,
    decreases text.len(),
{
    if at < text.len() - 1 {
        lemma_decimal_needs_digits(text.drop_last(), at);
    }
}

/// The number of a text is no less than that of each of its beginnings.
proof fn lemma_decimal_grows(text: Seq<char>, n: int)
    requires
        0 < n <= text.len(),
        spec_decimal(text.take(n)) is Some,
    ensures
        spec_decimal(text) matches Some(value) ==> value >= spec_decimal(text.take(n))->Some_0,
        spec_decimal(text.take(n))->Some_0 >= 0,
    decreases text.len(),
{
    if n == text.len() {
        assert(text.take(n) =~= text);
        lemma_decimal_is_natural(text);
    } else {
        assert(text.drop_last().take(n) =~= text.take(n));
        lemma_decimal_grows(text.drop_last(), n);
    }
}

proof fn lemma_decimal_is_natural(text: Seq<char>)
    ensures
        spec_decimal(text) matches Some(value) ==> value >= 0,
    decreases text.len(),
{
    if text.len() > 1 {
        lemma_decimal_is_natural(text.drop_last());
    }
}

/// The index of the first lone `-` after the six leading fields.
fn find_separator(fields: &Vec<String>) -> (r: Option<usize>)
    ensures
        r is Some <==> has_separator(fields_view(fields@)),
        r is Some ==> is_first_separator(fields_view(fields@), r->Some_0 as int),
        r is Some ==> r->Some_0 as int == first_separator(fields_view(fields@)),
{
    let mut k: usize = 6;
    while k < fields.len()
        invariant
            6 <= k,
            forall|j: int| 6 <= j < k && j < fields@.len() ==> !is_separator(#[trigger] fields_view(fields@)[j]),
        decreases fields.len() - k,
    {
        if separates(&fields[k]) {
            proof {
                let all = fields_view(fields@);
                let first = first_separator(all);
                assert(is_first_separator(all, k as int));
                assert(is_first_separator(all, first));
                if first < k {
                    assert(!is_separator(all[first]));
                }
                if k < first {
                    assert(!is_separator(all[k as int]));
                }
            }
            return Some(k);
        }
        k = k + 1;
    }
    None
}

/// Makes the row of the fields of one line of a static table, if they make
/// one.
pub fn fstab_row(fields: &Vec<String>) -> (r: Option<FileSystem>)
    ensures
        entry_view(r) == spec_fstab_row(fields_view(fields@)),
{
    if fields.len() < 3 || starts_a_comment(&fields[0]) {
        None
    } else {
        let row = FileSystem::new().unwrap().with_source(fields[0].as_str()).with_target(
            fields[1].as_str(),
        ).with_fstype(fields[2].as_str());
        if fields.len() > 3 {
            Some(row.with_options(fields[3].as_str()))
        } else {
            Some(row)
        }
    }
}

/// Makes the row of the fields of one line of the kernel, if they make
/// one.
pub fn mountinfo_row(fields: &Vec<String>) -> (r: Option<FileSystem>)
    ensures
        entry_view(r) == spec_mountinfo_row(fields_view(fields@)),
{
    if fields.len() < 6 {
        return None;
    }
    let separator = match find_separator(fields) {
        Some(k) => k,
        None => {
            return None;
        },
    };
    let id = match identifier(fields[0].as_str()) {
        Some(id) => id,
        None => {
            return None;
        },
    };
    if separator >= fields.len() - 2 {
        return None;
    }
    Some(
        FileSystem::new().unwrap().with_id(id).with_source(
            fields[separator + 2].as_str(),
        ).with_root(fields[3].as_str()).with_target(fields[4].as_str()).with_fstype(
            fields[separator + 1].as_str(),
        ).with_options(fields[5].as_str()),
    )
}

/// The position of the first `=` of a field.
fn find_equals(field: &Vec<char>) -> (r: Option<usize>)
    ensures
        r is Some <==> has_equals(field@),
        r is Some ==> is_first_equals(field@, r->Some_0 as int),
        r is Some ==> r->Some_0 as int == first_equals(field@),
{
    let mut k: usize = 0;
    while k < field.len()
        invariant
            k <= field.len(),
            forall|j: int| 0 <= j < k ==> field@[j] != '=',
        decreases field.len() - k,
    {
        if field[k] == '=' {
            proof {
                let first = first_equals(field@);
                assert(is_first_equals(field@, k as int));
                assert(is_first_equals(field@, first));
            }
            return Some(k);
        }
        k = k + 1;
    }
    None
}

/// Whether the first `k` characters of a field are those of `name`.
fn begins(field: &Vec<char>, k: usize, name: &Vec<char>) -> (r: bool)
    requires
        k <= field.len(),
    ensures
        r == (field@.subrange(0, k as int) == name@),
{
    if name.len() != k {
        return false;
    }
    let mut i: usize = 0;
    while i < k
        invariant
            i <= k,
            k <= field.len(),
            name.len() == k,
            forall|j: int| 0 <= j < i ==> field@[j] == name@[j],
        decreases k - i,
    {
        if field[i] != name[i] {
            assert(field@.subrange(0, k as int)[i as int] != name@[i as int]);
            return false;
        }
        i = i + 1;
    }
    assert(field@.subrange(0, k as int) =~= name@);
    true
}

/// The characters of a field from `from` on, as a text.
fn text_from_position(field: &Vec<char>, from: usize) -> (r: String)
    requires
        from <= field.len(),
    ensures
        r@ == field@.subrange(from as int, field@.len() as int),
{
    let mut text = String::new();
    let mut i: usize = from;
    while i < field.len()
        invariant
            from <= i <= field.len(),
            text@ == field@.subrange(from as int, i as int),
        decreases field.len() - i,
    {
        text.push(field[i]);
        assert(text@ =~= field@.subrange(from as int, i + 1));
        i = i + 1;
    }
    text
}

/// Whether a field gives one of the values that a row holds.
fn assigns(field: &String) -> (r: bool)
    ensures
        r == is_assignment(field@),
{
    let chars = to_chars(field.as_str());
    match find_equals(&chars) {
        Some(k) => begins(&chars, k, &vec!['S', 'R', 'C']) || begins(
            &chars,
            k,
            &vec!['T', 'A', 'R', 'G', 'E', 'T'],
        ) || begins(&chars, k, &vec!['R', 'O', 'O', 'T']) || begins(
            &chars,
            k,
            &vec!['B', 'I', 'N', 'D', 'S', 'R', 'C'],
        ) || begins(&chars, k, &vec!['O', 'P', 'T', 'S']) || begins(&chars, k, &vec!['I', 'D']),
        None => false,
    }
}

/// Reads one field into a row.
fn assign(entry: FileSystem, field: &String) -> (r: FileSystem)
    ensures
        r@ == spec_assign(entry@, field@),
{
    let chars = to_chars(field.as_str());
    let k = match find_equals(&chars) {
        Some(k) => k,
        None => {
            return entry;
        },
    };
    let value = text_from_position(&chars, k + 1);
    if begins(&chars, k, &vec!['S', 'R', 'C']) {
        entry.with_source(value.as_str())
    } else if begins(&chars, k, &vec!['T', 'A', 'R', 'G', 'E', 'T']) {
        entry.with_target(value.as_str())
    } else if begins(&chars, k, &vec!['R', 'O', 'O', 'T']) {
        entry.with_root(value.as_str())
    } else if begins(&chars, k, &vec!['B', 'I', 'N', 'D', 'S', 'R', 'C']) {
        entry.with_bindsrc(value.as_str())
    } else if begins(&chars, k, &vec!['O', 'P', 'T', 'S']) {
        entry.with_options(value.as_str())
    } else if begins(&chars, k, &vec!['I', 'D']) {
        match identifier(value.as_str()) {
            Some(id) => entry.with_id(id),
            None => entry,
        }
    } else {
        entry
    }
}

/// Makes the row of the fields of one line of userspace, if they make one.
pub fn utab_row(fields: &Vec<String>) -> (r: Option<FileSystem>)
    ensures
        entry_view(r) == spec_utab_row(fields_view(fields@)),
{
    if fields.len() == 0 || !assigns(&fields[0]) {
        return None;
    }
    let mut row = FileSystem::default();
    let mut i: usize = 0;
    assert(fields_view(fields@).take(0) =~= Seq::<Seq<char>>::empty());
    while i < fields.len()
        invariant
            i <= fields.len(),
            row@ == spec_assigned(fields_view(fields@).take(i as int)),
        decreases fields.len() - i,
    {
        let ghost all = fields_view(fields@);
        assert(all.take(i + 1).drop_last() =~= all.take(i as int));
        assert(all.take(i + 1).last() == fields@[i as int]@);
        row = assign(row, &fields[i]);
        i = i + 1;
    }
    assert(fields_view(fields@).take(i as int) =~= fields_view(fields@));
    Some(row)
}

/// Makes the row of the fields of one line in a format, if they make one.
pub fn row_of(fields: &Vec<String>, format: TableFormat) -> (r: Option<FileSystem>)
    ensures
        entry_view(r) == spec_row(fields_view(fields@), format),
{
    match format {
        TableFormat::Fstab => fstab_row(fields),
        TableFormat::MountInfo => mountinfo_row(fields),
        TableFormat::Utab => utab_row(fields),
        TableFormat::Guess => match mountinfo_row(fields) {
            Some(row) => Some(row),
            None => match utab_row(fields) {
                Some(row) => Some(row),
                None => fstab_row(fields),
            },
        },
    }
}

/// Reads a table from its text: rows of fields that blanks separate, one
/// row to a line. Lines that make no row in the format are passed over.
pub fn parse(text: &str, format: TableFormat) -> (r: Table)
    ensures
        r@ == spec_parse(text@, format),
{
    let chars = to_chars(text);
    let lines = split_lines(&chars);
    let mut entries: Vec<FileSystem> = Vec::new();
    let mut i: usize = 0;
    assert(entries_view(entries@) =~= spec_rows(lines_view(lines@).take(0), format));
    while i < lines.len()
        invariant
            i <= lines.len(),
            entries_view(entries@) == spec_rows(lines_view(lines@).take(i as int), format),
        decreases lines.len() - i,
    {
        let ghost done = entries_view(entries@);
        let ghost all = lines_view(lines@);
        assert(all.take(i + 1).drop_last() =~= all.take(i as int));
        assert(all.take(i + 1).last() == lines@[i as int]@);
        let fields = split_fields(&lines[i]);
        match row_of(&fields, format) {
            Some(row) => {
                entries.push(row);
                assert(entries_view(entries@) =~= done.push(row@));
            },
            None => {},
        }
        i = i + 1;
    }
    assert(lines_view(lines@).take(i as int) =~= lines_view(lines@));
    Table::from_entries(entries)
}

impl Table {
    /// Reads the table in the text of a file of whatever format: each line
    /// is taken in the form that it has.
    pub fn read(text: &str) -> (r: Result<Table, AllocationError<Table>>)
        ensures
            r is Ok,
            r->Ok_0@ == spec_parse(text@, TableFormat::Guess),
    {
        Ok(parse(text, TableFormat::Guess))
    }

    /// Reads the table of what is mounted, as the kernel writes it.
    pub fn parse_mtab(text: &str) -> (r: Result<Table, AllocationError<Table>>)
        ensures
            r is Ok,
            r->Ok_0@ == spec_parse(text@, TableFormat::MountInfo),
    {
        Ok(parse(text, TableFormat::MountInfo))
    }

    /// Reads a static table.
    pub fn parse_fstab(text: &str) -> (r: Result<Table, AllocationError<Table>>)
        ensures
            r is Ok,
            r->Ok_0@ == spec_parse(text@, TableFormat::Fstab),
    {
        Ok(parse(text, TableFormat::Fstab))
    }
}

} // verus!
