//! The rules behind the printed reports: output formats, the order of the
//! file tables, shortened paths and language badges.
use crate::counter::{FileResult, LineCounts};
use crate::scanner::{LanguageSummary, ScanSummary};
use crate::ranking::{is_stable_descending, stable_descending_order};
use crate::outside::string_from_chars;
use crate::text::{chars_equal, chars_of, string_views};
use vstd::prelude::*;
use vstd::utf8::encode_utf8;

verus! {

/// How results are printed.
#[derive(Debug, Clone, Copy, PartialEq, Eq, Structural)]
pub enum OutputFormat {
    Table,
    Json,
    Csv,
}

/// The format named on the command line: `json` and `csv` select those;
/// any other name selects the table.
pub open spec fn format_named(name: Seq<char>) -> OutputFormat {
    if name == "json"@ {
        OutputFormat::Json
    } else if name == "csv"@ {
        OutputFormat::Csv
    } else {
        OutputFormat::Table
    }
}

/// The format named on the command line.
pub fn output_format(name: &str) -> (r: OutputFormat)
    ensures
        r == format_named(name@),
{
    let n = chars_of(name);
    if chars_equal(&n, &chars_of("json")) {
        OutputFormat::Json
    } else if chars_equal(&n, &chars_of("csv")) {
        OutputFormat::Csv
    } else {
        OutputFormat::Table
    }
}

/// The line totals of the files.
pub open spec fn file_totals(rs: Seq<FileResult>) -> Seq<usize> {
    rs.map_values(|r: FileResult| r.counts.spec_total() as usize)
}

/// The positions of `results`, the file with most lines first; files with
/// as many lines keep their order. The file tables print in this order, and
/// the top-N table prints its first N.
pub fn files_by_size(results: &[FileResult]) -> (r: Vec<usize>)
    requires
        forall|i: int| 0 <= i < results@.len() ==> #[trigger] results@[i].counts.spec_total() <= usize::MAX,
    ensures
        is_stable_descending(file_totals(results@), r@),
{
    let mut keys: Vec<usize> = Vec::new();
    let mut i: usize = 0;
    while i < results.len()
        invariant
            i <= results@.len(),
            forall|m: int| 0 <= m < results@.len() ==> #[trigger] results@[m].counts.spec_total() <= usize::MAX,
            keys@ == file_totals(results@).take(i as int),
        decreases results@.len() - i,
    {
        keys.push(results[i].counts.total());
        assert(keys@ =~= file_totals(results@).take(i + 1));
        i = i + 1;
    }
    assert(keys@ =~= file_totals(results@));
    stable_descending_order(&keys)
}

/// The encoding of two character sequences one after the other.
pub proof fn lemma_encode_utf8_concat(a: Seq<char>, b: Seq<char>)
    ensures
        encode_utf8(a + b) == encode_utf8(a) + encode_utf8(b),
    decreases a.len(),
{
    if a.len() > 0 {
        assert((a + b).drop_first() =~= a.drop_first() + b);
        assert((a + b)[0] == a[0]);
        lemma_encode_utf8_concat(a.drop_first(), b);
        assert(encode_utf8(a + b) =~= encode_utf8(a) + encode_utf8(b));
    } else {
        assert(a + b =~= b);
        assert(encode_utf8(a) =~= Seq::<u8>::empty());
        assert(encode_utf8(a) + encode_utf8(b) =~= encode_utf8(b));
    }
}

/// Where a path longer than `max_len` bytes is cut: what follows is kept.
pub open spec fn cut_point(path: &str, max_len: usize) -> int {
    encode_utf8(path@).len() - (max_len - 3)
}

/// Whether `truncate_path(path, max_len)` can cut `path`: it fits, or
/// `max_len` leaves room for the dots and the cut falls between characters.
pub fn can_truncate(path: &str, max_len: usize) -> (r: bool)
    ensures
        r == (encode_utf8(path@).len() > max_len ==> max_len >= 3 && vstd::utf8::is_char_boundary(
            encode_utf8(path@),
            cut_point(path, max_len),
        )),
{
    let len = path.as_bytes().len();
    if len <= max_len {
        return true;
    }
    if max_len < 3 {
        return false;
    }
    path.is_char_boundary(len - (max_len - 3))
}

/// `path` as it fits in `max_len` bytes: unchanged where it fits; otherwise
/// `...` followed by its last `max_len - 3` bytes, which must start at a
/// character boundary.
pub fn truncate_path(path: &str, max_len: usize) -> (r: String)
    requires
        encode_utf8(path@).len() > max_len ==> max_len >= 3 && vstd::utf8::is_char_boundary(
            encode_utf8(path@),
            cut_point(path, max_len),
        ),
    ensures
        encode_utf8(path@).len() <= max_len ==> r@ == path@,
        encode_utf8(path@).len() > max_len ==> encode_utf8(r@) == encode_utf8("..."@)
            + encode_utf8(path@).skip(cut_point(path, max_len)),
        encode_utf8(path@).len() > max_len ==> encode_utf8(r@).len() == max_len,
        encode_utf8(path@).len() > max_len ==> r@.take(3) == "..."@,
{
    let len = path.as_bytes().len();
    if len <= max_len {
        return path.to_owned();
    }
    let cut = len - (max_len - 3);
    let (_, tail) = path.split_at(cut);
    let mut r = "...".to_owned();
    r.append(tail);
    proof {
        reveal_strlit("...");
        let dots = "..."@;
        vstd::utf8::is_ascii_chars_encode_utf8(dots);
        assert(encode_utf8(dots).len() == 3);
        lemma_encode_utf8_concat(dots, tail@);
        assert(r@ == dots + tail@);
        assert(r@.take(3) =~= dots);
        assert(encode_utf8(tail@) == encode_utf8(tail@));
    }
    r
}

/// `a - b`, or 0 where `b` is larger.
pub open spec fn saturating_diff(a: int, b: int) -> int {
    if a >= b {
        a - b
    } else {
        0
    }
}

/// The rule of `=` around a centred title in a terminal `width` columns
/// wide: the rule spans the width less a margin of 4, and the title, `title_len`
/// bytes long, stands in its middle (the left part gets the smaller half).
pub fn header_padding(width: usize, title_len: usize) -> (r: (usize, usize))
    ensures
        r.0 == saturating_diff(saturating_diff(width as int, 4), title_len as int) / 2,
        r.1 == saturating_diff(saturating_diff(width as int, 4), title_len + r.0),
        title_len <= saturating_diff(width as int, 4) ==> r.0 + title_len + r.1 == saturating_diff(
            width as int,
            4,
        ),
{
    let line_len = width.saturating_sub(4);
    let pad_left = line_len.saturating_sub(title_len) / 2;
    let pad_right = line_len.saturating_sub(title_len + pad_left);
    (pad_left, pad_right)
}

/// The width of the path column of the top-files table: the terminal width
/// less the number columns and borders (43), at least 20. The terminal must
/// be at least 43 columns wide.
pub fn top_files_path_width(width: usize) -> (r: usize)
    requires
        width >= 43,
    ensures
        r == (if width - 43 > 20 {
            width - 43
        } else {
            20
        }),
{
    let w = width - 4 - (8 * 4 + 3) - 4;
    if w > 20 {
        w
    } else {
        20
    }
}

/// The width of the path column of the per-file table: the terminal width
/// less the badge, language and number columns and borders (60), at least
/// 16. The terminal must be at least 60 columns wide.
pub fn per_file_path_width(width: usize) -> (r: usize)
    requires
        width >= 60,
    ensures
        r == (if width - 60 > 16 {
            width - 60
        } else {
            16
        }),
{
    let w = width - 4 - 4 - 12 - (8 * 4 + 3) - 5;
    if w > 16 {
        w
    } else {
        16
    }
}

/// The width of the bar column of the language table: what the terminal
/// width leaves after the other columns (68), at least 6.
pub fn language_bar_width(width: usize) -> (r: usize)
    ensures
        r == (if saturating_diff(width as int, 68) > 6 {
            saturating_diff(width as int, 68)
        } else {
            6
        }),
{
    let w = width.saturating_sub(4 + 4 + 14 + 8 * 5 + 6);
    if w > 6 {
        w
    } else {
        6
    }
}

/// The width of the code/comment/blank bar of the summary: the terminal
/// width less 30, at least 10.
pub fn overview_bar_width(width: usize) -> (r: usize)
    ensures
        r == (if saturating_diff(width as int, 30) > 10 {
            saturating_diff(width as int, 30)
        } else {
            10
        }),
{
    let w = width.saturating_sub(30);
    if w > 10 {
        w
    } else {
        10
    }
}

/// The character of the decimal digit `d`.
pub open spec fn digit_char(d: nat) -> char {
    (d + 48) as char
}

/// The decimal digits of `n`, most significant first, without leading zeros.
pub open spec fn decimal_of(n: nat) -> Seq<char>
    decreases n,
{
    if n < 10 {
        seq![digit_char(n)]
    } else {
        decimal_of(n / 10) + seq![digit_char(n % 10)]
    }
}

/// The character of the decimal digit `d`.
fn digit(d: u128) -> (r: char)
    requires
        d < 10,
    ensures
        r == digit_char(d as nat),
{
    let b: u8 = (d as u8) + 48;
    b as char
}

/// Appends the decimal digits of `n` to `out`.
fn push_decimal(out: &mut Vec<char>, n: u128)
    ensures
        final(out)@ == old(out)@ + decimal_of(n as nat),
    decreases n,
{
    if n >= 10 {
        push_decimal(out, n / 10);
    }
    out.push(digit(n % 10));
    assert(out@ =~= old(out)@ + decimal_of(n as nat));
}

/// `n` written in decimal.
pub fn decimal(n: u128) -> (r: String)
    ensures
        r@ == decimal_of(n as nat),
{
    let mut digits: Vec<char> = Vec::new();
    push_decimal(&mut digits, n);
    assert(digits@ =~= decimal_of(n as nat));
    string_from_chars(&digits)
}

/// The numbers of a CSV record: total, code, comment and blank lines.
pub open spec fn count_fields(c: LineCounts) -> Seq<Seq<char>> {
    seq![
        decimal_of((c.code + c.comments + c.blank) as nat),
        decimal_of(c.code as nat),
        decimal_of(c.comments as nat),
        decimal_of(c.blank as nat),
    ]
}

/// The header of the per-language CSV table.
pub open spec fn language_csv_header() -> Seq<Seq<char>> {
    seq!["Language"@, "Files"@, "Total"@, "Code"@, "Comment"@, "Blank"@]
}

/// The CSV record of one language: its name, its files, then its counts.
pub open spec fn language_csv_record(row: LanguageSummary) -> Seq<Seq<char>> {
    seq![row.language@, decimal_of(row.files as nat)] + count_fields(row.counts)
}

/// The header of the per-file CSV table.
pub open spec fn file_csv_header() -> Seq<Seq<char>> {
    seq!["File"@, "Language"@, "Extension"@, "Total"@, "Code"@, "Comment"@, "Blank"@]
}

/// The CSV record of one file: its path, language and extension, then its
/// counts.
pub open spec fn file_csv_record(file: FileResult) -> Seq<Seq<char>> {
    seq![file.path@, file.language@, file.extension@] + count_fields(file.counts)
}

/// The views of the records of a table.
pub open spec fn record_views(rows: Seq<Vec<String>>) -> Seq<Seq<Seq<char>>> {
    rows.map_values(|r: Vec<String>| string_views(r@))
}

/// Appends the count fields of `c` to `out`.
fn push_count_fields(out: &mut Vec<String>, c: &LineCounts)
    ensures
        string_views(final(out)@) == string_views(old(out)@) + count_fields(*c),
{
    let total: u128 = (c.code as u128) + (c.comments as u128) + (c.blank as u128);
    out.push(decimal(total));
    out.push(decimal(c.code as u128));
    out.push(decimal(c.comments as u128));
    out.push(decimal(c.blank as u128));
    assert(string_views(final(out)@) =~= string_views(old(out)@) + count_fields(*c));
}

/// The strings of `items`, in order.
fn owned_strings(items: &[&str]) -> (r: Vec<String>)
    ensures
        string_views(r@) == items@.map_values(|s: &str| s@),
{
    let mut r: Vec<String> = Vec::new();
    let mut i: usize = 0;
    while i < items.len()
        invariant
            i <= items@.len(),
            string_views(r@) == items@.take(i as int).map_values(|s: &str| s@),
        decreases items@.len() - i,
    {
        let ghost before = r@;
        let item = items[i].to_owned();
        r.push(item);
        assert(string_views(r@) =~= string_views(before).push(items@[i as int]@));
        assert(items@.take(i + 1).map_values(|s: &str| s@) =~= items@.take(i as int).map_values(
            |s: &str| s@,
        ).push(items@[i as int]@));
        i = i + 1;
    }
    assert(items@.take(items@.len() as int) =~= items@);
    r
}

/// The per-language CSV table of a summary: the header, then one record per
/// language row, in the order of the summary.
pub fn language_csv_records(summary: &ScanSummary) -> (r: Vec<Vec<String>>)
    ensures
        record_views(r@) == seq![language_csv_header()] + summary.by_language@.map_values(
            |row: LanguageSummary| language_csv_record(row),
        ),
{
    let header = owned_strings(&["Language", "Files", "Total", "Code", "Comment", "Blank"]);
    proof {
        reveal_strlit("Language");
        reveal_strlit("Files");
        reveal_strlit("Total");
        reveal_strlit("Code");
        reveal_strlit("Comment");
        reveal_strlit("Blank");
        assert(string_views(header@) =~= language_csv_header());
    }
    let mut r: Vec<Vec<String>> = Vec::new();
    r.push(header);
    let ghost rows = summary.by_language@.map_values(|row: LanguageSummary| language_csv_record(row));
    let mut i: usize = 0;
    assert(record_views(r@) =~= seq![language_csv_header()] + rows.take(0));
    while i < summary.by_language.len()
        invariant
            i <= summary.by_language@.len(),
            rows == summary.by_language@.map_values(|row: LanguageSummary| language_csv_record(row)),
            record_views(r@) == seq![language_csv_header()] + rows.take(i as int),
        decreases summary.by_language@.len() - i,
    {
        let row = &summary.by_language[i];
        let mut rec: Vec<String> = Vec::new();
        rec.push(row.language.clone());
        rec.push(decimal(row.files as u128));
        push_count_fields(&mut rec, &row.counts);
        assert(string_views(rec@) =~= language_csv_record(*row));
        let ghost before = r@;
        let ghost rec_view = string_views(rec@);
        r.push(rec);
        assert(record_views(r@) =~= record_views(before).push(rec_view));
        assert(rows.take(i + 1) =~= rows.take(i as int).push(rows[i as int]));
        assert(record_views(r@) =~= seq![language_csv_header()] + rows.take(i + 1));
        i = i + 1;
    }
    assert(rows.take(rows.len() as int) =~= rows);
    r
}

/// The per-file CSV table: the header, then one record per file, in the
/// order given.
pub fn file_csv_records(results: &[FileResult]) -> (r: Vec<Vec<String>>)
    ensures
        record_views(r@) == seq![file_csv_header()] + results@.map_values(
            |f: FileResult| file_csv_record(f),
        ),
{
    let header = owned_strings(
        &["File", "Language", "Extension", "Total", "Code", "Comment", "Blank"],
    );
    proof {
        reveal_strlit("File");
        reveal_strlit("Language");
        reveal_strlit("Extension");
        reveal_strlit("Total");
        reveal_strlit("Code");
        reveal_strlit("Comment");
        reveal_strlit("Blank");
        assert(string_views(header@) =~= file_csv_header());
    }
    let mut r: Vec<Vec<String>> = Vec::new();
    r.push(header);
    let ghost rows = results@.map_values(|f: FileResult| file_csv_record(f));
    let mut i: usize = 0;
    assert(record_views(r@) =~= seq![file_csv_header()] + rows.take(0));
    while i < results.len()
        invariant
            i <= results@.len(),
            rows == results@.map_values(|f: FileResult| file_csv_record(f)),
            record_views(r@) == seq![file_csv_header()] + rows.take(i as int),
        decreases results@.len() - i,
    {
        let f = &results[i];
        let mut rec: Vec<String> = Vec::new();
        rec.push(f.path.clone());
        rec.push(f.language.clone());
        rec.push(f.extension.clone());
        push_count_fields(&mut rec, &f.counts);
        assert(string_views(rec@) =~= file_csv_record(*f));
        let ghost before = r@;
        let ghost rec_view = string_views(rec@);
        r.push(rec);
        assert(record_views(r@) =~= record_views(before).push(rec_view));
        assert(rows.take(i + 1) =~= rows.take(i as int).push(rows[i as int]));
        assert(record_views(r@) =~= seq![file_csv_header()] + rows.take(i + 1));
        i = i + 1;
    }
    assert(rows.take(rows.len() as int) =~= rows);
    r
}

/// The badge shown before a language's name.
pub open spec fn flag_of(language: Seq<char>) -> Seq<char> {
    if language == "Rust"@ {
        "\u{1f980} "@
    } else if language == "Python"@ {
        "\u{1f40d} "@
    } else if language == "JavaScript"@ {
        "\u{26a1} "@
    } else if language == "TypeScript"@ {
        "\u{1f535} "@
    } else if language == "TSX"@ {
        "\u{1f535} "@
    } else if language == "JSX"@ {
        "\u{26a1} "@
    } else if language == "Java"@ {
        "\u{2615} "@
    } else if language == "Go"@ {
        "\u{1f439} "@
    } else if language == "C"@ {
        "\u{2699}\u{fe0f} "@
    } else if language == "C++"@ {
        "\u{2699}\u{fe0f} "@
    } else if language == "C#"@ {
        "\u{1f3b5} "@
    } else if language == "Ruby"@ {
        "\u{1f48e} "@
    } else if language == "PHP"@ {
        "\u{1f418} "@
    } else if language == "Swift"@ {
        "\u{1f426} "@
    } else if language == "Kotlin"@ {
        "\u{1f4a0} "@
    } else if language == "Dart"@ {
        "\u{1f3af} "@
    } else if language == "Elixir"@ {
        "\u{1f52e} "@
    } else if language == "Haskell"@ {
        "\u{03bb} "@
    } else if language == "Scala"@ {
        "\u{1f525} "@
    } else if language == "Lua"@ {
        "\u{1f319} "@
    } else if language == "Shell"@ {
        "\u{1f41a} "@
    } else if language == "HTML"@ {
        "\u{1f310} "@
    } else if language == "CSS"@ {
        "\u{1f3a8} "@
    } else if language == "SCSS"@ {
        "\u{1f3a8} "@
    } else if language == "Vue"@ {
        "\u{1f343} "@
    } else if language == "Svelte"@ {
        "\u{1f525} "@
    } else if language == "YAML"@ {
        "\u{1f4cb} "@
    } else if language == "TOML"@ {
        "\u{1f4cb} "@
    } else if language == "JSON"@ {
        "\u{1f4e6} "@
    } else if language == "Markdown"@ {
        "\u{1f4dd} "@
    } else if language == "SQL"@ {
        "\u{1f5c4}\u{fe0f} "@
    } else if language == "XML"@ {
        "\u{1f4c4} "@
    } else if language == "Zig"@ {
        "\u{26a1} "@
    } else {
        "\u{1f4c1} "@
    }
}

/// The badge shown before a language's name.
pub fn language_flag(language: &str) -> (r: &'static str)
    ensures
        r@ == flag_of(language@),
{
    let l = chars_of(language);
    if chars_equal(&l, &chars_of("Rust")) {
        return "\u{1f980} ";
    }
    if chars_equal(&l, &chars_of("Python")) {
        return "\u{1f40d} ";
    }
    if chars_equal(&l, &chars_of("JavaScript")) {
        return "\u{26a1} ";
    }
    if chars_equal(&l, &chars_of("TypeScript")) {
        return "\u{1f535} ";
    }
    if chars_equal(&l, &chars_of("TSX")) {
        return "\u{1f535} ";
    }
    if chars_equal(&l, &chars_of("JSX")) {
        return "\u{26a1} ";
    }
    if chars_equal(&l, &chars_of("Java")) {
        return "\u{2615} ";
    }
    if chars_equal(&l, &chars_of("Go")) {
        return "\u{1f439} ";
    }
    if chars_equal(&l, &chars_of("C")) {
        return "\u{2699}\u{fe0f} ";
    }
    if chars_equal(&l, &chars_of("C++")) {
        return "\u{2699}\u{fe0f} ";
    }
    if chars_equal(&l, &chars_of("C#")) {
        return "\u{1f3b5} ";
    }
    if chars_equal(&l, &chars_of("Ruby")) {
        return "\u{1f48e} ";
    }
    if chars_equal(&l, &chars_of("PHP")) {
        return "\u{1f418} ";
    }
    if chars_equal(&l, &chars_of("Swift")) {
        return "\u{1f426} ";
    }
    if chars_equal(&l, &chars_of("Kotlin")) {
        return "\u{1f4a0} ";
    }
    if chars_equal(&l, &chars_of("Dart")) {
        return "\u{1f3af} ";
    }
    if chars_equal(&l, &chars_of("Elixir")) {
        return "\u{1f52e} ";
    }
    if chars_equal(&l, &chars_of("Haskell")) {
        return "\u{03bb} ";
    }
    if chars_equal(&l, &chars_of("Scala")) {
        return "\u{1f525} ";
    }
    if chars_equal(&l, &chars_of("Lua")) {
        return "\u{1f319} ";
    }
    if chars_equal(&l, &chars_of("Shell")) {
        return "\u{1f41a} ";
    }
    if chars_equal(&l, &chars_of("HTML")) {
        return "\u{1f310} ";
    }
    if chars_equal(&l, &chars_of("CSS")) {
        return "\u{1f3a8} ";
    }
    if chars_equal(&l, &chars_of("SCSS")) {
        return "\u{1f3a8} ";
    }
    if chars_equal(&l, &chars_of("Vue")) {
        return "\u{1f343} ";
    }
    if chars_equal(&l, &chars_of("Svelte")) {
        return "\u{1f525} ";
    }
    if chars_equal(&l, &chars_of("YAML")) {
        return "\u{1f4cb} ";
    }
    if chars_equal(&l, &chars_of("TOML")) {
        return "\u{1f4cb} ";
    }
    if chars_equal(&l, &chars_of("JSON")) {
        return "\u{1f4e6} ";
    }
    if chars_equal(&l, &chars_of("Markdown")) {
        return "\u{1f4dd} ";
    }
    if chars_equal(&l, &chars_of("SQL")) {
        return "\u{1f5c4}\u{fe0f} ";
    }
    if chars_equal(&l, &chars_of("XML")) {
        return "\u{1f4c4} ";
    }
    if chars_equal(&l, &chars_of("Zig")) {
        return "\u{26a1} ";
    }
    "\u{1f4c1} "
}

} // verus!
