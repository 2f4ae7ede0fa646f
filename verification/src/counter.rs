//! Counting code, comment and blank lines of a text.
use crate::lang::{opt_lang_ref_view, LangConfig, LangSpec};
use crate::text::{
    chars_equal, chars_of, contains, ends_with, starts_with, trim, trim_end, trim_end_window,
    trim_window, window_contains, window_ends_with, window_starts_with,
};
use vstd::prelude::*;

verus! {

/// Numbers of code, comment and blank lines.
#[derive(Debug, Clone, Copy)]
pub struct LineCounts {
    pub code: usize,
    pub comments: usize,
    pub blank: usize,
}

/// The result of counting one file.
#[derive(Debug, Clone)]
pub struct FileResult {
    pub path: String,
    pub language: String,
    pub extension: String,
    pub counts: LineCounts,
}

impl LineCounts {
    /// All lines: code, comment and blank.
    pub open spec fn spec_total(self) -> int {
        self.code + self.comments + self.blank
    }

    /// No line counted.
    pub fn new() -> (r: LineCounts)
        ensures
            r.code == 0 && r.comments == 0 && r.blank == 0,
    {
        LineCounts { code: 0, comments: 0, blank: 0 }
    }

    /// All lines: code, comment and blank.
    pub fn total(&self) -> (r: usize)
        requires
            self.spec_total() <= usize::MAX,
        ensures
            r == self.spec_total(),
    {
        self.code + self.comments + self.blank
    }

    /// Adds the counts of `other` to these, kind by kind.
    pub fn merge(&mut self, other: &LineCounts)
        requires
            old(self).code + other.code <= usize::MAX,
            old(self).comments + other.comments <= usize::MAX,
            old(self).blank + other.blank <= usize::MAX,
        ensures
            final(self).code == old(self).code + other.code,
            final(self).comments == old(self).comments + other.comments,
            final(self).blank == old(self).blank + other.blank,
    {
        self.code = self.code + other.code;
        self.comments = self.comments + other.comments;
        self.blank = self.blank + other.blank;
    }
}

impl Default for LineCounts {
    fn default() -> (r: LineCounts)
        ensures
            r.code == 0 && r.comments == 0 && r.blank == 0,
    {
        LineCounts::new()
    }
}

/// How a language marks comments.
#[verifier::ext_equal]
pub struct CommentSyntax {
    pub line_comments: Seq<Seq<char>>,
    pub block_start: Option<Seq<char>>,
    pub block_end: Option<Seq<char>>,
}

/// The comment markers of a language.
pub open spec fn comment_syntax(l: LangSpec) -> CommentSyntax {
    CommentSyntax {
        line_comments: l.line_comments,
        block_start: l.block_comment_start,
        block_end: l.block_comment_end,
    }
}

/// The comment markers of an optional language.
pub open spec fn opt_comment_syntax(l: Option<LangSpec>) -> Option<CommentSyntax> {
    match l {
        Some(x) => Some(comment_syntax(x)),
        None => None,
    }
}

/// The pieces of `t` between newline characters: one more piece than there
/// are newlines.
pub open spec fn segments(t: Seq<char>) -> Seq<Seq<char>>
    decreases t.len(),
{
    if t.len() == 0 {
        seq![Seq::<char>::empty()]
    } else if t.last() == '\n' {
        segments(t.drop_last()).push(Seq::<char>::empty())
    } else {
        let s = segments(t.drop_last());
        s.update(s.len() - 1, s.last().push(t.last()))
    }
}

/// The lines of `t`, as `BufRead::lines` yields them: the pieces between
/// newlines, where a last piece that is empty (the text is empty or ends with
/// a newline) is no line. A carriage return before a newline stays in its
/// line here; trimming removes it before a line is classified.
pub open spec fn lines_of(t: Seq<char>) -> Seq<Seq<char>> {
    let s = segments(t);
    if s.last().len() == 0 {
        s.drop_last()
    } else {
        s
    }
}

/// The running state of a count: the counts so far and whether a block
/// comment is open.
pub struct Tally {
    pub code: nat,
    pub comments: nat,
    pub blank: nat,
    pub in_block: bool,
}

/// Nothing counted, no block comment open.
pub open spec fn empty_tally() -> Tally {
    Tally { code: 0, comments: 0, blank: 0, in_block: false }
}

/// One more code line.
pub open spec fn add_code(t: Tally) -> Tally {
    Tally { code: t.code + 1, comments: t.comments, blank: t.blank, in_block: t.in_block }
}

/// One more blank line.
pub open spec fn add_blank(t: Tally) -> Tally {
    Tally { code: t.code, comments: t.comments, blank: t.blank + 1, in_block: t.in_block }
}

/// One more comment line, after which a block comment is open or not.
pub open spec fn add_comment(t: Tally, in_block: bool) -> Tally {
    Tally { code: t.code, comments: t.comments + 1, blank: t.blank, in_block }
}

/// The trimmed line `tr` starts with one of the line-comment prefixes.
pub open spec fn is_line_comment(syn: CommentSyntax, tr: Seq<char>) -> bool {
    exists|k: int| 0 <= k < syn.line_comments.len() && starts_with(tr, #[trigger] syn.line_comments[k])
}

/// Whether a block comment opened by `start` at the beginning of the trimmed
/// line `tr` is still open after the line. Where the closing marker differs
/// from the opening one, it closes if the rest of the line contains the
/// closing marker; where both are the same, if the rest of the line, without
/// trailing white space, ends with it. Without a closing marker it does not
/// stay open.
pub open spec fn block_stays_open(tr: Seq<char>, start: Seq<char>, end: Option<Seq<char>>) -> bool {
    match end {
        None => false,
        Some(e) => {
            let rest = tr.skip(start.len() as int);
            if start != e {
                !contains(rest, e)
            } else {
                !ends_with(trim_end(rest), e)
            }
        },
    }
}

/// How one line changes the count. A line that is empty once trimmed is
/// blank. Without a language every other line is code. Inside an open block
/// comment a line is a comment, and the block closes once a line contains the
/// closing marker. A line that starts with the opening marker is a comment
/// and may leave a block open. A line that starts with a line-comment prefix
/// is a comment. Any other line is code.
pub open spec fn step(syn: Option<CommentSyntax>, t: Tally, line: Seq<char>) -> Tally {
    let tr = trim(line);
    if tr.len() == 0 {
        add_blank(t)
    } else {
        match syn {
            None => add_code(t),
            Some(s) => if t.in_block {
                add_comment(t, !(s.block_end matches Some(e) && contains(tr, e)))
            } else if s.block_start is Some && starts_with(tr, s.block_start->0) {
                add_comment(t, block_stays_open(tr, s.block_start->0, s.block_end))
            } else if is_line_comment(s, tr) {
                add_comment(t, t.in_block)
            } else {
                add_code(t)
            },
        }
    }
}

/// A line that is empty once trimmed adds one blank line, whatever the
/// language and whether a block comment is open, and changes nothing else.
pub proof fn lemma_blank_line_counts_blank(syn: Option<CommentSyntax>, t: Tally, line: Seq<char>)
    requires
        trim(line).len() == 0,
    ensures
        step(syn, t, line) == (Tally {
            code: t.code,
            comments: t.comments,
            blank: t.blank + 1,
            in_block: t.in_block,
        }),
{
}

/// Outside an open block comment, a line that is not blank once trimmed and
/// starts neither with the block-comment opener nor with any line-comment
/// prefix adds exactly one code line, and opens no block comment; this holds
/// whatever markers occur later in the line.
pub proof fn lemma_plain_line_counts_code(s: CommentSyntax, t: Tally, line: Seq<char>)
    requires
        !t.in_block,
        trim(line).len() > 0,
        !(s.block_start matches Some(b) && starts_with(trim(line), b)),
        forall|k: int|
            0 <= k < s.line_comments.len() ==> !starts_with(trim(line), #[trigger] s.line_comments[k]),
    ensures
        step(Some(s), t, line) == (Tally {
            code: t.code + 1,
            comments: t.comments,
            blank: t.blank,
            in_block: false,
        }),
{
}

/// Without a language, every line that is not blank once trimmed is a code
/// line.
pub proof fn lemma_unknown_language_counts_code(t: Tally, line: Seq<char>)
    requires
        trim(line).len() > 0,
    ensures
        step(None, t, line) == (Tally {
            code: t.code + 1,
            comments: t.comments,
            blank: t.blank,
            in_block: t.in_block,
        }),
{
}

/// Outside an open block comment, a line that is not blank once trimmed and
/// starts with a line-comment prefix, but not with the block-comment opener,
/// adds exactly one comment line and opens no block comment.
pub proof fn lemma_line_comment_counts_comment(s: CommentSyntax, t: Tally, line: Seq<char>, k: int)
    requires
        !t.in_block,
        trim(line).len() > 0,
        !(s.block_start matches Some(b) && starts_with(trim(line), b)),
        0 <= k < s.line_comments.len(),
        starts_with(trim(line), s.line_comments[k]),
    ensures
        step(Some(s), t, line) == (Tally {
            code: t.code,
            comments: t.comments + 1,
            blank: t.blank,
            in_block: false,
        }),
{
}

/// A line that is not blank once trimmed and starts with the block-comment
/// opener, or that stands inside an open block comment, adds exactly one
/// comment line.
pub proof fn lemma_block_line_counts_comment(s: CommentSyntax, t: Tally, line: Seq<char>)
    requires
        trim(line).len() > 0,
        t.in_block || (s.block_start matches Some(b) && starts_with(trim(line), b)),
    ensures
        step(Some(s), t, line).code == t.code,
        step(Some(s), t, line).comments == t.comments + 1,
        step(Some(s), t, line).blank == t.blank,
{
}

/// Inside an open block comment, a line that holds the closing marker
/// closes the block, and a line that does not leaves it open.
pub proof fn lemma_block_closes_at_marker(s: CommentSyntax, t: Tally, line: Seq<char>, e: Seq<char>)
    requires
        t.in_block,
        trim(line).len() > 0,
        s.block_end == Some(e),
    ensures
        step(Some(s), t, line).in_block == !contains(trim(line), e),
{
}

/// The count after the given lines, in order.
pub open spec fn tally(syn: Option<CommentSyntax>, lines: Seq<Seq<char>>) -> Tally
    decreases lines.len(),
{
    if lines.len() == 0 {
        empty_tally()
    } else {
        step(syn, tally(syn, lines.drop_last()), lines.last())
    }
}

/// The count of a whole text.
pub open spec fn text_tally(lang: Option<LangSpec>, text: Seq<char>) -> Tally {
    tally(opt_comment_syntax(lang), lines_of(text))
}

/// Every line falls under exactly one of the three counts.
pub proof fn lemma_tally_total(syn: Option<CommentSyntax>, lines: Seq<Seq<char>>)
    ensures
        tally(syn, lines).code + tally(syn, lines).comments + tally(syn, lines).blank
            == lines.len(),
    decreases lines.len(),
{
    if lines.len() > 0 {
        lemma_tally_total(syn, lines.drop_last());
    }
}

/// The number of lines that are empty once trimmed.
pub open spec fn blank_count(lines: Seq<Seq<char>>) -> nat
    decreases lines.len(),
{
    if lines.len() == 0 {
        0
    } else {
        blank_count(lines.drop_last()) + if trim(lines.last()).len() == 0 {
            1nat
        } else {
            0nat
        }
    }
}

/// Blank lines are the lines that are empty once trimmed, whatever the
/// language; without a language no line is a comment.
pub proof fn lemma_tally_blank(syn: Option<CommentSyntax>, lines: Seq<Seq<char>>)
    ensures
        tally(syn, lines).blank == blank_count(lines),
        syn is None ==> tally(syn, lines).comments == 0 && !tally(syn, lines).in_block,
    decreases lines.len(),
{
    if lines.len() > 0 {
        lemma_tally_blank(syn, lines.drop_last());
    }
}

/// A text has at least one piece.
proof fn lemma_segments_nonempty(t: Seq<char>)
    ensures
        segments(t).len() >= 1,
    decreases t.len(),
{
    if t.len() > 0 {
        lemma_segments_nonempty(t.drop_last());
    }
}

/// A final newline adds no line: a text that does not end with a newline
/// has the same lines, and so the same counts, with one added.
pub proof fn lemma_final_newline(syn: Option<CommentSyntax>, t: Seq<char>)
    requires
        t.len() > 0,
        t.last() != '\n',
    ensures
        lines_of(t.push('\n')) == lines_of(t),
        tally(syn, lines_of(t.push('\n'))) == tally(syn, lines_of(t)),
{
    let u = t.push('\n');
    assert(u.drop_last() =~= t);
    assert(u.last() == '\n');
    let s = segments(t);
    lemma_segments_nonempty(t.drop_last());
    let p = segments(t.drop_last());
    assert(s == p.update(p.len() - 1, p.last().push(t.last())));
    assert(s.last() == p.last().push(t.last()));
    assert(s.last().len() > 0);
    assert(segments(u) == s.push(Seq::<char>::empty()));
    assert(segments(u).drop_last() =~= s);
}

/// After a text that is empty or ends with a newline, the pieces of what
/// follows start a new piece.
proof fn lemma_segments_concat(a: Seq<char>, b: Seq<char>)
    requires
        a.len() == 0 || a.last() == '\n',
    ensures
        segments(a + b) == segments(a).drop_last() + segments(b),
        segments(a).last().len() == 0,
    decreases b.len(),
{
    lemma_segments_nonempty(a);
    if a.len() > 0 {
        assert(segments(a) == segments(a.drop_last()).push(Seq::<char>::empty()));
    }
    if b.len() == 0 {
        assert(a + b =~= a);
        assert(segments(a) =~= segments(a).drop_last() + segments(b));
    } else {
        let b0 = b.drop_last();
        lemma_segments_concat(a, b0);
        lemma_segments_nonempty(b0);
        assert((a + b).drop_last() =~= a + b0);
        assert((a + b).last() == b.last());
        let pre = segments(a).drop_last();
        let sb0 = segments(b0);
        if b.last() == '\n' {
            assert(segments(a + b) =~= pre + segments(b));
        } else {
            assert((pre + sb0).last() == sb0.last());
            assert((pre + sb0).update((pre + sb0).len() - 1, sb0.last().push(b.last())) =~= pre
                + sb0.update(sb0.len() - 1, sb0.last().push(b.last())));
        }
    }
}

/// The lines of a text that is empty or ends with a newline, followed by
/// another text, are its lines followed by the lines of the other.
pub proof fn lemma_lines_concat(a: Seq<char>, b: Seq<char>)
    requires
        a.len() == 0 || a.last() == '\n',
    ensures
        lines_of(a + b) == lines_of(a) + lines_of(b),
{
    lemma_segments_concat(a, b);
    lemma_segments_nonempty(b);
    let pre = segments(a).drop_last();
    let sb = segments(b);
    assert((pre + sb).last() == sb.last());
    if sb.last().len() == 0 {
        assert((pre + sb).drop_last() =~= pre + sb.drop_last());
    }
}

/// Counting lines one after the other: after lines that leave no block
/// comment open, the count of further lines adds to it as if counted alone.
proof fn lemma_tally_concat(syn: Option<CommentSyntax>, l1: Seq<Seq<char>>, l2: Seq<Seq<char>>)
    requires
        !tally(syn, l1).in_block,
    ensures
        tally(syn, l1 + l2).code == tally(syn, l1).code + tally(syn, l2).code,
        tally(syn, l1 + l2).comments == tally(syn, l1).comments + tally(syn, l2).comments,
        tally(syn, l1 + l2).blank == tally(syn, l1).blank + tally(syn, l2).blank,
        tally(syn, l1 + l2).in_block == tally(syn, l2).in_block,
    decreases l2.len(),
{
    if l2.len() == 0 {
        assert(l1 + l2 =~= l1);
    } else {
        lemma_tally_concat(syn, l1, l2.drop_last());
        assert((l1 + l2).drop_last() =~= l1 + l2.drop_last());
        assert((l1 + l2).last() == l2.last());
    }
}

/// Counting a text that is empty or ends with a newline, and leaves no block
/// comment open, followed by another text, gives the sum of the counts of
/// the two texts.
pub proof fn lemma_count_concat(lang: Option<LangSpec>, a: Seq<char>, b: Seq<char>)
    requires
        a.len() == 0 || a.last() == '\n',
        !text_tally(lang, a).in_block,
    ensures
        text_tally(lang, a + b).code == text_tally(lang, a).code + text_tally(lang, b).code,
        text_tally(lang, a + b).comments == text_tally(lang, a).comments + text_tally(
            lang,
            b,
        ).comments,
        text_tally(lang, a + b).blank == text_tally(lang, a).blank + text_tally(lang, b).blank,
{
    lemma_lines_concat(a, b);
    lemma_tally_concat(opt_comment_syntax(lang), lines_of(a), lines_of(b));
}

/// Merging counts adds their totals.
pub proof fn lemma_merge_total(a: LineCounts, b: LineCounts, merged: LineCounts)
    requires
        merged.code == a.code + b.code,
        merged.comments == a.comments + b.comments,
        merged.blank == a.blank + b.blank,
    ensures
        merged.spec_total() == a.spec_total() + b.spec_total(),
{
}

/// The comment markers of a language, as character vectors.
struct Markers {
    line_comments: Vec<Vec<char>>,
    block_start: Option<Vec<char>>,
    block_end: Option<Vec<char>>,
}

spec fn opt_chars_view(o: Option<Vec<char>>) -> Option<Seq<char>> {
    match o {
        Some(v) => Some(v@),
        None => None,
    }
}

impl Markers {
    spec fn syntax(&self) -> CommentSyntax {
        CommentSyntax {
            line_comments: self.line_comments@.map_values(|c: Vec<char>| c@),
            block_start: opt_chars_view(self.block_start),
            block_end: opt_chars_view(self.block_end),
        }
    }
}

spec fn opt_markers_syntax(m: Option<Markers>) -> Option<CommentSyntax> {
    match m {
        Some(x) => Some(x.syntax()),
        None => None,
    }
}

fn opt_chars(s: Option<&str>) -> (r: Option<Vec<char>>)
    ensures
        opt_chars_view(r) == crate::lang::opt_str_view(s),
{
    match s {
        Some(x) => Some(chars_of(x)),
        None => None,
    }
}

fn markers_of(l: &LangConfig) -> (m: Markers)
    ensures
        m.syntax() == comment_syntax(l@),
{
    let mut line_comments: Vec<Vec<char>> = Vec::new();
    let mut k: usize = 0;
    while k < l.line_comments.len()
        invariant
            k <= l.line_comments@.len(),
            line_comments@.len() == k,
            forall|m: int| 0 <= m < k ==> #[trigger] line_comments@[m]@ == l.line_comments@[m]@,
        decreases l.line_comments@.len() - k,
    {
        line_comments.push(chars_of(l.line_comments[k]));
        k = k + 1;
    }
    let m = Markers {
        line_comments,
        block_start: opt_chars(l.block_comment_start),
        block_end: opt_chars(l.block_comment_end),
    };
    assert(m.syntax().line_comments =~= l@.line_comments);
    m
}

/// Whether the window starts with one of the line-comment prefixes.
fn window_is_line_comment(v: &Vec<char>, lo: usize, hi: usize, m: &Markers) -> (r: bool)
    requires
        lo <= hi <= v.len(),
    ensures
        r == is_line_comment(m.syntax(), v@.subrange(lo as int, hi as int)),
{
    let ghost tr = v@.subrange(lo as int, hi as int);
    let mut k: usize = 0;
    while k < m.line_comments.len()
        invariant
            lo <= hi <= v.len(),
            tr == v@.subrange(lo as int, hi as int),
            k <= m.line_comments@.len(),
            forall|i: int|
                0 <= i < k ==> !starts_with(tr, #[trigger] m.syntax().line_comments[i]),
        decreases m.line_comments@.len() - k,
    {
        if window_starts_with(v, lo, hi, &m.line_comments[k]) {
            assert(starts_with(tr, m.syntax().line_comments[k as int]));
            return true;
        }
        k = k + 1;
    }
    false
}

/// Counts the line `v@.subrange(lo, hi)`.
fn count_line(
    counts: &mut LineCounts,
    in_block: &mut bool,
    v: &Vec<char>,
    lo: usize,
    hi: usize,
    markers: &Option<Markers>,
)
    requires
        lo <= hi <= v.len(),
        old(counts).code + old(counts).comments + old(counts).blank < usize::MAX,
    ensures
        ({
            let t = step(
                opt_markers_syntax(*markers),
                Tally {
                    code: old(counts).code as nat,
                    comments: old(counts).comments as nat,
                    blank: old(counts).blank as nat,
                    in_block: *old(in_block),
                },
                v@.subrange(lo as int, hi as int),
            );
            &&& final(counts).code == t.code
            &&& final(counts).comments == t.comments
            &&& final(counts).blank == t.blank
            &&& *final(in_block) == t.in_block
        }),
{
    let ghost line = v@.subrange(lo as int, hi as int);
    let (a, b) = trim_window(v, lo, hi);
    let ghost tr = v@.subrange(a as int, b as int);
    assert(tr == trim(line));
    if a == b {
        counts.blank = counts.blank + 1;
        return;
    }
    match markers {
        None => {
            counts.code = counts.code + 1;
        },
        Some(m) => {
            if *in_block {
                counts.comments = counts.comments + 1;
                match &m.block_end {
                    Some(e) => {
                        if window_contains(v, a, b, e) {
                            *in_block = false;
                        }
                    },
                    None => {},
                }
                return;
            }
            match &m.block_start {
                Some(s) => {
                    if window_starts_with(v, a, b, s) {
                        counts.comments = counts.comments + 1;
                        let rest = a + s.len();
                        proof {
                            assert(tr.skip(s@.len() as int) =~= v@.subrange(rest as int, b as int));
                        }
                        match &m.block_end {
                            Some(e) => {
                                if !chars_equal(s, e) {
                                    if !window_contains(v, rest, b, e) {
                                        *in_block = true;
                                    }
                                } else {
                                    let c = trim_end_window(v, rest, b);
                                    if !window_ends_with(v, rest, c, e) {
                                        *in_block = true;
                                    }
                                }
                            },
                            None => {},
                        }
                        return;
                    }
                },
                None => {},
            }
            if window_is_line_comment(v, a, b, m) {
                counts.comments = counts.comments + 1;
            } else {
                counts.code = counts.code + 1;
            }
        },
    }
}

/// Counts the code, comment and blank lines of `text`, with the comment
/// markers of `lang` (without a language, every non-blank line is code).
pub fn count_lines(text: &str, lang: Option<&LangConfig>) -> (r: LineCounts)
    ensures
        ({
            let t = text_tally(opt_lang_ref_view(lang), text@);
            r.code == t.code && r.comments == t.comments && r.blank == t.blank
        }),
        r.code + r.comments + r.blank == lines_of(text@).len(),
        r.blank == blank_count(lines_of(text@)),
        lang is None ==> r.comments == 0,
{
    let v = chars_of(text);
    let markers = match lang {
        Some(l) => Some(markers_of(l)),
        None => None,
    };
    let ghost syn = opt_comment_syntax(opt_lang_ref_view(lang));
    assert(opt_markers_syntax(markers) == syn);
    let mut counts = LineCounts::new();
    let mut in_block = false;
    let mut start: usize = 0;
    let mut j: usize = 0;
    assert(v@.take(0) =~= Seq::<char>::empty());
    assert(segments(v@.take(0)).drop_last() =~= Seq::<Seq<char>>::empty());
    assert(v@.subrange(0, 0) =~= Seq::<char>::empty());
    while j < v.len()
        invariant
            start <= j <= v.len(),
            v@ == text@,
            opt_markers_syntax(markers) == syn,
            segments(v@.take(j as int)).len() >= 1,
            segments(v@.take(j as int)).last() == v@.subrange(start as int, j as int),
            segments(v@.take(j as int)).len() - 1 <= start,
            tally(syn, segments(v@.take(j as int)).drop_last()) == (Tally {
                code: counts.code as nat,
                comments: counts.comments as nat,
                blank: counts.blank as nat,
                in_block,
            }),
        decreases v.len() - j,
    {
        let ghost prev = segments(v@.take(j as int));
        let ghost next_text = v@.take(j + 1);
        assert(next_text.drop_last() =~= v@.take(j as int));
        assert(next_text.last() == v@[j as int]);
        if v[j] == '\n' {
            proof {
                lemma_tally_total(syn, prev.drop_last());
            }
            count_line(&mut counts, &mut in_block, &v, start, j, &markers);
            proof {
                let next = segments(next_text);
                assert(next == prev.push(Seq::<char>::empty()));
                assert(next.drop_last() =~= prev);
                assert(next.drop_last().drop_last() =~= prev.drop_last());
                assert(v@.subrange((j + 1) as int, (j + 1) as int) =~= Seq::<char>::empty());
            }
            start = j + 1;
        } else {
            proof {
                let next = segments(next_text);
                assert(next.drop_last() =~= prev.drop_last());
                assert(v@.subrange(start as int, (j + 1) as int) =~= v@.subrange(
                    start as int,
                    j as int,
                ).push(v@[j as int]));
            }
        }
        j = j + 1;
    }
    assert(v@.take(j as int) =~= v@);
    let ghost segs = segments(v@);
    if start < v.len() {
        proof {
            lemma_tally_total(syn, segs.drop_last());
        }
        count_line(&mut counts, &mut in_block, &v, start, v.len(), &markers);
        proof {
            assert(lines_of(v@) == segs);
            assert(segs.drop_last().push(segs.last()) =~= segs);
        }
    } else {
        assert(lines_of(v@) == segs.drop_last());
    }
    proof {
        lemma_tally_total(syn, lines_of(v@));
        lemma_tally_blank(syn, lines_of(v@));
    }
    counts
}

} // verus!
