//! Text rules shared by the repositories: numbers written in decimal, lists
//! joined by a separator, the snippet of a transcript, the preview of a
//! conversation and the blank test of imported notes.

use vstd::prelude::*;

verus! {

// ---------------------------------------------------------------------------
// Decimal numbers
// ---------------------------------------------------------------------------

pub open spec fn digit_char(d: nat) -> char {
    if d == 0 {
        '0'
    } else if d == 1 {
        '1'
    } else if d == 2 {
        '2'
    } else if d == 3 {
        '3'
    } else if d == 4 {
        '4'
    } else if d == 5 {
        '5'
    } else if d == 6 {
        '6'
    } else if d == 7 {
        '7'
    } else if d == 8 {
        '8'
    } else {
        '9'
    }
}

/// The decimal writing of a natural number, most significant digit first.
pub open spec fn spec_decimal(n: nat) -> Seq<char>
    decreases n,
{
    if n < 10 {
        seq![digit_char(n)]
    } else {
        spec_decimal(n / 10) + seq![digit_char(n % 10)]
    }
}

/// The decimal writing of an integer, with a leading `-` when negative.
pub open spec fn spec_signed_decimal(n: int) -> Seq<char> {
    if n < 0 {
        seq!['-'] + spec_decimal((-n) as nat)
    } else {
        spec_decimal(n as nat)
    }
}

fn digit_str(d: u64) -> (s: &'static str)
    requires
        d < 10,
    ensures
        s@ == seq![digit_char(d as nat)],
{
    proof {
        reveal_strlit("0");
        reveal_strlit("1");
        reveal_strlit("2");
        reveal_strlit("3");
        reveal_strlit("4");
        reveal_strlit("5");
        reveal_strlit("6");
        reveal_strlit("7");
        reveal_strlit("8");
        reveal_strlit("9");
    }
    if d == 0 {
        "0"
    } else if d == 1 {
        "1"
    } else if d == 2 {
        "2"
    } else if d == 3 {
        "3"
    } else if d == 4 {
        "4"
    } else if d == 5 {
        "5"
    } else if d == 6 {
        "6"
    } else if d == 7 {
        "7"
    } else if d == 8 {
        "8"
    } else {
        "9"
    }
}

/// Writes `n` in decimal.
pub fn decimal(n: u64) -> (s: String)
    ensures
        s@ == spec_decimal(n as nat),
    decreases n,
{
    if n < 10 {
        String::from_str(digit_str(n))
    } else {
        let mut s = decimal(n / 10);
        s.append(digit_str(n % 10));
        s
    }
}

/// Writes `n` in decimal, with a leading `-` when it is negative.
pub fn signed_decimal(n: i64) -> (s: String)
    ensures
        s@ == spec_signed_decimal(n as int),
{
    if n < 0 {
        let magnitude: u64 = (0i128 - (n as i128)) as u64;
        let digits = decimal(magnitude);
        proof {
            reveal_strlit("-");
        }
        let mut s = String::from_str("-");
        s.append(digits.as_str());
        s
    } else {
        decimal(n as u64)
    }
}

// ---------------------------------------------------------------------------
// Joining
// ---------------------------------------------------------------------------

/// The parts written one after the other, with `sep` between two neighbours.
pub open spec fn spec_join(parts: Seq<Seq<char>>, sep: Seq<char>) -> Seq<char>
    decreases parts.len(),
{
    if parts.len() == 0 {
        Seq::empty()
    } else if parts.len() == 1 {
        parts[0]
    } else {
        spec_join(parts.drop_last(), sep) + sep + parts.last()
    }
}

pub open spec fn string_views(parts: Seq<String>) -> Seq<Seq<char>> {
    parts.map_values(|p: String| p@)
}

/// Joins the parts with `sep` between neighbours.
pub fn join(parts: &Vec<String>, sep: &str) -> (s: String)
    ensures
        s@ == spec_join(string_views(parts@), sep@),
{
    let mut s = String::new();
    let ghost views = string_views(parts@);
    let mut i: usize = 0;
    while i < parts.len()
        invariant
            i <= parts.len(),
            views == string_views(parts@),
            views.len() == parts@.len(),
            s@ == spec_join(views.take(i as int), sep@),
        decreases parts.len() - i,
    {
        assert(views.take(i + 1).drop_last() =~= views.take(i as int));
        assert(views.take(i + 1).last() == parts@[i as int]@);
        if i > 0 {
            s.append(sep);
        } else {
            assert(views.take(0) =~= Seq::<Seq<char>>::empty());
        }
        s.append(parts[i].as_str());
        i = i + 1;
    }
    assert(views.take(parts.len() as int) =~= views);
    s
}

// ---------------------------------------------------------------------------
// UTF-8 widths
// ---------------------------------------------------------------------------

/// How many bytes UTF-8 spends on `c`.
pub open spec fn utf8_width(c: char) -> nat {
    if (c as u32) < 0x80 {
        1
    } else if (c as u32) < 0x800 {
        2
    } else if (c as u32) < 0x10000 {
        3
    } else {
        4
    }
}

/// How many bytes UTF-8 spends on the whole text.
pub open spec fn utf8_len(s: Seq<char>) -> nat
    decreases s.len(),
{
    if s.len() == 0 {
        0
    } else {
        utf8_len(s.drop_last()) + utf8_width(s.last())
    }
}

fn char_width(c: char) -> (w: usize)
    ensures
        w as nat == utf8_width(c),
{
    let v = c as u32;
    if v < 0x80 {
        1
    } else if v < 0x800 {
        2
    } else if v < 0x10000 {
        3
    } else {
        4
    }
}

// ---------------------------------------------------------------------------
// Snippet of a transcript
// ---------------------------------------------------------------------------

/// The most characters a snippet keeps before it is cut.
pub open spec fn snippet_limit() -> nat {
    160
}

/// Is `j` the position of the last space among the first characters `cut`?
pub open spec fn is_last_space(cut: Seq<char>, j: int) -> bool {
    &&& 0 <= j < cut.len()
    &&& cut[j] == ' '
    &&& forall|k: int| j < k < cut.len() ==> cut[k] != ' '
}

/// What a snippet shows of `text`: all of it when it is short; otherwise its
/// first 160 characters, cut back to the last space when that space lies past
/// the first 80 bytes, followed by an ellipsis.
pub open spec fn spec_trim_snippet(text: Seq<char>) -> Seq<char> {
    if text.len() <= snippet_limit() {
        text
    } else {
        let cut = text.take(snippet_limit() as int);
        if exists|j: int| is_last_space(cut, j) && utf8_len(cut.take(j)) > snippet_limit() / 2 {
            let j = choose|j: int| is_last_space(cut, j) && utf8_len(cut.take(j)) > snippet_limit() / 2;
            cut.take(j) + seq!['…']
        } else {
            cut + seq!['…']
        }
    }
}

proof fn lemma_last_space_unique(cut: Seq<char>, a: int, b: int)
    requires
        is_last_space(cut, a),
        is_last_space(cut, b),
    ensures
        a == b,
{
}

/// A snippet is never longer than 160 characters and an ellipsis, and a text
/// that fits is shown whole.
pub proof fn law_snippet_is_bounded(text: Seq<char>)
    ensures
        spec_trim_snippet(text).len() <= snippet_limit() + 1,
        text.len() <= snippet_limit() ==> spec_trim_snippet(text) == text,
        text.len() > snippet_limit() ==> spec_trim_snippet(text).last() == '…',
{
    if text.len() > snippet_limit() {
        let cut = text.take(snippet_limit() as int);
        if exists|j: int| is_last_space(cut, j) && utf8_len(cut.take(j)) > snippet_limit() / 2 {
            let j = choose|j: int| is_last_space(cut, j) && utf8_len(cut.take(j)) > snippet_limit() / 2;
            assert(cut.take(j).len() == j);
        }
    }
}

proof fn lemma_utf8_len_grows(s: Seq<char>, a: int, b: int)
    requires
        0 <= a <= b <= s.len(),
    ensures
        utf8_len(s.take(a)) <= utf8_len(s.take(b)),
    decreases b - a,
{
    if a < b {
        lemma_utf8_len_grows(s, a, b - 1);
        assert(s.take(b).drop_last() =~= s.take(b - 1));
    }
}

proof fn lemma_a_last_space_follows(cut: Seq<char>, k: int)
    requires
        0 <= k < cut.len(),
        cut[k] == ' ',
    ensures
        exists|j: int| k <= j && is_last_space(cut, j),
    decreases cut.len() - k,
{
    if !is_last_space(cut, k) {
        let k2 = choose|k2: int| k < k2 < cut.len() && cut[k2] == ' ';
        lemma_a_last_space_follows(cut, k2);
        let j = choose|j: int| k2 <= j && is_last_space(cut, j);
        assert(k <= j && is_last_space(cut, j));
    }
}

/// A long text is cut at its last word that fits: the snippet is the text's
/// beginning followed by an ellipsis. When it stops before the 160th
/// character, it stops at a space that lies past the first 80 bytes, and no
/// space follows that one among the first 160 characters; when it keeps all
/// 160, none of their spaces lies past the first 80 bytes.
pub proof fn law_snippet_cuts_at_the_last_space(text: Seq<char>)
    requires
        text.len() > snippet_limit(),
    ensures
        spec_trim_snippet(text).len() >= 1,
        spec_trim_snippet(text).last() == '…',
        spec_trim_snippet(text).len() - 1 <= snippet_limit(),
        forall|i: int|
            0 <= i < spec_trim_snippet(text).len() - 1 ==> #[trigger] spec_trim_snippet(text)[i] == text[i],
        ({
            let n = spec_trim_snippet(text).len() - 1;
            n < snippet_limit() ==> {
                &&& text[n] == ' '
                &&& utf8_len(text.take(n)) > snippet_limit() / 2
                &&& forall|k: int| n < k < snippet_limit() ==> #[trigger] text[k] != ' '
            }
        }),
        spec_trim_snippet(text).len() - 1 == snippet_limit() ==> forall|k: int|
            0 <= k < snippet_limit() && #[trigger] text[k] == ' ' ==> utf8_len(text.take(k))
                <= snippet_limit() / 2,
{
    let cut = text.take(snippet_limit() as int);
    if exists|j: int| is_last_space(cut, j) && utf8_len(cut.take(j)) > snippet_limit() / 2 {
        let j = choose|j: int| is_last_space(cut, j) && utf8_len(cut.take(j)) > snippet_limit() / 2;
        let s = cut.take(j) + seq!['…'];
        assert(spec_trim_snippet(text) == s);
        assert(s.len() - 1 == j);
        assert(cut.take(j) =~= text.take(j));
        assert(forall|k: int| j < k < snippet_limit() ==> cut[k] == text[k]);
        assert forall|i: int| 0 <= i < s.len() - 1 implies #[trigger] s[i] == text[i] by {
            assert(s[i] == cut[i]);
        }
    } else {
        let s = cut + seq!['…'];
        assert(spec_trim_snippet(text) == s);
        assert forall|i: int| 0 <= i < s.len() - 1 implies #[trigger] s[i] == text[i] by {
            assert(s[i] == cut[i]);
        }
        assert forall|k: int| 0 <= k < snippet_limit() && #[trigger] text[k] == ' ' implies utf8_len(
            text.take(k),
        ) <= snippet_limit() / 2 by {
            assert(cut[k] == ' ');
            lemma_a_last_space_follows(cut, k);
            let j = choose|j: int| k <= j && is_last_space(cut, j);
            lemma_utf8_len_grows(cut, k, j);
            assert(cut.take(k) =~= text.take(k));
        }
    }
}

/// Cuts a long text for a search result, preferring to end at a word.
pub fn trim_snippet(text: &str) -> (s: String)
    ensures
        s@ == spec_trim_snippet(text@),
        s@.len() <= snippet_limit() + 1,
{
    proof {
        law_snippet_is_bounded(text@);
    }
    let count = text.unicode_len();
    if count <= 160 {
        return String::from_str(text);
    }
    let cut = text.substring_char(0, 160);
    // Find the last space of the cut, and the bytes that stand before it.
    let mut i: usize = 0;
    let mut bytes: usize = 0;
    let mut last: Option<(usize, usize)> = None;
    while i < 160
        invariant
            cut@ == text@.take(160),
            cut@.len() == 160,
            i <= 160,
            bytes as nat == utf8_len(cut@.take(i as int)),
            bytes <= 4 * i,
            match last {
                Some((j, b)) => {
                    &&& j < i
                    &&& cut@[j as int] == ' '
                    &&& b as nat == utf8_len(cut@.take(j as int))
                    &&& forall|k: int| j < k < i ==> cut@[k] != ' '
                },
                None => forall|k: int| 0 <= k < i ==> cut@[k] != ' ',
            },
        decreases 160 - i,
    {
        let c = cut.get_char(i);
        if c == ' ' {
            last = Some((i, bytes));
        }
        assert(cut@.take(i + 1).drop_last() =~= cut@.take(i as int));
        bytes = bytes + char_width(c);
        i = i + 1;
    }
    assert(cut@.take(160) =~= cut@);
    proof {
        reveal_strlit("…");
    }
    match last {
        Some((j, b)) => {
            if b > 80 {
                proof {
                    assert(is_last_space(cut@, j as int));
                    assert forall|x: int|
                        is_last_space(cut@, x) && utf8_len(cut@.take(x)) > 80 implies x == j by {
                        lemma_last_space_unique(cut@, x, j as int);
                    }
                }
                let mut s = String::from_str(cut.substring_char(0, j));
                s.append("…");
                s
            } else {
                proof {
                    assert forall|x: int| is_last_space(cut@, x) implies !(utf8_len(cut@.take(x))
                        > 80) by {
                        lemma_last_space_unique(cut@, x, j as int);
                    }
                }
                let mut s = String::from_str(cut);
                s.append("…");
                s
            }
        },
        None => {
            let mut s = String::from_str(cut);
            s.append("…");
            s
        },
    }
}

// ---------------------------------------------------------------------------
// Preview of a conversation
// ---------------------------------------------------------------------------

/// The most characters a conversation preview keeps.
pub open spec fn preview_limit() -> nat {
    140
}

/// The first line of `text` as `str::lines` yields it: everything before the
/// first `\n`, without the `\r` of a `\r\n`; the whole text when it has no
/// `\n`.
pub open spec fn spec_first_line(text: Seq<char>) -> Seq<char> {
    if exists|k: int| 0 <= k < text.len() && text[k] == '\n' {
        let k = choose|k: int|
            0 <= k < text.len() && text[k] == '\n' && forall|m: int| 0 <= m < k ==> text[m] != '\n';
        let line = text.take(k);
        if line.len() > 0 && line.last() == '\r' {
            line.drop_last()
        } else {
            line
        }
    } else {
        text
    }
}

/// The preview a conversation list shows: the first line of the last text,
/// at most 140 characters of it.
pub open spec fn spec_preview(text: Seq<char>) -> Seq<char> {
    let line = spec_first_line(text);
    if line.len() <= preview_limit() {
        line
    } else {
        line.take(preview_limit() as int)
    }
}

proof fn lemma_first_newline_exists(text: Seq<char>)
    requires
        exists|k: int| 0 <= k < text.len() && text[k] == '\n',
    ensures
        exists|k: int|
            0 <= k < text.len() && text[k] == '\n' && forall|m: int| 0 <= m < k ==> text[m] != '\n',
    decreases text.len(),
{
    if text[0] == '\n' {
        assert(forall|m: int| 0 <= m < 0 ==> text[m] != '\n');
    } else {
        let rest = text.drop_first();
        let k = choose|k: int| 0 <= k < text.len() && text[k] == '\n';
        assert(rest[k - 1] == '\n');
        lemma_first_newline_exists(rest);
        let j = choose|j: int|
            0 <= j < rest.len() && rest[j] == '\n' && forall|m: int| 0 <= m < j ==> rest[m] != '\n';
        assert(text[j + 1] == '\n');
        assert forall|m: int| 0 <= m < j + 1 implies text[m] != '\n' by {
            if m > 0 {
                assert(text[m] == rest[m - 1]);
            }
        }
    }
}

/// A preview is at most 140 characters of a single line.
pub proof fn law_preview_is_one_short_line(text: Seq<char>)
    ensures
        spec_preview(text).len() <= preview_limit(),
        forall|i: int| 0 <= i < spec_preview(text).len() ==> #[trigger] spec_preview(text)[i] != '\n',
{
    let line = spec_first_line(text);
    if exists|k: int| 0 <= k < text.len() && text[k] == '\n' {
        lemma_first_newline_exists(text);
        let k = choose|k: int|
            0 <= k < text.len() && text[k] == '\n' && forall|m: int| 0 <= m < k ==> text[m] != '\n';
        assert(forall|i: int| 0 <= i < line.len() ==> line[i] == text[i]);
        assert(forall|i: int| 0 <= i < line.len() ==> #[trigger] line[i] != '\n');
    } else {
        assert(line == text);
    }
    assert(forall|i: int| 0 <= i < line.len() ==> #[trigger] line[i] != '\n');
}

/// A preview is the beginning of the text: each of its characters is the
/// text's character at the same place; a text of one line shows its first
/// 140 characters, or all of it when it is shorter.
pub proof fn law_preview_is_the_beginning(text: Seq<char>)
    ensures
        spec_preview(text).len() <= text.len(),
        forall|i: int| 0 <= i < spec_preview(text).len() ==> #[trigger] spec_preview(text)[i] == text[i],
        (forall|i: int| 0 <= i < text.len() ==> #[trigger] text[i] != '\n') ==> spec_preview(text).len() == (
        if text.len() <= preview_limit() {
            text.len()
        } else {
            preview_limit() as nat
        }),
{
    let line = spec_first_line(text);
    if exists|k: int| 0 <= k < text.len() && text[k] == '\n' {
        lemma_first_newline_exists(text);
        let k = choose|k: int|
            0 <= k < text.len() && text[k] == '\n' && forall|m: int| 0 <= m < k ==> text[m] != '\n';
        assert(line.len() <= k);
        assert(forall|i: int| 0 <= i < line.len() ==> line[i] == text[i]);
    } else {
        assert(line == text);
    }
    assert(forall|i: int| 0 <= i < line.len() ==> #[trigger] line[i] == text[i]);
}

/// The preview of a conversation, from the last text it holds (if any).
pub fn preview(text: Option<String>) -> (s: String)
    ensures
        s@ == match text {
            Some(t) => spec_preview(t@),
            None => Seq::empty(),
        },
        s@.len() <= preview_limit(),
{
    let t = match text {
        Some(t) => t,
        None => String::new(),
    };
    proof {
        law_preview_is_one_short_line(t@);
    }
    let ghost tv = t@;
    let n = t.as_str().unicode_len();
    let mut k: usize = 0;
    let mut found = false;
    while k < n && !found
        invariant
            n == tv.len(),
            tv == t@,
            k <= n,
            found ==> k < n && tv[k as int] == '\n',
            forall|m: int| 0 <= m < k ==> tv[m] != '\n',
        decreases n - k + (if found { 0int } else { 1int }),
    {
        if t.as_str().get_char(k) == '\n' {
            found = true;
        } else {
            k = k + 1;
        }
    }
    let mut end = k;
    if k < n {
        assert(tv[k as int] == '\n');
        proof {
            let c = choose|c: int|
                0 <= c < tv.len() && tv[c] == '\n' && forall|m: int| 0 <= m < c ==> tv[m] != '\n';
            assert(c == k);
        }
        if k > 0 && t.as_str().get_char(k - 1) == '\r' {
            end = k - 1;
        }
    } else {
        assert(!exists|c: int| 0 <= c < tv.len() && tv[c] == '\n');
    }
    assert(tv.take(k as int).take(end as int) =~= tv.take(end as int));
    assert(end == k ==> tv.take(k as int) =~= spec_first_line(tv) || k == n);
    if k == n {
        assert(tv.take(n as int) =~= tv);
    } else if end < k {
        assert(tv.take(k as int).drop_last() =~= tv.take(end as int));
    }
    let stop = if end > 140 {
        140
    } else {
        end
    };
    assert(tv.take(end as int).take(stop as int) =~= tv.take(stop as int));
    String::from_str(t.as_str().substring_char(0, stop))
}

// ---------------------------------------------------------------------------
// Blank text
// ---------------------------------------------------------------------------

/// The characters that Unicode calls White_Space, which `char::is_whitespace`
/// recognises.
pub open spec fn is_white_space(c: char) -> bool {
    let v = c as u32;
    ||| 0x9 <= v <= 0xD
    ||| v == 0x20
    ||| v == 0x85
    ||| v == 0xA0
    ||| v == 0x1680
    ||| 0x2000 <= v <= 0x200A
    ||| v == 0x2028
    ||| v == 0x2029
    ||| v == 0x202F
    ||| v == 0x205F
    ||| v == 0x3000
}

/// A text is blank when nothing but white space is left after trimming it.
pub open spec fn spec_is_blank(text: Seq<char>) -> bool {
    forall|i: int| 0 <= i < text.len() ==> is_white_space(#[trigger] text[i])
}

fn white_space(c: char) -> (b: bool)
    ensures
        b == is_white_space(c),
{
    let v = c as u32;
    (0x9 <= v && v <= 0xD) || v == 0x20 || v == 0x85 || v == 0xA0 || v == 0x1680 || (0x2000 <= v
        && v <= 0x200A) || v == 0x2028 || v == 0x2029 || v == 0x202F || v == 0x205F || v == 0x3000
}

/// Whether `text` holds nothing but white space.
pub fn is_blank(text: &str) -> (b: bool)
    ensures
        b == spec_is_blank(text@),
{
    let n = text.unicode_len();
    let mut i: usize = 0;
    while i < n
        invariant
            n == text@.len(),
            i <= n,
            forall|k: int| 0 <= k < i ==> is_white_space(#[trigger] text@[k]),
        decreases n - i,
    {
        if !white_space(text.get_char(i)) {
            return false;
        }
        i = i + 1;
    }
    true
}

// ---------------------------------------------------------------------------
// Small helpers
// ---------------------------------------------------------------------------

/// `text` without any occurrence of `c`.
pub open spec fn spec_without(text: Seq<char>, c: char) -> Seq<char> {
    text.filter(|x: char| x != c)
}

/// Removes every occurrence of `c` from `text`.
pub fn without_char(text: &str, c: char) -> (s: String)
    ensures
        s@ == spec_without(text@, c),
{
    let n = text.unicode_len();
    let mut s = String::new();
    let mut i: usize = 0;
    while i < n
        invariant
            n == text@.len(),
            i <= n,
            s@ == spec_without(text@.take(i as int), c),
        decreases n - i,
    {
        let x = text.get_char(i);
        proof {
            reveal_with_fuel(Seq::<_>::filter, 1);
            assert(text@.take(i + 1).drop_last() =~= text@.take(i as int));
        }
        if x != c {
            s.append(text.substring_char(i, i + 1));
        }
        i = i + 1;
    }
    assert(text@.take(n as int) =~= text@);
    s
}

/// Whether `text` begins with `prefix`.
pub fn starts_with(text: &str, prefix: &str) -> (b: bool)
    ensures
        b == (prefix@.len() <= text@.len() && text@.take(prefix@.len() as int) == prefix@),
{
    let n = prefix.unicode_len();
    if n > text.unicode_len() {
        return false;
    }
    let mut i: usize = 0;
    while i < n
        invariant
            n == prefix@.len(),
            n <= text@.len(),
            i <= n,
            forall|k: int| 0 <= k < i ==> text@[k] == prefix@[k],
        decreases n - i,
    {
        if text.get_char(i) != prefix.get_char(i) {
            assert(text@.take(n as int)[i as int] != prefix@[i as int]);
            return false;
        }
        i = i + 1;
    }
    assert(text@.take(n as int) =~= prefix@);
    true
}

/// Whether two texts hold the same characters.
pub fn same_text(a: &str, b: &str) -> (r: bool)
    ensures
        r == (a@ == b@),
{
    let n = a.unicode_len();
    if n != b.unicode_len() {
        return false;
    }
    let mut i: usize = 0;
    while i < n
        invariant
            n == a@.len(),
            n == b@.len(),
            i <= n,
            forall|k: int| 0 <= k < i ==> a@[k] == b@[k],
        decreases n - i,
    {
        if a.get_char(i) != b.get_char(i) {
            return false;
        }
        i = i + 1;
    }
    assert(a@ =~= b@);
    true
}

/// `a` followed by `b`.
pub fn concatenate(a: &str, b: &str) -> (s: String)
    ensures
        s@ == a@ + b@,
{
    let mut s = String::from_str(a);
    s.append(b);
    s
}


// ---------------------------------------------------------------------------
// Search terms for LIKE
// ---------------------------------------------------------------------------

/// The index of the first character at or after `i` that is not white space
/// (the length when there is none).
pub open spec fn first_solid(s: Seq<char>, i: int) -> int
    decreases s.len() - i,
{
    if i < 0 || i >= s.len() {
        s.len() as int
    } else if !is_white_space(s[i]) {
        i
    } else {
        first_solid(s, i + 1)
    }
}

/// One past the last character before `j` that is not white space (`0` when
/// there is none).
pub open spec fn solid_end(s: Seq<char>, j: int) -> int
    decreases j,
{
    if j <= 0 || j > s.len() {
        0
    } else if !is_white_space(s[j - 1]) {
        j
    } else {
        solid_end(s, j - 1)
    }
}

/// The text without the white space at either end, as `str::trim` leaves it.
pub open spec fn spec_trim(s: Seq<char>) -> Seq<char> {
    let a = first_solid(s, 0);
    let b = solid_end(s, s.len() as int);
    if a < b {
        s.subrange(a, b)
    } else {
        Seq::empty()
    }
}

proof fn lemma_solid_end_bounded(s: Seq<char>, j: int)
    requires
        0 <= j <= s.len(),
    ensures
        0 <= solid_end(s, j) <= j,
    decreases j,
{
    if j > 0 && is_white_space(s[j - 1]) {
        lemma_solid_end_bounded(s, j - 1);
    }
}

/// `text` without the white space at either end.
pub fn trim(text: &str) -> (t: String)
    ensures
        t@ == spec_trim(text@),
{
    let n = text.unicode_len();
    let mut a: usize = 0;
    while a < n && white_space(text.get_char(a))
        invariant
            n == text@.len(),
            a <= n,
            first_solid(text@, 0) == first_solid(text@, a as int),
            forall|k: int| 0 <= k < a ==> is_white_space(#[trigger] text@[k]),
        decreases n - a,
    {
        a = a + 1;
    }
    let mut b: usize = n;
    while b > a && white_space(text.get_char(b - 1))
        invariant
            n == text@.len(),
            a <= b <= n,
            solid_end(text@, n as int) == solid_end(text@, b as int),
        decreases b,
    {
        b = b - 1;
    }
    proof {
        if a < n {
            assert(!is_white_space(text@[a as int]));
        }
        assert(first_solid(text@, a as int) == a);
        if b == a {
            lemma_solid_end_bounded(text@, b as int);
        } else {
            assert(!is_white_space(text@[b - 1]));
        }
    }
    if a < b {
        String::from_str(text.substring_char(a, b))
    } else {
        String::new()
    }
}

/// How one character stands in a LIKE pattern whose escape is a backslash:
/// the backslash and the two wildcards are escaped, anything else stands
/// for itself.
pub open spec fn escape_char(c: char) -> Seq<char> {
    if c == '\\' || c == '%' || c == '_' {
        seq!['\\', c]
    } else {
        seq![c]
    }
}

/// A text escaped for LIKE, character by character.
pub open spec fn spec_like_escape(s: Seq<char>) -> Seq<char>
    decreases s.len(),
{
    if s.len() == 0 {
        Seq::empty()
    } else {
        escape_char(s[0]) + spec_like_escape(s.drop_first())
    }
}

/// The text an escaped LIKE text stands for: a backslash takes the next
/// character as it is.
pub open spec fn spec_like_unescape(s: Seq<char>) -> Seq<char>
    decreases s.len(),
{
    if s.len() == 0 {
        Seq::empty()
    } else if s[0] == '\\' && s.len() >= 2 {
        seq![s[1]] + spec_like_unescape(s.skip(2))
    } else {
        seq![s[0]] + spec_like_unescape(s.skip(1))
    }
}

proof fn lemma_escape_append(a: Seq<char>, b: Seq<char>)
    ensures
        spec_like_escape(a + b) == spec_like_escape(a) + spec_like_escape(b),
    decreases a.len(),
{
    if a.len() == 0 {
        assert(a + b =~= b);
    } else {
        assert((a + b).drop_first() =~= a.drop_first() + b);
        lemma_escape_append(a.drop_first(), b);
        assert(spec_like_escape(a + b) == escape_char(a[0]) + spec_like_escape(a.drop_first() + b));
        assert(escape_char(a[0]) + (spec_like_escape(a.drop_first()) + spec_like_escape(b))
            =~= (escape_char(a[0]) + spec_like_escape(a.drop_first())) + spec_like_escape(b));
    }
}

/// Escaping loses nothing: what an escaped text stands for is the text
/// itself, so a `%` or `_` typed in a search is looked for as it is and
/// never acts as a wildcard.
pub proof fn law_escaping_is_lossless(s: Seq<char>)
    ensures
        spec_like_unescape(spec_like_escape(s)) == s,
    decreases s.len(),
{
    if s.len() > 0 {
        law_escaping_is_lossless(s.drop_first());
        let e = spec_like_escape(s);
        let rest = spec_like_escape(s.drop_first());
        let c = s[0];
        if c == '\\' || c == '%' || c == '_' {
            assert(e =~= seq!['\\', c] + rest);
            assert(e.skip(2) =~= rest);
            assert(spec_like_unescape(e) == seq![c] + spec_like_unescape(rest));
        } else {
            assert(e =~= seq![c] + rest);
            assert(e.skip(1) =~= rest);
            assert(spec_like_unescape(e) == seq![c] + spec_like_unescape(rest));
        }
        assert(seq![c] + s.drop_first() =~= s);
    }
}

/// `text` escaped for a LIKE pattern whose escape is a backslash.
pub fn like_escape(text: &str) -> (e: String)
    ensures
        e@ == spec_like_escape(text@),
{
    let n = text.unicode_len();
    let mut e = String::new();
    let mut i: usize = 0;
    proof {
        reveal_strlit("\\");
        assert(text@.take(0) =~= Seq::<char>::empty());
    }
    while i < n
        invariant
            n == text@.len(),
            i <= n,
            e@ == spec_like_escape(text@.take(i as int)),
            "\\"@ == seq!['\\'],
        decreases n - i,
    {
        let c = text.get_char(i);
        proof {
            assert(text@.take(i + 1) =~= text@.take(i as int) + seq![c]);
            lemma_escape_append(text@.take(i as int), seq![c]);
            let one = seq![c];
            assert(one.drop_first() =~= Seq::<char>::empty());
            assert(spec_like_escape(one.drop_first()) == Seq::<char>::empty());
            assert(spec_like_escape(one) == escape_char(one[0]) + spec_like_escape(one.drop_first()));
            assert(escape_char(c) + Seq::<char>::empty() =~= escape_char(c));
        }
        if c == '\\' || c == '%' || c == '_' {
            e.append("\\");
        }
        e.append(text.substring_char(i, i + 1));
        i = i + 1;
    }
    assert(text@.take(n as int) =~= text@);
    e
}

pub open spec fn spec_like_pattern(query: Seq<char>) -> Option<Seq<char>> {
    let term = spec_trim(query);
    if term.len() == 0 {
        None
    } else {
        Some(seq!['%'] + spec_like_escape(term) + seq!['%'])
    }
}

/// The LIKE pattern that finds `query` anywhere in a text: the query
/// without the white space at its ends, escaped, between two `%`. A query
/// that is nothing but white space finds nothing, and has no pattern.
pub fn like_pattern(query: &str) -> (p: Option<String>)
    ensures
        match p {
            Some(pattern) => spec_like_pattern(query@) == Some(pattern@),
            None => spec_like_pattern(query@) is None,
        },
{
    let term = trim(query);
    if term.as_str().unicode_len() == 0 {
        return None;
    }
    let escaped = like_escape(term.as_str());
    let mut pattern = String::from_str("%");
    pattern.append(escaped.as_str());
    pattern.append("%");
    proof {
        reveal_strlit("%");
    }
    Some(pattern)
}

} // verus!
