//! Character-level text primitives: white space, trimming, searching,
//! splitting into lines and joining lines back together.
//!
//! Every executable function here works on the characters of a text and is
//! specified over `Seq<char>`.

use vstd::prelude::*;
use vstd::string::*;

verus! {

/// Whether `c` is white space: one of the code points that carry the Unicode
/// `White_Space` property.
pub open spec fn is_space(c: char) -> bool {
    let n = c as u32;
    ||| 0x09 <= n <= 0x0D
    ||| n == 0x20
    ||| n == 0x85
    ||| n == 0xA0
    ||| n == 0x1680
    ||| 0x2000 <= n <= 0x200A
    ||| n == 0x2028
    ||| n == 0x2029
    ||| n == 0x202F
    ||| n == 0x205F
    ||| n == 0x3000
}

/// `s` without its leading white space.
pub open spec fn trim_start(s: Seq<char>) -> Seq<char>
    decreases s.len(),
{
    if s.len() > 0 && is_space(s.first()) {
        trim_start(s.drop_first())
    } else {
        s
    }
}

/// `s` without its trailing white space.
pub open spec fn trim_end(s: Seq<char>) -> Seq<char>
    decreases s.len(),
{
    if s.len() > 0 && is_space(s.last()) {
        trim_end(s.drop_last())
    } else {
        s
    }
}

/// `s` without leading and trailing white space.
pub open spec fn trim(s: Seq<char>) -> Seq<char> {
    trim_end(trim_start(s))
}

/// Whether trimming leaves `s` as it is: `s` neither starts nor ends with
/// white space.
pub open spec fn is_trimmed(s: Seq<char>) -> bool {
    s.len() > 0 ==> !is_space(s.first()) && !is_space(s.last())
}

/// The number of characters of `s` that stand before the first `c`; the
/// length of `s` where `c` does not occur.
pub open spec fn position(s: Seq<char>, c: char) -> nat
    decreases s.len(),
{
    if s.len() == 0 || s.first() == c {
        0
    } else {
        1 + position(s.drop_first(), c)
    }
}

/// `position` stays within the text, points at `c` when it is inside, and
/// nothing before it is `c`.
pub proof fn lemma_position(s: Seq<char>, c: char)
    ensures
        position(s, c) <= s.len(),
        position(s, c) < s.len() ==> s[position(s, c) as int] == c,
        forall|i: int| 0 <= i < position(s, c) ==> s[i] != c,
    decreases s.len(),
{
    if s.len() == 0 || s.first() == c {
    } else {
        let rest = s.drop_first();
        lemma_position(rest, c);
        assert forall|i: int| 0 <= i < position(s, c) implies s[i] != c by {
            if i > 0 {
                assert(s[i] == rest[i - 1]);
            }
        }
    }
}

/// An index with the defining properties of `position` is `position`.
pub proof fn lemma_position_unique(s: Seq<char>, c: char, k: int)
    requires
        0 <= k <= s.len(),
        k < s.len() ==> s[k] == c,
        forall|i: int| 0 <= i < k ==> s[i] != c,
    ensures
        position(s, c) == k,
    decreases s.len(),
{
    if s.len() == 0 || s.first() == c {
        if k > 0 {
            assert(s[0] != c);
        }
    } else {
        let rest = s.drop_first();
        assert(k > 0);
        assert forall|i: int| 0 <= i < k - 1 implies rest[i] != c by {
            assert(rest[i] == s[i + 1]);
        }
        lemma_position_unique(rest, c, k - 1);
    }
}

/// Trimming leaves a trimmed text unchanged.
pub proof fn lemma_trim_of_trimmed(s: Seq<char>)
    requires
        is_trimmed(s),
    ensures
        trim(s) == s,
{
}

/// Whether `c` is white space.
pub fn is_space_char(c: char) -> (r: bool)
    ensures
        r == is_space(c),
{
    let n: u32 = c as u32;
    (0x09 <= n && n <= 0x0D) || n == 0x20 || n == 0x85 || n == 0xA0 || n == 0x1680 || (0x2000 <= n
        && n <= 0x200A) || n == 0x2028 || n == 0x2029 || n == 0x202F || n == 0x205F || n == 0x3000
}

/// The characters of `s`, in order.
pub fn chars_of(s: &str) -> (v: Vec<char>)
    ensures
        v@ == s@,
{
    let mut v: Vec<char> = Vec::new();
    for c in it: s.chars()
        invariant
            it.seq() == s@,
            v@ == s@.take(it.index() as int),
    {
        v.push(c);
    }
    v
}

/// The bounds of the stretch `from..to` of `text` once its leading and
/// trailing white space is left out.
pub fn trimmed_bounds(text: &Vec<char>, from: usize, to: usize) -> (r: (usize, usize))
    requires
        from <= to <= text.len(),
    ensures
        from <= r.0 <= r.1 <= to,
        text@.subrange(r.0 as int, r.1 as int) == trim(text@.subrange(from as int, to as int)),
{
    let mut a: usize = from;
    while a < to && is_space_char(text[a])
        invariant
            from <= a <= to <= text.len(),
            trim_start(text@.subrange(from as int, to as int)) == trim_start(
                text@.subrange(a as int, to as int),
            ),
        decreases to - a,
    {
        assert(text@.subrange(a as int, to as int).drop_first() =~= text@.subrange(
            a + 1,
            to as int,
        ));
        a += 1;
    }
    let mut b: usize = to;
    while b > a && is_space_char(text[b - 1])
        invariant
            a <= b <= to <= text.len(),
            trim_end(text@.subrange(a as int, to as int)) == trim_end(
                text@.subrange(a as int, b as int),
            ),
        decreases b - a,
    {
        assert(text@.subrange(a as int, b as int).drop_last() =~= text@.subrange(
            a as int,
            b - 1,
        ));
        b -= 1;
    }
    (a, b)
}

/// The index of the first `c` in the stretch `from..to` of `text`, or `to`
/// where the stretch holds none.
pub fn find_char(text: &Vec<char>, from: usize, to: usize, c: char) -> (r: usize)
    requires
        from <= to <= text.len(),
    ensures
        from <= r <= to,
        r - from == position(text@.subrange(from as int, to as int), c),
{
    let mut i: usize = from;
    while i < to && text[i] != c
        invariant
            from <= i <= to <= text.len(),
            forall|j: int| from <= j < i ==> text@[j] != c,
        decreases to - i,
    {
        i += 1;
    }
    proof {
        lemma_position_unique(text@.subrange(from as int, to as int), c, i - from);
    }
    i
}

/// Whether the stretch `from..to` of `text` reads exactly as `word`.
pub fn stretch_is(text: &Vec<char>, from: usize, to: usize, word: &str) -> (r: bool)
    requires
        from <= to <= text.len(),
    ensures
        r == (text@.subrange(from as int, to as int) == word@),
{
    let ghost stretch = text@.subrange(from as int, to as int);
    let mut i: usize = from;
    let mut same: bool = true;
    for c in it: word.chars()
        invariant
            from <= to <= text.len(),
            stretch == text@.subrange(from as int, to as int),
            it.seq() == word@,
            same ==> i == from + it.index() && i <= to,
            same ==> stretch.take(it.index() as int) == word@.take(it.index() as int),
            !same ==> stretch != word@,
    {
        if same {
            if i < to && text[i] == c {
                proof {
                    let k = it.index() as int;
                    assert(stretch.take(k + 1) =~= stretch.take(k).push(stretch[k]));
                    assert(word@.take(k + 1) =~= word@.take(k).push(word@[k]));
                }
                i += 1;
            } else {
                same = false;
            }
        }
    }
    proof {
        if same {
            assert(word@.take(word@.len() as int) =~= word@);
            if i == to {
                assert(stretch.take(stretch.len() as int) =~= stretch);
            }
        }
    }
    same && i == to
}

/// Whether two strings hold the same text.
pub fn same_text(a: &str, b: &str) -> (r: bool)
    ensures
        r == (a@ == b@),
{
    let chars = chars_of(a);
    proof {
        assert(chars@.subrange(0, chars@.len() as int) =~= a@);
    }
    stretch_is(&chars, 0, chars.len(), b)
}

/// The texts of a list of strings.
pub open spec fn texts(v: Seq<String>) -> Seq<Seq<char>> {
    Seq::new(v.len(), |i: int| v[i]@)
}

/// A line as it stands before its line feed: without one trailing carriage
/// return.
pub open spec fn strip_cr(line: Seq<char>) -> Seq<char> {
    if line.len() > 0 && line.last() == '\r' {
        line.drop_last()
    } else {
        line
    }
}

/// The lines of a text. A line ends with a line feed, or with a carriage
/// return and a line feed; the ending is no part of the line. The last line
/// needs no ending, and an empty text has no lines.
pub open spec fn split_lines(text: Seq<char>) -> Seq<Seq<char>>
    decreases text.len(),
{
    if text.len() == 0 {
        Seq::empty()
    } else {
        let n = position(text, '\n') as int;
        if n >= text.len() {
            seq![text]
        } else {
            seq![strip_cr(text.take(n))] + split_lines(text.skip(n + 1))
        }
    }
}

/// The lines with one line feed between each two of them.
pub open spec fn join_lines(lines: Seq<Seq<char>>) -> Seq<char>
    decreases lines.len(),
{
    if lines.len() == 0 {
        Seq::empty()
    } else if lines.len() == 1 {
        lines[0]
    } else {
        join_lines(lines.drop_last()) + seq!['\n'] + lines.last()
    }
}

/// Whether `s` can stand as one line: it holds no line feed.
pub open spec fn is_line(s: Seq<char>) -> bool {
    forall|i: int| 0 <= i < s.len() ==> #[trigger] s[i] != '\n'
}

/// Whether every one of `lines` can stand as one line.
pub open spec fn all_lines(lines: Seq<Seq<char>>) -> bool {
    forall|i: int| 0 <= i < lines.len() ==> is_line(#[trigger] lines[i])
}

/// Whether `lines` come back as they are when they are joined and split
/// again: each can stand as one line, none but the last ends with a carriage
/// return, and the last one is not empty.
pub open spec fn is_stable(lines: Seq<Seq<char>>) -> bool {
    &&& all_lines(lines)
    &&& forall|i: int|
        0 <= i < lines.len() - 1 ==> strip_cr(#[trigger] lines[i]) == lines[i]
    &&& lines.len() > 0 ==> lines.last().len() > 0
}

/// Whether `s` is a line that stays as it is wherever it stands among
/// other lines: it is not empty, holds no line feed and does not end with a
/// carriage return.
pub open spec fn is_whole_line(s: Seq<char>) -> bool {
    &&& s.len() > 0
    &&& is_line(s)
    &&& s.last() != '\r'
}

/// Whether every one of `lines` is a whole line.
pub open spec fn all_whole_lines(lines: Seq<Seq<char>>) -> bool {
    forall|i: int| 0 <= i < lines.len() ==> is_whole_line(#[trigger] lines[i])
}

/// Whether none of `lines` ends with a carriage return.
pub open spec fn has_plain_endings(lines: Seq<Seq<char>>) -> bool {
    forall|i: int| 0 <= i < lines.len() ==> strip_cr(#[trigger] lines[i]) == lines[i]
}

/// The joined text of two or more lines starts with the first line and a
/// line feed, and goes on with the joined text of the others.
pub proof fn lemma_join_lines_front(lines: Seq<Seq<char>>)
    requires
        lines.len() >= 2,
    ensures
        join_lines(lines) == lines[0] + seq!['\n'] + join_lines(lines.drop_first()),
    decreases lines.len(),
{
    let rest = lines.drop_first();
    let init = lines.drop_last();
    if lines.len() == 2 {
        assert(init =~= seq![lines[0]]);
        assert(rest =~= seq![lines[1]]);
        assert(join_lines(init) == lines[0]);
        assert(join_lines(rest) == lines[1]);
    } else {
        lemma_join_lines_front(init);
        assert(init.drop_first() =~= rest.drop_last());
        assert(rest.last() == lines.last());
        assert(init[0] == lines[0]);
        let middle = join_lines(rest.drop_last());
        assert((lines[0] + seq!['\n'] + middle) + seq!['\n'] + lines.last() =~= lines[0] + seq![
            '\n',
        ] + (middle + seq!['\n'] + lines.last()));
    }
}

/// No line of a text holds a line feed.
pub proof fn lemma_split_lines_plain(text: Seq<char>)
    ensures
        all_lines(split_lines(text)),
    decreases text.len(),
{
    if text.len() > 0 {
        lemma_position(text, '\n');
        let n = position(text, '\n') as int;
        if n < text.len() {
            let head = strip_cr(text.take(n));
            let rest = split_lines(text.skip(n + 1));
            lemma_split_lines_plain(text.skip(n + 1));
            let all = split_lines(text);
            assert forall|i: int| 0 <= i < all.len() implies is_line(#[trigger] all[i]) by {
                if i == 0 {
                    assert forall|j: int| 0 <= j < head.len() implies #[trigger] head[j] != '\n' by {
                        assert(head[j] == text[j]);
                    }
                } else {
                    assert(all[i] == rest[i - 1]);
                }
            }
        }
    }
}

/// Stable lines come back as they are when they are joined and split again.
pub proof fn lemma_split_of_join(lines: Seq<Seq<char>>)
    requires
        is_stable(lines),
    ensures
        split_lines(join_lines(lines)) == lines,
    decreases lines.len(),
{
    if lines.len() == 0 {
    } else if lines.len() == 1 {
        let only = lines[0];
        assert(is_line(only));
        lemma_position_unique(only, '\n', only.len() as int);
        assert(split_lines(only) =~= lines);
    } else {
        let first = lines[0];
        let rest = lines.drop_first();
        let text = join_lines(lines);
        lemma_join_lines_front(lines);
        assert(is_line(first));
        assert(text[first.len() as int] == '\n');
        assert forall|i: int| 0 <= i < first.len() implies text[i] != '\n' by {
            assert(text[i] == first[i]);
        }
        lemma_position_unique(text, '\n', first.len() as int);
        assert(text.take(first.len() as int) =~= first);
        assert(text.skip(first.len() as int + 1) =~= join_lines(rest));
        assert(strip_cr(lines[0]) == lines[0]);
        assert forall|i: int| 0 <= i < rest.len() implies is_line(#[trigger] rest[i]) by {
            assert(rest[i] == lines[i + 1]);
        }
        assert forall|i: int| 0 <= i < rest.len() - 1 implies strip_cr(#[trigger] rest[i])
            == rest[i] by {
            assert(rest[i] == lines[i + 1]);
        }
        assert(rest.last() == lines.last());
        lemma_split_of_join(rest);
        assert(seq![first] + rest =~= lines);
    }
}

/// White space at the end of a text is trimmed away.
pub proof fn lemma_trim_push_space(s: Seq<char>, c: char)
    requires
        is_space(c),
    ensures
        trim(s.push(c)) == trim(s),
    decreases s.len(),
{
    let longer = s.push(c);
    if s.len() == 0 {
        assert(longer.drop_first() =~= s);
    } else if is_space(s.first()) {
        assert(longer.drop_first() =~= s.drop_first().push(c));
        lemma_trim_push_space(s.drop_first(), c);
    } else {
        assert(longer.first() == s.first());
        assert(longer.drop_last() =~= s);
    }
}

/// The place of the first `c` in a text that goes on with another character.
pub proof fn lemma_position_push(s: Seq<char>, c: char, last: char)
    requires
        last != c,
    ensures
        position(s.push(last), c) == (if position(s, c) < s.len() {
            position(s, c)
        } else {
            s.len() + 1
        }),
{
    lemma_position(s, c);
    let longer = s.push(last);
    let n = position(s, c) as int;
    if n < s.len() {
        assert(longer[n] == s[n]);
        assert forall|i: int| 0 <= i < n implies longer[i] != c by {
            assert(longer[i] == s[i]);
        }
        lemma_position_unique(longer, c, n);
    } else {
        assert forall|i: int| 0 <= i < s.len() + 1 implies longer[i] != c by {
            if i < s.len() {
                assert(longer[i] == s[i]);
            }
        }
        lemma_position_unique(longer, c, s.len() as int + 1);
    }
}

/// The stretch `from..to` of the characters of `s`, as a string of its own.
pub fn stretch_of(s: &str, from: usize, to: usize) -> (r: String)
    requires
        from <= to <= s@.len(),
    ensures
        r@ == s@.subrange(from as int, to as int),
{
    s.substring_char(from, to).to_owned()
}

/// Splits a text into its lines.
pub fn lines_of(raw: &str) -> (lines: Vec<String>)
    ensures
        texts(lines@) == split_lines(raw@),
{
    let chars = chars_of(raw);
    let len: usize = chars.len();
    let mut lines: Vec<String> = Vec::new();
    let mut start: usize = 0;
    proof {
        assert(raw@.skip(0) =~= raw@);
        assert(texts(lines@) + split_lines(raw@) =~= split_lines(raw@));
    }
    while start < len
        invariant
            chars@ == raw@,
            len == chars@.len(),
            start <= len,
            split_lines(raw@) == texts(lines@) + split_lines(raw@.skip(start as int)),
        decreases len - start,
    {
        let ghost rest = raw@.skip(start as int);
        let ghost before = texts(lines@);
        let n: usize = find_char(&chars, start, len, '\n');
        assert(chars@.subrange(start as int, len as int) =~= rest);
        if n == len {
            lines.push(stretch_of(raw, start, len));
            proof {
                assert(raw@.subrange(start as int, len as int) =~= rest);
                assert(texts(lines@) =~= before.push(rest));
                assert(raw@.skip(len as int) =~= Seq::<char>::empty());
                assert(split_lines(rest) =~= seq![rest]);
                assert(before + seq![rest] =~= before.push(rest));
                assert(split_lines(raw@.skip(len as int)) =~= Seq::<Seq<char>>::empty());
                assert(texts(lines@) + Seq::<Seq<char>>::empty() =~= texts(lines@));
            }
            start = len;
        } else {
            let end: usize = if n > start && chars[n - 1] == '\r' {
                n - 1
            } else {
                n
            };
            lines.push(stretch_of(raw, start, end));
            proof {
                let head = rest.take(n - start);
                assert(head =~= raw@.subrange(start as int, n as int));
                assert(strip_cr(head) =~= raw@.subrange(start as int, end as int));
                assert(rest.skip(n - start + 1) =~= raw@.skip(n + 1));
                assert(texts(lines@) =~= before.push(strip_cr(head)));
                assert(before + (seq![strip_cr(head)] + split_lines(raw@.skip(n + 1)))
                    =~= before.push(strip_cr(head)) + split_lines(raw@.skip(n + 1)));
            }
            start = n + 1;
        }
    }
    proof {
        assert(raw@.skip(start as int) =~= Seq::<char>::empty());
        assert(texts(lines@) + Seq::<Seq<char>>::empty() =~= texts(lines@));
    }
    lines
}

/// Joins lines into one text, with a line feed between each two.
pub fn join(lines: &Vec<String>) -> (r: String)
    ensures
        r@ == join_lines(texts(lines@)),
{
    let mut out = String::new();
    let n: usize = lines.len();
    let mut i: usize = 0;
    while i < n
        invariant
            n == lines.len(),
            i <= n,
            out@ == join_lines(texts(lines@).take(i as int)),
        decreases n - i,
    {
        let ghost done = texts(lines@).take(i as int);
        let ghost next = texts(lines@).take(i + 1);
        proof {
            assert(next.drop_last() =~= done);
            assert(next.last() == lines@[i as int]@);
        }
        if i > 0 {
            proof {
                reveal_strlit("\n");
                assert("\n"@ =~= seq!['\n']);
            }
            out.append("\n");
        }
        out.append(lines[i].as_str());
        proof {
            if i == 0 {
                assert(out@ =~= next[0]);
            }
        }
        i += 1;
    }
    proof {
        assert(texts(lines@).take(n as int) =~= texts(lines@));
    }
    out
}

} // verus!
