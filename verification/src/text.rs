//! Text helpers: whitespace, trimming, padding, joining and the conversions
//! between `String` and `Vec<char>` that the rest of the crate builds on.
use vstd::prelude::*;

verus! {

/// The Unicode `White_Space` property, which `char::is_whitespace` and
/// `str::trim` use.
pub open spec fn is_ws(c: char) -> bool {
    ||| ('\u{9}' <= c && c <= '\u{d}')
    ||| c == ' '
    ||| c == '\u{85}'
    ||| c == '\u{a0}'
    ||| c == '\u{1680}'
    ||| ('\u{2000}' <= c && c <= '\u{200a}')
    ||| c == '\u{2028}'
    ||| c == '\u{2029}'
    ||| c == '\u{202f}'
    ||| c == '\u{205f}'
    ||| c == '\u{3000}'
}

/// `s` without its leading whitespace.
pub open spec fn trim_start(s: Seq<char>) -> Seq<char>
    decreases s.len(),
{
    if s.len() > 0 && is_ws(s[0]) {
        trim_start(s.drop_first())
    } else {
        s
    }
}

/// `s` without its trailing whitespace.
pub open spec fn trim_end(s: Seq<char>) -> Seq<char>
    decreases s.len(),
{
    if s.len() > 0 && is_ws(s.last()) {
        trim_end(s.drop_last())
    } else {
        s
    }
}

/// `s` without leading and trailing whitespace, as `str::trim` gives it.
pub open spec fn trim(s: Seq<char>) -> Seq<char> {
    trim_end(trim_start(s))
}

/// Whether `c` is whitespace in the sense of `char::is_whitespace`.
pub fn is_whitespace(c: char) -> (res: bool)
    ensures
        res == is_ws(c),
{
    ('\u{9}' <= c && c <= '\u{d}') || c == ' ' || c == '\u{85}' || c == '\u{a0}' || c == '\u{1680}'
        || ('\u{2000}' <= c && c <= '\u{200a}') || c == '\u{2028}' || c == '\u{2029}' || c
        == '\u{202f}' || c == '\u{205f}' || c == '\u{3000}'
}


/// Appends `c` to `s` (std's `String::push`): the text after the call is
/// the text before it with `c` at the end.
#[verifier::external_body]
pub fn push_char(s: &mut String, c: char)
    ensures
        final(s)@ == old(s)@.push(c),
{
    s.push(c);
}

/// The characters of `s`, in order.
pub fn chars_of(s: &str) -> (v: Vec<char>)
    ensures
        v@ == s@,
{
    let n = s.unicode_len();
    let mut v: Vec<char> = Vec::new();
    let mut i: usize = 0;
    while i < n
        invariant
            n == s@.len(),
            i <= n,
            v@ == s@.subrange(0, i as int),
        decreases n - i,
    {
        let c = s.get_char(i);
        v.push(c);
        i = i + 1;
        assert(v@ == s@.subrange(0, i as int));
    }
    assert(s@.subrange(0, n as int) == s@);
    v
}

/// The characters `v[from..to]` as a `String`.
pub fn string_of_range(v: &Vec<char>, from: usize, to: usize) -> (s: String)
    requires
        from <= to <= v@.len(),
    ensures
        s@ == v@.subrange(from as int, to as int),
{
    let mut s = String::new();
    let mut i: usize = from;
    while i < to
        invariant
            from <= i <= to <= v@.len(),
            s@ == v@.subrange(from as int, i as int),
        decreases to - i,
    {
        push_char(&mut s, v[i]);
        i = i + 1;
        assert(s@ == v@.subrange(from as int, i as int));
    }
    s
}

/// The characters of `v` as a `String`.
pub fn string_of(v: &Vec<char>) -> (s: String)
    ensures
        s@ == v@,
{
    let s = string_of_range(v, 0, v.len());
    assert(v@.subrange(0, v@.len() as int) == v@);
    s
}

/// Whether two texts are equal, character for character.
pub fn str_eq(a: &str, b: &str) -> (res: bool)
    ensures
        res == (a@ == b@),
{
    let n = a.unicode_len();
    if n != b.unicode_len() {
        return false;
    }
    let mut i: usize = 0;
    while i < n
        invariant
            n == a@.len() == b@.len(),
            i <= n,
            a@.subrange(0, i as int) == b@.subrange(0, i as int),
        decreases n - i,
    {
        if a.get_char(i) != b.get_char(i) {
            assert(a@[i as int] != b@[i as int]);
            return false;
        }
        i = i + 1;
        assert(a@.subrange(0, i as int) == b@.subrange(0, i as int)) by {
            assert forall|k: int| 0 <= k < i implies a@.subrange(0, i as int)[k] == b@.subrange(0, i as int)[k] by {
                if k < i - 1 {
                    assert(a@.subrange(0, i - 1)[k] == b@.subrange(0, i - 1)[k]);
                }
            }
        }
    }
    assert(a@ == a@.subrange(0, n as int));
    assert(b@ == b@.subrange(0, n as int));
    true
}

/// Whether the characters of `v` spell `b`.
pub fn chars_eq_str(v: &Vec<char>, b: &str) -> (res: bool)
    ensures
        res == (v@ == b@),
{
    let n = v.len();
    if n != b.unicode_len() {
        return false;
    }
    let mut i: usize = 0;
    while i < n
        invariant
            n == v@.len() == b@.len(),
            i <= n,
            forall|k: int| 0 <= k < i ==> v@[k] == b@[k],
        decreases n - i,
    {
        if v[i] != b.get_char(i) {
            return false;
        }
        i = i + 1;
    }
    assert(v@ == b@);
    true
}

proof fn lemma_trim_start_skip(s: Seq<char>, i: int)
    requires
        0 <= i < s.len(),
        is_ws(s[i]),
    ensures
        trim_start(s.subrange(i, s.len() as int)) == trim_start(s.subrange(i + 1, s.len() as int)),
{
    let t = s.subrange(i, s.len() as int);
    assert(t.drop_first() == s.subrange(i + 1, s.len() as int));
}

proof fn lemma_trim_end_skip(s: Seq<char>, i: int, j: int)
    requires
        0 <= i < j <= s.len(),
        is_ws(s[j - 1]),
    ensures
        trim_end(s.subrange(i, j)) == trim_end(s.subrange(i, j - 1)),
{
    let t = s.subrange(i, j);
    assert(t.drop_last() == s.subrange(i, j - 1));
}

/// The bounds of the trimmed part of `v`: `v[start..end]` is `trim(v)`.
pub fn trim_bounds(v: &Vec<char>) -> (r: (usize, usize))
    ensures
        r.0 <= r.1 <= v@.len(),
        v@.subrange(r.0 as int, r.1 as int) == trim(v@),
        trim_start(v@) == v@.subrange(r.0 as int, v@.len() as int),
{
    let n = v.len();
    let mut i: usize = 0;
    assert(v@.subrange(0, n as int) == v@);
    while i < n && is_whitespace(v[i])
        invariant
            n == v@.len(),
            i <= n,
            trim_start(v@) == trim_start(v@.subrange(i as int, n as int)),
        decreases n - i,
    {
        proof {
            lemma_trim_start_skip(v@, i as int);
        }
        i = i + 1;
    }
    assert(trim_start(v@.subrange(i as int, n as int)) == v@.subrange(i as int, n as int));
    let mut j: usize = n;
    while j > i && is_whitespace(v[j - 1])
        invariant
            n == v@.len(),
            i <= j <= n,
            trim_end(v@.subrange(i as int, n as int)) == trim_end(v@.subrange(i as int, j as int)),
        decreases j,
    {
        proof {
            lemma_trim_end_skip(v@, i as int, j as int);
        }
        j = j - 1;
    }
    assert(trim_end(v@.subrange(i as int, j as int)) == v@.subrange(i as int, j as int));
    (i, j)
}

/// `str::trim`: the text without leading and trailing whitespace.
pub fn trim_str(s: &str) -> (res: String)
    ensures
        res@ == trim(s@),
{
    let v = chars_of(s);
    let (a, b) = trim_bounds(&v);
    string_of_range(&v, a, b)
}


/// What std's `str::to_lowercase` returns for a text: the full Unicode
/// lowercase mapping of each character (some map to several), which is
/// given by Unicode's tables.
pub uninterp spec fn lowercase(s: Seq<char>) -> Seq<char>;

/// A character with ASCII capitals mapped to their small letters.
pub open spec fn ascii_lower(c: char) -> char {
    if 'A' <= c && c <= 'Z' {
        ((c as u32) + 32) as char
    } else {
        c
    }
}

/// Whether every character of `s` is ASCII.
pub open spec fn all_ascii(s: Seq<char>) -> bool {
    forall|i: int| 0 <= i < s.len() ==> (s[i] as u32) < 128
}

/// std's `str::to_lowercase`. Its result depends on the text alone and is
/// named `lowercase`. Of an ASCII text it is stated that capitals become
/// small letters and everything else is kept, and of a text that starts
/// with an ASCII character, that the result starts with that character
/// lowercased (an ASCII character maps to itself or its small letter,
/// alone); beyond that, the content (Unicode's case tables) is not stated.
#[verifier::external_body]
pub fn to_lowercase(s: &str) -> (res: String)
    ensures
        res@ == lowercase(s@),
        all_ascii(s@) ==> res@ == s@.map_values(|c: char| ascii_lower(c)),
        s@.len() > 0 && (s@[0] as u32) < 128 ==> res@.len() > 0 && res@[0] == ascii_lower(s@[0]),
{
    s.to_lowercase()
}

/// `s` padded on the right with spaces to `width` characters, as the
/// format spec `{:<width}` gives it; a longer `s` is left as it is.
pub open spec fn pad_right(s: Seq<char>, width: nat) -> Seq<char> {
    if s.len() >= width {
        s
    } else {
        s + Seq::new((width - s.len()) as nat, |i: int| ' ')
    }
}

/// Formats `s` with `{:<width}`.
pub fn pad_right_str(s: &str, width: usize) -> (res: String)
    ensures
        res@ == pad_right(s@, width as nat),
{
    let mut res = String::from_str(s);
    let n = s.unicode_len();
    let mut i: usize = n;
    while i < width
        invariant
            n == s@.len(),
            n <= i,
            n < width ==> i <= width,
            width <= n ==> i == n,
            res@ == s@ + Seq::new((i - n) as nat, |k: int| ' '),
        decreases width - i,
    {
        push_char(&mut res, ' ');
        i = i + 1;
        assert(res@ == s@ + Seq::new((i - n) as nat, |k: int| ' '));
    }
    assert(Seq::new(0, |k: int| ' ') =~= Seq::<char>::empty());
    if n >= width {
        assert(res@ == s@);
    } else {
        assert(i == width);
    }
    res
}

/// Lines joined with `"\n"`, as `[..].join("\n")` gives them.
pub open spec fn join_lines(lines: Seq<Seq<char>>) -> Seq<char>
    decreases lines.len(),
{
    if lines.len() == 0 {
        Seq::empty()
    } else if lines.len() == 1 {
        lines[0]
    } else {
        join_lines(lines.drop_last()) + seq!['\n'] + lines.last()
    }
}

/// The views of a sequence of `String`s.
pub open spec fn views(v: Seq<String>) -> Seq<Seq<char>> {
    v.map_values(|s: String| s@)
}

/// `lines.join("\n")`.
pub fn join_lines_str(lines: &Vec<String>) -> (res: String)
    ensures
        res@ == join_lines(views(lines@)),
{
    let mut res = String::new();
    let ghost all = views(lines@);
    let n = lines.len();
    let mut i: usize = 0;
    while i < n
        invariant
            n == lines@.len(),
            all == views(lines@),
            i <= n,
            res@ == join_lines(all.take(i as int)),
        decreases n - i,
    {
        if i != 0 {
            push_char(&mut res, '\n');
        }
        res.append(lines[i].as_str());
        assert(all.take(i + 1).drop_last() == all.take(i as int));
        i = i + 1;
    }
    assert(all.take(n as int) == all);
    res
}

/// The decimal digits.
pub open spec fn digit_chars() -> Seq<char> {
    seq!['0', '1', '2', '3', '4', '5', '6', '7', '8', '9']
}

/// The decimal form of `n`, as `{}` formats an unsigned integer.
pub open spec fn decimal(n: nat) -> Seq<char>
    decreases n,
{
    if n < 10 {
        seq![digit_chars()[n as int]]
    } else {
        decimal(n / 10).push(digit_chars()[(n % 10) as int])
    }
}

fn digit(d: u128) -> (c: char)
    requires
        d < 10,
    ensures
        c == digit_chars()[d as int],
{
    match d {
        0 => '0',
        1 => '1',
        2 => '2',
        3 => '3',
        4 => '4',
        5 => '5',
        6 => '6',
        7 => '7',
        8 => '8',
        _ => '9',
    }
}

/// Formats `n` with `{}`.
pub fn decimal_str(n: u128) -> (res: String)
    ensures
        res@ == decimal(n as nat),
    decreases n,
{
    if n < 10 {
        let mut s = String::new();
        push_char(&mut s, digit(n));
        s
    } else {
        let mut s = decimal_str(n / 10);
        push_char(&mut s, digit(n % 10));
        s
    }
}

/// A `String` holding the text of `s`.
pub fn owned(s: &str) -> (res: String)
    ensures
        res@ == s@,
{
    String::from_str(s)
}

/// The text of `a` followed by that of `b`.
pub fn concat2(a: &str, b: &str) -> (res: String)
    ensures
        res@ == a@ + b@,
{
    let mut r = String::from_str(a);
    r.append(b);
    r
}

/// The text of `a`, `b` and `c` in turn.
pub fn concat3(a: &str, b: &str, c: &str) -> (res: String)
    ensures
        res@ == a@ + b@ + c@,
{
    let mut r = String::from_str(a);
    r.append(b);
    r.append(c);
    r
}


/// Whether `s` starts with `p` (`str::starts_with` on a text pattern).
pub fn str_starts_with(s: &str, p: &str) -> (res: bool)
    ensures
        res == p@.is_prefix_of(s@),
{
    let n = p.unicode_len();
    if n > s.unicode_len() {
        return false;
    }
    let mut i: usize = 0;
    while i < n
        invariant
            n == p@.len(),
            n <= s@.len(),
            i <= n,
            forall|k: int| 0 <= k < i ==> p@[k] == s@[k],
        decreases n - i,
    {
        if p.get_char(i) != s.get_char(i) {
            return false;
        }
        i = i + 1;
    }
    assert(p@ =~= s@.subrange(0, n as int));
    true
}


/// The characters `v[from..to]`.
pub fn chars_range(v: &Vec<char>, from: usize, to: usize) -> (r: Vec<char>)
    requires
        from <= to <= v@.len(),
    ensures
        r@ == v@.subrange(from as int, to as int),
{
    let mut r: Vec<char> = Vec::new();
    let mut i: usize = from;
    while i < to
        invariant
            from <= i <= to <= v@.len(),
            r@ == v@.subrange(from as int, i as int),
        decreases to - i,
    {
        r.push(v[i]);
        i = i + 1;
        assert(r@ =~= v@.subrange(from as int, i as int));
    }
    r
}

/// The first position at or after `from` that is not whitespace:
/// `v[j..]` is `v[from..]` without its leading whitespace.
pub fn skip_ws(v: &Vec<char>, from: usize) -> (j: usize)
    requires
        from <= v@.len(),
    ensures
        from <= j <= v@.len(),
        trim_start(v@.subrange(from as int, v@.len() as int)) == v@.subrange(
            j as int,
            v@.len() as int,
        ),
{
    let n = v.len();
    let mut j: usize = from;
    while j < n && is_whitespace(v[j])
        invariant
            n == v@.len(),
            from <= j <= n,
            trim_start(v@.subrange(from as int, n as int)) == trim_start(
                v@.subrange(j as int, n as int),
            ),
        decreases n - j,
    {
        proof {
            lemma_trim_start_skip(v@, j as int);
        }
        j = j + 1;
    }
    j
}


/// The pieces of `s` between its `'\n'` characters, as `str::split('\n')`
/// yields them: one more piece than there are newlines.
pub open spec fn split_nl(s: Seq<char>) -> Seq<Seq<char>>
    decreases s.len(),
{
    if s.len() == 0 {
        seq![Seq::empty()]
    } else {
        let r = split_nl(s.drop_last());
        if s.last() == '\n' {
            r.push(Seq::empty())
        } else {
            r.update(r.len() - 1, r.last().push(s.last()))
        }
    }
}

proof fn lemma_split_nl_nonempty(s: Seq<char>)
    ensures
        split_nl(s).len() >= 1,
    decreases s.len(),
{
    if s.len() > 0 {
        lemma_split_nl_nonempty(s.drop_last());
    }
}

/// `s.split('\n')`, collected.
pub fn split_lines(s: &str) -> (res: Vec<String>)
    ensures
        views(res@) == split_nl(s@),
{
    let v = chars_of(s);
    let n = v.len();
    let mut done: Vec<String> = Vec::new();
    let mut cur = String::new();
    let mut i: usize = 0;
    while i < n
        invariant
            n == v@.len(),
            v@ == s@,
            i <= n,
            views(done@).push(cur@) == split_nl(v@.take(i as int)),
        decreases n - i,
    {
        let c = v[i];
        let ghost pre = v@.take(i as int);
        assert(v@.take(i + 1).drop_last() =~= pre);
        assert(v@.take(i + 1).last() == c);
        proof {
            lemma_split_nl_nonempty(pre);
        }
        if c == '\n' {
            let ghost d = views(done@);
            let piece = cur;
            let ghost p = piece@;
            done.push(piece);
            cur = String::new();
            assert(views(done@) =~= d.push(p));
        } else {
            let ghost d = views(done@);
            push_char(&mut cur, c);
            assert(views(done@).push(cur@) =~= d.push(cur@));
            assert(d.push(cur@) =~= split_nl(pre).update(split_nl(pre).len() - 1, split_nl(pre).last().push(c)));
        }
        i = i + 1;
    }
    assert(v@.take(n as int) =~= v@);
    let ghost d = views(done@);
    let last = cur;
    let ghost l = last@;
    done.push(last);
    assert(views(done@) =~= d.push(l));
    done
}

/// The number of bytes that UTF-8 takes for `c` (`char::len_utf8`).
pub open spec fn utf8_len(c: char) -> nat {
    if (c as u32) < 0x80 {
        1
    } else if (c as u32) < 0x800 {
        2
    } else if (c as u32) < 0x10000 {
        3
    } else {
        4
    }
}

/// The number of bytes that UTF-8 takes for `s`.
pub open spec fn utf8_width(s: Seq<char>) -> nat
    decreases s.len(),
{
    if s.len() == 0 {
        0
    } else {
        utf8_width(s.drop_last()) + utf8_len(s.last())
    }
}


/// Every character of `trim_start(s)` is one of `s`.
pub proof fn lemma_trim_start_contains(s: Seq<char>)
    ensures
        forall|c: char| trim_start(s).contains(c) ==> s.contains(c),
    decreases s.len(),
{
    if s.len() > 0 && is_ws(s[0]) {
        lemma_trim_start_contains(s.drop_first());
        assert forall|c: char| trim_start(s).contains(c) implies s.contains(c) by {
            assert(trim_start(s) == trim_start(s.drop_first()));
            assert(s.drop_first().contains(c));
            let k = choose|k: int| 0 <= k < s.drop_first().len() && s.drop_first()[k] == c;
            assert(s[k + 1] == c);
        }
    }
}

/// Every character of `trim_end(s)` is one of `s`.
pub proof fn lemma_trim_end_contains(s: Seq<char>)
    ensures
        forall|c: char| trim_end(s).contains(c) ==> s.contains(c),
    decreases s.len(),
{
    if s.len() > 0 && is_ws(s.last()) {
        lemma_trim_end_contains(s.drop_last());
        assert forall|c: char| trim_end(s).contains(c) implies s.contains(c) by {
            assert(trim_end(s) == trim_end(s.drop_last()));
            assert(s.drop_last().contains(c));
            let k = choose|k: int| 0 <= k < s.drop_last().len() && s.drop_last()[k] == c;
            assert(s[k] == c);
        }
    }
}

/// Every character of `trim(s)` is one of `s`.
pub proof fn lemma_trim_contains(s: Seq<char>)
    ensures
        forall|c: char| trim(s).contains(c) ==> s.contains(c),
{
    lemma_trim_start_contains(s);
    lemma_trim_end_contains(trim_start(s));
}

/// A text that starts with no whitespace keeps its start under `trim_start`.
pub proof fn lemma_trim_start_id(s: Seq<char>)
    requires
        s.len() == 0 || !is_ws(s[0]),
    ensures
        trim_start(s) == s,
{
}

/// A text that ends with no whitespace keeps its end under `trim_end`.
pub proof fn lemma_trim_end_id(s: Seq<char>)
    requires
        s.len() == 0 || !is_ws(s.last()),
    ensures
        trim_end(s) == s,
{
}

/// `trim_start(s)` is empty or starts with no whitespace.
pub proof fn lemma_trim_start_edge(s: Seq<char>)
    ensures
        trim_start(s).len() == 0 || !is_ws(trim_start(s)[0]),
        trim_start(s).len() <= s.len(),
        trim_start(s).len() > 0 ==> trim_start(s).last() == s.last(),
    decreases s.len(),
{
    if s.len() > 0 && is_ws(s[0]) {
        lemma_trim_start_edge(s.drop_first());
    }
}

/// `trim_end(s)` is empty or ends with no whitespace, and keeps the start of `s`.
pub proof fn lemma_trim_end_edge(s: Seq<char>)
    ensures
        trim_end(s).len() == 0 || !is_ws(trim_end(s).last()),
        trim_end(s).len() <= s.len(),
        trim_end(s).len() > 0 ==> trim_end(s)[0] == s[0],
    decreases s.len(),
{
    if s.len() > 0 && is_ws(s.last()) {
        lemma_trim_end_edge(s.drop_last());
    }
}

/// `trim(s)` is empty or has no whitespace at either end.
pub proof fn lemma_trim_edges(s: Seq<char>)
    ensures
        trim(s).len() == 0 || (!is_ws(trim(s)[0]) && !is_ws(trim(s).last())),
{
    lemma_trim_start_edge(s);
    lemma_trim_end_edge(trim_start(s));
}

/// Trimming twice is trimming once.
pub proof fn lemma_trim_idempotent(s: Seq<char>)
    ensures
        trim(trim(s)) == trim(s),
{
    lemma_trim_edges(s);
    let t = trim(s);
    lemma_trim_start_id(t);
    lemma_trim_end_id(t);
}


/// Joining the pieces of `s.split('\n')` with `"\n"` gives `s` back.
pub proof fn lemma_join_split(s: Seq<char>)
    ensures
        join_lines(split_nl(s)) == s,
    decreases s.len(),
{
    if s.len() > 0 {
        let p = s.drop_last();
        lemma_join_split(p);
        lemma_split_nl_nonempty(p);
        let r = split_nl(p);
        if s.last() == '\n' {
            assert(r.push(Seq::empty()).drop_last() =~= r);
            assert(join_lines(r.push(Seq::empty())) =~= join_lines(r) + seq!['\n']);
            assert(p + seq!['\n'] =~= s);
        } else {
            let u = r.update(r.len() - 1, r.last().push(s.last()));
            if r.len() == 1 {
                assert(join_lines(u) == u[0]);
                assert(join_lines(r) == r[0]);
                assert(r[0].push(s.last()) =~= s);
            } else {
                assert(u.drop_last() =~= r.drop_last());
                assert(join_lines(r) == join_lines(r.drop_last()) + seq!['\n'] + r.last());
                assert(join_lines(u) == join_lines(r.drop_last()) + seq!['\n'] + r.last().push(s.last()));
                assert(join_lines(u) =~= join_lines(r).push(s.last()));
                assert(p.push(s.last()) =~= s);
            }
        }
    }
}


/// Padding keeps the text in front, fills with spaces up to the width, and
/// never shortens the text.
pub proof fn lemma_pad_right(s: Seq<char>, width: nat)
    ensures
        pad_right(s, width).len() == (if s.len() >= width {
            s.len()
        } else {
            width
        }),
        pad_right(s, width).take(s.len() as int) == s,
        forall|i: int| s.len() <= i < pad_right(s, width).len() ==> pad_right(s, width)[i] == ' ',
{
    assert(pad_right(s, width).take(s.len() as int) =~= s);
}

/// The decimal form of a number is made of digits only, has no leading
/// zero (but for 0 itself), and appending a digit to a positive number
/// appends its digit to the form.
pub proof fn lemma_decimal(n: nat, d: nat)
    requires
        d < 10,
    ensures
        decimal(n).len() >= 1,
        forall|i: int| 0 <= i < decimal(n).len() ==> digit_chars().contains(#[trigger] decimal(n)[i]),
        n > 0 ==> decimal(n)[0] != '0',
        n > 0 ==> decimal(n * 10 + d) == decimal(n).push(digit_chars()[d as int]),
    decreases n,
{
    if n >= 10 {
        lemma_decimal(n / 10, n % 10);
        assert forall|i: int| 0 <= i < decimal(n).len() implies digit_chars().contains(
            #[trigger] decimal(n)[i],
        ) by {
            if i < decimal(n).len() - 1 {
                assert(decimal(n)[i] == decimal(n / 10)[i]);
            } else {
                assert(digit_chars()[(n % 10) as int] == decimal(n)[i]);
            }
        }
    } else {
        assert(digit_chars()[n as int] == decimal(n)[0]);
    }
    if n > 0 {
        assert((n * 10 + d) / 10 == n) by (nonlinear_arith)
            requires
                d < 10,
        ;
        assert((n * 10 + d) % 10 == d) by (nonlinear_arith)
            requires
                d < 10,
        ;
    }
}

} // verus!
