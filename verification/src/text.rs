//! Character-level helpers shared by the identifier and path modules.

use vstd::prelude::*;

verus! {

/// Splits `s` at every occurrence of `sep`, keeping empty pieces, like `str::split`.
pub open spec fn split_on(s: Seq<char>, sep: char) -> Seq<Seq<char>>
    decreases s.len(),
{
    if s.len() == 0 {
        seq![Seq::<char>::empty()]
    } else if s.last() == sep {
        split_on(s.drop_last(), sep).push(Seq::<char>::empty())
    } else {
        let r = split_on(s.drop_last(), sep);
        r.update(r.len() - 1, r.last().push(s.last()))
    }
}

/// The views of a vector of strings.
pub open spec fn views(v: Seq<String>) -> Seq<Seq<char>> {
    v.map_values(|x: String| x@)
}

/// Whether `c` occurs in `s`.
pub open spec fn has_char(s: Seq<char>, c: char) -> bool {
    exists|i: int| 0 <= i < s.len() && s[i] == c
}

pub proof fn lemma_split_on_nonempty(s: Seq<char>, sep: char)
    ensures
        split_on(s, sep).len() >= 1,
    decreases s.len(),
{
    if s.len() > 0 {
        lemma_split_on_nonempty(s.drop_last(), sep);
    }
}

/// A string without the separator splits into itself alone.
pub proof fn lemma_split_on_without_sep(s: Seq<char>, sep: char)
    requires
        !has_char(s, sep),
    ensures
        split_on(s, sep) == seq![s],
    decreases s.len(),
{
    if s.len() > 0 {
        assert(!has_char(s.drop_last(), sep)) by {
            if has_char(s.drop_last(), sep) {
                let i = choose|i: int| 0 <= i < s.drop_last().len() && s.drop_last()[i] == sep;
                assert(s[i] == sep);
            }
        }
        lemma_split_on_without_sep(s.drop_last(), sep);
        assert(s.drop_last().push(s.last()) =~= s);
        assert(s[s.len() - 1] != sep);
        assert(seq![s.drop_last()].update(0, s.drop_last().push(s.last())) =~= seq![s]);
    } else {
        assert(s =~= Seq::<char>::empty());
    }
}

/// Text without the separator added to the end of `x` extends the last piece of `x`.
pub proof fn lemma_split_on_append(x: Seq<char>, b: Seq<char>, sep: char)
    requires
        !has_char(b, sep),
    ensures
        split_on(x + b, sep) == split_on(x, sep).update(
            split_on(x, sep).len() - 1,
            split_on(x, sep).last() + b,
        ),
    decreases b.len(),
{
    lemma_split_on_nonempty(x, sep);
    if b.len() == 0 {
        assert(x + b =~= x);
        assert(split_on(x, sep).last() + b =~= split_on(x, sep).last());
        assert(split_on(x, sep).update(split_on(x, sep).len() - 1, split_on(x, sep).last()) =~= split_on(x, sep));
    } else {
        let c = b.last();
        let b1 = b.drop_last();
        assert(!has_char(b1, sep)) by {
            if has_char(b1, sep) {
                let i = choose|i: int| 0 <= i < b1.len() && b1[i] == sep;
                assert(b[i] == sep);
            }
        }
        assert(c != sep) by {
            assert(b[b.len() - 1] == c);
        }
        lemma_split_on_append(x, b1, sep);
        assert(x + b =~= (x + b1).push(c));
        assert((x + b).drop_last() =~= x + b1);
        lemma_split_on_nonempty(x + b1, sep);
        let r = split_on(x, sep);
        assert(split_on(x + b, sep) =~= r.update(r.len() - 1, r.last() + b)) by {
            assert((r.last() + b1).push(c) =~= r.last() + b);
        }
    }
}

/// What `format!("{:?}", s)` gives for a string `s`: its `Debug` text.
pub uninterp spec fn debug_text_of(s: Seq<char>) -> Seq<char>;

/// Formats `s` with its `Debug` implementation (`format!("{:?}", s)`): `s` in double quotes,
/// with the characters that need it escaped. The text is named by `debug_text_of`.
#[verifier::external_body]
pub fn debug_str(s: &str) -> (r: String)
    ensures
        r@ == debug_text_of(s@),
{
    format!("{:?}", s)
}

/// Texts separated by a comma and a space, as the `Debug` text of a list shows its items.
pub open spec fn comma_list(items: Seq<Seq<char>>) -> Seq<char>
    decreases items.len(),
{
    if items.len() == 0 {
        Seq::<char>::empty()
    } else if items.len() == 1 {
        items[0]
    } else {
        comma_list(items.drop_last()) + seq![',', ' '] + items.last()
    }
}

/// Appends one character to a string (`String::push`).
#[verifier::external_body]
pub fn push_char(s: &mut String, c: char)
    ensures
        final(s)@ == old(s)@.push(c),
{
    s.push(c)
}

/// Splits `s` at every `sep`, as `str::split` does.
pub fn split_str(s: &str, sep: char) -> (r: Vec<String>)
    ensures
        views(r@) == split_on(s@, sep),
{
    let n = s.unicode_len();
    let mut parts: Vec<String> = Vec::new();
    let mut current = String::new();
    let mut i: usize = 0;
    assert(s@.take(0) =~= Seq::<char>::empty());
    while i < n
        invariant
            n == s@.len(),
            i <= n,
            views(parts@).push(current@) == split_on(s@.take(i as int), sep),
        decreases n - i,
    {
        let c = s.get_char(i);
        let ghost prev = s@.take(i as int);
        assert(s@.take(i + 1).drop_last() =~= prev);
        assert(s@.take(i + 1).last() == c);
        if c == sep {
            let done = current;
            parts.push(done);
            current = String::new();
            assert(views(parts@) =~= views(parts@.drop_last()).push(done@));
        } else {
            let ghost before = current@;
            push_char(&mut current, c);
            assert(views(parts@).push(current@) =~= views(parts@).push(before).update(
                views(parts@).len() as int,
                before.push(c),
            ));
        }
        i = i + 1;
    }
    assert(s@.take(n as int) =~= s@);
    parts.push(current);
    assert(views(parts@) =~= views(parts@.drop_last()).push(current@));
    parts
}

/// Whether `c` has the Unicode `White_Space` property, which is what `char::is_whitespace`
/// tests.
pub open spec fn is_white(c: char) -> bool {
    ||| ('\u{9}' <= c && c <= '\u{d}')
    ||| c == ' '
    ||| c == '\u{85}'
    ||| c == '\u{a0}'
    ||| c == '\u{1680}'
    ||| ('\u{2000}' <= c && c <= '\u{200a}')
    ||| c == '\u{2028}'
    ||| c == '\u{2029}'
    ||| c == '\u{202f}'
    ||| c == '\u{205f}'
    ||| c == '\u{3000}'
}

/// Whether every character of `s` is white space, so that trimming `s` leaves nothing.
pub open spec fn is_blank(s: Seq<char>) -> bool {
    forall|i: int| 0 <= i < s.len() ==> is_white(#[trigger] s[i])
}

/// `char::is_whitespace`.
pub fn is_whitespace(c: char) -> (r: bool)
    ensures
        r == is_white(c),
{
    ('\u{9}' <= c && c <= '\u{d}') || c == ' ' || c == '\u{85}' || c == '\u{a0}' || c == '\u{1680}'
        || ('\u{2000}' <= c && c <= '\u{200a}') || c == '\u{2028}' || c == '\u{2029}'
        || c == '\u{202f}' || c == '\u{205f}' || c == '\u{3000}'
}

/// Whether `s.trim()` is empty.
pub fn blank(s: &str) -> (r: bool)
    ensures
        r == is_blank(s@),
{
    let n = s.unicode_len();
    let mut i: usize = 0;
    while i < n
        invariant
            n == s@.len(),
            i <= n,
            forall|k: int| 0 <= k < i ==> is_white(#[trigger] s@[k]),
        decreases n - i,
    {
        if !is_whitespace(s.get_char(i)) {
            return false;
        }
        i = i + 1;
    }
    true
}

/// The character of the decimal digit `d`.
pub open spec fn digit_char(d: int) -> char {
    if d == 0 {
        '0'
    } else if d == 1 {
        '1'
    } else if d == 2 {
        '2'
    } else if d == 3 {
        '3'
    } else if d == 4 {
        '4'
    } else if d == 5 {
        '5'
    } else if d == 6 {
        '6'
    } else if d == 7 {
        '7'
    } else if d == 8 {
        '8'
    } else {
        '9'
    }
}

/// The decimal text of `n`, without leading zeros.
pub open spec fn decimal(n: nat) -> Seq<char>
    decreases n,
{
    if n < 10 {
        seq![digit_char(n as int)]
    } else {
        decimal(n / 10).push(digit_char((n % 10) as int))
    }
}

fn digit(d: u32) -> (r: char)
    requires
        d < 10,
    ensures
        r == digit_char(d as int),
{
    if d == 0 {
        '0'
    } else if d == 1 {
        '1'
    } else if d == 2 {
        '2'
    } else if d == 3 {
        '3'
    } else if d == 4 {
        '4'
    } else if d == 5 {
        '5'
    } else if d == 6 {
        '6'
    } else if d == 7 {
        '7'
    } else if d == 8 {
        '8'
    } else {
        '9'
    }
}

/// The decimal text of `n`, as `n.to_string()` writes it.
pub fn decimal_text(n: u32) -> (r: String)
    ensures
        r@ == decimal(n as nat),
    decreases n,
{
    if n < 10 {
        let mut out = String::new();
        push_char(&mut out, digit(n));
        assert(out@ =~= seq![digit_char(n as int)]);
        out
    } else {
        let mut out = decimal_text(n / 10);
        push_char(&mut out, digit(n % 10));
        out
    }
}

/// Pads `s` on the left with spaces to `width` characters, as `format!("{: >width$}", s)`.
pub open spec fn pad_left(s: Seq<char>, width: nat) -> Seq<char> {
    if s.len() >= width {
        s
    } else {
        Seq::new((width - s.len()) as nat, |i: int| ' ') + s
    }
}

/// Pads `s` on the left with spaces to `width` characters.
pub fn pad_left_text(s: &str, width: usize) -> (r: String)
    ensures
        r@ == pad_left(s@, width as nat),
{
    let n = s.unicode_len();
    let mut out = String::new();
    if n < width {
        let mut i: usize = 0;
        while i < width - n
            invariant
                n < width,
                i <= width - n,
                out@ == Seq::new(i as nat, |k: int| ' '),
            decreases width - n - i,
        {
            push_char(&mut out, ' ');
            i = i + 1;
            assert(out@ =~= Seq::new(i as nat, |k: int| ' '));
        }
    }
    out.append(s);
    proof {
        if n < width {
            assert(out@ =~= Seq::new((width - n) as nat, |k: int| ' ') + s@);
        } else {
            assert(out@ =~= s@);
        }
    }
    out
}

/// Lexicographic order of two texts by their characters, which is the order of their UTF-8
/// bytes: -1 when `a` comes first, 0 when they are equal, 1 when `b` comes first.
pub open spec fn text_order(a: Seq<char>, b: Seq<char>) -> int
    decreases a.len(),
{
    if a.len() == 0 && b.len() == 0 {
        0
    } else if a.len() == 0 {
        -1
    } else if b.len() == 0 {
        1
    } else if (a[0] as int) < (b[0] as int) {
        -1
    } else if (a[0] as int) > (b[0] as int) {
        1
    } else {
        text_order(a.drop_first(), b.drop_first())
    }
}

proof fn lemma_text_order_skip(a: Seq<char>, b: Seq<char>, i: int)
    requires
        0 <= i < a.len(),
        i < b.len(),
        a[i] == b[i],
    ensures
        text_order(a.skip(i), b.skip(i)) == text_order(a.skip(i + 1), b.skip(i + 1)),
{
    assert(a.skip(i).drop_first() =~= a.skip(i + 1));
    assert(b.skip(i).drop_first() =~= b.skip(i + 1));
}

/// Compares two texts as `str::cmp` does: -1, 0 or 1 as `a` is less than, equal to or
/// greater than `b`.
pub fn compare_text(a: &str, b: &str) -> (r: i8)
    ensures
        r == text_order(a@, b@),
        r == 0 <==> a@ == b@,
{
    let n = a.unicode_len();
    let m = b.unicode_len();
    let mut i: usize = 0;
    assert(a@.skip(0) =~= a@);
    assert(b@.skip(0) =~= b@);
    while i < n && i < m
        invariant
            n == a@.len(),
            m == b@.len(),
            i <= n,
            i <= m,
            text_order(a@.skip(i as int), b@.skip(i as int)) == text_order(a@, b@),
            a@.take(i as int) == b@.take(i as int),
        decreases n - i,
    {
        let x = a.get_char(i);
        let y = b.get_char(i);
        if x < y {
            assert(a@.skip(i as int)[0] == x);
            assert(b@.skip(i as int)[0] == y);
            proof {
                lemma_text_order_zero(a@, b@);
            }
            return -1;
        }
        if x > y {
            assert(a@.skip(i as int)[0] == x);
            assert(b@.skip(i as int)[0] == y);
            proof {
                lemma_text_order_zero(a@, b@);
            }
            return 1;
        }
        assert(x == y) by {
            assert((x as int) == (y as int));
        }
        proof {
            lemma_text_order_skip(a@, b@, i as int);
        }
        assert(a@.take(i + 1) =~= a@.take(i as int).push(x));
        assert(b@.take(i + 1) =~= b@.take(i as int).push(y));
        i = i + 1;
    }
    proof {
        lemma_text_order_zero(a@, b@);
    }
    if i == n && i == m {
        assert(a@ =~= a@.take(i as int));
        assert(b@ =~= b@.take(i as int));
        assert(a@.skip(i as int).len() == 0 && b@.skip(i as int).len() == 0);
        0
    } else if i == n {
        assert(a@.skip(i as int).len() == 0);
        -1
    } else {
        assert(b@.skip(i as int).len() == 0);
        1
    }
}

/// Equal texts, and only equal texts, are in order 0.
proof fn lemma_text_order_zero(a: Seq<char>, b: Seq<char>)
    ensures
        text_order(a, b) == 0 <==> a == b,
    decreases a.len(),
{
    if a.len() > 0 && b.len() > 0 && a[0] == b[0] {
        lemma_text_order_zero(a.drop_first(), b.drop_first());
        if a.drop_first() == b.drop_first() {
            assert(a =~= seq![a[0]] + a.drop_first());
            assert(b =~= seq![b[0]] + b.drop_first());
        }
        if a == b {
            assert(a.drop_first() == b.drop_first());
        }
    } else if a.len() > 0 && b.len() > 0 {
        assert((a[0] as int) != (b[0] as int));
        assert(a != b);
    } else if a.len() != b.len() {
        assert(a != b);
    } else {
        assert(a =~= b);
    }
}

} // verus!
