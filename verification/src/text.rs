//! Text: looking strings up, comparing them and putting them together.

use vstd::prelude::*;

verus! {

/// `String::push` of std: appends the given character to the end of the string.
pub assume_specification[ String::push ](s: &mut String, c: char)
    ensures
        final(s)@ == old(s)@.push(c),
;

/// The characters of each of the strings.
pub open spec fn texts(v: Seq<String>) -> Seq<Seq<char>> {
    v.map_values(|s: String| s@)
}

/// Whether one of the strings reads `text`.
pub open spec fn lists(v: Seq<String>, text: Seq<char>) -> bool {
    exists|i: int| 0 <= i < v.len() && (#[trigger] v[i])@ == text
}

/// Whether one of the strings reads like `s`.
pub fn contains_string(v: &Vec<String>, s: &String) -> (found: bool)
    ensures
        found == lists(v@, s@),
{
    for i in 0..v.len()
        invariant
            forall|k: int| 0 <= k < i ==> (#[trigger] v@[k])@ != s@,
    {
        if v[i] == *s {
            return true;
        }
    }
    false
}

/// A copy of some strings.
pub fn copy_strings(v: &Vec<String>) -> (copy: Vec<String>)
    ensures
        copy@ == v@,
{
    let mut copy: Vec<String> = Vec::new();
    for i in 0..v.len()
        invariant
            copy@ == v@.take(i as int),
    {
        copy.push(v[i].clone());
        assert(copy@ =~= v@.take(i + 1));
    }
    assert(v@.take(v@.len() as int) =~= v@);
    copy
}

/// Whether two texts read the same.
pub fn same_text(a: &str, b: &str) -> (same: bool)
    ensures
        same == (a@ == b@),
{
    a.to_owned() == b.to_owned()
}

/// The decimal digit of a number below ten.
pub open spec fn digit(d: int) -> char {
    if d == 0 {
        '0'
    } else if d == 1 {
        '1'
    } else if d == 2 {
        '2'
    } else if d == 3 {
        '3'
    } else if d == 4 {
        '4'
    } else if d == 5 {
        '5'
    } else if d == 6 {
        '6'
    } else if d == 7 {
        '7'
    } else if d == 8 {
        '8'
    } else {
        '9'
    }
}

/// A number in decimal digits.
pub open spec fn decimal(n: nat) -> Seq<char>
    decreases n,
{
    if n < 10 {
        seq![digit(n as int)]
    } else {
        decimal(n / 10).push(digit((n % 10) as int))
    }
}

/// The decimal digit of a number below ten.
pub fn digit_char(d: u64) -> (c: char)
    requires
        d < 10,
    ensures
        c == digit(d as int),
{
    if d == 0 {
        '0'
    } else if d == 1 {
        '1'
    } else if d == 2 {
        '2'
    } else if d == 3 {
        '3'
    } else if d == 4 {
        '4'
    } else if d == 5 {
        '5'
    } else if d == 6 {
        '6'
    } else if d == 7 {
        '7'
    } else if d == 8 {
        '8'
    } else {
        '9'
    }
}

/// Appends a number in decimal digits.
pub fn push_decimal(s: &mut String, n: u64)
    ensures
        final(s)@ == old(s)@ + decimal(n as nat),
    decreases n,
{
    if n >= 10 {
        push_decimal(s, n / 10);
    }
    let ghost before = s@;
    s.push(digit_char(n % 10));
    proof {
        if n >= 10 {
            assert(old(s)@ + decimal((n / 10) as nat).push(digit((n % 10) as int)) =~= (old(s)@
                + decimal((n / 10) as nat)).push(digit((n % 10) as int)));
        } else {
            assert(old(s)@ + decimal(n as nat) =~= old(s)@.push(digit(n as int)));
        }
    }
}

/// `n` spaces.
pub open spec fn spaces(n: int) -> Seq<char> {
    Seq::new(if n > 0 { n as nat } else { 0 }, |i: int| ' ')
}

/// A text moved to the right edge of a column; a longer text takes the space that it needs.
pub open spec fn right_aligned(text: Seq<char>, width: int) -> Seq<char> {
    spaces(width - text.len()) + text
}

/// A text at the left edge of a column; a longer text takes the space that it needs.
pub open spec fn left_aligned(text: Seq<char>, width: int) -> Seq<char> {
    text + spaces(width - text.len())
}

/// Appends spaces.
pub fn push_spaces(s: &mut String, n: usize)
    ensures
        final(s)@ == old(s)@ + spaces(n as int),
{
    let ghost before = s@;
    assert(before =~= before + spaces(0));
    for i in 0..n
        invariant
            s@ == before + spaces(i as int),
    {
        s.push(' ');
        assert(s@ =~= before + spaces(i + 1));
    }
}

/// Appends a text, moved to the right edge of a column.
pub fn push_right(s: &mut String, text: &str, width: usize)
    ensures
        final(s)@ == old(s)@ + right_aligned(text@, width as int),
{
    let ghost before = s@;
    let len: usize = text.unicode_len();
    if len < width {
        push_spaces(s, width - len);
    } else {
        assert(before =~= before + spaces(width - len));
    }
    s.append(text);
    assert(s@ =~= before + right_aligned(text@, width as int));
}

/// Appends a text at the left edge of a column.
pub fn push_left(s: &mut String, text: &str, width: usize)
    ensures
        final(s)@ == old(s)@ + left_aligned(text@, width as int),
{
    let ghost before = s@;
    let len: usize = text.unicode_len();
    s.append(text);
    if len < width {
        push_spaces(s, width - len);
    }
    assert(s@ =~= before + left_aligned(text@, width as int));
}

/// A number in decimal digits.
pub fn decimal_text(n: u64) -> (s: String)
    ensures
        s@ == decimal(n as nat),
{
    let mut s = String::new();
    push_decimal(&mut s, n);
    assert(s@ =~= decimal(n as nat));
    s
}

/// Whether a text comes before another: at the first place where they differ its character
/// comes first, or it ends first.
pub open spec fn before(a: Seq<char>, b: Seq<char>) -> bool
    decreases a.len(),
{
    if b.len() == 0 {
        false
    } else if a.len() == 0 {
        true
    } else if a[0] != b[0] {
        (a[0] as int) < (b[0] as int)
    } else {
        before(a.drop_first(), b.drop_first())
    }
}

/// Of two different texts, exactly one comes first.
pub proof fn lemma_before_total(a: Seq<char>, b: Seq<char>)
    ensures
        a == b || before(a, b) || before(b, a),
        !(before(a, b) && before(b, a)),
        !before(a, a),
    decreases a.len(),
{
    if a.len() > 0 && b.len() > 0 && a[0] == b[0] {
        lemma_before_total(a.drop_first(), b.drop_first());
        if a.drop_first() == b.drop_first() {
            assert(a =~= seq![a[0]] + a.drop_first());
            assert(b =~= seq![b[0]] + b.drop_first());
            assert(a == b);
        }
    } else if a.len() == 0 && b.len() == 0 {
        assert(a =~= b);
    }
    if a.len() > 0 {
        lemma_before_irreflexive(a);
    }
}

proof fn lemma_before_irreflexive(a: Seq<char>)
    ensures
        !before(a, a),
    decreases a.len(),
{
    if a.len() > 0 {
        lemma_before_irreflexive(a.drop_first());
    }
}

/// What comes before something that comes before a third comes before that.
pub proof fn lemma_before_trans(a: Seq<char>, b: Seq<char>, c: Seq<char>)
    requires
        before(a, b),
        before(b, c),
    ensures
        before(a, c),
    decreases a.len(),
{
    if a.len() > 0 && a[0] == b[0] && b[0] == c[0] {
        lemma_before_trans(a.drop_first(), b.drop_first(), c.drop_first());
    }
}

/// Whether a text comes before another.
pub fn comes_before(a: &str, b: &str) -> (r: bool)
    ensures
        r == before(a@, b@),
{
    let la: usize = a.unicode_len();
    let lb: usize = b.unicode_len();
    let mut i: usize = 0;
    proof {
        assert(a@.skip(0) =~= a@);
        assert(b@.skip(0) =~= b@);
    }
    loop
        invariant
            la == a@.len(),
            lb == b@.len(),
            i <= la,
            i <= lb,
            before(a@, b@) == before(a@.skip(i as int), b@.skip(i as int)),
        decreases la - i,
    {
        if i == lb {
            return false;
        }
        if i == la {
            return true;
        }
        let ca: char = a.get_char(i);
        let cb: char = b.get_char(i);
        if ca != cb {
            return (ca as u32) < (cb as u32);
        }
        proof {
            assert(a@.skip(i as int).drop_first() =~= a@.skip(i + 1));
            assert(b@.skip(i as int).drop_first() =~= b@.skip(i + 1));
        }
        i = i + 1;
    }
}

/// A text moved to the right edge of a column.
pub fn right(text: &str, width: usize) -> (s: String)
    ensures
        s@ == right_aligned(text@, width as int),
{
    let mut s = String::new();
    push_right(&mut s, text, width);
    assert(s@ =~= right_aligned(text@, width as int));
    s
}

/// A text at the left edge of a column.
pub fn left(text: &str, width: usize) -> (s: String)
    ensures
        s@ == left_aligned(text@, width as int),
{
    let mut s = String::new();
    push_left(&mut s, text, width);
    assert(s@ =~= left_aligned(text@, width as int));
    s
}

/// Some texts in a row, with the given text between any two.
pub open spec fn joined(parts: Seq<Seq<char>>, between: Seq<char>) -> Seq<char>
    decreases parts.len(),
{
    if parts.len() == 0 {
        Seq::empty()
    } else if parts.len() == 1 {
        parts[0]
    } else {
        joined(parts.drop_last(), between) + between + parts.last()
    }
}

/// Puts texts in a row, with the given text between any two.
pub fn join(parts: &Vec<String>, between: &str) -> (s: String)
    ensures
        s@ == joined(texts(parts@), between@),
{
    let mut s = String::new();
    assert(s@ =~= joined(texts(parts@).take(0), between@));
    for i in 0..parts.len()
        invariant
            s@ == joined(texts(parts@).take(i as int), between@),
    {
        if i > 0 {
            s.append(between);
        }
        s.append(parts[i].as_str());
        proof {
            let next = texts(parts@).take(i + 1);
            assert(next.drop_last() =~= texts(parts@).take(i as int));
            assert(next.last() == parts@[i as int]@);
            if i == 0 {
                assert(s@ =~= next[0]);
            }
        }
    }
    assert(texts(parts@).take(parts.len() as int) =~= texts(parts@));
    s
}

/// The hexadecimal digit of a number below sixteen.
pub open spec fn hex_digit(d: int) -> char {
    if d < 10 {
        digit(d)
    } else if d == 10 {
        'a'
    } else if d == 11 {
        'b'
    } else if d == 12 {
        'c'
    } else if d == 13 {
        'd'
    } else if d == 14 {
        'e'
    } else {
        'f'
    }
}

fn hex_char(d: u64) -> (c: char)
    requires
        d < 16,
    ensures
        c == hex_digit(d as int),
{
    if d < 10 {
        digit_char(d)
    } else if d == 10 {
        'a'
    } else if d == 11 {
        'b'
    } else if d == 12 {
        'c'
    } else if d == 13 {
        'd'
    } else if d == 14 {
        'e'
    } else {
        'f'
    }
}

/// A number in four hexadecimal digits, after a prefix that says so.
pub open spec fn hex(n: u16) -> Seq<char> {
    "0x"@ + seq![
        hex_digit(n as int / 4096),
        hex_digit(n as int / 256 % 16),
        hex_digit(n as int / 16 % 16),
        hex_digit(n as int % 16),
    ]
}

/// Appends a number in four hexadecimal digits.
pub fn push_hex(s: &mut String, n: u16)
    ensures
        final(s)@ == old(s)@ + hex(n),
{
    let m: u64 = n as u64;
    s.append("0x");
    s.push(hex_char(m / 4096));
    s.push(hex_char(m / 256 % 16));
    s.push(hex_char(m / 16 % 16));
    s.push(hex_char(m % 16));
    assert(s@ =~= old(s)@ + hex(n));
}

/// The number that some digits spell.
pub open spec fn spelled(digits: Seq<char>, base: int) -> int
    decreases digits.len(),
{
    if digits.len() == 0 {
        0
    } else {
        let c = digits.last() as int;
        spelled(digits.drop_last(), base) * base + if c >= 97 {
            c - 87
        } else {
            c - 48
        }
    }
}

/// The digits of a number spell it, and they do not start with a zero unless the number is
/// zero.
pub proof fn law_digits_spell_the_number(n: nat)
    ensures
        spelled(decimal(n), 10) == n,
        decimal(n).len() >= 1,
        n > 0 ==> decimal(n)[0] != '0',
    decreases n,
{
    reveal_with_fuel(spelled, 2);
    if n >= 10 {
        law_digits_spell_the_number(n / 10);
        let d = (n % 10) as int;
        assert(decimal(n).drop_last() =~= decimal(n / 10));
        assert(decimal(n).last() == digit(d));
        assert(digit(d) as int == 48 + d);
        assert(decimal(n)[0] == decimal(n / 10)[0]);
    } else {
        let d = n as int;
        assert(decimal(n).drop_last() =~= Seq::empty());
        assert(digit(d) as int == 48 + d);
    }
}

/// A number in hexadecimal has four digits after its prefix, and they spell it.
pub proof fn law_hex_digits_spell_the_number(n: u16)
    ensures
        hex(n).len() == 6,
        hex(n)[0] == '0',
        hex(n)[1] == 'x',
        spelled(hex(n).skip(2), 16) == n,
{
    reveal_strlit("0x");
    reveal_with_fuel(spelled, 6);
    let (a, b, c, d) = (
        n as int / 4096,
        n as int / 256 % 16,
        n as int / 16 % 16,
        n as int % 16,
    );
    let s = hex(n).skip(2);
    assert(s =~= seq![hex_digit(a), hex_digit(b), hex_digit(c), hex_digit(d)]);
    let s3 = s.drop_last();
    let s2 = s3.drop_last();
    let s1 = s2.drop_last();
    assert(s3.last() == hex_digit(c));
    assert(s2.last() == hex_digit(b));
    assert(s1.last() == hex_digit(a));
    assert(s1.drop_last() =~= Seq::empty());
    lemma_hex_digit(a);
    lemma_hex_digit(b);
    lemma_hex_digit(c);
    lemma_hex_digit(d);
    assert(spelled(s1, 16) == a);
    assert(spelled(s2, 16) == a * 16 + b);
    assert(spelled(s3, 16) == (a * 16 + b) * 16 + c);
    assert(spelled(s, 16) == ((a * 16 + b) * 16 + c) * 16 + d);
}

proof fn lemma_hex_digit(d: int)
    requires
        0 <= d < 16,
    ensures
        d < 10 ==> hex_digit(d) as int == 48 + d,
        d >= 10 ==> hex_digit(d) as int == 87 + d,
{
}

/// A column is as wide as asked for, or as its text where that is longer. The text stands at
/// its right or left edge, and the rest is spaces.
pub proof fn law_columns(text: Seq<char>, width: int, i: int)
    ensures
        ({
            let (r, l) = (right_aligned(text, width), left_aligned(text, width));
            let n = if width > text.len() {
                width
            } else {
                text.len() as int
            };
            let rest = n - text.len();
            &&& r.len() == n && l.len() == n
            &&& r.skip(rest) == text && l.take(text.len() as int) == text
            &&& 0 <= i < rest ==> r[i] == ' ' && l[text.len() + i] == ' '
        }),
{
    let n = if width > text.len() {
        width
    } else {
        text.len() as int
    };
    let rest = n - text.len();
    assert(right_aligned(text, width).skip(rest) =~= text);
    assert(left_aligned(text, width).take(text.len() as int) =~= text);
}

/// Where the `k`-th of some texts in a row starts.
pub open spec fn start_of(parts: Seq<Seq<char>>, between: int, k: int) -> int
    decreases k,
{
    if k <= 0 {
        0
    } else {
        start_of(parts, between, k - 1) + parts[k - 1].len() + between
    }
}

/// Texts in a row: each stands where those before it and what is between them end, and there
/// is nothing after the last.
pub proof fn law_joined_texts(parts: Seq<Seq<char>>, between: Seq<char>, k: int)
    requires
        0 <= k < parts.len(),
    ensures
        ({
            let at = start_of(parts, between.len() as int, k);
            let all = joined(parts, between);
            &&& 0 <= at
            &&& at + parts[k].len() <= all.len()
            &&& all.subrange(at, at + parts[k].len()) == parts[k]
            &&& k + 1 < parts.len() ==> at + parts[k].len() + between.len() <= all.len()
                && all.subrange(
                at + parts[k].len(),
                at + parts[k].len() + between.len(),
            ) == between
            &&& k + 1 == parts.len() ==> all.len() == at + parts[k].len()
        }),
    decreases parts.len(),
{
    let n = parts.len() as int;
    let all = joined(parts, between);
    let at = start_of(parts, between.len() as int, k);
    if n == 1 {
        assert(all.subrange(at, at + parts[k].len()) =~= parts[k]);
    } else {
        let fewer = parts.drop_last();
        let before = joined(fewer, between);
        lemma_start_of(parts, fewer, between.len() as int, k);
        law_joined_texts(fewer, between, n - 2);
        lemma_start_of(parts, fewer, between.len() as int, n - 2);
        if k < n - 1 {
            law_joined_texts(fewer, between, k);
            assert(all.subrange(at, at + parts[k].len()) =~= before.subrange(
                at,
                at + parts[k].len(),
            ));
            let end = at + parts[k].len();
            if k + 1 < n - 1 {
                assert(all.subrange(end, end + between.len()) =~= before.subrange(
                    end,
                    end + between.len(),
                ));
            } else {
                assert(all.subrange(end, end + between.len()) =~= between);
            }
        } else {
            assert(at == before.len() + between.len());
            assert(all.subrange(at, at + parts[k].len()) =~= parts[k]);
        }
    }
}

proof fn lemma_start_of(parts: Seq<Seq<char>>, fewer: Seq<Seq<char>>, between: int, k: int)
    requires
        fewer == parts.drop_last(),
        0 <= k < parts.len(),
        0 <= between,
    ensures
        start_of(parts, between, k) == start_of(fewer, between, k),
        0 <= start_of(parts, between, k),
    decreases k,
{
    if k > 0 {
        lemma_start_of(parts, fewer, between, k - 1);
    }
}

/// A text comes before another if, after what they have in common, it ends or goes on with
/// the lower character.
pub proof fn law_order_of_texts(a: Seq<char>, b: Seq<char>, k: int)
    requires
        0 <= k <= a.len(),
        k <= b.len(),
        a.take(k) == b.take(k),
        k < a.len() && k < b.len() ==> a[k] != b[k],
    ensures
        before(a, b) <==> k < b.len() && (k == a.len() || (a[k] as int) < (b[k] as int)),
    decreases k,
{
    if k > 0 {
        let (x, y) = (a.drop_first(), b.drop_first());
        assert(a[0] == a.take(k)[0] && b[0] == b.take(k)[0]);
        assert forall|i: int| 0 <= i < k - 1 implies x[i] == y[i] by {
            assert(x[i] == a.take(k)[i + 1] && y[i] == b.take(k)[i + 1]);
        }
        assert(x.take(k - 1) =~= y.take(k - 1));
        law_order_of_texts(x, y, k - 1);
    }
}

/// A list of strings lists what one of them reads.
pub proof fn law_listed_texts(v: Seq<String>, text: Seq<char>)
    ensures
        lists(v, text) <==> texts(v).contains(text),
{
    if lists(v, text) {
        let i = choose|i: int| 0 <= i < v.len() && (#[trigger] v[i])@ == text;
        assert(texts(v)[i] == text);
    }
    if texts(v).contains(text) {
        let i = choose|i: int| 0 <= i < texts(v).len() && texts(v)[i] == text;
        assert(v[i]@ == text);
    }
}

} // verus!
