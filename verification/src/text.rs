//! Text primitives the supervisor needs: decimal rendering, splitting a
//! command line into words, and placeholder substitution.

use vstd::prelude::*;
use vstd::string::*;

verus! {

/// The character that stands for the digit `d`.
pub open spec fn digit_char(d: nat) -> char {
    if d == 0 {
        '0'
    } else if d == 1 {
        '1'
    } else if d == 2 {
        '2'
    } else if d == 3 {
        '3'
    } else if d == 4 {
        '4'
    } else if d == 5 {
        '5'
    } else if d == 6 {
        '6'
    } else if d == 7 {
        '7'
    } else if d == 8 {
        '8'
    } else {
        '9'
    }
}

/// The decimal numeral of `n`, most significant digit first, without
/// leading zeros.
pub open spec fn decimal(n: nat) -> Seq<char>
    decreases n,
{
    if n < 10 {
        seq![digit_char(n)]
    } else {
        decimal(n / 10).push(digit_char(n % 10))
    }
}

/// The pieces of `s` between occurrences of `sep`. There is always at
/// least one piece; two adjacent separators enclose an empty piece.
pub open spec fn split(s: Seq<char>, sep: char) -> Seq<Seq<char>>
    decreases s.len(),
{
    if s.len() == 0 {
        seq![Seq::<char>::empty()]
    } else {
        let before = split(s.drop_last(), sep);
        if s.last() == sep {
            before.push(Seq::<char>::empty())
        } else {
            before.drop_last().push(before.last().push(s.last()))
        }
    }
}

/// The pieces joined again, `sep` between each two neighbours.
pub open spec fn join(pieces: Seq<Seq<char>>, sep: char) -> Seq<char>
    decreases pieces.len(),
{
    if pieces.len() == 0 {
        Seq::<char>::empty()
    } else if pieces.len() == 1 {
        pieces[0]
    } else {
        join(pieces.drop_last(), sep).push(sep) + pieces.last()
    }
}

/// Whether `pattern` stands in `s` at position `at`.
pub open spec fn occurs_at(s: Seq<char>, pattern: Seq<char>, at: int) -> bool {
    0 <= at && at + pattern.len() <= s.len() && s.subrange(at, at + pattern.len()) == pattern
}

/// `s` with every occurrence of `pattern` replaced by `with`, scanning from
/// the left; occurrences do not overlap. An empty pattern replaces nothing.
pub open spec fn replace(s: Seq<char>, pattern: Seq<char>, with: Seq<char>) -> Seq<char>
    decreases s.len(),
{
    if pattern.len() == 0 || s.len() < pattern.len() {
        s
    } else if occurs_at(s, pattern, 0) {
        with + replace(s.subrange(pattern.len() as int, s.len() as int), pattern, with)
    } else {
        seq![s[0]] + replace(s.subrange(1, s.len() as int), pattern, with)
    }
}

/// The views of the strings of `v`, in order.
pub open spec fn views(v: Seq<String>) -> Seq<Seq<char>> {
    Seq::new(v.len(), |i: int| v[i]@)
}

/// Splitting never yields an empty list of pieces.
pub proof fn lemma_split_nonempty(s: Seq<char>, sep: char)
    ensures
        split(s, sep).len() >= 1,
    decreases s.len(),
{
    if s.len() > 0 {
        lemma_split_nonempty(s.drop_last(), sep);
    }
}

/// Joining the pieces of a split gives the text back, and no piece holds
/// the separator.
pub proof fn lemma_join_split(s: Seq<char>, sep: char)
    ensures
        join(split(s, sep), sep) == s,
        forall|i: int| 0 <= i < split(s, sep).len() ==> !(#[trigger] split(s, sep)[i]).contains(sep),
    decreases s.len(),
{
    let pieces = split(s, sep);
    if s.len() == 0 {
        assert(pieces[0] =~= Seq::<char>::empty());
        assert forall|i: int| 0 <= i < pieces.len() implies !(#[trigger] pieces[i]).contains(sep) by {
            assert(pieces[i].len() == 0);
        }
    } else {
        let before = split(s.drop_last(), sep);
        lemma_split_nonempty(s.drop_last(), sep);
        lemma_join_split(s.drop_last(), sep);
        if s.last() == sep {
            assert(pieces.drop_last() =~= before);
            assert(join(pieces, sep) =~= join(before, sep).push(sep) + Seq::<char>::empty());
            assert(join(pieces, sep) =~= s.drop_last().push(sep));
            assert(s.drop_last().push(s.last()) =~= s);
            assert forall|i: int| 0 <= i < pieces.len() implies !(#[trigger] pieces[i]).contains(
                sep,
            ) by {
                if i < before.len() {
                    assert(pieces[i] == before[i]);
                } else {
                    assert(pieces[i].len() == 0);
                }
            }
        } else {
            let grown = before.last().push(s.last());
            assert(pieces.last() == grown);
            assert(pieces.drop_last() =~= before.drop_last());
            if before.len() == 1 {
                assert(join(before, sep) == before[0]);
                assert(join(pieces, sep) == grown);
            } else {
                assert(join(before, sep) == join(before.drop_last(), sep).push(sep) + before.last());
                assert(join(pieces, sep) == join(before.drop_last(), sep).push(sep) + grown);
                assert(join(pieces, sep) =~= join(before, sep).push(s.last()));
            }
            assert(join(pieces, sep) =~= s.drop_last().push(s.last()));
            assert(s.drop_last().push(s.last()) =~= s);
            assert forall|i: int| 0 <= i < pieces.len() implies !(#[trigger] pieces[i]).contains(
                sep,
            ) by {
                if i < before.len() - 1 {
                    assert(pieces[i] == before[i]);
                } else {
                    assert(!before.last().contains(sep));
                    if grown.contains(sep) {
                        let k = choose|k: int| 0 <= k < grown.len() && grown[k] == sep;
                        if k < before.last().len() {
                            assert(before.last()[k] == sep);
                        }
                    }
                }
            }
        }
    }
}

/// A numeral has a digit, and more than one from ten on.
pub proof fn lemma_decimal_len(n: nat)
    ensures
        decimal(n).len() >= 1,
        n >= 10 ==> decimal(n).len() >= 2,
    decreases n,
{
    if n >= 10 {
        lemma_decimal_len(n / 10);
    }
}

/// Two digits with one character are one digit.
pub proof fn lemma_digit_injective(a: nat, b: nat)
    requires
        a < 10,
        b < 10,
        digit_char(a) == digit_char(b),
    ensures
        a == b,
{
}

/// Two numbers with one numeral are one number.
pub proof fn lemma_decimal_injective(a: nat, b: nat)
    requires
        decimal(a) == decimal(b),
    ensures
        a == b,
    decreases a,
{
    lemma_decimal_len(a);
    lemma_decimal_len(b);
    if a < 10 || b < 10 {
        assert(decimal(a).len() == 1 && decimal(b).len() == 1);
        assert(a < 10 && b < 10);
        assert(decimal(a)[0] == digit_char(a));
        assert(decimal(b)[0] == digit_char(b));
        lemma_digit_injective(a, b);
    } else {
        let front_a = decimal(a / 10);
        let front_b = decimal(b / 10);
        assert(decimal(a).last() == digit_char(a % 10));
        assert(decimal(b).last() == digit_char(b % 10));
        assert(decimal(a).drop_last() =~= front_a);
        assert(decimal(b).drop_last() =~= front_b);
        lemma_decimal_injective(a / 10, b / 10);
        lemma_digit_injective(a % 10, b % 10);
        assert(a == 10 * (a / 10) + a % 10);
        assert(b == 10 * (b / 10) + b % 10);
    }
}

/// No numeral holds a character that is no digit.
pub proof fn lemma_decimal_digits(n: nat, c: char)
    requires
        c != '0' && c != '1' && c != '2' && c != '3' && c != '4' && c != '5' && c != '6' && c != '7'
            && c != '8' && c != '9',
    ensures
        !decimal(n).contains(c),
    decreases n,
{
    if n >= 10 {
        lemma_decimal_digits(n / 10, c);
        if decimal(n).contains(c) {
            let k = choose|k: int| 0 <= k < decimal(n).len() && decimal(n)[k] == c;
            if k < decimal(n / 10).len() {
                assert(decimal(n / 10)[k] == c);
            }
        }
    }
}

/// A text without the first character of the pattern holds no occurrence
/// of it, so a text that begins with such a text is replaced behind it
/// only.
pub proof fn lemma_replace_behind(front: Seq<char>, rest: Seq<char>, pattern: Seq<char>, with: Seq<char>)
    requires
        pattern.len() > 0,
        !front.contains(pattern[0]),
    ensures
        replace(front + rest, pattern, with) == front + replace(rest, pattern, with),
    decreases front.len(),
{
    let whole = front + rest;
    if front.len() == 0 {
        assert(whole =~= rest);
        assert(front + replace(rest, pattern, with) =~= replace(rest, pattern, with));
    } else {
        assert(front[0] != pattern[0]);
        assert(whole[0] == front[0]);
        let tail = front.subrange(1, front.len() as int);
        assert forall|k: int| 0 <= k < tail.len() implies tail[k] != pattern[0] by {
            assert(tail[k] == front[k + 1]);
        }
        if whole.len() < pattern.len() {
            assert(rest.len() < pattern.len());
            assert(replace(rest, pattern, with) == rest);
        } else {
            if occurs_at(whole, pattern, 0) {
                assert(whole.subrange(0, pattern.len() as int)[0] == pattern[0]);
            }
            assert(whole.subrange(1, whole.len() as int) =~= tail + rest);
            lemma_replace_behind(tail, rest, pattern, with);
            assert(seq![whole[0]] + (tail + replace(rest, pattern, with)) =~= front + replace(
                rest,
                pattern,
                with,
            ));
        }
    }
}

/// A text without the first character of the pattern stays as it is.
pub proof fn lemma_replace_absent(s: Seq<char>, pattern: Seq<char>, with: Seq<char>)
    requires
        pattern.len() > 0,
        !s.contains(pattern[0]),
    ensures
        replace(s, pattern, with) == s,
{
    lemma_replace_behind(s, Seq::empty(), pattern, with);
    assert(s + Seq::<char>::empty() =~= s);
}

/// One decimal digit as text.
pub fn digit_str(d: u64) -> (r: &'static str)
    requires
        d < 10,
    ensures
        r@ == seq![digit_char(d as nat)],
{
    proof {
        reveal_strlit("0");
        reveal_strlit("1");
        reveal_strlit("2");
        reveal_strlit("3");
        reveal_strlit("4");
        reveal_strlit("5");
        reveal_strlit("6");
        reveal_strlit("7");
        reveal_strlit("8");
        reveal_strlit("9");
    }
    let r = if d == 0 {
        "0"
    } else if d == 1 {
        "1"
    } else if d == 2 {
        "2"
    } else if d == 3 {
        "3"
    } else if d == 4 {
        "4"
    } else if d == 5 {
        "5"
    } else if d == 6 {
        "6"
    } else if d == 7 {
        "7"
    } else if d == 8 {
        "8"
    } else {
        "9"
    };
    assert(r@ =~= seq![digit_char(d as nat)]);
    r
}

/// Renders `n` in decimal.
pub fn to_decimal(n: u64) -> (r: String)
    ensures
        r@ == decimal(n as nat),
{
    let mut acc = String::from_str(digit_str(n % 10));
    let mut rest: u64 = n / 10;
    proof {
        if n < 10 {
            assert(acc@ =~= decimal(n as nat));
        } else {
            assert(decimal(n as nat) =~= decimal(rest as nat) + acc@);
        }
    }
    while rest > 0
        invariant
            rest == 0 ==> acc@ == decimal(n as nat),
            rest > 0 ==> decimal(n as nat) == decimal(rest as nat) + acc@,
        decreases rest,
    {
        let digit = String::from_str(digit_str(rest % 10));
        let next = digit.concat(acc.as_str());
        proof {
            if rest < 10 {
                assert(decimal(rest as nat) =~= digit@);
                assert(next@ =~= decimal(n as nat));
            } else {
                assert(decimal(rest as nat) == decimal((rest / 10) as nat).push(
                    digit_char((rest % 10) as nat),
                ));
                assert(decimal(n as nat) =~= decimal((rest / 10) as nat) + next@);
            }
        }
        acc = next;
        rest = rest / 10;
    }
    acc
}

/// Whether `pattern` stands in `s` at character position `at`.
pub fn matches_at(s: &str, pattern: &str, at: usize) -> (r: bool)
    ensures
        r == occurs_at(s@, pattern@, at as int),
{
    let n = s.unicode_len();
    let m = pattern.unicode_len();
    if at > n || m > n - at {
        return false;
    }
    let mut k: usize = 0;
    while k < m
        invariant
            k <= m,
            m == pattern@.len(),
            n == s@.len(),
            at + m <= n,
            forall|j: int| 0 <= j < k ==> s@[at + j] == pattern@[j],
        decreases m - k,
    {
        if s.get_char(at + k) != pattern.get_char(k) {
            proof {
                let piece = s@.subrange(at as int, at + m);
                assert(piece[k as int] == s@[at + k]);
            }
            return false;
        }
        k += 1;
    }
    assert(s@.subrange(at as int, at + m) =~= pattern@);
    true
}

/// Whether two texts hold the same characters.
pub fn same_text(a: &str, b: &str) -> (r: bool)
    ensures
        r == (a@ == b@),
{
    if a.unicode_len() != b.unicode_len() {
        return false;
    }
    let r = matches_at(a, b, 0);
    proof {
        if r {
            assert(a@.subrange(0, b@.len() as int) =~= a@);
        } else if a@ == b@ {
            assert(a@.subrange(0, b@.len() as int) =~= b@);
        }
    }
    r
}

/// Whether `s` begins with `prefix`.
pub fn has_prefix(s: &str, prefix: &str) -> (r: bool)
    ensures
        r == occurs_at(s@, prefix@, 0),
{
    matches_at(s, prefix, 0)
}

/// Replaces every occurrence of `pattern` in `s` by `with`, from the left.
pub fn replace_all(s: &str, pattern: &str, with: &str) -> (r: String)
    ensures
        r@ == replace(s@, pattern@, with@),
{
    let n = s.unicode_len();
    let m = pattern.unicode_len();
    if m == 0 {
        return String::from_str(s);
    }
    let mut out = String::new();
    let mut i: usize = 0;
    proof {
        assert(s@.subrange(0, n as int) =~= s@);
        assert(out@ + replace(s@, pattern@, with@) =~= replace(s@, pattern@, with@));
    }
    while i < n
        invariant
            i <= n,
            n == s@.len(),
            m == pattern@.len(),
            m > 0,
            out@ + replace(s@.subrange(i as int, n as int), pattern@, with@) == replace(
                s@,
                pattern@,
                with@,
            ),
        decreases n - i,
    {
        let ghost tail = s@.subrange(i as int, n as int);
        if matches_at(s, pattern, i) {
            proof {
                assert(tail.subrange(0, m as int) =~= s@.subrange(i as int, i + m));
                assert(occurs_at(tail, pattern@, 0));
                assert(tail.subrange(m as int, tail.len() as int) =~= s@.subrange(
                    i + m,
                    n as int,
                ));
                assert((out@ + with@) + replace(s@.subrange(i + m, n as int), pattern@, with@)
                    =~= out@ + replace(tail, pattern@, with@));
            }
            out.append(with);
            i += m;
        } else {
            proof {
                if tail.len() >= m {
                    if occurs_at(tail, pattern@, 0) {
                        assert(tail.subrange(0, m as int) =~= s@.subrange(i as int, i + m));
                    }
                    assert(tail.subrange(1, tail.len() as int) =~= s@.subrange(i + 1, n as int));
                    assert(tail[0] == s@[i as int]);
                }
            }
            if n - i < m {
                // What is left is shorter than the pattern: it stays as it is.
                let left = s.substring_char(i, n);
                proof {
                    assert(replace(tail, pattern@, with@) == tail);
                    assert(s@.subrange(n as int, n as int) =~= Seq::<char>::empty());
                    assert((out@ + tail) + replace(s@.subrange(n as int, n as int), pattern@, with@)
                        =~= out@ + tail);
                }
                out.append(left);
                i = n;
            } else {
                let one = s.substring_char(i, i + 1);
                proof {
                    assert(one@ =~= seq![s@[i as int]]);
                    assert((out@ + one@) + replace(s@.subrange(i + 1, n as int), pattern@, with@)
                        =~= out@ + (seq![tail[0]] + replace(
                        tail.subrange(1, tail.len() as int),
                        pattern@,
                        with@,
                    )));
                }
                out.append(one);
                i += 1;
            }
        }
    }
    proof {
        assert(s@.subrange(n as int, n as int) =~= Seq::<char>::empty());
        assert(out@ + Seq::<char>::empty() =~= out@);
    }
    out
}

/// Splits `s` at every occurrence of `sep`.
pub fn split_on(s: &str, sep: char) -> (r: Vec<String>)
    ensures
        views(r@) == split(s@, sep),
        r@.len() >= 1,
{
    let n = s.unicode_len();
    let mut pieces: Vec<String> = Vec::new();
    let mut start: usize = 0;
    let mut i: usize = 0;
    proof {
        assert(s@.take(0) =~= Seq::<char>::empty());
        assert(views(pieces@).push(s@.subrange(0, 0)) =~= split(s@.take(0), sep));
    }
    while i < n
        invariant
            start <= i <= n,
            n == s@.len(),
            views(pieces@).push(s@.subrange(start as int, i as int)) == split(s@.take(i as int), sep),
        decreases n - i,
    {
        let c = s.get_char(i);
        proof {
            let upto = s@.take(i + 1);
            assert(upto.drop_last() =~= s@.take(i as int));
            assert(upto.last() == s@[i as int]);
        }
        if c == sep {
            let piece = String::from_str(s.substring_char(start, i));
            let ghost old_pieces = pieces@;
            pieces.push(piece);
            proof {
                assert(views(pieces@) =~= views(old_pieces).push(s@.subrange(start as int, i as int)));
                assert(s@.subrange(i + 1, i + 1) =~= Seq::<char>::empty());
            }
            start = i + 1;
        } else {
            proof {
                let before = split(s@.take(i as int), sep);
                assert(before.drop_last() =~= views(pieces@));
                assert(before.last().push(c) =~= s@.subrange(start as int, i + 1));
            }
        }
        i += 1;
    }
    let last = String::from_str(s.substring_char(start, n));
    let ghost old_pieces = pieces@;
    pieces.push(last);
    proof {
        assert(views(pieces@) =~= views(old_pieces).push(s@.subrange(start as int, n as int)));
        assert(s@.take(n as int) =~= s@);
    }
    pieces
}

/// The octal numeral of `n`, most significant digit first, without
/// leading zeros.
pub open spec fn octal(n: nat) -> Seq<char>
    decreases n,
{
    if n < 8 {
        seq![digit_char(n)]
    } else {
        octal(n / 8).push(digit_char(n % 8))
    }
}

/// Renders `n` in octal.
pub fn to_octal(n: u64) -> (r: String)
    ensures
        r@ == octal(n as nat),
{
    let mut acc = String::from_str(digit_str(n % 8));
    let mut rest: u64 = n / 8;
    proof {
        if n < 8 {
            assert(acc@ =~= octal(n as nat));
        } else {
            assert(octal(n as nat) =~= octal(rest as nat) + acc@);
        }
    }
    while rest > 0
        invariant
            rest == 0 ==> acc@ == octal(n as nat),
            rest > 0 ==> octal(n as nat) == octal(rest as nat) + acc@,
        decreases rest,
    {
        let digit = String::from_str(digit_str(rest % 8));
        let next = digit.concat(acc.as_str());
        proof {
            if rest < 8 {
                assert(octal(rest as nat) =~= digit@);
                assert(next@ =~= octal(n as nat));
            } else {
                assert(octal(rest as nat) == octal((rest / 8) as nat).push(
                    digit_char((rest % 8) as nat),
                ));
                assert(octal(n as nat) =~= octal((rest / 8) as nat) + next@);
            }
        }
        acc = next;
        rest = rest / 8;
    }
    acc
}

/// `s` with zeros in front of it until it has `width` characters; `s`
/// itself where it has as many already.
pub open spec fn zero_padded(s: Seq<char>, width: nat) -> Seq<char>
    decreases width - s.len(),
{
    if s.len() >= width {
        s
    } else {
        zero_padded(seq!['0'] + s, width)
    }
}

/// Puts zeros in front of `s` until it has `width` characters.
pub fn pad_zeros(s: String, width: usize) -> (r: String)
    ensures
        r@ == zero_padded(s@, width as nat),
{
    let mut acc = s;
    let mut n = acc.as_str().unicode_len();
    while n < width
        invariant
            n == acc@.len(),
            zero_padded(acc@, width as nat) == zero_padded(s@, width as nat),
        decreases width - n,
    {
        proof {
            reveal_strlit("0");
            assert("0"@ =~= seq!['0']);
        }
        acc = String::from_str("0").concat(acc.as_str());
        n += 1;
    }
    acc
}

/// The decimal numeral of a number that may be negative, with a minus sign
/// in front where it is.
pub open spec fn signed_decimal(n: int) -> Seq<char> {
    if n < 0 {
        seq!['-'] + decimal((-n) as nat)
    } else {
        decimal(n as nat)
    }
}

/// Renders a number that may be negative in decimal.
pub fn to_signed_decimal(n: i32) -> (r: String)
    ensures
        r@ == signed_decimal(n as int),
{
    if n < 0 {
        proof {
            reveal_strlit("-");
            assert("-"@ =~= seq!['-']);
        }
        let magnitude: u64 = (-(n as i64)) as u64;
        let digits = to_decimal(magnitude);
        String::from_str("-").concat(digits.as_str())
    } else {
        to_decimal(n as u64)
    }
}

/// What Rust's `Debug` formatting writes for the text `s`: the text in
/// double quotes, with the characters escaped that `str`'s `Debug` escapes.
pub uninterp spec fn rust_debug(s: Seq<char>) -> Seq<char>;

/// Formats `s` with `{:?}`, the `Debug` formatting of `str`. What it writes
/// depends on `s` alone and is not proved here.
#[verifier::external_body]
pub(crate) fn debug_text(s: &str) -> (r: String)
    ensures
        r@ == rust_debug(s@),
{
    format!("{:?}", s)
}

/// Whether `a` comes before `b` in the order of texts: at the first place
/// where the two differ `a` has the smaller character, or `a` ends there
/// and `b` goes on.
pub open spec fn text_less(a: Seq<char>, b: Seq<char>) -> bool
    decreases a.len(),
{
    if b.len() == 0 {
        false
    } else if a.len() == 0 {
        true
    } else if a[0] != b[0] {
        a[0] < b[0]
    } else {
        text_less(a.drop_first(), b.drop_first())
    }
}

/// No text comes before itself.
pub proof fn lemma_text_less_irreflexive(a: Seq<char>)
    ensures
        !text_less(a, a),
    decreases a.len(),
{
    if a.len() > 0 {
        lemma_text_less_irreflexive(a.drop_first());
    }
}

/// Of two different texts one comes before the other.
pub proof fn lemma_text_less_total(a: Seq<char>, b: Seq<char>)
    requires
        a != b,
    ensures
        text_less(a, b) || text_less(b, a),
    decreases a.len(),
{
    if a.len() == 0 || b.len() == 0 {
        if a.len() == 0 && b.len() == 0 {
            assert(a =~= b);
        }
    } else if a[0] == b[0] {
        if a.drop_first() == b.drop_first() {
            assert(a =~= seq![a[0]] + a.drop_first());
            assert(b =~= seq![b[0]] + b.drop_first());
            assert(a == b);
        } else {
            lemma_text_less_total(a.drop_first(), b.drop_first());
        }
    }
}

/// What comes before a text comes before everything after that text.
pub proof fn lemma_text_less_transitive(a: Seq<char>, b: Seq<char>, c: Seq<char>)
    requires
        text_less(a, b),
        text_less(b, c),
    ensures
        text_less(a, c),
    decreases a.len(),
{
    if a.len() > 0 && b.len() > 0 && c.len() > 0 && a[0] == b[0] && b[0] == c[0] {
        lemma_text_less_transitive(a.drop_first(), b.drop_first(), c.drop_first());
    }
}

/// Whether `a` comes before `b` in the order of texts.
pub fn text_is_less(a: &str, b: &str) -> (r: bool)
    ensures
        r == text_less(a@, b@),
{
    let n = a.unicode_len();
    let m = b.unicode_len();
    let mut i: usize = 0;
    proof {
        assert(a@.skip(0) =~= a@);
        assert(b@.skip(0) =~= b@);
    }
    while i < n && i < m
        invariant
            i <= n,
            i <= m,
            n == a@.len(),
            m == b@.len(),
            text_less(a@, b@) == text_less(a@.skip(i as int), b@.skip(i as int)),
        decreases n - i,
    {
        let x = a.get_char(i);
        let y = b.get_char(i);
        proof {
            assert(a@.skip(i as int)[0] == x);
            assert(b@.skip(i as int)[0] == y);
            assert(a@.skip(i as int).drop_first() =~= a@.skip(i + 1));
            assert(b@.skip(i as int).drop_first() =~= b@.skip(i + 1));
        }
        if x != y {
            return x < y;
        }
        i += 1;
    }
    i < m
}

/// The pieces of `s` around the occurrences of `pattern` that `replace`
/// finds, scanning from the left: one piece more than there are
/// occurrences.
pub open spec fn pieces(s: Seq<char>, pattern: Seq<char>) -> Seq<Seq<char>>
    decreases s.len(),
{
    if pattern.len() == 0 || s.len() < pattern.len() {
        seq![s]
    } else if occurs_at(s, pattern, 0) {
        seq![Seq::<char>::empty()] + pieces(
            s.subrange(pattern.len() as int, s.len() as int),
            pattern,
        )
    } else {
        let rest = pieces(s.subrange(1, s.len() as int), pattern);
        seq![seq![s[0]] + rest[0]] + rest.drop_first()
    }
}

/// The pieces in a row, `with` between each two neighbours.
pub open spec fn filled(parts: Seq<Seq<char>>, with: Seq<char>) -> Seq<char>
    decreases parts.len(),
{
    if parts.len() == 0 {
        Seq::<char>::empty()
    } else if parts.len() == 1 {
        parts[0]
    } else {
        parts[0] + with + filled(parts.drop_first(), with)
    }
}

/// The length of the pieces in a row with a text of `gap` characters
/// between each two neighbours.
pub open spec fn filled_len(parts: Seq<Seq<char>>, gap: nat) -> nat
    decreases parts.len(),
{
    if parts.len() == 0 {
        0
    } else if parts.len() == 1 {
        parts[0].len()
    } else {
        parts[0].len() + gap + filled_len(parts.drop_first(), gap)
    }
}

/// Each of the pieces with `pattern` replaced by `with`.
pub open spec fn each_replaced(parts: Seq<Seq<char>>, pattern: Seq<char>, with: Seq<char>) -> Seq<
    Seq<char>,
> {
    Seq::new(parts.len(), |i: int| replace(parts[i], pattern, with))
}

/// Replacing is filling the gaps between the pieces.
pub proof fn lemma_replace_fills(s: Seq<char>, pattern: Seq<char>, with: Seq<char>)
    ensures
        pieces(s, pattern).len() >= 1,
        replace(s, pattern, with) == filled(pieces(s, pattern), with),
    decreases s.len(),
{
    let parts = pieces(s, pattern);
    if pattern.len() == 0 || s.len() < pattern.len() {
    } else if occurs_at(s, pattern, 0) {
        let tail = s.subrange(pattern.len() as int, s.len() as int);
        lemma_replace_fills(tail, pattern, with);
        assert(parts.drop_first() =~= pieces(tail, pattern));
        assert(parts[0] + with + filled(parts.drop_first(), with) =~= with + replace(
            tail,
            pattern,
            with,
        ));
    } else {
        let tail = s.subrange(1, s.len() as int);
        lemma_replace_fills(tail, pattern, with);
        let rest = pieces(tail, pattern);
        if rest.len() == 1 {
            assert(parts.len() == 1);
        } else {
            assert(parts.drop_first() =~= rest.drop_first());
            assert(parts[0] + with + filled(parts.drop_first(), with) =~= seq![s[0]] + (rest[0]
                + with + filled(rest.drop_first(), with)));
        }
    }
}

/// A text that holds the pattern has two pieces at least.
pub proof fn lemma_pieces_of_occurrence(s: Seq<char>, pattern: Seq<char>, at: int)
    requires
        pattern.len() > 0,
        occurs_at(s, pattern, at),
    ensures
        pieces(s, pattern).len() >= 2,
    decreases s.len(),
{
    if occurs_at(s, pattern, 0) {
        lemma_replace_fills(s.subrange(pattern.len() as int, s.len() as int), pattern, pattern);
    } else {
        let tail = s.subrange(1, s.len() as int);
        assert(at > 0);
        assert(tail.subrange(at - 1, at - 1 + pattern.len()) =~= s.subrange(
            at,
            at + pattern.len(),
        ));
        lemma_pieces_of_occurrence(tail, pattern, at - 1);
    }
}

/// No occurrence of the pattern reaches into a text that shares no
/// character with it: what stands before such a text and what stands
/// behind it are replaced each by itself.
pub proof fn lemma_replace_barrier(
    front: Seq<char>,
    wall: Seq<char>,
    back: Seq<char>,
    pattern: Seq<char>,
    with: Seq<char>,
)
    requires
        pattern.len() > 0,
        wall.len() > 0,
        forall|i: int| 0 <= i < wall.len() ==> !pattern.contains(#[trigger] wall[i]),
    ensures
        replace(front + wall + back, pattern, with) == replace(front, pattern, with) + wall + replace(
            back,
            pattern,
            with,
        ),
    decreases front.len(),
{
    let s = front + wall + back;
    let m = pattern.len() as int;
    if front.len() == 0 {
        assert(s =~= wall + back);
        if wall.contains(pattern[0]) {
            let i = choose|i: int| 0 <= i < wall.len() && wall[i] == pattern[0];
            assert(pattern.contains(wall[i]));
        }
        lemma_replace_behind(wall, back, pattern, with);
        assert(replace(front, pattern, with) + wall + replace(back, pattern, with) =~= wall
            + replace(back, pattern, with));
    } else if s.len() < m {
    } else if occurs_at(s, pattern, 0) {
        if front.len() < m {
            assert(s.subrange(0, m)[front.len() as int] == pattern[front.len() as int]);
            assert(s[front.len() as int] == wall[0]);
            assert(pattern.contains(wall[0]));
        }
        assert(front.subrange(0, m) =~= s.subrange(0, m));
        let tail = front.subrange(m, front.len() as int);
        assert(s.subrange(m, s.len() as int) =~= tail + wall + back);
        lemma_replace_barrier(tail, wall, back, pattern, with);
        assert(with + (replace(tail, pattern, with) + wall + replace(back, pattern, with)) =~= (with
            + replace(tail, pattern, with)) + wall + replace(back, pattern, with));
    } else {
        if front.len() >= m && occurs_at(front, pattern, 0) {
            assert(s.subrange(0, m) =~= front.subrange(0, m));
        }
        let tail = front.subrange(1, front.len() as int);
        assert(s.subrange(1, s.len() as int) =~= tail + wall + back);
        assert(s[0] == front[0]);
        lemma_replace_barrier(tail, wall, back, pattern, with);
        if front.len() < m {
            assert(seq![front[0]] + tail =~= front);
        }
        assert(seq![front[0]] + (replace(tail, pattern, with) + wall + replace(back, pattern, with))
            =~= (seq![front[0]] + replace(tail, pattern, with)) + wall + replace(
            back,
            pattern,
            with,
        ));
    }
}

/// Replacing in pieces set in a row, with a text between them that shares
/// no character with the pattern, is replacing in each piece.
pub proof fn lemma_replace_in_filled(
    parts: Seq<Seq<char>>,
    wall: Seq<char>,
    pattern: Seq<char>,
    with: Seq<char>,
)
    requires
        parts.len() >= 1,
        pattern.len() > 0,
        wall.len() > 0,
        forall|i: int| 0 <= i < wall.len() ==> !pattern.contains(#[trigger] wall[i]),
    ensures
        replace(filled(parts, wall), pattern, with) == filled(
            each_replaced(parts, pattern, with),
            wall,
        ),
    decreases parts.len(),
{
    let done = each_replaced(parts, pattern, with);
    if parts.len() > 1 {
        let rest = parts.drop_first();
        lemma_replace_in_filled(rest, wall, pattern, with);
        lemma_replace_barrier(parts[0], wall, filled(rest, wall), pattern, with);
        assert(done.drop_first() =~= each_replaced(rest, pattern, with));
    }
}

/// How long pieces set in a row are.
pub proof fn lemma_filled_len(parts: Seq<Seq<char>>, with: Seq<char>)
    ensures
        filled(parts, with).len() == filled_len(parts, with.len()),
    decreases parts.len(),
{
    if parts.len() > 1 {
        lemma_filled_len(parts.drop_first(), with);
    }
}

/// Two pieces or more set in a row grow with what stands between them.
pub proof fn lemma_filled_len_grows(parts: Seq<Seq<char>>, small: nat, large: nat)
    requires
        parts.len() >= 2,
        small < large,
    ensures
        filled_len(parts, small) < filled_len(parts, large),
    decreases parts.len(),
{
    let rest = parts.drop_first();
    if parts.len() > 2 {
        lemma_filled_len_grows(rest, small, large);
    } else {
        assert(rest.len() == 1);
        assert(filled_len(rest, small) == rest[0].len());
        assert(filled_len(rest, large) == rest[0].len());
    }
}

/// Two pieces or more set in a row with two different texts between them
/// give two different texts.
pub proof fn lemma_filled_injective(parts: Seq<Seq<char>>, a: Seq<char>, b: Seq<char>)
    requires
        parts.len() >= 2,
        filled(parts, a) == filled(parts, b),
    ensures
        a == b,
{
    lemma_filled_len(parts, a);
    lemma_filled_len(parts, b);
    if a.len() < b.len() {
        lemma_filled_len_grows(parts, a.len(), b.len());
    } else if b.len() < a.len() {
        lemma_filled_len_grows(parts, b.len(), a.len());
    } else {
        let from = parts[0].len() as int;
        let one = filled(parts, a);
        let other = filled(parts, b);
        assert(one.subrange(from, from + a.len()) =~= a);
        assert(other.subrange(from, from + b.len()) =~= b);
    }
}

} // verus!
