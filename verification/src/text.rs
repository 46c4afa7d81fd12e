//! Text operations on characters, each stated over the sequence of the
//! characters that a string holds.

use vstd::prelude::*;
use vstd::string::*;

verus! {

/// `String::push` appends one character to the end of the string.
pub assume_specification[ String::push ](s: &mut String, c: char)
    ensures
        final(s)@ == old(s)@.push(c),
;

/// The characters with the Unicode property `White_Space`.
pub open spec fn white_space(c: char) -> bool {
    ||| '\u{9}' <= c <= '\u{d}'
    ||| c == '\u{20}'
    ||| c == '\u{85}'
    ||| c == '\u{a0}'
    ||| c == '\u{1680}'
    ||| '\u{2000}' <= c <= '\u{200a}'
    ||| c == '\u{2028}'
    ||| c == '\u{2029}'
    ||| c == '\u{202f}'
    ||| c == '\u{205f}'
    ||| c == '\u{3000}'
}

/// Whether `c` has the Unicode property `White_Space`.
pub fn is_white_space(c: char) -> (r: bool)
    ensures
        r == white_space(c),
{
    ('\u{9}' <= c && c <= '\u{d}') || c == '\u{20}' || c == '\u{85}' || c == '\u{a0}' || c
        == '\u{1680}' || ('\u{2000}' <= c && c <= '\u{200a}') || c == '\u{2028}' || c == '\u{2029}'
        || c == '\u{202f}' || c == '\u{205f}' || c == '\u{3000}'
}

/// `s` without the white space it begins with.
pub open spec fn trim_start_seq(s: Seq<char>) -> Seq<char>
    decreases s.len(),
{
    if s.len() > 0 && white_space(s[0]) {
        trim_start_seq(s.drop_first())
    } else {
        s
    }
}

/// `s` without the white space it ends with.
pub open spec fn trim_end_seq(s: Seq<char>) -> Seq<char>
    decreases s.len(),
{
    if s.len() > 0 && white_space(s.last()) {
        trim_end_seq(s.drop_last())
    } else {
        s
    }
}

/// `s` without the white space at either end.
pub open spec fn trim_seq(s: Seq<char>) -> Seq<char> {
    trim_end_seq(trim_start_seq(s))
}

/// The lower case of an ASCII capital, and every other character itself.
pub open spec fn lower_char(c: char) -> char {
    if 'A' <= c <= 'Z' {
        ((c as u8) + 32) as char
    } else {
        c
    }
}

/// `s` with its ASCII capitals in lower case.
pub open spec fn lower_seq(s: Seq<char>) -> Seq<char> {
    s.map_values(|c: char| lower_char(c))
}

/// `s` with each `from` turned into `to`.
pub open spec fn replace_seq(s: Seq<char>, from: char, to: char) -> Seq<char> {
    s.map_values(|c: char| if c == from { to } else { c })
}

/// The characters of a string.
pub fn chars_of(s: &str) -> (v: Vec<char>)
    ensures
        v@ == s@,
{
    let mut v: Vec<char> = Vec::new();
    for c in it: s.chars()
        invariant
            it.seq() == s@,
            v@ == s@.take(it.index()),
    {
        v.push(c);
    }
    proof {
        assert(s@.take(s@.len() as int) == s@);
    }
    v
}

/// The string of the characters `v[from..to]`.
pub fn string_of(v: &Vec<char>, from: usize, to: usize) -> (s: String)
    requires
        from <= to <= v@.len(),
    ensures
        s@ == v@.subrange(from as int, to as int),
{
    let mut s = String::new();
    let mut i: usize = from;
    while i < to
        invariant
            from <= i <= to <= v@.len(),
            s@ == v@.subrange(from as int, i as int),
        decreases to - i,
    {
        s.push(v[i]);
        i += 1;
    }
    s
}

/// Whether two strings hold the same characters.
pub fn str_eq(a: &str, b: &str) -> (r: bool)
    ensures
        r == (a@ == b@),
{
    let x = chars_of(a);
    let y = chars_of(b);
    if x.len() != y.len() {
        return false;
    }
    let mut i: usize = 0;
    while i < x.len()
        invariant
            i <= x@.len() == y@.len(),
            x@ == a@,
            y@ == b@,
            forall|j: int| 0 <= j < i ==> x@[j] == y@[j],
        decreases x@.len() - i,
    {
        if x[i] != y[i] {
            return false;
        }
        i += 1;
    }
    proof {
        assert(a@ =~= b@);
    }
    true
}

proof fn lemma_trim_start(s: Seq<char>, i: int)
    requires
        0 <= i <= s.len(),
        forall|j: int| 0 <= j < i ==> white_space(s[j]),
        i < s.len() ==> !white_space(s[i]),
    ensures
        trim_start_seq(s) == s.skip(i),
    decreases i,
{
    if i == 0 {
        assert(s.skip(0) =~= s);
    } else {
        assert(white_space(s[0]));
        let t = s.drop_first();
        lemma_trim_start(t, i - 1);
        assert(t.skip(i - 1) =~= s.skip(i));
    }
}

proof fn lemma_trim_end(s: Seq<char>, n: int)
    requires
        0 <= n <= s.len(),
        forall|j: int| n <= j < s.len() ==> white_space(s[j]),
        n > 0 ==> !white_space(s[n - 1]),
    ensures
        trim_end_seq(s) == s.take(n),
    decreases s.len() - n,
{
    if n == s.len() {
        assert(s.take(n) =~= s);
    } else {
        let t = s.drop_last();
        lemma_trim_end(t, n);
        assert(t.take(n) =~= s.take(n));
    }
}

/// The string without the white space at either end.
pub fn trim(s: &str) -> (r: String)
    ensures
        r@ == trim_seq(s@),
{
    let v = chars_of(s);
    let mut i: usize = 0;
    while i < v.len() && is_white_space(v[i])
        invariant
            i <= v@.len(),
            forall|j: int| 0 <= j < i ==> white_space(v@[j]),
        decreases v@.len() - i,
    {
        i += 1;
    }
    let mut n: usize = v.len();
    while n > i && is_white_space(v[n - 1])
        invariant
            i <= n <= v@.len(),
            forall|j: int| n <= j < v@.len() ==> white_space(v@[j]),
        decreases n,
    {
        n -= 1;
    }
    proof {
        lemma_trim_start(v@, i as int);
        let t = v@.skip(i as int);
        assert forall|j: int| n - i <= j < t.len() implies white_space(t[j]) by {
            assert(t[j] == v@[j + i]);
        }
        lemma_trim_end(t, n - i);
        assert(t.take(n - i) =~= v@.subrange(i as int, n as int));
    }
    string_of(&v, i, n)
}

/// The lower case of an ASCII capital, and every other character itself.
pub fn to_lower_char(c: char) -> (r: char)
    ensures
        r == lower_char(c),
{
    if 'A' <= c && c <= 'Z' {
        ((c as u8) + 32) as char
    } else {
        c
    }
}

/// The string with its ASCII capitals in lower case.
pub fn to_lower(s: &str) -> (r: String)
    ensures
        r@ == lower_seq(s@),
{
    let v = chars_of(s);
    let mut r = String::new();
    let mut i: usize = 0;
    while i < v.len()
        invariant
            i <= v@.len(),
            v@ == s@,
            r@ == lower_seq(s@).take(i as int),
        decreases v@.len() - i,
    {
        r.push(to_lower_char(v[i]));
        i += 1;
        proof {
            assert(lower_seq(s@).take(i as int) =~= lower_seq(s@).take(i - 1).push(
                lower_char(s@[i - 1]),
            ));
        }
    }
    proof {
        assert(lower_seq(s@).take(v@.len() as int) =~= lower_seq(s@));
    }
    r
}

/// The string with each `from` turned into `to`.
pub fn replace_char(s: &str, from: char, to: char) -> (r: String)
    ensures
        r@ == replace_seq(s@, from, to),
{
    let v = chars_of(s);
    let mut r = String::new();
    let mut i: usize = 0;
    while i < v.len()
        invariant
            i <= v@.len(),
            v@ == s@,
            r@ == replace_seq(s@, from, to).take(i as int),
        decreases v@.len() - i,
    {
        let c = v[i];
        if c == from {
            r.push(to);
        } else {
            r.push(c);
        }
        i += 1;
        proof {
            assert(replace_seq(s@, from, to).take(i as int) =~= replace_seq(s@, from, to).take(
                i - 1,
            ).push(replace_seq(s@, from, to)[i - 1]));
        }
    }
    proof {
        assert(replace_seq(s@, from, to).take(v@.len() as int) =~= replace_seq(s@, from, to));
    }
    r
}

/// Whether `s` begins with `p`.
pub open spec fn has_prefix_seq(s: Seq<char>, p: Seq<char>) -> bool {
    p.len() <= s.len() && s.take(p.len() as int) == p
}

/// Whether `s` ends with `p`.
pub open spec fn has_suffix_seq(s: Seq<char>, p: Seq<char>) -> bool {
    p.len() <= s.len() && s.skip(s.len() - p.len()) == p
}

/// Whether `p` stands in `s` at position `i`.
pub open spec fn occurs_at(s: Seq<char>, p: Seq<char>, i: int) -> bool {
    0 <= i && i + p.len() <= s.len() && s.subrange(i, i + p.len()) == p
}

/// Whether `p` stands somewhere in `s`.
pub open spec fn contains_seq(s: Seq<char>, p: Seq<char>) -> bool {
    exists|i: int| occurs_at(s, p, i)
}

/// The order of strings by their characters, first difference first.
pub open spec fn lex_lt(a: Seq<char>, b: Seq<char>) -> bool
    decreases a.len(),
{
    if b.len() == 0 {
        false
    } else if a.len() == 0 {
        true
    } else if a[0] != b[0] {
        a[0] < b[0]
    } else {
        lex_lt(a.drop_first(), b.drop_first())
    }
}

/// The first `n` characters of `s`, or all of a shorter `s`.
pub open spec fn first_chars(s: Seq<char>, n: int) -> Seq<char> {
    if s.len() <= n {
        s
    } else {
        s.take(n)
    }
}

/// Whether the characters of `p` stand in `v` from position `at` on.
fn matches_at(v: &Vec<char>, p: &Vec<char>, at: usize) -> (r: bool)
    requires
        at <= v@.len(),
    ensures
        r == occurs_at(v@, p@, at as int),
{
    let n: usize = v.len();
    if p.len() > n - at {
        return false;
    }
    let mut i: usize = 0;
    while i < p.len()
        invariant
            i <= p@.len(),
            n == v@.len(),
            at + p@.len() <= n,
            forall|j: int| 0 <= j < i ==> v@[at + j] == p@[j],
        decreases p@.len() - i,
    {
        if v[at + i] != p[i] {
            proof {
                let w = v@.subrange(at as int, at + p@.len());
                assert(w[i as int] == v@[at + i]);
            }
            return false;
        }
        i += 1;
    }
    proof {
        assert(v@.subrange(at as int, at + p@.len()) =~= p@);
    }
    true
}

/// Whether the string begins with `p`.
pub fn has_prefix(s: &str, p: &str) -> (r: bool)
    ensures
        r == has_prefix_seq(s@, p@),
{
    let v = chars_of(s);
    let w = chars_of(p);
    let r = matches_at(&v, &w, 0);
    proof {
        if p@.len() <= s@.len() {
            assert(s@.subrange(0, p@.len() as int) =~= s@.take(p@.len() as int));
        }
    }
    r
}

/// Whether the string ends with `p`.
pub fn has_suffix(s: &str, p: &str) -> (r: bool)
    ensures
        r == has_suffix_seq(s@, p@),
{
    let v = chars_of(s);
    let w = chars_of(p);
    if w.len() > v.len() {
        return false;
    }
    let at: usize = v.len() - w.len();
    proof {
        assert(s@.subrange(at as int, at + p@.len()) =~= s@.skip(at as int));
    }
    matches_at(&v, &w, at)
}

/// Whether `p` stands somewhere in the string.
pub fn contains_str(s: &str, p: &str) -> (r: bool)
    ensures
        r == contains_seq(s@, p@),
{
    let v = chars_of(s);
    let w = chars_of(p);
    let mut i: usize = 0;
    while i < v.len()
        invariant
            i <= v@.len(),
            v@ == s@,
            w@ == p@,
            forall|j: int| 0 <= j < i ==> !occurs_at(s@, p@, j),
        decreases v@.len() - i,
    {
        if matches_at(&v, &w, i) {
            return true;
        }
        i += 1;
    }
    matches_at(&v, &w, i)
}

/// Whether the string comes before `b` in the order of characters.
pub fn str_lt(a: &str, b: &str) -> (r: bool)
    ensures
        r == lex_lt(a@, b@),
{
    let x = chars_of(a);
    let y = chars_of(b);
    let mut i: usize = 0;
    proof {
        assert(a@.skip(0) =~= a@);
        assert(b@.skip(0) =~= b@);
    }
    while i < x.len() && i < y.len() && x[i] == y[i]
        invariant
            i <= x@.len(),
            i <= y@.len(),
            x@ == a@,
            y@ == b@,
            lex_lt(a@, b@) == lex_lt(a@.skip(i as int), b@.skip(i as int)),
        decreases x@.len() - i,
    {
        proof {
            assert(a@.skip(i as int).drop_first() =~= a@.skip(i + 1));
            assert(b@.skip(i as int).drop_first() =~= b@.skip(i + 1));
        }
        i += 1;
    }
    if i >= y.len() {
        false
    } else if i >= x.len() {
        true
    } else {
        x[i] < y[i]
    }
}

/// The first `n` characters of the string, or all of a shorter string.
pub fn take_chars(s: &str, n: usize) -> (r: String)
    ensures
        r@ == first_chars(s@, n as int),
{
    let v = chars_of(s);
    let to: usize = if v.len() <= n {
        v.len()
    } else {
        n
    };
    proof {
        assert(v@.subrange(0, to as int) =~= first_chars(s@, n as int));
    }
    string_of(&v, 0, to)
}

/// The two strings one after the other.
pub fn join2(a: &str, b: &str) -> (r: String)
    ensures
        r@ == a@ + b@,
{
    let mut r = a.to_owned();
    r.append(b);
    r
}

/// The three strings one after the other.
pub fn join3(a: &str, b: &str, c: &str) -> (r: String)
    ensures
        r@ == a@ + b@ + c@,
{
    let mut r = a.to_owned();
    r.append(b);
    r.append(c);
    r
}

/// `s` without the characters `c` at its end.
pub open spec fn trim_end_char_seq(s: Seq<char>, c: char) -> Seq<char>
    decreases s.len(),
{
    if s.len() > 0 && s.last() == c {
        trim_end_char_seq(s.drop_last(), c)
    } else {
        s
    }
}

/// `s` without the characters `c` at its end.
pub fn trim_end_char(s: &str, c: char) -> (r: String)
    ensures
        r@ == trim_end_char_seq(s@, c),
{
    let v = chars_of(s);
    let mut n: usize = v.len();
    proof {
        assert(s@.take(n as int) =~= s@);
    }
    while n > 0 && v[n - 1] == c
        invariant
            n <= v@.len(),
            v@ == s@,
            trim_end_char_seq(s@, c) == trim_end_char_seq(s@.take(n as int), c),
        decreases n,
    {
        proof {
            assert(s@.take(n as int).drop_last() =~= s@.take(n - 1));
        }
        n -= 1;
    }
    proof {
        if n > 0 {
            assert(s@.take(n as int).last() == v@[n - 1]);
        }
        assert(v@.subrange(0, n as int) =~= s@.take(n as int));
    }
    string_of(&v, 0, n)
}

/// The digit that stands for `d`.
pub open spec fn digit_char(d: int) -> char {
    ('0' as u8 + d) as char
}

/// The decimal digits of `n`.
pub open spec fn decimal(n: nat) -> Seq<char>
    decreases n,
{
    if n < 10 {
        seq![digit_char(n as int)]
    } else {
        decimal(n / 10).push(digit_char((n % 10) as int))
    }
}

/// The decimal text of `n`, with a minus sign in front where it is negative.
pub open spec fn decimal_int(n: int) -> Seq<char> {
    if n < 0 {
        seq!['-'] + decimal((-n) as nat)
    } else {
        decimal(n as nat)
    }
}

/// The decimal text of a number.
pub fn u64_text(n: u64) -> (r: String)
    ensures
        r@ == decimal(n as nat),
    decreases n,
{
    let mut r = if n < 10 {
        String::new()
    } else {
        u64_text(n / 10)
    };
    let d: u8 = (n % 10) as u8;
    let c: char = (48u8 + d) as char;
    r.push(c);
    proof {
        assert(n < 10 ==> r@ =~= seq![digit_char(n as int)]);
    }
    r
}

/// The decimal text of a signed number.
pub fn i64_text(n: i64) -> (r: String)
    ensures
        r@ == decimal_int(n as int),
{
    if n < 0 {
        let m: u64 = (-(n as i128)) as u64;
        let t = u64_text(m);
        let mut r = String::new();
        r.push('-');
        r.append(t.as_str());
        proof {
            assert(r@ =~= seq!['-'] + decimal(m as nat));
        }
        r
    } else {
        u64_text(n as u64)
    }
}

/// `s` without outer white space, in lower case, with `_` for `-`.
pub open spec fn snake_seq(s: Seq<char>) -> Seq<char> {
    replace_seq(lower_seq(trim_seq(s)), '-', '_')
}

/// The string without outer white space, in lower case, with `_` for `-`.
pub fn to_snake(s: &str) -> (r: String)
    ensures
        r@ == snake_seq(s@),
{
    let t = trim(s);
    let l = to_lower(t.as_str());
    replace_char(l.as_str(), '-', '_')
}

/// Whether `s` neither begins nor ends with white space.
pub open spec fn trimmed(s: Seq<char>) -> bool {
    s.len() > 0 ==> !white_space(s[0]) && !white_space(s.last())
}

proof fn lemma_trim_end_first(s: Seq<char>)
    requires
        s.len() > 0 ==> !white_space(s[0]),
    ensures
        trimmed(trim_end_seq(s)),
    decreases s.len(),
{
    if s.len() > 0 && white_space(s.last()) {
        lemma_trim_end_first(s.drop_last());
    }
}

proof fn lemma_trim_start_first(s: Seq<char>)
    ensures
        trim_start_seq(s).len() > 0 ==> !white_space(trim_start_seq(s)[0]),
    decreases s.len(),
{
    if s.len() > 0 && white_space(s[0]) {
        lemma_trim_start_first(s.drop_first());
    }
}

/// What is trimmed stays as it is when it is trimmed again.
pub proof fn trim_is_stable(s: Seq<char>)
    ensures
        trimmed(trim_seq(s)),
        trim_seq(trim_seq(s)) == trim_seq(s),
{
    lemma_trim_start_first(s);
    lemma_trim_end_first(trim_start_seq(s));
}

/// A text that is trimmed and in lower case stays as it is under both.
pub proof fn lower_trim_is_stable(s: Seq<char>)
    ensures
        lower_seq(trim_seq(lower_seq(trim_seq(s)))) == lower_seq(trim_seq(s)),
{
    trim_is_stable(s);
    let l = lower_seq(trim_seq(s));
    assert(trimmed(l));
    assert(lower_seq(l) =~= l);
}

/// The snake case of a text is its own snake case.
pub proof fn snake_is_stable(s: Seq<char>)
    ensures
        trimmed(snake_seq(s)),
        trim_seq(snake_seq(s)) == snake_seq(s),
        snake_seq(snake_seq(s)) == snake_seq(s),
        snake_seq(s).len() == trim_seq(s).len(),
{
    trim_is_stable(s);
    let n = snake_seq(s);
    assert(trimmed(n));
    assert(lower_seq(n) =~= n);
    assert(replace_seq(n, '-', '_') =~= n);
}

/// The order of texts is total and strict.
pub proof fn lex_order_is_total(a: Seq<char>, b: Seq<char>)
    ensures
        lex_lt(a, b) || lex_lt(b, a) || a == b,
        !(lex_lt(a, b) && lex_lt(b, a)),
        !lex_lt(a, a),
    decreases a.len(),
{
    if a.len() > 0 && b.len() > 0 {
        lex_order_is_total(a.drop_first(), b.drop_first());
        lex_order_is_total(a.drop_first(), a.drop_first());
        if a[0] == b[0] && a.drop_first() == b.drop_first() {
            assert(a =~= seq![a[0]] + a.drop_first());
            assert(b =~= seq![b[0]] + b.drop_first());
        }
    } else if a.len() > 0 {
        lex_order_is_total(a.drop_first(), a.drop_first());
    } else if b.len() == 0 {
        assert(a =~= b);
    }
}

/// The order of texts is transitive.
pub proof fn lex_order_is_transitive(a: Seq<char>, b: Seq<char>, c: Seq<char>)
    requires
        lex_lt(a, b),
        lex_lt(b, c),
    ensures
        lex_lt(a, c),
    decreases a.len(),
{
    if a.len() > 0 && a[0] == b[0] && b[0] == c[0] {
        lex_order_is_transitive(a.drop_first(), b.drop_first(), c.drop_first());
    }
}

/// The digits of a number give the number back; there is at least one, and the
/// first is zero only where the number is.
pub proof fn digits_give_the_number_back(n: nat)
    ensures
        decimal(n).fold_left(0int, |v: int, c: char| v * 10 + (c as int - '0' as int)) == n,
        decimal(n).len() > 0,
        n > 0 ==> decimal(n)[0] != '0',
        forall|i: int| 0 <= i < decimal(n).len() ==> '0' <= #[trigger] decimal(n)[i] <= '9',
    decreases n,
{
    let add_digit = |v: int, c: char| v * 10 + (c as int - '0' as int);
    let d = digit_char((n % 10) as int);
    assert(d as int == '0' as int + n % 10);
    if n < 10 {
        let one = seq![d];
        assert(decimal(n) =~= one);
        assert(one.drop_last() =~= Seq::empty());
        assert(one.last() == d);
        reveal_with_fuel(Seq::fold_left, 2);
    } else {
        digits_give_the_number_back(n / 10);
        let rest = decimal(n / 10);
        assert(decimal(n) =~= rest.push(d));
        assert(rest.push(d).drop_last() =~= rest);
        assert(rest.push(d).last() == d);
        assert(decimal(n).fold_left(0int, add_digit) == add_digit(
            rest.fold_left(0int, add_digit),
            d,
        ));
    }
}

/// Different numbers have different texts.
pub proof fn numbers_differ_in_text(a: int, b: int)
    requires
        a != b,
    ensures
        decimal_int(a) != decimal_int(b),
{
    let m = if a < 0 {
        -a
    } else {
        a
    };
    let n = if b < 0 {
        -b
    } else {
        b
    };
    digits_give_the_number_back(m as nat);
    digits_give_the_number_back(n as nat);
    let x = decimal_int(a);
    let y = decimal_int(b);
    if x == y {
        if a < 0 && b < 0 {
            assert(x.drop_first() =~= decimal(m as nat));
            assert(y.drop_first() =~= decimal(n as nat));
        } else if a < 0 {
            assert(x[0] == '-');
            assert('0' <= decimal(n as nat)[0] <= '9');
        } else if b < 0 {
            assert(y[0] == '-');
            assert('0' <= decimal(m as nat)[0] <= '9');
        }
    }
}

proof fn lemma_trim_start_of(a: Seq<char>, t: Seq<char>)
    requires
        forall|i: int| 0 <= i < a.len() ==> white_space(#[trigger] a[i]),
        t.len() > 0 ==> !white_space(t[0]),
    ensures
        trim_start_seq(a + t) == t,
    decreases a.len(),
{
    if a.len() == 0 {
        assert(a + t =~= t);
    } else {
        let rest = a.drop_first();
        assert(white_space(a[0]));
        assert forall|i: int| 0 <= i < rest.len() implies white_space(#[trigger] rest[i]) by {
            assert(rest[i] == a[i + 1]);
        }
        lemma_trim_start_of(rest, t);
        assert((a + t).drop_first() =~= rest + t);
    }
}

proof fn lemma_trim_end_of(t: Seq<char>, b: Seq<char>)
    requires
        forall|i: int| 0 <= i < b.len() ==> white_space(#[trigger] b[i]),
        t.len() > 0 ==> !white_space(t.last()),
    ensures
        trim_end_seq(t + b) == t,
    decreases b.len(),
{
    if b.len() == 0 {
        assert(t + b =~= t);
    } else {
        let rest = b.drop_last();
        assert(white_space(b[b.len() - 1]));
        assert forall|i: int| 0 <= i < rest.len() implies white_space(#[trigger] rest[i]) by {
            assert(rest[i] == b[i]);
        }
        lemma_trim_end_of(t, rest);
        assert((t + b).drop_last() =~= t + rest);
    }
}

/// Spaces, tabs and line ends round a text are left out, and nothing else; a text
/// of nothing else is empty then.
pub proof fn outer_white_space_is_left_out(a: Seq<char>, t: Seq<char>, b: Seq<char>)
    requires
        forall|i: int|
            0 <= i < a.len() ==> #[trigger] a[i] == ' ' || a[i] == '\t' || a[i] == '\n' || a[i]
                == '\r',
        forall|i: int|
            0 <= i < b.len() ==> #[trigger] b[i] == ' ' || b[i] == '\t' || b[i] == '\n' || b[i]
                == '\r',
        t.len() > 0 ==> '!' <= t[0] <= '~' && '!' <= t.last() <= '~',
    ensures
        trim_seq(a + t + b) == t,
{
    assert forall|i: int| 0 <= i < a.len() implies white_space(#[trigger] a[i]) by {}
    assert forall|i: int| 0 <= i < b.len() implies white_space(#[trigger] b[i]) by {}
    if t.len() > 0 {
        assert(a + t + b =~= a + (t + b));
        lemma_trim_start_of(a, t + b);
        lemma_trim_end_of(t, b);
    } else {
        let blank = a + t + b;
        assert forall|i: int| 0 <= i < blank.len() implies white_space(#[trigger] blank[i]) by {
            if i < a.len() {
                assert(blank[i] == a[i]);
            } else {
                assert(blank[i] == b[i - a.len()]);
            }
        }
        assert(blank =~= blank + Seq::empty());
        lemma_trim_start_of(blank, Seq::empty());
        assert(t =~= Seq::empty());
    }
}

/// In lower case each ASCII capital becomes its small letter, and every other
/// character stays.
pub proof fn capitals_become_small(s: Seq<char>)
    ensures
        lower_seq(s).len() == s.len(),
        forall|i: int|
            0 <= i < s.len() ==> {
                let c = s[i];
                let l = #[trigger] lower_seq(s)[i];
                &&& 'A' <= c <= 'Z' ==> l as int == c as int + 32
                &&& !('A' <= c <= 'Z') ==> l == c
            },
        forall|i: int|
            0 <= i < s.len() ==> {
                let c = s[i];
                let l = #[trigger] replace_seq(lower_seq(s), '-', '_')[i];
                &&& 'A' <= c <= 'Z' ==> l as int == c as int + 32
                &&& c == '-' ==> l == '_'
                &&& !('A' <= c <= 'Z') && c != '-' ==> l == c
            },
{
}

/// Of two texts the one with the smaller character comes first, at the first
/// place where they differ; a text comes before those that go on from it.
pub proof fn first_difference_decides(a: Seq<char>, b: Seq<char>, k: int)
    requires
        0 <= k <= a.len(),
        k <= b.len(),
        forall|i: int| 0 <= i < k ==> #[trigger] a[i] == b[i],
    ensures
        k < a.len() && k < b.len() && a[k] < b[k] ==> lex_lt(a, b) && !lex_lt(b, a),
        k == a.len() && k < b.len() ==> lex_lt(a, b) && !lex_lt(b, a),
        k == a.len() && k == b.len() ==> !lex_lt(a, b),
    decreases k,
{
    if k > 0 {
        assert(a[0] == b[0]);
        assert forall|i: int| 0 <= i < k - 1 implies #[trigger] a.drop_first()[i]
            == b.drop_first()[i] by {
            assert(a[i + 1] == b[i + 1]);
        }
        first_difference_decides(a.drop_first(), b.drop_first(), k - 1);
    }
}

/// All of one character at the end of a text is left out, and nothing else.
pub proof fn trailing_characters_are_left_out(t: Seq<char>, n: nat, c: char)
    requires
        t.len() > 0 ==> t.last() != c,
    ensures
        trim_end_char_seq(t + Seq::new(n, |i: int| c), c) == t,
    decreases n,
{
    if n == 0 {
        assert(t + Seq::new(n, |i: int| c) =~= t);
    } else {
        trailing_characters_are_left_out(t, (n - 1) as nat, c);
        let s = t + Seq::new(n, |i: int| c);
        assert(s.last() == c);
        assert(s.drop_last() =~= t + Seq::new((n - 1) as nat, |i: int| c));
    }
}

/// Texts that differ go on to differ, whatever the same is put behind them.
pub proof fn different_heads_stay_different(a: Seq<char>, b: Seq<char>, x: Seq<char>)
    requires
        a != b,
    ensures
        a + x != b + x,
{
    if a + x == b + x {
        assert((a + x).len() == a.len() + x.len());
        assert((b + x).len() == b.len() + x.len());
        assert(a =~= (a + x).take(a.len() as int));
        assert(b =~= (b + x).take(b.len() as int));
    }
}

/// Texts that differ go on to differ, whatever the same is put before them.
pub proof fn different_tails_stay_different(h: Seq<char>, x: Seq<char>, y: Seq<char>)
    requires
        x != y,
    ensures
        h + x != h + y,
{
    if h + x == h + y {
        assert((h + x).len() == h.len() + x.len());
        assert((h + y).len() == h.len() + y.len());
        assert(x =~= (h + x).skip(h.len() as int));
        assert(y =~= (h + y).skip(h.len() as int));
    }
}

/// White space is what Unicode says it is.
pub proof fn white_space_of_unicode(c: char)
    ensures
        white_space(c) <==> {
            let n = c as u32;
            ||| 0x09 <= n <= 0x0d
            ||| n == 0x20 || n == 0x85 || n == 0xa0 || n == 0x1680
            ||| 0x2000 <= n <= 0x200a
            ||| n == 0x2028 || n == 0x2029 || n == 0x202f || n == 0x205f || n == 0x3000
        },
{
}

/// The first characters of a text are all of it, or as many as are asked for.
pub proof fn first_characters_are_kept(s: Seq<char>, n: int)
    requires
        n >= 0,
    ensures
        s.len() <= n ==> first_chars(s, n) == s,
        s.len() > n ==> first_chars(s, n).len() == n && has_prefix_seq(s, first_chars(s, n)),
{
    if s.len() > n {
        assert(s.take(n).take(n) =~= s.take(n));
    }
}

/// A text stands at the start, at the end and in every text that it is a part of.
pub proof fn parts_are_found(a: Seq<char>, p: Seq<char>, b: Seq<char>)
    ensures
        has_prefix_seq(p + b, p),
        has_suffix_seq(a + p, p),
        contains_seq(a + p + b, p),
{
    assert((p + b).take(p.len() as int) =~= p);
    assert((a + p).skip((a + p).len() - p.len()) =~= p);
    let s = a + p + b;
    assert(s.subrange(a.len() as int, (a.len() + p.len()) as int) =~= p);
    assert(occurs_at(s, p, a.len() as int));
}

} // verus!
