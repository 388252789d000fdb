//! Facts about the texts that keys are built from: escaping of names, and
//! decimal numbers. They make the keys built from them read back uniquely.

use vstd::prelude::*;
use vstd::string::{StrSliceExecFns, StringExecFns};
use crate::util::{digit_char, int_text, nat_text};

verus! {

/// The characters that an escaped name never holds as such: the separators of
/// keys, the wildcards of scan patterns, and the escape character itself.
pub open spec fn is_escaped(c: char) -> bool {
    c == '%' || c == ':' || c == '.' || c == '*' || c == '?' || c == '[' || c == ']' || c == '\\'
}

/// The letter that follows `%` in the escape of a character.
pub open spec fn escape_code(c: char) -> char {
    if c == '%' {
        'p'
    } else if c == ':' {
        'c'
    } else if c == '.' {
        'd'
    } else if c == '*' {
        's'
    } else if c == '?' {
        'q'
    } else if c == '[' {
        'o'
    } else if c == ']' {
        'e'
    } else {
        'b'
    }
}

/// The escape of one character.
pub open spec fn escape_char(c: char) -> Seq<char> {
    if is_escaped(c) {
        seq!['%', escape_code(c)]
    } else {
        seq![c]
    }
}

/// The escape of a text, character by character.
pub open spec fn escaped(s: Seq<char>) -> Seq<char>
    decreases s.len(),
{
    if s.len() == 0 {
        Seq::empty()
    } else {
        escape_char(s[0]) + escaped(s.drop_first())
    }
}

/// `s` does not hold the character `c`.
pub open spec fn no_char(s: Seq<char>, c: char) -> bool {
    forall|i: int| 0 <= i < s.len() ==> s[i] != c
}

/// `p` is a prefix of `s`.
pub open spec fn is_prefix(p: Seq<char>, s: Seq<char>) -> bool {
    p.len() <= s.len() && s.subrange(0, p.len() as int) == p
}

/// A decimal digit.
pub open spec fn is_digit(c: char) -> bool {
    c == '0' || c == '1' || c == '2' || c == '3' || c == '4' || c == '5' || c == '6' || c == '7'
        || c == '8' || c == '9'
}

/// Escaping one more character appends its escape.
pub proof fn lemma_escaped_push(s: Seq<char>, c: char)
    ensures
        escaped(s.push(c)) == escaped(s) + escape_char(c),
    decreases s.len(),
{
    if s.len() == 0 {
        let e = Seq::<char>::empty();
        assert(s.push(c).drop_first() =~= e);
        assert(s.push(c)[0] == c);
        assert(escaped(e) == e);
        assert(s =~= e);
        assert(escaped(s.push(c)) == escape_char(c) + escaped(e));
        assert(escaped(s.push(c)) =~= escaped(s) + escape_char(c));
    } else {
        assert(s.push(c).drop_first() =~= s.drop_first().push(c));
        lemma_escaped_push(s.drop_first(), c);
        assert(escaped(s.push(c)) =~= escaped(s) + escape_char(c));
    }
}

/// An escaped text holds no escaped character but `%`.
pub proof fn lemma_escaped_chars(s: Seq<char>)
    ensures
        forall|i: int|
            0 <= i < escaped(s).len() ==> #[trigger] escaped(s)[i] == '%' || !is_escaped(
                escaped(s)[i],
            ),
    decreases s.len(),
{
    if s.len() > 0 {
        lemma_escaped_chars(s.drop_first());
        let h = escape_char(s[0]);
        let t = escaped(s.drop_first());
        let e = escaped(s);
        assert(e == h + t);
        assert forall|i: int| 0 <= i < e.len() implies #[trigger] e[i] == '%' || !is_escaped(e[i]) by {
            if i >= h.len() {
                assert(e[i] == t[i - h.len()]);
            }
        }
    }
}

/// An escaped text holds no `:` and no `.`.
pub proof fn lemma_escaped_separators(s: Seq<char>)
    ensures
        no_char(escaped(s), ':'),
        no_char(escaped(s), '.'),
{
    lemma_escaped_chars(s);
}

/// Different texts have different escapes.
pub proof fn lemma_escaped_injective(s: Seq<char>, t: Seq<char>)
    requires
        escaped(s) == escaped(t),
    ensures
        s == t,
    decreases s.len(),
{
    if s.len() == 0 {
        if t.len() > 0 {
            assert(escaped(t).len() >= escape_char(t[0]).len());
        }
        assert(s =~= t);
    } else {
        if t.len() == 0 {
            assert(escaped(s).len() >= escape_char(s[0]).len());
        }
        let hs = escape_char(s[0]);
        let ht = escape_char(t[0]);
        let e = escaped(s);
        assert(e == hs + escaped(s.drop_first()));
        assert(e == ht + escaped(t.drop_first()));
        assert(e[0] == hs[0]);
        assert(e[0] == ht[0]);
        if is_escaped(s[0]) {
            assert(is_escaped(t[0]));
            assert(e[1] == hs[1]);
            assert(e[1] == ht[1]);
        } else {
            assert(!is_escaped(t[0]));
        }
        assert(s[0] == t[0]);
        assert(hs == ht);
        assert(escaped(s.drop_first()) =~= e.subrange(hs.len() as int, e.len() as int));
        assert(escaped(t.drop_first()) =~= e.subrange(ht.len() as int, e.len() as int));
        lemma_escaped_injective(s.drop_first(), t.drop_first());
        assert forall|i: int| 0 <= i < s.len() implies s[i] == t[i] by {
            if i > 0 {
                assert(s[i] == s.drop_first()[i - 1]);
                assert(t[i] == t.drop_first()[i - 1]);
            }
        }
        assert(s =~= t);
    }
}

/// The text of a natural number is non-empty and all digits.
pub proof fn lemma_nat_text_digits(n: nat)
    ensures
        nat_text(n).len() >= 1,
        forall|i: int| 0 <= i < nat_text(n).len() ==> is_digit(#[trigger] nat_text(n)[i]),
    decreases n,
{
    if n >= 10 {
        lemma_nat_text_digits(n / 10);
        let t = nat_text(n);
        assert forall|i: int| 0 <= i < t.len() implies is_digit(#[trigger] t[i]) by {
            if i < t.len() - 1 {
                assert(t[i] == nat_text(n / 10)[i]);
            }
        }
    }
}

/// Different natural numbers have different texts.
pub proof fn lemma_nat_text_injective(a: nat, b: nat)
    requires
        nat_text(a) == nat_text(b),
    ensures
        a == b,
    decreases a,
{
    if a < 10 && b < 10 {
        assert(nat_text(a)[0] == digit_char(a));
        assert(nat_text(b)[0] == digit_char(b));
    } else if a < 10 {
        lemma_nat_text_digits(b / 10);
        assert(nat_text(b).len() >= 2);
    } else if b < 10 {
        lemma_nat_text_digits(a / 10);
        assert(nat_text(a).len() >= 2);
    } else {
        let ta = nat_text(a);
        let tb = nat_text(b);
        assert(ta.drop_last() =~= nat_text(a / 10));
        assert(tb.drop_last() =~= nat_text(b / 10));
        assert(ta.last() == digit_char(a % 10));
        assert(tb.last() == digit_char(b % 10));
        lemma_nat_text_injective(a / 10, b / 10);
        assert(a % 10 == b % 10);
    }
}

/// The text of an integer holds no `.`, `,` or `:`.
pub proof fn lemma_int_text_plain(i: int)
    ensures
        no_char(int_text(i), '.'),
        no_char(int_text(i), ','),
        no_char(int_text(i), ':'),
{
    if i < 0 {
        lemma_nat_text_digits((-i) as nat);
        let t = int_text(i);
        assert forall|k: int| 0 <= k < t.len() implies t[k] != '.' && t[k] != ',' && t[k] != ':' by {
            if k > 0 {
                assert(t[k] == nat_text((-i) as nat)[k - 1]);
            }
        }
    } else {
        lemma_nat_text_digits(i as nat);
    }
}

/// Different integers have different texts.
pub proof fn lemma_int_text_injective(a: int, b: int)
    requires
        int_text(a) == int_text(b),
    ensures
        a == b,
{
    if a < 0 {
        lemma_nat_text_digits((-a) as nat);
    } else {
        lemma_nat_text_digits(a as nat);
    }
    if b < 0 {
        lemma_nat_text_digits((-b) as nat);
    } else {
        lemma_nat_text_digits(b as nat);
    }
    if a < 0 && b < 0 {
        assert(int_text(a).drop_first() =~= nat_text((-a) as nat));
        assert(int_text(b).drop_first() =~= nat_text((-b) as nat));
        lemma_nat_text_injective((-a) as nat, (-b) as nat);
    } else if a < 0 {
        assert(int_text(a)[0] == '-');
        assert(is_digit(int_text(b)[0]));
    } else if b < 0 {
        assert(int_text(b)[0] == '-');
        assert(is_digit(int_text(a)[0]));
    } else {
        lemma_nat_text_injective(a as nat, b as nat);
    }
}

/// Where `x c y` is a prefix of `u c w` and neither `x` nor `u` holds `c`,
/// the two agree up to the first `c`, and `y` is a prefix of `w`.
pub proof fn lemma_split(x: Seq<char>, y: Seq<char>, u: Seq<char>, w: Seq<char>, c: char)
    requires
        no_char(x, c),
        no_char(u, c),
        is_prefix(x + seq![c] + y, u + seq![c] + w),
    ensures
        x == u,
        is_prefix(y, w),
{
    let l = x + seq![c] + y;
    let r = u + seq![c] + w;
    assert forall|i: int| 0 <= i < l.len() implies r[i] == l[i] by {
        assert(r.subrange(0, l.len() as int)[i] == r[i]);
    }
    if x.len() < u.len() {
        assert(l[x.len() as int] == c);
        assert(r[x.len() as int] == u[x.len() as int]);
    }
    if u.len() < x.len() {
        assert(r[u.len() as int] == c);
        assert(l[u.len() as int] == x[u.len() as int]);
    }
    assert forall|i: int| 0 <= i < x.len() implies x[i] == u[i] by {
        assert(l[i] == x[i]);
        assert(r[i] == u[i]);
    }
    assert(x =~= u);
    assert forall|i: int| 0 <= i < y.len() implies w.subrange(0, y.len() as int)[i] == y[i] by {
        let k = x.len() + 1 + i;
        assert(l[k] == y[i]);
        assert(r[k] == w[i]);
    }
    assert(w.subrange(0, y.len() as int) =~= y);
}

/// Where `x c y == u c w` and neither `x` nor `u` holds `c`: `x == u`, `y == w`.
pub proof fn lemma_split_eq(x: Seq<char>, y: Seq<char>, u: Seq<char>, w: Seq<char>, c: char)
    requires
        no_char(x, c),
        no_char(u, c),
        x + seq![c] + y == u + seq![c] + w,
    ensures
        x == u,
        y == w,
{
    let r = u + seq![c] + w;
    assert(r.subrange(0, r.len() as int) =~= r);
    lemma_split(x, y, u, w, c);
    assert(w.subrange(0, y.len() as int) =~= w);
}

/// Two texts with a common start are equal only where the rests are.
pub proof fn lemma_strip(p: Seq<char>, x: Seq<char>, y: Seq<char>)
    ensures
        p + x == p + y ==> x == y,
        is_prefix(p + x, p + y) ==> is_prefix(x, y),
{
    if p + x == p + y {
        assert(x =~= (p + x).subrange(p.len() as int, (p + x).len() as int));
        assert(y =~= (p + y).subrange(p.len() as int, (p + y).len() as int));
    }
    if is_prefix(p + x, p + y) {
        assert forall|i: int| 0 <= i < x.len() implies y.subrange(0, x.len() as int)[i] == x[i] by {
            assert((p + y).subrange(0, (p + x).len() as int)[p.len() + i] == (p + x)[p.len() + i]);
        }
        assert(y.subrange(0, x.len() as int) =~= x);
    }
}

/// Appends the escape of `t` to `s`.
pub fn push_escaped(s: &mut String, t: &String)
    ensures
        final(s)@ == old(s)@ + escaped(t@),
{
    let ghost s0 = s@;
    let text = t.as_str();
    let n = text.unicode_len();
    let mut i: usize = 0;
    assert(t@.take(0) =~= Seq::<char>::empty());
    assert(s@ =~= s0 + escaped(t@.take(0)));
    while i < n
        invariant
            n == t@.len(),
            text@ == t@,
            i <= n,
            s@ == s0 + escaped(t@.take(i as int)),
        decreases n - i,
    {
        let c = text.get_char(i);
        let ghost before = s@;
        proof {
            assert(t@.take(i + 1) =~= t@.take(i as int).push(c));
            lemma_escaped_push(t@.take(i as int), c);
            reveal_strlit("%p");
            reveal_strlit("%c");
            reveal_strlit("%d");
            reveal_strlit("%s");
            reveal_strlit("%q");
            reveal_strlit("%o");
            reveal_strlit("%e");
            reveal_strlit("%b");
        }
        if c == '%' {
            s.append("%p");
        } else if c == ':' {
            s.append("%c");
        } else if c == '.' {
            s.append("%d");
        } else if c == '*' {
            s.append("%s");
        } else if c == '?' {
            s.append("%q");
        } else if c == '[' {
            s.append("%o");
        } else if c == ']' {
            s.append("%e");
        } else if c == '\\' {
            s.append("%b");
        } else {
            s.append(text.substring_char(i, i + 1));
        }
        assert(s@ =~= before + escape_char(c));
        i = i + 1;
    }
    assert(t@.take(n as int) =~= t@);
}

} // verus!
