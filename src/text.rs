//! Decimal rendering of integers and JSON string literals.
use vstd::prelude::*;

verus! {

/// The ASCII digit for `d`, for `d < 10`.
pub open spec fn digit_char(d: nat) -> char {
    if d == 0 {
        '0'
    } else if d == 1 {
        '1'
    } else if d == 2 {
        '2'
    } else if d == 3 {
        '3'
    } else if d == 4 {
        '4'
    } else if d == 5 {
        '5'
    } else if d == 6 {
        '6'
    } else if d == 7 {
        '7'
    } else if d == 8 {
        '8'
    } else {
        '9'
    }
}

pub open spec fn is_digit(c: char) -> bool {
    '0' <= c && c <= '9'
}

/// The numeric value of an ASCII digit.
pub open spec fn digit_value(c: char) -> nat {
    (c as u32 - '0' as u32) as nat
}

/// The shortest decimal text of `n`: no sign, no leading zero.
pub open spec fn dec(n: nat) -> Seq<char>
    decreases n,
{
    if n < 10 {
        seq![digit_char(n)]
    } else {
        dec(n / 10).push(digit_char(n % 10))
    }
}

/// The number that a string of decimal digits denotes.
pub open spec fn dec_value(s: Seq<char>) -> nat
    decreases s.len(),
{
    if s.len() == 0 {
        0
    } else {
        dec_value(s.drop_last()) * 10 + digit_value(s.last())
    }
}

pub open spec fn all_digits(s: Seq<char>) -> bool {
    forall|k: int| 0 <= k < s.len() ==> is_digit(#[trigger] s[k])
}

/// A JSON string literal that denotes `s`: quoted, with the characters that
/// JSON requires escaped.
pub uninterp spec fn json_quoted(s: Seq<char>) -> Seq<char>;

proof fn lemma_digit_char(d: nat)
    requires
        d < 10,
    ensures
        is_digit(digit_char(d)),
        digit_value(digit_char(d)) == d,
{
}

/// `dec(n)` is a non-empty string of digits that denotes `n`.
pub proof fn lemma_dec(n: nat)
    ensures
        dec(n).len() >= 1,
        all_digits(dec(n)),
        dec_value(dec(n)) == n,
    decreases n,
{
    if n < 10 {
        lemma_digit_char(n);
        assert(dec(n).drop_last() =~= Seq::<char>::empty());
        assert(dec_value(Seq::<char>::empty()) == 0);
        assert(dec_value(dec(n)) == dec_value(dec(n).drop_last()) * 10 + digit_value(dec(n).last()));
    } else {
        lemma_dec(n / 10);
        lemma_digit_char(n % 10);
        assert(dec(n).drop_last() =~= dec(n / 10));
        assert(dec_value(dec(n)) == dec_value(dec(n / 10)) * 10 + digit_value(dec(n).last()));
        assert(n == (n / 10) * 10 + n % 10) by (nonlinear_arith);
    }
}

/// Two numbers with the same decimal text are equal.
pub proof fn lemma_dec_injective(i: nat, j: nat)
    requires
        dec(i) == dec(j),
    ensures
        i == j,
{
    lemma_dec(i);
    lemma_dec(j);
}

/// A suffix that cannot continue a number: empty, or opened by a non-digit.
pub open spec fn closes_number(r: Seq<char>) -> bool {
    r.len() == 0 || !is_digit(r[0])
}

/// A decimal text followed by a suffix that cannot continue it determines
/// the number.
pub proof fn lemma_dec_prefix_free(i: nat, j: nat, r1: Seq<char>, r2: Seq<char>)
    requires
        dec(i) + r1 == dec(j) + r2,
        closes_number(r1),
        closes_number(r2),
    ensures
        i == j,
        r1 == r2,
{
    lemma_dec(i);
    lemma_dec(j);
    let a = dec(i);
    let b = dec(j);
    let s = a + r1;
    if a.len() < b.len() {
        let k = a.len() as int;
        assert(s[k] == b[k]);
        assert(is_digit(b[k]));
        assert(r1.len() > 0);
        assert(s[k] == r1[0]);
    } else if b.len() < a.len() {
        let k = b.len() as int;
        assert(s[k] == a[k]);
        assert(is_digit(a[k]));
        assert((b + r2)[k] == r2[0]);
    }
    assert(a =~= s.subrange(0, a.len() as int));
    assert(b =~= (b + r2).subrange(0, b.len() as int));
    lemma_dec_injective(i, j);
    assert(r1 =~= s.subrange(a.len() as int, s.len() as int));
    assert(r2 =~= (b + r2).subrange(b.len() as int, s.len() as int));
}

/// Appends the digit `d` to `s`.
fn push_digit(s: &mut String, d: u128)
    requires
        d < 10,
    ensures
        final(s)@ == old(s)@.push(digit_char(d as nat)),
{
    proof {
        reveal_strlit("0");
        reveal_strlit("1");
        reveal_strlit("2");
        reveal_strlit("3");
        reveal_strlit("4");
        reveal_strlit("5");
        reveal_strlit("6");
        reveal_strlit("7");
        reveal_strlit("8");
        reveal_strlit("9");
    }
    let t = if d == 0 {
        "0"
    } else if d == 1 {
        "1"
    } else if d == 2 {
        "2"
    } else if d == 3 {
        "3"
    } else if d == 4 {
        "4"
    } else if d == 5 {
        "5"
    } else if d == 6 {
        "6"
    } else if d == 7 {
        "7"
    } else if d == 8 {
        "8"
    } else {
        "9"
    };
    assert(t@ =~= seq![digit_char(d as nat)]);
    s.append(t);
    assert(s@ =~= old(s)@.push(digit_char(d as nat)));
}

/// The decimal text of `n`.
pub fn decimal(n: u128) -> (r: String)
    ensures
        r@ == dec(n as nat),
    decreases n,
{
    if n < 10 {
        let mut s = String::new();
        push_digit(&mut s, n);
        assert(s@ =~= dec(n as nat));
        s
    } else {
        let mut s = decimal(n / 10);
        push_digit(&mut s, n % 10);
        s
    }
}

/// A decimal text in its shortest form: non-empty digits, without a leading
/// zero unless it is the single digit `0`.
pub open spec fn canonical_digits(s: Seq<char>) -> bool {
    &&& s.len() >= 1
    &&& all_digits(s)
    &&& s.len() > 1 ==> s[0] != '0'
}

proof fn lemma_digit_roundtrip(c: char)
    requires
        is_digit(c),
    ensures
        digit_value(c) < 10,
        digit_char(digit_value(c)) == c,
{
    let d = digit_value(c);
    assert(c as u32 == '0' as u32 + d);
    if d == 0 { assert(c == '0'); } else if d == 1 { assert(c == '1'); } else if d == 2 { assert(c == '2'); }
    else if d == 3 { assert(c == '3'); } else if d == 4 { assert(c == '4'); } else if d == 5 { assert(c == '5'); }
    else if d == 6 { assert(c == '6'); } else if d == 7 { assert(c == '7'); } else if d == 8 { assert(c == '8'); }
    else { assert(c == '9'); }
}

proof fn lemma_leading_nonzero(s: Seq<char>)
    requires
        s.len() >= 1,
        all_digits(s),
        s[0] != '0',
    ensures
        dec_value(s) >= 1,
    decreases s.len(),
{
    if s.len() == 1 {
        assert(s.drop_last() =~= Seq::<char>::empty());
        assert(dec_value(Seq::<char>::empty()) == 0);
    } else {
        lemma_leading_nonzero(s.drop_last());
    }
}

/// A decimal text in its shortest form is the text of its value.
pub proof fn lemma_canonical_digits(s: Seq<char>)
    requires
        canonical_digits(s),
    ensures
        dec(dec_value(s)) == s,
    decreases s.len(),
{
    let c = s.last();
    lemma_digit_roundtrip(c);
    if s.len() == 1 {
        assert(s.drop_last() =~= Seq::<char>::empty());
        assert(dec_value(Seq::<char>::empty()) == 0);
        assert(dec_value(s) == digit_value(c));
        assert(dec(dec_value(s)) =~= s);
    } else {
        let p = s.drop_last();
        assert(p[0] == s[0]);
        lemma_canonical_digits(p);
        lemma_leading_nonzero(p);
        let v = dec_value(s);
        assert(v == dec_value(p) * 10 + digit_value(c));
        assert(v / 10 == dec_value(p) && v % 10 == digit_value(c)) by (nonlinear_arith)
            requires v == dec_value(p) * 10 + digit_value(c), digit_value(c) < 10;
        assert(dec(v) =~= s);
    }
}

/// The text of a number has no leading zero.
pub proof fn lemma_dec_canonical(n: nat)
    ensures
        canonical_digits(dec(n)),
        n >= 1 ==> dec(n)[0] != '0',
        n < 10 ==> dec(n).len() == 1,
        n < 100 ==> dec(n).len() <= 2,
        n < 1000 ==> dec(n).len() <= 3,
    decreases n,
{
    lemma_dec(n);
    if n >= 10 {
        lemma_dec_canonical(n / 10);
        assert(dec(n)[0] == dec(n / 10)[0]);
        assert(dec(n).len() == dec(n / 10).len() + 1);
    }
}

/// Reads a number from 0 to 255 in its shortest decimal form.
pub fn parse_u8_dec(t: &str) -> (r: Option<u8>)
    ensures
        r matches Some(v) ==> t@ == dec(v as nat),
        r is None ==> forall|v: u8| t@ != #[trigger] dec(v as nat),
{
    let n = t.unicode_len();
    if n == 0 || n > 3 {
        proof {
            assert forall|v: u8| t@ != #[trigger] dec(v as nat) by {
                lemma_dec_canonical(v as nat);
            }
        }
        return None;
    }
    let mut val: u32 = 0;
    let mut i: usize = 0;
    while i < n
        invariant
            n == t@.len(),
            1 <= n <= 3,
            i <= n,
            all_digits(t@.subrange(0, i as int)),
            val as nat == dec_value(t@.subrange(0, i as int)),
            val < 1000,
            i <= 1 ==> val < 10,
            i <= 2 ==> val < 100,
        decreases n - i,
    {
        let c = t.get_char(i);
        if !('0' <= c && c <= '9') {
            proof {
                assert forall|v: u8| t@ != #[trigger] dec(v as nat) by {
                    lemma_dec(v as nat);
                    if t@ == dec(v as nat) {
                        assert(is_digit(t@[i as int]));
                    }
                }
            }
            return None;
        }
        let ghost p = t@.subrange(0, i + 1);
        assert(p.drop_last() =~= t@.subrange(0, i as int));
        val = val * 10 + (c as u32 - '0' as u32);
        assert(all_digits(p));
        i = i + 1;
    }
    assert(t@.subrange(0, n as int) =~= t@);
    let lead_zero = n > 1 && t.get_char(0) == '0';
    if lead_zero || val > 255 {
        proof {
            assert forall|v: u8| t@ != #[trigger] dec(v as nat) by {
                lemma_dec_canonical(v as nat);
                lemma_dec(v as nat);
                if t@ == dec(v as nat) {
                    assert(dec_value(t@) == v);
                    assert(!lead_zero);
                }
            }
        }
        return None;
    }
    proof {
        lemma_canonical_digits(t@);
    }
    Some(val as u8)
}

/// Whether two strings hold the same characters.
pub fn str_eq(a: &str, b: &str) -> (r: bool)
    ensures
        r == (a@ == b@),
{
    let n = a.unicode_len();
    if n != b.unicode_len() {
        return false;
    }
    let mut i: usize = 0;
    while i < n
        invariant
            n == a@.len(),
            n == b@.len(),
            i <= n,
            a@.subrange(0, i as int) == b@.subrange(0, i as int),
        decreases n - i,
    {
        if a.get_char(i) != b.get_char(i) {
            assert(a@[i as int] != b@[i as int]);
            return false;
        }
        assert(a@.subrange(0, i + 1) =~= a@.subrange(0, i as int).push(a@[i as int]));
        assert(b@.subrange(0, i + 1) =~= b@.subrange(0, i as int).push(b@[i as int]));
        i = i + 1;
    }
    assert(a@ =~= a@.subrange(0, n as int));
    assert(b@ =~= b@.subrange(0, n as int));
    true
}

pub open spec fn free_of(s: Seq<char>, c: char) -> bool {
    forall|k: int| 0 <= k < s.len() ==> #[trigger] s[k] != c
}

/// Splitting at the first `c`: a head without `c`, then `c`, then the rest.
pub open spec fn split_on(s: Seq<char>, c: char, head: Seq<char>, rest: Seq<char>) -> bool {
    free_of(head, c) && s == head + seq![c] + rest
}

/// At most one split of a text at `c` has a head without `c`.
pub proof fn lemma_split_unique(s: Seq<char>, c: char, h1: Seq<char>, r1: Seq<char>, h2: Seq<char>, r2: Seq<char>)
    requires
        split_on(s, c, h1, r1),
        split_on(s, c, h2, r2),
    ensures
        h1 == h2,
        r1 == r2,
{
    if h1.len() < h2.len() {
        assert(s[h1.len() as int] == c);
        assert(s[h1.len() as int] == h2[h1.len() as int]);
    } else if h2.len() < h1.len() {
        assert(s[h2.len() as int] == c);
        assert(s[h2.len() as int] == h1[h2.len() as int]);
    }
    assert(h1 =~= s.subrange(0, h1.len() as int));
    assert(h2 =~= s.subrange(0, h2.len() as int));
    assert(r1 =~= s.subrange(h1.len() as int + 1, s.len() as int));
    assert(r2 =~= s.subrange(h2.len() as int + 1, s.len() as int));
}

/// Splits `s` at its first `c`; `None` where it holds none.
pub fn split_once(s: &str, c: char) -> (r: Option<(&str, &str)>)
    ensures
        r matches Some((h, t)) ==> split_on(s@, c, h@, t@),
        r is None ==> free_of(s@, c),
{
    let n = s.unicode_len();
    let mut i: usize = 0;
    while i < n
        invariant
            n == s@.len(),
            i <= n,
            free_of(s@.subrange(0, i as int), c),
        decreases n - i,
    {
        if s.get_char(i) == c {
            let h = s.substring_char(0, i);
            let t = s.substring_char(i + 1, n);
            assert(s@ =~= s@.subrange(0, i as int) + seq![s@[i as int]] + s@.subrange(i + 1, n as int));
            return Some((h, t));
        }
        assert(free_of(s@.subrange(0, i + 1), c)) by {
            assert forall|k: int| 0 <= k < i + 1 implies #[trigger] s@.subrange(0, i + 1)[k] != c by {
                if k < i {
                    assert(s@.subrange(0, i + 1)[k] == s@.subrange(0, i as int)[k]);
                }
            }
        }
        i = i + 1;
    }
    assert(s@ =~= s@.subrange(0, n as int));
    None
}

/// Relies on serde_json::to_string on a `str`: it writes the string as one
/// JSON string literal, quoted and escaped. The serializer writes into a
/// `Vec<u8>`, whose writes cannot fail, so the call returns `Ok` for every
/// string.
#[verifier::external_body]
pub(crate) fn json_string(s: &str) -> (r: String)
    ensures
        r@ == json_quoted(s@),
{
    serde_json::to_string(s).unwrap_or_default()
}

} // verus!
