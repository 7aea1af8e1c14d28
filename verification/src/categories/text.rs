//! Text helpers: matching configuration words without regard to ASCII
//! letter case, writing numbers in decimal, and reading comma-separated
//! lists of names.
use vstd::prelude::*;
use vstd::string::*;

verus! {

/// `c` is the character `l`, or `l` is a lowercase ASCII letter and `c` is
/// its uppercase form.
pub open spec fn char_folds_to(c: char, l: char) -> bool {
    c == l || (97 <= (l as u32) <= 122 && (c as u32) + 32 == (l as u32))
}

/// `s` spells `lit` once its ASCII uppercase letters are lowered.
pub open spec fn folds_to(s: Seq<char>, lit: Seq<char>) -> bool {
    &&& s.len() == lit.len()
    &&& forall|i: int| 0 <= i < s.len() ==> char_folds_to(#[trigger] s[i], lit[i])
}

/// Whether `s`, with its ASCII uppercase letters lowered, equals `lit`.
pub fn matches_ignoring_ascii_case(s: &str, lit: &str) -> (r: bool)
    ensures
        r == folds_to(s@, lit@),
{
    let n = s.unicode_len();
    if n != lit.unicode_len() {
        return false;
    }
    let mut i: usize = 0;
    while i < n
        invariant
            n == s@.len() == lit@.len(),
            0 <= i <= n,
            forall|j: int| 0 <= j < i ==> char_folds_to(#[trigger] s@[j], lit@[j]),
        decreases n - i,
    {
        let c = s.get_char(i);
        let l = lit.get_char(i);
        let cu = c as u32;
        let lu = l as u32;
        if !(c == l || (97 <= lu && lu <= 122 && cu + 32 == lu)) {
            return false;
        }
        i = i + 1;
    }
    true
}

/// The decimal digits of `n`, most significant first.
pub open spec fn decimal(n: nat) -> Seq<char>
    decreases n,
{
    let d = n % 10;
    let c = if d == 0 {
        '0'
    } else if d == 1 {
        '1'
    } else if d == 2 {
        '2'
    } else if d == 3 {
        '3'
    } else if d == 4 {
        '4'
    } else if d == 5 {
        '5'
    } else if d == 6 {
        '6'
    } else if d == 7 {
        '7'
    } else if d == 8 {
        '8'
    } else {
        '9'
    };
    if n < 10 {
        seq![c]
    } else {
        decimal(n / 10).push(c)
    }
}

/// The decimal digit `d` (below 10) as a character.
fn digit_char(d: u64) -> (c: char)
    requires
        d < 10,
    ensures
        c == decimal(d as nat)[0],
{
    if d == 0 {
        '0'
    } else if d == 1 {
        '1'
    } else if d == 2 {
        '2'
    } else if d == 3 {
        '3'
    } else if d == 4 {
        '4'
    } else if d == 5 {
        '5'
    } else if d == 6 {
        '6'
    } else if d == 7 {
        '7'
    } else if d == 8 {
        '8'
    } else {
        '9'
    }
}

/// `n` written in decimal: its digits, most significant first, no sign and
/// no leading zeros, as `ToString` writes it.
pub(crate) fn decimal_string(n: u64) -> (r: String)
    ensures
        r@ == decimal(n as nat),
{
    let mut m: u64 = n;
    let mut low: Vec<char> = Vec::new();
    proof {
        assert(decimal(n as nat) =~= decimal(m as nat) + low@.reverse());
    }
    while m >= 10
        invariant
            decimal(n as nat) == decimal(m as nat) + low@.reverse(),
        decreases m,
    {
        let c = digit_char(m % 10);
        proof {
            assert(decimal((m % 10) as nat)[0] == decimal(m as nat).last());
            assert(decimal(m as nat) == decimal((m / 10) as nat).push(c));
            assert(low@.push(c).reverse() =~= seq![c] + low@.reverse());
            assert(decimal((m / 10) as nat).push(c) + low@.reverse() =~= decimal((m / 10) as nat) + (seq![c] + low@.reverse()));
        }
        low.push(c);
        m = m / 10;
    }
    let mut r = String::new();
    push_char(&mut r, digit_char(m));
    proof {
        assert(decimal(m as nat) =~= seq![decimal(m as nat)[0]]);
    }
    let mut i: usize = low.len();
    while i > 0
        invariant
            0 <= i <= low@.len(),
            r@ == decimal(m as nat) + low@.reverse().take(low@.len() - i),
        decreases i,
    {
        push_char(&mut r, low[i - 1]);
        proof {
            let k = low@.len() - i;
            assert(low@.reverse()[k] == low@[i - 1]);
            assert(low@.reverse().take(k + 1) =~= low@.reverse().take(k).push(low@[i - 1]));
        }
        i = i - 1;
    }
    proof {
        assert(low@.reverse().take(low@.len() as int) =~= low@.reverse());
    }
    r
}

/// `n` in decimal, with a leading minus sign when negative.
pub open spec fn signed_decimal(n: int) -> Seq<char> {
    if n < 0 {
        seq!['-'] + decimal((-n) as nat)
    } else {
        decimal(n as nat)
    }
}

/// `n` written in decimal, as `ToString` writes it: a minus sign for a
/// negative number, then the decimal digits of its magnitude, no leading
/// zeros.
pub(crate) fn signed_decimal_string(n: i64) -> (r: String)
    ensures
        r@ == signed_decimal(n as int),
{
    if n < 0 {
        let mag: u64 = if n == i64::MIN {
            9223372036854775808u64
        } else {
            (-n) as u64
        };
        let digits = decimal_string(mag);
        let mut r = String::new();
        push_char(&mut r, '-');
        let r = r.concat(digits.as_str());
        proof {
            assert(r@ =~= seq!['-'] + decimal((-(n as int)) as nat));
        }
        r
    } else {
        decimal_string(n as u64)
    }
}

/// `c` is an ASCII decimal digit.
pub open spec fn is_digit(c: char) -> bool {
    '0' <= c <= '9'
}

/// The number decimal digits spell, most significant first.
pub open spec fn digits_value(s: Seq<char>) -> int
    decreases s.len(),
{
    if s.len() == 0 {
        0
    } else {
        digits_value(s.drop_last()) * 10 + (s.last() as int - '0' as int)
    }
}

/// `s` is one or more ASCII decimal digits.
pub open spec fn all_digits(s: Seq<char>) -> bool {
    s.len() > 0 && forall|i: int| 0 <= i < s.len() ==> is_digit(#[trigger] s[i])
}

/// The number a text spells as `str::parse::<i64>` reads it: an optional
/// `+` or `-`, then one or more ASCII digits, nothing else.
pub open spec fn parsed_value(s: Seq<char>) -> Option<int> {
    if s.len() > 0 && s[0] == '-' && all_digits(s.drop_first()) {
        Some(-digits_value(s.drop_first()))
    } else if s.len() > 0 && s[0] == '+' && all_digits(s.drop_first()) {
        Some(digits_value(s.drop_first()))
    } else if all_digits(s) {
        Some(digits_value(s))
    } else {
        None
    }
}

/// What `str::parse::<i64>` gives: the number the text spells, where it
/// spells one in the `i64` range; `None` otherwise.
pub open spec fn parsed_i64(s: Seq<char>) -> Option<i64> {
    match parsed_value(s) {
        Some(v) => if i64::MIN <= v <= i64::MAX {
            Some(v as i64)
        } else {
            None
        },
        None => None,
    }
}

proof fn lemma_digits_value_grows(s: Seq<char>, i: int)
    requires
        0 <= i <= s.len(),
        forall|t: int| 0 <= t < s.len() ==> is_digit(#[trigger] s[t]),
    ensures
        0 <= digits_value(s.take(i)) <= digits_value(s),
    decreases s.len() - i,
{
    if i < s.len() {
        lemma_digits_value_grows(s, i + 1);
        assert(s.take(i + 1).drop_last() =~= s.take(i));
    } else {
        assert(s.take(i) =~= s);
    }
    lemma_digits_value_nonneg(s.take(i));
}

proof fn lemma_digits_value_nonneg(s: Seq<char>)
    requires
        forall|t: int| 0 <= t < s.len() ==> is_digit(#[trigger] s[t]),
    ensures
        digits_value(s) >= 0,
    decreases s.len(),
{
    if s.len() > 0 {
        lemma_digits_value_nonneg(s.drop_last());
    }
}

/// Reads an `i64` as `str::parse::<i64>` does: an optional sign, then
/// decimal digits, in range; `None` for anything else.
pub(crate) fn parse_i64(s: &str) -> (r: Option<i64>)
    ensures
        r == parsed_i64(s@),
{
    let n = s.unicode_len();
    if n == 0 {
        return None;
    }
    let first = s.get_char(0);
    let start: usize = if first == '-' || first == '+' { 1 } else { 0 };
    let negative = first == '-';
    if start == n {
        return None;
    }
    let ghost body = s@.skip(start as int);
    // The magnitude read so far; a negative number may reach 2^63.
    let limit: i128 = if negative { 9223372036854775808i128 } else { 9223372036854775807i128 };
    let mut acc: i128 = 0;
    let mut i: usize = start;
    while i < n
        invariant
            n == s@.len(),
            1 <= n,
            start <= i <= n,
            start < n,
            start <= 1,
            first == s@[0],
            start == 1 <==> (first == '-' || first == '+'),
            negative == (first == '-'),
            body == s@.skip(start as int),
            limit == if negative { 9223372036854775808i128 } else { 9223372036854775807i128 },
            forall|t: int| 0 <= t < i - start ==> is_digit(#[trigger] body[t]),
            acc == digits_value(body.take(i - start)),
            0 <= acc <= limit,
        decreases n - i,
    {
        let c = s.get_char(i);
        proof {
            assert(body[i - start] == c);
        }
        if !('0' <= c && c <= '9') {
            proof {
                assert(!is_digit(body[i - start]));
                assert(!all_digits(body));
                assert(!all_digits(s@)) by {
                    assert(s@[i as int] == c);
                }
                if start == 1 {
                    assert(s@.drop_first() =~= body);
                } else {
                    assert(body =~= s@);
                    assert(s@[0] != '-' && s@[0] != '+');
                }
            }
            return None;
        }
        let d = (c as u32 - '0' as u32) as i128;
        proof {
            assert(body.take(i - start + 1).drop_last() =~= body.take(i - start));
            assert(body.take(i - start + 1).last() == c);
        }
        let next = acc * 10 + d;
        if next > limit {
            proof {
                // Every later digit only makes the number larger.
                if all_digits(body) {
                    lemma_digits_value_grows(body, i - start + 1);
                }
                if start == 1 {
                    assert(s@.drop_first() =~= body);
                    if all_digits(s@) {
                        assert(!is_digit(s@[0]));
                    }
                } else {
                    assert(body =~= s@);
                }
            }
            return None;
        }
        acc = next;
        i = i + 1;
    }
    proof {
        assert(body.take(n - start) =~= body);
        assert(all_digits(body));
        if start == 1 {
            assert(s@.drop_first() =~= body);
            assert(!is_digit(s@[0]));
        } else {
            assert(body =~= s@);
        }
    }
    if negative {
        Some((-acc) as i64)
    } else {
        Some(acc as i64)
    }
}

/// `a` sorts before `b`: at the first place they differ `a` has the
/// smaller character, or `a` is a proper prefix of `b`. This is the
/// order of `str`, whose byte order is the code-point order of its
/// characters.
pub open spec fn text_lt(a: Seq<char>, b: Seq<char>) -> bool
    decreases a.len(),
{
    if a.len() == 0 {
        b.len() > 0
    } else if b.len() == 0 {
        false
    } else if a[0] != b[0] {
        a[0] < b[0]
    } else {
        text_lt(a.drop_first(), b.drop_first())
    }
}

pub proof fn lemma_text_lt_irreflexive(a: Seq<char>)
    ensures
        !text_lt(a, a),
    decreases a.len(),
{
    if a.len() > 0 {
        lemma_text_lt_irreflexive(a.drop_first());
    }
}

pub proof fn lemma_text_lt_transitive(a: Seq<char>, b: Seq<char>, c: Seq<char>)
    requires
        text_lt(a, b),
        text_lt(b, c),
    ensures
        text_lt(a, c),
    decreases a.len(),
{
    if a.len() > 0 && b.len() > 0 && c.len() > 0 {
        if a[0] == b[0] && b[0] == c[0] {
            lemma_text_lt_transitive(a.drop_first(), b.drop_first(), c.drop_first());
        }
    }
}

/// Of two different texts, one sorts before the other.
pub proof fn lemma_text_lt_total(a: Seq<char>, b: Seq<char>)
    ensures
        a == b || text_lt(a, b) || text_lt(b, a),
    decreases a.len(),
{
    if a.len() > 0 && b.len() > 0 && a[0] == b[0] {
        lemma_text_lt_total(a.drop_first(), b.drop_first());
        if a.drop_first() == b.drop_first() {
            assert(a =~= seq![a[0]] + a.drop_first());
            assert(b =~= seq![b[0]] + b.drop_first());
        }
    } else if a.len() == 0 && b.len() == 0 {
        assert(a =~= b);
    }
}

pub proof fn lemma_text_lt_asymmetric(a: Seq<char>, b: Seq<char>)
    requires
        text_lt(a, b),
    ensures
        !text_lt(b, a),
{
    if text_lt(b, a) {
        lemma_text_lt_transitive(a, b, a);
        lemma_text_lt_irreflexive(a);
    }
}

/// Whether `a` sorts before `b`.
pub fn text_less(a: &str, b: &str) -> (r: bool)
    ensures
        r == text_lt(a@, b@),
{
    let la = a.unicode_len();
    let lb = b.unicode_len();
    let mut i: usize = 0;
    proof {
        assert(a@.skip(0) =~= a@);
        assert(b@.skip(0) =~= b@);
        assert(a@.subrange(0, 0) =~= b@.subrange(0, 0));
    }
    while i < la && i < lb
        invariant
            la == a@.len(),
            lb == b@.len(),
            0 <= i <= la,
            i <= lb,
            a@.subrange(0, i as int) == b@.subrange(0, i as int),
            text_lt(a@, b@) == text_lt(a@.skip(i as int), b@.skip(i as int)),
        decreases la - i,
    {
        let ca = a.get_char(i);
        let cb = b.get_char(i);
        proof {
            assert(a@.skip(i as int)[0] == ca);
            assert(b@.skip(i as int)[0] == cb);
            assert(a@.skip(i as int).drop_first() =~= a@.skip(i as int + 1));
            assert(b@.skip(i as int).drop_first() =~= b@.skip(i as int + 1));
        }
        if ca != cb {
            return ca < cb;
        }
        proof {
            assert(a@.subrange(0, i as int + 1) =~= a@.subrange(0, i as int).push(ca));
            assert(b@.subrange(0, i as int + 1) =~= b@.subrange(0, i as int).push(cb));
        }
        i = i + 1;
    }
    proof {
        assert(a@.skip(i as int).len() == la - i);
        assert(b@.skip(i as int).len() == lb - i);
    }
    i < lb
}

/// The characters with the Unicode White_Space property, those
/// `char::is_whitespace` and `str::trim` go by.
pub open spec fn is_white_space(c: char) -> bool {
    let u = c as u32;
    ||| 0x09 <= u <= 0x0D
    ||| u == 0x20
    ||| u == 0x85
    ||| u == 0xA0
    ||| u == 0x1680
    ||| 0x2000 <= u <= 0x200A
    ||| u == 0x2028
    ||| u == 0x2029
    ||| u == 0x202F
    ||| u == 0x205F
    ||| u == 0x3000
}

/// Whether `c` is white space.
pub fn white_space(c: char) -> (r: bool)
    ensures
        r == is_white_space(c),
{
    let u = c as u32;
    (0x09 <= u && u <= 0x0D) || u == 0x20 || u == 0x85 || u == 0xA0 || u == 0x1680 || (0x2000 <= u && u
        <= 0x200A) || u == 0x2028 || u == 0x2029 || u == 0x202F || u == 0x205F || u == 0x3000
}

/// `s` without its leading white space.
pub open spec fn trim_start(s: Seq<char>) -> Seq<char>
    decreases s.len(),
{
    if s.len() > 0 && is_white_space(s[0]) {
        trim_start(s.drop_first())
    } else {
        s
    }
}

/// `s` without its trailing white space.
pub open spec fn trim_end(s: Seq<char>) -> Seq<char>
    decreases s.len(),
{
    if s.len() > 0 && is_white_space(s.last()) {
        trim_end(s.drop_last())
    } else {
        s
    }
}

/// `s` without leading and trailing white space, as `str::trim` gives it.
pub open spec fn trimmed(s: Seq<char>) -> Seq<char> {
    trim_end(trim_start(s))
}

/// The pieces of `s` between commas, as `str::split(',')` gives them:
/// one more piece than there are commas.
pub open spec fn split_commas(s: Seq<char>) -> Seq<Seq<char>>
    decreases s.len(),
{
    if s.len() == 0 {
        seq![Seq::<char>::empty()]
    } else {
        let p = split_commas(s.drop_last());
        if s.last() == ',' {
            p.push(Seq::<char>::empty())
        } else {
            p.update(p.len() - 1, p.last().push(s.last()))
        }
    }
}

/// The trimmed pieces that are not empty, in order.
pub open spec fn kept_pieces(ps: Seq<Seq<char>>) -> Seq<Seq<char>>
    decreases ps.len(),
{
    if ps.len() == 0 {
        Seq::empty()
    } else {
        kept_pieces(ps.drop_last()) + if trimmed(ps.last()).len() > 0 {
            seq![trimmed(ps.last())]
        } else {
            Seq::<Seq<char>>::empty()
        }
    }
}

/// The names a comma-separated list gives: each piece trimmed, empty
/// ones dropped.
pub open spec fn column_list(s: Seq<char>) -> Seq<Seq<char>> {
    kept_pieces(split_commas(s))
}

proof fn lemma_split_commas_len(s: Seq<char>)
    ensures
        split_commas(s).len() >= 1,
    decreases s.len(),
{
    if s.len() > 0 {
        lemma_split_commas_len(s.drop_last());
    }
}

proof fn lemma_trim_start_at(s: Seq<char>, lo: int)
    requires
        0 <= lo <= s.len(),
        forall|i: int| 0 <= i < lo ==> is_white_space(#[trigger] s[i]),
        lo == s.len() || !is_white_space(s[lo]),
    ensures
        trim_start(s) == s.subrange(lo, s.len() as int),
    decreases lo,
{
    if lo == 0 {
        assert(s.subrange(0, s.len() as int) =~= s);
    } else {
        let t = s.drop_first();
        assert forall|i: int| 0 <= i < lo - 1 implies is_white_space(#[trigger] t[i]) by {
            assert(t[i] == s[i + 1]);
        }
        if lo - 1 < t.len() {
            assert(t[lo - 1] == s[lo]);
        }
        lemma_trim_start_at(t, lo - 1);
        assert(t.subrange(lo - 1, t.len() as int) =~= s.subrange(lo, s.len() as int));
    }
}

proof fn lemma_trim_end_at(s: Seq<char>, hi: int)
    requires
        0 <= hi <= s.len(),
        forall|i: int| hi <= i < s.len() ==> is_white_space(#[trigger] s[i]),
        hi == 0 || !is_white_space(s[hi - 1]),
    ensures
        trim_end(s) == s.subrange(0, hi),
    decreases s.len() - hi,
{
    if hi == s.len() {
        assert(s.subrange(0, hi) =~= s);
    } else {
        let t = s.drop_last();
        assert forall|i: int| hi <= i < t.len() implies is_white_space(#[trigger] t[i]) by {
            assert(t[i] == s[i]);
        }
        if hi > 0 {
            assert(t[hi - 1] == s[hi - 1]);
        }
        assert(is_white_space(s[s.len() - 1]));
        lemma_trim_end_at(t, hi);
        assert(t.subrange(0, hi) =~= s.subrange(0, hi));
    }
}

/// Appends `c` to `s`: `String::push`.
#[verifier::external_body]
fn push_char(s: &mut String, c: char)
    ensures
        final(s)@ == old(s)@.push(c),
{
    s.push(c)
}

/// `p` trimmed, as a `String`.
fn trim_piece(p: &Vec<char>) -> (r: String)
    ensures
        r@ == trimmed(p@),
{
    let n = p.len();
    let mut lo: usize = 0;
    while lo < n && white_space(p[lo])
        invariant
            n == p@.len(),
            0 <= lo <= n,
            forall|i: int| 0 <= i < lo ==> is_white_space(#[trigger] p@[i]),
        decreases n - lo,
    {
        lo = lo + 1;
    }
    proof {
        lemma_trim_start_at(p@, lo as int);
    }
    let ghost rest = p@.subrange(lo as int, n as int);
    let mut hi: usize = n;
    while hi > lo && white_space(p[hi - 1])
        invariant
            n == p@.len(),
            0 <= lo <= hi <= n,
            forall|i: int| hi <= i < n ==> is_white_space(#[trigger] p@[i]),
        decreases hi,
    {
        hi = hi - 1;
    }
    proof {
        assert forall|i: int| hi - lo <= i < rest.len() implies is_white_space(#[trigger] rest[i]) by {
            assert(rest[i] == p@[lo + i]);
        }
        if hi > lo {
            assert(rest[hi - lo - 1] == p@[hi - 1]);
        }
        lemma_trim_end_at(rest, hi - lo);
        assert(rest.subrange(0, hi - lo) =~= p@.subrange(lo as int, hi as int));
    }
    let mut r = String::new();
    let mut i: usize = lo;
    while i < hi
        invariant
            n == p@.len(),
            0 <= lo <= i <= hi <= n,
            r@ == p@.subrange(lo as int, i as int),
        decreases hi - i,
    {
        push_char(&mut r, p[i]);
        proof {
            assert(r@ =~= p@.subrange(lo as int, i + 1));
        }
        i = i + 1;
    }
    r
}

/// The names of a comma-separated list: each piece between commas
/// trimmed of white space, empty pieces dropped.
pub fn parse_column_list(s: &str) -> (r: Vec<String>)
    ensures
        r@.map_values(|c: String| c@) == column_list(s@),
{
    let n = s.unicode_len();
    let mut out: Vec<String> = Vec::new();
    let mut cur: Vec<char> = Vec::new();
    let mut i: usize = 0;
    proof {
        assert(s@.take(0) =~= Seq::<char>::empty());
        assert(split_commas(Seq::<char>::empty()).drop_last() =~= Seq::<Seq<char>>::empty());
        assert(out@.map_values(|c: String| c@) =~= Seq::<Seq<char>>::empty());
    }
    while i < n
        invariant
            n == s@.len(),
            0 <= i <= n,
            split_commas(s@.take(i as int)).len() >= 1,
            cur@ == split_commas(s@.take(i as int)).last(),
            out@.map_values(|c: String| c@) == kept_pieces(split_commas(s@.take(i as int)).drop_last()),
        decreases n - i,
    {
        let c = s.get_char(i);
        let ghost pre = split_commas(s@.take(i as int));
        proof {
            assert(s@.take(i + 1).drop_last() =~= s@.take(i as int));
            assert(s@.take(i + 1).last() == c);
            lemma_split_commas_len(s@.take(i + 1));
        }
        if c == ',' {
            let t = trim_piece(&cur);
            let ghost o0 = out@.map_values(|x: String| x@);
            if t.as_str().unicode_len() > 0 {
                out.push(t);
                proof {
                    assert(out@.map_values(|x: String| x@) =~= o0.push(trimmed(pre.last())));
                }
            }
            cur = Vec::new();
            proof {
                let now = split_commas(s@.take(i + 1));
                assert(now == pre.push(Seq::<char>::empty()));
                assert(now.drop_last() =~= pre);
                assert(pre =~= pre.drop_last().push(pre.last()));
                assert(pre.drop_last().push(pre.last()).drop_last() =~= pre.drop_last());
                assert(kept_pieces(pre) == kept_pieces(pre.drop_last()) + if trimmed(pre.last()).len() > 0 {
                    seq![trimmed(pre.last())]
                } else {
                    Seq::<Seq<char>>::empty()
                });
                assert(out@.map_values(|x: String| x@) =~= kept_pieces(pre));
                assert(cur@ =~= now.last());
            }
        } else {
            cur.push(c);
            proof {
                let now = split_commas(s@.take(i + 1));
                assert(now == pre.update(pre.len() - 1, pre.last().push(c)));
                assert(now.drop_last() =~= pre.drop_last());
                assert(cur@ =~= now.last());
            }
        }
        i = i + 1;
    }
    proof {
        assert(s@.take(n as int) =~= s@);
    }
    let ghost all = split_commas(s@);
    let t = trim_piece(&cur);
    let ghost o0 = out@.map_values(|x: String| x@);
    if t.as_str().unicode_len() > 0 {
        out.push(t);
        proof {
            assert(out@.map_values(|x: String| x@) =~= o0.push(trimmed(all.last())));
        }
    }
    proof {
        assert(all =~= all.drop_last().push(all.last()));
        assert(all.drop_last().push(all.last()).drop_last() =~= all.drop_last());
        assert(kept_pieces(all) == kept_pieces(all.drop_last()) + if trimmed(all.last()).len() > 0 {
            seq![trimmed(all.last())]
        } else {
            Seq::<Seq<char>>::empty()
        });
        assert(out@.map_values(|x: String| x@) =~= kept_pieces(all));
    }
    out
}

} // verus!
