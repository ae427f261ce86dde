//! Character-level helpers over the texts the parsers read.
use vstd::prelude::*;

verus! {

/// Unicode `White_Space`, the property that `char::is_whitespace` and `str::trim` use.
pub open spec fn is_ws(c: char) -> bool {
    ||| ('\u{9}' <= c && c <= '\u{d}')
    ||| c == ' '
    ||| c == '\u{85}'
    ||| c == '\u{a0}'
    ||| c == '\u{1680}'
    ||| ('\u{2000}' <= c && c <= '\u{200a}')
    ||| c == '\u{2028}'
    ||| c == '\u{2029}'
    ||| c == '\u{202f}'
    ||| c == '\u{205f}'
    ||| c == '\u{3000}'
}

pub fn is_whitespace(c: char) -> (r: bool)
    ensures
        r == is_ws(c),
{
    ('\u{9}' <= c && c <= '\u{d}') || c == ' ' || c == '\u{85}' || c == '\u{a0}' || c == '\u{1680}'
        || ('\u{2000}' <= c && c <= '\u{200a}') || c == '\u{2028}' || c == '\u{2029}'
        || c == '\u{202f}' || c == '\u{205f}' || c == '\u{3000}'
}

/// Number of whitespace characters at the front of `s`.
pub open spec fn leading_ws(s: Seq<char>) -> nat
    decreases s.len(),
{
    if s.len() > 0 && is_ws(s[0]) {
        1 + leading_ws(s.drop_first())
    } else {
        0
    }
}

/// Number of whitespace characters at the back of `s`.
pub open spec fn trailing_ws(s: Seq<char>) -> nat
    decreases s.len(),
{
    if s.len() > 0 && is_ws(s.last()) {
        1 + trailing_ws(s.drop_last())
    } else {
        0
    }
}

/// `s` without its leading and trailing whitespace, as `str::trim` gives it.
pub open spec fn trim(s: Seq<char>) -> Seq<char> {
    let t = s.skip(leading_ws(s) as int);
    t.take(t.len() - trailing_ws(t))
}

proof fn lemma_leading_ws(s: Seq<char>, i: int)
    requires
        0 <= i <= s.len(),
        forall|j: int| 0 <= j < i ==> is_ws(#[trigger] s[j]),
        i == s.len() || !is_ws(s[i]),
    ensures
        leading_ws(s) == i,
    decreases i,
{
    if i > 0 {
        lemma_leading_ws(s.drop_first(), i - 1);
    }
}

proof fn lemma_trailing_ws(s: Seq<char>, i: int)
    requires
        0 <= i <= s.len(),
        forall|j: int| s.len() - i <= j < s.len() ==> is_ws(#[trigger] s[j]),
        i == s.len() || !is_ws(s[s.len() - i - 1]),
    ensures
        trailing_ws(s) == i,
    decreases i,
{
    if i > 0 {
        lemma_trailing_ws(s.drop_last(), i - 1);
    }
}

pub proof fn lemma_leading_ws_bound(s: Seq<char>)
    ensures
        leading_ws(s) <= s.len(),
    decreases s.len(),
{
    if s.len() > 0 && is_ws(s[0]) {
        lemma_leading_ws_bound(s.drop_first());
    }
}

pub proof fn lemma_trailing_ws_bound(s: Seq<char>)
    ensures
        trailing_ws(s) <= s.len(),
    decreases s.len(),
{
    if s.len() > 0 && is_ws(s.last()) {
        lemma_trailing_ws_bound(s.drop_last());
    }
}

/// The characters of a string.
pub fn chars_of(s: &str) -> (r: Vec<char>)
    ensures
        r@ == s@,
{
    let mut r: Vec<char> = Vec::new();
    for c in it: s.chars()
        invariant
            r@ == it.seq().take(it.index() as int),
            it.seq() == s@,
    {
        r.push(c);
        assert(r@ == it.seq().take(it.index() + 1));
    }
    r
}

/// The characters of `s` from `from` up to `to`.
pub fn slice_of(s: &[char], from: usize, to: usize) -> (r: Vec<char>)
    requires
        from <= to <= s@.len(),
    ensures
        r@ == s@.subrange(from as int, to as int),
{
    let mut r: Vec<char> = Vec::new();
    let mut i = from;
    while i < to
        invariant
            from <= i <= to <= s@.len(),
            r@ == s@.subrange(from as int, i as int),
        decreases to - i,
    {
        r.push(s[i]);
        i = i + 1;
    }
    r
}

/// Appends the characters of `s` to `v` (`String::push_str` over characters).
pub fn push_chars(v: &mut Vec<char>, s: &str)
    ensures
        final(v)@ == old(v)@ + s@,
{
    let t = chars_of(s);
    let mut i: usize = 0;
    while i < t.len()
        invariant
            i <= t@.len(),
            t@ == s@,
            v@ == old(v)@ + t@.take(i as int),
        decreases t@.len() - i,
    {
        v.push(t[i]);
        i = i + 1;
        assert(v@ =~= old(v)@ + t@.take(i as int));
    }
    assert(t@.take(t@.len() as int) =~= t@);
}

/// `String::from_iter` over characters: the string of the given characters, in
/// order (the contract claims exactly that of the standard library function).
#[verifier::external_body]
pub(crate) fn string_of(v: &[char]) -> (r: String)
    ensures
        r@ == v@,
{
    String::from_iter(v)
}

/// `str::trim` over a character sequence.
pub fn trim_chars(s: &[char]) -> (r: Vec<char>)
    ensures
        r@ == trim(s@),
{
    let n = s.len();
    let mut a: usize = 0;
    while a < n && is_whitespace(s[a])
        invariant
            a <= n,
            n == s@.len(),
            forall|j: int| 0 <= j < a ==> is_ws(#[trigger] s@[j]),
        decreases n - a,
    {
        a = a + 1;
    }
    proof {
        lemma_leading_ws(s@, a as int);
    }
    let ghost t = s@.skip(a as int);
    let mut b: usize = n;
    while b > a && is_whitespace(s[b - 1])
        invariant
            a <= b <= n,
            n == s@.len(),
            t == s@.skip(a as int),
            forall|j: int| b <= j < n ==> is_ws(#[trigger] s@[j]),
        decreases b,
    {
        b = b - 1;
    }
    proof {
        assert forall|j: int| t.len() - (n - b) <= j < t.len() implies is_ws(#[trigger] t[j]) by {
            assert(t[j] == s@[j + a]);
        }
        if b > a {
            assert(t[t.len() - (n - b) - 1] == s@[b - 1]);
        }
        lemma_trailing_ws(t, (n - b) as int);
    }
    let mut r: Vec<char> = Vec::new();
    let mut i = a;
    while i < b
        invariant
            a <= i <= b <= n,
            n == s@.len(),
            r@ == s@.subrange(a as int, i as int),
        decreases b - i,
    {
        r.push(s[i]);
        i = i + 1;
    }
    assert(r@ =~= t.take(t.len() - trailing_ws(t)));
    r
}


/// The words of `s` (as `str::split_whitespace` gives them), where the characters
/// before `s` end in the unfinished word `cur`.
pub open spec fn words_from(s: Seq<char>, cur: Seq<char>) -> Seq<Seq<char>>
    decreases s.len(),
{
    if s.len() == 0 {
        if cur.len() > 0 { seq![cur] } else { Seq::empty() }
    } else if is_ws(s[0]) {
        (if cur.len() > 0 { seq![cur] } else { Seq::empty() }) + words_from(s.drop_first(), Seq::empty())
    } else {
        words_from(s.drop_first(), cur.push(s[0]))
    }
}

/// The runs of non-whitespace characters of `s`, in order.
pub open spec fn words(s: Seq<char>) -> Seq<Seq<char>> {
    words_from(s, Seq::empty())
}

/// `str::split_whitespace` over a character sequence.
pub fn split_ws(s: &[char]) -> (r: Vec<Vec<char>>)
    ensures
        r@.len() == words(s@).len(),
        forall|i: int| 0 <= i < r@.len() ==> (#[trigger] r@[i])@ == words(s@)[i],
{
    let mut out: Vec<Vec<char>> = Vec::new();
    let mut cur: Vec<char> = Vec::new();
    let mut i: usize = 0;
    let ghost mut done: Seq<Seq<char>> = Seq::empty();
    assert(s@.skip(0) =~= s@);
    assert(words(s@) =~= done + words_from(s@.skip(0), cur@));
    while i < s.len()
        invariant
            i <= s@.len(),
            out@.len() == done.len(),
            forall|j: int| 0 <= j < out@.len() ==> (#[trigger] out@[j])@ == done[j],
            words(s@) == done + words_from(s@.skip(i as int), cur@),
        decreases s@.len() - i,
    {
        let ghost rest = s@.skip(i as int);
        assert(rest.drop_first() =~= s@.skip(i + 1));
        assert(rest[0] == s@[i as int]);
        if is_whitespace(s[i]) {
            if cur.len() > 0 {
                proof {
                    done = done.push(cur@);
                }
                let mut w: Vec<char> = Vec::new();
                std::mem::swap(&mut w, &mut cur);
                out.push(w);
                assert(words(s@) == done + words_from(s@.skip(i + 1), cur@)) by {
                    assert(seq![done.last()] + words_from(s@.skip(i + 1), Seq::<char>::empty()) == words_from(rest, done.last()));
                    assert(done.drop_last() + words_from(rest, done.last()) =~= done + words_from(s@.skip(i + 1), cur@));
                }
            } else {
                assert(cur@ =~= Seq::<char>::empty());
                assert(words_from(rest, cur@) =~= Seq::<Seq<char>>::empty() + words_from(s@.skip(i + 1), cur@));
            }
        } else {
            cur.push(s[i]);
        }
        i = i + 1;
    }
    if cur.len() > 0 {
        proof {
            done = done.push(cur@);
        }
        out.push(cur);
    }
    assert(words(s@) =~= done);
    out
}

/// `c` in upper case, where it is a lower-case ASCII letter (`char::to_ascii_uppercase`).
pub open spec fn upper_char(c: char) -> char {
    if 'a' <= c && c <= 'z' {
        ((c as int) - 32) as char
    } else {
        c
    }
}

/// `s` in ASCII upper case begins with `p`.
pub open spec fn upper_prefix(s: Seq<char>, p: Seq<char>) -> bool {
    p.len() <= s.len() && forall|i: int| 0 <= i < p.len() ==> upper_char(#[trigger] s[i]) == p[i]
}

/// Whether `s`, in ASCII upper case, begins with `p` (`p` holding no lower-case
/// ASCII letter).
pub fn starts_with_upper(s: &[char], p: &str) -> (r: bool)
    requires
        forall|i: int| 0 <= i < p@.len() ==> !('a' <= #[trigger] p@[i] && p@[i] <= 'z'),
    ensures
        r == upper_prefix(s@, p@),
{
    let q = chars_of(p);
    if q.len() > s.len() {
        return false;
    }
    let mut i: usize = 0;
    while i < q.len()
        invariant
            i <= q@.len() <= s@.len(),
            q@ == p@,
            forall|j: int| 0 <= j < q@.len() ==> !('a' <= #[trigger] q@[j] && q@[j] <= 'z'),
            forall|j: int| 0 <= j < i ==> upper_char(#[trigger] s@[j]) == q@[j],
        decreases q@.len() - i,
    {
        let c = s[i];
        let d = q[i];
        let same = c == d || ('a' <= c && c <= 'z' && 'A' <= d && d <= 'Z' && (c as u32) - 32 == (d as u32));
        proof {
            if 'a' <= c && c <= 'z' {
                assert((((c as int) - 32) as char) as int == (c as int) - 32);
                assert(upper_char(c) as int == (c as int) - 32);
                assert((c as u32) as int == c as int);
                if 'A' <= d && d <= 'Z' {
                    assert((d as u32) as int == d as int);
                }
            }
        }
        if !same {
            return false;
        }
        i = i + 1;
    }
    true
}

/// The character of a decimal digit.
pub open spec fn digit_char(d: nat) -> char {
    ((d + ('0' as nat)) as int) as char
}

/// `n` in decimal, as `{}` formats it.
pub open spec fn dec_text(n: nat) -> Seq<char>
    decreases n,
{
    if n < 10 {
        seq![digit_char(n)]
    } else {
        dec_text(n / 10).push(digit_char(n % 10))
    }
}

fn digit(d: usize) -> (r: char)
    requires
        d < 10,
    ensures
        r == digit_char(d as nat),
{
    if d == 0 { '0' }
    else if d == 1 { '1' }
    else if d == 2 { '2' }
    else if d == 3 { '3' }
    else if d == 4 { '4' }
    else if d == 5 { '5' }
    else if d == 6 { '6' }
    else if d == 7 { '7' }
    else if d == 8 { '8' }
    else { '9' }
}

/// Appends `n` in decimal to `v`.
pub fn push_dec(v: &mut Vec<char>, n: usize)
    ensures
        final(v)@ == old(v)@ + dec_text(n as nat),
    decreases n,
{
    if n >= 10 {
        push_dec(v, n / 10);
    }
    v.push(digit(n % 10));
    assert(final(v)@ =~= old(v)@ + dec_text(n as nat));
}


/// Appends the characters of `s` to `v`.
pub fn push_seq(v: &mut Vec<char>, s: &[char])
    ensures
        final(v)@ == old(v)@ + s@,
{
    let mut i: usize = 0;
    while i < s.len()
        invariant
            i <= s@.len(),
            v@ == old(v)@ + s@.take(i as int),
        decreases s@.len() - i,
    {
        v.push(s[i]);
        i = i + 1;
        assert(v@ =~= old(v)@ + s@.take(i as int));
    }
    assert(s@.take(s@.len() as int) =~= s@);
}


/// `a` and `b` are the same up to ASCII case (`str::eq_ignore_ascii_case`).
pub open spec fn same_ascii_case_blind(a: Seq<char>, b: Seq<char>) -> bool {
    a.len() == b.len() && forall|i: int| 0 <= i < a.len() ==> upper_char(#[trigger] a[i]) == upper_char(b[i])
}

proof fn lemma_upper_char(c: char)
    ensures
        'a' <= c && c <= 'z' ==> 'A' <= upper_char(c) && upper_char(c) <= 'Z' && upper_char(c) as int == c as int - 32,
        !('a' <= c && c <= 'z') ==> upper_char(c) == c,
{
    if 'a' <= c && c <= 'z' {
        assert((((c as int) - 32) as char) as int == (c as int) - 32);
    }
}

/// Whether two characters are the same up to ASCII case.
fn char_eq_ignore_ascii_case(c: char, d: char) -> (r: bool)
    ensures
        r == (upper_char(c) == upper_char(d)),
{
    proof {
        lemma_upper_char(c);
        lemma_upper_char(d);
    }
    let r = c == d || ('a' <= c && c <= 'z' && 'A' <= d && d <= 'Z' && (c as u32) - 32 == (d as u32))
        || ('A' <= c && c <= 'Z' && 'a' <= d && d <= 'z' && (d as u32) - 32 == (c as u32));
    proof {
        if 'a' <= c && c <= 'z' {
            assert((c as u32) as int == c as int);
        }
        if 'a' <= d && d <= 'z' {
            assert((d as u32) as int == d as int);
        }
        if 'A' <= c && c <= 'Z' {
            assert((c as u32) as int == c as int);
        }
        if 'A' <= d && d <= 'Z' {
            assert((d as u32) as int == d as int);
        }
        if upper_char(c) == upper_char(d) {
            assert(upper_char(c) as int == upper_char(d) as int);
        }
    }
    r
}

/// `str::eq_ignore_ascii_case`.
pub fn eq_ignore_ascii_case(a: &str, b: &str) -> (r: bool)
    ensures
        r == same_ascii_case_blind(a@, b@),
{
    let x = chars_of(a);
    let y = chars_of(b);
    if x.len() != y.len() {
        return false;
    }
    let mut i: usize = 0;
    while i < x.len()
        invariant
            i <= x@.len(),
            x@.len() == y@.len(),
            x@ == a@,
            y@ == b@,
            forall|j: int| 0 <= j < i ==> upper_char(#[trigger] x@[j]) == upper_char(y@[j]),
        decreases x@.len() - i,
    {
        if !char_eq_ignore_ascii_case(x[i], y[i]) {
            return false;
        }
        i = i + 1;
    }
    true
}


/// `s` with each occurrence of `pat` replaced by `rep`, the occurrences taken from
/// the left without overlap (`str::replace`, for a pattern that is not empty).
pub open spec fn replaced(s: Seq<char>, pat: Seq<char>, rep: Seq<char>) -> Seq<char>
    decreases s.len(),
{
    if s.len() == 0 {
        Seq::empty()
    } else if pat.len() > 0 && pat.len() <= s.len() && s.take(pat.len() as int) == pat {
        rep + replaced(s.skip(pat.len() as int), pat, rep)
    } else {
        seq![s[0]] + replaced(s.drop_first(), pat, rep)
    }
}

/// Whether `pat` occurs in `s` at `i`.
fn matches_at(s: &[char], i: usize, pat: &[char]) -> (r: bool)
    requires
        i <= s@.len(),
    ensures
        r == (pat@.len() <= s@.len() - i && s@.skip(i as int).take(pat@.len() as int) == pat@),
{
    if pat.len() > s.len() - i {
        return false;
    }
    let n = s.len();
    let mut j: usize = 0;
    while j < pat.len()
        invariant
            n == s@.len(),
            i <= s@.len(),
            j <= pat@.len() <= s@.len() - i,
            forall|k: int| 0 <= k < j ==> s@[i + k] == pat@[k],
        decreases pat@.len() - j,
    {
        if s[i + j] != pat[j] {
            assert(s@.skip(i as int).take(pat@.len() as int)[j as int] != pat@[j as int]);
            return false;
        }
        j = j + 1;
    }
    assert(s@.skip(i as int).take(pat@.len() as int) =~= pat@);
    true
}

/// `str::replace` over a character sequence, for a pattern that is not empty.
pub fn replace_all(s: &[char], pat: &str, rep: &str) -> (r: Vec<char>)
    requires
        pat@.len() > 0,
    ensures
        r@ == replaced(s@, pat@, rep@),
{
    let p = chars_of(pat);
    let q = chars_of(rep);
    let mut out: Vec<char> = Vec::new();
    let mut i: usize = 0;
    assert(s@.skip(0) =~= s@);
    while i < s.len()
        invariant
            i <= s@.len(),
            p@ == pat@,
            q@ == rep@,
            p@.len() > 0,
            replaced(s@, pat@, rep@) == out@ + replaced(s@.skip(i as int), pat@, rep@),
        decreases s@.len() - i,
    {
        let ghost rest = s@.skip(i as int);
        if matches_at(s, i, p.as_slice()) {
            let ghost before = out@;
            push_seq(&mut out, q.as_slice());
            assert(rest.skip(p@.len() as int) =~= s@.skip(i + p@.len()));
            assert(out@ + replaced(s@.skip(i + p@.len()), pat@, rep@) =~= before + (rep@ + replaced(rest.skip(p@.len() as int), pat@, rep@)));
            i = i + p.len();
        } else {
            let ghost before = out@;
            out.push(s[i]);
            assert(rest.drop_first() =~= s@.skip(i + 1));
            assert(rest[0] == s@[i as int]);
            assert(out@ + replaced(s@.skip(i + 1), pat@, rep@) =~= before + (seq![rest[0]] + replaced(rest.drop_first(), pat@, rep@)));
            i = i + 1;
        }
    }
    assert(out@ + replaced(s@.skip(i as int), pat@, rep@) =~= out@);
    out
}

/// Replacing every `c` by text without `c` leaves no `c`.
pub proof fn lemma_replaced_removes(s: Seq<char>, c: char, rep: Seq<char>)
    requires
        !rep.contains(c),
    ensures
        !replaced(s, seq![c], rep).contains(c),
    decreases s.len(),
{
    if s.len() > 0 {
        lemma_replaced_removes(s.drop_first(), c, rep);
        if s.take(1) == seq![c] {
            lemma_replaced_removes(s.skip(1), c, rep);
            assert(s.skip(1) =~= s.drop_first());
            let r = replaced(s, seq![c], rep);
            assert(r =~= rep + replaced(s.skip(1), seq![c], rep));
            if r.contains(c) {
                let k = choose|k: int| 0 <= k < r.len() && r[k] == c;
                if k < rep.len() {
                    assert(rep[k] == c);
                } else {
                    assert(replaced(s.skip(1), seq![c], rep)[k - rep.len()] == c);
                }
            }
        } else {
            assert(s[0] != c) by {
                if s[0] == c {
                    assert(s.take(1) =~= seq![c]);
                }
            }
            let r = replaced(s, seq![c], rep);
            assert(r =~= seq![s[0]] + replaced(s.drop_first(), seq![c], rep));
            if r.contains(c) {
                let k = choose|k: int| 0 <= k < r.len() && r[k] == c;
                if k > 0 {
                    assert(replaced(s.drop_first(), seq![c], rep)[k - 1] == c);
                }
            }
        }
    }
}

/// Where no character of `a` begins `pat`, no occurrence of `pat` begins inside `a`:
/// replacing in `a + s` replaces in `s` alone.
pub proof fn lemma_replaced_skips_prefix(a: Seq<char>, s: Seq<char>, pat: Seq<char>, rep: Seq<char>)
    requires
        pat.len() > 0,
        forall|i: int| 0 <= i < a.len() ==> #[trigger] a[i] != pat[0],
    ensures
        replaced(a + s, pat, rep) == a + replaced(s, pat, rep),
    decreases a.len(),
{
    if a.len() == 0 {
        assert(a + s =~= s);
        assert(a + replaced(s, pat, rep) =~= replaced(s, pat, rep));
    } else {
        let t = a + s;
        assert(t[0] == a[0]);
        if pat.len() <= t.len() && t.take(pat.len() as int) == pat {
            assert(t.take(pat.len() as int)[0] == t[0]);
        }
        assert(forall|i: int| 0 <= i < a.drop_first().len() ==> #[trigger] a.drop_first()[i] == a[i + 1]);
        lemma_replaced_skips_prefix(a.drop_first(), s, pat, rep);
        assert(t.drop_first() =~= a.drop_first() + s);
        assert(seq![a[0]] + (a.drop_first() + replaced(s, pat, rep)) =~= a + replaced(s, pat, rep));
    }
}

/// Where `b` shares no character with `pat`, no occurrence of `pat` reaches into
/// `b`: replacing in `x + b` replaces in `x` alone.
pub proof fn lemma_replaced_keeps_suffix(x: Seq<char>, b: Seq<char>, pat: Seq<char>, rep: Seq<char>)
    requires
        pat.len() > 0,
        forall|i: int, j: int| 0 <= i < b.len() && 0 <= j < pat.len() ==> #[trigger] b[i] != #[trigger] pat[j],
    ensures
        replaced(x + b, pat, rep) == replaced(x, pat, rep) + b,
    decreases x.len(),
{
    if x.len() == 0 {
        assert(x + b =~= b);
        assert(forall|i: int| 0 <= i < b.len() ==> #[trigger] b[i] != pat[0]);
        lemma_replaced_skips_prefix(b, Seq::empty(), pat, rep);
        assert(b + Seq::<char>::empty() =~= b);
        assert(replaced(x, pat, rep) + b =~= b);
    } else {
        let t = x + b;
        let n = pat.len() as int;
        if n <= t.len() && t.take(n) == pat {
            if n > x.len() {
                assert(t.take(n)[x.len() as int] == b[0]);
                assert(b[0] != pat[x.len() as int]);
            }
            assert(x.take(n) =~= t.take(n));
            lemma_replaced_keeps_suffix(x.skip(n), b, pat, rep);
            assert(t.skip(n) =~= x.skip(n) + b);
            assert(rep + (replaced(x.skip(n), pat, rep) + b) =~= (rep + replaced(x.skip(n), pat, rep)) + b);
        } else {
            if n <= x.len() && x.take(n) == pat {
                assert(t.take(n) =~= x.take(n));
            }
            assert(t[0] == x[0]);
            lemma_replaced_keeps_suffix(x.drop_first(), b, pat, rep);
            assert(t.drop_first() =~= x.drop_first() + b);
            assert(seq![x[0]] + (replaced(x.drop_first(), pat, rep) + b) =~= (seq![x[0]] + replaced(x.drop_first(), pat, rep)) + b);
        }
    }
}

/// A text shorter than the pattern holds no occurrence of it.
pub proof fn lemma_replaced_short(x: Seq<char>, pat: Seq<char>, rep: Seq<char>)
    requires
        x.len() < pat.len(),
    ensures
        replaced(x, pat, rep) == x,
    decreases x.len(),
{
    if x.len() > 0 {
        lemma_replaced_short(x.drop_first(), pat, rep);
        assert(seq![x[0]] + x.drop_first() =~= x);
    }
}

/// A text that differs from the pattern at `k` and holds its first character nowhere
/// after its own first holds no occurrence of it.
pub proof fn lemma_replaced_mismatch(x: Seq<char>, pat: Seq<char>, rep: Seq<char>, k: int)
    requires
        pat.len() > 0,
        0 <= k < x.len(),
        k < pat.len(),
        x[k] != pat[k],
        forall|i: int| 1 <= i < x.len() ==> #[trigger] x[i] != pat[0],
    ensures
        replaced(x, pat, rep) == x,
{
    if pat.len() <= x.len() {
        assert(x.take(pat.len() as int)[k] != pat[k]);
    }
    assert(forall|i: int| 0 <= i < x.drop_first().len() ==> #[trigger] x.drop_first()[i] == x[i + 1]);
    lemma_replaced_skips_prefix(x.drop_first(), Seq::empty(), pat, rep);
    assert(x.drop_first() + Seq::<char>::empty() =~= x.drop_first());
    assert(seq![x[0]] + x.drop_first() =~= x);
}

/// The pattern itself is replaced whole.
pub proof fn lemma_replaced_whole(pat: Seq<char>, rep: Seq<char>)
    requires
        pat.len() > 0,
    ensures
        replaced(pat, pat, rep) == rep,
{
    assert(pat.take(pat.len() as int) =~= pat);
    assert(pat.skip(pat.len() as int) =~= Seq::<char>::empty());
    assert(replaced(pat.skip(pat.len() as int), pat, rep) =~= Seq::<char>::empty());
    assert(replaced(pat, pat, rep) == rep + replaced(pat.skip(pat.len() as int), pat, rep));
    assert(rep + Seq::<char>::empty() =~= rep);
}

/// A text that lacks one of the pattern's characters holds no occurrence of it.
pub proof fn lemma_replaced_absent_char(x: Seq<char>, pat: Seq<char>, rep: Seq<char>, k: int)
    requires
        0 <= k < pat.len(),
        forall|i: int| 0 <= i < x.len() ==> #[trigger] x[i] != pat[k],
    ensures
        replaced(x, pat, rep) == x,
    decreases x.len(),
{
    if x.len() > 0 {
        if pat.len() <= x.len() && x.take(pat.len() as int) == pat {
            assert(x.take(pat.len() as int)[k] == x[k]);
        }
        assert(forall|i: int| 0 <= i < x.drop_first().len() ==> #[trigger] x.drop_first()[i] == x[i + 1]);
        lemma_replaced_absent_char(x.drop_first(), pat, rep, k);
        assert(seq![x[0]] + x.drop_first() =~= x);
    }
}

/// Where `a` and `b` share no character with `pat`, replacing in `a + x + b` replaces
/// in `x` alone.
pub proof fn lemma_replaced_between(a: Seq<char>, x: Seq<char>, b: Seq<char>, pat: Seq<char>, rep: Seq<char>)
    requires
        pat.len() > 0,
        forall|i: int, j: int| 0 <= i < a.len() && 0 <= j < pat.len() ==> #[trigger] a[i] != #[trigger] pat[j],
        forall|i: int, j: int| 0 <= i < b.len() && 0 <= j < pat.len() ==> #[trigger] b[i] != #[trigger] pat[j],
    ensures
        replaced(a + x + b, pat, rep) == a + replaced(x, pat, rep) + b,
{
    assert(a + x + b =~= a + (x + b));
    assert(forall|i: int| 0 <= i < a.len() ==> #[trigger] a[i] != pat[0]);
    lemma_replaced_skips_prefix(a, x + b, pat, rep);
    lemma_replaced_keeps_suffix(x, b, pat, rep);
    assert(a + (replaced(x, pat, rep) + b) =~= a + replaced(x, pat, rep) + b);
}

} // verus!
