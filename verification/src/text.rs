use vstd::prelude::*;

verus! {

/// Appends one character to a string.
pub assume_specification[ String::push ](s: &mut String, ch: char)
    ensures
        final(s)@ == old(s)@.push(ch),
;

/// What `str::to_lowercase` gives for a string: the Unicode lowercase
/// mapping, which takes the Unicode tables to state.
pub uninterp spec fn unicode_lowercase(s: Seq<char>) -> Seq<char>;

/// `str::to_lowercase`: the string mapped to Unicode lowercase. The
/// contract only names the result; the mapping itself is not stated.
#[verifier::external_body]
pub(crate) fn to_lowercase(s: &str) -> (res: String)
    ensures
        res@ == unicode_lowercase(s@),
{
    s.to_lowercase()
}

/// The characters of `s`, in order.
pub fn chars_of(s: &str) -> (res: Vec<char>)
    ensures
        res@ == s@,
{
    let mut res: Vec<char> = Vec::new();
    for c in it: s.chars()
        invariant
            res@ == it.seq().take(it.index() as int),
    {
        res.push(c);
    }
    res
}

/// A string holding exactly the given characters.
pub fn string_of(cs: &Vec<char>) -> (res: String)
    ensures
        res@ == cs@,
{
    let mut res = String::new();
    let mut i: usize = 0;
    while i < cs.len()
        invariant
            i <= cs.len(),
            res@ == cs@.take(i as int),
        decreases cs.len() - i,
    {
        res.push(cs[i]);
        assert(cs@.take(i + 1) == cs@.take(i as int).push(cs@[i as int]));
        i += 1;
    }
    assert(cs@.take(cs.len() as int) == cs@);
    res
}

/// A fresh string with the characters of `s`.
pub fn owned(s: &str) -> (res: String)
    ensures
        res@ == s@,
{
    let cs = chars_of(s);
    string_of(&cs)
}

/// `a` followed by `b`.
pub fn concat2(a: &str, b: &str) -> (res: String)
    ensures
        res@ == a@ + b@,
{
    let mut res = owned(a);
    res.append(b);
    res
}

/// `a`, `b` and `c` in a row.
pub fn concat3(a: &str, b: &str, c: &str) -> (res: String)
    ensures
        res@ == a@ + b@ + c@,
{
    let mut res = owned(a);
    res.append(b);
    res.append(c);
    res
}

/// Whether two strings hold the same characters.
pub fn same_text(a: &str, b: &str) -> (res: bool)
    ensures
        res == (a@ == b@),
{
    let x = chars_of(a);
    let y = chars_of(b);
    if x.len() != y.len() {
        return false;
    }
    let mut i: usize = 0;
    while i < x.len()
        invariant
            x@ == a@,
            y@ == b@,
            x.len() == y.len(),
            i <= x.len(),
            forall|j: int| 0 <= j < i ==> x@[j] == y@[j],
        decreases x.len() - i,
    {
        if x[i] != y[i] {
            return false;
        }
        i += 1;
    }
    assert(x@ =~= y@);
    true
}

/// The ASCII digit for a value below ten.
pub open spec fn digit_char(d: nat) -> char {
    if d == 0 { '0' }
    else if d == 1 { '1' }
    else if d == 2 { '2' }
    else if d == 3 { '3' }
    else if d == 4 { '4' }
    else if d == 5 { '5' }
    else if d == 6 { '6' }
    else if d == 7 { '7' }
    else if d == 8 { '8' }
    else { '9' }
}

/// The decimal numeral of `n`, without sign or leading zeros.
pub open spec fn decimal(n: nat) -> Seq<char>
    decreases n,
{
    if n < 10 {
        seq![digit_char(n)]
    } else {
        decimal(n / 10).push(digit_char(n % 10))
    }
}

/// The decimal numeral of `n`, padded on the left with zeros to `width`.
pub open spec fn zero_padded(n: nat, width: nat) -> Seq<char> {
    let d = decimal(n);
    if d.len() < width {
        Seq::new((width - d.len()) as nat, |i: int| '0') + d
    } else {
        d
    }
}

fn digit(d: u64) -> (c: char)
    requires
        d < 10,
    ensures
        c == digit_char(d as nat),
{
    if d == 0 { '0' }
    else if d == 1 { '1' }
    else if d == 2 { '2' }
    else if d == 3 { '3' }
    else if d == 4 { '4' }
    else if d == 5 { '5' }
    else if d == 6 { '6' }
    else if d == 7 { '7' }
    else if d == 8 { '8' }
    else { '9' }
}

proof fn lemma_decimal_nonempty(n: nat)
    ensures
        decimal(n).len() >= 1,
    decreases n,
{
    if n >= 10 {
        lemma_decimal_nonempty(n / 10);
    }
}

/// The decimal numeral of `n`.
pub fn decimal_text(n: u64) -> (res: String)
    ensures
        res@ == decimal(n as nat),
{
    // Digits are collected least significant first, then emitted in reverse.
    let mut rev: Vec<char> = Vec::new();
    let mut m: u64 = n;
    let ghost mut tail: Seq<char> = Seq::empty();
    while m >= 10
        invariant
            decimal(n as nat) == decimal(m as nat) + tail,
            rev@ == tail.reverse(),
        decreases m,
    {
        let d = digit(m % 10);
        proof {
            assert(decimal(m as nat) == decimal((m / 10) as nat).push(d));
            assert(decimal((m / 10) as nat).push(d) + tail == decimal((m / 10) as nat) + (seq![d] + tail));
            assert((seq![d] + tail).reverse() =~= tail.reverse().push(d));
            tail = seq![d] + tail;
        }
        rev.push(d);
        m = m / 10;
    }
    let last = digit(m);
    proof {
        assert(decimal(m as nat) == seq![last]);
        assert((seq![last] + tail).reverse() =~= tail.reverse().push(last));
        tail = seq![last] + tail;
    }
    rev.push(last);
    // rev@ == decimal(n).reverse()
    let mut res = String::new();
    let mut i: usize = rev.len();
    while i > 0
        invariant
            i <= rev.len(),
            rev@ == tail.reverse(),
            tail == decimal(n as nat),
            res@ == tail.take(rev.len() - i),
        decreases i,
    {
        i -= 1;
        res.push(rev[i]);
        proof {
            assert(tail.take(rev.len() - i) =~= tail.take(rev.len() - i - 1).push(tail[rev.len() - i - 1]));
        }
    }
    assert(tail.take(rev.len() as int) =~= tail);
    res
}

/// The decimal numeral of `n`, zero-padded on the left to `width` digits.
pub fn zero_padded_text(n: u64, width: usize) -> (res: String)
    ensures
        res@ == zero_padded(n as nat, width as nat),
{
    let d = decimal_text(n);
    let len = d.unicode_len();
    if len < width {
        let mut res = String::new();
        let mut k: usize = 0;
        while k < width - len
            invariant
                k <= width - len,
                len == d@.len(),
                res@ == Seq::new(k as nat, |i: int| '0'),
            decreases width - len - k,
        {
            res.push('0');
            k += 1;
            assert(res@ =~= Seq::new(k as nat, |i: int| '0'));
        }
        res.append(d.as_str());
        res
    } else {
        d
    }
}

/// Whether `s` ends with `suffix`.
pub open spec fn has_suffix(s: Seq<char>, suffix: Seq<char>) -> bool {
    suffix.len() <= s.len() && s.subrange(s.len() - suffix.len(), s.len() as int) == suffix
}

/// Whether `s` starts with `prefix`.
pub open spec fn has_prefix(s: Seq<char>, prefix: Seq<char>) -> bool {
    prefix.len() <= s.len() && s.subrange(0, prefix.len() as int) == prefix
}

/// Whether `part` occurs in `s` at position `i`.
pub open spec fn occurs_at(s: Seq<char>, part: Seq<char>, i: int) -> bool {
    0 <= i && i + part.len() <= s.len() && s.subrange(i, i + part.len()) == part
}

/// Whether `part` occurs anywhere in `s`.
pub open spec fn contains_text(s: Seq<char>, part: Seq<char>) -> bool {
    exists|i: int| occurs_at(s, part, i)
}

/// Whether `s` ends with `suffix`.
pub fn ends_with(s: &str, suffix: &str) -> (res: bool)
    ensures
        res == has_suffix(s@, suffix@),
{
    let a = chars_of(s);
    let b = chars_of(suffix);
    if b.len() > a.len() {
        return false;
    }
    let off = a.len() - b.len();
    let mut i: usize = 0;
    while i < b.len()
        invariant
            a@ == s@,
            b@ == suffix@,
            off == a.len() - b.len(),
            i <= b.len(),
            forall|j: int| 0 <= j < i ==> a@[off + j] == b@[j],
        decreases b.len() - i,
    {
        if a[off + i] != b[i] {
            assert(a@.subrange(off as int, a.len() as int)[i as int] != b@[i as int]);
            return false;
        }
        i += 1;
    }
    assert(a@.subrange(off as int, a.len() as int) =~= b@);
    true
}

/// Whether `s` starts with `prefix`.
pub fn starts_with(s: &str, prefix: &str) -> (res: bool)
    ensures
        res == has_prefix(s@, prefix@),
{
    let a = chars_of(s);
    let b = chars_of(prefix);
    if b.len() > a.len() {
        return false;
    }
    let mut i: usize = 0;
    while i < b.len()
        invariant
            a@ == s@,
            b@ == prefix@,
            b.len() <= a.len(),
            i <= b.len(),
            forall|j: int| 0 <= j < i ==> a@[j] == b@[j],
        decreases b.len() - i,
    {
        if a[i] != b[i] {
            assert(a@.subrange(0, b.len() as int)[i as int] != b@[i as int]);
            return false;
        }
        i += 1;
    }
    assert(a@.subrange(0, b.len() as int) =~= b@);
    true
}

fn occurs_at_exec(a: &Vec<char>, b: &Vec<char>, i: usize) -> (res: bool)
    requires
        i + b.len() <= a.len(),
    ensures
        res == occurs_at(a@, b@, i as int),
{
    let mut k: usize = 0;
    while k < b.len()
        invariant
            i + b.len() <= a.len(),
            k <= b.len(),
            forall|j: int| 0 <= j < k ==> a@[i + j] == b@[j],
        decreases b.len() - k,
    {
        if a[i + k] != b[k] {
            assert(a@.subrange(i as int, i + b.len())[k as int] != b@[k as int]);
            return false;
        }
        k += 1;
    }
    assert(a@.subrange(i as int, i + b.len()) =~= b@);
    true
}

/// Whether `part` occurs in `s`.
pub fn contains(s: &str, part: &str) -> (res: bool)
    ensures
        res == contains_text(s@, part@),
{
    let a = chars_of(s);
    let b = chars_of(part);
    if b.len() == 0 {
        assert(s@.subrange(0, 0) =~= part@);
        assert(occurs_at(s@, part@, 0));
        return true;
    }
    if b.len() > a.len() {
        assert forall|i: int| !occurs_at(s@, part@, i) by {}
        return false;
    }
    let mut i: usize = 0;
    while i <= a.len() - b.len()
        invariant
            a@ == s@,
            b@ == part@,
            1 <= b.len() <= a.len(),
            i <= a.len() - b.len() + 1,
            forall|j: int| 0 <= j < i ==> !occurs_at(s@, part@, j),
        decreases a.len() - b.len() + 1 - i,
    {
        if occurs_at_exec(&a, &b, i) {
            return true;
        }
        i += 1;
    }
    assert forall|j: int| !occurs_at(s@, part@, j) by {
        if 0 <= j && j + part@.len() <= s@.len() {
            assert(j < i);
        }
    }
    false
}

/// `str::replace`: every non-overlapping occurrence of `pat`, found left to
/// right, is replaced by `rep`; an empty `pat` matches before every
/// character and at the end.
pub open spec fn replace_text(s: Seq<char>, pat: Seq<char>, rep: Seq<char>) -> Seq<char>
    decreases s.len(),
{
    if pat.len() == 0 {
        if s.len() == 0 {
            rep
        } else {
            rep + seq![s[0]] + replace_text(s.skip(1), pat, rep)
        }
    } else if s.len() < pat.len() {
        s
    } else if s.take(pat.len() as int) == pat {
        rep + replace_text(s.skip(pat.len() as int), pat, rep)
    } else {
        seq![s[0]] + replace_text(s.skip(1), pat, rep)
    }
}

/// `s` with every occurrence of `pat` replaced by `rep`, as `str::replace`
/// does it.
pub fn replace(s: &str, pat: &str, rep: &str) -> (res: String)
    ensures
        res@ == replace_text(s@, pat@, rep@),
{
    let a = chars_of(s);
    let b = chars_of(pat);
    let mut res = String::new();
    let mut i: usize = 0;
    assert(a@.skip(0) =~= a@);
    if b.len() == 0 {
        while i < a.len()
            invariant
                a@ == s@,
                b@ == pat@,
                b.len() == 0,
                i <= a.len(),
                res@ + replace_text(a@.skip(i as int), pat@, rep@) == replace_text(s@, pat@, rep@),
            decreases a.len() - i,
        {
            proof {
                let t = a@.skip(i as int);
                assert(t.skip(1) =~= a@.skip(i + 1));
                assert(t[0] == a@[i as int]);
            }
            res.append(rep);
            res.push(a[i]);
            i += 1;
            proof {
                let t = a@.skip(i - 1);
                assert(res@ + replace_text(a@.skip(i as int), pat@, rep@) =~= (res@.drop_last().subrange(0, res@.len() - 1 - rep@.len()) + (rep@ + seq![t[0]] + replace_text(t.skip(1), pat@, rep@))));
            }
        }
        assert(a@.skip(i as int) =~= Seq::<char>::empty());
        res.append(rep);
        assert(res@ == replace_text(s@, pat@, rep@));
        return res;
    }
    while i < a.len()
        invariant
            a@ == s@,
            b@ == pat@,
            b.len() > 0,
            i <= a.len(),
            res@ + replace_text(a@.skip(i as int), pat@, rep@) == replace_text(s@, pat@, rep@),
        decreases a.len() - i,
    {
        let ghost t = a@.skip(i as int);
        let ghost before = res@;
        if a.len() - i < b.len() {
            proof {
                assert(replace_text(t, pat@, rep@) == t);
            }
            while i < a.len()
                invariant
                    a@ == s@,
                    i <= a.len(),
                    res@ + a@.skip(i as int) == replace_text(s@, pat@, rep@),
                decreases a.len() - i,
            {
                let ghost prev = res@;
                proof {
                    assert(a@.skip(i as int) =~= seq![a@[i as int]] + a@.skip(i + 1));
                }
                res.push(a[i]);
                i += 1;
                proof {
                    assert(res@ + a@.skip(i as int) =~= prev + a@.skip(i - 1));
                }
            }
            assert(a@.skip(i as int) =~= Seq::<char>::empty());
            assert(res@ =~= res@ + a@.skip(i as int));
            return res;
        }
        if occurs_at_exec(&a, &b, i) {
            proof {
                assert(t.take(pat@.len() as int) =~= a@.subrange(i as int, i + b.len()));
                assert(t.skip(pat@.len() as int) =~= a@.skip(i + b.len()));
            }
            res.append(rep);
            i += b.len();
            proof {
                assert(before + (rep@ + replace_text(a@.skip(i as int), pat@, rep@)) =~= res@ + replace_text(a@.skip(i as int), pat@, rep@));
            }
        } else {
            proof {
                assert(t.take(pat@.len() as int) =~= a@.subrange(i as int, i + b.len()));
                assert(t.skip(1) =~= a@.skip(i + 1));
                assert(t[0] == a@[i as int]);
            }
            res.push(a[i]);
            i += 1;
            proof {
                assert(before + (seq![t[0]] + replace_text(a@.skip(i as int), pat@, rep@)) =~= res@ + replace_text(a@.skip(i as int), pat@, rep@));
            }
        }
    }
    proof {
        assert(a@.skip(i as int) =~= Seq::<char>::empty());
        assert(replace_text(Seq::<char>::empty(), pat@, rep@) == Seq::<char>::empty());
        assert(res@ =~= res@ + replace_text(a@.skip(i as int), pat@, rep@));
    }
    res
}

} // verus!

verus! {

/// Whether `a` comes before or equals `b` in the order of `str::cmp`:
/// character by character by code point, a proper prefix first.
pub open spec fn text_le(a: Seq<char>, b: Seq<char>) -> bool
    decreases a.len(),
{
    if a.len() == 0 {
        true
    } else if b.len() == 0 {
        false
    } else if a[0] != b[0] {
        a[0] < b[0]
    } else {
        text_le(a.skip(1), b.skip(1))
    }
}

/// Any two texts are ordered one way or the other.
pub proof fn lemma_text_le_total(a: Seq<char>, b: Seq<char>)
    ensures
        text_le(a, b) || text_le(b, a),
    decreases a.len(),
{
    if a.len() > 0 && b.len() > 0 && a[0] == b[0] {
        lemma_text_le_total(a.skip(1), b.skip(1));
    }
}

/// The order is transitive.
pub proof fn lemma_text_le_trans(a: Seq<char>, b: Seq<char>, c: Seq<char>)
    requires
        text_le(a, b),
        text_le(b, c),
    ensures
        text_le(a, c),
    decreases a.len(),
{
    if a.len() > 0 && b.len() > 0 && c.len() > 0 && a[0] == b[0] && b[0] == c[0] {
        lemma_text_le_trans(a.skip(1), b.skip(1), c.skip(1));
    }
}

/// Texts ordered both ways are equal.
pub proof fn lemma_text_le_antisym(a: Seq<char>, b: Seq<char>)
    requires
        text_le(a, b),
        text_le(b, a),
    ensures
        a == b,
    decreases a.len(),
{
    if a.len() > 0 && b.len() > 0 {
        lemma_text_le_antisym(a.skip(1), b.skip(1));
        assert(a =~= seq![a[0]] + a.skip(1));
        assert(b =~= seq![b[0]] + b.skip(1));
    }
}

/// Every text is ordered before itself.
pub proof fn lemma_text_le_refl(a: Seq<char>)
    ensures
        text_le(a, a),
    decreases a.len(),
{
    if a.len() > 0 {
        lemma_text_le_refl(a.skip(1));
    }
}

/// Whether `a` comes before or equals `b` in the order of `str::cmp`.
pub fn text_before_eq(a: &str, b: &str) -> (res: bool)
    ensures
        res == text_le(a@, b@),
{
    let x = chars_of(a);
    let y = chars_of(b);
    let mut i: usize = 0;
    assert(a@.skip(0) =~= a@);
    assert(b@.skip(0) =~= b@);
    while i < x.len() && i < y.len()
        invariant
            x@ == a@,
            y@ == b@,
            i <= x.len(),
            i <= y.len(),
            text_le(a@, b@) == text_le(a@.skip(i as int), b@.skip(i as int)),
        decreases x.len() - i,
    {
        let ghost sa = a@.skip(i as int);
        let ghost sb = b@.skip(i as int);
        assert(sa[0] == x@[i as int]);
        assert(sb[0] == y@[i as int]);
        if x[i] != y[i] {
            return x[i] < y[i];
        }
        assert(sa.skip(1) =~= a@.skip(i + 1));
        assert(sb.skip(1) =~= b@.skip(i + 1));
        i += 1;
    }
    i == x.len()
}

} // verus!

verus! {

/// The number a decimal (base `base`) numeral stands for, its last digit
/// counting ones.
pub open spec fn numeral_value(s: Seq<char>, base: nat) -> int
    decreases s.len(),
{
    if s.len() == 0 {
        0
    } else {
        numeral_value(s.drop_last(), base) * base + (s.last() as int - '0' as int)
    }
}

/// A decimal numeral is made of the digits '0' to '9', starts with a
/// nonzero digit unless it is "0", and reads back as the number it was made
/// from.
pub proof fn lemma_decimal_reads_back(n: nat)
    ensures
        numeral_value(decimal(n), 10) == n,
        decimal(n).len() >= 1,
        forall|i: int| 0 <= i < decimal(n).len() ==> '0' <= #[trigger] decimal(n)[i] <= '9',
        n > 0 ==> decimal(n)[0] != '0',
    decreases n,
{
    if n < 10 {
        assert(digit_char(n) as int - '0' as int == n);
        assert(decimal(n).drop_last() =~= Seq::<char>::empty());
        assert(decimal(n).last() == digit_char(n));
        assert(numeral_value(Seq::<char>::empty(), 10) == 0);
        assert(numeral_value(decimal(n), 10) == 0 * 10 + (decimal(n).last() as int - '0' as int));
    }
    if n >= 10 {
        lemma_decimal_reads_back(n / 10);
        let pre = decimal(n / 10);
        assert(decimal(n).drop_last() =~= pre);
        assert(digit_char(n % 10) as int - '0' as int == n % 10);
        assert(decimal(n).last() == digit_char(n % 10));
        assert(numeral_value(decimal(n), 10) == numeral_value(pre, 10) * 10 + (n % 10));
        assert((n / 10) * 10 + n % 10 == n) by (nonlinear_arith);
        assert(numeral_value(pre, 10) == n / 10);
        assert forall|i: int| 0 <= i < decimal(n).len() implies '0' <= #[trigger] decimal(n)[i] <= '9' by {
            if i < pre.len() {
                assert(decimal(n)[i] == pre[i]);
            }
        }
        assert(decimal(n)[0] == pre[0]);
    }
}

/// Texts are ordered character by character: a shared beginning decides
/// nothing, a text comes no later than any text it begins, and at the
/// first difference the smaller character decides.
pub proof fn lemma_text_le_lexicographic(p: Seq<char>, x: Seq<char>, y: Seq<char>, c: char, d: char)
    ensures
        text_le(p + x, p + y) == text_le(x, y),
        text_le(p, p + y),
        c != d ==> text_le(seq![c] + x, seq![d] + y) == (c < d),
    decreases p.len(),
{
    if p.len() > 0 {
        lemma_text_le_lexicographic(p.skip(1), x, y, c, d);
        assert((p + x).skip(1) =~= p.skip(1) + x);
        assert((p + y).skip(1) =~= p.skip(1) + y);
        assert((p + x)[0] == p[0]);
        assert((p + y)[0] == p[0]);
        assert(p.skip(1) + y == (p + y).skip(1));
    } else {
        assert(p + x =~= x);
        assert(p + y =~= y);
    }
    assert((seq![c] + x)[0] == c);
    assert((seq![d] + y)[0] == d);
}

} // verus!

verus! {

proof fn lemma_zeros_value(k: nat, base: nat)
    ensures
        numeral_value(Seq::new(k, |i: int| '0'), base) == 0,
    decreases k,
{
    if k > 0 {
        lemma_zeros_value((k - 1) as nat, base);
        assert(Seq::new(k, |i: int| '0').drop_last() =~= Seq::new((k - 1) as nat, |i: int| '0'));
        assert(numeral_value(Seq::new(k, |i: int| '0'), base)
            == numeral_value(Seq::new((k - 1) as nat, |i: int| '0'), base) * base + 0);
        assert(0 * base == 0) by (nonlinear_arith);
    }
}

proof fn lemma_leading_zeros_value(z: Seq<char>, d: Seq<char>, base: nat)
    requires
        numeral_value(z, base) == 0,
    ensures
        numeral_value(z + d, base) == numeral_value(d, base),
    decreases d.len(),
{
    if d.len() == 0 {
        assert(z + d =~= z);
    } else {
        lemma_leading_zeros_value(z, d.drop_last(), base);
        assert((z + d).drop_last() =~= z + d.drop_last());
        assert((z + d).last() == d.last());
    }
}

/// A zero-padded numeral has at least the asked width, is made of digits,
/// and reads back as the number it was made from: padding adds only
/// leading zeros.
pub proof fn lemma_zero_padded_reads_back(n: nat, width: nat)
    ensures
        numeral_value(zero_padded(n, width), 10) == n,
        zero_padded(n, width).len() >= width,
        zero_padded(n, width).len() == if decimal(n).len() < width { width } else { decimal(n).len() },
        forall|i: int| 0 <= i < zero_padded(n, width).len() ==> '0' <= #[trigger] zero_padded(n, width)[i] <= '9',
{
    lemma_decimal_reads_back(n);
    let d = decimal(n);
    if d.len() < width {
        let z = Seq::new((width - d.len()) as nat, |i: int| '0');
        lemma_zeros_value((width - d.len()) as nat, 10);
        lemma_leading_zeros_value(z, d, 10);
        assert forall|i: int| 0 <= i < zero_padded(n, width).len() implies '0' <= #[trigger] zero_padded(n, width)[i] <= '9' by {
            if i < z.len() {
                assert(zero_padded(n, width)[i] == z[i]);
            } else {
                assert(zero_padded(n, width)[i] == d[i - z.len()]);
            }
        }
    }
}

} // verus!
