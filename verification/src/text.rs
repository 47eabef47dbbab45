//! Verified string utilities shared by the rule matcher, the moderation
//! filter and the template helpers: prefix tests, whitespace trimming,
//! substring search and replacement, and case folding.

use vstd::prelude::*;
use vstd::string::*;

verus! {

/// What `char::is_whitespace` returns: the Unicode `White_Space` property.
pub uninterp spec fn whitespace_char(c: char) -> bool;

/// Relies on `char::is_whitespace`: the Unicode `White_Space` property,
/// whose ASCII rows are exactly the space, tab, line feed, vertical tab,
/// form feed and carriage return.
#[verifier::external_body]
pub fn is_whitespace_char(c: char) -> (r: bool)
    ensures
        r == whitespace_char(c),
        (c as u32) < 128 ==> (r <==> (c == ' ' || c == '\t' || c == '\n' || c == '\u{b}' || c
            == '\u{c}' || c == '\r')),
{
    c.is_whitespace()
}

/// What `str::to_lowercase` returns; the result depends on the characters alone.
pub uninterp spec fn lower_of(s: Seq<char>) -> Seq<char>;

/// Relies on `str::to_lowercase`: Unicode lowercasing, empty in iff empty out.
#[verifier::external_body]
pub fn to_lowercase(s: &str) -> (r: String)
    ensures
        r@ == lower_of(s@),
        s@.len() == 0 ==> r@.len() == 0,
{
    s.to_lowercase()
}

/// Relies on `String::push`: appends one character.
#[verifier::external_body]
pub fn push_char(s: &mut String, c: char)
    ensures
        final(s)@ == old(s)@.push(c),
{
    s.push(c);
}

/// Whether `pre` is a prefix of `s`.
pub open spec fn seq_starts_with(s: Seq<char>, pre: Seq<char>) -> bool {
    pre.len() <= s.len() && s.subrange(0, pre.len() as int) == pre
}

/// Whether every character of `s` is whitespace.
pub open spec fn all_whitespace(s: Seq<char>) -> bool {
    forall|i: int| 0 <= i < s.len() ==> whitespace_char(s[i])
}

/// `s` with its leading whitespace removed.
pub open spec fn trim_start_spec(s: Seq<char>) -> Seq<char>
    decreases s.len(),
{
    if s.len() > 0 && whitespace_char(s[0]) {
        trim_start_spec(s.subrange(1, s.len() as int))
    } else {
        s
    }
}

/// `s` with its trailing whitespace removed.
pub open spec fn trim_end_spec(s: Seq<char>) -> Seq<char>
    decreases s.len(),
{
    if s.len() > 0 && whitespace_char(s[s.len() - 1]) {
        trim_end_spec(s.subrange(0, s.len() - 1))
    } else {
        s
    }
}

/// `s` with leading and trailing whitespace removed.
pub open spec fn trim_spec(s: Seq<char>) -> Seq<char> {
    trim_end_spec(trim_start_spec(s))
}

/// `s` with every leading repetition of `pat` removed.
pub open spec fn trim_start_matches_spec(s: Seq<char>, pat: Seq<char>) -> Seq<char>
    decreases s.len(),
{
    if pat.len() > 0 && seq_starts_with(s, pat) {
        trim_start_matches_spec(s.subrange(pat.len() as int, s.len() as int), pat)
    } else {
        s
    }
}

/// `s` with every non-overlapping occurrence of `pat` replaced by `rep`,
/// scanning left to right, as `str::replace` does.
pub open spec fn replace_all_spec(s: Seq<char>, pat: Seq<char>, rep: Seq<char>) -> Seq<char>
    decreases s.len(),
{
    if pat.len() == 0 || s.len() == 0 {
        s
    } else if seq_starts_with(s, pat) {
        rep + replace_all_spec(s.subrange(pat.len() as int, s.len() as int), pat, rep)
    } else {
        seq![s[0]] + replace_all_spec(s.subrange(1, s.len() as int), pat, rep)
    }
}

/// Whether `needle` occurs contiguously inside `hay`.
pub open spec fn seq_contains(hay: Seq<char>, needle: Seq<char>) -> bool {
    exists|i: int|
        0 <= i && i + needle.len() <= hay.len() && #[trigger] hay.subrange(
            i,
            i + needle.len(),
        ) == needle
}

/// Whether the string slice `s` starts with `pre`, by characters.
pub fn starts_with(s: &str, pre: &str) -> (r: bool)
    ensures
        r == seq_starts_with(s@, pre@),
{
    let n: usize = pre.unicode_len();
    let m: usize = s.unicode_len();
    if n > m {
        return false;
    }
    let mut i: usize = 0;
    while i < n
        invariant
            0 <= i <= n <= m,
            n == pre@.len(),
            m == s@.len(),
            forall|j: int| 0 <= j < i ==> s@[j] == pre@[j],
        decreases n - i,
    {
        if s.get_char(i) != pre.get_char(i) {
            assert(s@.subrange(0, n as int)[i as int] != pre@[i as int]);
            return false;
        }
        i += 1;
    }
    assert(s@.subrange(0, n as int) =~= pre@);
    true
}

/// Whether every character of `s` is whitespace; true for the empty string.
pub fn is_blank(s: &str) -> (r: bool)
    ensures
        r == all_whitespace(s@),
{
    let n: usize = s.unicode_len();
    let mut i: usize = 0;
    while i < n
        invariant
            0 <= i <= n,
            n == s@.len(),
            forall|j: int| 0 <= j < i ==> whitespace_char(s@[j]),
        decreases n - i,
    {
        if !is_whitespace_char(s.get_char(i)) {
            return false;
        }
        i += 1;
    }
    true
}

proof fn lemma_trim_start_at(s: Seq<char>, k: int)
    requires
        0 <= k <= s.len(),
        forall|i: int| 0 <= i < k ==> whitespace_char(s[i]),
        k == s.len() || !whitespace_char(s[k]),
    ensures
        trim_start_spec(s) =~= s.subrange(k, s.len() as int),
    decreases k,
{
    if k == 0 {
        if s.len() > 0 && whitespace_char(s[0]) {
            assert(!whitespace_char(s[k]));
            assert(false);
        }
        assert(trim_start_spec(s) == s);
    } else {
        let t = s.subrange(1, s.len() as int);
        assert(forall|i: int| 0 <= i < k - 1 ==> whitespace_char(t[i]));
        lemma_trim_start_at(t, k - 1);
        assert(trim_start_spec(s) == trim_start_spec(t));
        assert(t.subrange(k - 1, t.len() as int) =~= s.subrange(k, s.len() as int));
    }
}

proof fn lemma_trim_end_at(s: Seq<char>, k: int)
    requires
        0 <= k <= s.len(),
        forall|i: int| k <= i < s.len() ==> whitespace_char(s[i]),
        k == 0 || !whitespace_char(s[k - 1]),
    ensures
        trim_end_spec(s) =~= s.subrange(0, k),
    decreases s.len(),
{
    if k == s.len() {
        if s.len() > 0 && whitespace_char(s[s.len() - 1]) {
            assert(false);
        }
        assert(trim_end_spec(s) == s);
    } else {
        assert(whitespace_char(s[s.len() - 1]));
        let t = s.subrange(0, s.len() - 1);
        assert(forall|i: int| k <= i < t.len() ==> whitespace_char(t[i]));
        lemma_trim_end_at(t, k);
        assert(trim_end_spec(s) == trim_end_spec(t));
        assert(t.subrange(0, k) =~= s.subrange(0, k));
    }
}

/// If `s` has no leading whitespace, trimming its start changes nothing.
pub proof fn lemma_trim_start_noop(s: Seq<char>)
    requires
        s.len() == 0 || !whitespace_char(s[0]),
    ensures
        trim_start_spec(s) == s,
{
}

/// Trimming the start twice is the same as trimming it once.
pub proof fn lemma_trim_start_idempotent(s: Seq<char>)
    ensures
        trim_start_spec(trim_start_spec(s)) == trim_start_spec(s),
    decreases s.len(),
{
    if s.len() > 0 && whitespace_char(s[0]) {
        lemma_trim_start_idempotent(s.subrange(1, s.len() as int));
    } else {
        lemma_trim_start_noop(s);
    }
}

/// The string slice `s` with leading and trailing whitespace removed,
/// as `str::trim` computes it.
pub fn trim(s: &str) -> (r: String)
    ensures
        r@ == trim_spec(s@),
{
    let n: usize = s.unicode_len();
    let mut i: usize = 0;
    while i < n && is_whitespace_char(s.get_char(i))
        invariant
            0 <= i <= n,
            n == s@.len(),
            forall|j: int| 0 <= j < i ==> whitespace_char(s@[j]),
        decreases n - i,
    {
        i += 1;
    }
    proof {
        lemma_trim_start_at(s@, i as int);
    }
    if i == n {
        proof {
            lemma_trim_end_at(trim_start_spec(s@), 0);
        }
        return String::new();
    }
    let mut j: usize = n;
    while j > i && is_whitespace_char(s.get_char(j - 1))
        invariant
            i <= j <= n,
            n == s@.len(),
            i < n,
            !whitespace_char(s@[i as int]),
            forall|k: int| j <= k < n ==> whitespace_char(s@[k]),
        decreases j,
    {
        j -= 1;
    }
    assert(j > i) by {
        if j == i {
            assert(whitespace_char(s@[i as int]));
        }
    }
    let sub = s.substring_char(i, j);
    let r = sub.to_owned();
    proof {
        let t = s@.subrange(i as int, n as int);
        assert(forall|k: int| (j - i) <= k < t.len() ==> whitespace_char(t[k]));
        assert(!whitespace_char(t[j - i - 1]));
        lemma_trim_end_at(t, j - i);
        assert(t.subrange(0, j - i) =~= s@.subrange(i as int, j as int));
    }
    r
}

/// `s` with every leading repetition of `pat` removed, as
/// `str::trim_start_matches` computes it.
pub fn trim_start_matches(s: &str, pat: &str) -> (r: String)
    requires
        pat@.len() > 0,
    ensures
        r@ == trim_start_matches_spec(s@, pat@),
{
    let n: usize = s.unicode_len();
    let p: usize = pat.unicode_len();
    let mut i: usize = 0;
    proof {
        assert(s@.subrange(0, n as int) =~= s@);
    }
    loop
        invariant
            0 <= i <= n,
            n == s@.len(),
            p == pat@.len(),
            p > 0,
            trim_start_matches_spec(s@, pat@) == trim_start_matches_spec(
                s@.subrange(i as int, n as int),
                pat@,
            ),
        decreases n - i,
    {
        let rest = s.substring_char(i, n);
        if !starts_with(rest, pat) {
            proof {
                assert(trim_start_matches_spec(rest@, pat@) == rest@);
            }
            return rest.to_owned();
        }
        proof {
            assert(trim_start_matches_spec(rest@, pat@) == trim_start_matches_spec(
                rest@.subrange(p as int, rest@.len() as int),
                pat@,
            ));
            assert(rest@.subrange(p as int, rest@.len() as int) =~= s@.subrange(
                (i + p) as int,
                n as int,
            ));
        }
        i += p;
    }
}

/// Whether `needle` occurs contiguously inside `hay`, by characters.
pub fn contains_str(hay: &str, needle: &str) -> (r: bool)
    ensures
        r == seq_contains(hay@, needle@),
{
    let n: usize = hay.unicode_len();
    let p: usize = needle.unicode_len();
    if p > n {
        return false;
    }
    if p == 0 {
        assert(seq_contains(hay@, needle@)) by {
            assert(hay@.subrange(0, 0 + needle@.len() as int) =~= needle@);
        }
        return true;
    }
    let mut i: usize = 0;
    while i <= n - p
        invariant
            0 <= i <= n - p + 1,
            0 < p <= n,
            n == hay@.len(),
            p == needle@.len(),
            forall|k: int|
                0 <= k < i ==> #[trigger] hay@.subrange(k, k + needle@.len()) != needle@,
        decreases n - i,
    {
        let window = hay.substring_char(i, i + p);
        let mut eq = true;
        let mut j: usize = 0;
        while j < p
            invariant
                0 <= j <= p,
                0 < p,
                p == needle@.len(),
                i + p <= n,
                n == hay@.len(),
                window@ == hay@.subrange(i as int, i as int + p as int),
                eq ==> forall|k: int| 0 <= k < j ==> window@[k] == needle@[k],
                !eq ==> window@ != needle@,
            decreases p - j,
        {
            if window.get_char(j) != needle.get_char(j) {
                assert(window@[j as int] != needle@[j as int]);
                eq = false;
                j = p;
            } else {
                j += 1;
            }
        }
        if eq {
            assert(window@ =~= needle@);
            return true;
        }
        i += 1;
    }
    assert(forall|k: int|
        0 <= k && k + needle@.len() <= hay@.len() ==> #[trigger] hay@.subrange(
            k,
            k + needle@.len(),
        ) != needle@);
    false
}

/// `s` with every non-overlapping occurrence of `pat` replaced by `rep`,
/// as `str::replace` computes it.
pub fn replace_all(s: &str, pat: &str, rep: &str) -> (r: String)
    requires
        pat@.len() > 0,
    ensures
        r@ == replace_all_spec(s@, pat@, rep@),
{
    let n: usize = s.unicode_len();
    let p: usize = pat.unicode_len();
    let mut out = String::new();
    let mut i: usize = 0;
    proof {
        assert(s@.subrange(0, n as int) =~= s@);
        assert(out@ + replace_all_spec(s@, pat@, rep@) =~= replace_all_spec(s@, pat@, rep@));
    }
    while i < n
        invariant
            0 <= i <= n,
            n == s@.len(),
            p == pat@.len(),
            p > 0,
            replace_all_spec(s@, pat@, rep@) == out@ + replace_all_spec(
                s@.subrange(i as int, n as int),
                pat@,
                rep@,
            ),
        decreases n - i,
    {
        let ghost rest_seq = s@.subrange(i as int, n as int);
        let rest = s.substring_char(i, n);
        if p <= n - i && starts_with(rest, pat) {
            out.append(rep);
            proof {
                let tail = rest_seq.subrange(p as int, rest_seq.len() as int);
                assert(replace_all_spec(rest_seq, pat@, rep@) == rep@ + replace_all_spec(
                    tail,
                    pat@,
                    rep@,
                ));
                assert(tail =~= s@.subrange(i as int + p as int, n as int));
                assert((out@ + rep@) + replace_all_spec(tail, pat@, rep@) =~= out@ + (rep@
                    + replace_all_spec(tail, pat@, rep@)));
            }
            i += p;
        } else {
            let c = s.get_char(i);
            push_char(&mut out, c);
            proof {
                let tail = rest_seq.subrange(1, rest_seq.len() as int);
                assert(rest_seq.len() > 0);
                assert(!seq_starts_with(rest_seq, pat@));
                assert(rest_seq[0] == s@[i as int]);
                assert(replace_all_spec(rest_seq, pat@, rep@) == seq![rest_seq[0]]
                    + replace_all_spec(tail, pat@, rep@));
                assert(tail =~= s@.subrange(i as int + 1, n as int));
                assert(out@.push(c) =~= out@ + seq![c]);
                assert((out@ + seq![c]) + replace_all_spec(tail, pat@, rep@) =~= out@ + (
                seq![c] + replace_all_spec(tail, pat@, rep@)));
            }
            i += 1;
        }
    }
    proof {
        assert(s@.subrange(n as int, n as int) =~= Seq::<char>::empty());
        assert(out@ + Seq::<char>::empty() =~= out@);
    }
    out
}

/// The string slice `s` with leading whitespace removed, as
/// `str::trim_start` computes it.
pub fn trim_start(s: &str) -> (r: String)
    ensures
        r@ == trim_start_spec(s@),
{
    let n: usize = s.unicode_len();
    let mut i: usize = 0;
    while i < n && is_whitespace_char(s.get_char(i))
        invariant
            0 <= i <= n,
            n == s@.len(),
            forall|j: int| 0 <= j < i ==> whitespace_char(s@[j]),
        decreases n - i,
    {
        i += 1;
    }
    proof {
        lemma_trim_start_at(s@, i as int);
    }
    s.substring_char(i, n).to_owned()
}

/// Whether two string slices hold the same characters.
pub fn str_eq(a: &str, b: &str) -> (r: bool)
    ensures
        r == (a@ == b@),
{
    let n: usize = a.unicode_len();
    let m: usize = b.unicode_len();
    if n != m {
        return false;
    }
    let mut i: usize = 0;
    while i < n
        invariant
            0 <= i <= n,
            n == a@.len(),
            n == b@.len(),
            forall|j: int| 0 <= j < i ==> a@[j] == b@[j],
        decreases n - i,
    {
        if a.get_char(i) != b.get_char(i) {
            return false;
        }
        i += 1;
    }
    assert(a@ =~= b@);
    true
}

/// A trimmed string has no leading whitespace.
pub proof fn lemma_trim_start_no_leading(s: Seq<char>)
    ensures
        trim_start_spec(s).len() > 0 ==> !whitespace_char(trim_start_spec(s)[0]),
    decreases s.len(),
{
    if s.len() > 0 && whitespace_char(s[0]) {
        lemma_trim_start_no_leading(s.subrange(1, s.len() as int));
    }
}

/// A trimmed string has no trailing whitespace.
pub proof fn lemma_trim_end_no_trailing(s: Seq<char>)
    ensures
        trim_end_spec(s).len() > 0 ==> !whitespace_char(
            trim_end_spec(s)[trim_end_spec(s).len() - 1],
        ),
    decreases s.len(),
{
    if s.len() > 0 && whitespace_char(s[s.len() - 1]) {
        lemma_trim_end_no_trailing(s.subrange(0, s.len() - 1));
    }
}

/// Trimming the end keeps the first character.
pub proof fn lemma_trim_end_keeps_first(s: Seq<char>)
    ensures
        trim_end_spec(s).len() > 0 ==> trim_end_spec(s)[0] == s[0],
    decreases s.len(),
{
    if s.len() > 0 && whitespace_char(s[s.len() - 1]) {
        let t = s.subrange(0, s.len() - 1);
        lemma_trim_end_keeps_first(t);
        if trim_end_spec(s).len() > 0 {
            assert(t[0] == s[0]);
        }
    }
}

/// Trimming the end twice is the same as trimming it once.
pub proof fn lemma_trim_end_idempotent(s: Seq<char>)
    ensures
        trim_end_spec(trim_end_spec(s)) == trim_end_spec(s),
{
    lemma_trim_end_no_trailing(s);
}

/// Trimming both ends twice is the same as trimming them once.
pub proof fn lemma_trim_idempotent(s: Seq<char>)
    ensures
        trim_spec(trim_spec(s)) == trim_spec(s),
{
    let t1 = trim_start_spec(s);
    let u = trim_end_spec(t1);
    lemma_trim_start_no_leading(s);
    lemma_trim_end_keeps_first(t1);
    if u.len() > 0 {
        assert(!whitespace_char(u[0]));
    }
    assert(trim_start_spec(u) == u);
    lemma_trim_end_idempotent(t1);
}

/// The decimal digit `d` as a character.
pub open spec fn digit_char(d: int) -> char {
    if d == 0 {
        '0'
    } else if d == 1 {
        '1'
    } else if d == 2 {
        '2'
    } else if d == 3 {
        '3'
    } else if d == 4 {
        '4'
    } else if d == 5 {
        '5'
    } else if d == 6 {
        '6'
    } else if d == 7 {
        '7'
    } else if d == 8 {
        '8'
    } else {
        '9'
    }
}

/// The decimal rendering of a non-negative integer, without leading zeros.
pub open spec fn decimal_of_nat(n: int) -> Seq<char>
    decreases n when 0 <= n
{
    if n < 10 {
        seq![digit_char(n)]
    } else {
        decimal_of_nat(n / 10).push(digit_char(n % 10))
    }
}

/// The decimal rendering of an integer, with a sign for a negative one.
pub open spec fn decimal_of(n: int) -> Seq<char> {
    if n < 0 {
        seq!['-'] + decimal_of_nat(-n)
    } else {
        decimal_of_nat(n)
    }
}

fn digit_to_char(d: u64) -> (c: char)
    requires
        d < 10,
    ensures
        c == digit_char(d as int),
{
    if d == 0 {
        '0'
    } else if d == 1 {
        '1'
    } else if d == 2 {
        '2'
    } else if d == 3 {
        '3'
    } else if d == 4 {
        '4'
    } else if d == 5 {
        '5'
    } else if d == 6 {
        '6'
    } else if d == 7 {
        '7'
    } else if d == 8 {
        '8'
    } else {
        '9'
    }
}

/// The decimal rendering of `n`, as `i64::to_string` computes it.
pub fn i64_to_string(n: i64) -> (r: String)
    ensures
        r@ == decimal_of(n as int),
{
    let mut mag: u64 = if n < 0 {
        (-(n as i128)) as u64
    } else {
        n as u64
    };
    let ghost orig: int = mag as int;
    let mut digits: Vec<char> = Vec::new();
    if mag == 0 {
        digits.push('0');
        assert(digits@ =~= decimal_of_nat(orig));
    } else {
        while mag > 0
            invariant
                0 <= mag,
                mag > 0 ==> decimal_of_nat(orig) =~= decimal_of_nat(mag as int) + digits@,
                mag == 0 ==> decimal_of_nat(orig) =~= digits@,
            decreases mag,
        {
            let d = mag % 10;
            let c = digit_to_char(d);
            digits.insert(0, c);
            let next = mag / 10;
            proof {
                let ds = digits@;
                assert(ds =~= seq![c] + ds.subrange(1, ds.len() as int));
                if mag >= 10 {
                    assert(decimal_of_nat(mag as int) + ds.subrange(1, ds.len() as int)
                        =~= decimal_of_nat(next as int) + ds);
                } else {
                    assert(decimal_of_nat(mag as int) =~= seq![c]);
                    assert(decimal_of_nat(mag as int) + ds.subrange(1, ds.len() as int) =~= ds);
                }
            }
            mag = next;
        }
    }
    let mut out = String::new();
    if n < 0 {
        push_char(&mut out, '-');
        assert(out@ =~= seq!['-']);
    }
    let mut i: usize = 0;
    let ghost start = out@;
    while i < digits.len()
        invariant
            0 <= i <= digits@.len(),
            out@ == start + digits@.subrange(0, i as int),
        decreases digits@.len() - i,
    {
        let c = digits[i];
        push_char(&mut out, c);
        proof {
            assert(start + digits@.subrange(0, i as int + 1) =~= (start + digits@.subrange(
                0,
                i as int,
            )).push(digits@[i as int]));
        }
        i += 1;
    }
    proof {
        assert(digits@.subrange(0, digits@.len() as int) =~= digits@);
        if n < 0 {
            assert(orig == -(n as int));
            assert(out@ =~= seq!['-'] + decimal_of_nat(-(n as int)));
        } else {
            assert(start =~= Seq::<char>::empty());
            assert(out@ =~= decimal_of_nat(n as int));
        }
    }
    out
}

} // verus!
