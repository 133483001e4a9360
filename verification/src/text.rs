//! Verified text primitives.
//!
//! Strings are processed as vectors of characters: `to_chars` turns a `&str`
//! into a `Vec<char>` whose view equals the string's view, the functions here
//! compute on those vectors with exact contracts, and
//! `crate::trusted::chars_to_string` turns a finished vector back into a
//! `String`.

use vstd::prelude::*;
use vstd::string::StrSliceExecFns;

verus! {

/// The characters of `s`, in order.
pub fn to_chars(s: &str) -> (r: Vec<char>)
    ensures
        r@ == s@,
{
    let n = s.unicode_len();
    let mut v: Vec<char> = Vec::new();
    let mut i: usize = 0;
    while i < n
        invariant
            n == s@.len(),
            i <= n,
            v@ == s@.subrange(0, i as int),
        decreases n - i,
    {
        let c = s.get_char(i);
        v.push(c);
        i = i + 1;
        proof {
            assert(v@ =~= s@.subrange(0, i as int));
        }
    }
    proof {
        assert(v@ =~= s@);
    }
    v
}

/// Character-vector equality, decided element by element.
pub fn chars_eq(a: &Vec<char>, b: &Vec<char>) -> (r: bool)
    ensures
        r == (a@ == b@),
{
    if a.len() != b.len() {
        proof {
            if a@ == b@ {
                assert(a@.len() == b@.len());
            }
        }
        return false;
    }
    let mut i: usize = 0;
    while i < a.len()
        invariant
            a@.len() == b@.len(),
            i <= a@.len(),
            forall|j: int| 0 <= j < i ==> a@[j] == b@[j],
        decreases a@.len() - i,
    {
        if a[i] != b[i] {
            return false;
        }
        i = i + 1;
    }
    proof {
        assert(a@ =~= b@);
    }
    true
}

/// String equality over views.
pub fn str_eq(a: &str, b: &str) -> (r: bool)
    ensures
        r == (a@ == b@),
{
    let av = to_chars(a);
    let bv = to_chars(b);
    chars_eq(&av, &bv)
}

/// The needle `n` occurs in `h` starting at index `i`.
pub open spec fn spec_matches_at(h: Seq<char>, n: Seq<char>, i: int) -> bool {
    0 <= i && i + n.len() <= h.len() && h.subrange(i, i + n.len() as int) == n
}

/// The needle `n` occurs somewhere in `h`.
pub open spec fn spec_contains(h: Seq<char>, n: Seq<char>) -> bool {
    exists|i: int| spec_matches_at(h, n, i)
}

/// Whether `n` occurs in `h` at exactly index `i`.
pub fn matches_at(h: &Vec<char>, n: &Vec<char>, i: usize) -> (r: bool)
    requires
        i + n@.len() <= h@.len(),
    ensures
        r == spec_matches_at(h@, n@, i as int),
{
    let mut j: usize = 0;
    while j < n.len()
        invariant
            i + n@.len() <= h@.len(),
            j <= n@.len(),
            forall|k: int| 0 <= k < j ==> h@[i + k] == n@[k],
        decreases n@.len() - j,
    {
        proof {
            assert(h.len() == h@.len());
        }
        if h[i + j] != n[j] {
            proof {
                if spec_matches_at(h@, n@, i as int) {
                    assert(h@.subrange(i as int, i + n@.len() as int)[j as int] == h@[i + j]);
                }
            }
            return false;
        }
        j = j + 1;
    }
    proof {
        assert(h@.subrange(i as int, i + n@.len() as int) =~= n@);
    }
    true
}

/// Substring search: whether `n` occurs anywhere in `h`.
pub fn contains_chars(h: &Vec<char>, n: &Vec<char>) -> (r: bool)
    ensures
        r == spec_contains(h@, n@),
{
    if n.len() == 0 {
        proof {
            assert(h@.subrange(0, 0) =~= n@);
            assert(spec_matches_at(h@, n@, 0));
        }
        return true;
    }
    if n.len() > h.len() {
        proof {
            assert forall|i: int| !spec_matches_at(h@, n@, i) by {}
        }
        return false;
    }
    let last = h.len() - n.len();
    let mut i: usize = 0;
    while i <= last
        invariant
            n@.len() <= h@.len(),
            h.len() == h@.len(),
            last == h@.len() - n@.len(),
            i <= last + 1,
            n@.len() >= 1,
            forall|k: int| 0 <= k < i ==> !spec_matches_at(h@, n@, k),
        decreases last + 1 - i,
    {
        if matches_at(h, n, i) {
            return true;
        }
        i = i + 1;
    }
    proof {
        assert forall|k: int| !spec_matches_at(h@, n@, k) by {
            if k > last {
                assert(k + n@.len() > h@.len());
            }
        }
    }
    false
}

/// Whether the string `n` occurs as a substring of `h`.
pub fn str_contains(h: &str, n: &str) -> (r: bool)
    ensures
        r == spec_contains(h@, n@),
{
    let hv = to_chars(h);
    let nv = to_chars(n);
    contains_chars(&hv, &nv)
}

/// ASCII lower-casing of one character; characters outside `'A'..='Z'` are
/// kept as they are.
pub open spec fn spec_lower_char(c: char) -> char {
    if 'A' <= c && c <= 'Z' {
        (((c as u8) + 32) as char)
    } else {
        c
    }
}

/// ASCII lower-casing of a character sequence.
pub open spec fn spec_lower(s: Seq<char>) -> Seq<char> {
    s.map_values(|c: char| spec_lower_char(c))
}

/// Lower-case one character (ASCII range only).
pub fn lower_char(c: char) -> (r: char)
    ensures
        r == spec_lower_char(c),
{
    if c >= 'A' && c <= 'Z' {
        ((c as u8) + 32) as char
    } else {
        c
    }
}

/// ASCII lower-casing of a character vector.
pub fn lower_chars(v: &Vec<char>) -> (r: Vec<char>)
    ensures
        r@ == spec_lower(v@),
{
    let mut out: Vec<char> = Vec::new();
    let mut i: usize = 0;
    while i < v.len()
        invariant
            i <= v@.len(),
            out@ == spec_lower(v@).subrange(0, i as int),
        decreases v@.len() - i,
    {
        out.push(lower_char(v[i]));
        i = i + 1;
        proof {
            assert(out@ =~= spec_lower(v@).subrange(0, i as int));
        }
    }
    proof {
        assert(out@ =~= spec_lower(v@));
    }
    out
}

/// Append all characters of `src` to `dst`.
pub fn push_chars(dst: &mut Vec<char>, src: &Vec<char>)
    ensures
        final(dst)@ == old(dst)@ + src@,
{
    let mut i: usize = 0;
    while i < src.len()
        invariant
            i <= src@.len(),
            dst@ == old(dst)@ + src@.subrange(0, i as int),
        decreases src@.len() - i,
    {
        dst.push(src[i]);
        i = i + 1;
        proof {
            assert(dst@ =~= old(dst)@ + src@.subrange(0, i as int));
        }
    }
    proof {
        assert(dst@ =~= old(dst)@ + src@);
    }
}

/// `s` with every (left-to-right, non-overlapping) occurrence of `p`
/// removed, as `str::replace(p, "")` computes it.
pub open spec fn spec_remove_pat(s: Seq<char>, p: Seq<char>) -> Seq<char>
    decreases s.len(),
{
    if s.len() == 0 {
        s
    } else if p.len() > 0 && p.len() <= s.len() && s.subrange(0, p.len() as int) == p {
        spec_remove_pat(s.skip(p.len() as int), p)
    } else {
        seq![s[0]] + spec_remove_pat(s.drop_first(), p)
    }
}

/// Remove every occurrence of `p` from `v`, left to right.
pub fn remove_pat(v: &Vec<char>, p: &Vec<char>) -> (r: Vec<char>)
    requires
        p@.len() >= 1,
    ensures
        r@ == spec_remove_pat(v@, p@),
{
    let n = v.len();
    let plen = p.len();
    let mut out: Vec<char> = Vec::new();
    let mut i: usize = 0;
    proof {
        assert(v@.skip(0) =~= v@);
        assert(Seq::<char>::empty() + spec_remove_pat(v@, p@) =~= spec_remove_pat(v@, p@));
    }
    while i < n
        invariant
            i <= n,
            n == v@.len(),
            plen == p@.len() >= 1,
            spec_remove_pat(v@, p@) == out@ + spec_remove_pat(v@.skip(i as int), p@),
        decreases n - i,
    {
        let ghost rest = v@.skip(i as int);
        if plen <= n - i && matches_at(v, p, i) {
            proof {
                assert(rest.subrange(0, plen as int) =~= v@.subrange(i as int, i + plen as int));
                assert(rest.skip(plen as int) =~= v@.skip(i + plen as int));
            }
            i = i + plen;
        } else {
            proof {
                if plen <= n - i {
                    assert(rest.subrange(0, plen as int) =~= v@.subrange(
                        i as int,
                        i + plen as int,
                    ));
                }
                assert(rest.drop_first() =~= v@.skip(i as int + 1));
                assert(rest[0] == v@[i as int]);
            }
            out.push(v[i]);
            i = i + 1;
            proof {
                assert(out@ + spec_remove_pat(v@.skip(i as int), p@) =~= spec_remove_pat(
                    v@,
                    p@,
                ));
            }
        }
    }
    proof {
        assert(v@.skip(n as int) =~= Seq::<char>::empty());
        assert(out@ =~= spec_remove_pat(v@, p@));
    }
    out
}

/// The views of a sequence of strings.
pub open spec fn string_views(s: Seq<String>) -> Seq<Seq<char>> {
    Seq::new(s.len(), |i: int| s[i]@)
}

/// The lines joined from `ls`: each entry followed by one newline.
pub open spec fn spec_join_lines(ls: Seq<Seq<char>>) -> Seq<char>
    decreases ls.len(),
{
    if ls.len() == 0 {
        Seq::empty()
    } else {
        spec_join_lines(ls.drop_last()) + ls.last() + seq!['\n']
    }
}

/// Join the strings of `v` into one text, one line each.
pub fn join_lines(v: &Vec<String>) -> (r: String)
    ensures
        r@ == spec_join_lines(string_views(v@)),
{
    let ghost ls = string_views(v@);
    let mut out: Vec<char> = Vec::new();
    let mut i: usize = 0;
    while i < v.len()
        invariant
            i <= v@.len(),
            ls == string_views(v@),
            out@ == spec_join_lines(ls.subrange(0, i as int)),
        decreases v@.len() - i,
    {
        proof {
            assert(ls.subrange(0, i as int + 1).drop_last() =~= ls.subrange(0, i as int));
        }
        push_str_chars(&mut out, v[i].as_str());
        out.push('\n');
        i = i + 1;
    }
    proof {
        assert(ls.subrange(0, v@.len() as int) =~= ls);
    }
    crate::trusted::chars_to_string(&out)
}

/// Copy the characters of `v` between `from` and `to`.
pub fn sub_chars(v: &Vec<char>, from: usize, to: usize) -> (r: Vec<char>)
    requires
        from <= to <= v@.len(),
    ensures
        r@ == v@.subrange(from as int, to as int),
{
    let mut out: Vec<char> = Vec::new();
    let mut i: usize = from;
    while i < to
        invariant
            from <= i <= to <= v@.len(),
            out@ == v@.subrange(from as int, i as int),
        decreases to - i,
    {
        out.push(v[i]);
        i = i + 1;
        proof {
            assert(out@ =~= v@.subrange(from as int, i as int));
        }
    }
    out
}

/// The character for one decimal digit.
pub open spec fn spec_digit_char(d: nat) -> char {
    ((48 + d) as u8) as char
}

/// The decimal digits of `n`, most significant first, with no leading zero
/// except for `n == 0` itself.
pub open spec fn spec_dec(n: nat) -> Seq<char>
    decreases n,
{
    if n < 10 {
        seq![spec_digit_char(n)]
    } else {
        spec_dec(n / 10).push(spec_digit_char(n % 10))
    }
}

/// `n` zero-padded on the left to at least two digits.
pub open spec fn spec_pad2(n: nat) -> Seq<char> {
    if n < 10 {
        seq!['0'] + spec_dec(n)
    } else {
        spec_dec(n)
    }
}

/// The character for the decimal digit `d`.
pub fn digit_char(d: u8) -> (r: char)
    requires
        d < 10,
    ensures
        r == spec_digit_char(d as nat),
{
    (48 + d) as char
}

/// The decimal digits of `n`.
pub fn dec_chars(n: u64) -> (r: Vec<char>)
    ensures
        r@ == spec_dec(n as nat),
    decreases n,
{
    if n < 10 {
        let mut v: Vec<char> = Vec::new();
        v.push(digit_char(n as u8));
        proof {
            assert(v@ =~= spec_dec(n as nat));
        }
        v
    } else {
        let mut v = dec_chars(n / 10);
        v.push(digit_char((n % 10) as u8));
        v
    }
}

/// The decimal digits of `n`, zero-padded to at least two.
pub fn pad2_chars(n: u64) -> (r: Vec<char>)
    ensures
        r@ == spec_pad2(n as nat),
{
    if n < 10 {
        let mut v: Vec<char> = Vec::new();
        v.push('0');
        let d = dec_chars(n);
        push_chars(&mut v, &d);
        v
    } else {
        dec_chars(n)
    }
}

/// `n` zero-padded on the left to at least three digits.
pub open spec fn spec_pad3(n: nat) -> Seq<char> {
    if n < 10 {
        seq!['0', '0'] + spec_dec(n)
    } else if n < 100 {
        seq!['0'] + spec_dec(n)
    } else {
        spec_dec(n)
    }
}

/// The decimal digits of `n`, zero-padded to at least three.
pub fn pad3_chars(n: u64) -> (r: Vec<char>)
    ensures
        r@ == spec_pad3(n as nat),
{
    let mut v: Vec<char> = Vec::new();
    if n < 10 {
        v.push('0');
        v.push('0');
    } else if n < 100 {
        v.push('0');
    }
    let d = dec_chars(n);
    push_chars(&mut v, &d);
    proof {
        assert(v@ =~= spec_pad3(n as nat));
    }
    v
}

/// Whether `c` is a decimal digit.
pub open spec fn spec_is_digit(c: char) -> bool {
    '0' <= c && c <= '9'
}

/// The value of the digit `c`.
pub open spec fn spec_digit_val(c: char) -> nat {
    ((c as int) - 48) as nat
}

/// Whether every character of `s` is a decimal digit.
pub open spec fn spec_all_digits(s: Seq<char>) -> bool {
    forall|i: int| 0 <= i < s.len() ==> spec_is_digit(s[i])
}

/// The number denoted by the digit sequence `s`, most significant first.
pub open spec fn spec_digits_val(s: Seq<char>) -> nat
    decreases s.len(),
{
    if s.len() == 0 {
        0
    } else {
        spec_digits_val(s.drop_last()) * 10 + spec_digit_val(s.last())
    }
}

/// What `str::parse::<u64>` accepts: an optional leading `'+'`, then one or
/// more decimal digits whose value fits in a `u64`.
pub open spec fn spec_parse_u64(s: Seq<char>) -> Option<u64> {
    let body = if s.len() > 0 && s[0] == '+' {
        s.drop_first()
    } else {
        s
    };
    if body.len() > 0 && spec_all_digits(body) && spec_digits_val(body) <= u64::MAX {
        Some(spec_digits_val(body) as u64)
    } else {
        None
    }
}

/// A digit sequence denotes at least as much as any of its prefixes.
proof fn lemma_digits_val_prefix(s: Seq<char>, i: int)
    requires
        0 <= i <= s.len(),
    ensures
        spec_digits_val(s) >= spec_digits_val(s.subrange(0, i)),
    decreases s.len() - i,
{
    if i < s.len() {
        assert(s.subrange(0, i + 1).drop_last() =~= s.subrange(0, i));
        assert(s.subrange(0, i + 1).last() == s[i]);
        lemma_digits_val_prefix(s, i + 1);
        assert(spec_digits_val(s.subrange(0, i + 1)) == spec_digits_val(s.subrange(0, i)) * 10
            + spec_digit_val(s[i]));
    } else {
        assert(s.subrange(0, i) =~= s);
    }
}

/// Parse the digits of `s` between `from` and `to` as `str::parse::<u64>`
/// would parse that substring.
pub fn parse_u64_range(s: &Vec<char>, from: usize, to: usize) -> (r: Option<u64>)
    requires
        from <= to <= s@.len(),
    ensures
        r == spec_parse_u64(s@.subrange(from as int, to as int)),
{
    let ghost whole = s@.subrange(from as int, to as int);
    let mut start = from;
    if from < to && s[from] == '+' {
        start = from + 1;
    }
    let ghost body = s@.subrange(start as int, to as int);
    proof {
        if whole.len() > 0 && whole[0] == '+' {
            assert(body =~= whole.drop_first());
        } else {
            assert(body =~= whole);
        }
    }
    if start == to {
        return None;
    }
    let mut acc: u64 = 0;
    let mut k: usize = start;
    while k < to
        invariant
            from <= start <= k <= to <= s@.len(),
            whole == s@.subrange(from as int, to as int),
            body == s@.subrange(start as int, to as int),
            body == (if whole.len() > 0 && whole[0] == '+' {
                whole.drop_first()
            } else {
                whole
            }),
            spec_all_digits(body.subrange(0, k - start)),
            acc == spec_digits_val(body.subrange(0, k - start)),
        decreases to - k,
    {
        let c = s[k];
        if !(c >= '0' && c <= '9') {
            proof {
                assert(body[k - start] == c);
            }
            return None;
        }
        let d = (c as u8) - 48;
        proof {
            assert(d as nat == spec_digit_val(c));
        }
        let overflow = if acc > u64::MAX / 10 {
            true
        } else if acc == u64::MAX / 10 && d > 5 {
            true
        } else {
            false
        };
        if overflow {
            proof {
                let p = body.subrange(0, k - start + 1);
                assert(p.drop_last() =~= body.subrange(0, k - start));
                assert(p.last() == c);
                assert(spec_digits_val(p) > u64::MAX);
                lemma_digits_val_prefix(body, k - start + 1);
            }
            return None;
        }
        acc = acc * 10 + (d as u64);
        k = k + 1;
        proof {
            let p = body.subrange(0, k - start);
            assert(p.drop_last() =~= body.subrange(0, k - start - 1));
            assert(p.last() == c);
        }
    }
    proof {
        assert(body.subrange(0, to - start) =~= body);
    }
    Some(acc)
}

/// The pieces of `s` between occurrences of `sep`, as `str::split` yields
/// them: `n` separators give `n + 1` pieces, and empty pieces are kept.
pub open spec fn spec_split(s: Seq<char>, sep: char) -> Seq<Seq<char>>
    decreases s.len(),
{
    if s.len() == 0 {
        seq![Seq::<char>::empty()]
    } else {
        let rest = spec_split(s.drop_first(), sep);
        if s[0] == sep {
            seq![Seq::<char>::empty()] + rest
        } else {
            seq![seq![s[0]] + rest[0]] + rest.drop_first()
        }
    }
}

/// A split always yields at least one piece.
pub proof fn lemma_split_nonempty(s: Seq<char>, sep: char)
    ensures
        spec_split(s, sep).len() >= 1,
    decreases s.len(),
{
    if s.len() > 0 {
        lemma_split_nonempty(s.drop_first(), sep);
    }
}

/// Split the characters of `v` from index `from` on at `sep`.
pub fn split_chars_from(v: &Vec<char>, from: usize, sep: char) -> (r: Vec<Vec<char>>)
    requires
        from <= v@.len(),
    ensures
        r.deep_view() == spec_split(v@.subrange(from as int, v@.len() as int), sep),
    decreases v@.len() - from,
{
    let ghost s = v@.subrange(from as int, v@.len() as int);
    if from == v.len() {
        let mut r: Vec<Vec<char>> = Vec::new();
        r.push(Vec::new());
        proof {
            assert(s =~= Seq::<char>::empty());
            assert(r.deep_view() =~~= spec_split(s, sep));
        }
        r
    } else {
        let c = v[from];
        let mut rest = split_chars_from(v, from + 1, sep);
        let ghost srest = v@.subrange(from as int + 1, v@.len() as int);
        proof {
            assert(srest =~= s.drop_first());
            lemma_split_nonempty(srest, sep);
            assert(rest.deep_view().len() == spec_split(srest, sep).len());
        }
        if c == sep {
            rest.insert(0, Vec::new());
            proof {
                assert(rest.deep_view() =~~= spec_split(s, sep));
            }
            rest
        } else {
            let mut head = rest.remove(0);
            head.insert(0, c);
            rest.insert(0, head);
            proof {
                assert(rest.deep_view() =~~= spec_split(s, sep));
            }
            rest
        }
    }
}

/// Split the characters of the string `s` at `sep`.
pub fn split_str(s: &str, sep: char) -> (r: Vec<Vec<char>>)
    ensures
        r.deep_view() == spec_split(s@, sep),
{
    let v = to_chars(s);
    let r = split_chars_from(&v, 0, sep);
    proof {
        assert(v@.subrange(0, v@.len() as int) =~= s@);
    }
    r
}

/// Append the characters of the string `s` to `dst`.
pub fn push_str_chars(dst: &mut Vec<char>, s: &str)
    ensures
        final(dst)@ == old(dst)@ + s@,
{
    let sv = to_chars(s);
    push_chars(dst, &sv);
}

} // verus!
