//! Text helpers: markup escaping, substring replacement and decimal numbers.
use vstd::prelude::*;
use vstd::string::*;

use crate::ident::hex_digits;

verus! {

/// Relies on `String::push`: appends one character.
#[verifier::external_body]
pub(crate) fn push_char(s: &mut String, c: char)
    ensures
        final(s)@ == old(s)@.push(c),
{
    s.push(c)
}

/// Relies on `str::replace`: the non-overlapping occurrences of `from`, found
/// from left to right, are each replaced by `to`.
#[verifier::external_body]
pub(crate) fn replace_text(s: &str, from: &str, to: &str) -> (r: String)
    requires
        from@.len() > 0,
    ensures
        r@ == replaced(s@, from@, to@),
{
    s.replace(from, to)
}

/// Relies on `String::from_utf8`: it accepts exactly the valid UTF-8 byte
/// strings, and decodes them.
#[verifier::external_body]
pub(crate) fn text_from_bytes(b: Vec<u8>) -> (r: Option<String>)
    ensures
        r is Some <==> vstd::utf8::valid_utf8(b@),
        r matches Some(s) ==> s@ == vstd::utf8::decode_utf8(b@),
{
    String::from_utf8(b).ok()
}

/// The UTF-8 bytes of a text.
pub fn text_bytes(s: &str) -> (r: Vec<u8>)
    ensures
        r@ == vstd::utf8::encode_utf8(s@),
{
    s.as_bytes_vec()
}

/// `s` with each non-overlapping occurrence of `pat`, scanning from the left,
/// replaced by `with`.
pub open spec fn replaced(s: Seq<char>, pat: Seq<char>, with: Seq<char>) -> Seq<char>
    decreases s.len(),
{
    if pat.len() == 0 || s.len() < pat.len() {
        s
    } else if s.subrange(0, pat.len() as int) == pat {
        with + replaced(s.subrange(pat.len() as int, s.len() as int), pat, with)
    } else {
        seq![s[0]] + replaced(s.subrange(1, s.len() as int), pat, with)
    }
}

/// How one character is written inside markup.
pub open spec fn escaped_char(c: char) -> Seq<char> {
    if c == '&' {
        seq!['&', 'a', 'm', 'p', ';']
    } else if c == '<' {
        seq!['&', 'l', 't', ';']
    } else if c == '>' {
        seq!['&', 'g', 't', ';']
    } else {
        seq![c]
    }
}

/// `s` with `&`, `<` and `>` written as character entities.
pub open spec fn escaped(s: Seq<char>) -> Seq<char>
    decreases s.len(),
{
    if s.len() == 0 {
        Seq::empty()
    } else {
        escaped(s.drop_last()) + escaped_char(s.last())
    }
}

/// The decimal digits of `n`, most significant first, without leading zeros.
pub open spec fn decimal(n: nat) -> Seq<char>
    decreases n,
{
    if n < 10 {
        seq![hex_digits()[n as int]]
    } else {
        decimal(n / 10).push(hex_digits()[(n % 10) as int])
    }
}

fn push_all(out: &mut String, chars: &[char])
    ensures
        final(out)@ == old(out)@ + chars@,
{
    let mut i: usize = 0;
    while i < chars.len()
        invariant
            i <= chars@.len(),
            out@ == old(out)@ + chars@.subrange(0, i as int),
        decreases chars@.len() - i,
    {
        push_char(out, chars[i]);
        assert(chars@.subrange(0, i + 1) =~= chars@.subrange(0, i as int).push(chars@[i as int]));
        i = i + 1;
    }
    assert(chars@.subrange(0, chars@.len() as int) =~= chars@);
}

/// Escapes `&`, `<` and `>` so that the text can stand inside markup.
pub fn encode_text(non_html: &str) -> (r: String)
    ensures
        r@ == escaped(non_html@),
{
    let n = non_html.unicode_len();
    let mut out = String::new();
    let mut i: usize = 0;
    while i < n
        invariant
            n == non_html@.len(),
            i <= n,
            out@ == escaped(non_html@.subrange(0, i as int)),
        decreases n - i,
    {
        let c = non_html.get_char(i);
        let ghost pre = non_html@.subrange(0, i + 1);
        assert(pre.drop_last() =~= non_html@.subrange(0, i as int));
        assert(pre.last() == c);
        if c == '&' {
            push_all(&mut out, &['&', 'a', 'm', 'p', ';']);
        } else if c == '<' {
            push_all(&mut out, &['&', 'l', 't', ';']);
        } else if c == '>' {
            push_all(&mut out, &['&', 'g', 't', ';']);
        } else {
            push_char(&mut out, c);
        }
        assert(out@ =~= escaped(pre));
        i = i + 1;
    }
    assert(non_html@.subrange(0, n as int) =~= non_html@);
    out
}

fn digit(d: u128) -> (c: char)
    requires
        d < 10,
    ensures
        c == hex_digits()[d as int],
{
    if d == 0 {
        '0'
    } else if d == 1 {
        '1'
    } else if d == 2 {
        '2'
    } else if d == 3 {
        '3'
    } else if d == 4 {
        '4'
    } else if d == 5 {
        '5'
    } else if d == 6 {
        '6'
    } else if d == 7 {
        '7'
    } else if d == 8 {
        '8'
    } else {
        '9'
    }
}

/// Appends the decimal digits of `n`.
pub fn write_decimal(out: &mut String, n: u128)
    ensures
        final(out)@ == old(out)@ + decimal(n as nat),
    decreases n,
{
    if n >= 10 {
        write_decimal(out, n / 10);
        push_char(out, digit(n % 10));
        assert(decimal(n as nat) == decimal((n / 10) as nat).push(hex_digits()[(n % 10) as int]));
    } else {
        push_char(out, digit(n));
    }
}

/// The decimal text of `n`.
pub fn decimal_text(n: u128) -> (r: String)
    ensures
        r@ == decimal(n as nat),
{
    let mut out = String::new();
    write_decimal(&mut out, n);
    assert(out@ =~= decimal(n as nat));
    out
}

/// `k` occurs somewhere in `t`.
pub open spec fn occurs(t: Seq<char>, k: Seq<char>) -> bool {
    exists|i: int| 0 <= i && i + k.len() <= t.len() && #[trigger] t.subrange(i, i + k.len()) == k
}

/// No character of `v` occurs in `k`.
pub open spec fn share_no_char(v: Seq<char>, k: Seq<char>) -> bool {
    forall|i: int, j: int| 0 <= i < v.len() && 0 <= j < k.len() ==> v[i] != k[j]
}

/// Every character of `w` occurs in `k`.
pub open spec fn chars_from(w: Seq<char>, k: Seq<char>) -> bool {
    forall|j: int| 0 <= j < w.len() ==> k.contains(#[trigger] w[j])
}

/// A prefix of the rewritten text made only of characters of the pattern was
/// already there before rewriting.
proof fn lemma_prefix_kept(x: Seq<char>, k: Seq<char>, v: Seq<char>, w: Seq<char>)
    requires
        k.len() > 0,
        v.len() > 0,
        share_no_char(v, k),
        w.len() <= replaced(x, k, v).len(),
        replaced(x, k, v).subrange(0, w.len() as int) == w,
        chars_from(w, k),
    ensures
        w.len() <= x.len(),
        x.subrange(0, w.len() as int) == w,
    decreases x.len(),
{
    let r = replaced(x, k, v);
    if w.len() == 0 {
        assert(x.subrange(0, 0) =~= w);
    } else if x.len() < k.len() {
    } else if x.subrange(0, k.len() as int) == k {
        assert(r[0] == v[0]);
        assert(r.subrange(0, w.len() as int)[0] == w[0]);
        assert(k.contains(w[0]));
        let p = choose|p: int| 0 <= p < k.len() && k[p] == w[0];
        assert(v[0] != k[p]);
    } else {
        let rest = x.subrange(1, x.len() as int);
        let rr = replaced(rest, k, v);
        assert(r == seq![x[0]] + rr);
        let w2 = w.drop_first();
        assert(rr.subrange(0, w2.len() as int) =~= r.subrange(0, w.len() as int).drop_first());
        assert forall|j: int| 0 <= j < w2.len() implies k.contains(#[trigger] w2[j]) by {
            assert(w2[j] == w[j + 1]);
        }
        assert(chars_from(w2, k));
        lemma_prefix_kept(rest, k, v, w2);
        assert(r.subrange(0, w.len() as int)[0] == w[0]);
        assert(x.subrange(0, w.len() as int) =~= seq![x[0]] + rest.subrange(0, w2.len() as int));
        assert(x.subrange(0, w.len() as int) =~= w);
    }
}

/// Rewriting every occurrence of `k` with a non-empty `v` that shares no
/// character with `k` leaves no occurrence of `k` behind.
pub proof fn lemma_rewrite_leaves_no_occurrence(s: Seq<char>, k: Seq<char>, v: Seq<char>)
    requires
        k.len() > 0,
        v.len() > 0,
        share_no_char(v, k),
    ensures
        !occurs(replaced(s, k, v), k),
    decreases s.len(),
{
    let t = replaced(s, k, v);
    if s.len() < k.len() {
    } else if s.subrange(0, k.len() as int) == k {
        let rest = s.subrange(k.len() as int, s.len() as int);
        let rr = replaced(rest, k, v);
        lemma_rewrite_leaves_no_occurrence(rest, k, v);
        assert(t == v + rr);
        if occurs(t, k) {
            let i = choose|i: int|
                0 <= i && i + k.len() <= t.len() && #[trigger] t.subrange(i, i + k.len()) == k;
            if i < v.len() {
                assert(t.subrange(i, i + k.len())[0] == t[i]);
                assert(t[i] == v[i]);
                assert(v[i] != k[0]);
            } else {
                assert(rr.subrange(i - v.len(), i - v.len() + k.len()) =~= t.subrange(
                    i,
                    i + k.len(),
                ));
            }
        }
    } else {
        let rest = s.subrange(1, s.len() as int);
        let rr = replaced(rest, k, v);
        lemma_rewrite_leaves_no_occurrence(rest, k, v);
        assert(t == seq![s[0]] + rr);
        if occurs(t, k) {
            let i = choose|i: int|
                0 <= i && i + k.len() <= t.len() && #[trigger] t.subrange(i, i + k.len()) == k;
            if i >= 1 {
                assert(rr.subrange(i - 1, i - 1 + k.len()) =~= t.subrange(i, i + k.len()));
            } else {
                let w = k.drop_first();
                assert(rr.subrange(0, w.len() as int) =~= t.subrange(0, k.len() as int).drop_first());
                assert forall|j: int| 0 <= j < w.len() implies k.contains(#[trigger] w[j]) by {
                    assert(k[j + 1] == w[j]);
                }
                assert(chars_from(w, k));
                lemma_prefix_kept(rest, k, v, w);
                assert(t.subrange(0, k.len() as int)[0] == s[0]);
                assert(s.subrange(0, k.len() as int) =~= seq![s[0]] + rest.subrange(
                    0,
                    w.len() as int,
                ));
                assert(s.subrange(0, k.len() as int) =~= k);
            }
        }
    }
}

} // verus!
