//! Verified string helpers shared by the query builder: joining segments,
//! the placeholder replacement pass, decimal rendering and lexicographic
//! comparison of keys.

use vstd::prelude::*;

verus! {

/// The views of `segs` joined with a single space between consecutive entries.
pub open spec fn spec_join(segs: Seq<Seq<char>>) -> Seq<char>
    decreases segs.len(),
{
    if segs.len() == 0 {
        Seq::empty()
    } else if segs.len() == 1 {
        segs[0]
    } else {
        segs[0] + seq![' '] + spec_join(segs.skip(1))
    }
}

/// `text` with every non-overlapping occurrence of `key` replaced by `val`,
/// scanning left to right. An empty `key` leaves the text unchanged.
pub open spec fn spec_replace(text: Seq<char>, key: Seq<char>, val: Seq<char>) -> Seq<char>
    decreases text.len(),
{
    if key.len() == 0 || text.len() < key.len() {
        text
    } else if text.take(key.len() as int) == key {
        val + spec_replace(text.skip(key.len() as int), key, val)
    } else {
        seq![text[0]] + spec_replace(text.skip(1), key, val)
    }
}

/// `text` after applying each `(key, value)` replacement pass in order.
pub open spec fn spec_apply_params(
    text: Seq<char>,
    params: Seq<(Seq<char>, Seq<char>)>,
) -> Seq<char>
    decreases params.len(),
{
    if params.len() == 0 {
        text
    } else {
        spec_apply_params(spec_replace(text, params[0].0, params[0].1), params.skip(1))
    }
}

/// The decimal digit character for `d` (meaningful for `0 <= d <= 9`).
pub open spec fn dec_digit(d: int) -> char {
    ((d + 48) as u8) as char
}

/// The decimal rendering of a non-negative integer, most significant digit
/// first, without leading zeros (`0` renders as `"0"`).
pub open spec fn spec_dec(n: int) -> Seq<char>
    decreases n,
{
    if n < 10 {
        seq![dec_digit(if n < 0 { 0 } else { n })]
    } else {
        spec_dec(n / 10) + seq![dec_digit(n % 10)]
    }
}

/// Strict lexicographic order on character sequences, by code point.
pub open spec fn lex_lt(a: Seq<char>, b: Seq<char>) -> bool
    decreases a.len(),
{
    if b.len() == 0 {
        false
    } else if a.len() == 0 {
        true
    } else if (a[0] as u32) < (b[0] as u32) {
        true
    } else if a[0] == b[0] {
        lex_lt(a.skip(1), b.skip(1))
    } else {
        false
    }
}

/// `s` with every `'.'` replaced by `'_'` (parameter names may not hold dots).
pub open spec fn spec_undot(s: Seq<char>) -> Seq<char> {
    s.map_values(|c: char| if c == '.' { '_' } else { c })
}

/// Relies on `core::iter::Iterator::collect` via `String::from_iter`:
/// collecting characters yields the string of exactly those characters.
#[verifier::external_body]
pub fn chars_to_string(v: &Vec<char>) -> (r: String)
    ensures
        r@ == v@,
{
    v.iter().collect()
}

/// Relies on `str::chars` followed by `core::iter::Iterator::collect`:
/// the characters of a string slice, in order.
#[verifier::external_body]
pub fn str_to_chars(s: &str) -> (r: Vec<char>)
    ensures
        r@ == s@,
{
    s.chars().collect()
}

/// Joins a vector of strings with single spaces, in order.
pub fn join_with_spaces(segs: &Vec<String>) -> (r: String)
    ensures
        r@ == spec_join(segs@.map(|_i: int, s: String| s@)),
{
    let ghost views = segs@.map(|_i: int, s: String| s@);
    let mut out = String::new();
    let mut i: usize = 0;
    while i < segs.len()
        invariant
            i <= segs.len(),
            views == segs@.map(|_i: int, s: String| s@),
            out@ == spec_join(views.take(i as int)),
        decreases segs.len() - i,
    {
        if i > 0 {
            out.append(" ");
            proof {
                reveal_strlit(" ");
            }
        }
        out.append(segs[i].as_str());
        proof {
            lemma_join_push(views, i as int);
        }
        i = i + 1;
    }
    proof {
        assert(views.take(segs.len() as int) =~= views);
    }
    out
}

proof fn lemma_join_push(views: Seq<Seq<char>>, i: int)
    requires
        0 <= i < views.len(),
    ensures
        i == 0 ==> spec_join(views.take(1)) == views[0],
        i > 0 ==> spec_join(views.take(i + 1)) == spec_join(views.take(i)) + seq![' ']
            + views[i],
    decreases i,
{
    if i == 0 {
        assert(views.take(1).len() == 1);
        assert(spec_join(views.take(1)) == views.take(1)[0]);
    } else {
        let pre = views.take(i + 1);
        assert(pre.len() >= 2);
        assert(pre[0] == views[0]);
        assert(pre.skip(1) =~= views.skip(1).take(i));
        lemma_join_push(views.skip(1), i - 1);
        if i == 1 {
            assert(spec_join(views.take(1)) == views[0]);
            assert(views.skip(1).take(1)[0] == views[1]);
            assert(spec_join(views.skip(1).take(1)) == views[1]);
        } else {
            assert(views.take(i)[0] == views[0]);
            assert(views.take(i).skip(1) =~= views.skip(1).take(i - 1));
        }
    }
}

/// Whether the characters of `text` starting at `at` spell out `key`.
pub fn match_at(text: &Vec<char>, at: usize, key: &Vec<char>) -> (r: bool)
    requires
        at + key@.len() <= text@.len(),
    ensures
        r == (text@.subrange(at as int, at + key@.len()) == key@),
{
    let n = text.len();
    let mut j: usize = 0;
    while j < key.len()
        invariant
            j <= key@.len(),
            at + key@.len() <= text@.len(),
            n == text@.len(),
            forall|m: int| 0 <= m < j ==> text@[at + m] == key@[m],
        decreases key.len() - j,
    {
        assert(at + j < n);
        if text[at + j] != key[j] {
            assert(text@.subrange(at as int, at + key@.len())[j as int] != key@[j as int]);
            return false;
        }
        j = j + 1;
    }
    assert(text@.subrange(at as int, at + key@.len()) =~= key@);
    true
}

/// Replaces every occurrence of `key` in `text` by `val`, scanning once from
/// left to right; occurrences inside already-substituted text are kept.
pub fn replace_chars(text: &Vec<char>, key: &Vec<char>, val: &Vec<char>) -> (r: Vec<char>)
    ensures
        r@ == spec_replace(text@, key@, val@),
{
    if key.len() == 0 {
        let mut out: Vec<char> = Vec::new();
        let mut i: usize = 0;
        while i < text.len()
            invariant
                i <= text@.len(),
                out@ == text@.take(i as int),
            decreases text.len() - i,
        {
            out.push(text[i]);
            i = i + 1;
        }
        assert(text@.take(text@.len() as int) =~= text@);
        return out;
    }
    let mut out: Vec<char> = Vec::new();
    let mut i: usize = 0;
    proof {
        assert(text@.skip(0) =~= text@);
        assert(out@ + spec_replace(text@, key@, val@) =~= spec_replace(text@, key@, val@));
    }
    while i < text.len()
        invariant
            i <= text@.len(),
            key@.len() > 0,
            spec_replace(text@, key@, val@) == out@ + spec_replace(
                text@.skip(i as int),
                key@,
                val@,
            ),
        decreases text.len() - i,
    {
        let remaining = text.len() - i;
        if key.len() <= remaining && match_at(text, i, key) {
            proof {
                let rest = text@.skip(i as int);
                assert(rest.take(key@.len() as int) =~= text@.subrange(
                    i as int,
                    i + key@.len(),
                ));
                assert(rest.skip(key@.len() as int) =~= text@.skip(i + key@.len()));
            }
            let ghost pre = out@;
            let mut j: usize = 0;
            while j < val.len()
                invariant
                    j <= val@.len(),
                    out@ == pre + val@.take(j as int),
                decreases val.len() - j,
            {
                out.push(val[j]);
                proof {
                    assert(out@ =~= pre + val@.take(j as int + 1));
                }
                j = j + 1;
            }
            proof {
                assert(val@.take(val@.len() as int) =~= val@);
                assert((pre + val@) + spec_replace(text@.skip(i + key@.len()), key@, val@)
                    =~= pre + (val@ + spec_replace(text@.skip(i + key@.len()), key@, val@)));
            }
            i = i + key.len();
        } else {
            let ghost pre = out@;
            proof {
                let rest = text@.skip(i as int);
                assert(rest.len() > 0);
                assert(rest[0] == text@[i as int]);
                if key@.len() <= rest.len() {
                    assert(rest.take(key@.len() as int) =~= text@.subrange(
                        i as int,
                        i + key@.len(),
                    ));
                }
                assert(rest.skip(1) =~= text@.skip(i + 1));
            }
            out.push(text[i]);
            proof {
                assert(out@ =~= pre + seq![text@[i as int]]);
                assert((pre + seq![text@[i as int]]) + spec_replace(
                    text@.skip(i + 1),
                    key@,
                    val@,
                ) =~= pre + (seq![text@[i as int]] + spec_replace(
                    text@.skip(i + 1),
                    key@,
                    val@,
                )));
            }
            i = i + 1;
        }
    }
    proof {
        assert(text@.skip(text@.len() as int) =~= Seq::<char>::empty());
        assert(out@ + spec_replace(Seq::<char>::empty(), key@, val@) =~= out@);
    }
    out
}

/// Replaces every occurrence of `key` in `text` by `val` (see
/// [`spec_replace`] for the exact statement).
pub fn replace_str(text: &str, key: &str, val: &str) -> (r: String)
    ensures
        r@ == spec_replace(text@, key@, val@),
{
    let t = str_to_chars(text);
    let k = str_to_chars(key);
    let v = str_to_chars(val);
    let out = replace_chars(&t, &k, &v);
    chars_to_string(&out)
}

/// Renders `n` in decimal, without leading zeros.
pub fn u64_to_string(n: u64) -> (r: String)
    ensures
        r@ == spec_dec(n as int),
{
    let mut digits: Vec<char> = Vec::new();
    let mut m = n;
    proof {
        assert(spec_dec(n as int) + Seq::<char>::empty() =~= spec_dec(n as int));
    }
    loop
        invariant
            m > 0 ==> spec_dec(n as int) == spec_dec(m as int) + digits@,
            m == 0 ==> (digits@.len() > 0 && spec_dec(n as int) == digits@) || (digits@.len()
                == 0 && n == 0),
        ensures
            spec_dec(n as int) == digits@,
        decreases m,
    {
        if m == 0 && digits.len() > 0 {
            break;
        }
        if m == 0 {
            digits.insert(0, '0');
            proof {
                assert(spec_dec(0) =~= seq![dec_digit(0)]);
                assert(dec_digit(0) == '0');
                assert(digits@ =~= spec_dec(0));
            }
            break;
        }
        let d = (m % 10) as u8;
        let c = (d + 48) as char;
        let ghost pre = digits@;
        digits.insert(0, c);
        proof {
            assert(c == dec_digit(m as int % 10));
            assert(digits@ =~= seq![c] + pre);
            if m >= 10 {
                assert(spec_dec(m as int) == spec_dec(m as int / 10) + seq![
                    dec_digit(m as int % 10),
                ]);
                assert(spec_dec(m as int / 10) + (seq![c] + pre) =~= (spec_dec(
                    m as int / 10,
                ) + seq![c]) + pre);
            } else {
                assert(spec_dec(m as int) =~= seq![dec_digit(m as int)]);
                assert(seq![c] + pre =~= spec_dec(m as int) + pre);
            }
        }
        m = m / 10;
    }
    chars_to_string(&digits)
}

/// Whether two string slices hold the same characters.
pub fn str_eq(a: &str, b: &str) -> (r: bool)
    ensures
        r == (a@ == b@),
{
    let av = str_to_chars(a);
    let bv = str_to_chars(b);
    if av.len() != bv.len() {
        return false;
    }
    let mut i: usize = 0;
    while i < av.len()
        invariant
            i <= av@.len(),
            av@.len() == bv@.len(),
            av@ == a@,
            bv@ == b@,
            forall|m: int| 0 <= m < i ==> av@[m] == bv@[m],
        decreases av.len() - i,
    {
        if av[i] != bv[i] {
            return false;
        }
        i = i + 1;
    }
    proof {
        assert(a@ =~= b@);
    }
    true
}

/// Whether `a` comes strictly before `b` in lexicographic code-point order.
pub fn str_lt(a: &str, b: &str) -> (r: bool)
    ensures
        r == lex_lt(a@, b@),
{
    let av = str_to_chars(a);
    let bv = str_to_chars(b);
    let mut i: usize = 0;
    proof {
        assert(av@.skip(0) =~= av@);
        assert(bv@.skip(0) =~= bv@);
    }
    loop
        invariant
            i <= av@.len(),
            i <= bv@.len(),
            av@ == a@,
            bv@ == b@,
            lex_lt(a@, b@) == lex_lt(av@.skip(i as int), bv@.skip(i as int)),
        decreases av.len() - i,
    {
        if i == bv.len() {
            proof {
                assert(bv@.skip(i as int).len() == 0);
            }
            return false;
        }
        if i == av.len() {
            proof {
                assert(av@.skip(i as int).len() == 0);
                assert(bv@.skip(i as int).len() > 0);
            }
            return true;
        }
        let ca = av[i];
        let cb = bv[i];
        proof {
            assert(av@.skip(i as int)[0] == av@[i as int]);
            assert(bv@.skip(i as int)[0] == bv@[i as int]);
            assert(av@.skip(i as int).skip(1) =~= av@.skip(i as int + 1));
            assert(bv@.skip(i as int).skip(1) =~= bv@.skip(i as int + 1));
        }
        if (ca as u32) < (cb as u32) {
            return true;
        }
        if ca != cb {
            return false;
        }
        i = i + 1;
    }
}

/// `s` with every `'.'` replaced by `'_'`.
pub fn undot(s: &str) -> (r: String)
    ensures
        r@ == spec_undot(s@),
{
    let v = str_to_chars(s);
    let mut out: Vec<char> = Vec::new();
    let mut i: usize = 0;
    while i < v.len()
        invariant
            i <= v@.len(),
            v@ == s@,
            out@ =~= s@.take(i as int).map_values(|c: char| if c == '.' { '_' } else { c }),
        decreases v.len() - i,
    {
        let c = v[i];
        if c == '.' {
            out.push('_');
        } else {
            out.push(c);
        }
        proof {
            assert(out@ =~= s@.take(i as int + 1).map_values(
                |c: char| if c == '.' { '_' } else { c },
            ));
        }
        i = i + 1;
    }
    proof {
        assert(s@.take(s@.len() as int) =~= s@);
    }
    chars_to_string(&out)
}

} // verus!
