//! Character-sequence helpers: decimal formatting of row/column numbers,
//! decimal parsing of protocol tokens, and splitting on a separator, each
//! proved against a direct mathematical description.

use vstd::prelude::*;

verus! {

/// The decimal digit character for a value below ten.
pub open spec fn digit(d: nat) -> char {
    ((48 + d) as u8) as char
}

/// The decimal representation of `n`, most significant digit first.
pub open spec fn dec_seq(n: nat) -> Seq<char>
    decreases n,
{
    if n < 10 {
        seq![digit(n)]
    } else {
        dec_seq(n / 10) + seq![digit(n % 10)]
    }
}

/// Appends the decimal representation of `n` to `out`.
pub fn push_dec(out: &mut Vec<char>, n: u32)
    ensures
        final(out)@ == old(out)@ + dec_seq(n as nat),
    decreases n,
{
    if n >= 10 {
        push_dec(out, n / 10);
        out.push((48 + (n % 10) as u8) as char);
        assert(final(out)@ =~= old(out)@ + dec_seq(n as nat));
    } else {
        out.push((48 + n as u8) as char);
        assert(final(out)@ =~= old(out)@ + dec_seq(n as nat));
    }
}

/// True for the ASCII digits `'0'` through `'9'`.
pub open spec fn is_digit(c: char) -> bool {
    48 <= c as u32 <= 57
}

/// The numeric value of a digit character.
pub open spec fn digit_val(c: char) -> int {
    c as u32 - 48
}

/// Every character of `s` is an ASCII digit.
pub open spec fn all_digits(s: Seq<char>) -> bool {
    forall|i: int| 0 <= i < s.len() ==> is_digit(#[trigger] s[i])
}

/// The value of a digit string, most significant digit first.
pub open spec fn dec_val(s: Seq<char>) -> int
    decreases s.len(),
{
    if s.len() == 0 {
        0
    } else {
        dec_val(s.drop_last()) * 10 + digit_val(s.last())
    }
}

/// What Rust's `str::parse::<i32>` returns: an optional sign followed by
/// at least one digit, rejected when empty, malformed or out of range.
pub open spec fn parse_i32_spec(s: Seq<char>) -> Option<i32> {
    let neg = s.len() > 0 && s[0] == '-';
    let signed = s.len() > 0 && (s[0] == '-' || s[0] == '+');
    let ds = if signed {
        s.skip(1)
    } else {
        s
    };
    if ds.len() == 0 || !all_digits(ds) {
        None
    } else {
        let v = if neg {
            -dec_val(ds)
        } else {
            dec_val(ds)
        };
        if i32::MIN <= v <= i32::MAX {
            Some(v as i32)
        } else {
            None
        }
    }
}

/// The value of a digit string is never negative.
proof fn lemma_dec_val_nonneg(s: Seq<char>)
    requires
        all_digits(s),
    ensures
        dec_val(s) >= 0,
    decreases s.len(),
{
    if s.len() > 0 {
        assert(all_digits(s.drop_last())) by {
            assert(forall|i: int|
                0 <= i < s.drop_last().len() ==> s.drop_last()[i] == #[trigger] s[i]);
        }
        lemma_dec_val_nonneg(s.drop_last());
    }
}

/// Extending a digit string can only grow its value.
proof fn lemma_dec_val_prefix(s: Seq<char>, i: int)
    requires
        all_digits(s),
        0 <= i <= s.len(),
    ensures
        dec_val(s.take(i)) <= dec_val(s),
    decreases s.len() - i,
{
    if i < s.len() {
        lemma_dec_val_prefix(s, i + 1);
        let p = s.take(i);
        let q = s.take(i + 1);
        assert(q.drop_last() =~= p);
        assert(all_digits(p)) by {
            assert(forall|j: int| 0 <= j < p.len() ==> p[j] == #[trigger] s[j]);
        }
        lemma_dec_val_nonneg(p);
        assert(dec_val(q) == dec_val(p) * 10 + digit_val(q.last()));
        assert(dec_val(p) * 10 >= dec_val(p)) by (nonlinear_arith)
            requires
                dec_val(p) >= 0,
        ;
        assert(digit_val(q.last()) >= 0);
    } else {
        assert(s.take(i) =~= s);
    }
}

/// Parses a whole character vector as Rust's `str::parse::<i32>` would.
pub fn parse_i32(t: &Vec<char>) -> (r: Option<i32>)
    ensures
        r == parse_i32_spec(t@),
{
    let n = t.len();
    if n == 0 {
        return None;
    }
    let c0 = t[0];
    let neg = c0 == '-';
    let signed = neg || c0 == '+';
    let start: usize = if signed {
        1
    } else {
        0
    };
    let ghost ds: Seq<char> = if signed {
        t@.skip(1)
    } else {
        t@
    };
    if n == start {
        return None;
    }
    let mut acc: i64 = 0;
    let mut i: usize = start;
    while i < n
        invariant
            start <= i <= n,
            n == t@.len(),
            n >= 1,
            neg == (t@.len() > 0 && t@[0] == '-'),
            signed == (t@.len() > 0 && (t@[0] == '-' || t@[0] == '+')),
            start == if signed { 1int } else { 0int },
            ds == if signed { t@.skip(1) } else { t@ },
            ds.len() == n - start >= 1,
            all_digits(ds.take(i - start)),
            acc == dec_val(ds.take(i - start)),
            0 <= acc <= 2147483648,
        decreases n - i,
    {
        let c = t[i];
        let cv = c as u32;
        if !(48 <= cv && cv <= 57) {
            assert(!is_digit(ds[i - start]));
            return None;
        }
        let d = (cv - 48) as i64;
        acc = acc * 10 + d;
        proof {
            let p = ds.take(i - start);
            let q = ds.take(i + 1 - start);
            assert(q.drop_last() =~= p);
            assert(ds[i - start] == c);
            assert(q.last() == c);
            assert forall|j: int| 0 <= j < q.len() implies is_digit(#[trigger] q[j]) by {
                if j < p.len() {
                    assert(is_digit(p[j]));
                    assert(q[j] == p[j]);
                } else {
                    assert(q[j] == c);
                }
            }
            assert(acc == dec_val(q));
        }
        i = i + 1;
        if acc > 2147483648 {
            proof {
                if all_digits(ds) {
                    lemma_dec_val_prefix(ds, i - start);
                    assert(dec_val(ds) > i32::MAX);
                    assert(-dec_val(ds) < i32::MIN);
                }
            }
            return None;
        }
    }
    assert(ds.take(i - start) =~= ds);
    if neg {
        let v = -acc;
        assert(i32::MIN <= v <= i32::MAX);
        Some(v as i32)
    } else {
        if acc > 2147483647 {
            None
        } else {
            Some(acc as i32)
        }
    }
}

/// Splitting `s` on `sep`, as `str::split` does: always at least one
/// segment, with an empty segment between adjacent separators.
pub open spec fn split_spec(s: Seq<char>, sep: char) -> Seq<Seq<char>>
    decreases s.len(),
{
    if s.len() == 0 {
        seq![Seq::<char>::empty()]
    } else if s[0] == sep {
        seq![Seq::<char>::empty()] + split_spec(s.skip(1), sep)
    } else {
        let r = split_spec(s.skip(1), sep);
        seq![seq![s[0]] + r[0]] + r.skip(1)
    }
}

/// A split always yields at least one segment.
proof fn lemma_split_len(s: Seq<char>, sep: char)
    ensures
        split_spec(s, sep).len() >= 1,
    decreases s.len(),
{
    if s.len() > 0 {
        lemma_split_len(s.skip(1), sep);
    }
}

/// Prepending the unfinished segment `c` to the front of a split.
spec fn glue(c: Seq<char>, r: Seq<Seq<char>>) -> Seq<Seq<char>> {
    seq![c + r[0]] + r.skip(1)
}

/// The views of a sequence of character vectors.
pub open spec fn views(s: Seq<Vec<char>>) -> Seq<Seq<char>> {
    Seq::new(s.len(), |i: int| s[i]@)
}

/// Splits a character vector on `sep`.
pub fn split_at(v: &Vec<char>, sep: char) -> (r: Vec<Vec<char>>)
    ensures
        views(r@) == split_spec(v@, sep),
        r.len() >= 1,
{
    let n = v.len();
    let mut res: Vec<Vec<char>> = Vec::new();
    let mut cur: Vec<char> = Vec::new();
    let mut i: usize = 0;
    proof {
        lemma_split_len(v@, sep);
        assert(v@.skip(0) =~= v@);
        let whole = split_spec(v@, sep);
        assert(glue(cur@, whole) =~= whole);
        assert(views(res@) + whole =~= whole);
    }
    while i < n
        invariant
            0 <= i <= n,
            n == v@.len(),
            split_spec(v@.skip(i as int), sep).len() >= 1,
            split_spec(v@, sep) == views(res@) + glue(cur@, split_spec(v@.skip(i as int), sep)),
        decreases n - i,
    {
        let c = v[i];
        proof {
            assert(v@.skip(i as int).skip(1) =~= v@.skip(i + 1));
            lemma_split_len(v@.skip(i + 1), sep);
        }
        let ghost rest = split_spec(v@.skip(i + 1), sep);
        if c == sep {
            proof {
                let whole = split_spec(v@.skip(i as int), sep);
                assert(whole == seq![Seq::<char>::empty()] + rest);
                assert(glue(cur@, whole) =~= seq![cur@] + rest);
                assert(glue(Seq::<char>::empty(), rest) =~= rest);
                assert(views(res@) + (seq![cur@] + rest) =~= views(res@.push(cur)) + rest) by {
                    assert(views(res@.push(cur)) =~= views(res@).push(cur@));
                }
            }
            res.push(cur);
            cur = Vec::new();
        } else {
            proof {
                let whole = split_spec(v@.skip(i as int), sep);
                assert(whole == seq![seq![c] + rest[0]] + rest.skip(1));
                assert(glue(cur@, whole) =~= glue(cur@.push(c), rest)) by {
                    assert(whole[0] == seq![c] + rest[0]);
                    assert(whole.skip(1) =~= rest.skip(1));
                    assert(cur@ + (seq![c] + rest[0]) =~= (cur@.push(c)) + rest[0]);
                }
            }
            cur.push(c);
        }
        i = i + 1;
    }
    proof {
        assert(v@.skip(n as int) =~= Seq::<char>::empty());
        let empty_split = split_spec(Seq::<char>::empty(), sep);
        assert(empty_split == seq![Seq::<char>::empty()]);
        assert(glue(cur@, empty_split) =~= seq![cur@]);
        assert(views(res@.push(cur)) =~= views(res@).push(cur@));
        assert(views(res@) + seq![cur@] =~= views(res@).push(cur@));
    }
    res.push(cur);
    res
}

/// The index of the first non-digit character of `t`, if any.
pub open spec fn find_nd_spec(t: Seq<char>) -> Option<int>
    decreases t.len(),
{
    if t.len() == 0 {
        None
    } else if !is_digit(t[0]) {
        Some(0int)
    } else {
        match find_nd_spec(t.skip(1)) {
            Option::None => None,
            Option::Some(k) => Some(k + 1),
        }
    }
}

/// Finds the first non-digit character of `t`, if any.
pub fn find_non_digit(t: &Vec<char>) -> (r: Option<usize>)
    ensures
        match r {
            Option::None => find_nd_spec(t@) is None,
            Option::Some(m) => find_nd_spec(t@) == Some(m as int) && m < t@.len(),
        },
{
    let n = t.len();
    let mut i: usize = 0;
    proof {
        assert(t@.skip(0) =~= t@);
    }
    while i < n
        invariant
            0 <= i <= n,
            n == t@.len(),
            find_nd_spec(t@) == match find_nd_spec(t@.skip(i as int)) {
                Option::None => Option::<int>::None,
                Option::Some(k) => Option::<int>::Some(k + i),
            },
        decreases n - i,
    {
        let c = t[i];
        let cv = c as u32;
        proof {
            assert(t@.skip(i as int).skip(1) =~= t@.skip(i + 1));
            assert(t@.skip(i as int)[0] == c);
        }
        if !(48 <= cv && cv <= 57) {
            assert(find_nd_spec(t@.skip(i as int)) == Some(0int));
            return Some(i);
        }
        assert(is_digit(t@.skip(i as int)[0]));
        i = i + 1;
    }
    assert(t@.skip(n as int) =~= Seq::<char>::empty());
    None
}

/// Copies the characters of a string slice into a vector.
pub fn to_chars(s: &str) -> (v: Vec<char>)
    ensures
        v@ == s@,
{
    let n = s.unicode_len();
    let mut v: Vec<char> = Vec::new();
    let mut i: usize = 0;
    while i < n
        invariant
            0 <= i <= n,
            n == s@.len(),
            v@ == s@.take(i as int),
        decreases n - i,
    {
        let c = s.get_char(i);
        v.push(c);
        assert(v@ =~= s@.take(i + 1));
        i = i + 1;
    }
    assert(s@.take(n as int) =~= s@);
    v
}

/// Copies `v[from..]` into a fresh vector.
pub fn tail_chars(v: &Vec<char>, from: usize) -> (r: Vec<char>)
    requires
        from <= v@.len(),
    ensures
        r@ == v@.skip(from as int),
{
    let n = v.len();
    let mut r: Vec<char> = Vec::new();
    let mut i: usize = from;
    while i < n
        invariant
            from <= i <= n,
            n == v@.len(),
            r@ == v@.subrange(from as int, i as int),
        decreases n - i,
    {
        r.push(v[i]);
        assert(r@ =~= v@.subrange(from as int, i + 1));
        i = i + 1;
    }
    assert(v@.subrange(from as int, n as int) =~= v@.skip(from as int));
    r
}

/// Copies `v[..to]` into a fresh vector.
pub fn head_chars(v: &Vec<char>, to: usize) -> (r: Vec<char>)
    requires
        to <= v@.len(),
    ensures
        r@ == v@.take(to as int),
{
    let mut r: Vec<char> = Vec::new();
    let mut i: usize = 0;
    while i < to
        invariant
            0 <= i <= to <= v@.len(),
            r@ == v@.take(i as int),
        decreases to - i,
    {
        r.push(v[i]);
        assert(r@ =~= v@.take(i + 1));
        i = i + 1;
    }
    r
}

} // verus!
