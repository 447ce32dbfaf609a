//! Character-sequence utilities for the line-oriented mapping-definition
//! format: separator splitting, literal comparison and decimal parsing,
//! each tied to a specification function over `Seq<char>`.

use vstd::prelude::*;

verus! {

/// Splitting a character sequence at a separator, fields in order; a
/// sequence without the separator is one field, so the result is never
/// empty.
pub open spec fn split_seq(s: Seq<char>, sep: char) -> Seq<Seq<char>>
    decreases s.len(),
{
    if s.len() == 0 {
        seq![Seq::<char>::empty()]
    } else if s[0] == sep {
        seq![Seq::<char>::empty()] + split_seq(s.drop_first(), sep)
    } else {
        let r = split_seq(s.drop_first(), sep);
        r.update(0, seq![s[0]] + r[0])
    }
}

pub proof fn lemma_split_len(s: Seq<char>, sep: char)
    ensures
        split_seq(s, sep).len() >= 1,
    decreases s.len(),
{
    if s.len() > 0 {
        lemma_split_len(s.drop_first(), sep);
    }
}

/// A sequence without the separator splits into itself alone.
pub proof fn lemma_split_nosep(s: Seq<char>, sep: char)
    requires
        forall|i: int| 0 <= i < s.len() ==> s[i] != sep,
    ensures
        split_seq(s, sep) =~~= seq![s],
    decreases s.len(),
{
    if s.len() == 0 {
        assert(split_seq(s, sep) == seq![Seq::<char>::empty()]);
        assert(s =~= Seq::<char>::empty());
    } else {
        lemma_split_nosep(s.drop_first(), sep);
        assert(seq![s[0]] + s.drop_first() =~= s);
    }
}

/// Splitting at the first separator: a separator-free prefix becomes the
/// first field and the rest splits on its own.
pub proof fn lemma_split_sep(pre: Seq<char>, sep: char, rest: Seq<char>)
    requires
        forall|i: int| 0 <= i < pre.len() ==> pre[i] != sep,
    ensures
        split_seq(pre + seq![sep] + rest, sep) =~~= seq![pre] + split_seq(rest, sep),
    decreases pre.len(),
{
    lemma_split_len(rest, sep);
    if pre.len() == 0 {
        let s = pre + seq![sep] + rest;
        assert(s =~= seq![sep] + rest);
        assert(s[0] == sep);
        assert(s.drop_first() =~= rest);
    } else {
        let s = pre + seq![sep] + rest;
        assert(s[0] == pre[0]);
        assert(s[0] != sep);
        assert(s.drop_first() =~= pre.drop_first() + seq![sep] + rest);
        lemma_split_sep(pre.drop_first(), sep, rest);
        let r = split_seq(s.drop_first(), sep);
        assert(r =~~= seq![pre.drop_first()] + split_seq(rest, sep));
        assert(r[0] == pre.drop_first());
        assert(seq![s[0]] + r[0] =~= pre);
        assert(split_seq(s, sep) =~~= r.update(0, pre));
        assert(r.update(0, pre) =~~= seq![pre] + split_seq(rest, sep));
    }
}

/// The index of the first `sep` at or after `start`, if any; everything
/// before it (from `start`) differs from `sep`.
pub fn find_from(v: &Vec<char>, sep: char, start: usize) -> (r: Option<usize>)
    requires
        start <= v@.len(),
    ensures
        match r {
            Some(p) => start <= p < v@.len() && v@[p as int] == sep && (forall|j: int|
                start <= j < p ==> v@[j] != sep),
            None => forall|j: int| start <= j < v@.len() ==> v@[j] != sep,
        },
{
    let mut i: usize = start;
    while i < v.len()
        invariant
            start <= i <= v@.len(),
            forall|j: int| start <= j < i ==> v@[j] != sep,
        decreases v@.len() - i,
    {
        if v[i] == sep {
            return Some(i);
        }
        i = i + 1;
    }
    None
}

/// The fields of `v` split at `sep`, as fresh vectors.
pub fn split_chars(v: &Vec<char>, sep: char) -> (r: Vec<Vec<char>>)
    ensures
        r.deep_view() =~~= split_seq(v@, sep),
        r.len() >= 1,
{
    let mut done: Vec<Vec<char>> = Vec::new();
    let mut cur: Vec<char> = Vec::new();
    let mut i: usize = 0;
    proof {
        assert(done.deep_view() =~~= Seq::<Seq<char>>::empty());
        assert(cur@ + v@.subrange(0, v@.len() as int) =~= v@);
        assert(Seq::<Seq<char>>::empty() + split_seq(v@, sep) =~~= split_seq(v@, sep));
    }
    while i < v.len()
        invariant
            0 <= i <= v@.len(),
            forall|j: int| 0 <= j < cur@.len() ==> cur@[j] != sep,
            split_seq(v@, sep) =~~= done.deep_view() + split_seq(
                cur@ + v@.subrange(i as int, v@.len() as int),
                sep,
            ),
        decreases v@.len() - i,
    {
        let c = v[i];
        let ghost rest2 = v@.subrange(i + 1, v@.len() as int);
        if c == sep {
            proof {
                assert(cur@ + v@.subrange(i as int, v@.len() as int) =~= cur@ + seq![sep] + rest2);
                lemma_split_sep(cur@, sep, rest2);
            }
            let ghost old_done = done.deep_view();
            let ghost old_cur = cur@;
            done.push(cur);
            cur = Vec::new();
            proof {
                assert(done.deep_view() =~~= old_done + seq![old_cur]);
                assert(cur@ + rest2 =~= rest2);
                assert(old_done + (seq![old_cur] + split_seq(rest2, sep)) =~~= (old_done + seq![
                    old_cur,
                ]) + split_seq(rest2, sep));
            }
        } else {
            let ghost old_cur = cur@;
            proof {
                assert(cur@ + v@.subrange(i as int, v@.len() as int) =~= (cur@ + seq![c]) + rest2);
            }
            cur.push(c);
            proof {
                assert(cur@ =~= old_cur + seq![c]);
            }
        }
        i = i + 1;
    }
    proof {
        assert(cur@ + v@.subrange(i as int, v@.len() as int) =~= cur@);
        lemma_split_nosep(cur@, sep);
    }
    let ghost old_done = done.deep_view();
    let ghost old_cur = cur@;
    done.push(cur);
    proof {
        assert(done.deep_view() =~~= old_done + seq![old_cur]);
        assert(old_done + seq![old_cur] =~~= old_done + split_seq(old_cur, sep));
        lemma_split_len(v@, sep);
    }
    done
}

/// The characters of `s`, in order.
pub fn str_to_chars(s: &str) -> (r: Vec<char>)
    ensures
        r@ == s@,
{
    let n = s.unicode_len();
    let mut v: Vec<char> = Vec::new();
    let mut i: usize = 0;
    while i < n
        invariant
            0 <= i <= n,
            n == s@.len(),
            v@ =~= s@.take(i as int),
        decreases n - i,
    {
        let c = s.get_char(i);
        v.push(c);
        i = i + 1;
    }
    proof {
        assert(s@.take(n as int) =~= s@);
    }
    v
}

/// Whether the characters of `v` read exactly as the string `s`.
pub fn chars_eq_str(v: &Vec<char>, s: &str) -> (r: bool)
    ensures
        r == (v@ == s@),
{
    let n = s.unicode_len();
    if v.len() != n {
        return false;
    }
    let mut i: usize = 0;
    while i < n
        invariant
            0 <= i <= n,
            n == s@.len(),
            v@.len() == n,
            forall|j: int| 0 <= j < i ==> v@[j] == s@[j],
        decreases n - i,
    {
        if v[i] != s.get_char(i) {
            return false;
        }
        i = i + 1;
    }
    proof {
        assert(v@ =~= s@);
    }
    true
}

pub open spec fn spec_is_digit(c: char) -> bool {
    48 <= c as u32 <= 57
}

pub open spec fn spec_digit_val(c: char) -> nat {
    (c as u32 - 48) as nat
}

pub open spec fn spec_all_digits(s: Seq<char>) -> bool {
    forall|i: int| 0 <= i < s.len() ==> spec_is_digit(s[i])
}

/// The value of a digit sequence, most significant first; non-digits count
/// as zero, and under `spec_all_digits` there are none.
pub open spec fn spec_dec_val(s: Seq<char>) -> nat
    decreases s.len(),
{
    if s.len() == 0 {
        0
    } else {
        spec_dec_val(s.drop_last()) * 10 + if spec_is_digit(s.last()) {
            spec_digit_val(s.last())
        } else {
            0
        }
    }
}

/// What a decimal numeral denotes: `None` unless the sequence is one or
/// more digits and nothing else.
pub open spec fn spec_parse_dec(s: Seq<char>) -> Option<nat> {
    if s.len() == 0 || !spec_all_digits(s) {
        None
    } else {
        Some(spec_dec_val(s))
    }
}

/// Outcome of parsing a decimal numeral into a `usize`.
#[derive(Clone, Copy, Debug, PartialEq, Eq, Structural)]
pub enum DecParse {
    /// The numeral's value.
    Val(usize),
    /// A well-formed numeral whose value does not fit in `usize`.
    TooBig,
    /// Not a numeral.
    Invalid,
}

proof fn lemma_dec_val_grows(s: Seq<char>)
    requires
        s.len() > 0,
    ensures
        spec_dec_val(s) >= spec_dec_val(s.drop_last()),
{
    assert(spec_dec_val(s) == spec_dec_val(s.drop_last()) * 10 + if spec_is_digit(s.last()) {
        spec_digit_val(s.last())
    } else {
        0nat
    });
}

/// Parses the suffix of `v` from `start` as a decimal numeral.
pub fn parse_dec(v: &Vec<char>, start: usize) -> (r: DecParse)
    requires
        start <= v@.len(),
    ensures
        ({
            let s = v@.subrange(start as int, v@.len() as int);
            match spec_parse_dec(s) {
                None => r == DecParse::Invalid,
                Some(n) => if n <= usize::MAX {
                    r == DecParse::Val(n as usize)
                } else {
                    r == DecParse::TooBig
                },
            }
        }),
{
    let ghost s = v@.subrange(start as int, v@.len() as int);
    if start == v.len() {
        return DecParse::Invalid;
    }
    let mut acc: u128 = 0;
    let mut over: bool = false;
    let mut i: usize = start;
    while i < v.len()
        invariant
            start <= i <= v@.len(),
            s == v@.subrange(start as int, v@.len() as int),
            spec_all_digits(v@.subrange(start as int, i as int)),
            !over ==> acc == spec_dec_val(v@.subrange(start as int, i as int)) && acc <= usize::MAX
                as u128,
            over ==> spec_dec_val(v@.subrange(start as int, i as int)) > usize::MAX,
        decreases v@.len() - i,
    {
        let c = v[i];
        let n = c as u32;
        if n < 48 || n > 57 {
            proof {
                assert(!spec_is_digit(s[i - start]));
            }
            return DecParse::Invalid;
        }
        let d = (n - 48) as u128;
        let ghost prefix = v@.subrange(start as int, i as int);
        let ghost prefix2 = v@.subrange(start as int, i + 1);
        proof {
            assert(prefix2.drop_last() =~= prefix);
            assert(prefix2.last() == v@[i as int]);
        }
        if !over {
            acc = acc * 10 + d;
            if acc > (usize::MAX as u128) {
                over = true;
            }
        } else {
            proof {
                lemma_dec_val_grows(prefix2);
                assert(spec_dec_val(prefix2) >= spec_dec_val(prefix) * 10) by {
                    assert(spec_dec_val(prefix2) == spec_dec_val(prefix) * 10 + spec_digit_val(
                        prefix2.last(),
                    ));
                }
                assert(spec_dec_val(prefix) * 10 >= spec_dec_val(prefix)) by (nonlinear_arith)
                    requires
                        spec_dec_val(prefix) >= 0,
                ;
            }
        }
        i = i + 1;
    }
    proof {
        assert(v@.subrange(start as int, i as int) =~= s);
    }
    if over {
        DecParse::TooBig
    } else {
        DecParse::Val(acc as usize)
    }
}

/// The characters of `v` from `start` (inclusive) to `end` (exclusive), as
/// a fresh vector.
pub fn sub_chars(v: &Vec<char>, start: usize, end: usize) -> (r: Vec<char>)
    requires
        start <= end <= v@.len(),
    ensures
        r@ == v@.subrange(start as int, end as int),
{
    let mut r: Vec<char> = Vec::new();
    let mut i: usize = start;
    while i < end
        invariant
            start <= i <= end <= v@.len(),
            r@ =~= v@.subrange(start as int, i as int),
        decreases end - i,
    {
        r.push(v[i]);
        i = i + 1;
    }
    proof {
        assert(r@ =~= v@.subrange(start as int, end as int));
    }
    r
}

/// The characters of `v` from `start` on, as a fresh vector.
pub fn tail_chars(v: &Vec<char>, start: usize) -> (r: Vec<char>)
    requires
        start <= v@.len(),
    ensures
        r@ == v@.subrange(start as int, v@.len() as int),
{
    let mut r: Vec<char> = Vec::new();
    let mut i: usize = start;
    while i < v.len()
        invariant
            start <= i <= v@.len(),
            r@ =~= v@.subrange(start as int, i as int),
        decreases v@.len() - i,
    {
        r.push(v[i]);
        i = i + 1;
    }
    proof {
        assert(r@ =~= v@.subrange(start as int, v@.len() as int));
    }
    r
}

} // verus!
