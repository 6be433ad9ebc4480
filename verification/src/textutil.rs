//! Small verified string utilities: equality, substring containment, and
//! rendering of unsigned integers in decimal. These back the contracts of the
//! text-heavy modules.

use vstd::prelude::*;
use vstd::string::*;

verus! {

/// Whether `p` occurs in `t` starting at character index `i`.
pub open spec fn occurs_at(t: Seq<char>, p: Seq<char>, i: int) -> bool {
    &&& 0 <= i
    &&& i + p.len() <= t.len()
    &&& t.subrange(i, i + p.len() as int) == p
}

/// Whether `p` occurs anywhere in `t`.
pub open spec fn contains_seq(t: Seq<char>, p: Seq<char>) -> bool {
    exists|i: int| occurs_at(t, p, i)
}

/// The views of a sequence of owned strings.
pub open spec fn views_of(v: Seq<String>) -> Seq<Seq<char>> {
    v.map_values(|s: String| s@)
}

/// Character-for-character string equality.
pub fn str_eq(a: &str, b: &str) -> (r: bool)
    ensures
        r == (a@ == b@),
{
    let an = a.unicode_len();
    let bn = b.unicode_len();
    if an != bn {
        proof {
            assert(a@ != b@) by {
                if a@ == b@ {
                    assert(a@.len() == b@.len());
                }
            }
        }
        return false;
    }
    let mut i: usize = 0;
    while i < an
        invariant
            an == a@.len(),
            an == b@.len(),
            i <= an,
            forall|j: int| 0 <= j < i ==> a@[j] == b@[j],
        decreases an - i,
    {
        if a.get_char(i) != b.get_char(i) {
            return false;
        }
        i = i + 1;
    }
    proof {
        assert(a@ =~= b@);
    }
    true
}

/// Whether `p` occurs in `t` starting exactly at character index `i`.
fn matches_at(t: &str, p: &str, i: usize) -> (r: bool)
    requires
        i + p@.len() <= t@.len(),
    ensures
        r == occurs_at(t@, p@, i as int),
{
    let tn = t.unicode_len();
    let m = p.unicode_len();
    let mut j: usize = 0;
    while j < m
        invariant
            tn == t@.len(),
            m == p@.len(),
            i + m <= t@.len(),
            j <= m,
            forall|k: int| 0 <= k < j ==> t@[i + k] == p@[k],
        decreases m - j,
    {
        if t.get_char(i + j) != p.get_char(j) {
            proof {
                assert(!occurs_at(t@, p@, i as int)) by {
                    if occurs_at(t@, p@, i as int) {
                        assert(t@.subrange(i as int, i + p@.len() as int)[j as int] == p@[j as int]);
                    }
                }
            }
            return false;
        }
        j = j + 1;
    }
    proof {
        assert(t@.subrange(i as int, i + p@.len() as int) =~= p@);
    }
    true
}

/// Substring search: whether `p` occurs anywhere in `t`.
pub fn contains_sub(t: &str, p: &str) -> (r: bool)
    ensures
        r == contains_seq(t@, p@),
{
    let n = t.unicode_len();
    let m = p.unicode_len();
    if m > n {
        proof {
            assert(!contains_seq(t@, p@)) by {
                if contains_seq(t@, p@) {
                    let i = choose|i: int| occurs_at(t@, p@, i);
                    assert(i + p@.len() <= t@.len());
                }
            }
        }
        return false;
    }
    if m == 0 {
        proof {
            assert(t@.subrange(0, 0) =~= p@);
            assert(occurs_at(t@, p@, 0));
        }
        return true;
    }
    let mut i: usize = 0;
    while n - i >= m
        invariant
            n == t@.len(),
            m == p@.len(),
            0 < m <= n,
            i <= n - m + 1,
            forall|k: int| 0 <= k < i ==> !occurs_at(t@, p@, k),
        decreases n - i,
    {
        if matches_at(t, p, i) {
            proof {
                assert(contains_seq(t@, p@));
            }
            return true;
        }
        i = i + 1;
    }
    proof {
        assert(!contains_seq(t@, p@)) by {
            if contains_seq(t@, p@) {
                let k = choose|k: int| occurs_at(t@, p@, k);
                assert(!occurs_at(t@, p@, k));
            }
        }
    }
    false
}

/// Whether one of the owned strings in `v` equals `s`.
pub fn vec_contains_str(v: &Vec<String>, s: &str) -> (r: bool)
    ensures
        r == views_of(v@).contains(s@),
{
    let mut i: usize = 0;
    while i < v.len()
        invariant
            i <= v@.len(),
            forall|j: int| 0 <= j < i ==> views_of(v@)[j] != s@,
        decreases v@.len() - i,
    {
        if str_eq(v[i].as_str(), s) {
            proof {
                assert(views_of(v@)[i as int] == s@);
            }
            return true;
        }
        i = i + 1;
    }
    proof {
        assert(!views_of(v@).contains(s@)) by {
            if views_of(v@).contains(s@) {
                let j = choose|j: int| 0 <= j < views_of(v@).len() && views_of(v@)[j] == s@;
                assert(views_of(v@)[j] != s@);
            }
        }
    }
    false
}

/// `items` joined by `sep`: nothing between zero items, no trailing
/// separator.
pub open spec fn joined_with(items: Seq<Seq<char>>, sep: Seq<char>) -> Seq<char>
    decreases items.len(),
{
    if items.len() == 0 {
        Seq::empty()
    } else {
        items[0] + joined_tail(items.drop_first(), sep)
    }
}

pub open spec fn joined_tail(items: Seq<Seq<char>>, sep: Seq<char>) -> Seq<char>
    decreases items.len(),
{
    if items.len() == 0 {
        Seq::empty()
    } else {
        sep + items[0] + joined_tail(items.drop_first(), sep)
    }
}

pub proof fn lemma_joined_with_snoc(items: Seq<Seq<char>>, sep: Seq<char>, x: Seq<char>)
    ensures
        joined_with(items.push(x), sep) == if items.len() == 0 {
            x
        } else {
            joined_with(items, sep) + sep + x
        },
    decreases items.len(),
{
    if items.len() == 0 {
        assert(items.push(x)[0] == x);
        assert(items.push(x).drop_first() =~= Seq::<Seq<char>>::empty());
        assert(joined_tail(Seq::<Seq<char>>::empty(), sep) =~= Seq::<char>::empty());
        assert(joined_with(items.push(x), sep) =~= x);
    } else {
        assert(items.push(x)[0] == items[0]);
        assert(items.push(x).drop_first() =~= items.drop_first().push(x));
        lemma_joined_tail_snoc(items.drop_first(), sep, x);
        assert(items[0] + (joined_tail(items.drop_first(), sep) + sep + x) =~= joined_with(
            items,
            sep,
        ) + sep + x);
    }
}

proof fn lemma_joined_tail_snoc(items: Seq<Seq<char>>, sep: Seq<char>, x: Seq<char>)
    ensures
        joined_tail(items.push(x), sep) == joined_tail(items, sep) + sep + x,
    decreases items.len(),
{
    if items.len() == 0 {
        assert(items.push(x)[0] == x);
        assert(items.push(x).drop_first() =~= Seq::<Seq<char>>::empty());
        assert(joined_tail(Seq::<Seq<char>>::empty(), sep) =~= Seq::<char>::empty());
        assert(joined_tail(items.push(x), sep) =~= sep + x);
        assert(joined_tail(items, sep) + sep + x =~= sep + x);
    } else {
        assert(items.push(x)[0] == items[0]);
        assert(items.push(x).drop_first() =~= items.drop_first().push(x));
        lemma_joined_tail_snoc(items.drop_first(), sep, x);
        assert(sep + items[0] + (joined_tail(items.drop_first(), sep) + sep + x) =~= joined_tail(
            items,
            sep,
        ) + sep + x);
    }
}

/// Joins owned strings with a separator.
pub fn join_strings(v: &Vec<String>, sep: &str) -> (r: String)
    ensures
        r@ == joined_with(views_of(v@), sep@),
{
    let mut out = String::new();
    let mut i: usize = 0;
    proof {
        assert(views_of(v@).take(0) =~= Seq::<Seq<char>>::empty());
        assert(out@ =~= joined_with(views_of(v@).take(0), sep@));
    }
    while i < v.len()
        invariant
            i <= v@.len(),
            out@ == joined_with(views_of(v@).take(i as int), sep@),
        decreases v@.len() - i,
    {
        let ghost done = views_of(v@).take(i as int);
        if i > 0 {
            out.append(sep);
        }
        out.append(v[i].as_str());
        proof {
            lemma_joined_with_snoc(done, sep@, v@[i as int]@);
            assert(done.push(v@[i as int]@) =~= views_of(v@).take(i as int + 1));
            if i == 0 {
                assert(out@ =~= joined_with(views_of(v@).take(1), sep@));
            }
        }
        i = i + 1;
    }
    proof {
        assert(views_of(v@).take(v@.len() as int) =~= views_of(v@));
    }
    out
}

/// The concatenation of `f` over the elements of `s`, in order.
pub open spec fn concat_map<T>(s: Seq<T>, f: spec_fn(T) -> Seq<char>) -> Seq<char>
    decreases s.len(),
{
    if s.len() == 0 {
        Seq::empty()
    } else {
        f(s[0]) + concat_map(s.drop_first(), f)
    }
}

pub proof fn lemma_concat_map_snoc<T>(s: Seq<T>, f: spec_fn(T) -> Seq<char>, x: T)
    ensures
        concat_map(s.push(x), f) == concat_map(s, f) + f(x),
    decreases s.len(),
{
    if s.len() == 0 {
        assert(s.push(x)[0] == x);
        assert(s.push(x).drop_first() =~= Seq::<T>::empty());
        assert(concat_map(Seq::<T>::empty(), f) =~= Seq::<char>::empty());
        assert(concat_map(s.push(x), f) =~= f(x));
        assert(concat_map(s, f) + f(x) =~= f(x));
    } else {
        assert(s.push(x)[0] == s[0]);
        assert(s.push(x).drop_first() =~= s.drop_first().push(x));
        lemma_concat_map_snoc(s.drop_first(), f, x);
        assert(f(s[0]) + (concat_map(s.drop_first(), f) + f(x)) =~= concat_map(s, f) + f(x));
    }
}

/// The decimal digit character for `d`.
pub open spec fn digit_char(d: int) -> char
    recommends
        0 <= d < 10,
{
    "0123456789"@[d]
}

/// The decimal rendering of `n`, most significant digit first.
pub open spec fn dec_rep(n: nat) -> Seq<char>
    decreases n,
{
    if n < 10 {
        seq![digit_char(n as int)]
    } else {
        dec_rep(n / 10) + seq![digit_char((n % 10) as int)]
    }
}

/// Renders `n` in decimal.
pub fn fmt_u64(n: u64) -> (r: String)
    ensures
        r@ == dec_rep(n as nat),
    decreases n,
{
    let digits = "0123456789";
    proof {
        reveal_strlit("0123456789");
    }
    let d: usize = (n % 10) as usize;
    let c = digits.substring_char(d, d + 1);
    proof {
        assert(c@ =~= seq![digit_char(d as int)]);
    }
    if n < 10 {
        String::from_str(c)
    } else {
        proof {
            assert(n / 10 < n) by (nonlinear_arith)
                requires
                    n >= 10,
            ;
        }
        let mut s = fmt_u64(n / 10);
        s.append(c);
        s
    }
}

/// The decimal rendering of a signed value: a minus sign before the digits
/// of its magnitude.
pub open spec fn dec_rep_int(n: int) -> Seq<char> {
    if n < 0 {
        seq!['-'] + dec_rep((-n) as nat)
    } else {
        dec_rep(n as nat)
    }
}

/// Renders `n` in decimal with its sign.
pub fn fmt_i64(n: i64) -> (r: String)
    ensures
        r@ == dec_rep_int(n as int),
{
    if n >= 0 {
        fmt_u64(n as u64)
    } else {
        let wide: i128 = n as i128;
        let mag: u64 = (-wide) as u64;
        let mut s = String::from_str("-");
        let digits = fmt_u64(mag);
        s.append(digits.as_str());
        proof {
            reveal_strlit("-");
            assert(mag as nat == (-(n as int)) as nat);
            assert("-"@ =~= seq!['-']);
            assert(s@ =~= dec_rep_int(n as int));
        }
        s
    }
}

} // verus!
