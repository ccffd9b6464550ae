use vstd::prelude::*;

verus! {

/// The result of replacing, left to right, every non-overlapping occurrence
/// of `pat` in `s` by `to`. An empty pattern never matches, so the text is
/// returned unchanged.
pub open spec fn replaced(s: Seq<char>, pat: Seq<char>, to: Seq<char>) -> Seq<char>
    decreases s.len(),
{
    if pat.len() == 0 || s.len() < pat.len() {
        s
    } else if s.take(pat.len() as int) == pat {
        to + replaced(s.skip(pat.len() as int), pat, to)
    } else {
        seq![s[0]] + replaced(s.skip(1), pat, to)
    }
}

/// The parts joined with a single space between neighbours; no space is
/// added before the first part or after the last.
pub open spec fn join_space(parts: Seq<Seq<char>>) -> Seq<char>
    decreases parts.len(),
{
    if parts.len() == 0 {
        Seq::empty()
    } else if parts.len() == 1 {
        parts[0]
    } else {
        parts[0] + seq![' '] + join_space(parts.drop_first())
    }
}

/// A text shorter than the pattern holds no occurrence of it.
proof fn lemma_replaced_short(s: Seq<char>, pat: Seq<char>, to: Seq<char>)
    requires
        s.len() < pat.len() || pat.len() == 0,
    ensures
        replaced(s, pat, to) == s,
{
}

/// Whether the characters of `s` starting at `i` equal `pat`.
fn matches_at(s: &str, i: usize, pat: &str) -> (r: bool)
    requires
        i + pat@.len() <= s@.len(),
        i + pat@.len() <= usize::MAX,
    ensures
        r == (s@.subrange(i as int, i + pat@.len()) == pat@),
{
    let m = pat.unicode_len();
    let mut k: usize = 0;
    while k < m
        invariant
            0 <= k <= m,
            m == pat@.len(),
            i + m <= s@.len(),
            i + m <= usize::MAX,
            forall|j: int| 0 <= j < k ==> s@[i + j] == pat@[j],
        decreases m - k,
    {
        if s.get_char(i + k) != pat.get_char(k) {
            assert(s@.subrange(i as int, i + pat@.len())[k as int] != pat@[k as int]);
            return false;
        }
        k = k + 1;
    }
    assert(s@.subrange(i as int, i + pat@.len()) =~= pat@);
    true
}

/// Whether two texts hold the same characters.
pub fn str_eq(a: &str, b: &str) -> (r: bool)
    ensures
        r == (a@ == b@),
{
    let n = a.unicode_len();
    if n != b.unicode_len() {
        assert(a@.len() != b@.len());
        return false;
    }
    let mut k: usize = 0;
    while k < n
        invariant
            0 <= k <= n,
            n == a@.len() == b@.len(),
            forall|j: int| 0 <= j < k ==> a@[j] == b@[j],
        decreases n - k,
    {
        if a.get_char(k) != b.get_char(k) {
            return false;
        }
        k = k + 1;
    }
    assert(a@ =~= b@);
    true
}

/// Replaces every non-overlapping occurrence of `pat` in `s` by `to`,
/// scanning left to right; an empty pattern leaves the text unchanged.
pub fn replace_all(s: &str, pat: &str, to: &str) -> (r: String)
    ensures
        r@ == replaced(s@, pat@, to@),
{
    let n = s.unicode_len();
    let m = pat.unicode_len();
    if m == 0 {
        return s.to_owned();
    }
    let mut r = String::new();
    let mut i: usize = 0;
    proof {
        assert(s@.skip(0) =~= s@);
        assert(r@ + replaced(s@, pat@, to@) =~= replaced(s@, pat@, to@));
    }
    while i < n
        invariant
            0 <= i <= n,
            n == s@.len(),
            m == pat@.len(),
            m >= 1,
            r@ + replaced(s@.skip(i as int), pat@, to@) == replaced(s@, pat@, to@),
        decreases n - i,
    {
        let ghost tail = s@.skip(i as int);
        if m <= n - i && matches_at(s, i, pat) {
            proof {
                assert(tail.len() >= pat@.len());
                assert(tail.take(pat@.len() as int) =~= s@.subrange(
                    i as int,
                    i + pat@.len(),
                ));
                assert(tail.skip(pat@.len() as int) =~= s@.skip(i + m));
                assert(replaced(tail, pat@, to@) == to@ + replaced(
                    s@.skip(i + m),
                    pat@,
                    to@,
                ));
            }
            r.append(to);
            proof {
                assert(r@ + replaced(s@.skip(i + m), pat@, to@) =~= replaced(
                    s@,
                    pat@,
                    to@,
                ));
            }
            i = i + m;
        } else {
            proof {
                if m <= n - i {
                    assert(tail.take(pat@.len() as int) =~= s@.subrange(
                        i as int,
                        i + pat@.len(),
                    ));
                    assert(replaced(tail, pat@, to@) == seq![tail[0]] + replaced(
                        tail.skip(1),
                        pat@,
                        to@,
                    ));
                } else {
                    assert(tail.len() < pat@.len());
                    assert(replaced(tail, pat@, to@) == tail);
                    assert(tail == seq![tail[0]] + tail.skip(1));
                    lemma_replaced_short(tail.skip(1), pat@, to@);
                }
                assert(tail.skip(1) =~= s@.skip(i + 1));
                assert(seq![tail[0]] =~= s@.subrange(i as int, i + 1));
            }
            let piece = s.substring_char(i, i + 1);
            r.append(piece);
            proof {
                assert(r@ + replaced(s@.skip(i + 1), pat@, to@) =~= replaced(
                    s@,
                    pat@,
                    to@,
                ));
            }
            i = i + 1;
        }
    }
    proof {
        assert(s@.skip(n as int) =~= Seq::<char>::empty());
        assert(replaced(s@.skip(n as int), pat@, to@) =~= Seq::<char>::empty());
        assert(r@ =~= replaced(s@, pat@, to@));
    }
    r
}

/// Appending one more part to a non-empty join adds one space and the part.
proof fn lemma_join_space_push(parts: Seq<Seq<char>>, x: Seq<char>)
    requires
        parts.len() >= 1,
    ensures
        join_space(parts.push(x)) == join_space(parts) + seq![' '] + x,
    decreases parts.len(),
{
    if parts.len() == 1 {
        let p = parts.push(x);
        assert(p.drop_first() =~= seq![x]);
        assert(join_space(seq![x]) == x);
        assert(join_space(p) == p[0] + seq![' '] + join_space(p.drop_first()));
    } else {
        lemma_join_space_push(parts.drop_first(), x);
        assert(parts.push(x).drop_first() =~= parts.drop_first().push(x));
        assert(parts[0] + seq![' '] + (join_space(parts.drop_first()) + seq![' '] + x)
            =~= (parts[0] + seq![' '] + join_space(parts.drop_first())) + seq![' '] + x);
    }
}

/// Joins the parts with a single space between neighbours.
pub fn join_with_space(parts: &Vec<String>) -> (r: String)
    ensures
        r@ == join_space(parts.deep_view()),
{
    let ghost dv = parts.deep_view();
    if parts.len() == 0 {
        assert(dv.len() == 0);
        return String::new();
    }
    let mut r = parts[0].clone();
    assert(r@ == dv[0]);
    assert(dv.take(1) =~= seq![dv[0]]);
    let mut i: usize = 1;
    while i < parts.len()
        invariant
            1 <= i <= parts.len(),
            dv == parts.deep_view(),
            dv.len() == parts.len(),
            r@ == join_space(dv.take(i as int)),
        decreases parts.len() - i,
    {
        r.append(" ");
        r.append(parts[i].as_str());
        proof {
            reveal_strlit(" ");
            assert(" "@ =~= seq![' ']);
            lemma_join_space_push(dv.take(i as int), dv[i as int]);
            assert(dv.take(i as int).push(dv[i as int]) =~= dv.take(i + 1));
        }
        i = i + 1;
    }
    assert(dv.take(parts.len() as int) =~= dv);
    r
}

} // verus!
