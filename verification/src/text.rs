use vstd::prelude::*;

verus! {

/// Relies on std's `String::push`: appends exactly one character at the end.
#[verifier::external_body]
pub(crate) fn push_char(s: &mut String, c: char)
    ensures
        final(s)@ == old(s)@.push(c),
{
    s.push(c);
}

/// The segments of `s` delimited by `d`: one more segment than there are
/// delimiters, in order, each segment free of `d`.  An empty text is a
/// single empty segment.
pub open spec fn split_on(s: Seq<char>, d: char) -> Seq<Seq<char>>
    decreases s.len(),
{
    if s.len() == 0 {
        seq![Seq::<char>::empty()]
    } else if s.last() == d {
        split_on(s.drop_last(), d).push(Seq::<char>::empty())
    } else {
        let rest = split_on(s.drop_last(), d);
        rest.update(rest.len() - 1, rest.last().push(s.last()))
    }
}

pub proof fn lemma_split_on_len(s: Seq<char>, d: char)
    ensures
        split_on(s, d).len() >= 1,
    decreases s.len(),
{
    if s.len() > 0 {
        lemma_split_on_len(s.drop_last(), d);
    }
}

/// Splits `s` at every occurrence of `d`, keeping empty segments.
pub fn split_str(s: &str, d: char) -> (r: Vec<String>)
    ensures
        r.deep_view() == split_on(s@, d),
{
    let n = s.unicode_len();
    let mut done: Vec<String> = Vec::new();
    let mut cur = String::new();
    let mut i: usize = 0;
    proof {
        assert(s@.take(0) =~= Seq::<char>::empty());
        assert(done.deep_view().push(cur@) =~= split_on(s@.take(0), d));
    }
    while i < n
        invariant
            i <= n,
            n == s@.len(),
            done.deep_view().push(cur@) == split_on(s@.take(i as int), d),
        decreases n - i,
    {
        let ghost prev_done = done.deep_view();
        let ghost prev_cur = cur@;
        let c = s.get_char(i);
        if c == d {
            done.push(cur);
            cur = String::new();
        } else {
            push_char(&mut cur, c);
        }
        i = i + 1;
        proof {
            let t = s@.take(i as int);
            assert(t.last() == s@[i - 1]);
            assert(t.drop_last() =~= s@.take(i - 1));
            lemma_split_on_len(s@.take(i - 1), d);
            if c == d {
                assert(done.deep_view() =~= prev_done.push(prev_cur));
                assert(done.deep_view().push(cur@) =~= split_on(t, d));
            } else {
                assert(done.deep_view() =~= prev_done);
                let rest = split_on(s@.take(i - 1), d);
                assert(rest == prev_done.push(prev_cur));
                assert(rest.last() == prev_cur);
                assert(split_on(t, d) == rest.update(rest.len() - 1, prev_cur.push(c)));
                assert(done.deep_view().push(cur@) =~= rest.update(
                    rest.len() - 1,
                    prev_cur.push(c),
                ));
            }
        }
    }
    let ghost end_done = done.deep_view();
    let ghost end_cur = cur@;
    done.push(cur);
    proof {
        assert(s@.take(n as int) =~= s@);
        assert(done.deep_view() =~= end_done.push(end_cur));
    }
    done
}

} // verus!
