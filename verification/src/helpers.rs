//! Small text helpers for console input: extracting a leading number and
//! collecting the complete lines the user has finished typing.

use crate::text::{
    digit_prefix, nonempty_before_last, split_sep, take_digit_prefix, trim, trim_spec, views_of,
};
use vstd::prelude::*;

verus! {

/// The longest run of digits at the start of `s`, after trimming blanks
/// from both ends.
pub fn parse_str_to_num(s: &str) -> (r: String)
    ensures
        r@ == digit_prefix(trim_spec(s@)),
{
    let t = trim(s);
    let p = take_digit_prefix(t);
    String::from_str(p)
}

/// The non-empty lines of `s` that were finished with a line feed, in
/// order. Text after the last line feed is not yet a line and is dropped.
pub fn parse_vars(s: &String) -> (r: Vec<String>)
    ensures
        views_of(r@) =~~= nonempty_before_last(split_sep(s@, '\n')),
{
    let fields = crate::text::split_sep_exec(s.as_str(), '\n');
    let n = fields.len();
    proof {
        crate::text::lemma_split_sep_len(s@, '\n');
        assert(views_of(fields@).len() == fields@.len());
    }
    let mut out: Vec<String> = Vec::new();
    let mut i: usize = 0;
    proof {
        assert(views_of(fields@).take(0) =~~= Seq::<Seq<char>>::empty());
        assert(crate::text::keep_nonempty(views_of(fields@).take(0))
            =~~= Seq::<Seq<char>>::empty());
        assert(views_of(out@) =~~= Seq::<Seq<char>>::empty());
    }
    while i < n - 1
        invariant
            n == fields@.len() >= 1,
            0 <= i <= n - 1,
            views_of(fields@) =~~= split_sep(s@, '\n'),
            views_of(out@) =~~= crate::text::keep_nonempty(views_of(fields@).take(i as int)),
        decreases n - 1 - i,
    {
        proof {
            let v = views_of(fields@);
            assert(v.take(i + 1).drop_last() =~= v.take(i as int));
            assert(v.take(i + 1).last() == v[i as int]);
        }
        if !fields[i].as_str().is_empty() {
            let f = fields[i].clone();
            out.push(f);
            proof {
                assert(views_of(out@) =~~= views_of(out@.drop_last()).push(fields@[i as int]@));
            }
        }
        i = i + 1;
    }
    proof {
        let v = views_of(fields@);
        assert(v.take(n - 1) =~= v.drop_last());
    }
    out
}

} // verus!
