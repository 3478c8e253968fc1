//! Reading text as lines: the characters of a string, whitespace trimming
//! as `str::trim` does it, and splitting at line endings as `str::lines`
//! does it.

use vstd::prelude::*;
use vstd::std_specs::iter::IteratorSpec;

verus! {

broadcast use vstd::string::group_string_axioms;

/// The Unicode `White_Space` property, which `char::is_whitespace` tests.
pub open spec fn is_white_space(c: char) -> bool {
    let u = c as u32;
    ||| 0x09 <= u <= 0x0d
    ||| u == 0x20
    ||| u == 0x85
    ||| u == 0xa0
    ||| u == 0x1680
    ||| 0x2000 <= u <= 0x200a
    ||| u == 0x2028
    ||| u == 0x2029
    ||| u == 0x202f
    ||| u == 0x205f
    ||| u == 0x3000
}

/// `s` without its leading whitespace.
pub open spec fn trim_start(s: Seq<char>) -> Seq<char>
    decreases s.len(),
{
    if s.len() > 0 && is_white_space(s[0]) {
        trim_start(s.drop_first())
    } else {
        s
    }
}

/// `s` without its trailing whitespace.
pub open spec fn trim_end(s: Seq<char>) -> Seq<char>
    decreases s.len(),
{
    if s.len() > 0 && is_white_space(s.last()) {
        trim_end(s.drop_last())
    } else {
        s
    }
}

/// `s` without leading and trailing whitespace.
pub open spec fn trimmed(s: Seq<char>) -> Seq<char> {
    trim_end(trim_start(s))
}

/// `str::trim`: the slice of `s` without leading and trailing whitespace
/// (characters with the Unicode `White_Space` property).
#[verifier::external_body]
pub fn trim_str(s: &str) -> (r: &str)
    ensures
        r@ == trimmed(s@),
{
    s.trim()
}

/// The position of the first `'\n'` in `s`, or its length if there is none.
pub open spec fn newline_at(s: Seq<char>) -> nat
    decreases s.len(),
{
    if s.len() == 0 {
        0
    } else if s[0] == '\n' {
        0
    } else {
        newline_at(s.drop_first()) + 1
    }
}

/// A line ended by `'\n'` loses a `'\r'` just before it.
pub open spec fn strip_cr(line: Seq<char>) -> Seq<char> {
    if line.len() > 0 && line.last() == '\r' {
        line.drop_last()
    } else {
        line
    }
}

/// The lines of `s` as `str::lines` gives them: split at each `'\n'`
/// (and a `'\r'` just before it), with no empty line after a final `'\n'`.
pub open spec fn text_lines(s: Seq<char>) -> Seq<Seq<char>>
    decreases s.len(),
{
    if s.len() == 0 {
        Seq::empty()
    } else {
        let i = newline_at(s);
        if i >= s.len() {
            seq![s]
        } else {
            seq![strip_cr(s.subrange(0, i as int))] + text_lines(s.subrange(i as int + 1, s.len() as int))
        }
    }
}

proof fn lemma_newline_at_bound(s: Seq<char>)
    ensures
        newline_at(s) <= s.len(),
        newline_at(s) < s.len() ==> s[newline_at(s) as int] == '\n',
        forall|j: int| 0 <= j < newline_at(s) ==> s[j] != '\n',
    decreases s.len(),
{
    if s.len() > 0 && s[0] != '\n' {
        lemma_newline_at_bound(s.drop_first());
        assert forall|j: int| 0 <= j < newline_at(s) implies s[j] != '\n' by {
            if j > 0 {
                assert(s[j] == s.drop_first()[j - 1]);
            }
        }
    }
}

/// A newline position is determined by where the first `'\n'` is.
proof fn lemma_newline_at_is(s: Seq<char>, k: int)
    requires
        0 <= k <= s.len(),
        k < s.len() ==> s[k] == '\n',
        forall|j: int| 0 <= j < k ==> s[j] != '\n',
    ensures
        newline_at(s) == k,
{
    lemma_newline_at_bound(s);
    if newline_at(s) < k {
        assert(s[newline_at(s) as int] == '\n');
    } else if newline_at(s) > k {
        assert(s[k] != '\n');
    }
}

/// The characters of `s`.
pub fn chars_of(s: &str) -> (r: Vec<char>)
    ensures
        r@ == s@,
{
    broadcast use vstd::string::next_postcondition;

    let mut out: Vec<char> = Vec::new();
    let mut it = s.chars();
    loop
        invariant
            out@ + it.remaining() == s@,
            it.obeys_prophetic_iter_laws(),
            it.decrease() is Some,
        ensures
            out@ == s@,
        decreases it.decrease()->0,
    {
        match it.next() {
            Some(c) => {
                out.push(c);
            },
            None => {
                assert(out@ + Seq::<char>::empty() == out@);
                break ;
            },
        }
    }
    out
}

/// The lines of the characters `s`, as `str::lines` splits them.
pub fn split_lines(s: &Vec<char>) -> (r: Vec<Vec<char>>)
    ensures
        r@.map_values(|l: Vec<char>| l@) == text_lines(s@),
{
    let n = s.len();
    let mut out: Vec<Vec<char>> = Vec::new();
    let mut cur: Vec<char> = Vec::new();
    let mut start: usize = 0;
    let mut k: usize = 0;
    assert(s@.subrange(0, n as int) == s@);
    assert(out@.map_values(|l: Vec<char>| l@) == Seq::<Seq<char>>::empty());
    assert(Seq::<Seq<char>>::empty() + text_lines(s@) == text_lines(s@));
    while k < n
        invariant
            n == s@.len(),
            start <= k <= n,
            cur@ == s@.subrange(start as int, k as int),
            forall|j: int| start <= j < k ==> s@[j] != '\n',
            out@.map_values(|l: Vec<char>| l@) + text_lines(s@.subrange(start as int, n as int))
                == text_lines(s@),
        decreases n - k,
    {
        let c = s[k];
        if c == '\n' {
            let ghost rest = s@.subrange(start as int, n as int);
            proof {
                lemma_newline_at_is(rest, k - start);
                assert(rest.subrange(0, k - start) == cur@);
                assert(rest.subrange(k - start + 1, rest.len() as int) == s@.subrange(
                    k + 1,
                    n as int,
                ));
            }
            let mut line = cur;
            if line.len() > 0 && line[line.len() - 1] == '\r' {
                line.pop();
            }
            let ghost before = out@.map_values(|l: Vec<char>| l@);
            out.push(line);
            assert(out@.map_values(|l: Vec<char>| l@) == before.push(strip_cr(rest.subrange(0, k - start))));
            assert(before.push(strip_cr(rest.subrange(0, k - start))) + text_lines(
                s@.subrange(k + 1, n as int),
            ) == before + (seq![strip_cr(rest.subrange(0, k - start))] + text_lines(
                s@.subrange(k + 1, n as int),
            )));
            cur = Vec::new();
            start = k + 1;
        } else {
            cur.push(c);
        }
        k = k + 1;
    }
    let ghost rest = s@.subrange(start as int, n as int);
    if cur.len() > 0 {
        proof {
            lemma_newline_at_is(rest, rest.len() as int);
            assert(rest == cur@);
        }
        let ghost before = out@.map_values(|l: Vec<char>| l@);
        out.push(cur);
        assert(out@.map_values(|l: Vec<char>| l@) == before + seq![rest]);
    } else {
        assert(rest.len() == 0);
        assert(out@.map_values(|l: Vec<char>| l@) + Seq::<Seq<char>>::empty() == out@.map_values(
            |l: Vec<char>| l@,
        ));
    }
    out
}

} // verus!
