//! The grammar of a request: `NAME?` asks for a parameter, `NAME VALUE` sets it.
//!
//! A request that does not end in `?` is a set when it holds, anywhere, a name
//! (an upper-case letter and one or more upper-case letters or digits), one
//! space, and at least one more character on the same line. The leftmost such
//! name counts, taken whole, and the value runs from after the space to the
//! end of the line.

use vstd::prelude::*;
use vstd::string::StrSliceExecFns;

use crate::text::chars_of;

verus! {

/// An upper-case ASCII letter.
pub open spec fn is_upper(c: char) -> bool {
    'A' <= c <= 'Z'
}

/// A character that may follow the first one of a name.
pub open spec fn is_name_char(c: char) -> bool {
    is_upper(c) || ('0' <= c <= '9')
}

/// A set request's name spans `s[i..j)`, a space stands at `j`, and a value
/// character follows it.
pub open spec fn set_match_at(s: Seq<char>, i: int, j: int) -> bool {
    &&& 0 <= i
    &&& i + 2 <= j
    &&& j + 1 < s.len()
    &&& is_upper(s[i])
    &&& forall|k: int| i < k < j ==> is_name_char(#[trigger] s[k])
    &&& s[j] == ' '
    &&& s[j + 1] != '\n'
}

/// A set request's name can start at `i`.
pub open spec fn starts_set(s: Seq<char>, i: int) -> bool {
    exists|j: int| set_match_at(s, i, j)
}

/// `i` is the leftmost place where a set request's name can start.
pub open spec fn leftmost_set(s: Seq<char>, i: int) -> bool {
    &&& starts_set(s, i)
    &&& forall|k: int| 0 <= k < i ==> !starts_set(s, k)
}

/// `e` ends the line that runs from `from`: the first line feed, or the end.
pub open spec fn is_line_end(s: Seq<char>, from: int, e: int) -> bool {
    &&& from <= e <= s.len()
    &&& forall|k: int| from <= k < e ==> s[k] != '\n'
    &&& (e == s.len() || s[e] == '\n')
}

/// A request as the contracts see it.
pub enum RequestView {
    Query(Seq<char>),
    Write(Seq<char>, Seq<char>),
    Malformed,
}

/// The request that the characters `s` make.
pub open spec fn classify(s: Seq<char>) -> RequestView {
    if s.len() > 0 && s.last() == '?' {
        RequestView::Query(s.drop_last())
    } else if exists|i: int| starts_set(s, i) {
        let i = choose|i: int| leftmost_set(s, i);
        let j = choose|j: int| set_match_at(s, i, j);
        let e = choose|e: int| #[trigger] is_line_end(s, j + 1, e);
        RequestView::Write(s.subrange(i, j), s.subrange(j + 1, e))
    } else {
        RequestView::Malformed
    }
}

/// A request, borrowing its parts from the message.
pub enum Request<'a> {
    /// A query of the named parameter.
    Query(&'a str),
    /// A write of a value to the named parameter.
    Write(&'a str, &'a str),
    /// Neither a query nor a well-formed set.
    Malformed,
}

impl<'a> Request<'a> {
    /// The request with its parts as characters.
    pub open spec fn view(self) -> RequestView {
        match self {
            Request::Query(name) => RequestView::Query(name@),
            Request::Write(name, value) => RequestView::Write(name@, value@),
            Request::Malformed => RequestView::Malformed,
        }
    }
}

fn upper(c: char) -> (r: bool)
    ensures
        r == is_upper(c),
{
    'A' <= c && c <= 'Z'
}

fn name_char(c: char) -> (r: bool)
    ensures
        r == is_name_char(c),
{
    upper(c) || ('0' <= c && c <= '9')
}

/// Splits a message into a query, a set, or neither.
pub fn parse_request(message: &str) -> (r: Request<'_>)
    ensures
        r.view() == classify(message@),
{
    let cs = chars_of(message);
    let n = cs.len();
    let ghost s = message@;
    if n > 0 && cs[n - 1] == '?' {
        let name = message.substring_char(0, n - 1);
        assert(name@ =~= s.drop_last());
        return Request::Query(name);
    }
    let mut i: usize = 0;
    while i < n
        invariant
            s == message@,
            cs@ == s,
            n == s.len(),
            i <= n,
            !(n > 0 && s.last() == '?'),
            forall|k: int| 0 <= k < i ==> !starts_set(s, k),
        decreases n - i,
    {
        if upper(cs[i]) {
            let mut j: usize = i + 1;
            while j < n && name_char(cs[j])
                invariant
                    s == message@,
                    cs@ == s,
                    n == s.len(),
                    i < j <= n,
                    forall|k: int| i < k < j ==> is_name_char(#[trigger] s[k]),
                decreases n - j,
            {
                j = j + 1;
            }
            // `j` ends the run of name characters from `i`, so a set request
            // starting at `i` can only have its space at `j`.
            assert forall|j2: int| set_match_at(s, i as int, j2) implies j2 == j by {
                if j2 < j {
                    assert(is_name_char(s[j2]));
                } else if j2 > j {
                    assert(is_name_char(s[j as int]));
                }
            }
            if j - i >= 2 && n - j >= 2 && cs[j] == ' ' && cs[j + 1] != '\n' {
                let mut e: usize = j + 1;
                while e < n && cs[e] != '\n'
                    invariant
                        s == message@,
                        cs@ == s,
                        n == s.len(),
                        i < j,
                        j + 1 <= e <= n,
                        forall|k: int| j + 1 <= k < e ==> s[k] != '\n',
                    decreases n - e,
                {
                    e = e + 1;
                }
                assert(set_match_at(s, i as int, j as int));
                assert(leftmost_set(s, i as int));
                assert(is_line_end(s, j + 1, e as int));
                let name = message.substring_char(i, j);
                let value = message.substring_char(j + 1, e);
                return Request::Write(name, value);
            }
            assert(!starts_set(s, i as int));
        }
        i = i + 1;
    }
    Request::Malformed
}

} // verus!
