use vstd::prelude::*;
use vstd::string::StrSliceExecFns;

verus! {

/// Whether `sep` occurs in `s` at position `i`.
pub open spec fn occurs_at(s: Seq<char>, sep: Seq<char>, i: int) -> bool {
    0 <= i && i + sep.len() <= s.len() && s.subrange(i, i + sep.len()) == sep
}

/// Whether `i` is the first position where `sep` occurs in `s`.
pub open spec fn first_occurrence_at(s: Seq<char>, sep: Seq<char>, i: int) -> bool {
    occurs_at(s, sep, i) && forall|j: int| 0 <= j < i ==> !occurs_at(s, sep, j)
}

/// The separator between a message's key and value where none is given: a tab.
pub open spec fn default_separator() -> Seq<char> {
    seq!['\t']
}

/// The key and value that a line of input stands for: cut at the first
/// occurrence of the separator, or all value where it does not occur.
pub open spec fn message_parts(line: Seq<char>, sep: Seq<char>) -> (Option<Seq<char>>, Seq<char>) {
    if exists|i: int| first_occurrence_at(line, sep, i) {
        let i = choose|i: int| first_occurrence_at(line, sep, i);
        (Some(line.subrange(0, i)), line.subrange(i + sep.len(), line.len() as int))
    } else {
        (None, line)
    }
}

/// The first position where `sep` occurs in `s`, if any.
fn find_separator(s: &str, sep: &str) -> (r: Option<usize>)
    ensures
        match r {
            Some(i) => first_occurrence_at(s@, sep@, i as int),
            None => forall|j: int| !occurs_at(s@, sep@, j),
        },
{
    let n = s.unicode_len();
    let m = sep.unicode_len();
    if m > n {
        return None;
    }
    let target = sep.to_owned();
    let last = n - m;
    let mut i: usize = 0;
    loop
        invariant
            n == s@.len(),
            m == sep@.len(),
            last == n - m,
            i <= last,
            target@ == sep@,
            forall|j: int| 0 <= j < i ==> !occurs_at(s@, sep@, j),
        decreases last - i,
    {
        let piece = s.substring_char(i, i + m).to_owned();
        if piece == target {
            return Some(i);
        }
        if i == last {
            return None;
        }
        i = i + 1;
    }
}

/// The key and value of a line of input to produce: `None` for an empty
/// line, which is skipped. The line is cut at the first occurrence of the
/// separator (a tab where none is given); without one, it is all value.
pub fn message_of_line(line: &str, separator: Option<&str>) -> (r: Option<(Option<String>, String)>)
    ensures
        line@.len() == 0 ==> r is None,
        line@.len() > 0 ==> r is Some && ({
            let sep = match separator {
                Some(s) => s@,
                None => default_separator(),
            };
            let (k, v) = r->0;
            let (ek, ev) = message_parts(line@, sep);
            &&& ev == v@
            &&& match k {
                Some(k) => ek == Some(k@),
                None => ek is None,
            }
        }),
{
    if line.unicode_len() == 0 {
        return None;
    }
    let sep: &str = match separator {
        Some(s) => s,
        None => "\t",
    };
    proof {
        reveal_strlit("\t");
        assert("\t"@ =~= default_separator());
    }
    match find_separator(line, sep) {
        Some(i) => {
            proof {
                let c = choose|j: int| first_occurrence_at(line@, sep@, j);
                assert(first_occurrence_at(line@, sep@, c));
                if c < i {
                    assert(!occurs_at(line@, sep@, c));
                }
                if (i as int) < c {
                    assert(!occurs_at(line@, sep@, i as int));
                }
            }
            let n = line.unicode_len();
            let m = sep.unicode_len();
            let key = line.substring_char(0, i).to_owned();
            let value = line.substring_char(i + m, n).to_owned();
            Some((Some(key), value))
        },
        None => {
            assert(!exists|j: int| first_occurrence_at(line@, sep@, j));
            Some((None, line.to_owned()))
        },
    }
}

/// Whether a consumer that has printed `count` messages should stop: only
/// where a maximum was given and reached.
pub fn reached_limit(count: usize, max_messages: Option<usize>) -> (r: bool)
    ensures
        r == (match max_messages {
            Some(max) => count >= max,
            None => false,
        }),
{
    match max_messages {
        Some(max) => count >= max,
        None => false,
    }
}

} // verus!
