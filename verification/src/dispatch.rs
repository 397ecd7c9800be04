//! Invocation-name handling: the dispatcher picks an applet by the name
//! the program was invoked under, which is the final path component of the
//! argument vector's first entry with its extension removed.

use crate::strutil::spec_rfind;
use vstd::prelude::*;

verus! {

/// The program name an invocation path maps to: the part after the last
/// separator, with everything from its last dot on removed — unless that
/// dot starts the name (a hidden file keeps its full name) or the stem
/// would be empty, in which case the path stands as it is.
pub open spec fn spec_program_name(raw: Seq<char>) -> Seq<char> {
    let name = raw.skip(spec_rfind(raw, '/') + 1);
    let p = spec_rfind(name, '.');
    let stem = if p <= 0 {
        name
    } else {
        name.take(p)
    };
    if stem.len() == 0 {
        raw
    } else {
        stem
    }
}

/// The position right after the last `c`, or zero.
fn after_last(s: &str, c: char) -> (r: usize)
    ensures
        r as int == spec_rfind(s@, c) + 1,
        r <= s@.len(),
{
    let n = s.unicode_len();
    let mut k: usize = n;
    proof {
        assert(s@.take(n as int) =~= s@);
    }
    while k > 0 && s.get_char(k - 1) != c
        invariant
            n == s@.len(),
            0 <= k <= n,
            spec_rfind(s@, c) == spec_rfind(s@.take(k as int), c),
        decreases k,
    {
        proof {
            assert(s@.take(k as int).drop_last() =~= s@.take(k - 1));
            assert(s@.take(k as int).last() == s@[k - 1]);
        }
        k = k - 1;
    }
    proof {
        if k > 0 {
            assert(s@.take(k as int).last() == s@[k - 1]);
            assert(spec_rfind(s@.take(k as int), c) == k - 1);
        } else {
            assert(s@.take(0) =~= Seq::<char>::empty());
        }
    }
    k
}

/// Reduce the invocation path to the program name the dispatcher matches
/// on.
pub fn get_program_name(arg: Option<&String>) -> (r: Option<String>)
    ensures
        r is Some <==> arg is Some,
        arg matches Some(raw) ==> (r matches Some(name) && name@ == spec_program_name(raw@)),
{
    let raw = match arg {
        Some(raw) => raw,
        None => {
            return None;
        },
    };
    let s = raw.as_str();
    let start = after_last(s, '/');
    let name = s.substring_char(start, s.unicode_len());
    proof {
        assert(name@ =~= s@.skip(spec_rfind(s@, '/') + 1));
    }
    let dot = after_last(name, '.');
    let stem = if dot <= 1 {
        name
    } else {
        name.substring_char(0, dot - 1)
    };
    proof {
        let p = spec_rfind(name@, '.');
        if p <= 0 {
            assert(stem@ == name@);
        } else {
            assert(stem@ =~= name@.take(p));
        }
    }
    if stem.unicode_len() == 0 {
        Some(String::from_str(s))
    } else {
        Some(String::from_str(stem))
    }
}

} // verus!
