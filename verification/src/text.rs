//! Character-level helpers shared by the accelerator normalizer and the
//! command synthesizer: whitespace trimming over index ranges of a `&str`,
//! with a sequence-level model of what trimming leaves behind.

use vstd::prelude::*;
use vstd::string::*;

verus! {

/// Whitespace as `str::trim` sees it: the Unicode `White_Space` characters.
pub open spec fn is_space_char(c: char) -> bool {
    ||| (9 <= c as u32 && c as u32 <= 13)
    ||| c as u32 == 32
    ||| c as u32 == 0x85
    ||| c as u32 == 0xA0
    ||| c as u32 == 0x1680
    ||| (0x2000 <= c as u32 && c as u32 <= 0x200A)
    ||| c as u32 == 0x2028
    ||| c as u32 == 0x2029
    ||| c as u32 == 0x202F
    ||| c as u32 == 0x205F
    ||| c as u32 == 0x3000
}

/// Decides `is_space_char`.
pub fn is_space(c: char) -> (r: bool)
    ensures
        r == is_space_char(c),
{
    let u = c as u32;
    (9 <= u && u <= 13) || u == 32 || u == 0x85 || u == 0xA0 || u == 0x1680
        || (0x2000 <= u && u <= 0x200A) || u == 0x2028 || u == 0x2029 || u == 0x202F
        || u == 0x205F || u == 0x3000
}

/// The sequence with leading whitespace removed.
pub open spec fn trim_start_spec(s: Seq<char>) -> Seq<char>
    decreases s.len(),
{
    if s.len() > 0 && is_space_char(s[0]) {
        trim_start_spec(s.drop_first())
    } else {
        s
    }
}

/// The sequence with trailing whitespace removed.
pub open spec fn trim_end_spec(s: Seq<char>) -> Seq<char>
    decreases s.len(),
{
    if s.len() > 0 && is_space_char(s.last()) {
        trim_end_spec(s.drop_last())
    } else {
        s
    }
}

/// The sequence with both leading and trailing whitespace removed: the model
/// of `str::trim`.
pub open spec fn trim_spec(s: Seq<char>) -> Seq<char> {
    trim_end_spec(trim_start_spec(s))
}

/// Whether a sequence carries no whitespace at either end (so trimming it is
/// the identity).
pub open spec fn is_trimmed(s: Seq<char>) -> bool {
    &&& (s.len() > 0 ==> !is_space_char(s[0]))
    &&& (s.len() > 0 ==> !is_space_char(s.last()))
}

proof fn lemma_trim_start_no_leading(s: Seq<char>)
    ensures
        trim_start_spec(s).len() > 0 ==> !is_space_char(trim_start_spec(s)[0]),
        trim_start_spec(s).len() > 0 ==> trim_start_spec(s).last() == s.last(),
        trim_start_spec(s).len() <= s.len(),
    decreases s.len(),
{
    if s.len() > 0 && is_space_char(s[0]) {
        lemma_trim_start_no_leading(s.drop_first());
    }
}

proof fn lemma_trim_end_no_trailing(s: Seq<char>)
    ensures
        trim_end_spec(s).len() > 0 ==> !is_space_char(trim_end_spec(s).last()),
        trim_end_spec(s).len() > 0 ==> trim_end_spec(s)[0] == s[0],
        trim_end_spec(s).len() <= s.len(),
    decreases s.len(),
{
    if s.len() > 0 && is_space_char(s.last()) {
        lemma_trim_end_no_trailing(s.drop_last());
        if trim_end_spec(s).len() > 0 {
            assert(s.drop_last()[0] == s[0]);
        }
    }
}

/// Trimming leaves a sequence with no whitespace at either end.
pub proof fn lemma_trim_is_trimmed(s: Seq<char>)
    ensures
        is_trimmed(trim_spec(s)),
{
    lemma_trim_start_no_leading(s);
    lemma_trim_end_no_trailing(trim_start_spec(s));
    let t = trim_spec(s);
    if t.len() > 0 {
        assert(t[0] == trim_start_spec(s)[0]);
    }
}

/// On a sequence that is already trimmed, trimming is the identity.
pub proof fn lemma_trim_of_trimmed(s: Seq<char>)
    requires
        is_trimmed(s),
    ensures
        trim_spec(s) == s,
{
    assert(trim_start_spec(s) == s);
    assert(trim_end_spec(s) == s);
}

/// A character absent from a sequence is absent from its trimmed core too.
pub proof fn lemma_trim_excludes(s: Seq<char>, c: char)
    requires
        forall|k: int| 0 <= k < s.len() ==> s[k] != c,
    ensures
        forall|k: int| 0 <= k < trim_spec(s).len() ==> trim_spec(s)[k] != c,
{
    lemma_trim_start_excludes(s, c);
    lemma_trim_end_excludes(trim_start_spec(s), c);
}

proof fn lemma_trim_start_excludes(s: Seq<char>, c: char)
    requires
        forall|k: int| 0 <= k < s.len() ==> s[k] != c,
    ensures
        forall|k: int| 0 <= k < trim_start_spec(s).len() ==> trim_start_spec(s)[k] != c,
    decreases s.len(),
{
    if s.len() > 0 && is_space_char(s[0]) {
        assert forall|k: int| 0 <= k < s.drop_first().len() implies s.drop_first()[k] != c by {
            assert(s.drop_first()[k] == s[k + 1]);
        }
        lemma_trim_start_excludes(s.drop_first(), c);
        assert forall|k: int| 0 <= k < trim_start_spec(s).len() implies trim_start_spec(s)[k]
            != c by {
            assert(trim_start_spec(s) == trim_start_spec(s.drop_first()));
            assert(trim_start_spec(s.drop_first())[k] != c);
        }
    }
}

proof fn lemma_trim_end_excludes(s: Seq<char>, c: char)
    requires
        forall|k: int| 0 <= k < s.len() ==> s[k] != c,
    ensures
        forall|k: int| 0 <= k < trim_end_spec(s).len() ==> trim_end_spec(s)[k] != c,
    decreases s.len(),
{
    if s.len() > 0 && is_space_char(s.last()) {
        assert forall|k: int| 0 <= k < s.drop_last().len() implies s.drop_last()[k] != c by {
            assert(s.drop_last()[k] == s[k]);
        }
        lemma_trim_end_excludes(s.drop_last(), c);
        assert forall|k: int| 0 <= k < trim_end_spec(s).len() implies trim_end_spec(s)[k] != c by {
            assert(trim_end_spec(s) == trim_end_spec(s.drop_last()));
            assert(trim_end_spec(s.drop_last())[k] != c);
        }
    }
}

/// Narrows the index range `[start, end)` of `s` to its trimmed core:
/// the narrowed range carries exactly `trim_spec` of the original range.
pub fn trim_range(s: &str, start: usize, end: usize) -> (r: (usize, usize))
    requires
        start <= end <= s@.len(),
    ensures
        start <= r.0 <= r.1 <= end,
        s@.subrange(r.0 as int, r.1 as int) == trim_spec(s@.subrange(start as int, end as int)),
{
    let mut a = start;
    let mut b = end;
    while a < b && is_space(s.get_char(a))
        invariant
            start <= a <= b <= end <= s@.len(),
            trim_start_spec(s@.subrange(a as int, b as int)) == trim_start_spec(
                s@.subrange(start as int, end as int),
            ),
        decreases b - a,
    {
        proof {
            assert(s@.subrange(a as int, b as int).drop_first() =~= s@.subrange(
                a + 1 as int,
                b as int,
            ));
        }
        a = a + 1;
    }
    proof {
        assert(trim_start_spec(s@.subrange(a as int, b as int)) == s@.subrange(
            a as int,
            b as int,
        ));
    }
    while b > a && is_space(s.get_char(b - 1))
        invariant
            start <= a <= b <= end <= s@.len(),
            trim_end_spec(s@.subrange(a as int, b as int)) == trim_spec(
                s@.subrange(start as int, end as int),
            ),
        decreases b - a,
    {
        proof {
            assert(s@.subrange(a as int, b as int).drop_last() =~= s@.subrange(
                a as int,
                b - 1 as int,
            ));
        }
        b = b - 1;
    }
    (a, b)
}

/// A trimmed copy of the whole string.
pub fn trimmed(s: &str) -> (r: String)
    ensures
        r@ == trim_spec(s@),
{
    let n = s.unicode_len();
    let (a, b) = trim_range(s, 0, n);
    proof {
        assert(s@.subrange(0, n as int) =~= s@);
    }
    s.substring_char(a, b).to_owned()
}

} // verus!
