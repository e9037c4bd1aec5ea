//! Comparisons of text.

use vstd::prelude::*;

verus! {

/// Whether `text` reads exactly `other`.
pub fn same_text(text: &str, other: &str) -> (r: bool)
    ensures
        r == (text@ == other@),
{
    let a: String = text.to_string();
    let b: String = other.to_string();
    a == b
}

/// An ASCII letter in lower case; any other byte is itself.
pub open spec fn lower(b: u8) -> u8 {
    if 0x41 <= b <= 0x5a {
        (b + 0x20) as u8
    } else {
        b
    }
}

/// The bytes agree up to the case of ASCII letters.
pub open spec fn same_ignoring_case(a: Seq<u8>, b: Seq<u8>) -> bool {
    &&& a.len() == b.len()
    &&& forall|i: int| 0 <= i < a.len() ==> lower(#[trigger] a[i]) == lower(b[i])
}

/// ASCII white space: tab, line feed, vertical tab, form feed, carriage return and space.
pub open spec fn is_space(b: u8) -> bool {
    0x09 <= b <= 0x0d || b == 0x20
}

/// `s` without the white space at its start.
pub open spec fn trim_start(s: Seq<u8>) -> Seq<u8>
    decreases s.len(),
{
    if s.len() > 0 && is_space(s[0]) {
        trim_start(s.drop_first())
    } else {
        s
    }
}

/// `s` without the white space at its end.
pub open spec fn trim_end(s: Seq<u8>) -> Seq<u8>
    decreases s.len(),
{
    if s.len() > 0 && is_space(s.last()) {
        trim_end(s.drop_last())
    } else {
        s
    }
}

/// `s` without the white space at its start and at its end.
pub open spec fn trimmed(s: Seq<u8>) -> Seq<u8> {
    trim_end(trim_start(s))
}

fn to_lower(b: u8) -> (r: u8)
    ensures
        r == lower(b),
{
    if 0x41 <= b && b <= 0x5a {
        b + 0x20
    } else {
        b
    }
}

/// Whether two byte strings agree up to the case of ASCII letters.
pub fn eq_ignore_case(a: &[u8], b: &[u8]) -> (r: bool)
    ensures
        r == same_ignoring_case(a@, b@),
{
    if a.len() != b.len() {
        return false;
    }
    let mut i: usize = 0;
    while i < a.len()
        invariant
            i <= a.len(),
            a.len() == b.len(),
            forall|k: int| 0 <= k < i ==> lower(#[trigger] a@[k]) == lower(b@[k]),
        decreases a.len() - i,
    {
        if to_lower(a[i]) != to_lower(b[i]) {
            assert(lower(a@[i as int]) != lower(b@[i as int]));
            return false;
        }
        i = i + 1;
    }
    true
}

fn space(b: u8) -> (r: bool)
    ensures
        r == is_space(b),
{
    (0x09 <= b && b <= 0x0d) || b == 0x20
}

/// The bytes of `s` without the white space around them.
pub fn trim(s: &[u8]) -> (r: Vec<u8>)
    ensures
        r@ == trimmed(s@),
{
    let mut from: usize = 0;
    assert(s@.skip(0) =~= s@);
    while from < s.len() && space(s[from])
        invariant
            from <= s.len(),
            trim_start(s@.skip(from as int)) == trim_start(s@),
        decreases s.len() - from,
    {
        assert(s@.skip(from as int).drop_first() =~= s@.skip(from + 1));
        from = from + 1;
    }
    let ghost rest = s@.skip(from as int);
    assert(trim_start(s@) == rest);
    let mut to: usize = s.len();
    assert(s@.subrange(from as int, to as int) =~= rest);
    while to > from && space(s[to - 1])
        invariant
            from <= to <= s.len(),
            trim_end(s@.subrange(from as int, to as int)) == trim_end(rest),
        decreases to - from,
    {
        assert(s@.subrange(from as int, to as int).drop_last() =~= s@.subrange(
            from as int,
            to - 1,
        ));
        to = to - 1;
    }
    let ghost core = s@.subrange(from as int, to as int);
    assert(trim_end(rest) == core);
    let mut r: Vec<u8> = Vec::new();
    let mut i: usize = from;
    while i < to
        invariant
            from <= i <= to <= s.len(),
            r@ =~= s@.subrange(from as int, i as int),
        decreases to - i,
    {
        r.push(s[i]);
        i = i + 1;
    }
    r
}

/// Trimming removes white space only: what is left is a stretch of the text, everything before
/// and after it is white space, and it neither begins nor ends with white space.
pub proof fn law_trimming_removes_white_space_only(s: Seq<u8>)
    ensures
        exists|a: int, b: int|
            {
                &&& 0 <= a <= b <= s.len()
                &&& trimmed(s) == #[trigger] s.subrange(a, b)
                &&& forall|i: int|
                    0 <= i < a || b <= i < s.len() ==> 0x09 <= #[trigger] s[i] <= 0x0d || s[i] == 0x20
            },
        trimmed(s).len() > 0 ==> !(0x09 <= trimmed(s)[0] <= 0x0d || trimmed(s)[0] == 0x20) && !(0x09
            <= trimmed(s).last() <= 0x0d || trimmed(s).last() == 0x20),
{
    let a = lemma_trim_start(s);
    let rest = s.skip(a);
    let n = lemma_trim_end(rest);
    assert(rest.take(n) =~= s.subrange(a, a + n));
    assert forall|i: int| 0 <= i < a || a + n <= i < s.len() implies 0x09 <= #[trigger] s[i] <= 0x0d
        || s[i] == 0x20 by {
        if i >= a + n {
            assert(is_space(rest[i - a]));
        } else {
            assert(is_space(s[i]));
        }
    }
    if n > 0 {
        assert(rest.take(n)[0] == rest[0]);
    }
}

/// Text that neither begins nor ends with white space is its own trimmed form.
pub proof fn law_trimming_keeps_bare_text(s: Seq<u8>)
    requires
        s.len() > 0 ==> !(0x09 <= s[0] <= 0x0d || s[0] == 0x20) && !(0x09 <= s.last() <= 0x0d
            || s.last() == 0x20),
    ensures
        trimmed(s) == s,
{
}

/// White space around a text makes no difference to its trimmed form.
pub proof fn law_trimming_ignores_white_space_around(before: Seq<u8>, s: Seq<u8>, after: Seq<u8>)
    requires
        forall|i: int|
            0 <= i < before.len() ==> 0x09 <= #[trigger] before[i] <= 0x0d || before[i] == 0x20,
        forall|i: int|
            0 <= i < after.len() ==> 0x09 <= #[trigger] after[i] <= 0x0d || after[i] == 0x20,
        s.len() > 0,
        !(0x09 <= s[0] <= 0x0d || s[0] == 0x20),
        !(0x09 <= s.last() <= 0x0d || s.last() == 0x20),
    ensures
        trimmed(before + s + after) == s,
    decreases before.len() + after.len(),
{
    let whole = before + s + after;
    if before.len() > 0 {
        assert(whole[0] == before[0]);
        assert(whole.drop_first() =~= before.drop_first() + s + after);
        assert(forall|i: int| 0 <= i < before.len() - 1 ==> before.drop_first()[i] == before[i + 1]);
        law_trimming_ignores_white_space_around(before.drop_first(), s, after);
    } else {
        assert(whole =~= s + after);
        assert(trim_start(whole) == whole) by {
            assert(whole[0] == s[0]);
        }
        if after.len() > 0 {
            assert(whole.last() == after.last());
            assert(whole.drop_last() =~= before + s + after.drop_last());
            assert(trim_start(whole.drop_last()) == whole.drop_last()) by {
                assert(whole.drop_last()[0] == s[0]);
            }
            law_trimming_ignores_white_space_around(before, s, after.drop_last());
        } else {
            assert(whole =~= s);
        }
    }
}

/// How many bytes the start of a text loses.
proof fn lemma_trim_start(s: Seq<u8>) -> (a: int)
    ensures
        0 <= a <= s.len(),
        trim_start(s) == s.skip(a),
        forall|i: int| 0 <= i < a ==> is_space(#[trigger] s[i]),
        a < s.len() ==> !is_space(s[a]),
    decreases s.len(),
{
    if s.len() > 0 && is_space(s[0]) {
        let a = lemma_trim_start(s.drop_first());
        assert(s.drop_first().skip(a) =~= s.skip(a + 1));
        assert(forall|i: int| 0 <= i < s.len() - 1 ==> s.drop_first()[i] == s[i + 1]);
        assert forall|i: int| 0 <= i < a + 1 implies is_space(#[trigger] s[i]) by {
            if i > 0 {
                assert(is_space(s.drop_first()[i - 1]));
            }
        }
        a + 1
    } else {
        assert(s.skip(0) =~= s);
        0
    }
}

/// How many bytes of a text are left before the white space at its end.
proof fn lemma_trim_end(s: Seq<u8>) -> (n: int)
    ensures
        0 <= n <= s.len(),
        trim_end(s) == s.take(n),
        forall|i: int| n <= i < s.len() ==> is_space(#[trigger] s[i]),
        n > 0 ==> !is_space(s[n - 1]),
    decreases s.len(),
{
    if s.len() > 0 && is_space(s.last()) {
        let n = lemma_trim_end(s.drop_last());
        assert(s.drop_last().take(n) =~= s.take(n));
        assert forall|i: int| n <= i < s.len() implies is_space(#[trigger] s[i]) by {
            if i < s.len() - 1 {
                assert(is_space(s.drop_last()[i]));
            }
        }
        n
    } else {
        assert(s.take(s.len() as int) =~= s);
        s.len() as int
    }
}

/// Two texts agree up to case exactly if they are equally long and at every place hold the same
/// byte or the two cases of one ASCII letter.
pub proof fn law_case_is_all_that_may_differ(a: Seq<u8>, b: Seq<u8>)
    ensures
        same_ignoring_case(a, b) <==> a.len() == b.len() && forall|i: int|
            0 <= i < a.len() ==> {
                ||| #[trigger] a[i] == b[i]
                ||| 0x41 <= a[i] <= 0x5a && b[i] == a[i] + 0x20
                ||| 0x41 <= b[i] <= 0x5a && a[i] == b[i] + 0x20
            },
{
    if a.len() == b.len() && forall|i: int|
        0 <= i < a.len() ==> {
            ||| #[trigger] a[i] == b[i]
            ||| 0x41 <= a[i] <= 0x5a && b[i] == a[i] + 0x20
            ||| 0x41 <= b[i] <= 0x5a && a[i] == b[i] + 0x20
        } {
        assert forall|i: int| 0 <= i < a.len() implies lower(#[trigger] a[i]) == lower(b[i]) by {}
    }
    if same_ignoring_case(a, b) {
        assert forall|i: int| 0 <= i < a.len() implies {
            ||| #[trigger] a[i] == b[i]
            ||| 0x41 <= a[i] <= 0x5a && b[i] == a[i] + 0x20
            ||| 0x41 <= b[i] <= 0x5a && a[i] == b[i] + 0x20
        } by {
            assert(lower(a[i]) == lower(b[i]));
        }
    }
}

/// Trimming a text hands back exactly the stretch between the white space around it.
pub proof fn law_trim_hands_back_the_bare_text(
    s: &[u8],
    before: Seq<u8>,
    bare: Seq<u8>,
    after: Seq<u8>,
    r: Vec<u8>,
)
    requires
        call_ensures(trim, (s,), r),
        s@ == before + bare + after,
        forall|i: int|
            0 <= i < before.len() ==> 0x09 <= #[trigger] before[i] <= 0x0d || before[i] == 0x20,
        forall|i: int|
            0 <= i < after.len() ==> 0x09 <= #[trigger] after[i] <= 0x0d || after[i] == 0x20,
        bare.len() > 0,
        !(0x09 <= bare[0] <= 0x0d || bare[0] == 0x20),
        !(0x09 <= bare.last() <= 0x0d || bare.last() == 0x20),
    ensures
        r@ == bare,
{
    law_trimming_ignores_white_space_around(before, bare, after);
}

} // verus!
