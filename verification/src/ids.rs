use vstd::prelude::*;
use vstd::string::StrSliceExecFns;
use crate::error::Error;

verus! {

/// Whether `c` is a decimal digit.
pub open spec fn is_digit(c: char) -> bool {
    ('0' as u32) <= (c as u32) && (c as u32) <= ('9' as u32)
}

/// The numeric value of a digit.
pub open spec fn digit_val(c: char) -> int {
    (c as u32) as int - ('0' as u32) as int
}

/// The value of a digit run read as a decimal number.
pub open spec fn digits_value(s: Seq<char>) -> int
    decreases s.len(),
{
    if s.len() == 0 {
        0
    } else {
        digits_value(s.drop_last()) * 10 + digit_val(s.last())
    }
}

/// The length of the run before the first separator, or the whole length if
/// no separator occurs.
pub open spec fn prefix_len(s: Seq<char>) -> int
    decreases s.len(),
{
    if s.len() == 0 {
        0
    } else if s[0] == '-' {
        0
    } else {
        1 + prefix_len(s.skip(1))
    }
}

/// The segment before the first separator.
pub open spec fn height_prefix(s: Seq<char>) -> Seq<char> {
    s.take(prefix_len(s))
}

/// Every character is a decimal digit.
pub open spec fn all_digits(s: Seq<char>) -> bool {
    forall|i: int| 0 <= i < s.len() ==> is_digit(#[trigger] s[i])
}

/// A composite identifier: a nonempty run of digits whose value fits a
/// 32-bit height, then a separator, then an arbitrary suffix.
pub open spec fn valid_composite_id(s: Seq<char>) -> bool {
    &&& 1 <= prefix_len(s) < s.len()
    &&& all_digits(height_prefix(s))
    &&& digits_value(height_prefix(s)) <= i32::MAX as int
}

pub proof fn lemma_prefix_len_spec(s: Seq<char>)
    ensures
        0 <= prefix_len(s) <= s.len(),
        forall|j: int| 0 <= j < prefix_len(s) ==> s[j] != '-',
        prefix_len(s) < s.len() ==> s[prefix_len(s)] == '-',
    decreases s.len(),
{
    if s.len() == 0 {
    } else if s[0] == '-' {
    } else {
        lemma_prefix_len_spec(s.skip(1));
        assert forall|j: int| 0 <= j < prefix_len(s) implies s[j] != '-' by {
            if j > 0 {
                assert(s.skip(1)[j - 1] == s[j]);
            }
        }
        if prefix_len(s) < s.len() {
            assert(s.skip(1)[prefix_len(s) - 1] == s[prefix_len(s)]);
        }
    }
}

pub proof fn lemma_prefix_len_lower(s: Seq<char>, i: int)
    requires
        0 <= i <= s.len(),
        forall|j: int| 0 <= j < i ==> s[j] != '-',
    ensures
        prefix_len(s) >= i,
    decreases i,
{
    lemma_prefix_len_spec(s);
    if i > 0 {
        assert(s[0] != '-');
        assert forall|j: int| 0 <= j < i - 1 implies s.skip(1)[j] != '-' by {
            assert(s.skip(1)[j] == s[j + 1]);
        }
        lemma_prefix_len_lower(s.skip(1), i - 1);
        assert(prefix_len(s) == 1 + prefix_len(s.skip(1)));
    }
}

pub proof fn lemma_digits_value_nonneg(s: Seq<char>)
    requires
        all_digits(s),
    ensures
        digits_value(s) >= 0,
    decreases s.len(),
{
    if s.len() > 0 {
        assert(all_digits(s.drop_last()));
        lemma_digits_value_nonneg(s.drop_last());
    }
}

/// Reading more digits never shrinks the value.
pub proof fn lemma_digits_prefix_mono(s: Seq<char>, k: int)
    requires
        all_digits(s),
        0 <= k <= s.len(),
    ensures
        digits_value(s.take(k)) <= digits_value(s),
    decreases s.len(),
{
    if k == s.len() {
        assert(s.take(k) =~= s);
    } else {
        assert(all_digits(s.drop_last()));
        assert(s.drop_last().take(k) =~= s.take(k));
        lemma_digits_prefix_mono(s.drop_last(), k);
        lemma_digits_value_nonneg(s.drop_last());
    }
}

/// Parses the numeric height prefix of a composite identifier: the segment
/// before the first separator, read as a non-negative decimal integer.
/// An identifier without a separator, with an empty or non-numeric prefix,
/// or with a value over the 32-bit height range is malformed.
pub fn extract_block_num(block_id: &String) -> (r: Result<i32, Error>)
    ensures
        valid_composite_id(block_id@) ==> (r matches Ok(n) && n as int == digits_value(
            height_prefix(block_id@),
        )),
        !valid_composite_id(block_id@) ==> (r matches Err(Error::MalformedIdentifier(m)) && m@
            == block_id@),
{
    let s = block_id.as_str();
    let n = s.unicode_len();
    let mut i: usize = 0;
    while i < n && s.get_char(i) != '-'
        invariant
            i <= n,
            n == s@.len(),
            s@ == block_id@,
            forall|j: int| 0 <= j < i ==> s@[j] != '-',
        decreases n - i,
    {
        i = i + 1;
    }
    proof {
        lemma_prefix_len_lower(s@, i as int);
        lemma_prefix_len_spec(s@);
        assert(prefix_len(s@) == i as int);
    }
    if i == n || i == 0 {
        return Result::Err(Error::MalformedIdentifier(block_id.clone()));
    }
    let plen = i;
    let mut val: i64 = 0;
    let mut k: usize = 0;
    while k < plen
        invariant
            k <= plen,
            plen as int == prefix_len(s@),
            1 <= plen < n,
            n == s@.len(),
            s@ == block_id@,
            forall|j: int| 0 <= j < k ==> is_digit(#[trigger] s@[j]),
            val as int == digits_value(s@.take(k as int)),
            0 <= val <= i32::MAX,
        decreases plen - k,
    {
        let c = s.get_char(k);
        proof {
            assert(height_prefix(s@)[k as int] == s@[k as int]);
            assert(s@.take(k as int + 1).drop_last() =~= s@.take(k as int));
            assert(s@.take(k as int + 1).last() == s@[k as int]);
        }
        if (c as u32) < ('0' as u32) || ('9' as u32) < (c as u32) {
            return Result::Err(Error::MalformedIdentifier(block_id.clone()));
        }
        let d = (c as u32) - ('0' as u32);
        let next = val * 10 + d as i64;
        if next > i32::MAX as i64 {
            proof {
                if all_digits(height_prefix(s@)) {
                    assert forall|j: int| 0 <= j < plen implies is_digit(#[trigger] s@[j]) by {
                        assert(height_prefix(s@)[j] == s@[j]);
                    }
                    assert(all_digits(s@.take(plen as int)));
                    lemma_digits_prefix_mono(s@.take(plen as int), k as int + 1);
                    assert(s@.take(plen as int).take(k as int + 1) =~= s@.take(k as int + 1));
                    assert(!valid_composite_id(block_id@));
                }
            }
            return Result::Err(Error::MalformedIdentifier(block_id.clone()));
        }
        val = next;
        k = k + 1;
    }
    proof {
        assert(height_prefix(s@) =~= s@.take(plen as int));
        assert(valid_composite_id(block_id@));
    }
    Result::Ok(val as i32)
}

} // verus!
