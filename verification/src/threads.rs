//! Parsing of thread identities from the process's task directory.
//!
//! On Linux, the threads of the current process appear as directory entries
//! whose basenames are decimal task ids. Reading the directory is platform
//! work; turning one entry's basename into a task id is here.

use vstd::prelude::*;

verus! {

/// Whether `b` is a non-empty string of decimal digit bytes.
pub open spec fn spec_is_digits(b: Seq<u8>) -> bool {
    b.len() > 0 && forall|i: int| 0 <= i < b.len() ==> 0x30 <= #[trigger] b[i] <= 0x39
}

/// The number denoted by a string of decimal digit bytes.
pub open spec fn spec_digits_value(b: Seq<u8>) -> int
    decreases b.len(),
{
    if b.len() == 0 {
        0
    } else {
        spec_digits_value(b.drop_last()) * 10 + (b.last() - 0x30)
    }
}

proof fn lemma_digits_value_nonneg(b: Seq<u8>)
    requires
        forall|i: int| 0 <= i < b.len() ==> 0x30 <= #[trigger] b[i] <= 0x39,
    ensures
        spec_digits_value(b) >= 0,
    decreases b.len(),
{
    if b.len() > 0 {
        lemma_digits_value_nonneg(b.drop_last());
    }
}

/// Appending further digits never shrinks the denoted number.
proof fn lemma_digits_value_monotonic(b: Seq<u8>, i: int)
    requires
        forall|k: int| 0 <= k < b.len() ==> 0x30 <= #[trigger] b[k] <= 0x39,
        0 <= i <= b.len(),
    ensures
        spec_digits_value(b) >= spec_digits_value(b.take(i)),
    decreases b.len() - i,
{
    if i < b.len() {
        lemma_digits_value_monotonic(b, i + 1);
        assert(b.take(i + 1).drop_last() =~= b.take(i));
        assert(b.take(i + 1).last() == b[i]);
        lemma_digits_value_nonneg(b.take(i));
    } else {
        assert(b.take(i) =~= b);
    }
}

/// Parses a task-directory entry's basename as a decimal task id. `None`
/// means the name is not a plain decimal number, or the number does not fit
/// the id type.
pub fn parse_tid(name: &[u8]) -> (r: Option<crate::ThreadId>)
    ensures
        match r {
            Some(v) => spec_is_digits(name@) && v == spec_digits_value(name@),
            None => !spec_is_digits(name@) || spec_digits_value(name@) > i32::MAX,
        },
{
    let n = name.len();
    if n == 0 {
        return None;
    }
    let mut acc: i64 = 0;
    let mut i: usize = 0;
    while i < n
        invariant
            n == name@.len(),
            0 < n,
            0 <= i <= n,
            forall|k: int| 0 <= k < i ==> 0x30 <= #[trigger] name@[k] <= 0x39,
            0 <= acc <= i32::MAX,
            acc == spec_digits_value(name@.take(i as int)),
        decreases n - i,
    {
        let c = name[i];
        if c < 0x30 || c > 0x39 {
            return None;
        }
        let d = (c - 0x30) as i64;
        let next: i64 = acc * 10 + d;
        proof {
            assert(name@.take(i as int + 1).drop_last() =~= name@.take(i as int));
            assert(name@.take(i as int + 1).last() == name@[i as int]);
        }
        if next > (i32::MAX as i64) {
            proof {
                if spec_is_digits(name@) {
                    lemma_digits_value_monotonic(name@, i as int + 1);
                }
            }
            return None;
        }
        acc = next;
        i += 1;
    }
    proof {
        assert(name@.take(n as int) =~= name@);
    }
    Some(acc as i32)
}

} // verus!
