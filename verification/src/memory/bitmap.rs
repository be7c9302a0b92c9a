//! Bitmaps packed into 64-bit words, and the runs of set bits in them.
use vstd::prelude::*;

verus! {

/// Bit `i` of a bitmap packed into 64-bit words.
pub open spec fn bit_of(words: Seq<u64>, i: int) -> bool {
    words[i / 64] & (1u64 << ((i % 64) as u64)) != 0
}

/// The first `n` bits of a packed bitmap.
pub open spec fn bits_of(words: Seq<u64>, n: nat) -> Seq<bool> {
    Seq::new(n, |i: int| bit_of(words, i))
}

/// The maximal runs of set bits in `bits[lo..hi)`, in ascending order, each as
/// its first index and the index after its last.
pub open spec fn runs(bits: Seq<bool>, lo: int, hi: int) -> Seq<(int, int)>
    decreases hi - lo,
{
    if hi <= lo {
        Seq::empty()
    } else {
        let before = runs(bits, lo, hi - 1);
        if !bits[hi - 1] {
            before
        } else if before.len() > 0 && before.last().1 == hi - 1 {
            before.drop_last().push((before.last().0, hi))
        } else {
            before.push((hi - 1, hi))
        }
    }
}

/// Whether `r` is a maximal run of set bits in `bits[lo..hi)`.
pub open spec fn is_maximal_run(bits: Seq<bool>, lo: int, hi: int, r: (int, int)) -> bool {
    &&& lo <= r.0 < r.1 <= hi
    &&& forall|k: int| r.0 <= k < r.1 ==> bits[k]
    &&& r.0 == lo || !bits[r.0 - 1]
    &&& r.1 == hi || !bits[r.1]
}

/// Every listed run is maximal, the runs ascend with a gap between them, and
/// every set bit lies in one of them.
pub proof fn runs_are_maximal(bits: Seq<bool>, lo: int, hi: int)
    requires
        0 <= lo <= hi <= bits.len(),
    ensures
        forall|i: int|
            0 <= i < runs(bits, lo, hi).len() ==> is_maximal_run(
                bits,
                lo,
                hi,
                #[trigger] runs(bits, lo, hi)[i],
            ),
        forall|i: int, j: int|
            0 <= i < j < runs(bits, lo, hi).len() ==> (#[trigger] runs(bits, lo, hi)[i]).1 < (
            #[trigger] runs(bits, lo, hi)[j]).0,
        forall|k: int|
            lo <= k < hi && bits[k] ==> exists|i: int|
                0 <= i < runs(bits, lo, hi).len() && (#[trigger] runs(bits, lo, hi)[i]).0 <= k
                    < runs(bits, lo, hi)[i].1,
    decreases hi - lo,
{
    if hi > lo {
        runs_are_maximal(bits, lo, hi - 1);
        let before = runs(bits, lo, hi - 1);
        let now = runs(bits, lo, hi);
        if bits[hi - 1] && before.len() > 0 && before.last().1 == hi - 1 {
            let n = before.len() - 1;
            assert(now[n] == (before[n].0, hi));
            assert forall|k: int| lo <= k < hi && bits[k] implies exists|i: int|
                0 <= i < now.len() && (#[trigger] now[i]).0 <= k < now[i].1 by {
                if k < hi - 1 {
                    let i = choose|i: int|
                        0 <= i < before.len() && (#[trigger] before[i]).0 <= k < before[i].1;
                    assert(now[i].0 <= k < now[i].1);
                } else {
                    assert(now[n].0 <= k < now[n].1);
                }
            }
        } else if bits[hi - 1] {
            let n = before.len() as int;
            assert(now[n] == (hi - 1, hi));
            assert(hi - 1 > lo ==> !bits[hi - 2]) by {
                if hi - 1 > lo && bits[hi - 2] {
                    let i = choose|i: int|
                        0 <= i < before.len() && (#[trigger] before[i]).0 <= hi - 2 < before[i].1;
                    assert(is_maximal_run(bits, lo, hi - 1, before[i]));
                    if i < before.len() - 1 {
                        assert(before[i].1 < before[before.len() - 1].0);
                        assert(is_maximal_run(bits, lo, hi - 1, before[before.len() - 1]));
                    }
                }
            }
            assert forall|i: int| 0 <= i < now.len() implies is_maximal_run(
                bits,
                lo,
                hi,
                #[trigger] now[i],
            ) by {
                if i < n {
                    assert(is_maximal_run(bits, lo, hi - 1, before[i]));
                    assert(before[i].1 < hi - 1) by {
                        if i < n - 1 {
                            assert(before[i].1 < before[n - 1].0);
                        }
                        assert(is_maximal_run(bits, lo, hi - 1, before[n - 1]));
                    }
                }
            }
            assert forall|i: int, j: int| 0 <= i < j < now.len() implies (#[trigger] now[i]).1 < (
            #[trigger] now[j]).0 by {
                if j == n {
                    assert(is_maximal_run(bits, lo, hi - 1, before[i]));
                    assert(is_maximal_run(bits, lo, hi - 1, before[n - 1]));
                    if i < n - 1 {
                        assert(before[i].1 < before[n - 1].0);
                    }
                }
            }
            assert forall|k: int| lo <= k < hi && bits[k] implies exists|i: int|
                0 <= i < now.len() && (#[trigger] now[i]).0 <= k < now[i].1 by {
                if k < hi - 1 {
                    let i = choose|i: int|
                        0 <= i < before.len() && (#[trigger] before[i]).0 <= k < before[i].1;
                    assert(now[i].0 <= k < now[i].1);
                } else {
                    assert(now[n].0 <= k < now[n].1);
                }
            }
        } else {
            assert forall|i: int| 0 <= i < now.len() implies is_maximal_run(
                bits,
                lo,
                hi,
                #[trigger] now[i],
            ) by {
                assert(is_maximal_run(bits, lo, hi - 1, before[i]));
            }
        }
    }
}

proof fn lemma_word_bits(w: u64, j: u64, k: u64)
    by (bit_vector)
    requires
        j < 64,
        k < 64,
    ensures
        ((w | (1u64 << k)) & (1u64 << j) != 0) == (j == k || w & (1u64 << j) != 0),
        ((w & !(1u64 << k)) & (1u64 << j) != 0) == (j != k && w & (1u64 << j) != 0),
        0u64 & (1u64 << j) == 0,
        (w & (1u64 << j) != 0) == ((w >> j) % 2 == 1),
{
}

/// Bits are counted from the lowest bit of the first word on, 64 to a word.
pub proof fn bits_are_counted_from_the_lowest(words: Seq<u64>, i: int)
    requires
        0 <= i < 64 * words.len(),
    ensures
        bit_of(words, i) <==> (words[i / 64] >> ((i % 64) as u64)) % 2 == 1,
{
    lemma_word_bits(words[i / 64], (i % 64) as u64, 0);
}

/// A bitmap of zero words has no bit set.
pub proof fn lemma_zero_words(words: Seq<u64>, i: int)
    requires
        0 <= i / 64 < words.len(),
        words[i / 64] == 0,
    ensures
        !bit_of(words, i),
{
    lemma_word_bits(0, (i % 64) as u64, 0);
}

/// Reads bit `i`.
pub fn test_bit(words: &[u64], i: usize) -> (r: bool)
    requires
        i / 64 < words@.len(),
    ensures
        r == bit_of(words@, i as int),
{
    words[i / 64] & (1u64 << ((i % 64) as u64)) != 0
}

/// Sets bit `i` to `value` and leaves the others alone.
pub fn assign_bit(words: &mut Vec<u64>, i: usize, value: bool)
    requires
        i / 64 < old(words)@.len(),
    ensures
        final(words)@.len() == old(words)@.len(),
        forall|j: int|
            0 <= j < 64 * old(words)@.len() ==> #[trigger] bit_of(final(words)@, j) == (if j == i {
                value
            } else {
                bit_of(old(words)@, j)
            }),
{
    let w: u64 = words[i / 64];
    let mask: u64 = 1u64 << ((i % 64) as u64);
    let new_word: u64 = if value {
        w | mask
    } else {
        w & !mask
    };
    words[i / 64] = new_word;
    proof {
        assert forall|j: int| 0 <= j < 64 * old(words)@.len() implies #[trigger] bit_of(words@, j)
            == (if j == i {
            value
        } else {
            bit_of(old(words)@, j)
        }) by {
            if j / 64 == i / 64 {
                lemma_word_bits(w, (j % 64) as u64, (i % 64) as u64);
            }
        }
    }
}

/// Lists the maximal runs of set bits in `[lo, hi)`.
pub fn find_runs(words: &[u64], lo: usize, hi: usize) -> (out: Vec<(usize, usize)>)
    requires
        lo <= hi <= 64 * words@.len(),
    ensures
        out@.len() == runs(bits_of(words@, hi as nat), lo as int, hi as int).len(),
        forall|i: int|
            0 <= i < out@.len() ==> {
                let r = runs(bits_of(words@, hi as nat), lo as int, hi as int)[i];
                (#[trigger] out@[i]).0 == r.0 && out@[i].1 == r.1 && lo <= r.0 < r.1 <= hi
            },
{
    let ghost bits = bits_of(words@, hi as nat);
    let mut out: Vec<(usize, usize)> = Vec::new();
    let mut run_start: Option<usize> = None;
    let mut page: usize = lo;
    while page < hi
        invariant
            lo <= page <= hi <= 64 * words@.len(),
            bits == bits_of(words@, hi as nat),
            match run_start {
                None => {
                    &&& runs(bits, lo as int, page as int).len() == out@.len()
                    &&& out@.len() > 0 ==> out@.last().1 < page
                },
                Some(s) => {
                    &&& lo <= s < page
                    &&& runs(bits, lo as int, page as int).len() == out@.len() + 1
                    &&& runs(bits, lo as int, page as int).last() == (s as int, page as int)
                },
            },
            forall|i: int|
                0 <= i < out@.len() ==> {
                    let r = runs(bits, lo as int, page as int)[i];
                    (#[trigger] out@[i]).0 == r.0 && out@[i].1 == r.1 && lo <= r.0 < r.1 <= page
                },
        decreases hi - page,
    {
        assert(bits[page as int] == bit_of(words@, page as int));
        if test_bit(words, page) {
            if run_start.is_none() {
                run_start = Some(page);
            }
        } else if let Some(s) = run_start {
            run_start = None;
            out.push((s, page));
        }
        page = page + 1;
    }
    if let Some(s) = run_start {
        out.push((s, hi));
    }
    out
}

} // verus!
