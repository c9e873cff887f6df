//! One pass of `pselect` over the three descriptor sets, on bit arrays of
//! 64-bit words handled with the `bit_field` crate.

use vstd::prelude::*;
use bit_field::BitArray;

verus! {

/// Bit `bit` of a bit array: bit `bit % 64` of word `bit / 64`.
pub open spec fn word_bit(words: Seq<u64>, bit: int) -> bool {
    (words[bit / 64] >> ((bit % 64) as u64)) & 1u64 == 1u64
}

/// The bit array after bit `bit` has been set to `value`.
pub open spec fn with_bit(words: Seq<u64>, bit: int, value: bool) -> Seq<u64> {
    let w = words[bit / 64];
    let k = (bit % 64) as u64;
    words.update(
        bit / 64,
        if value {
            w | (1u64 << k)
        } else {
            w & !(1u64 << k)
        },
    )
}

/// `bit_field::BitArray::get_bit` on 64-bit words: bit `bit % 64` of word `bit / 64`.
#[verifier::external_body]
fn get_bit(words: &[u64], bit: usize) -> (r: bool)
    requires
        bit / 64 < words@.len(),
    ensures
        r == word_bit(words@, bit as int),
{
    words.get_bit(bit)
}

/// `bit_field::BitArray::set_bit` on 64-bit words: sets bit `bit % 64` of
/// word `bit / 64` to `value`, leaving every other bit as it was.
#[verifier::external_body]
fn set_bit(words: &mut [u64], bit: usize, value: bool)
    requires
        bit / 64 < old(words)@.len(),
    ensures
        final(words)@ == with_bit(old(words)@, bit as int, value),
{
    words.set_bit(bit, value)
}

proof fn lemma_word_bit_set(w: u64, k: u64, c: u64, v: bool)
    requires
        k < 64,
        c < 64,
    ensures
        c == k ==> ((if v { w | (1u64 << k) } else { w & !(1u64 << k) }) >> c) & 1u64 == (if v { 1u64 } else { 0u64 }),
        c != k ==> ((if v { w | (1u64 << k) } else { w & !(1u64 << k) }) >> c) & 1u64 == (w >> c) & 1u64,
{
    if v {
        assert(c == k ==> ((w | (1u64 << k)) >> c) & 1u64 == 1u64) by (bit_vector)
            requires k < 64u64, c < 64u64;
        assert(c != k ==> ((w | (1u64 << k)) >> c) & 1u64 == (w >> c) & 1u64) by (bit_vector)
            requires k < 64u64, c < 64u64;
    } else {
        assert(c == k ==> ((w & !(1u64 << k)) >> c) & 1u64 == 0u64) by (bit_vector)
            requires k < 64u64, c < 64u64;
        assert(c != k ==> ((w & !(1u64 << k)) >> c) & 1u64 == (w >> c) & 1u64) by (bit_vector)
            requires k < 64u64, c < 64u64;
    }
}

/// Setting a bit and reading it back gives the value set; every other bit
/// reads as before.
pub proof fn lemma_set_bit_then_get(words: Seq<u64>, bit: int, value: bool, other: int)
    requires
        0 <= bit,
        bit / 64 < words.len(),
        0 <= other,
        other / 64 < words.len(),
    ensures
        word_bit(with_bit(words, bit, value), bit) == value,
        other != bit ==> word_bit(with_bit(words, bit, value), other) == word_bit(words, other),
{
    let k = (bit % 64) as u64;
    let c = (other % 64) as u64;
    lemma_word_bit_set(words[bit / 64], k, k, value);
    if other / 64 == bit / 64 {
        lemma_word_bit_set(words[bit / 64], k, c, value);
        if other != bit {
            assert(c != k);
        }
    }
}

/// Which of the three sets a pass fills.
#[derive(Copy, Clone, Debug, PartialEq, Eq, Structural)]
pub enum SelectKind {
    Read,
    Write,
    Except,
}

/// What polling a descriptor found.
#[derive(Copy, Clone, Debug, PartialEq, Eq, Structural)]
pub enum FdPoll {
    /// No file is open on the descriptor.
    NoFile,
    /// The file reports the polled event.
    Ready,
    /// The file does not report the event, or the poll failed.
    NotReady,
}

/// The result bit of descriptor `i` after the pass, given its bit before.
pub open spec fn select_bit_spec(kind: SelectKind, requested: bool, poll: FdPoll, before: bool) -> bool {
    if !requested {
        if kind == SelectKind::Read {
            false
        } else {
            before
        }
    } else {
        poll == FdPoll::Ready
    }
}

/// Number of requested descriptors below `n` that are ready.
pub open spec fn ready_count(set: Seq<u64>, polls: Seq<FdPoll>, n: int) -> int
    decreases n,
{
    if n <= 0 {
        0
    } else {
        ready_count(set, polls, n - 1) + if word_bit(set, n - 1) && polls[n - 1] == FdPoll::Ready {
            1int
        } else {
            0int
        }
    }
}

/// A pass reports a descriptor exactly when it was requested and polling it
/// found the event (a descriptor with no file never counts); an
/// unrequested descriptor is cleared in the read set and left as it was in
/// the others.
pub proof fn lemma_select_bit(kind: SelectKind, requested: bool, poll: FdPoll, before: bool)
    ensures
        requested ==> (select_bit_spec(kind, requested, poll, before) <==> poll == FdPoll::Ready),
        !requested && kind == SelectKind::Read ==> !select_bit_spec(kind, requested, poll, before),
        !requested && kind != SelectKind::Read ==> select_bit_spec(kind, requested, poll, before) == before,
{
}

/// The ready count of a pass lies between 0 and the descriptors looked at,
/// and is 0 exactly when no requested descriptor is ready.
pub proof fn lemma_ready_count(set: Seq<u64>, polls: Seq<FdPoll>, n: int)
    requires
        0 <= n,
    ensures
        0 <= ready_count(set, polls, n) <= n,
        (ready_count(set, polls, n) == 0) <==> (forall|i: int|
            0 <= i < n ==> !(word_bit(set, i) && #[trigger] polls[i] == FdPoll::Ready)),
    decreases n,
{
    if n > 0 {
        lemma_ready_count(set, polls, n - 1);
    }
}

/// One pass of `pselect` over one descriptor set: for each descriptor below
/// `max_fdp1` (at most 255), `result` gets whether it was requested in `set`
/// and is ready according to `polls`; for the read set an unrequested
/// descriptor is cleared, for the other sets it is left alone. Returns the
/// number of ready descriptors.
pub fn select_update(
    kind: SelectKind,
    set: &[u64],
    result: &mut [u64],
    max_fdp1: usize,
    polls: &[FdPoll],
) -> (num: usize)
    requires
        max_fdp1 <= 255,
        set@.len() == 4,
        old(result)@.len() == 4,
        polls@.len() >= max_fdp1,
    ensures
        final(result)@.len() == 4,
        num == ready_count(set@, polls@, max_fdp1 as int),
        forall|i: int|
            0 <= i < max_fdp1 ==> word_bit(final(result)@, i) == select_bit_spec(
                kind,
                word_bit(set@, i),
                polls@[i],
                word_bit(old(result)@, i),
            ),
        forall|i: int| max_fdp1 <= i < 256 ==> word_bit(final(result)@, i) == word_bit(old(result)@, i),
{
    let mut num: usize = 0;
    let mut i: usize = 0;
    while i < max_fdp1
        invariant
            max_fdp1 <= 255,
            i <= max_fdp1,
            set@.len() == 4,
            result@.len() == 4,
            polls@.len() >= max_fdp1,
            num == ready_count(set@, polls@, i as int),
            num <= i,
            forall|j: int|
                0 <= j < i ==> word_bit(result@, j) == select_bit_spec(
                    kind,
                    word_bit(set@, j),
                    polls@[j],
                    word_bit(old(result)@, j),
                ),
            forall|j: int| i <= j < 256 ==> word_bit(result@, j) == word_bit(old(result)@, j),
        decreases max_fdp1 - i,
    {
        let ghost before = result@;
        let requested = get_bit(set, i);
        if !requested {
            if kind == SelectKind::Read {
                set_bit(result, i, false);
            }
        } else {
            match polls[i] {
                FdPoll::NoFile => set_bit(result, i, false),
                FdPoll::Ready => {
                    num += 1;
                    set_bit(result, i, true);
                },
                FdPoll::NotReady => set_bit(result, i, false),
            }
        }
        proof {
            let v = select_bit_spec(kind, requested, polls@[i as int], word_bit(before, i as int));
            if !requested && kind != SelectKind::Read {
                assert(result@ == before);
            } else {
                assert(result@ == with_bit(before, i as int, v));
                assert forall|j: int| 0 <= j < 256 implies word_bit(result@, j) == if j == i {
                    v
                } else {
                    word_bit(before, j)
                } by {
                    lemma_set_bit_then_get(before, i as int, v, j);
                }
            }
            assert(word_bit(result@, i as int) == v);
        }
        i = i + 1;
    }
    num
}

/// What one pass of `select_update` leaves in `after`, starting from
/// `before`, for the first `max_fdp1` descriptors.
pub open spec fn pass_result(
    kind: SelectKind,
    set: Seq<u64>,
    polls: Seq<FdPoll>,
    before: Seq<u64>,
    after: Seq<u64>,
    max_fdp1: int,
) -> bool {
    &&& after.len() == 4
    &&& forall|i: int|
        0 <= i < max_fdp1 ==> word_bit(after, i) == select_bit_spec(
            kind,
            word_bit(set, i),
            polls[i],
            word_bit(before, i),
        )
    &&& forall|i: int| max_fdp1 <= i < 256 ==> word_bit(after, i) == word_bit(before, i)
}

/// Largest descriptor count `pselect` looks at.
pub const PSELECT_MAX_FDS: usize = 255;

/// The descriptor count `pselect` works with: at most 255.
pub fn pselect_limit(max_fdp1: usize) -> (r: usize)
    ensures
        r == if max_fdp1 < PSELECT_MAX_FDS {
            max_fdp1
        } else {
            PSELECT_MAX_FDS
        },
{
    if max_fdp1 < PSELECT_MAX_FDS {
        max_fdp1
    } else {
        PSELECT_MAX_FDS
    }
}

/// Time (ns) after which `pselect` gives up: `now` plus the timeout when one
/// was given, else never.
pub fn pselect_deadline(now: u64, timeout_ns: Option<u64>) -> (r: u64)
    requires
        timeout_ns is Some ==> now + timeout_ns->0 <= u64::MAX,
    ensures
        r == match timeout_ns {
            Some(t) => (now + t) as u64,
            None => u64::MAX,
        },
{
    match timeout_ns {
        Some(t) => now + t,
        None => u64::MAX,
    }
}

/// The caller's descriptor sets, four words each; `None` for a set whose
/// pointer is not valid.
pub struct PselectSets {
    pub read: Option<Vec<u64>>,
    pub write: Option<Vec<u64>>,
    pub except: Option<Vec<u64>>,
}

/// The result sets built up over the rounds, four words each.
pub struct PselectResults {
    pub read: Vec<u64>,
    pub write: Vec<u64>,
    pub except: Vec<u64>,
}

/// What `pselect` does after a round.
#[derive(Copy, Clone, Debug, PartialEq, Eq, Structural)]
pub enum PselectAction {
    /// Copy the result sets back to the valid caller sets and return this count.
    Return(usize),
    /// Yield and poll again.
    Wait,
}

/// Ready descriptors a set contributes in one round (none when not given).
pub open spec fn set_count(set: Option<Vec<u64>>, polls: Seq<FdPoll>, max_fdp1: int) -> int {
    match set {
        Some(s) => ready_count(s@, polls, max_fdp1),
        None => 0,
    }
}

/// What a round leaves in one result set.
pub open spec fn round_result(
    kind: SelectKind,
    set: Option<Vec<u64>>,
    polls: Seq<FdPoll>,
    before: Seq<u64>,
    after: Seq<u64>,
    max_fdp1: int,
) -> bool {
    match set {
        Some(s) => pass_result(kind, s@, polls, before, after, max_fdp1),
        None => after == before,
    }
}

proof fn lemma_ready_count_bound(set: Seq<u64>, polls: Seq<FdPoll>, n: int)
    requires
        0 <= n,
    ensures
        0 <= ready_count(set, polls, n) <= n,
    decreases n,
{
    if n > 0 {
        lemma_ready_count_bound(set, polls, n - 1);
    }
}

/// One round of `pselect`: polls the read, write and exception sets that
/// were given (`*_polls[i]` is what polling descriptor `i` for that set
/// found), updates the result sets, and returns the count of ready
/// descriptors when there is one, 0 once `now` is past `deadline`, and asks
/// to wait otherwise.
pub fn pselect_round(
    sets: &PselectSets,
    results: &mut PselectResults,
    max_fdp1: usize,
    read_polls: &[FdPoll],
    write_polls: &[FdPoll],
    except_polls: &[FdPoll],
    now: u64,
    deadline: u64,
) -> (r: PselectAction)
    requires
        max_fdp1 <= PSELECT_MAX_FDS,
        sets.read is Some ==> sets.read->0@.len() == 4,
        sets.write is Some ==> sets.write->0@.len() == 4,
        sets.except is Some ==> sets.except->0@.len() == 4,
        old(results).read@.len() == 4,
        old(results).write@.len() == 4,
        old(results).except@.len() == 4,
        read_polls@.len() >= max_fdp1,
        write_polls@.len() >= max_fdp1,
        except_polls@.len() >= max_fdp1,
    ensures
        round_result(SelectKind::Read, sets.read, read_polls@, old(results).read@, final(results).read@, max_fdp1 as int),
        round_result(SelectKind::Write, sets.write, write_polls@, old(results).write@, final(results).write@, max_fdp1 as int),
        round_result(SelectKind::Except, sets.except, except_polls@, old(results).except@, final(results).except@, max_fdp1 as int),
        ({
            let num = set_count(sets.read, read_polls@, max_fdp1 as int) + set_count(sets.write, write_polls@, max_fdp1 as int)
                + set_count(sets.except, except_polls@, max_fdp1 as int);
            r == if num != 0 {
                PselectAction::Return(num as usize)
            } else if now > deadline {
                PselectAction::Return(0)
            } else {
                PselectAction::Wait
            }
        }),
{
    let mut num: usize = 0;
    match &sets.read {
        Some(s) => {
            proof { lemma_ready_count_bound(s@, read_polls@, max_fdp1 as int); }
            let n = select_update(SelectKind::Read, s.as_slice(), results.read.as_mut_slice(), max_fdp1, read_polls);
            num = num + n;
        },
        None => {},
    }
    assert(num <= max_fdp1);
    match &sets.write {
        Some(s) => {
            proof { lemma_ready_count_bound(s@, write_polls@, max_fdp1 as int); }
            let n = select_update(SelectKind::Write, s.as_slice(), results.write.as_mut_slice(), max_fdp1, write_polls);
            num = num + n;
        },
        None => {},
    }
    assert(num <= 2 * max_fdp1);
    match &sets.except {
        Some(s) => {
            proof { lemma_ready_count_bound(s@, except_polls@, max_fdp1 as int); }
            let n = select_update(SelectKind::Except, s.as_slice(), results.except.as_mut_slice(), max_fdp1, except_polls);
            num = num + n;
        },
        None => {},
    }
    if num != 0 {
        PselectAction::Return(num)
    } else if now > deadline {
        PselectAction::Return(0)
    } else {
        PselectAction::Wait
    }
}

} // verus!
