//! Account keys and the lists of keys that the games keep.
use vstd::prelude::*;

verus! {

/// A 32-byte account address.
#[derive(Clone, Copy, Debug)]
pub struct Pubkey {
    pub bytes: [u8; 32],
}

impl View for Pubkey {
    type V = Seq<u8>;

    open spec fn view(&self) -> Seq<u8> {
        self.bytes@
    }
}

impl PartialEq for Pubkey {
    fn eq(&self, other: &Self) -> (r: bool) {
        let mut i: usize = 0;
        while i < 32
            invariant
                0 <= i <= 32,
                self.bytes@.len() == 32,
                other.bytes@.len() == 32,
                forall|j: int| 0 <= j < i ==> self.bytes@[j] == other.bytes@[j],
            decreases 32 - i,
        {
            if self.bytes[i] != other.bytes[i] {
                return false;
            }
            i = i + 1;
        }
        assert(self.bytes@ =~= other.bytes@);
        true
    }
}

impl vstd::std_specs::cmp::PartialEqSpecImpl for Pubkey {
    open spec fn obeys_eq_spec() -> bool {
        true
    }

    open spec fn eq_spec(&self, other: &Self) -> bool {
        self@ == other@
    }
}

/// The all-zero address, which marks an empty seat.
pub open spec fn zero_key() -> Seq<u8> {
    Seq::new(32, |i: int| 0u8)
}

impl Pubkey {
    /// The all-zero address.
    pub fn zero() -> (k: Pubkey)
        ensures
            k@ == zero_key(),
    {
        let k = Pubkey { bytes: [0u8; 32] };
        assert(k@ =~= zero_key());
        k
    }

    /// Whether this is the all-zero address.
    pub fn is_zero(&self) -> (b: bool)
        ensures
            b == (self@ == zero_key()),
    {
        let z = Pubkey::zero();
        *self == z
    }
}

/// The keys of `s` other than `key`, in their order.
pub open spec fn without_key(s: Seq<Pubkey>, key: Seq<u8>) -> Seq<Pubkey>
    decreases s.len(),
{
    if s.len() == 0 {
        s
    } else if s.last()@ == key {
        without_key(s.drop_last(), key)
    } else {
        without_key(s.drop_last(), key).push(s.last())
    }
}

/// The position of the first key of `s` equal to `key` at or after `i`, or -1.
pub open spec fn first_position_from(s: Seq<Pubkey>, key: Seq<u8>, i: int) -> int
    decreases s.len() - i,
{
    if i < 0 || i >= s.len() {
        -1
    } else if s[i]@ == key {
        i
    } else {
        first_position_from(s, key, i + 1)
    }
}

/// `s` without its first key equal to `key`; `s` itself when there is none.
pub open spec fn without_first(s: Seq<Pubkey>, key: Seq<u8>) -> Seq<Pubkey> {
    let p = first_position_from(s, key, 0);
    if p < 0 {
        s
    } else {
        s.remove(p)
    }
}

/// The list that an index sweep over the first `n` positions leaves, when
/// it removes each key equal to `key` at the position it has reached and
/// then moves on to the next position; `None` when the sweep reaches a
/// position past the end of the shrunken list.
pub open spec fn sweep(s: Seq<Pubkey>, key: Seq<u8>, i: int, n: int) -> Option<Seq<Pubkey>>
    decreases n - i,
{
    if i >= n {
        Some(s)
    } else if i < 0 || i >= s.len() {
        None
    } else if s[i]@ == key {
        sweep(s.remove(i), key, i + 1, n)
    } else {
        sweep(s, key, i + 1, n)
    }
}

/// Removing a key from a list leaves no entry with that key, keeps every
/// other entry, and never makes the list longer.
pub proof fn lemma_without_key(s: Seq<Pubkey>, key: Seq<u8>)
    ensures
        forall|i: int|
            0 <= i < without_key(s, key).len() ==> (#[trigger] without_key(s, key)[i])@ != key,
        forall|i: int| 0 <= i < s.len() && s[i]@ != key ==> without_key(s, key).contains(#[trigger] s[i]),
        without_key(s, key).len() <= s.len(),
    decreases s.len(),
{
    if s.len() > 0 {
        let rest = s.drop_last();
        lemma_without_key(rest, key);
        assert forall|i: int| 0 <= i < s.len() && s[i]@ != key implies without_key(s, key).contains(
            #[trigger] s[i],
        ) by {
            if i < s.len() - 1 {
                assert(rest[i] == s[i]);
                let j = choose|j: int| 0 <= j < without_key(rest, key).len() && without_key(rest, key)[j] == rest[i];
                if s.last()@ == key {
                } else {
                    assert(without_key(s, key)[j] == s[i]);
                }
            } else {
                assert(without_key(s, key).last() == s[i]);
            }
        }
    }
}

/// A list without the key anywhere is its own list without that key.
proof fn lemma_without_absent_key(s: Seq<Pubkey>, key: Seq<u8>)
    requires
        forall|j: int| 0 <= j < s.len() ==> (#[trigger] s[j])@ != key,
    ensures
        without_key(s, key) == s,
    decreases s.len(),
{
    if s.len() > 0 {
        lemma_without_absent_key(s.drop_last(), key);
        assert(s.drop_last().push(s.last()) =~= s);
    }
}

/// A sweep over more positions than the list has fails.
proof fn lemma_sweep_short(s: Seq<Pubkey>, key: Seq<u8>, i: int, n: int)
    requires
        s.len() < n,
        0 <= i < n,
        i <= s.len() + 1,
    ensures
        sweep(s, key, i, n) is None,
    decreases n - i,
{
    if i < s.len() {
        if s[i]@ == key {
            lemma_sweep_short(s.remove(i), key, i + 1, n);
        } else {
            lemma_sweep_short(s, key, i + 1, n);
        }
    }
}

/// A sweep from position `i` over a whole list fails when the key sits at
/// a position from `i` on other than the last; otherwise it removes the
/// key from the last position, if it is there.
proof fn lemma_sweep_from(s: Seq<Pubkey>, key: Seq<u8>, i: int)
    requires
        0 <= i <= s.len(),
    ensures
        (exists|j: int| i <= j < s.len() - 1 && (#[trigger] s[j])@ == key) ==> sweep(
            s,
            key,
            i,
            s.len() as int,
        ) is None,
        !(exists|j: int| i <= j < s.len() - 1 && (#[trigger] s[j])@ == key) ==> sweep(
            s,
            key,
            i,
            s.len() as int,
        ) == Some(
            if i < s.len() && s.last()@ == key {
                s.drop_last()
            } else {
                s
            },
        ),
    decreases s.len() - i,
{
    let n = s.len() as int;
    if i < n {
        if s[i]@ == key {
            if i == n - 1 {
                assert(s.remove(i) =~= s.drop_last());
                assert(sweep(s.remove(i), key, i + 1, n) == Some(s.remove(i)));
            } else {
                lemma_sweep_short(s.remove(i), key, i + 1, n);
            }
        } else {
            lemma_sweep_from(s, key, i + 1);
            if exists|j: int| i <= j < n - 1 && (#[trigger] s[j])@ == key {
                let j = choose|j: int| i <= j < n - 1 && (#[trigger] s[j])@ == key;
                assert(j != i);
            }
        }
    }
}

/// Sweeping a whole list for a key goes through exactly when the key is
/// nowhere but, perhaps, at the last position; the list it leaves is then
/// the list without the key.
pub proof fn lemma_sweep_whole(s: Seq<Pubkey>, key: Seq<u8>)
    ensures
        sweep(s, key, 0, s.len() as int) is Some <==> (forall|j: int|
            0 <= j < s.len() - 1 ==> (#[trigger] s[j])@ != key),
        sweep(s, key, 0, s.len() as int) is Some ==> sweep(s, key, 0, s.len() as int) == Some(
            without_key(s, key),
        ),
{
    lemma_sweep_from(s, key, 0);
    if forall|j: int| 0 <= j < s.len() - 1 ==> (#[trigger] s[j])@ != key {
        if s.len() > 0 {
            lemma_without_absent_key(s.drop_last(), key);
        } else {
            assert(without_key(s, key) == s);
        }
    }
}

/// Keeps the keys other than `key`, in order.
pub fn remove_key(list: &Vec<Pubkey>, key: &Pubkey) -> (kept: Vec<Pubkey>)
    ensures
        kept@ == without_key(list@, key@),
{
    let mut kept: Vec<Pubkey> = Vec::new();
    let mut i: usize = 0;
    while i < list.len()
        invariant
            i <= list@.len(),
            kept@ == without_key(list@.take(i as int), key@),
        decreases list@.len() - i,
    {
        let k = list[i];
        proof {
            assert(list@.take(i + 1).drop_last() =~= list@.take(i as int));
            assert(list@.take(i + 1).last() == k);
        }
        if !(k == *key) {
            kept.push(k);
        }
        i = i + 1;
    }
    assert(list@.take(list@.len() as int) =~= list@);
    kept
}

/// Removes the first key equal to `key`, if there is one.
pub fn remove_first_key(list: &mut Vec<Pubkey>, key: &Pubkey)
    ensures
        final(list)@ == without_first(old(list)@, key@),
{
    let mut i: usize = 0;
    while i < list.len()
        invariant
            i <= list@.len(),
            list@ == old(list)@,
            first_position_from(list@, key@, 0) == first_position_from(list@, key@, i as int),
        decreases list@.len() - i,
    {
        if list[i] == *key {
            list.remove(i);
            return;
        }
        i = i + 1;
    }
}

/// A copy of the list.
pub fn copy_keys(list: &Vec<Pubkey>) -> (out: Vec<Pubkey>)
    ensures
        out@ == list@,
{
    let mut out: Vec<Pubkey> = Vec::new();
    let mut i: usize = 0;
    while i < list.len()
        invariant
            i <= list@.len(),
            out@ == list@.take(i as int),
        decreases list@.len() - i,
    {
        out.push(list[i]);
        i = i + 1;
        assert(out@ =~= list@.take(i as int));
    }
    assert(list@.take(list@.len() as int) =~= list@);
    out
}

/// Runs the index sweep over the whole list as it stands at the start:
/// each position is visited once in increasing order, and the key found
/// there is removed when it equals `key`. `None` when a visit falls past
/// the end of the list, which removals shorten.
pub fn sweep_keys(list: &Vec<Pubkey>, key: &Pubkey) -> (r: Option<Vec<Pubkey>>)
    ensures
        match r {
            Some(v) => sweep(list@, key@, 0, list@.len() as int) == Some(v@),
            None => sweep(list@, key@, 0, list@.len() as int) is None,
        },
{
    let n = list.len();
    let mut cur: Vec<Pubkey> = copy_keys(list);
    let mut i: usize = 0;
    while i < n
        invariant
            n == list@.len(),
            i <= n,
            sweep(list@, key@, 0, n as int) == sweep(cur@, key@, i as int, n as int),
        decreases n - i,
    {
        if i >= cur.len() {
            return None;
        }
        if cur[i] == *key {
            cur.remove(i);
        }
        i = i + 1;
    }
    Some(cur)
}

} // verus!
