//! Sets of contiguous character n-grams.

use crate::chars::same_chars;
use vstd::prelude::*;
use vstd::seq_lib::seq_to_set_is_finite;

verus! {

/// The `n` characters of `s` that start at position `i`.
pub open spec fn window(s: Seq<char>, i: int, n: nat) -> Seq<char> {
    s.subrange(i, i + n)
}

/// The distinct n-grams of `s`: every window of `n` consecutive characters,
/// without padding. A sequence shorter than `n` has none.
pub open spec fn ngrams(s: Seq<char>, n: nat) -> Set<Seq<char>> {
    Set::new(
        |g: Seq<char>| exists|i: int| 0 <= i && i + n <= s.len() && g == #[trigger] window(s, i, n),
    )
}

/// The n-grams of `s` whose window starts before position `k`.
spec fn ngrams_before(s: Seq<char>, n: nat, k: int) -> Set<Seq<char>> {
    Set::new(
        |g: Seq<char>|
            exists|i: int| 0 <= i < k && i + n <= s.len() && g == #[trigger] window(s, i, n),
    )
}

/// The n-grams that start before `k` are finitely many, at most `k`.
proof fn lemma_ngrams_before_finite(s: Seq<char>, n: nat, k: int)
    requires
        0 <= k,
        k + n <= s.len() + 1,
    ensures
        ngrams_before(s, n, k).finite(),
        ngrams_before(s, n, k).len() <= k,
    decreases k,
{
    if k == 0 {
        assert(ngrams_before(s, n, k) =~= Set::<Seq<char>>::empty());
    } else {
        lemma_ngrams_before_finite(s, n, k - 1);
        lemma_ngrams_before_step(s, n, k - 1);
    }
}

/// Moving the bound past a window adds exactly that window.
proof fn lemma_ngrams_before_step(s: Seq<char>, n: nat, k: int)
    requires
        0 <= k,
        k + n <= s.len(),
    ensures
        ngrams_before(s, n, k + 1) == ngrams_before(s, n, k).insert(window(s, k, n)),
{
    assert(ngrams_before(s, n, k + 1) =~= ngrams_before(s, n, k).insert(window(s, k, n)));
}

/// A sequence has finitely many n-grams: none where it is shorter than `n`,
/// and otherwise at least one and at most one for each window.
pub proof fn lemma_ngrams_finite(s: Seq<char>, n: nat)
    ensures
        ngrams(s, n).finite(),
        s.len() < n ==> ngrams(s, n) == Set::<Seq<char>>::empty(),
        n <= s.len() ==> ngrams(s, n).len() <= s.len() - n + 1,
        0 < n <= s.len() ==> ngrams(s, n).len() > 0,
{
    if s.len() < n {
        assert(ngrams(s, n) =~= Set::<Seq<char>>::empty());
    } else {
        let k = s.len() - n + 1;
        lemma_ngrams_before_finite(s, n, k);
        assert(ngrams_before(s, n, k) =~= ngrams(s, n));
        assert(ngrams(s, n).contains(window(s, 0, n)));
    }
}

/// The character sequences held by a vector of character vectors.
spec fn views(grams: Seq<Vec<char>>) -> Seq<Seq<char>> {
    Seq::new(grams.len(), |i: int| grams[i]@)
}

/// A finite set of n-grams, kept as a list in which none occurs twice.
pub struct NgramSet {
    grams: Vec<Vec<char>>,
}

impl NgramSet {
    /// The stored n-grams in the order in which they were first inserted.
    spec fn entries(&self) -> Seq<Seq<char>> {
        views(self.grams@)
    }

    #[verifier::type_invariant]
    spec fn distinct(&self) -> bool {
        self.entries().no_duplicates()
    }

    /// The empty set.
    pub fn new() -> (set: NgramSet)
        ensures
            set@ == Set::<Seq<char>>::empty(),
    {
        let set = NgramSet { grams: Vec::new() };
        set
    }

    /// Number of distinct n-grams in the set.
    pub fn len(&self) -> (l: usize)
        ensures
            self@.finite(),
            l == self@.len(),
    {
        proof {
            use_type_invariant(self);
            self.entries().unique_seq_to_set();
            seq_to_set_is_finite(self.entries());
        }
        self.grams.len()
    }

    /// Whether `gram` is a member.
    pub fn contains(&self, gram: &Vec<char>) -> (found: bool)
        ensures
            found == self@.contains(gram@),
    {
        let mut i: usize = 0;
        while i < self.grams.len()
            invariant
                i <= self.grams.len(),
                forall|k: int| 0 <= k < i ==> self.entries()[k] != gram@,
            decreases self.grams.len() - i,
        {
            if same_chars(&self.grams[i], gram) {
                assert(self.entries()[i as int] == gram@);
                return true;
            }
            i = i + 1;
        }
        false
    }

    /// The set with `gram` added; unchanged where `gram` is already a member.
    pub fn inserted(self, gram: Vec<char>) -> (set: NgramSet)
        ensures
            set@ == self@.insert(gram@),
    {
        proof {
            use_type_invariant(&self);
        }
        if self.contains(&gram) {
            return self;
        }
        let ghost before = self.entries();
        let mut grams = self.grams;
        grams.push(gram);
        proof {
            let after = views(grams@);
            assert(after =~= before.push(gram@));
            before.lemma_push_to_set_commute(gram@);
            assert(after.no_duplicates());
        }
        NgramSet { grams }
    }

    /// The set of n-grams of `s`.
    pub fn of_chars(s: &Vec<char>, n: usize) -> (set: NgramSet)
        requires
            n > 0,
        ensures
            set@ == ngrams(s@, n as nat),
    {
        let len: usize = s.len();
        let mut set = NgramSet::new();
        if len < n {
            proof {
                lemma_ngrams_finite(s@, n as nat);
            }
            return set;
        }
        let count: usize = len - n + 1;
        let mut i: usize = 0;
        while i < count
            invariant
                i <= count,
                count == len - n + 1,
                len == s@.len(),
                0 < n <= len,
                set@ == ngrams_before(s@, n as nat, i as int),
            decreases count - i,
        {
            let gram: Vec<char> = copy_window(s, i, n);
            proof {
                lemma_ngrams_before_step(s@, n as nat, i as int);
            }
            set = set.inserted(gram);
            i = i + 1;
        }
        set
    }

    /// Number of n-grams that belong to both `self` and `other`.
    pub fn count_common(&self, other: &NgramSet) -> (k: usize)
        ensures
            k == self@.intersect(other@).len(),
            k <= self@.len(),
            k <= other@.len(),
    {
        let ghost e = self.entries();
        proof {
            use_type_invariant(self);
            use_type_invariant(other);
            seq_to_set_is_finite(other.entries());
            assert(e.take(0).to_set().intersect(other@) =~= Set::<Seq<char>>::empty());
        }
        let mut k: usize = 0;
        let mut i: usize = 0;
        while i < self.grams.len()
            invariant
                i <= self.grams.len(),
                e == self.entries(),
                e.len() == self.grams.len(),
                e.no_duplicates(),
                k <= i,
                k == e.take(i as int).to_set().intersect(other@).len(),
            decreases self.grams.len() - i,
        {
            let hit: bool = other.contains(&self.grams[i]);
            proof {
                let g = e[i as int];
                let before = e.take(i as int);
                let after = e.take(i + 1);
                seq_to_set_is_finite(before);
                assert(after =~= before.push(g));
                assert(!before.to_set().contains(g));
                before.lemma_push_to_set_commute(g);
                if hit {
                    assert(after.to_set().intersect(other@) =~= before.to_set().intersect(
                        other@,
                    ).insert(g));
                } else {
                    assert(after.to_set().intersect(other@) =~= before.to_set().intersect(other@));
                }
            }
            if hit {
                k = k + 1;
            }
            i = i + 1;
        }
        proof {
            assert(e.take(i as int) =~= e);
            seq_to_set_is_finite(e);
            vstd::set_lib::lemma_len_intersect(self@, other@);
            vstd::set_lib::lemma_len_intersect(other@, self@);
            assert(other@.intersect(self@) =~= self@.intersect(other@));
        }
        k
    }
}

impl View for NgramSet {
    type V = Set<Seq<char>>;

    closed spec fn view(&self) -> Set<Seq<char>> {
        self.entries().to_set()
    }
}

/// A copy of the `n` characters of `s` that start at `start`.
pub fn copy_window(s: &Vec<char>, start: usize, n: usize) -> (gram: Vec<char>)
    requires
        start + n <= s.len(),
    ensures
        gram@ == window(s@, start as int, n as nat),
{
    let mut gram: Vec<char> = Vec::new();
    let mut k: usize = 0;
    while k < n
        invariant
            k <= n,
            start + n <= s.len(),
            gram@ == s@.subrange(start as int, start + k),
        decreases n - k,
    {
        gram.push(s[start + k]);
        k = k + 1;
    }
    gram
}

} // verus!
