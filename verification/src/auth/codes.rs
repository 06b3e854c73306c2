//! Pending authorization codes: issued by `/authorize`, redeemed (once) by
//! `/token`, and swept when they are older than their lifetime.
use vstd::prelude::*;
use crate::text::str_eq;

verus! {

/// Lifetime of an authorization code, in nanoseconds of the server's
/// monotonic clock (sixty seconds).
pub const AUTH_CODE_TTL_NANOS: u64 = 60_000_000_000;

/// Time that has passed between `created_at` and `now` on a monotonic clock
/// that never runs backwards; a reading before `created_at` counts as none.
pub open spec fn elapsed(now: u64, created_at: u64) -> nat {
    if now >= created_at {
        (now - created_at) as nat
    } else {
        0
    }
}

/// A code is too old to be redeemed once strictly more than its lifetime
/// has passed.
pub open spec fn code_expired(now: u64, created_at: u64) -> bool {
    elapsed(now, created_at) > AUTH_CODE_TTL_NANOS
}

/// The background sweep keeps a code only while strictly less than its
/// lifetime has passed.
pub open spec fn code_fresh(now: u64, created_at: u64) -> bool {
    elapsed(now, created_at) < AUTH_CODE_TTL_NANOS
}

/// `now - created_at` on the monotonic clock, zero if `now` is earlier.
pub fn elapsed_nanos(now: u64, created_at: u64) -> (r: u64)
    ensures
        r == elapsed(now, created_at),
{
    if now >= created_at {
        now - created_at
    } else {
        0
    }
}

/// What an authorization code was issued for.
pub struct AuthCode {
    pub client_id: String,
    pub redirect_uri: String,
    pub code_challenge: String,
    /// Monotonic clock reading, in nanoseconds, when the code was issued.
    pub created_at: u64,
}

/// Mathematical value of an [`AuthCode`].
pub ghost struct AuthCodeView {
    pub client_id: Seq<char>,
    pub redirect_uri: Seq<char>,
    pub code_challenge: Seq<char>,
    pub created_at: u64,
}

impl View for AuthCode {
    type V = AuthCodeView;

    open spec fn view(&self) -> AuthCodeView {
        AuthCodeView {
            client_id: self.client_id@,
            redirect_uri: self.redirect_uri@,
            code_challenge: self.code_challenge@,
            created_at: self.created_at,
        }
    }
}

/// One stored code and its grant.
pub struct PendingCode {
    pub code: String,
    pub grant: AuthCode,
}

/// The set of outstanding authorization codes, each code at most once.
pub struct AuthCodeStore {
    entries: Vec<PendingCode>,
}

impl AuthCodeStore {
    /// The code stored at position `i`.
    pub closed spec fn key_at(self, i: int) -> Seq<char> {
        self.entries@[i].code@
    }

    /// No code occurs twice.
    pub closed spec fn unique_codes(self) -> bool {
        forall|i: int, j: int|
            0 <= i < j < self.entries@.len() ==> #[trigger] self.key_at(i) != #[trigger] self.key_at(
                j,
            )
    }

    /// The outstanding codes and what each was issued for.
    pub closed spec fn spec_map(self) -> Map<Seq<char>, AuthCodeView> {
        Map::new(
            |k: Seq<char>| exists|i: int| 0 <= i < self.entries@.len() && self.key_at(i) == k,
            |k: Seq<char>|
                self.entries@[choose|i: int| 0 <= i < self.entries@.len() && self.key_at(i) == k].grant@,
        )
    }

    proof fn lemma_entry_in_map(self, i: int)
        requires
            self.unique_codes(),
            0 <= i < self.entries@.len(),
        ensures
            self.spec_map().dom().contains(self.key_at(i)),
            self.spec_map()[self.key_at(i)] == self.entries@[i].grant@,
    {
        let k = self.key_at(i);
        assert(exists|j: int| 0 <= j < self.entries@.len() && self.key_at(j) == k);
        let c = choose|j: int| 0 <= j < self.entries@.len() && self.key_at(j) == k;
        if c != i {
            if c < i {
                assert(self.key_at(c) != self.key_at(i));
            } else {
                assert(self.key_at(i) != self.key_at(c));
            }
        }
    }

    proof fn lemma_all_entries_in_map(self)
        requires
            self.unique_codes(),
        ensures
            forall|i: int|
                0 <= i < self.entries@.len() ==> self.spec_map().dom().contains(
                    #[trigger] self.key_at(i),
                ) && self.spec_map()[self.key_at(i)] == self.entries@[i].grant@,
    {
        assert forall|i: int| 0 <= i < self.entries@.len() implies self.spec_map().dom().contains(
            #[trigger] self.key_at(i),
        ) && self.spec_map()[self.key_at(i)] == self.entries@[i].grant@ by {
            self.lemma_entry_in_map(i);
        }
    }

    /// An empty store.
    pub fn new() -> (r: Self)
        ensures
            r.unique_codes(),
            r.spec_map() == Map::<Seq<char>, AuthCodeView>::empty(),
    {
        let r = AuthCodeStore { entries: Vec::new() };
        assert(r.spec_map() =~= Map::<Seq<char>, AuthCodeView>::empty());
        r
    }

    /// Number of outstanding codes.
    pub fn len(&self) -> (r: usize)
        requires
            self.unique_codes(),
        ensures
            r == self.spec_map().len(),
    {
        proof {
            self.lemma_len();
        }
        self.entries.len()
    }

    proof fn lemma_len(self)
        requires
            self.unique_codes(),
        ensures
            self.spec_map().len() == self.entries@.len(),
        decreases self.entries@.len(),
    {
        let keys = Seq::new(self.entries@.len(), |i: int| self.key_at(i));
        assert(keys.no_duplicates()) by {
            assert forall|i: int, j: int|
                0 <= i < keys.len() && 0 <= j < keys.len() && i != j implies keys[i] != keys[j] by {
                if i < j {
                    assert(self.key_at(i) != self.key_at(j));
                } else {
                    assert(self.key_at(j) != self.key_at(i));
                }
            }
        }
        assert(keys.to_set() =~= self.spec_map().dom()) by {
            self.lemma_all_entries_in_map();
            assert forall|k: Seq<char>| self.spec_map().dom().contains(k) implies keys.to_set().contains(k) by {
                let i = choose|i: int| 0 <= i < self.entries@.len() && self.key_at(i) == k;
                assert(keys[i] == k);
            }
        }
        keys.unique_seq_to_set();
    }

    /// Looks up where `code` is stored, if anywhere.
    fn position(&self, code: &str) -> (r: Option<usize>)
        ensures
            match r {
                Some(i) => i < self.entries@.len() && self.key_at(i as int) == code@,
                None => !self.spec_map().dom().contains(code@),
            },
    {
        let n = self.entries.len();
        let mut i: usize = 0;
        while i < n
            invariant
                n == self.entries@.len(),
                i <= n,
                forall|j: int| 0 <= j < i ==> self.key_at(j) != code@,
            decreases n - i,
        {
            if str_eq(self.entries[i].code.as_str(), code) {
                return Some(i);
            }
            i = i + 1;
        }
        proof {
            if self.spec_map().dom().contains(code@) {
                let j = choose|j: int| 0 <= j < self.entries@.len() && self.key_at(j) == code@;
                assert(self.key_at(j) != code@);
            }
        }
        None
    }

    /// Stores `grant` under `code`, replacing whatever `code` held before.
    pub fn insert(&mut self, code: String, grant: AuthCode)
        requires
            old(self).unique_codes(),
        ensures
            final(self).unique_codes(),
            final(self).spec_map() == old(self).spec_map().insert(code@, grant@),
    {
        proof {
            self.lemma_all_entries_in_map();
        }
        let ghost old_self = *self;
        let ghost key = code@;
        let ghost value = grant@;
        match self.position(code.as_str()) {
            Some(i) => {
                self.entries.set(i, PendingCode { code, grant });
                proof {
                    assert(forall|j: int|
                        0 <= j < self.entries@.len() ==> #[trigger] self.key_at(j)
                            == old_self.key_at(j));
                    assert(self.unique_codes()) by {
                        assert forall|a: int, b: int|
                            0 <= a < b < self.entries@.len() implies #[trigger] self.key_at(a)
                            != #[trigger] self.key_at(b) by {
                            assert(old_self.key_at(a) != old_self.key_at(b));
                        }
                    }
                    self.lemma_all_entries_in_map();
                    assert(self.spec_map() =~= old_self.spec_map().insert(key, value)) by {
                        assert forall|k: Seq<char>|
                            #[trigger] self.spec_map().dom().contains(k) implies old_self.spec_map().insert(
                                key,
                                value,
                            ).dom().contains(k) by {
                            let j = choose|j: int|
                                0 <= j < self.entries@.len() && self.key_at(j) == k;
                            assert(old_self.key_at(j) == k);
                        }
                        assert forall|k: Seq<char>|
                            old_self.spec_map().insert(key, value).dom().contains(
                                k,
                            ) implies #[trigger] self.spec_map().dom().contains(k) by {
                            if k != key {
                                let j = choose|j: int|
                                    0 <= j < old_self.entries@.len() && old_self.key_at(j) == k;
                                assert(self.key_at(j) == k);
                            } else {
                                assert(self.key_at(i as int) == k);
                            }
                        }
                        assert forall|k: Seq<char>| #[trigger]
                            self.spec_map().dom().contains(k) implies self.spec_map()[k]
                            == old_self.spec_map().insert(key, value)[k] by {
                            let j = choose|j: int|
                                0 <= j < self.entries@.len() && self.key_at(j) == k;
                            assert(self.spec_map()[k] == self.entries@[j].grant@);
                            if j != i {
                                assert(old_self.spec_map()[old_self.key_at(j)]
                                    == old_self.entries@[j].grant@);
                            }
                        }
                    }
                }
            },
            None => {
                self.entries.push(PendingCode { code, grant });
                proof {
                    let n = self.entries@.len() - 1;
                    assert(forall|j: int| 0 <= j < n ==> #[trigger] self.key_at(j) == old_self.key_at(j));
                    assert forall|j: int| 0 <= j < n implies #[trigger] self.key_at(j) != key by {
                        old_self.lemma_entry_in_map(j);
                    }
                    assert(self.key_at(n) == key);
                    assert(self.unique_codes());
                    self.lemma_all_entries_in_map();
                    assert(self.spec_map() =~= old_self.spec_map().insert(key, value)) by {
                        assert forall|k: Seq<char>|
                            #[trigger] self.spec_map().dom().contains(k) implies old_self.spec_map().insert(
                                key,
                                value,
                            ).dom().contains(k) by {
                            let j = choose|j: int|
                                0 <= j < self.entries@.len() && self.key_at(j) == k;
                            if j < n {
                                assert(old_self.key_at(j) == k);
                            }
                        }
                        assert forall|k: Seq<char>|
                            old_self.spec_map().insert(key, value).dom().contains(
                                k,
                            ) implies #[trigger] self.spec_map().dom().contains(k) by {
                            if k != key {
                                let j = choose|j: int|
                                    0 <= j < old_self.entries@.len() && old_self.key_at(j) == k;
                                assert(self.key_at(j) == k);
                            } else {
                                assert(self.key_at(n) == k);
                            }
                        }
                        assert forall|k: Seq<char>| #[trigger]
                            self.spec_map().dom().contains(k) implies self.spec_map()[k]
                            == old_self.spec_map().insert(key, value)[k] by {
                            let j = choose|j: int|
                                0 <= j < self.entries@.len() && self.key_at(j) == k;
                            assert(self.spec_map()[k] == self.entries@[j].grant@);
                            if j < n {
                                old_self.lemma_entry_in_map(j);
                            }
                        }
                    }
                }
            },
        }
    }

    proof fn lemma_remove_at(old_self: Self, new_self: Self, i: int)
        requires
            old_self.unique_codes(),
            0 <= i < old_self.entries@.len(),
            new_self.entries@ == old_self.entries@.remove(i),
        ensures
            new_self.unique_codes(),
            new_self.spec_map() == old_self.spec_map().remove(old_self.key_at(i)),
    {
        let key = old_self.key_at(i);
        let n = new_self.entries@.len();
        assert forall|j: int| 0 <= j < n implies #[trigger] new_self.key_at(j) == old_self.key_at(
            if j < i {
                j
            } else {
                j + 1
            },
        ) by {}
        assert(new_self.unique_codes()) by {
            assert forall|a: int, b: int|
                0 <= a < b < n implies #[trigger] new_self.key_at(a) != #[trigger] new_self.key_at(
                b,
            ) by {
                let oa = if a < i {
                    a
                } else {
                    a + 1
                };
                let ob = if b < i {
                    b
                } else {
                    b + 1
                };
                assert(new_self.key_at(a) == old_self.key_at(oa));
                assert(new_self.key_at(b) == old_self.key_at(ob));
                assert(old_self.key_at(oa) != old_self.key_at(ob));
            }
        }
        old_self.lemma_all_entries_in_map();
        new_self.lemma_all_entries_in_map();
        assert(new_self.spec_map() =~= old_self.spec_map().remove(key)) by {
            assert forall|k: Seq<char>| #[trigger]
                new_self.spec_map().dom().contains(k) implies old_self.spec_map().remove(
                key,
            ).dom().contains(k) && new_self.spec_map()[k] == old_self.spec_map()[k] by {
                let j = choose|j: int| 0 <= j < n && new_self.key_at(j) == k;
                let oj = if j < i {
                    j
                } else {
                    j + 1
                };
                assert(new_self.key_at(j) == old_self.key_at(oj));
                assert(new_self.entries@[j] == old_self.entries@[oj]);
                if oj < i {
                    assert(old_self.key_at(oj) != old_self.key_at(i));
                } else {
                    assert(old_self.key_at(i) != old_self.key_at(oj));
                }
            }
            assert forall|k: Seq<char>|
                old_self.spec_map().remove(key).dom().contains(
                    k,
                ) implies #[trigger] new_self.spec_map().dom().contains(k) by {
                let j = choose|j: int| 0 <= j < old_self.entries@.len() && old_self.key_at(j) == k;
                assert(j != i);
                let nj = if j < i {
                    j
                } else {
                    j - 1
                };
                assert(new_self.key_at(nj) == k);
            }
        }
    }

    /// Removes `code` and hands back what it was issued for; a code can be
    /// redeemed at most once.
    pub fn take(&mut self, code: &str) -> (r: Option<AuthCode>)
        requires
            old(self).unique_codes(),
        ensures
            final(self).unique_codes(),
            final(self).spec_map() == old(self).spec_map().remove(code@),
            match r {
                Some(g) => old(self).spec_map().dom().contains(code@) && g@ == old(self).spec_map()[code@],
                None => !old(self).spec_map().dom().contains(code@),
            },
    {
        let ghost old_self = *self;
        match self.position(code) {
            Some(i) => {
                let e = self.entries.remove(i);
                proof {
                    Self::lemma_remove_at(old_self, *self, i as int);
                    old_self.lemma_entry_in_map(i as int);
                }
                Some(e.grant)
            },
            None => {
                assert(self.spec_map() =~= old_self.spec_map().remove(code@));
                None
            },
        }
    }

    /// Removes some outstanding code, if there is one, and hands it back with
    /// its grant.
    fn pop_any(&mut self) -> (r: Option<PendingCode>)
        requires
            old(self).unique_codes(),
        ensures
            final(self).unique_codes(),
            r matches Some(e) ==> old(self).spec_map().dom().contains(e.code@),
            r matches Some(e) ==> e.grant@ == old(self).spec_map()[e.code@],
            r matches Some(e) ==> final(self).spec_map() == old(self).spec_map().remove(e.code@),
            r is Some || old(self).spec_map() == Map::<Seq<char>, AuthCodeView>::empty(),
            r is None ==> final(self).spec_map() == old(self).spec_map(),
            final(self).entries@.len() <= old(self).entries@.len(),
            r is Some ==> final(self).entries@.len() < old(self).entries@.len(),
    {
        let ghost old_self = *self;
        match self.entries.pop() {
            Some(e) => {
                proof {
                    let i = old_self.entries@.len() - 1;
                    assert(self.entries@ == old_self.entries@.remove(i));
                    Self::lemma_remove_at(old_self, *self, i);
                    old_self.lemma_entry_in_map(i);
                }
                Some(e)
            },
            None => {
                assert(old_self.spec_map() =~= Map::<Seq<char>, AuthCodeView>::empty());
                None
            },
        }
    }

    /// Drops every code that is no longer fresh at `now`, keeping the rest.
    pub fn retain_fresh(&mut self, now: u64)
        requires
            old(self).unique_codes(),
        ensures
            final(self).unique_codes(),
            final(self).spec_map() == old(self).spec_map().restrict(
                fresh_codes(old(self).spec_map(), now),
            ),
    {
        let ghost orig = self.spec_map();
        let ghost target = orig.restrict(fresh_codes(orig, now));
        let mut rest = AuthCodeStore { entries: Vec::new() };
        std::mem::swap(&mut rest, self);
        let mut kept = AuthCodeStore::new();
        loop
            invariant
                target == orig.restrict(fresh_codes(orig, now)),
                rest.unique_codes(),
                kept.unique_codes(),
                rest.spec_map().submap_of(orig),
                forall|k: Seq<char>|
                    #[trigger] kept.spec_map().dom().contains(k) <==> target.dom().contains(k)
                        && !rest.spec_map().dom().contains(k),
                forall|k: Seq<char>| #[trigger]
                    kept.spec_map().dom().contains(k) ==> kept.spec_map()[k] == target[k],
            ensures
                rest.spec_map() == Map::<Seq<char>, AuthCodeView>::empty(),
            decreases rest.entries@.len(),
        {
            let ghost before_rest = rest.spec_map();
            let ghost before_kept = kept.spec_map();
            match rest.pop_any() {
                Some(e) => {
                    let ghost k0 = e.code@;
                    let ghost v0 = e.grant@;
                    assert(before_rest.dom().contains(k0) && before_rest[k0] == v0);
                    assert(orig.dom().contains(k0) && orig[k0] == v0);
                    assert(target.dom().contains(k0) == code_fresh(now, v0.created_at));
                    if elapsed_nanos(now, e.grant.created_at) < AUTH_CODE_TTL_NANOS {
                        kept.insert(e.code, e.grant);
                    }
                    assert forall|k: Seq<char>|
                        #[trigger] kept.spec_map().dom().contains(k) <==> target.dom().contains(k)
                            && !rest.spec_map().dom().contains(k) by {
                        if k != k0 {
                            assert(before_kept.dom().contains(k) <==> target.dom().contains(k)
                                && !before_rest.dom().contains(k));
                        }
                    }
                    assert forall|k: Seq<char>| #[trigger]
                        kept.spec_map().dom().contains(k) implies kept.spec_map()[k]
                        == target[k] by {
                        if k != k0 {
                            assert(before_kept.dom().contains(k));
                        }
                    }
                },
                None => {
                    break ;
                },
            }
        }
        assert(kept.spec_map() =~= target) by {
            assert forall|k: Seq<char>| target.dom().contains(k) implies #[trigger] kept.spec_map().dom().contains(k) by {
                assert(!rest.spec_map().dom().contains(k));
            }
        }
        *self = kept;
    }
}

/// A stored code is handed back by the next lookup: what `insert` writes,
/// `take` reads.
pub proof fn lemma_take_reads_insert(
    codes: Map<Seq<char>, AuthCodeView>,
    code: Seq<char>,
    grant: AuthCodeView,
)
    ensures
        codes.insert(code, grant).dom().contains(code),
        codes.insert(code, grant)[code] == grant,
        codes.insert(code, grant).remove(code) == codes.remove(code),
{
    assert(codes.insert(code, grant).remove(code) =~= codes.remove(code));
}

/// A code can be redeemed at most once: after `take` the code is gone,
/// whatever it returned, so a second `take` finds nothing.
pub proof fn lemma_take_single_use(codes: Map<Seq<char>, AuthCodeView>, code: Seq<char>)
    ensures
        !codes.remove(code).dom().contains(code),
{
}

/// The sweep and the redemption agree: a code the sweep keeps is not yet
/// expired.
pub proof fn lemma_fresh_not_expired(now: u64, created_at: u64)
    ensures
        code_fresh(now, created_at) ==> !code_expired(now, created_at),
{
}

/// The codes of `m` that are still fresh at `now`.
pub open spec fn fresh_codes(m: Map<Seq<char>, AuthCodeView>, now: u64) -> Set<Seq<char>> {
    Set::new(|k: Seq<char>| m.dom().contains(k) && code_fresh(now, m[k].created_at))
}

} // verus!
