//! Validators and the validator set: a public key with a voting power, and
//! a list of validators kept sorted by address (the public key, compared as
//! byte strings) with equal neighbours collapsed, as `ValidatorSet::sort`
//! produces it.

use vstd::pervasive::VecAdditionalExecFns;
use vstd::prelude::*;

verus! {

/// Lexicographic order on byte strings: the empty string comes first, then
/// by first differing byte, a proper prefix before its extensions.
pub open spec fn lex_le(a: Seq<u8>, b: Seq<u8>) -> bool
    decreases a.len(),
{
    if a.len() == 0 {
        true
    } else if b.len() == 0 {
        false
    } else if a[0] < b[0] {
        true
    } else if a[0] > b[0] {
        false
    } else {
        lex_le(a.drop_first(), b.drop_first())
    }
}

/// The order is total: two byte strings always compare one way or the other.
pub proof fn lemma_lex_total(a: Seq<u8>, b: Seq<u8>)
    ensures
        lex_le(a, b) || lex_le(b, a),
    decreases a.len(),
{
    if a.len() != 0 && b.len() != 0 && a[0] == b[0] {
        lemma_lex_total(a.drop_first(), b.drop_first());
    }
}

/// The order is transitive.
pub proof fn lemma_lex_trans(a: Seq<u8>, b: Seq<u8>, c: Seq<u8>)
    requires
        lex_le(a, b),
        lex_le(b, c),
    ensures
        lex_le(a, c),
    decreases a.len(),
{
    if a.len() != 0 && b.len() != 0 && c.len() != 0 && a[0] == b[0] && b[0] == c[0] {
        lemma_lex_trans(a.drop_first(), b.drop_first(), c.drop_first());
    }
}

/// Dropping an equal first byte on both sides does not change the order.
proof fn lemma_lex_step(a: Seq<u8>, b: Seq<u8>, i: int)
    requires
        0 <= i < a.len(),
        0 <= i < b.len(),
        a[i] == b[i],
    ensures
        lex_le(a.skip(i), b.skip(i)) == lex_le(a.skip(i + 1), b.skip(i + 1)),
{
    assert(a.skip(i).drop_first() =~= a.skip(i + 1));
    assert(b.skip(i).drop_first() =~= b.skip(i + 1));
    assert(a.skip(i)[0] == a[i]);
    assert(b.skip(i)[0] == b[i]);
}

/// Compare two byte strings in the lexicographic order.
fn bytes_le(a: &Vec<u8>, b: &Vec<u8>) -> (r: bool)
    ensures
        r == lex_le(a@, b@),
{
    let mut i: usize = 0;
    proof {
        assert(a@.skip(0) =~= a@);
        assert(b@.skip(0) =~= b@);
    }
    loop
        invariant
            i <= a@.len(),
            i <= b@.len(),
            lex_le(a@, b@) == lex_le(a@.skip(i as int), b@.skip(i as int)),
        decreases a@.len() - i,
    {
        if i == a.len() {
            assert(a@.skip(i as int).len() == 0);
            return true;
        }
        if i == b.len() {
            assert(b@.skip(i as int).len() == 0);
            assert(a@.skip(i as int).len() != 0);
            return false;
        }
        let x = a[i];
        let y = b[i];
        assert(a@.skip(i as int)[0] == a@[i as int]);
        assert(b@.skip(i as int)[0] == b@[i as int]);
        if x < y {
            return true;
        }
        if x > y {
            return false;
        }
        proof {
            lemma_lex_step(a@, b@, i as int);
        }
        i += 1;
    }
}

/// Whether two byte strings are equal.
fn bytes_eq(a: &Vec<u8>, b: &Vec<u8>) -> (r: bool)
    ensures
        r == (a@ == b@),
{
    if a.len() != b.len() {
        return false;
    }
    let n = a.len();
    let mut i: usize = 0;
    while i < n
        invariant
            n == a@.len(),
            n == b@.len(),
            i <= n,
            forall|k: int| 0 <= k < i ==> a@[k] == b@[k],
        decreases n - i,
    {
        if a[i] != b[i] {
            return false;
        }
        i += 1;
    }
    proof {
        assert(a@ =~= b@);
    }
    true
}

/// An owned copy of a byte string.
fn copy_bytes(src: &Vec<u8>) -> (r: Vec<u8>)
    ensures
        r@ == src@,
{
    let n = src.len();
    let mut r: Vec<u8> = Vec::new();
    let mut i: usize = 0;
    while i < n
        invariant
            n == src@.len(),
            i <= n,
            r@ == src@.take(i as int),
        decreases n - i,
    {
        r.push(src[i]);
        proof {
            assert(src@.take(i as int).push(src@[i as int]) =~= src@.take(i + 1));
        }
        i += 1;
    }
    proof {
        assert(src@.take(n as int) =~= src@);
    }
    r
}

/// A validator: a public key and its voting power.
#[derive(Debug)]
pub struct Validator {
    pub public_key: Vec<u8>,
    pub voting_power: i64,
}

/// The mathematical content of a validator: the key as a byte string and
/// the power.
#[verifier::ext_equal]
pub struct ValidatorModel {
    pub public_key: Seq<u8>,
    pub voting_power: i64,
}

impl View for Validator {
    type V = ValidatorModel;

    open spec fn view(&self) -> ValidatorModel {
        ValidatorModel { public_key: self.public_key@, voting_power: self.voting_power }
    }
}

/// Order of validators: by address alone.
pub open spec fn val_le(a: ValidatorModel, b: ValidatorModel) -> bool {
    lex_le(a.public_key, b.public_key)
}

impl Validator {
    /// The engine does not define a content digest of its own; callers use
    /// the address as the identity, and the digest is the empty string.
    pub fn hash(&self) -> (r: Vec<u8>)
        ensures
            r@ == Seq::<u8>::empty(),
    {
        let r: Vec<u8> = Vec::new();
        r
    }

    /// The validator's address: its public key, as an owned byte string.
    pub fn address(&self) -> (r: Vec<u8>)
        ensures
            r@ == self.public_key@,
    {
        copy_bytes(&self.public_key)
    }
}


/// The byte-string content of a list of validators.
pub open spec fn models(s: Seq<Validator>) -> Seq<ValidatorModel> {
    s.map_values(|v: Validator| v@)
}

/// Sorted by address, allowing equal neighbours.
pub open spec fn sorted(s: Seq<ValidatorModel>) -> bool {
    forall|i: int, j: int| 0 <= i < j < s.len() ==> #[trigger] val_le(s[i], s[j])
}

/// Insertion into a sorted list: before the first element the new one is
/// not strictly greater than.
pub open spec fn insert_sorted_spec(s: Seq<ValidatorModel>, m: ValidatorModel) -> Seq<
    ValidatorModel,
>
    decreases s.len(),
{
    if s.len() == 0 {
        seq![m]
    } else if lex_le(m.public_key, s[0].public_key) {
        seq![m] + s
    } else {
        seq![s[0]] + insert_sorted_spec(s.drop_first(), m)
    }
}

/// Insertion sort, element by element from the front.
pub open spec fn sort_spec(s: Seq<ValidatorModel>) -> Seq<ValidatorModel>
    decreases s.len(),
{
    if s.len() == 0 {
        Seq::<ValidatorModel>::empty()
    } else {
        insert_sorted_spec(sort_spec(s.drop_last()), s.last())
    }
}

/// Removal of consecutive duplicates, keeping the first of each run of
/// equal neighbours.  The sort orders by address alone, so two fully equal
/// validators separated by a same-address entry of different power are not
/// neighbours and both stay.
pub open spec fn dedup_spec(s: Seq<ValidatorModel>) -> Seq<ValidatorModel>
    decreases s.len(),
{
    if s.len() <= 1 {
        s
    } else {
        let front = dedup_spec(s.drop_last());
        if s[s.len() - 2] == s[s.len() - 1] {
            front
        } else {
            front.push(s.last())
        }
    }
}

/// The first index whose address is `addr`, or `-1` when there is none.
pub open spec fn first_addr_index(s: Seq<ValidatorModel>, addr: Seq<u8>) -> int
    decreases s.len(),
{
    if s.len() == 0 {
        -1
    } else if s[0].public_key == addr {
        0
    } else {
        let r = first_addr_index(s.drop_first(), addr);
        if r < 0 {
            -1
        } else {
            r + 1
        }
    }
}

proof fn lemma_first_addr_none(s: Seq<ValidatorModel>, addr: Seq<u8>)
    requires
        forall|k: int| 0 <= k < s.len() ==> (#[trigger] s[k]).public_key != addr,
    ensures
        first_addr_index(s, addr) == -1,
    decreases s.len(),
{
    if s.len() > 0 {
        assert forall|k: int| 0 <= k < s.drop_first().len() implies (#[trigger] s.drop_first()[k]).public_key
            != addr by {
            assert(s.drop_first()[k] == s[k + 1]);
        }
        lemma_first_addr_none(s.drop_first(), addr);
    }
}

proof fn lemma_first_addr_found(s: Seq<ValidatorModel>, addr: Seq<u8>, i: int)
    requires
        0 <= i < s.len(),
        s[i].public_key == addr,
        forall|k: int| 0 <= k < i ==> (#[trigger] s[k]).public_key != addr,
    ensures
        first_addr_index(s, addr) == i,
    decreases i,
{
    if i > 0 {
        assert(s[0].public_key != addr);
        assert forall|k: int| 0 <= k < i - 1 implies (#[trigger] s.drop_first()[k]).public_key
            != addr by {
            assert(s.drop_first()[k] == s[k + 1]);
        }
        assert(s.drop_first()[i - 1] == s[i]);
        lemma_first_addr_found(s.drop_first(), addr, i - 1);
    }
}

/// Inserting at the position the search loop finds is what
/// `insert_sorted_spec` prescribes.
proof fn lemma_insert_at(s: Seq<ValidatorModel>, m: ValidatorModel, j: int)
    requires
        0 <= j <= s.len(),
        forall|k: int| 0 <= k < j ==> !lex_le(m.public_key, (#[trigger] s[k]).public_key),
        j < s.len() ==> lex_le(m.public_key, s[j].public_key),
    ensures
        insert_sorted_spec(s, m) == s.insert(j, m),
    decreases j,
{
    if s.len() == 0 {
        assert(insert_sorted_spec(s, m) =~= s.insert(0, m));
    } else if j == 0 {
        assert(seq![m] + s =~= s.insert(0, m));
    } else {
        assert(!lex_le(m.public_key, s[0].public_key));
        assert forall|k: int| 0 <= k < j - 1 implies !lex_le(
            m.public_key,
            (#[trigger] s.drop_first()[k]).public_key,
        ) by {
            assert(s.drop_first()[k] == s[k + 1]);
        }
        if j - 1 < s.drop_first().len() {
            assert(s.drop_first()[j - 1] == s[j]);
        }
        lemma_insert_at(s.drop_first(), m, j - 1);
        assert(seq![s[0]] + s.drop_first().insert(j - 1, m) =~= s.insert(j, m));
    }
}

/// The position at which `v` belongs in the sorted list `out`: every
/// earlier element is strictly smaller, and the element there (if any) is
/// not smaller than `v`.
fn find_insert_pos(out: &Vec<Validator>, v: &Validator) -> (j: usize)
    ensures
        j <= out@.len(),
        forall|k: int|
            0 <= k < j ==> !lex_le(v@.public_key, (#[trigger] models(out@)[k]).public_key),
        j < out@.len() ==> lex_le(v@.public_key, models(out@)[j as int].public_key),
{
    let n = out.len();
    let mut j: usize = 0;
    while j < n
        invariant
            j <= n,
            n == out@.len(),
            forall|k: int|
                0 <= k < j ==> !lex_le(v@.public_key, (#[trigger] models(out@)[k]).public_key),
        decreases n - j,
    {
        if bytes_le(&v.public_key, &out[j].public_key) {
            return j;
        }
        j += 1;
    }
    j
}

/// A list of validators sorted by address, duplicates removed.
#[derive(Debug)]
pub struct ValidatorSet {
    pub validators: Vec<Validator>,
}

impl View for ValidatorSet {
    type V = Seq<ValidatorModel>;

    open spec fn view(&self) -> Seq<ValidatorModel> {
        models(self.validators@)
    }
}

impl ValidatorSet {
    pub open spec fn wf(self) -> bool {
        sorted(self@)
    }

    pub fn new(vals: Vec<Validator>) -> (s: ValidatorSet)
        ensures
            s@ == dedup_spec(sort_spec(models(vals@))),
            s.wf(),
    {
        let mut vals = vals;
        ValidatorSet::sort(&mut vals);
        ValidatorSet { validators: vals }
    }

    /// Add a validator and restore the order, dropping full duplicates.
    pub fn add(&mut self, val: Validator)
        ensures
            final(self)@ == dedup_spec(sort_spec(old(self)@.push(val@))),
            final(self).wf(),
    {
        let ghost before = self@;
        self.validators.push(val);
        proof {
            assert(models(self.validators@) =~= before.push(val@));
        }
        ValidatorSet::sort(&mut self.validators);
    }

    /// Replace the first validator with `val`'s address by `val`: its
    /// voting power is updated, its address stays.  Without a match the set
    /// is unchanged.
    #[verifier::loop_isolation(false)]
    pub fn update(&mut self, val: Validator)
        requires
            old(self).wf(),
        ensures
            final(self).wf(),
            ({
                let i = first_addr_index(old(self)@, val@.public_key);
                if i < 0 {
                    final(self)@ == old(self)@
                } else {
                    final(self)@ == old(self)@.update(i, val@)
                }
            }),
    {
        let n = self.validators.len();
        let mut i: usize = 0;
        while i < n
            invariant
                i <= n,
                n == self@.len(),
                *self == *old(self),
                forall|k: int|
                    0 <= k < i ==> (#[trigger] models(self.validators@)[k]).public_key
                        != val@.public_key,
            decreases n - i,
        {
            if bytes_eq(&self.validators[i].public_key, &val.public_key) {
                proof {
                    lemma_first_addr_found(self@, val@.public_key, i as int);
                }
                let ghost before = self@;
                self.validators.set(i, val);
                proof {
                    assert(models(self.validators@) =~= before.update(i as int, val@));
                    assert forall|a: int, b: int| 0 <= a < b < self@.len() implies #[trigger] val_le(
                        self@[a],
                        self@[b],
                    ) by {
                        assert(self@[a].public_key == before[a].public_key);
                        assert(self@[b].public_key == before[b].public_key);
                        assert(val_le(before[a], before[b]));
                    }
                }
                return ;
            }
            i += 1;
        }
        proof {
            lemma_first_addr_none(self@, val@.public_key);
        }
    }

    /// Remove the first validator with `val`'s address.  Without a match
    /// the set is unchanged.
    #[verifier::loop_isolation(false)]
    pub fn remove(&mut self, val: Validator)
        requires
            old(self).wf(),
        ensures
            final(self).wf(),
            ({
                let i = first_addr_index(old(self)@, val@.public_key);
                if i < 0 {
                    final(self)@ == old(self)@
                } else {
                    final(self)@ == old(self)@.remove(i)
                }
            }),
    {
        let n = self.validators.len();
        let mut i: usize = 0;
        while i < n
            invariant
                i <= n,
                n == self@.len(),
                *self == *old(self),
                forall|k: int|
                    0 <= k < i ==> (#[trigger] models(self.validators@)[k]).public_key
                        != val@.public_key,
            decreases n - i,
        {
            if bytes_eq(&self.validators[i].public_key, &val.public_key) {
                proof {
                    lemma_first_addr_found(self@, val@.public_key, i as int);
                }
                let ghost before = self@;
                let _removed = self.validators.remove(i);
                proof {
                    assert(models(self.validators@) =~= before.remove(i as int));
                    before.remove_ensures(i as int);
                    assert forall|a: int, b: int| 0 <= a < b < self@.len() implies #[trigger] val_le(
                        self@[a],
                        self@[b],
                    ) by {
                        let a0 = if a < i { a } else { a + 1 };
                        let b0 = if b < i { b } else { b + 1 };
                        assert(self@[a] == before[a0]);
                        assert(self@[b] == before[b0]);
                        assert(val_le(before[a0], before[b0]));
                    }
                }
                return ;
            }
            i += 1;
        }
        proof {
            lemma_first_addr_none(self@, val@.public_key);
        }
    }

    /// Sort the validators by address and drop full duplicates, in place.
    #[verifier::loop_isolation(false)]
    fn sort(vals: &mut Vec<Validator>)
        ensures
            models(final(vals)@) == dedup_spec(sort_spec(models(old(vals)@))),
            sorted(models(final(vals)@)),
    {
        let ghost orig = models(old(vals)@);
        let mut out: Vec<Validator> = Vec::new();
        proof {
            assert(orig.skip(0) =~= orig);
            assert(models(out@) =~= sort_spec(orig.take(0)));
        }
        while vals.len() > 0
            invariant
                vals@.len() <= orig.len(),
                models(vals@) == orig.skip(orig.len() - vals@.len()),
                models(out@) == sort_spec(orig.take(orig.len() - vals@.len())),
                sorted(models(out@)),
            decreases vals@.len(),
        {
            let ghost i = orig.len() - vals@.len();
            let ghost mo = models(out@);
            let ghost prev = vals@;
            let v = vals.remove(0);
            proof {
                assert(vals@ =~= prev.drop_first());
                assert forall|k: int| 0 <= k < models(vals@).len() implies models(vals@)[k]
                    == orig.skip(i + 1)[k] by {
                    assert(models(vals@)[k] == vals@[k]@);
                    assert(models(prev)[k + 1] == prev[k + 1]@);
                    assert(orig.skip(i)[k + 1] == orig[i + 1 + k]);
                    assert(orig.skip(i + 1)[k] == orig[i + 1 + k]);
                }
                assert(models(vals@) =~= orig.skip(i + 1));
                assert(v@ == models(prev)[0]);
                assert(models(prev)[0] == orig.skip(i)[0]);
                assert(v@ == orig[i as int]);
            }
            let j = find_insert_pos(&out, &v);
            proof {
                lemma_insert_at(mo, v@, j as int);
            }
            out.insert(j, v);
            proof {
                assert(models(out@) =~= mo.insert(j as int, v@));
                mo.insert_ensures(j as int, v@);
                let t = models(out@);
                let jj = j as int;
                assert forall|a: int, b: int| 0 <= a < b < t.len() implies #[trigger] val_le(
                    t[a],
                    t[b],
                ) by {
                    if b < jj {
                        assert(t[a] == mo[a] && t[b] == mo[b]);
                    } else if a < jj && b == jj {
                        lemma_lex_total(v@.public_key, mo[a].public_key);
                    } else if a < jj && b > jj {
                        assert(t[a] == mo[a] && t[b] == mo[b - 1]);
                        assert(a < b - 1);
                    } else if a == jj {
                        assert(t[a] == v@ && t[b] == mo[b - 1]);
                        assert(lex_le(v@.public_key, mo[jj].public_key));
                        if b - 1 > jj {
                            assert(val_le(mo[jj], mo[b - 1]));
                            lemma_lex_trans(
                                v@.public_key,
                                mo[jj].public_key,
                                mo[b - 1].public_key,
                            );
                        }
                    } else {
                        assert(t[a] == mo[a - 1] && t[b] == mo[b - 1]);
                    }
                }
                assert(orig.take(i + 1).drop_last() =~= orig.take(i));
                assert(orig.take(i + 1).last() == orig[i as int]);
            }
        }
        proof {
            assert(orig.take(orig.len() as int) =~= orig);
        }
        let ghost sall = sort_spec(orig);
        proof {
            assert(sall.skip(0) =~= sall);
            assert(dedup_spec(sall.take(0)) =~= models(vals@));
        }
        while out.len() > 0
            invariant
                out@.len() <= sall.len(),
                sall == sort_spec(orig),
                sorted(sall),
                models(out@) == sall.skip(sall.len() - out@.len()),
                models(vals@) == dedup_spec(sall.take(sall.len() - out@.len())),
                sorted(models(vals@)),
                sall.len() - out@.len() > 0 ==> vals@.len() > 0 && models(vals@).last() == sall[sall.len()
                    - out@.len() - 1],
            decreases out@.len(),
        {
            let ghost k = sall.len() - out@.len();
            let ghost kept = models(vals@);
            let ghost prev = out@;
            let v = out.remove(0);
            proof {
                assert(out@ =~= prev.drop_first());
                assert forall|kk: int| 0 <= kk < models(out@).len() implies models(out@)[kk]
                    == sall.skip(k + 1)[kk] by {
                    assert(models(out@)[kk] == out@[kk]@);
                    assert(models(prev)[kk + 1] == prev[kk + 1]@);
                    assert(sall.skip(k)[kk + 1] == sall[k + 1 + kk]);
                    assert(sall.skip(k + 1)[kk] == sall[k + 1 + kk]);
                }
                assert(models(out@) =~= sall.skip(k + 1));
                assert(v@ == models(prev)[0]);
                assert(models(prev)[0] == sall.skip(k)[0]);
                assert(v@ == sall[k as int]);
            }
            let keep: bool;
            if vals.len() == 0 {
                keep = true;
            } else {
                let m = vals.len() - 1;
                let same_key = bytes_eq(&vals[m].public_key, &v.public_key);
                let same_power = vals[m].voting_power == v.voting_power;
                keep = !(same_key && same_power);
                proof {
                    if !keep {
                        assert(kept.last() =~= v@);
                    } else {
                        assert(kept.last() == sall[k - 1]);
                        if kept.last() =~= v@ {
                            assert(false);
                        }
                    }
                }
            }
            if keep {
                vals.push(v);
                proof {
                    assert(models(vals@) =~= kept.push(sall[k as int]));
                    let t = models(vals@);
                    assert forall|a: int, b: int| 0 <= a < b < t.len() implies #[trigger] val_le(
                        t[a],
                        t[b],
                    ) by {
                        if b == t.len() - 1 && k > 0 {
                            assert(t[b] == sall[k as int]);
                            assert(val_le(sall[k - 1], sall[k as int]));
                            if a < t.len() - 2 {
                                assert(val_le(kept[a], kept[t.len() - 2]));
                                lemma_lex_trans(
                                    kept[a].public_key,
                                    sall[k - 1].public_key,
                                    sall[k as int].public_key,
                                );
                            }
                        }
                    }
                }
            }
            proof {
                assert(sall.take(k + 1).drop_last() =~= sall.take(k));
                assert(sall.take(k + 1).last() == sall[k as int]);
                if k > 0 {
                    assert(sall.take(k + 1)[k - 1] == sall[k - 1]);
                }
            }
        }
        proof {
            assert(sall.take(sall.len() as int) =~= sall);
        }
    }
}

} // verus!
