//! The roster store: the in-memory collection of members, keyed by a
//! case-normalized identity string. Identity keys are stored lowercase; a
//! lookup lowercases its argument and takes the first match, so two members
//! that share a key (creation never checks) are affected first-match-first.

use vstd::prelude::*;

verus! {

/// ASCII lowercase of one byte.
pub open spec fn lower_byte(b: u8) -> u8 {
    if 0x41 <= b && b <= 0x5A {
        (b + 0x20) as u8
    } else {
        b
    }
}

/// ASCII lowercase of an identity key.
pub open spec fn lower(s: Seq<u8>) -> Seq<u8> {
    Seq::new(s.len(), |i: int| lower_byte(s[i]))
}

/// The mathematical shape of one member.
#[verifier::ext_equal]
pub struct StudentModel {
    pub name: Seq<u8>,
    pub age: u8,
    pub wallet_address: Seq<u8>,
    pub attendance_count: u128,
}

/// One roster member.
pub struct Student {
    pub name: Vec<u8>,
    pub age: u8,
    pub wallet_address: Vec<u8>,
    pub attendance_count: u128,
}

impl View for Student {
    type V = StudentModel;

    open spec fn view(&self) -> StudentModel {
        StudentModel {
            name: self.name@,
            age: self.age,
            wallet_address: self.wallet_address@,
            attendance_count: self.attendance_count,
        }
    }
}

/// Index of the first member whose stored key is `k`, or -1.
pub open spec fn find_first(ms: Seq<StudentModel>, k: Seq<u8>) -> int
    decreases ms.len(),
{
    if ms.len() == 0 {
        -1
    } else if ms[0].wallet_address == k {
        0
    } else {
        let r = find_first(ms.drop_first(), k);
        if r < 0 {
            -1
        } else {
            r + 1
        }
    }
}

pub open spec fn has_key(ms: Seq<StudentModel>, k: Seq<u8>) -> bool {
    find_first(ms, k) >= 0
}

/// Well-formedness of the store: every stored identity key is already in its
/// lowercase normal form, so stored keys compare directly against a
/// lowercased lookup key.
pub open spec fn roster_wf(ms: Seq<StudentModel>) -> bool {
    forall|i: int|
        0 <= i < ms.len() ==> lower((#[trigger] ms[i]).wallet_address) == ms[i].wallet_address
}

/// What `find_first` means, index by index.
pub proof fn lemma_find_first(ms: Seq<StudentModel>, k: Seq<u8>)
    ensures
        find_first(ms, k) == -1 ==> forall|i: int|
            0 <= i < ms.len() ==> (#[trigger] ms[i]).wallet_address != k,
        find_first(ms, k) >= 0 ==> 0 <= find_first(ms, k) < ms.len() && ms[find_first(
            ms,
            k,
        )].wallet_address == k && forall|i: int|
            0 <= i < find_first(ms, k) ==> (#[trigger] ms[i]).wallet_address != k,
    decreases ms.len(),
{
    if ms.len() > 0 {
        if ms[0].wallet_address == k {
        } else {
            let tail = ms.drop_first();
            lemma_find_first(tail, k);
            assert(forall|i: int| 0 <= i < tail.len() ==> #[trigger] tail[i] == ms[i + 1]);
            let r = find_first(tail, k);
            if r < 0 {
                assert forall|i: int| 0 <= i < ms.len() implies (#[trigger] ms[i]).wallet_address
                    != k by {
                    if i > 0 {
                        assert(tail[i - 1] == ms[i]);
                        assert(tail[i - 1].wallet_address != k);
                    }
                }
            } else {
                assert(find_first(ms, k) == r + 1);
                assert(ms[r + 1] == tail[r]);
                assert forall|i: int| 0 <= i < r + 1 implies (#[trigger] ms[i]).wallet_address
                    != k by {
                    if i > 0 {
                        assert(tail[i - 1] == ms[i]);
                        assert(tail[i - 1].wallet_address != k);
                    }
                }
            }
        }
    }
}

/// A freshly created member: key lowercased, no attendance yet.
pub open spec fn new_member(name: Seq<u8>, age: u8, wallet_address: Seq<u8>) -> StudentModel {
    StudentModel { name, age, wallet_address: lower(wallet_address), attendance_count: 0 }
}

/// A member after one attendance: the count one higher, saturating at the
/// type's bound.
pub open spec fn bump(m: StudentModel) -> StudentModel {
    StudentModel {
        attendance_count: if m.attendance_count == u128::MAX {
            m.attendance_count
        } else {
            (m.attendance_count + 1) as u128
        },
        ..m
    }
}

/// Effect of `create`: append, never a duplicate check.
pub open spec fn roster_create(
    ms: Seq<StudentModel>,
    name: Seq<u8>,
    age: u8,
    wallet_address: Seq<u8>,
) -> Seq<StudentModel> {
    ms.push(new_member(name, age, wallet_address))
}

/// Effect of `delete`: remove the first match of the lowercased key, or
/// nothing.
pub open spec fn roster_delete(ms: Seq<StudentModel>, wallet_address: Seq<u8>) -> Seq<
    StudentModel,
> {
    let i = find_first(ms, lower(wallet_address));
    if i < 0 {
        ms
    } else {
        ms.remove(i)
    }
}

/// Effect of `sign_attendance`: bump the first match of the lowercased key, or
/// nothing.
pub open spec fn roster_sign(ms: Seq<StudentModel>, wallet_address: Seq<u8>) -> Seq<StudentModel> {
    let i = find_first(ms, lower(wallet_address));
    if i < 0 {
        ms
    } else {
        ms.update(i, bump(ms[i]))
    }
}

/// ASCII-lowercase a key.
pub fn to_lower(s: &Vec<u8>) -> (r: Vec<u8>)
    ensures
        r@ == lower(s@),
{
    let mut out: Vec<u8> = Vec::new();
    let mut i: usize = 0;
    while i < s.len()
        invariant
            i <= s@.len(),
            out@.len() == i,
            forall|j: int| 0 <= j < i ==> #[trigger] out@[j] == lower_byte(s@[j]),
        decreases s@.len() - i,
    {
        let b = s[i];
        if 0x41 <= b && b <= 0x5A {
            out.push(b + 0x20);
        } else {
            out.push(b);
        }
        i = i + 1;
    }
    assert(out@ =~= lower(s@));
    out
}

impl Student {
    /// A member as `create` makes it; the caller hands the key already
    /// lowercased.
    pub fn new(name: Vec<u8>, age: u8, wallet_address: Vec<u8>) -> (s: Student)
        ensures
            s@ == (StudentModel {
                name: name@,
                age,
                wallet_address: wallet_address@,
                attendance_count: 0,
            }),
    {
        Student { name, age, wallet_address, attendance_count: 0 }
    }

    /// One attendance more, saturating at the count's bound.
    pub fn take_attendance(&mut self)
        ensures
            final(self)@ == bump(old(self)@),
    {
        if self.attendance_count < u128::MAX {
            self.attendance_count = self.attendance_count + 1;
        }
    }
}

/// The store that owns the collection of members.
pub struct Roster {
    pub members: Vec<Student>,
}

impl View for Roster {
    type V = Seq<StudentModel>;

    open spec fn view(&self) -> Seq<StudentModel> {
        Seq::new(self.members@.len(), |i: int| self.members@[i]@)
    }
}

impl Roster {
    pub fn new() -> (r: Roster)
        ensures
            r@ == Seq::<StudentModel>::empty(),
            roster_wf(r@),
    {
        let r = Roster { members: Vec::new() };
        proof {
            assert(r@ =~= Seq::<StudentModel>::empty());
        }
        r
    }

    pub fn len(&self) -> (n: usize)
        ensures
            n == self@.len(),
    {
        self.members.len()
    }

    /// First member holding exactly `k` (callers pass a lowercased key).
    fn find(&self, k: &Vec<u8>) -> (r: Option<usize>)
        ensures
            match r {
                Some(i) => find_first(self@, k@) == i && i < self@.len(),
                None => find_first(self@, k@) == -1,
            },
    {
        let n = self.members.len();
        let mut i: usize = 0;
        while i < n
            invariant
                n == self.members@.len(),
                i <= n,
                self@.len() == n,
                forall|j: int| 0 <= j < i ==> (#[trigger] self@[j]).wallet_address != k@,
            decreases n - i,
        {
            if crate::jsonval::bytes_eq(&self.members[i].wallet_address, k) {
                proof {
                    lemma_find_first(self@, k@);
                    assert(self@[i as int].wallet_address == k@);
                }
                return Some(i);
            }
            assert(self@[i as int].wallet_address != k@);
            i = i + 1;
        }
        proof {
            lemma_find_first(self@, k@);
        }
        None
    }

    /// Append a member with the key lowercased and no attendance; no duplicate
    /// check is made.
    pub fn create(&mut self, name: Vec<u8>, age: u8, wallet_address: Vec<u8>)
        ensures
            final(self)@ == roster_create(old(self)@, name@, age, wallet_address@),
            roster_wf(old(self)@) ==> roster_wf(final(self)@),
    {
        let key = to_lower(&wallet_address);
        let ghost gname = name@;
        let ghost gkey = key@;
        let s = Student::new(name, age, key);
        self.members.push(s);
        proof {
            assert(final(self)@ =~= roster_create(old(self)@, gname, age, wallet_address@));
            lemma_lower_idempotent(wallet_address@);
        }
    }

    /// Remove the first member matching the lowercased key; say whether one
    /// was there.
    pub fn delete(&mut self, wallet_address: &Vec<u8>) -> (found: bool)
        ensures
            final(self)@ == roster_delete(old(self)@, wallet_address@),
            found == has_key(old(self)@, lower(wallet_address@)),
            roster_wf(old(self)@) ==> roster_wf(final(self)@),
    {
        let key = to_lower(wallet_address);
        match self.find(&key) {
            Some(i) => {
                self.members.remove(i);
                proof {
                    assert(final(self)@ =~= old(self)@.remove(
                        find_first(old(self)@, lower(wallet_address@)),
                    ));
                }
                true
            },
            None => false,
        }
    }

    /// Bump the attendance count of the first member matching the lowercased
    /// key; say whether one was there.
    pub fn sign_attendance(&mut self, wallet_address: &Vec<u8>) -> (found: bool)
        ensures
            final(self)@ == roster_sign(old(self)@, wallet_address@),
            found == has_key(old(self)@, lower(wallet_address@)),
            roster_wf(old(self)@) ==> roster_wf(final(self)@),
    {
        let key = to_lower(wallet_address);
        match self.find(&key) {
            Some(i) => {
                let m = &mut self.members[i];
                m.take_attendance();
                proof {
                    assert(final(self)@ =~= roster_sign(old(self)@, wallet_address@));
                }
                true
            },
            None => false,
        }
    }
}

/// Creating a member and then deleting by the same identity key, in any
/// casing on either side, always removes exactly one entry: the roster is one
/// longer after the create and, since the lowercased keys agree, the delete
/// finds a match and removes one member. When no member held that key before,
/// the pair of operations restores the roster exactly.
pub proof fn lemma_create_then_delete(
    ms: Seq<StudentModel>,
    name: Seq<u8>,
    age: u8,
    k_create: Seq<u8>,
    k_delete: Seq<u8>,
)
    requires
        lower(k_create) == lower(k_delete),
    ensures
        has_key(roster_create(ms, name, age, k_create), lower(k_delete)),
        roster_delete(roster_create(ms, name, age, k_create), k_delete).len() == ms.len(),
        !has_key(ms, lower(k_create)) ==> roster_delete(
            roster_create(ms, name, age, k_create),
            k_delete,
        ) == ms,
{
    let ms2 = roster_create(ms, name, age, k_create);
    let k = lower(k_delete);
    lemma_lower_idempotent(k_create);
    assert(ms2[ms.len() as int].wallet_address == k);
    lemma_find_first(ms2, k);
    if find_first(ms2, k) == -1 {
        assert(ms2[ms.len() as int].wallet_address != k);
    }
    if !has_key(ms, lower(k_create)) {
        lemma_find_first(ms, k);
        let i = find_first(ms2, k);
        assert forall|j: int| 0 <= j < ms.len() implies (#[trigger] ms2[j]).wallet_address
            != k by {
            assert(ms2[j] == ms[j]);
            assert(ms[j].wallet_address != k);
        }
        assert(i == ms.len());
        assert(ms2.remove(i) =~= ms);
    }
}

/// Lowercasing is idempotent, so a stored key equals its own normal form.
pub proof fn lemma_lower_idempotent(s: Seq<u8>)
    ensures
        lower(lower(s)) == lower(s),
{
    assert(lower(lower(s)) =~= lower(s));
}

/// One `sign_attendance` on an existing key bumps that member's count by
/// exactly one (below the count's bound) and changes nothing else: not the
/// member's other fields, not the other members, not the length.
pub proof fn lemma_sign_increments(ms: Seq<StudentModel>, k: Seq<u8>)
    requires
        has_key(ms, lower(k)),
    ensures
        roster_sign(ms, k).len() == ms.len(),
        ({
            let i = find_first(ms, lower(k));
            &&& roster_sign(ms, k)[i].wallet_address == ms[i].wallet_address
            &&& roster_sign(ms, k)[i].name == ms[i].name
            &&& roster_sign(ms, k)[i].age == ms[i].age
            &&& (ms[i].attendance_count < u128::MAX ==> roster_sign(ms, k)[i].attendance_count
                == ms[i].attendance_count + 1)
            &&& forall|j: int|
                0 <= j < ms.len() && j != i ==> #[trigger] roster_sign(ms, k)[j] == ms[j]
        }),
{
    lemma_find_first(ms, lower(k));
}

/// `sign_attendance` and `delete` on a key that no member holds leave the
/// roster exactly as it was.
pub proof fn lemma_missing_key_noop(ms: Seq<StudentModel>, k: Seq<u8>)
    requires
        !has_key(ms, lower(k)),
    ensures
        roster_sign(ms, k) == ms,
        roster_delete(ms, k) == ms,
{
}

} // verus!
