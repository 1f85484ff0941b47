use vstd::prelude::*;

use crate::user::User;
use crate::user::UserView;
use crate::user::Validate;
use crate::user::ValidationError;
use crate::user::user_valid;
use crate::user::valid_email;
use crate::user::valid_name;

verus! {

/// An in-memory registry of user records.
///
/// It owns an identifier counter, starting at 1, and the stored records.
/// Every stored record has passed validation, is active, and carries an
/// identifier that was reserved from the counter, so identifiers are
/// pairwise distinct and below the counter's current value.
pub struct UserManager {
    users: Vec<User>,
    next_id: u64,
}

/// What holds of every record stored while the counter stands at `next_id`.
pub open spec fn stored_user_ok(u: UserView, next_id: u64) -> bool {
    &&& user_valid(u)
    &&& u.is_active
    &&& 1 <= u.id < next_id
}

/// Whether some stored record carries the identifier `id`.
pub open spec fn has_user_id(users: Seq<UserView>, id: u64) -> bool {
    exists|i: int| 0 <= i < users.len() && (#[trigger] users[i]).id == id
}

/// The record stored under `id`, if any.
pub open spec fn spec_find(users: Seq<UserView>, id: u64) -> Option<UserView> {
    if has_user_id(users, id) {
        Some(users[choose|i: int| 0 <= i < users.len() && (#[trigger] users[i]).id == id])
    } else {
        None
    }
}

/// What a successful insertion guarantees: the returned record carries the
/// identifier reserved from the counter, the given texts, the active flag
/// and the single role `"user"`, and the registry now holds exactly the old
/// records plus this one, with the counter advanced by one.
pub open spec fn added_user_ok(
    pre: UserManager,
    post: UserManager,
    name: Seq<char>,
    email: Seq<char>,
    u: UserView,
) -> bool {
    &&& u.id == pre.id_counter()
    &&& u.name == name
    &&& u.email == email
    &&& u.is_active == true
    &&& u.roles == seq!["user"@]
    &&& post.users_seq() == pre.users_seq().push(u)
    &&& post.id_counter() == pre.id_counter() + 1
}

impl UserManager {
    /// The stored records, in insertion order.
    pub closed spec fn users_seq(self) -> Seq<UserView> {
        self.users.deep_view()
    }

    /// The identifier the next insertion attempt will reserve.
    pub closed spec fn id_counter(self) -> u64 {
        self.next_id
    }

    /// The registry's invariant: the counter starts at 1, every stored
    /// record is valid, active and keyed below the counter, and no two
    /// stored records share an identifier.
    pub open spec fn wf(self) -> bool {
        &&& 1 <= self.id_counter()
        &&& forall|i: int|
            0 <= i < self.users_seq().len() ==> stored_user_ok(
                #[trigger] self.users_seq()[i],
                self.id_counter(),
            )
        &&& forall|i: int, j: int|
            0 <= i < j < self.users_seq().len() ==> self.users_seq()[i].id
                != self.users_seq()[j].id
    }

    /// Creates an empty registry whose counter starts at 1.
    pub fn new() -> (r: Self)
        ensures
            r.wf(),
            r.users_seq() == Seq::<UserView>::empty(),
            r.id_counter() == 1,
    {
        let r = UserManager { users: Vec::new(), next_id: 1 };
        proof {
            assert(r.users_seq() =~= Seq::<UserView>::empty());
        }
        r
    }

    /// The current value of the identifier counter.
    pub fn id_counter_value(&self) -> (n: u64)
        ensures
            n == self.id_counter(),
    {
        self.next_id
    }

    /// Reserves the next identifier, builds a candidate record with the
    /// active flag set and the single role `"user"`, validates it, and
    /// stores it on success.
    ///
    /// The identifier is consumed even when validation fails, so failed
    /// attempts leave gaps in the sequence of assigned identifiers.
    pub fn add_user(&mut self, name: String, email: String) -> (r: Result<User, ValidationError>)
        requires
            old(self).wf(),
            old(self).id_counter() < u64::MAX,
        ensures
            final(self).wf(),
            final(self).id_counter() == old(self).id_counter() + 1,
            r is Ok <==> valid_name(name@) && valid_email(email@),
            r matches Ok(u) ==> added_user_ok(*old(self), *final(self), name@, email@, u@),
            name@.len() == 0 ==> r == Err::<User, ValidationError>(ValidationError::EmptyName),
            name@.len() > 0 && !valid_email(email@) ==> r == Err::<User, ValidationError>(
                ValidationError::InvalidEmail,
            ),
            r is Err ==> final(self).users_seq() == old(self).users_seq(),
    {
        let id = self.next_id;
        self.next_id = self.next_id + 1;

        let mut roles: Vec<String> = Vec::new();
        roles.push("user".to_owned());

        let user = User { id, name, email, is_active: true, roles };
        proof {
            assert(user.roles.deep_view() =~= seq!["user"@]);
        }

        match user.validate() {
            Err(e) => {
                proof {
                    lemma_wf_counter_grows(*old(self), *self);
                }
                return Err(e);
            },
            Ok(()) => {},
        }

        let stored = user.clone();
        self.users.push(stored);
        proof {
            let pre = *old(self);
            assert(self.users.deep_view() =~= pre.users_seq().push(user@));
            lemma_wf_after_insert(pre, *self, user@);
        }
        Ok(user)
    }

    /// Returns a copy of the record stored under `id`, or nothing when no
    /// record carries that identifier.
    pub fn find_by_id(&self, id: u64) -> (r: Option<User>)
        requires
            self.wf(),
        ensures
            r.deep_view() == spec_find(self.users_seq(), id),
    {
        let n = self.users.len();
        let mut i: usize = 0;
        while i < n
            invariant
                self.wf(),
                n == self.users.len(),
                i <= n,
                forall|j: int| 0 <= j < i ==> self.users_seq()[j].id != id,
            decreases n - i,
        {
            if self.users[i].id == id {
                let u = self.users[i].clone();
                proof {
                    let s = self.users_seq();
                    assert(s[i as int].id == id);
                    assert(has_user_id(s, id));
                    let k = choose|k: int| 0 <= k < s.len() && (#[trigger] s[k]).id == id;
                    if k < i as int {
                        assert(s[k].id != s[i as int].id);
                    } else if (i as int) < k {
                        assert(s[i as int].id != s[k].id);
                    }
                    assert(k == i as int);
                }
                return Some(u);
            }
            i = i + 1;
        }
        proof {
            if has_user_id(self.users_seq(), id) {
                let s = self.users_seq();
                let k = choose|k: int| 0 <= k < s.len() && (#[trigger] s[k]).id == id;
                assert(s[k].id != id);
            }
        }
        None
    }

    /// Returns copies of all stored records whose active flag is set.
    ///
    /// The registry only ever stores active records, so this is every
    /// stored record. The contract fixes the result to insertion order,
    /// though callers are promised no more than some order of the active
    /// records.
    pub fn get_active_users(&self) -> (r: Vec<User>)
        requires
            self.wf(),
        ensures
            r.deep_view() == self.users_seq().filter(|u: UserView| u.is_active),
            r.deep_view() == self.users_seq(),
    {
        let n = self.users.len();
        let mut out: Vec<User> = Vec::new();
        proof {
            reveal(Seq::filter);
            assert(out.deep_view() =~= self.users_seq().take(0).filter(|u: UserView| u.is_active));
        }
        let mut i: usize = 0;
        while i < n
            invariant
                self.wf(),
                n == self.users.len(),
                i <= n,
                out.deep_view() == self.users_seq().take(i as int).filter(
                    |u: UserView| u.is_active,
                ),
            decreases n - i,
        {
            let ghost prev = out.deep_view();
            if self.users[i].is_active {
                out.push(self.users[i].clone());
            }
            proof {
                reveal(Seq::filter);
                let s = self.users_seq();
                let pred = (|u: UserView| u.is_active);
                assert(s.take(i as int + 1).drop_last() =~= s.take(i as int));
                assert(s.take(i as int + 1).last() == s[i as int]);
                if s[i as int].is_active {
                    assert(out.deep_view() =~= prev.push(s[i as int]));
                    assert(out.deep_view() =~= s.take(i as int + 1).filter(pred));
                } else {
                    assert(out.deep_view() =~= s.take(i as int + 1).filter(pred));
                }
            }
            i = i + 1;
        }
        proof {
            assert(self.users_seq().take(n as int) =~= self.users_seq());
            lemma_filter_active_identity(self.users_seq());
        }
        out
    }
}

/// Under a larger counter, every record acceptable at a smaller counter is
/// still acceptable, so a registry that only advanced its counter stays
/// well-formed.
proof fn lemma_wf_counter_grows(pre: UserManager, post: UserManager)
    requires
        pre.wf(),
        post.users_seq() == pre.users_seq(),
        post.id_counter() >= pre.id_counter(),
    ensures
        post.wf(),
{
    assert forall|i: int| 0 <= i < post.users_seq().len() implies stored_user_ok(
        #[trigger] post.users_seq()[i],
        post.id_counter(),
    ) by {
        assert(stored_user_ok(pre.users_seq()[i], pre.id_counter()));
    }
}

/// Pushing a valid, active record keyed with the old counter value, while
/// advancing the counter past it, preserves the registry's invariant.
proof fn lemma_wf_after_insert(pre: UserManager, post: UserManager, u: UserView)
    requires
        pre.wf(),
        user_valid(u),
        u.is_active,
        u.id == pre.id_counter(),
        post.users_seq() == pre.users_seq().push(u),
        post.id_counter() == pre.id_counter() + 1,
    ensures
        post.wf(),
{
    let s = post.users_seq();
    let len = pre.users_seq().len() as int;
    assert forall|i: int| 0 <= i < s.len() implies stored_user_ok(
        #[trigger] s[i],
        post.id_counter(),
    ) by {
        if i < len {
            assert(s[i] == pre.users_seq()[i]);
            assert(stored_user_ok(pre.users_seq()[i], pre.id_counter()));
        }
    }
    assert forall|i: int, j: int| 0 <= i < j < s.len() implies s[i].id != s[j].id by {
        if j < len {
            assert(pre.users_seq()[i].id != pre.users_seq()[j].id);
        } else {
            assert(stored_user_ok(pre.users_seq()[i], pre.id_counter()));
        }
    }
}

/// A record just inserted by a successful `add_user` call is found under
/// the identifier it was assigned.
pub proof fn lemma_added_user_is_found(
    pre: UserManager,
    post: UserManager,
    name: Seq<char>,
    email: Seq<char>,
    u: UserView,
)
    requires
        pre.wf(),
        added_user_ok(pre, post, name, email, u),
    ensures
        spec_find(post.users_seq(), u.id) == Some(u),
{
    let s = post.users_seq();
    let len = pre.users_seq().len() as int;
    assert(s[len] == u);
    assert(has_user_id(s, u.id));
    let k = choose|k: int| 0 <= k < s.len() && (#[trigger] s[k]).id == u.id;
    if k < len {
        assert(s[k] == pre.users_seq()[k]);
        assert(stored_user_ok(pre.users_seq()[k], pre.id_counter()));
    }
    assert(k == len);
}

/// Identifiers assigned by successive successful `add_user` calls are
/// strictly increasing, and hence pairwise distinct: whenever the second
/// call starts no earlier than the first one finished (the counter never
/// decreases in between), its record's identifier is strictly greater.
pub proof fn lemma_identifiers_strictly_increase(
    pre1: UserManager,
    post1: UserManager,
    name1: Seq<char>,
    email1: Seq<char>,
    u1: UserView,
    pre2: UserManager,
    post2: UserManager,
    name2: Seq<char>,
    email2: Seq<char>,
    u2: UserView,
)
    requires
        added_user_ok(pre1, post1, name1, email1, u1),
        added_user_ok(pre2, post2, name2, email2, u2),
        post1.id_counter() <= pre2.id_counter(),
    ensures
        u1.id < u2.id,
{
}

/// `find_by_id` on an identifier the registry never assigned returns
/// nothing: every assigned identifier is at least 1 and below the counter.
pub proof fn lemma_unassigned_id_not_found(m: UserManager, id: u64)
    requires
        m.wf(),
        id == 0 || id >= m.id_counter(),
    ensures
        spec_find(m.users_seq(), id) is None,
{
    let s = m.users_seq();
    if has_user_id(s, id) {
        let k = choose|k: int| 0 <= k < s.len() && (#[trigger] s[k]).id == id;
        assert(stored_user_ok(s[k], m.id_counter()));
    }
}

/// The active records are exactly the stored records with the active flag
/// set; since the registry stores only active records, that is every
/// stored record.
pub proof fn lemma_active_users_exact(m: UserManager)
    requires
        m.wf(),
    ensures
        m.users_seq().filter(|u: UserView| u.is_active) == m.users_seq(),
        forall|u: UserView|
            m.users_seq().filter(|v: UserView| v.is_active).contains(u) <==> m.users_seq().contains(
                u,
            ) && u.is_active,
{
    lemma_filter_active_identity(m.users_seq());
    assert forall|u: UserView| m.users_seq().contains(u) implies u.is_active by {
        let k = choose|k: int| 0 <= k < m.users_seq().len() && m.users_seq()[k] == u;
        assert(stored_user_ok(m.users_seq()[k], m.id_counter()));
    }
}

/// A sequence of records that are all active filters to itself.
proof fn lemma_filter_active_identity(s: Seq<UserView>)
    requires
        forall|i: int| 0 <= i < s.len() ==> (#[trigger] s[i]).is_active,
    ensures
        s.filter(|u: UserView| u.is_active) == s,
    decreases s.len(),
{
    reveal(Seq::filter);
    if s.len() == 0 {
        assert(s.filter(|u: UserView| u.is_active) =~= s);
    } else {
        assert forall|i: int| 0 <= i < s.drop_last().len() implies (#[trigger] s.drop_last()[i]).is_active by {
            assert(s.drop_last()[i] == s[i]);
        }
        lemma_filter_active_identity(s.drop_last());
        assert(s.last().is_active);
        assert(s.filter(|u: UserView| u.is_active) =~= s);
    }
}

} // verus!
