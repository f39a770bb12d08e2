//! Site membership rules: member roles and their names, what a role change
//! revokes and grants, who may be changed, and how invites and membership
//! applications are checked before anything is written.

use crate::error::{Error, ErrorType, error_is};
use crate::text::{chars_eq, chars_trim, push_all, str_chars, string_from_chars, trim};
use vstd::prelude::*;

verus! {

/// The name of the member role.
pub open spec fn member_word() -> Seq<char> {
    seq!['m', 'e', 'm', 'b', 'e', 'r']
}

pub fn member_word_chars() -> (out: Vec<char>)
    ensures
        out@ == member_word(),
{
    vec!['m', 'e', 'm', 'b', 'e', 'r']
}

/// The name of the moderator role.
pub open spec fn moderator_word() -> Seq<char> {
    seq!['m', 'o', 'd', 'e', 'r', 'a', 't', 'o', 'r']
}

pub fn moderator_word_chars() -> (out: Vec<char>)
    ensures
        out@ == moderator_word(),
{
    vec!['m', 'o', 'd', 'e', 'r', 'a', 't', 'o', 'r']
}

/// The name of the admin role.
pub open spec fn admin_word() -> Seq<char> {
    seq!['a', 'd', 'm', 'i', 'n']
}

pub fn admin_word_chars() -> (out: Vec<char>)
    ensures
        out@ == admin_word(),
{
    vec!['a', 'd', 'm', 'i', 'n']
}

/// The name of the root role.
pub open spec fn root_word() -> Seq<char> {
    seq!['r', 'o', 'o', 't']
}

pub fn root_word_chars() -> (out: Vec<char>)
    ensures
        out@ == root_word(),
{
    vec!['r', 'o', 'o', 't']
}

/// Refuses to hand out the root role.
pub open spec fn root_unassignable_message() -> Seq<char> {
    seq!['t', 'h', 'e', ' ', 'r', 'o', 'o', 't', ' ', 'r', 'o', 'l', 'e', ' ', 'c', 'a', 'n', 'n', 'o', 't', ' ', 'b', 'e', ' ', 'a', 's', 's', 'i', 'g', 'n', 'e', 'd']
}

pub fn root_unassignable_message_chars() -> (out: Vec<char>)
    ensures
        out@ == root_unassignable_message(),
{
    vec!['t', 'h', 'e', ' ', 'r', 'o', 'o', 't', ' ', 'r', 'o', 'l', 'e', ' ', 'c', 'a', 'n', 'n', 'o', 't', ' ', 'b', 'e', ' ', 'a', 's', 's', 'i', 'g', 'n', 'e', 'd']
}

/// Refuses a member change to anyone but a site admin.
pub open spec fn admins_only_message() -> Seq<char> {
    seq!['o', 'n', 'l', 'y', ' ', 's', 'i', 't', 'e', ' ', 'a', 'd', 'm', 'i', 'n', 's', ' ', 'm', 'a', 'n', 'a', 'g', 'e', ' ', 'm', 'e', 'm', 'b', 'e', 'r', 's']
}

pub fn admins_only_message_chars() -> (out: Vec<char>)
    ensures
        out@ == admins_only_message(),
{
    vec!['o', 'n', 'l', 'y', ' ', 's', 'i', 't', 'e', ' ', 'a', 'd', 'm', 'i', 'n', 's', ' ', 'm', 'a', 'n', 'a', 'g', 'e', ' ', 'm', 'e', 'm', 'b', 'e', 'r', 's']
}

/// Starts the refusal of a change to a protected member.
pub open spec fn you_cannot() -> Seq<char> {
    seq!['y', 'o', 'u', ' ', 'c', 'a', 'n', 'n', 'o', 't', ' ']
}

pub fn you_cannot_chars() -> (out: Vec<char>)
    ensures
        out@ == you_cannot(),
{
    vec!['y', 'o', 'u', ' ', 'c', 'a', 'n', 'n', 'o', 't', ' ']
}

/// Ends the refusal of a change to oneself.
pub open spec fn yourself_suffix() -> Seq<char> {
    seq![' ', 'y', 'o', 'u', 'r', 's', 'e', 'l', 'f']
}

pub fn yourself_suffix_chars() -> (out: Vec<char>)
    ensures
        out@ == yourself_suffix(),
{
    vec![' ', 'y', 'o', 'u', 'r', 's', 'e', 'l', 'f']
}

/// Ends the refusal of a change to the root member.
pub open spec fn root_member_suffix() -> Seq<char> {
    seq![' ', 't', 'h', 'e', ' ', 's', 'i', 't', 'e', '\'', 's', ' ', 'r', 'o', 'o', 't', ' ', 'm', 'e', 'm', 'b', 'e', 'r']
}

pub fn root_member_suffix_chars() -> (out: Vec<char>)
    ensures
        out@ == root_member_suffix(),
{
    vec![' ', 't', 'h', 'e', ' ', 's', 'i', 't', 'e', '\'', 's', ' ', 'r', 'o', 'o', 't', ' ', 'm', 'e', 'm', 'b', 'e', 'r']
}

/// Refuses an invite without an address.
pub open spec fn email_empty_message() -> Seq<char> {
    seq!['e', 'm', 'a', 'i', 'l', ' ', 'c', 'a', 'n', 'n', 'o', 't', ' ', 'b', 'e', ' ', 'e', 'm', 'p', 't', 'y']
}

pub fn email_empty_message_chars() -> (out: Vec<char>)
    ensures
        out@ == email_empty_message(),
{
    vec!['e', 'm', 'a', 'i', 'l', ' ', 'c', 'a', 'n', 'n', 'o', 't', ' ', 'b', 'e', ' ', 'e', 'm', 'p', 't', 'y']
}

/// Refuses an invite that would create an unnamed account.
pub open spec fn name_required_message() -> Seq<char> {
    seq!['n', 'o', ' ', 'a', 'c', 'c', 'o', 'u', 'n', 't', ' ', 'h', 'a', 's', ' ', 't', 'h', 'i', 's', ' ', 'e', 'm', 'a', 'i', 'l', ',', ' ', 's', 'o', ' ', 't', 'h', 'e', ' ', 'i', 'n', 'v', 'i', 't', 'e', ' ', 'n', 'e', 'e', 'd', 's', ' ', 'a', ' ', 'n', 'a', 'm', 'e']
}

pub fn name_required_message_chars() -> (out: Vec<char>)
    ensures
        out@ == name_required_message(),
{
    vec!['n', 'o', ' ', 'a', 'c', 'c', 'o', 'u', 'n', 't', ' ', 'h', 'a', 's', ' ', 't', 'h', 'i', 's', ' ', 'e', 'm', 'a', 'i', 'l', ',', ' ', 's', 'o', ' ', 't', 'h', 'e', ' ', 'i', 'n', 'v', 'i', 't', 'e', ' ', 'n', 'e', 'e', 'd', 's', ' ', 'a', ' ', 'n', 'a', 'm', 'e']
}

/// Refuses to invite a member.
pub open spec fn already_member_message() -> Seq<char> {
    seq!['t', 'h', 'i', 's', ' ', 'a', 'c', 'c', 'o', 'u', 'n', 't', ' ', 'i', 's', ' ', 'a', 'l', 'r', 'e', 'a', 'd', 'y', ' ', 'a', ' ', 's', 'i', 't', 'e', ' ', 'm', 'e', 'm', 'b', 'e', 'r']
}

pub fn already_member_message_chars() -> (out: Vec<char>)
    ensures
        out@ == already_member_message(),
{
    vec!['t', 'h', 'i', 's', ' ', 'a', 'c', 'c', 'o', 'u', 'n', 't', ' ', 'i', 's', ' ', 'a', 'l', 'r', 'e', 'a', 'd', 'y', ' ', 'a', ' ', 's', 'i', 't', 'e', ' ', 'm', 'e', 'm', 'b', 'e', 'r']
}

/// Reports a failed member query.
pub open spec fn member_query_message() -> Seq<char> {
    seq!['s', 'i', 't', 'e', ' ', 'm', 'e', 'm', 'b', 'e', 'r', ' ', 'q', 'u', 'e', 'r', 'y', ' ', 'f', 'a', 'i', 'l', 'e', 'd']
}

pub fn member_query_message_chars() -> (out: Vec<char>)
    ensures
        out@ == member_query_message(),
{
    vec!['s', 'i', 't', 'e', ' ', 'm', 'e', 'm', 'b', 'e', 'r', ' ', 'q', 'u', 'e', 'r', 'y', ' ', 'f', 'a', 'i', 'l', 'e', 'd']
}


// ---------------------------------------------------------------- roles

/// A member's highest site role. `Root` is shown but never assigned here.
#[derive(Debug, Clone, Copy, PartialEq, Eq, Structural, PartialOrd, Ord)]
pub enum MemberRole {
    Member,
    Moderator,
    Admin,
    Root,
}

/// How roles are ranked: member, moderator, admin, root.
pub open spec fn rank(role: MemberRole) -> int {
    match role {
        MemberRole::Member => 0,
        MemberRole::Moderator => 1,
        MemberRole::Admin => 2,
        MemberRole::Root => 3,
    }
}

fn role_rank(role: MemberRole) -> (out: u8)
    ensures
        out == rank(role),
{
    match role {
        MemberRole::Member => 0,
        MemberRole::Moderator => 1,
        MemberRole::Admin => 2,
        MemberRole::Root => 3,
    }
}

/// The name of the site role that stands for `role`.
pub open spec fn role_name_spec(role: MemberRole) -> Seq<char> {
    match role {
        MemberRole::Member => member_word(),
        MemberRole::Moderator => moderator_word(),
        MemberRole::Admin => admin_word(),
        MemberRole::Root => root_word(),
    }
}

/// The member role a site role name stands for, if any.
pub open spec fn from_role_name_spec(name: Seq<char>) -> Option<MemberRole> {
    if name == member_word() {
        Some(MemberRole::Member)
    } else if name == moderator_word() {
        Some(MemberRole::Moderator)
    } else if name == admin_word() {
        Some(MemberRole::Admin)
    } else if name == root_word() {
        Some(MemberRole::Root)
    } else {
        None
    }
}

impl MemberRole {
    pub fn role_name(self) -> (out: String)
        ensures
            out@ == role_name_spec(self),
    {
        match self {
            MemberRole::Member => string_from_chars(&member_word_chars()),
            MemberRole::Moderator => string_from_chars(&moderator_word_chars()),
            MemberRole::Admin => string_from_chars(&admin_word_chars()),
            MemberRole::Root => string_from_chars(&root_word_chars()),
        }
    }

    pub fn from_role_name(name: &str) -> (out: Option<MemberRole>)
        ensures
            out == from_role_name_spec(name@),
    {
        let n = str_chars(name);
        if chars_eq(&n, &member_word_chars()) {
            Some(MemberRole::Member)
        } else if chars_eq(&n, &moderator_word_chars()) {
            Some(MemberRole::Moderator)
        } else if chars_eq(&n, &admin_word_chars()) {
            Some(MemberRole::Admin)
        } else if chars_eq(&n, &root_word_chars()) {
            Some(MemberRole::Root)
        } else {
            None
        }
    }
}

/// A role's name reads back as that role, and a name that reads as a role is
/// that role's name.
pub proof fn lemma_role_names_round_trip(role: MemberRole, name: Seq<char>)
    ensures
        from_role_name_spec(role_name_spec(role)) == Some(role),
        from_role_name_spec(name) == Some(role) ==> name == role_name_spec(role),
{
    assert(member_word() != moderator_word());
    assert(member_word() != admin_word());
    assert(member_word() != root_word());
    assert(moderator_word() != admin_word());
    assert(moderator_word() != root_word());
    assert(admin_word() != root_word());
}

/// Whether `role` is among the roles held.
pub open spec fn holds(held: Seq<(MemberRole, i64)>, role: MemberRole) -> bool {
    exists|i: int| 0 <= i < held.len() && (#[trigger] held[i]).0 == role
}

/// The highest role held; a member holding none of the managed roles is a
/// plain member.
pub fn highest_role(held: &[(MemberRole, i64)]) -> (out: MemberRole)
    ensures
        held@.len() == 0 ==> out == MemberRole::Member,
        held@.len() > 0 ==> holds(held@, out),
        forall|i: int| 0 <= i < held@.len() ==> rank((#[trigger] held@[i]).0) <= rank(out),
{
    if held.len() == 0 {
        return MemberRole::Member;
    }
    let mut best = held[0].0;
    let mut i: usize = 1;
    while i < held.len()
        invariant
            1 <= i <= held@.len(),
            holds(held@, best),
            forall|j: int| 0 <= j < i ==> rank((#[trigger] held@[j]).0) <= rank(best),
        decreases held@.len() - i,
    {
        if role_rank(held[i].0) > role_rank(best) {
            best = held[i].0;
        }
        i = i + 1;
    }
    best
}

/// Whether the roles held make their holder a site admin.
pub open spec fn is_admin_spec(held: Seq<(MemberRole, i64)>) -> bool {
    holds(held, MemberRole::Admin) || holds(held, MemberRole::Root)
}

/// Whether the user holding `held` holds the site's `admin` or `root` role.
pub fn holds_admin(held: &[(MemberRole, i64)]) -> (out: bool)
    ensures
        out == is_admin_spec(held@),
{
    let mut i: usize = 0;
    while i < held.len()
        invariant
            i <= held@.len(),
            forall|j: int| 0 <= j < i ==> (#[trigger] held@[j]).0 != MemberRole::Admin && held@[j].0 != MemberRole::Root,
        decreases held@.len() - i,
    {
        if held[i].0 == MemberRole::Admin || held[i].0 == MemberRole::Root {
            return true;
        }
        i = i + 1;
    }
    false
}

// ---------------------------------------------------------------- role changes

/// The grants a role change removes: every held role other than member and
/// the new role, in the order held.
pub open spec fn revoked_ids(held: Seq<(MemberRole, i64)>, role: MemberRole) -> Seq<i64>
    decreases held.len(),
{
    if held.len() == 0 {
        seq![]
    } else {
        let rest = revoked_ids(held.drop_last(), role);
        if held.last().0 != MemberRole::Member && held.last().0 != role {
            rest.push(held.last().1)
        } else {
            rest
        }
    }
}

/// The roles a member with `role` holds: member, and the role itself.
pub open spec fn wanted_roles(role: MemberRole) -> Seq<MemberRole> {
    if role == MemberRole::Member {
        seq![MemberRole::Member]
    } else {
        seq![MemberRole::Member, role]
    }
}

/// The wanted roles not yet held, in the order member, role.
pub open spec fn granted_roles(held: Seq<(MemberRole, i64)>, role: MemberRole) -> Seq<MemberRole> {
    let member: Seq<MemberRole> = if holds(held, MemberRole::Member) { seq![] } else { seq![MemberRole::Member] };
    if role == MemberRole::Member {
        member
    } else if holds(held, role) {
        member
    } else {
        member.push(role)
    }
}

/// What a role change does: the grants to revoke, by role ID, and the roles
/// to grant.
#[derive(Debug)]
pub struct RoleChange {
    pub revoke: Vec<i64>,
    pub grant: Vec<MemberRole>,
}

/// What making a member with grants `held` a `role` takes; root cannot be
/// assigned.
pub fn plan_role_change(held: &[(MemberRole, i64)], role: MemberRole) -> (out: Result<RoleChange, Error>)
    ensures
        role == MemberRole::Root <==> out is Err,
        out matches Err(e) ==> error_is(e, ErrorType::BadRequest, root_unassignable_message()),
        out matches Ok(c) ==> c.revoke@ == revoked_ids(held@, role) && c.grant@ == granted_roles(held@, role),
{
    if role == MemberRole::Root {
        return Err(Error::new(string_from_chars(&root_unassignable_message_chars()), ErrorType::BadRequest));
    }
    let mut revoke: Vec<i64> = Vec::new();
    let mut has_member = false;
    let mut has_role = false;
    let mut i: usize = 0;
    while i < held.len()
        invariant
            i <= held@.len(),
            revoke@ == revoked_ids(held@.take(i as int), role),
            has_member <==> holds(held@.take(i as int), MemberRole::Member),
            has_role <==> holds(held@.take(i as int), role),
        decreases held@.len() - i,
    {
        let ghost prefix = held@.take(i as int);
        let ghost next = held@.take(i as int + 1);
        assert(next.drop_last() =~= prefix);
        assert(next.last() == held@[i as int]);
        let (h, id) = held[i];
        if h != MemberRole::Member && h != role {
            revoke.push(id);
        }
        if h == MemberRole::Member {
            has_member = true;
        }
        if h == role {
            has_role = true;
        }
        proof {
            assert forall|r: MemberRole| holds(next, r) <==> (holds(prefix, r) || h == r) by {
                if holds(next, r) {
                    let j = choose|j: int| 0 <= j < next.len() && (#[trigger] next[j]).0 == r;
                    if j < i {
                        assert(prefix[j] == next[j]);
                    }
                }
                if holds(prefix, r) {
                    let j = choose|j: int| 0 <= j < prefix.len() && (#[trigger] prefix[j]).0 == r;
                    assert(next[j] == prefix[j]);
                }
                if h == r {
                    assert(next[i as int].0 == r);
                }
            }
        }
        i = i + 1;
    }
    assert(held@.take(held@.len() as int) =~= held@);
    let mut grant: Vec<MemberRole> = Vec::new();
    if !has_member {
        grant.push(MemberRole::Member);
    }
    if role != MemberRole::Member && !has_role {
        grant.push(role);
    }
    assert(grant@ =~= granted_roles(held@, role));
    Ok(RoleChange { revoke, grant })
}

/// A role change leaves exactly the wanted roles: after revoking
/// `revoked_ids` and granting `granted_roles`, a member holds a grant of a
/// role exactly when it is member or the new role, and no grant that was
/// kept is revoked.
pub proof fn lemma_role_change_leaves_wanted_roles(held: Seq<(MemberRole, i64)>, role: MemberRole, r: MemberRole)
    requires
        role != MemberRole::Root,
    ensures
        (exists|i: int| 0 <= i < held.len() && (#[trigger] held[i]).0 == r
            && !(held[i].0 != MemberRole::Member && held[i].0 != role))
            || granted_roles(held, role).contains(r)
            <==> wanted_roles(role).contains(r),
{
    let kept = exists|i: int| 0 <= i < held.len() && (#[trigger] held[i]).0 == r
        && !(held[i].0 != MemberRole::Member && held[i].0 != role);
    let g = granted_roles(held, role);
    let w = wanted_roles(role);
    if w.contains(r) {
        if !kept {
            if holds(held, r) {
                let i = choose|i: int| 0 <= i < held.len() && (#[trigger] held[i]).0 == r;
                assert(r == MemberRole::Member || r == role) by {
                    if role == MemberRole::Member {
                        assert(w[0] == MemberRole::Member);
                    }
                }
                assert(!(held[i].0 != MemberRole::Member && held[i].0 != role));
            }
            if r == MemberRole::Member {
                if role == MemberRole::Member {
                    assert(g[0] == r);
                } else if holds(held, role) {
                    assert(g[0] == r);
                } else {
                    assert(g[0] == r);
                }
            } else {
                assert(r == role);
                assert(g.last() == r);
            }
        }
    } else {
        assert(r != MemberRole::Member && r != role) by {
            if r == MemberRole::Member {
                assert(w[0] == r);
            }
            if r == role {
                assert(w.last() == r);
            }
        }
        if g.contains(r) {
            let k = choose|k: int| 0 <= k < g.len() && g[k] == r;
            assert(g[k] == MemberRole::Member || g[k] == role);
        }
    }
}

// ---------------------------------------------------------------- who may be changed

fn refusal(action: &str, suffix: Vec<char>) -> (out: String)
    ensures
        out@ == you_cannot() + action@ + suffix@,
{
    let mut m = you_cannot_chars();
    push_all(&mut m, &str_chars(action));
    push_all(&mut m, &suffix);
    string_from_chars(&m)
}

/// No admin acts on their own membership.
pub fn check_not_self(actor_user_id: i64, user_id: i64, action: &str) -> (out: Result<(), Error>)
    ensures
        out is Err <==> actor_user_id == user_id,
        out matches Err(e) ==> error_is(e, ErrorType::OwnMembership, you_cannot() + action@ + yourself_suffix()),
{
    if user_id == actor_user_id {
        return Err(Error::new(refusal(action, yourself_suffix_chars()), ErrorType::OwnMembership));
    }
    Ok(())
}

/// The site's root member is never changed.
pub fn check_not_root(held: &[(MemberRole, i64)], action: &str) -> (out: Result<(), Error>)
    ensures
        out is Err <==> holds(held@, MemberRole::Root),
        out matches Err(e) ==> error_is(e, ErrorType::RootMemberProtected, you_cannot() + action@ + root_member_suffix()),
{
    let mut i: usize = 0;
    while i < held.len()
        invariant
            i <= held@.len(),
            forall|j: int| 0 <= j < i ==> (#[trigger] held@[j]).0 != MemberRole::Root,
        decreases held@.len() - i,
    {
        if held[i].0 == MemberRole::Root {
            return Err(Error::new(refusal(action, root_member_suffix_chars()), ErrorType::RootMemberProtected));
        }
        i = i + 1;
    }
    Ok(())
}

/// The refusal of member administration to anyone but a site admin.
pub fn denied_admin() -> (out: Error)
    ensures
        error_is(out, ErrorType::PermissionDenied, admins_only_message()),
{
    Error::new(string_from_chars(&admins_only_message_chars()), ErrorType::PermissionDenied)
}

/// The user acting in a member administration request: a signed-in user
/// whose session is not restricted (not done signing in).
pub fn admin_session_user(user_id: Option<i64>, restricted: bool) -> (out: Result<i64, Error>)
    ensures
        out matches Ok(u) ==> user_id == Some(u) && !restricted,
        out is Err <==> (user_id is None || restricted),
        out matches Err(e) ==> error_is(e, ErrorType::PermissionDenied, admins_only_message()),
{
    match user_id {
        None => Err(denied_admin()),
        Some(u) => if restricted { Err(denied_admin()) } else { Ok(u) },
    }
}

pub fn query_error() -> (out: Error)
    ensures
        error_is(out, ErrorType::DatabaseQuery, member_query_message()),
{
    Error::new(string_from_chars(&member_query_message_chars()), ErrorType::DatabaseQuery)
}

// ---------------------------------------------------------------- invites

/// The address an invite goes to: the given one without surrounding
/// whitespace, which must not be empty.
pub fn invite_address(email: &str) -> (out: Result<String, Error>)
    ensures
        out matches Ok(a) ==> a@ == trim(email@) && a@.len() > 0,
        out is Err <==> trim(email@).len() == 0,
        out matches Err(e) ==> error_is(e, ErrorType::UserEmailEmpty, email_empty_message()),
{
    let a = chars_trim(&str_chars(email));
    if a.len() == 0 {
        return Err(Error::new(string_from_chars(&email_empty_message_chars()), ErrorType::UserEmailEmpty));
    }
    Ok(string_from_chars(&a))
}

/// The account an invite adds.
#[derive(Debug)]
pub enum InviteAccount {
    /// The account that has the address.
    Existing(i64),
    /// A new account, with this name.
    Create(String),
}

/// The account to invite: the one with the address, or else a new one named
/// by the trimmed `name`, which a new account needs.
pub fn invite_account(existing: Option<i64>, name: Option<&str>) -> (out: Result<InviteAccount, Error>)
    ensures
        existing matches Some(u) ==> (out matches Ok(InviteAccount::Existing(v)) && v == u),
        existing is None ==> match name {
            Some(n) => if trim(n@).len() > 0 {
                out matches Ok(InviteAccount::Create(m)) && m@ == trim(n@)
            } else {
                out matches Err(e) && error_is(e, ErrorType::UserNameRequired, name_required_message())
            },
            None => out matches Err(e) && error_is(e, ErrorType::UserNameRequired, name_required_message()),
        },
{
    match existing {
        Some(u) => Ok(InviteAccount::Existing(u)),
        None => {
            let trimmed = match name {
                Some(n) => chars_trim(&str_chars(n)),
                None => Vec::new(),
            };
            if trimmed.len() == 0 {
                return Err(Error::new(string_from_chars(&name_required_message_chars()), ErrorType::UserNameRequired));
            }
            Ok(InviteAccount::Create(string_from_chars(&trimmed)))
        },
    }
}

/// The refusal to invite someone who is already a member.
pub fn already_member() -> (out: Error)
    ensures
        error_is(out, ErrorType::SiteMemberExists, already_member_message()),
{
    Error::new(string_from_chars(&already_member_message_chars()), ErrorType::SiteMemberExists)
}

#[derive(Debug, Clone, Copy, PartialEq, Eq)]
pub struct InviteMemberOutput {
    pub user_id: i64,
    /// Whether the invite created the account.
    pub created: bool,
    /// Whether a set-password link was emailed (new accounts only).
    pub emailed: bool,
}

/// What an invite reports: a created account is always emailed its link.
pub fn invite_output(user_id: i64, created: bool) -> (out: InviteMemberOutput)
    ensures
        out.user_id == user_id,
        out.created == created,
        out.emailed == created,
{
    InviteMemberOutput { user_id, created, emailed: created }
}

/// How a member came to join a site.
#[derive(Debug, Clone, Copy, PartialEq, Eq, Structural)]
pub enum SiteMemberAccepted {
    CreatedSite,
    SelfJoined,
    Password,
    Accepted(i64),
    Invitation(i64),
}

#[derive(Debug, Clone, Copy, PartialEq, Eq, Structural)]
pub struct SiteMemberData {
    pub accepted: SiteMemberAccepted,
}

/// Member administration acts for the request's session user, who must be a
/// site admin.
#[derive(Debug)]
pub struct MemberAdminService;

} // verus!
