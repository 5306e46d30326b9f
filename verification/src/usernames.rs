//! Profile usernames: which name each user has, and which user holds each
//! name (compared without regard to ASCII case).

use vstd::prelude::*;
use crate::text::{lowercase_ascii, str_eq};
use crate::protocol::ClientMsg;
use crate::identity::{
    default_username_candidate, default_username_for_salt, normalize_display_name,
    normalize_profile_username, opt_string_view, spec_normalize_display_name,
    spec_normalize_profile_username, username_key,
};

verus! {

// ── association lists ───────────────────────────────────────────────

/// The map a list of `(key, value)` pairs stands for; a later pair wins.
pub open spec fn pairs_map(v: Seq<(String, String)>) -> Map<Seq<char>, Seq<char>>
    decreases v.len(),
{
    if v.len() == 0 {
        Map::empty()
    } else {
        pairs_map(v.drop_last()).insert(v.last().0@, v.last().1@)
    }
}

/// No key occurs twice.
pub open spec fn keys_distinct(v: Seq<(String, String)>) -> bool {
    forall|i: int, j: int| 0 <= i < j < v.len() ==> (#[trigger] v[i]).0@ != (#[trigger] v[j]).0@
}

proof fn lemma_pairs_map_keys(v: Seq<(String, String)>, k: Seq<char>)
    ensures
        pairs_map(v).contains_key(k) <==> exists|i: int| 0 <= i < v.len() && (#[trigger] v[i]).0@ == k,
    decreases v.len(),
{
    if v.len() > 0 {
        lemma_pairs_map_keys(v.drop_last(), k);
        if pairs_map(v.drop_last()).contains_key(k) {
            let i = choose|i: int| 0 <= i < v.drop_last().len() && (#[trigger] v.drop_last()[i]).0@ == k;
            assert(v[i] == v.drop_last()[i]);
        }
        if exists|i: int| 0 <= i < v.len() && (#[trigger] v[i]).0@ == k {
            let i = choose|i: int| 0 <= i < v.len() && (#[trigger] v[i]).0@ == k;
            if i < v.len() - 1 {
                assert(v.drop_last()[i] == v[i]);
            }
        }
    }
}

proof fn lemma_pairs_map_at(v: Seq<(String, String)>, i: int)
    requires
        keys_distinct(v),
        0 <= i < v.len(),
    ensures
        pairs_map(v).contains_key(v[i].0@),
        pairs_map(v)[v[i].0@] == v[i].1@,
    decreases v.len(),
{
    if i < v.len() - 1 {
        assert(v.drop_last()[i] == v[i]);
        assert(keys_distinct(v.drop_last()));
        lemma_pairs_map_at(v.drop_last(), i);
        assert(v[i].0@ != v[v.len() - 1].0@);
    }
}

proof fn lemma_pairs_map_update(v: Seq<(String, String)>, i: int, p: (String, String))
    requires
        keys_distinct(v),
        0 <= i < v.len(),
        p.0@ == v[i].0@,
    ensures
        pairs_map(v.update(i, p)) == pairs_map(v).insert(p.0@, p.1@),
        keys_distinct(v.update(i, p)),
    decreases v.len(),
{
    let u = v.update(i, p);
    if i == v.len() - 1 {
        assert(u.drop_last() =~= v.drop_last());
        assert(pairs_map(u) =~= pairs_map(v).insert(p.0@, p.1@));
    } else {
        assert(keys_distinct(v.drop_last()));
        lemma_pairs_map_update(v.drop_last(), i, p);
        assert(u.drop_last() =~= v.drop_last().update(i, p));
        assert(v.last().0@ != p.0@);
        assert(pairs_map(u) =~= pairs_map(v).insert(p.0@, p.1@));
    }
    assert forall|a: int, b: int| 0 <= a < b < u.len() implies (#[trigger] u[a]).0@ != (
    #[trigger] u[b]).0@ by {
        assert(u[a].0@ == v[a].0@);
        assert(u[b].0@ == v[b].0@);
    }
}

proof fn lemma_pairs_map_push(v: Seq<(String, String)>, p: (String, String))
    requires
        keys_distinct(v),
        !pairs_map(v).contains_key(p.0@),
    ensures
        pairs_map(v.push(p)) == pairs_map(v).insert(p.0@, p.1@),
        keys_distinct(v.push(p)),
{
    let u = v.push(p);
    assert(u.drop_last() =~= v);
    lemma_pairs_map_keys(v, p.0@);
    assert forall|a: int, b: int| 0 <= a < b < u.len() implies (#[trigger] u[a]).0@ != (
    #[trigger] u[b]).0@ by {
        if b == v.len() {
            assert(u[a] == v[a]);
        } else {
            assert(u[a] == v[a]);
            assert(u[b] == v[b]);
        }
    }
}

proof fn lemma_pairs_map_remove(v: Seq<(String, String)>, i: int)
    requires
        keys_distinct(v),
        0 <= i < v.len(),
    ensures
        pairs_map(v.remove(i)) == pairs_map(v).remove(v[i].0@),
        keys_distinct(v.remove(i)),
    decreases v.len(),
{
    let u = v.remove(i);
    let k = v[i].0@;
    if i == v.len() - 1 {
        assert(u =~= v.drop_last());
        lemma_pairs_map_keys(v.drop_last(), k);
        assert forall|j: int| 0 <= j < v.drop_last().len() implies (#[trigger] v.drop_last()[j]).0@
            != k by {
            assert(v.drop_last()[j] == v[j]);
        }
        assert(pairs_map(u) =~= pairs_map(v).remove(k));
    } else {
        assert(keys_distinct(v.drop_last()));
        lemma_pairs_map_remove(v.drop_last(), i);
        assert(u.drop_last() =~= v.drop_last().remove(i));
        assert(u.last() == v.last());
        assert(v.last().0@ != k);
        assert(pairs_map(u) =~= pairs_map(v).remove(k));
    }
    assert forall|a: int, b: int| 0 <= a < b < u.len() implies (#[trigger] u[a]).0@ != (
    #[trigger] u[b]).0@ by {
        let a2 = if a < i {
            a
        } else {
            a + 1
        };
        let b2 = if b < i {
            b
        } else {
            b + 1
        };
        assert(u[a] == v[a2]);
        assert(u[b] == v[b2]);
    }
}

/// The index of the pair with key `key`.
fn find_key(v: &Vec<(String, String)>, key: &str) -> (r: Option<usize>)
    ensures
        r matches Some(i) ==> i < v.len() && v@[i as int].0@ == key@,
        r is None ==> forall|i: int| 0 <= i < v.len() ==> (#[trigger] v@[i]).0@ != key@,
{
    let mut i: usize = 0;
    while i < v.len()
        invariant
            i <= v.len(),
            forall|j: int| 0 <= j < i ==> (#[trigger] v@[j]).0@ != key@,
        decreases v.len() - i,
    {
        if str_eq(v[i].0.as_str(), key) {
            return Some(i);
        }
        i += 1;
    }
    None
}

/// What a key maps to.
fn lookup(v: &Vec<(String, String)>, key: &str) -> (r: Option<String>)
    requires
        keys_distinct(v@),
    ensures
        opt_string_view(r) == (if pairs_map(v@).contains_key(key@) {
            Some(pairs_map(v@)[key@])
        } else {
            None::<Seq<char>>
        }),
{
    proof {
        lemma_pairs_map_keys(v@, key@);
    }
    match find_key(v, key) {
        Some(i) => {
            proof {
                lemma_pairs_map_at(v@, i as int);
            }
            Some(v[i].1.clone())
        },
        None => None,
    }
}

/// Sets what a key maps to, giving back what it mapped to before.
fn insert_pair(v: &mut Vec<(String, String)>, key: String, value: String) -> (old_value: Option<
    String,
>)
    requires
        keys_distinct(old(v)@),
    ensures
        keys_distinct(final(v)@),
        pairs_map(final(v)@) == pairs_map(old(v)@).insert(key@, value@),
        opt_string_view(old_value) == (if pairs_map(old(v)@).contains_key(key@) {
            Some(pairs_map(old(v)@)[key@])
        } else {
            None::<Seq<char>>
        }),
{
    proof {
        lemma_pairs_map_keys(v@, key@);
    }
    match find_key(v, key.as_str()) {
        Some(i) => {
            proof {
                lemma_pairs_map_at(v@, i as int);
                lemma_pairs_map_update(v@, i as int, (key, value));
            }
            let previous = v[i].1.clone();
            v.set(i, (key, value));
            Some(previous)
        },
        None => {
            proof {
                lemma_pairs_map_push(v@, (key, value));
            }
            v.push((key, value));
            None
        },
    }
}

/// Removes a key.
fn remove_key(v: &mut Vec<(String, String)>, key: &str)
    requires
        keys_distinct(old(v)@),
    ensures
        keys_distinct(final(v)@),
        pairs_map(final(v)@) == pairs_map(old(v)@).remove(key@),
{
    proof {
        lemma_pairs_map_keys(v@, key@);
    }
    match find_key(v, key) {
        Some(i) => {
            proof {
                lemma_pairs_map_remove(v@, i as int);
            }
            v.remove(i);
        },
        None => {
            assert(pairs_map(v@).remove(key@) =~= pairs_map(v@));
        },
    }
}

// ── the registry ────────────────────────────────────────────────────

/// Which username each user has, and which user holds each username key.
pub struct UsernameRegistry {
    by_user: Vec<(String, String)>,
    by_name: Vec<(String, String)>,
}

impl UsernameRegistry {
    /// Username of each user id.
    pub closed spec fn users(&self) -> Map<Seq<char>, Seq<char>> {
        pairs_map(self.by_user@)
    }

    /// User id holding each username key.
    pub closed spec fn names(&self) -> Map<Seq<char>, Seq<char>> {
        pairs_map(self.by_name@)
    }

    pub closed spec fn wf(&self) -> bool {
        keys_distinct(self.by_user@) && keys_distinct(self.by_name@)
    }

    pub fn new() -> (r: Self)
        ensures
            r.wf(),
            r.users() == Map::<Seq<char>, Seq<char>>::empty(),
            r.names() == Map::<Seq<char>, Seq<char>>::empty(),
    {
        UsernameRegistry { by_user: Vec::new(), by_name: Vec::new() }
    }

    /// The username of a user.
    pub fn current_username(&self, user_id: &str) -> (r: Option<String>)
        requires
            self.wf(),
        ensures
            opt_string_view(r) == (if self.users().contains_key(user_id@) {
                Some(self.users()[user_id@])
            } else {
                None::<Seq<char>>
            }),
    {
        lookup(&self.by_user, user_id)
    }

    /// The user holding a username key.
    pub fn name_owner(&self, key: &str) -> (r: Option<String>)
        requires
            self.wf(),
        ensures
            opt_string_view(r) == (if self.names().contains_key(key@) {
                Some(self.names()[key@])
            } else {
                None::<Seq<char>>
            }),
    {
        lookup(&self.by_name, key)
    }

    /// Records a display name chosen by a signed-in user. A name that
    /// normalizes to nothing changes nothing; otherwise the user gets the
    /// normalized name and holds its key, and the key of the user's former
    /// name is released when it differs.
    pub fn set_display_name(&mut self, user_id: &str, username: &str)
        requires
            old(self).wf(),
        ensures
            final(self).wf(),
            spec_normalize_display_name(username@) is None ==> final(self).users() == old(self).users() && final(self).names() == old(self).names(),
            spec_normalize_display_name(username@) matches Some(name) ==> final(self).users()
                == old(self).users().insert(user_id@, name) && final(self).names() == (if old(self).users().contains_key(user_id@) && lowercase_ascii(old(self).users()[user_id@])
                != lowercase_ascii(name) {
                old(self).names().remove(lowercase_ascii(old(self).users()[user_id@]))
            } else {
                old(self).names()
            }).insert(lowercase_ascii(name), user_id@),
    {
        let name = match normalize_display_name(Some(username.to_string())) {
            Some(n) => n,
            None => return,
        };
        let previous = insert_pair(&mut self.by_user, user_id.to_string(), name.clone());
        let key = username_key(name.as_str());
        if let Some(old_name) = previous {
            let old_key = username_key(old_name.as_str());
            if !str_eq(old_key.as_str(), key.as_str()) {
                remove_key(&mut self.by_name, old_key.as_str());
            }
        }
        insert_pair(&mut self.by_name, key, user_id.to_string());
    }

    /// Whether some salt gives a default username whose key nobody holds.
    pub open spec fn has_free_default(&self, user_id: Seq<char>) -> bool {
        exists|salt: u64|
            !self.names().contains_key(lowercase_ascii(#[trigger] default_username_candidate(user_id, salt)))
    }

    /// The default username for the least salt whose candidate's key
    /// nobody holds, or `None` when every salt's candidate is taken.
    pub fn find_default_username(&self, user_id: &str) -> (r: Option<String>)
        requires
            self.wf(),
        ensures
            r matches Some(u) ==> self.is_first_free_default(user_id@, u@),
            r is None <==> !self.has_free_default(user_id@),
    {
        let mut salt: u64 = 0;
        loop
            invariant
                self.wf(),
                forall|s: u64| s < salt ==> self.names().contains_key(
                    lowercase_ascii(#[trigger] default_username_candidate(user_id@, s)),
                ),
            decreases u64::MAX - salt,
        {
            let candidate = default_username_for_salt(user_id, salt);
            let key = username_key(candidate.as_str());
            let owner = lookup(&self.by_name, key.as_str());
            if owner.is_none() {
                return Some(candidate);
            }
            if salt == u64::MAX {
                assert(forall|s: u64| self.names().contains_key(
                    lowercase_ascii(#[trigger] default_username_candidate(user_id@, s)),
                ));
                return None;
            }
            salt = salt + 1;
        }
    }

    /// The requested profile username can be taken by `user_id`: it
    /// normalizes to a name whose key is free or already the user's.
    pub open spec fn requested_name_usable(&self, user_id: Seq<char>, username: Option<&str>) -> bool {
        &&& username is Some
        &&& spec_normalize_profile_username(username.unwrap()@) is Some
        &&& {
            let key = lowercase_ascii(spec_normalize_profile_username(username.unwrap()@).unwrap());
            !self.names().contains_key(key) || self.names()[key] == user_id
        }
    }

    /// Nobody but `user_id` holds the key of `name`.
    pub open spec fn name_free_for(&self, user_id: Seq<char>, name: Seq<char>) -> bool {
        !self.names().contains_key(lowercase_ascii(name)) || self.names()[lowercase_ascii(name)] == user_id
    }

    /// `name` is the default username of the least salt whose name's key
    /// nobody holds.
    pub open spec fn is_first_free_default(&self, user_id: Seq<char>, name: Seq<char>) -> bool {
        exists|salt: u64| #![trigger default_username_candidate(user_id, salt)]
            name == default_username_candidate(user_id, salt) && !self.names().contains_key(
                lowercase_ascii(name),
            ) && forall|s: u64| s < salt ==> self.names().contains_key(
                lowercase_ascii(#[trigger] default_username_candidate(user_id, s)),
            )
    }

    /// The username a user goes by: the one already recorded; else the
    /// requested profile username, when it normalizes to one whose key is
    /// free or already the user's; else the first free default name. The
    /// user then holds the name and its key.
    pub fn ensure_guest_username(&mut self, user_id: &str, username: Option<&str>) -> (r: String)
        requires
            old(self).wf(),
            old(self).has_free_default(user_id@),
        ensures
            final(self).wf(),
            old(self).users().contains_key(user_id@) ==> r@ == old(self).users()[user_id@] && *final(self)
                == *old(self),
            !old(self).users().contains_key(user_id@) ==> final(self).users() == old(self).users().insert(user_id@, r@) && final(self).names() == old(self).names().insert(
                lowercase_ascii(r@),
                user_id@,
            ),
            !old(self).users().contains_key(user_id@) && old(self).requested_name_usable(user_id@, username)
                ==> r@ == spec_normalize_profile_username(username.unwrap()@).unwrap(),
            !old(self).users().contains_key(user_id@) && !old(self).requested_name_usable(user_id@, username)
                ==> old(self).is_first_free_default(user_id@, r@),
            !old(self).users().contains_key(user_id@) ==> old(self).name_free_for(user_id@, r@),
            guest_assigned(*old(self), *final(self), user_id@, r@),
    {
        let existing = lookup(&self.by_user, user_id);
        if let Some(name) = existing {
            return name;
        }
        if let Some(name) = normalize_profile_username(username) {
            let key = username_key(name.as_str());
            let owner = lookup(&self.by_name, key.as_str());
            let taken = match owner {
                Some(o) => !str_eq(o.as_str(), user_id),
                None => false,
            };
            if !taken {
                insert_pair(&mut self.by_name, key, user_id.to_string());
                insert_pair(&mut self.by_user, user_id.to_string(), name.clone());
                return name;
            }
        }
        let name = default_profile_username(user_id, self);
        let key = username_key(name.as_str());
        insert_pair(&mut self.by_name, key, user_id.to_string());
        insert_pair(&mut self.by_user, user_id.to_string(), name.clone());
        name
    }

    /// `ensure_guest_username` where a default name can still be found;
    /// `None`, with the registry unchanged, when every default candidate is
    /// taken and none other is recorded or requested.
    pub fn try_ensure_guest_username(&mut self, user_id: &str, username: Option<&str>) -> (r: Option<
        String,
    >)
        requires
            old(self).wf(),
        ensures
            final(self).wf(),
            old(self).has_free_default(user_id@) ==> r is Some,
            r is None ==> *final(self) == *old(self) && !old(self).has_free_default(user_id@),
            r matches Some(u) ==> final(self).users().contains_key(user_id@) && final(self).users()[user_id@] == u@,
    {
        if self.find_default_username(user_id).is_none() {
            return None;
        }
        Some(self.ensure_guest_username(user_id, username))
    }
}

/// What assigning a guest username did: a user who has a name keeps it
/// and nothing changes; a new user gets `name`, whose key nobody else
/// held, and holds that key.
pub open spec fn guest_assigned(
    before: UsernameRegistry,
    after: UsernameRegistry,
    user_id: Seq<char>,
    name: Seq<char>,
) -> bool {
    &&& before.users().contains_key(user_id) ==> name == before.users()[user_id] && after == before
    &&& !before.users().contains_key(user_id) ==> {
        &&& after.users() == before.users().insert(user_id, name)
        &&& after.names() == before.names().insert(lowercase_ascii(name), user_id)
        &&& before.name_free_for(user_id, name)
    }
}

/// A guest username, once assigned, is stable and differs from other
/// users' names: `a` is assigned a name, then `b`, then `a` again; `a`
/// gets the same name both times, and `b` another one.
pub proof fn lemma_guest_usernames_stable_and_unique(
    r0: UsernameRegistry,
    r1: UsernameRegistry,
    r2: UsernameRegistry,
    r3: UsernameRegistry,
    a: Seq<char>,
    b: Seq<char>,
    first: Seq<char>,
    second: Seq<char>,
    again: Seq<char>,
)
    requires
        a != b,
        !r0.users().contains_key(a),
        !r0.users().contains_key(b),
        guest_assigned(r0, r1, a, first),
        guest_assigned(r1, r2, b, second),
        guest_assigned(r2, r3, a, again),
    ensures
        first != second,
        again == first,
{
    assert(r1.names().contains_key(lowercase_ascii(first)));
    assert(!r1.users().contains_key(b));
    lemma_handed_names_differ(r1, a, first, b, second);
    assert(r2.users().contains_key(a));
}

/// Guest names are unique: once `holder` holds the key of `held`, a name
/// handed to any other user afterwards (one whose key was free or the
/// user's own) differs from it.
pub proof fn lemma_handed_names_differ(
    registry: UsernameRegistry,
    holder: Seq<char>,
    held: Seq<char>,
    user_id: Seq<char>,
    handed: Seq<char>,
)
    requires
        registry.names().contains_key(lowercase_ascii(held)),
        registry.names()[lowercase_ascii(held)] == holder,
        holder != user_id,
        registry.name_free_for(user_id, handed),
    ensures
        handed != held,
{
}

/// The default username of a user: `User` and eight hexadecimal digits of
/// the hash of the user id and the least salt whose name's key nobody
/// holds.
pub fn default_profile_username(user_id: &str, registry: &UsernameRegistry) -> (r: String)
    requires
        registry.wf(),
        registry.has_free_default(user_id@),
    ensures
        registry.is_first_free_default(user_id@, r@),
{
    match registry.find_default_username(user_id) {
        Some(name) => name,
        None => {
            assert(false);
            String::new()
        },
    }
}

/// A reply to a profile request.
pub enum ProfileReply {
    /// The user's username, and whether one is set.
    Profile { username: Option<String>, username_set: bool },
    /// The request was refused.
    Error { message: String },
}

/// Answers a profile request: `GetProfile` with the user's username;
/// `SetUsername` is refused, since usernames are managed by Clerk; any
/// other message is not a profile request.
pub fn handle_profile_message(registry: &UsernameRegistry, user_id: &str, msg: &ClientMsg) -> (r: Vec<
    ProfileReply,
>)
    requires
        registry.wf(),
    ensures
        r@.len() == 1,
        msg is GetProfile ==> (r@[0] matches ProfileReply::Profile { username, username_set }
            && username_set == username is Some && opt_string_view(username) == (
        if registry.users().contains_key(user_id@) {
            Some(registry.users()[user_id@])
        } else {
            None::<Seq<char>>
        })),
        msg is SetUsername ==> (r@[0] matches ProfileReply::Error { message } && message@
            == "Username is managed by Clerk"@),
        !(msg is GetProfile || msg is SetUsername) ==> (r@[0] matches ProfileReply::Error { message }
            && message@ == "Unsupported profile message"@),
{
    let reply = match msg {
        ClientMsg::GetProfile => {
            let username = registry.current_username(user_id);
            let username_set = username.is_some();
            ProfileReply::Profile { username, username_set }
        },
        ClientMsg::SetUsername { .. } => ProfileReply::Error {
            message: "Username is managed by Clerk".to_string(),
        },
        _ => ProfileReply::Error { message: "Unsupported profile message".to_string() },
    };
    let mut out: Vec<ProfileReply> = Vec::new();
    out.push(reply);
    out
}

} // verus!
