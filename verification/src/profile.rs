//! Named settings profiles in a keyed store with one active selection. The
//! profiles are kept sorted by identifier, so the store behaves as a map
//! whose keys have the lexicographic order: removing the active profile
//! reassigns the selection to the lowest remaining key.

use vstd::prelude::*;

use crate::config::Settings;
use crate::text::{lemma_lex_lt_transitive, lemma_lex_lt_trichotomy, lex_lt, str_eq, str_lt};

verus! {

/// A named settings bundle.
#[derive(Clone, Debug, PartialEq, Eq)]
pub struct Profile {
    pub id: String,
    pub name: String,
    pub settings: Settings,
}

impl Profile {
    /// A profile with the given identifier, display name and settings.
    pub fn new(id: &str, name: &str, settings: Settings) -> (p: Profile)
        ensures
            p.id@ == id@,
            p.name@ == name@,
            p.settings == settings,
    {
        Profile { id: id.to_owned(), name: name.to_owned(), settings }
    }
}

/// The profile stored under `id`: the first entry with a matching
/// identifier, or none.
spec fn get_in(s: Seq<Profile>, id: Seq<char>) -> Option<Profile>
    decreases s.len(),
{
    if s.len() == 0 {
        None
    } else if s[0].id@ == id {
        Some(s[0])
    } else {
        get_in(s.drop_first(), id)
    }
}

/// Identifiers strictly increase along the sequence; in particular they are
/// all distinct.
pub open spec fn sorted_ids(s: Seq<Profile>) -> bool {
    forall|i: int, j: int|
        #![trigger s[i], s[j]]
        0 <= i < j < s.len() ==> lex_lt(s[i].id@, s[j].id@)
}

/// A keyed store of profiles with at most one active selection.
#[derive(Clone, Debug)]
pub struct ProfileStore {
    profiles: Vec<Profile>,
    active_id: Option<String>,
}

impl Default for ProfileStore {
    /// The empty store: no profiles, nothing active.
    fn default() -> (s: Self)
        ensures
            s.wf(),
            s.profiles_seq() == Seq::<Profile>::empty(),
            s.active_id_spec() is None,
    {
        ProfileStore { profiles: Vec::new(), active_id: None }
    }
}

impl ProfileStore {
    /// The stored profiles, in increasing identifier order.
    pub closed spec fn profiles_seq(&self) -> Seq<Profile> {
        self.profiles@
    }

    /// The identifier of the active profile, if one is selected.
    pub closed spec fn active_id_spec(&self) -> Option<Seq<char>> {
        match self.active_id {
            Some(a) => Some(a@),
            None => None,
        }
    }

    /// The profile stored under `id`, if any.
    pub closed spec fn spec_get(&self, id: Seq<char>) -> Option<Profile> {
        get_in(self.profiles@, id)
    }

    /// Whether some profile is stored under `id`.
    pub open spec fn contains_id(&self, id: Seq<char>) -> bool {
        self.spec_get(id) is Some
    }

    /// The store's invariant: profiles sorted by identifier, and the active
    /// selection, if any, names a stored profile.
    pub open spec fn wf(&self) -> bool {
        &&& sorted_ids(self.profiles_seq())
        &&& match self.active_id_spec() {
            Some(a) => self.contains_id(a),
            None => true,
        }
    }

    /// Insert `profile`, replacing any profile with the same identifier; the
    /// first profile ever inserted becomes active.
    pub fn upsert(&mut self, profile: Profile)
        requires
            old(self).wf(),
        ensures
            final(self).wf(),
            final(self).spec_get(profile.id@) == Some(profile),
            forall|d: Seq<char>| d != profile.id@ ==> final(self).spec_get(d) == old(
                self,
            ).spec_get(d),
            final(self).active_id_spec() == match old(self).active_id_spec() {
                None => Some(profile.id@),
                Some(a) => Some(a),
            },
    {
        let id = profile.id.clone();
        let ghost s = self.profiles@;
        let mut i: usize = 0;
        while i < self.profiles.len() && str_lt(self.profiles[i].id.as_str(), id.as_str())
            invariant
                i <= s.len(),
                *self == *old(self),
                s == self.profiles@,
                id == profile.id,
                forall|j: int| #![trigger s[j]] 0 <= j < i ==> lex_lt(s[j].id@, profile.id@),
            decreases s.len() - i,
        {
            i = i + 1;
        }

        if i < self.profiles.len() && str_eq(self.profiles[i].id.as_str(), id.as_str()) {
            proof {
                lemma_get_first_match(s, profile.id@, i as int);
                lemma_get_update(s, i as int, profile);
                let t = s.update(i as int, profile);
                assert forall|x: int, y: int|
                    #![trigger t[x], t[y]]
                    0 <= x < y < t.len() implies lex_lt(t[x].id@, t[y].id@) by {
                    assert(s[x].id@ == t[x].id@);
                    assert(s[y].id@ == t[y].id@);
                }
            }
            self.profiles[i] = profile;
        } else {
            proof {
                assert forall|j: int| #![trigger s[j]] 0 <= j < s.len() implies s[j].id@
                    != profile.id@ by {
                    lemma_lex_lt_trichotomy(s[j].id@, profile.id@);
                    if j > i {
                        lemma_lex_lt_trichotomy(profile.id@, s[i as int].id@);
                        lemma_lex_lt_transitive(profile.id@, s[i as int].id@, s[j].id@);
                    } else if j == i {
                        lemma_lex_lt_trichotomy(profile.id@, s[i as int].id@);
                    }
                }
                lemma_get_insert(s, i as int, profile);
                s.insert_ensures(i as int, profile);
                let t = s.insert(i as int, profile);
                assert forall|x: int, y: int|
                    #![trigger t[x], t[y]]
                    0 <= x < y < t.len() implies lex_lt(t[x].id@, t[y].id@) by {
                    if y < i {
                        assert(t[x] == s[x] && t[y] == s[y]);
                    } else if y == i {
                        assert(t[x] == s[x] && t[y] == profile);
                    } else if x < i {
                        assert(t[x] == s[x] && t[y] == s[y - 1]);
                        if x < i && i <= y - 1 {
                            lemma_lex_lt_trichotomy(profile.id@, s[i as int].id@);
                            if i <= y - 1 && i < y - 1 {
                                lemma_lex_lt_transitive(
                                    profile.id@,
                                    s[i as int].id@,
                                    s[y - 1].id@,
                                );
                            }
                        }
                    } else if x == i {
                        assert(t[x] == profile && t[y] == s[y - 1]);
                        lemma_lex_lt_trichotomy(profile.id@, s[i as int].id@);
                        if i < y - 1 {
                            lemma_lex_lt_transitive(profile.id@, s[i as int].id@, s[y - 1].id@);
                        }
                    } else {
                        assert(t[x] == s[x - 1] && t[y] == s[y - 1]);
                    }
                }
            }
            self.profiles.insert(i, profile);
        }

        if self.active_id.is_none() {
            self.active_id = Some(id);
        }
    }

    /// Delete the profile stored under `id` and return it. If it was the
    /// active profile, the profile with the lowest remaining identifier
    /// becomes active, or none when the store is left empty.
    pub fn remove(&mut self, id: &str) -> (removed: Option<Profile>)
        requires
            old(self).wf(),
        ensures
            final(self).wf(),
            removed == old(self).spec_get(id@),
            final(self).spec_get(id@) is None,
            forall|d: Seq<char>| d != id@ ==> final(self).spec_get(d) == old(self).spec_get(d),
            old(self).active_id_spec() == Some(id@) ==> match final(self).active_id_spec() {
                None => final(self).profiles_seq().len() == 0,
                Some(a) => final(self).contains_id(a) && forall|d: Seq<char>|
                    final(self).contains_id(d) ==> d == a || lex_lt(a, d),
            },
            old(self).active_id_spec() != Some(id@) ==> final(self).active_id_spec() == old(
                self,
            ).active_id_spec(),
    {
        let ghost s = self.profiles@;
        let removed = match self.find(id) {
            Some(i) => {
                proof {
                    lemma_get_first_match(s, id@, i as int);
                    assert forall|j: int| #![trigger s[j]]
                        0 <= j < s.len() && j != i implies s[j].id@ != s[i as int].id@ by {
                        if j < i {
                            lemma_lex_lt_trichotomy(s[j].id@, s[i as int].id@);
                        } else {
                            lemma_lex_lt_trichotomy(s[i as int].id@, s[j].id@);
                        }
                    }
                    lemma_get_remove(s, i as int);
                    s.remove_ensures(i as int);
                    let t = s.remove(i as int);
                    assert forall|x: int, y: int|
                        #![trigger t[x], t[y]]
                        0 <= x < y < t.len() implies lex_lt(t[x].id@, t[y].id@) by {
                        if x < i && y < i {
                            assert(t[x] == s[x] && t[y] == s[y]);
                        } else if x < i {
                            assert(t[x] == s[x] && t[y] == s[y + 1]);
                        } else {
                            assert(t[x] == s[x + 1] && t[y] == s[y + 1]);
                        }
                    }
                }
                Some(self.profiles.remove(i))
            },
            None => {
                proof {
                    lemma_get_absent(s, id@);
                }
                None
            },
        };

        let was_active = match &self.active_id {
            Some(a) => str_eq(a.as_str(), id),
            None => false,
        };
        if was_active {
            if self.profiles.len() > 0 {
                self.active_id = Some(self.profiles[0].id.clone());
                proof {
                    let t = self.profiles@;
                    lemma_get_first_match(t, t[0].id@, 0);
                    assert forall|d: Seq<char>| self.contains_id(d) implies d == t[0].id@
                        || lex_lt(t[0].id@, d) by {
                        lemma_get_found(t, d);
                        let k = choose|k: int| 0 <= k < t.len() && t[k].id@ == d;
                        if k > 0 {
                            assert(lex_lt(t[0].id@, t[k].id@));
                        }
                    }
                }
            } else {
                self.active_id = None;
            }
        }
        removed
    }

    /// Make the profile stored under `id` active; without such a profile the
    /// call fails and nothing changes.
    pub fn activate(&mut self, id: &str) -> (r: bool)
        requires
            old(self).wf(),
        ensures
            final(self).wf(),
            r == old(self).contains_id(id@),
            final(self).profiles_seq() == old(self).profiles_seq(),
            forall|d: Seq<char>| final(self).spec_get(d) == old(self).spec_get(d),
            r ==> final(self).active_id_spec() == Some(id@),
            !r ==> final(self).active_id_spec() == old(self).active_id_spec(),
    {
        match self.find(id) {
            Some(i) => {
                proof {
                    lemma_get_first_match(self.profiles@, id@, i as int);
                }
                self.active_id = Some(id.to_owned());
                true
            },
            None => {
                proof {
                    lemma_get_absent(self.profiles@, id@);
                }
                false
            },
        }
    }

    /// The active profile, if one is selected.
    pub fn active(&self) -> (r: Option<&Profile>)
        requires
            self.wf(),
        ensures
            match r {
                Some(p) => self.active_id_spec() == Some(p.id@) && self.spec_get(p.id@) == Some(
                    *p,
                ),
                None => self.active_id_spec() is None,
            },
    {
        match &self.active_id {
            Some(aid) => match self.find_str(aid) {
                Some(i) => {
                    proof {
                        lemma_get_first_match(self.profiles@, aid@, i as int);
                    }
                    Some(&self.profiles[i])
                },
                None => {
                    proof {
                        lemma_get_absent(self.profiles@, aid@);
                        assert(false);
                    }
                    None
                },
            },
            None => None,
        }
    }

    /// All stored profiles, in increasing identifier order.
    pub fn list(&self) -> (r: Vec<&Profile>)
        ensures
            r@.len() == self.profiles_seq().len(),
            forall|i: int| 0 <= i < r@.len() ==> *r@[i] == self.profiles_seq()[i],
    {
        let mut out: Vec<&Profile> = Vec::new();
        let mut i: usize = 0;
        while i < self.profiles.len()
            invariant
                i <= self.profiles@.len(),
                out@.len() == i,
                forall|j: int| 0 <= j < i ==> *out@[j] == self.profiles@[j],
            decreases self.profiles@.len() - i,
        {
            out.push(&self.profiles[i]);
            i = i + 1;
        }
        out
    }

    /// The index of the profile stored under `id`, if any.
    fn find(&self, id: &str) -> (r: Option<usize>)
        ensures
            match r {
                Some(i) => i < self.profiles@.len() && self.profiles@[i as int].id@ == id@
                    && forall|j: int| #![trigger self.profiles@[j]]
                    0 <= j < i ==> self.profiles@[j].id@ != id@,
                None => forall|j: int| #![trigger self.profiles@[j]]
                    0 <= j < self.profiles@.len() ==> self.profiles@[j].id@ != id@,
            },
    {
        let mut i: usize = 0;
        while i < self.profiles.len()
            invariant
                i <= self.profiles@.len(),
                forall|j: int| #![trigger self.profiles@[j]]
                    0 <= j < i ==> self.profiles@[j].id@ != id@,
            decreases self.profiles@.len() - i,
        {
            if str_eq(self.profiles[i].id.as_str(), id) {
                return Some(i);
            }
            i = i + 1;
        }
        None
    }

    /// As `find`, for a `String` identifier.
    fn find_str(&self, id: &String) -> (r: Option<usize>)
        ensures
            match r {
                Some(i) => i < self.profiles@.len() && self.profiles@[i as int].id@ == id@
                    && forall|j: int| #![trigger self.profiles@[j]]
                    0 <= j < i ==> self.profiles@[j].id@ != id@,
                None => forall|j: int| #![trigger self.profiles@[j]]
                    0 <= j < self.profiles@.len() ==> self.profiles@[j].id@ != id@,
            },
    {
        self.find(id.as_str())
    }
}

/// `get_in` finds something under `id` exactly when an entry with that
/// identifier exists, and what it finds carries that identifier.
proof fn lemma_get_found(s: Seq<Profile>, id: Seq<char>)
    ensures
        (get_in(s, id) is Some) <==> exists|i: int| 0 <= i < s.len() && s[i].id@ == id,
        get_in(s, id) matches Some(p) ==> p.id@ == id,
    decreases s.len(),
{
    if s.len() > 0 {
        lemma_get_found(s.drop_first(), id);
        if s[0].id@ != id {
            if exists|i: int| 0 <= i < s.len() && s[i].id@ == id {
                let i = choose|i: int| 0 <= i < s.len() && s[i].id@ == id;
                assert(s.drop_first()[i - 1] == s[i]);
            }
            if exists|i: int| 0 <= i < s.drop_first().len() && s.drop_first()[i].id@ == id {
                let i = choose|i: int|
                    0 <= i < s.drop_first().len() && s.drop_first()[i].id@ == id;
                assert(s[i + 1] == s.drop_first()[i]);
            }
        }
    }
}

/// The first entry with a matching identifier is what `get_in` returns.
proof fn lemma_get_first_match(s: Seq<Profile>, id: Seq<char>, i: int)
    requires
        0 <= i < s.len(),
        s[i].id@ == id,
        forall|j: int| #![trigger s[j]] 0 <= j < i ==> s[j].id@ != id,
    ensures
        get_in(s, id) == Some(s[i]),
    decreases i,
{
    if i > 0 {
        lemma_get_first_match(s.drop_first(), id, i - 1);
    }
}

/// With no matching entry, `get_in` finds nothing.
proof fn lemma_get_absent(s: Seq<Profile>, id: Seq<char>)
    requires
        forall|j: int| #![trigger s[j]] 0 <= j < s.len() ==> s[j].id@ != id,
    ensures
        get_in(s, id) is None,
    decreases s.len(),
{
    if s.len() > 0 {
        lemma_get_absent(s.drop_first(), id);
    }
}

/// Replacing the first entry of an identifier rewrites what is stored under
/// it and nothing else.
proof fn lemma_get_update(s: Seq<Profile>, i: int, p: Profile)
    requires
        0 <= i < s.len(),
        s[i].id@ == p.id@,
        forall|j: int| #![trigger s[j]] 0 <= j < i ==> s[j].id@ != p.id@,
    ensures
        get_in(s.update(i, p), p.id@) == Some(p),
        forall|d: Seq<char>| d != p.id@ ==> get_in(s.update(i, p), d) == get_in(s, d),
    decreases i,
{
    let t = s.update(i, p);
    if i == 0 {
        assert(t.drop_first() =~= s.drop_first());
    } else {
        lemma_get_update(s.drop_first(), i - 1, p);
        assert(t.drop_first() =~= s.drop_first().update(i - 1, p));
    }
    assert forall|d: Seq<char>| d != p.id@ implies get_in(t, d) == get_in(s, d) by {
        if s[0].id@ != d {
            assert(get_in(t, d) == get_in(t.drop_first(), d));
            assert(get_in(s, d) == get_in(s.drop_first(), d));
        }
    }
}

/// Inserting an entry under a fresh identifier stores it there and changes
/// nothing else, wherever it lands.
proof fn lemma_get_insert(s: Seq<Profile>, i: int, p: Profile)
    requires
        0 <= i <= s.len(),
        forall|j: int| #![trigger s[j]] 0 <= j < s.len() ==> s[j].id@ != p.id@,
    ensures
        get_in(s.insert(i, p), p.id@) == Some(p),
        forall|d: Seq<char>| d != p.id@ ==> get_in(s.insert(i, p), d) == get_in(s, d),
    decreases i,
{
    let t = s.insert(i, p);
    s.insert_ensures(i, p);
    if i == 0 {
        assert(t.drop_first() =~= s);
    } else {
        lemma_get_insert(s.drop_first(), i - 1, p);
        assert(t.drop_first() =~= s.drop_first().insert(i - 1, p));
    }
    assert forall|d: Seq<char>| d != p.id@ implies get_in(t, d) == get_in(s, d) by {
        if i == 0 {
            assert(get_in(t, d) == get_in(t.drop_first(), d));
        } else if s[0].id@ != d {
            assert(get_in(t, d) == get_in(t.drop_first(), d));
            assert(get_in(s, d) == get_in(s.drop_first(), d));
        }
    }
}

/// Removing the only entry of an identifier leaves nothing under it and
/// changes nothing else.
proof fn lemma_get_remove(s: Seq<Profile>, i: int)
    requires
        0 <= i < s.len(),
        forall|j: int| #![trigger s[j]] 0 <= j < s.len() && j != i ==> s[j].id@ != s[i].id@,
    ensures
        get_in(s.remove(i), s[i].id@) is None,
        forall|d: Seq<char>| d != s[i].id@ ==> get_in(s.remove(i), d) == get_in(s, d),
    decreases i,
{
    let t = s.remove(i);
    s.remove_ensures(i);
    if i == 0 {
        assert(t =~= s.drop_first());
        assert forall|j: int| #![trigger t[j]] 0 <= j < t.len() implies t[j].id@ != s[0].id@ by {
            assert(t[j] == s[j + 1]);
        }
        lemma_get_absent(t, s[0].id@);
    } else {
        lemma_get_remove(s.drop_first(), i - 1);
        assert(s.drop_first()[i - 1] == s[i]);
        assert(t.drop_first() =~= s.drop_first().remove(i - 1));
    }
    assert forall|d: Seq<char>| d != s[i].id@ implies get_in(t, d) == get_in(s, d) by {
        if i > 0 && s[0].id@ != d {
            assert(get_in(t, d) == get_in(t.drop_first(), d));
            assert(get_in(s, d) == get_in(s.drop_first(), d));
        } else if i == 0 && s[0].id@ != d {
            assert(get_in(s, d) == get_in(s.drop_first(), d));
        }
    }
}

} // verus!
