//! Saved profiles plus the operations the chooser and the command line
//! perform on them.

use vstd::prelude::*;
use crate::herdr::{
    contains_string, default_session_entry, is_default_session, session_dir_of, Counts, Herdr,
    Session,
};
use crate::launcher::{Launcher, Platform};
use crate::settings::{
    attach_key_of, env_view, label_of, name_error, opt_view, profile_index, ref_name, saved_env, ref_of, same_ref, valid_name, NameError, Profile,
    ProfileName, ProfileRef, Settings,
};
use crate::text::{owned, path_join, path_join_exec, str_eq, str_views};

verus! {

/// One line of the chooser: a profile and what Herdr currently knows about it.
#[derive(Debug)]
pub struct ProfileRow {
    pub id: ProfileRef,
    pub name: String,
    pub label: String,
    pub running: bool,
    pub attached: bool,
    pub session_dir: String,
    pub socket_path: String,
    pub current: bool,
    pub protected: bool,
    pub spaces: usize,
    pub blocked: usize,
    /// `target` or `target/session` of a remote profile.
    pub remote: Option<String>,
}

/// The state a row shows.
pub open spec fn state_of(attached: bool, running: bool, remote: bool) -> Seq<char> {
    if attached {
        "open"@
    } else if remote {
        "remote"@
    } else if running {
        "running"@
    } else {
        "stopped"@
    }
}

/// The counts a row shows: none without counts or for a remote profile;
/// else the live counts of a running session, falling back to the saved
/// number of spaces.
pub open spec fn counts_of(with_counts: bool, remote: bool, running: bool, live: Option<Counts>, saved: usize) -> Counts {
    if !with_counts || remote {
        Counts { spaces: 0, blocked: 0 }
    } else {
        match live {
            Some(c) if running => c,
            _ => Counts { spaces: saved, blocked: 0 },
        }
    }
}

impl ProfileRow {
    pub fn name(&self) -> (s: &str)
        ensures
            s@ == self.name@,
    {
        self.name.as_str()
    }

    pub fn state(&self) -> (s: &'static str)
        ensures
            s@ == state_of(self.attached, self.running, self.remote is Some),
    {
        if self.attached {
            "open"
        } else if self.remote.is_some() {
            "remote"
        } else if self.running {
            "running"
        } else {
            "stopped"
        }
    }

    /// Whether the row's counts come from its live session.
    pub fn needs_live_counts(&self, with_counts: bool) -> (b: bool)
        ensures
            b == (with_counts && self.remote is None && self.running),
    {
        with_counts && self.remote.is_none() && self.running
    }

    /// Whether the row's counts come from its saved session.
    pub fn needs_saved_count(&self, with_counts: bool, live_found: bool) -> (b: bool)
        ensures
            b == (with_counts && self.remote is None && !(self.running && live_found)),
    {
        with_counts && self.remote.is_none() && !(self.running && live_found)
    }

    /// Sets the counts from what was read: the live counts of its socket and
    /// the number of spaces saved in its session directory.
    pub fn fill_counts(&mut self, with_counts: bool, live: Option<Counts>, saved: usize)
        ensures
            ({
                let c = counts_of(with_counts, old(self).remote is Some, old(self).running, live, saved);
                &&& final(self).spaces == c.spaces
                &&& final(self).blocked == c.blocked
            }),
            final(self).id == old(self).id,
            final(self).name == old(self).name,
            final(self).label == old(self).label,
            final(self).running == old(self).running,
            final(self).attached == old(self).attached,
            final(self).session_dir == old(self).session_dir,
            final(self).socket_path == old(self).socket_path,
            final(self).current == old(self).current,
            final(self).protected == old(self).protected,
            final(self).remote == old(self).remote,
    {
        let c = if !with_counts || self.remote.is_some() {
            Counts { spaces: 0, blocked: 0 }
        } else {
            match live {
                Some(c) if self.running => c,
                _ => Counts { spaces: saved, blocked: 0 },
            }
        };
        self.spaces = c.spaces;
        self.blocked = c.blocked;
    }
}

/// Why an operation on profiles was refused.
#[derive(Debug, PartialEq, Eq)]
pub enum StoreError {
    Name(NameError),
    Exists(String),
    DefaultUndeletable,
    Running(String),
    DefaultIsHerdr,
    RemoteHost(String),
    ThisWindow(String),
    OpenElsewhere(String),
    NoTerminal(String),
}

/// The text shown for a refused operation.
pub open spec fn store_error_text(e: StoreError) -> Seq<char> {
    match e {
        StoreError::Name(n) => match n {
            NameError::Empty => "profile name cannot be empty"@,
            NameError::Dots => "profile name cannot be . or .."@,
            NameError::Reserved => "'default' is the launcher session, pick another name"@,
            NameError::BadCharacters => "use only ASCII letters, numbers, '.', '_' and '-' (max 64)"@,
        },
        StoreError::Exists(n) => "profile '"@ + n@ + "' already exists"@,
        StoreError::DefaultUndeletable => "the default profile cannot be deleted"@,
        StoreError::Running(n) => "profile '"@ + n@ + "' is running; stop it first"@,
        StoreError::DefaultIsHerdr => "the default profile is Herdr itself; use `herdr server stop`"@,
        StoreError::RemoteHost(t) => "'"@ + t@ + "' is a remote host; stop the session there"@,
        StoreError::ThisWindow(n) => "'"@ + n@ + "' is this window"@,
        StoreError::OpenElsewhere(n) => "'"@ + n@ + "' is already open in another window"@,
        StoreError::NoTerminal(p) => "no terminal emulator found; set \"terminal\" in "@ + p@,
    }
}

fn wrap(a: &str, b: &str, c: &str) -> (r: String)
    ensures
        r@ == a@ + b@ + c@,
{
    let mut r = owned(a);
    r.append(b);
    r.append(c);
    r
}

impl StoreError {
    /// The message shown to the user.
    pub fn message(&self) -> (m: String)
        ensures
            m@ == store_error_text(*self),
    {
        match self {
            StoreError::Name(n) => {
                let m = n.message();
                assert(m@ == store_error_text(*self));
                m
            },
            StoreError::Exists(n) => wrap("profile '", n.as_str(), "' already exists"),
            StoreError::DefaultUndeletable => owned("the default profile cannot be deleted"),
            StoreError::Running(n) => wrap("profile '", n.as_str(), "' is running; stop it first"),
            StoreError::DefaultIsHerdr => owned("the default profile is Herdr itself; use `herdr server stop`"),
            StoreError::RemoteHost(t) => wrap("'", t.as_str(), "' is a remote host; stop the session there"),
            StoreError::ThisWindow(n) => wrap("'", n.as_str(), "' is this window"),
            StoreError::OpenElsewhere(n) => wrap("'", n.as_str(), "' is already open in another window"),
            StoreError::NoTerminal(p) => {
                let mut m = owned("no terminal emulator found; set \"terminal\" in ");
                m.append(p.as_str());
                m
            },
        }
    }
}

/// Saved profiles, where they are saved, the Herdr they belong to, and the
/// profile this process runs in.
#[derive(Debug)]
pub struct ProfileStore {
    pub herdr: Herdr,
    pub settings: Settings,
    pub path: String,
    pub current: ProfileRef,
}

/// `s` is the session Herdr reports for `id`.
pub open spec fn session_matches(s: Session, id: ProfileRef) -> bool {
    match id {
        ProfileRef::Default => default_session_entry(s),
        ProfileRef::Named(n) => s.name@ == n@,
        ProfileRef::Remote { .. } => false,
    }
}

/// Index of the first session at or after `k` that Herdr reports for `id`.
pub open spec fn session_index_from(sessions: Seq<Session>, id: ProfileRef, k: int) -> Option<int>
    decreases sessions.len() - k,
{
    if k < 0 || k >= sessions.len() {
        None
    } else if session_matches(sessions[k], id) {
        Some(k)
    } else {
        session_index_from(sessions, id, k + 1)
    }
}

/// Index of the first session Herdr reports for `id`.
pub open spec fn session_index(sessions: Seq<Session>, id: ProfileRef) -> Option<int> {
    session_index_from(sessions, id, 0)
}

/// The label a row shows for `id`.
pub open spec fn row_label(settings: Settings, id: ProfileRef) -> Seq<char> {
    match id {
        ProfileRef::Default => ref_name(id),
        _ => match profile_index(settings.profiles@, ref_name(id)) {
            Some(i) => label_of(settings.profiles@[i]),
            None => ref_name(id),
        },
    }
}

/// `target` or `target/session` of a remote profile.
pub open spec fn remote_text(id: ProfileRef) -> Option<Seq<char>> {
    match id {
        ProfileRef::Remote { target, session, .. } => Some(match session {
            Some(s) => target@ + "/"@ + s@,
            None => target@,
        }),
        _ => None,
    }
}

/// The session directory a row shows: the one Herdr reports, else Herdr's layout.
pub open spec fn row_session_dir(store: ProfileStore, sessions: Seq<Session>, id: ProfileRef) -> Seq<char> {
    match session_index(sessions, id) {
        Some(i) if sessions[i].session_dir is Some => sessions[i].session_dir.unwrap()@,
        _ => session_dir_of(store.herdr.config_dir_view(), id),
    }
}

/// The socket a row shows: the one Herdr reports, else `herdr.sock` in its directory.
pub open spec fn row_socket(store: ProfileStore, sessions: Seq<Session>, id: ProfileRef) -> Seq<char> {
    match session_index(sessions, id) {
        Some(i) if sessions[i].socket_path is Some => sessions[i].socket_path.unwrap()@,
        _ => path_join(row_session_dir(store, sessions, id), "herdr.sock"@),
    }
}

/// The row of `id` before its counts are read.
pub open spec fn row_matches(
    store: ProfileStore,
    sessions: Seq<Session>,
    attached: Seq<Seq<char>>,
    id: ProfileRef,
    row: ProfileRow,
) -> bool {
    &&& row.id == id
    &&& row.name@ == ref_name(id)
    &&& row.label@ == row_label(store.settings, id)
    &&& row.running == match session_index(sessions, id) {
        Some(i) => sessions[i].running,
        None => false,
    }
    &&& row.attached == attached.contains(attach_key_of(id))
    &&& row.session_dir@ == row_session_dir(store, sessions, id)
    &&& row.socket_path@ == row_socket(store, sessions, id)
    &&& row.current == same_ref(id, store.current)
    &&& row.protected == (id is Default)
    &&& row.spaces == 0
    &&& row.blocked == 0
    &&& opt_view(row.remote) == remote_text(id)
}

impl ProfileStore {
    /// A store over settings read from `path`, for the profile this process runs in.
    pub fn load(herdr: Herdr, path: String, settings: Settings, current: ProfileRef) -> (s: ProfileStore)
        ensures
            s.herdr == herdr,
            s.path == path,
            s.settings == settings,
            s.current == current,
    {
        ProfileStore { herdr, settings, path, current }
    }

    pub fn settings(&self) -> (s: &Settings)
        ensures
            *s == self.settings,
    {
        &self.settings
    }

    fn find_session(sessions: &Vec<Session>, id: &ProfileRef) -> (r: Option<usize>)
        ensures
            match r {
                Some(i) => session_index(sessions@, *id) == Some(i as int) && i < sessions@.len(),
                None => session_index(sessions@, *id) is None,
            },
    {
        let mut i: usize = 0;
        while i < sessions.len()
            invariant
                i <= sessions@.len(),
                session_index(sessions@, *id) == session_index_from(sessions@, *id, i as int),
            decreases sessions@.len() - i,
        {
            let s = &sessions[i];
            let m = match id {
                ProfileRef::Default => is_default_session(s),
                ProfileRef::Named(n) => str_eq(s.name.as_str(), n.as_str()),
                ProfileRef::Remote { .. } => false,
            };
            if m {
                return Some(i);
            }
            i = i + 1;
        }
        None
    }

    fn label_for(&self, id: &ProfileRef) -> (l: String)
        ensures
            l@ == row_label(self.settings, *id),
    {
        match id {
            ProfileRef::Default => owned(id.name()),
            ProfileRef::Named(name) | ProfileRef::Remote { name, .. } => match self.settings.profile(name) {
                Some(p) => owned(p.label()),
                None => name.to_string(),
            },
        }
    }

    /// The row of `id`, before its counts are read.
    pub fn row(&self, id: ProfileRef, sessions: &Vec<Session>, attached: &Vec<String>) -> (row: ProfileRow)
        ensures
            row_matches(*self, sessions@, str_views(attached@), id, row),
    {
        let found = Self::find_session(sessions, &id);
        let session_dir = match found {
            Some(i) => match &sessions[i].session_dir {
                Some(d) => d.clone(),
                None => self.herdr.session_dir(&id),
            },
            None => self.herdr.session_dir(&id),
        };
        let socket_path = match found {
            Some(i) => match &sessions[i].socket_path {
                Some(p) => p.clone(),
                None => path_join_exec(session_dir.as_str(), "herdr.sock"),
            },
            None => path_join_exec(session_dir.as_str(), "herdr.sock"),
        };
        let running = match found {
            Some(i) => sessions[i].running,
            None => false,
        };
        let key = id.attach_key();
        let is_attached = contains_string(attached, key.as_str());
        let label = self.label_for(&id);
        let remote = match &id {
            ProfileRef::Remote { target, session, .. } => Some(match session {
                Some(s) => {
                    let mut t = target.clone();
                    t.append("/");
                    t.append(s.as_str());
                    t
                },
                None => target.clone(),
            }),
            _ => None,
        };
        let current = id.same_as(&self.current);
        let protected = id.is_default();
        let name = owned(id.name());
        ProfileRow {
            id,
            name,
            label,
            running,
            attached: is_attached,
            session_dir,
            socket_path,
            current,
            protected,
            spaces: 0,
            blocked: 0,
            remote,
        }
    }
}

} // verus!

verus! {

/// The names held by a sequence of profile names.
pub open spec fn names_of(v: Seq<ProfileName>) -> Seq<Seq<char>> {
    v.map_values(|n: ProfileName| n@)
}

/// Names in ascending order.
pub open spec fn sorted_names(s: Seq<Seq<char>>) -> bool {
    forall|i: int, j: int| 0 <= i < j < s.len() ==> crate::text::lex_le(s[i], s[j])
}

/// Sorts profile names in ascending order.
pub fn sort_names(v: Vec<ProfileName>) -> (r: Vec<ProfileName>)
    ensures
        sorted_names(names_of(r@)),
        names_of(r@).to_multiset() == names_of(v@).to_multiset(),
{
    let mut out: Vec<ProfileName> = Vec::new();
    let mut i: usize = 0;
    proof {
        assert(names_of(out@) =~= names_of(v@).take(0));
    }
    while i < v.len()
        invariant
            i <= v@.len(),
            sorted_names(names_of(out@)),
            names_of(out@).to_multiset() == names_of(v@).take(i as int).to_multiset(),
        decreases v@.len() - i,
    {
        let x = v[i].clone();
        let xs = crate::text::chars_of(x.as_str());
        let mut p: usize = 0;
        while p < out.len() && crate::text::lex_le_exec(crate::text::chars_of(out[p].as_str()).as_slice(), xs.as_slice())
            invariant
                xs@ == x@,
                p <= out@.len(),
                forall|j: int| 0 <= j < p ==> crate::text::lex_le(out@[j]@, x@),
            decreases out@.len() - p,
        {
            p = p + 1;
        }
        let ghost before = names_of(out@);
        proof {
            if p < out@.len() {
                crate::text::lemma_lex_total(out@[p as int]@, x@);
            }
        }
        out.insert(p, x);
        assert(names_of(out@) =~= before.insert(p as int, x@));
        assert(sorted_names(names_of(out@))) by {
            assert forall|a: int, b: int| 0 <= a < b < names_of(out@).len() implies
                crate::text::lex_le(names_of(out@)[a], names_of(out@)[b]) by {
                let n = names_of(out@);
                if b < p {
                    assert(n[a] == before[a] && n[b] == before[b]);
                } else if a > p {
                    assert(n[a] == before[a - 1] && n[b] == before[b - 1]);
                } else if a == p {
                    assert(n[b] == before[b - 1]);
                    assert(crate::text::lex_le(x@, before[p as int]));
                    if b - 1 > p {
                        crate::text::lemma_lex_trans(x@, before[p as int], before[b - 1]);
                    }
                } else if b == p {
                    assert(n[a] == before[a]);
                    assert(crate::text::lex_le(out@[a]@, x@));
                } else {
                    assert(n[a] == before[a] && n[b] == before[b - 1]);
                }
            }
        }
        proof {
            vstd::seq_lib::to_multiset_insert(before, p as int, x@);
            assert(names_of(v@).take(i + 1) =~= names_of(v@).take(i as int).push(v@[i as int]@));
            vstd::seq_lib::to_multiset_build(names_of(v@).take(i as int), v@[i as int]@);
        }
        i = i + 1;
    }
    assert(names_of(v@).take(v@.len() as int) =~= names_of(v@));
    out
}

/// A session Herdr reports that becomes a row of its own: not the default
/// session, named like a profile, and not saved.
pub open spec fn adoptable(settings: Settings, s: Session) -> bool {
    !default_session_entry(s) && valid_name(s.name@) && profile_index(settings.profiles@, s.name@) is None
}

/// The names of the sessions that become rows of their own, in report order.
pub open spec fn adopted_names(settings: Settings, sessions: Seq<Session>) -> Seq<Seq<char>>
    decreases sessions.len(),
{
    if sessions.len() == 0 {
        seq![]
    } else {
        let rest = adopted_names(settings, sessions.drop_last());
        if adoptable(settings, sessions.last()) {
            rest.push(sessions.last().name@)
        } else {
            rest
        }
    }
}

impl ProfileStore {
    fn adopted(&self, sessions: &Vec<Session>) -> (v: Vec<ProfileName>)
        ensures
            names_of(v@) == adopted_names(self.settings, sessions@),
    {
        let mut v: Vec<ProfileName> = Vec::new();
        let mut i: usize = 0;
        while i < sessions.len()
            invariant
                i <= sessions@.len(),
                names_of(v@) == adopted_names(self.settings, sessions@.take(i as int)),
            decreases sessions@.len() - i,
        {
            assert(sessions@.take(i + 1).drop_last() =~= sessions@.take(i as int));
            let s = &sessions[i];
            if !is_default_session(s) {
                match ProfileName::parse(s.name.as_str()) {
                    Ok(n) => {
                        if self.settings.profile(&n).is_none() {
                            let ghost before = names_of(v@);
                            v.push(n);
                            assert(names_of(v@) =~= before.push(s.name@));
                        }
                    },
                    Err(_) => {},
                }
            }
            i = i + 1;
        }
        assert(sessions@.take(sessions@.len() as int) =~= sessions@);
        v
    }

    /// Every row of the chooser, before counts: Herdr's default session,
    /// the saved profiles in their order, then the sessions Herdr reports
    /// that are not saved, by name.
    pub fn rows_with(&self, sessions: &Vec<Session>, attached: &Vec<String>) -> (rows: Vec<ProfileRow>)
        ensures
            ({
                let p = self.settings.profiles@.len() as int;
                let adopted = adopted_names(self.settings, sessions@);
                &&& rows@.len() == 1 + p + adopted.len()
                &&& rows@[0].id is Default
                &&& forall|i: int| 0 <= i < p ==> #[trigger] rows@[1 + i].id == ref_of(self.settings.profiles@[i])
                &&& forall|i: int| 1 + p <= i < rows@.len() ==> #[trigger] rows@[i].id is Named
                &&& sorted_names(rows@.subrange(1 + p, rows@.len() as int).map_values(|r: ProfileRow| r.name@))
                &&& rows@.subrange(1 + p, rows@.len() as int).map_values(|r: ProfileRow| r.name@).to_multiset()
                    == adopted.to_multiset()
                &&& forall|i: int| 0 <= i < rows@.len() ==> row_matches(*self, sessions@, str_views(attached@), #[trigger] rows@[i].id, rows@[i])
            }),
    {
        let mut rows: Vec<ProfileRow> = Vec::new();
        rows.push(self.row(ProfileRef::Default, sessions, attached));
        let p = self.settings.profiles.len();
        let mut i: usize = 0;
        while i < p
            invariant
                p == self.settings.profiles@.len(),
                i <= p,
                rows@.len() == 1 + i,
                rows@[0].id is Default,
                forall|j: int| 0 <= j < i ==> #[trigger] rows@[1 + j].id == ref_of(self.settings.profiles@[j]),
                forall|j: int| 0 <= j < rows@.len() ==> row_matches(*self, sessions@, str_views(attached@), #[trigger] rows@[j].id, rows@[j]),
            decreases p - i,
        {
            let id = self.settings.profiles[i].to_ref();
            rows.push(self.row(id, sessions, attached));
            i = i + 1;
        }
        let unsorted = self.adopted(sessions);
        let ghost found = names_of(unsorted@);
        let adopted = sort_names(unsorted);
        let ghost sorted = names_of(adopted@);
        proof {
            vstd::seq_lib::to_multiset_len(sorted);
            vstd::seq_lib::to_multiset_len(found);
        }
        let mut k: usize = 0;
        while k < adopted.len()
            invariant
                p == self.settings.profiles@.len(),
                sorted == names_of(adopted@),
                k <= adopted@.len(),
                rows@.len() == 1 + p + k,
                rows@[0].id is Default,
                forall|j: int| 0 <= j < p ==> #[trigger] rows@[1 + j].id == ref_of(self.settings.profiles@[j]),
                forall|j: int| 1 + p <= j < rows@.len() ==> #[trigger] rows@[j].id is Named,
                rows@.subrange(1 + p, rows@.len() as int).map_values(|r: ProfileRow| r.name@) =~= sorted.take(k as int),
                forall|j: int| 0 <= j < rows@.len() ==> row_matches(*self, sessions@, str_views(attached@), #[trigger] rows@[j].id, rows@[j]),
            decreases adopted@.len() - k,
        {
            let id = ProfileRef::Named(adopted[k].clone());
            let ghost before = rows@;
            rows.push(self.row(id, sessions, attached));
            assert(rows@.subrange(1 + p, rows@.len() as int) =~= before.subrange(1 + p, before.len() as int).push(rows@[rows@.len() - 1]));
            assert(sorted.take(k + 1) =~= sorted.take(k as int).push(sorted[k as int]));
            k = k + 1;
        }
        assert(sorted.take(adopted@.len() as int) =~= sorted);
        assert(sorted.len() == adopted_names(self.settings, sessions@).len());
        rows
    }
}

} // verus!

verus! {

/// The label a new profile keeps: a non-empty one that differs from its name.
pub open spec fn kept_label(label: Option<String>, name: Seq<char>) -> Option<String> {
    match label {
        Some(l) if l@.len() > 0 && l@ != name => Some(l),
        _ => None,
    }
}

/// The remote target a new profile keeps: a non-empty one.
pub open spec fn kept_remote(remote: Option<String>) -> Option<String> {
    match remote {
        Some(t) if t@.len() > 0 => Some(t),
        _ => None,
    }
}

/// The remote session a new profile keeps: a non-empty one, of a remote profile.
pub open spec fn kept_session(session: Option<String>, remote: Option<String>) -> Option<String> {
    match session {
        Some(s) if s@.len() > 0 && kept_remote(remote) is Some => Some(s),
        _ => None,
    }
}

/// Two stores that differ at most in their saved profiles and last profile.
pub open spec fn same_store_but_settings(a: ProfileStore, b: ProfileStore) -> bool {
    &&& a.herdr == b.herdr
    &&& a.path == b.path
    &&& a.current == b.current
    &&& a.settings.version == b.settings.version
    &&& a.settings.chooser_on_launch == b.settings.chooser_on_launch
    &&& a.settings.terminal == b.settings.terminal
}

/// The profiles other than those named `name`, in order.
pub open spec fn without_name(ps: Seq<Profile>, name: Seq<char>) -> Seq<Profile>
    decreases ps.len(),
{
    if ps.len() == 0 {
        seq![]
    } else if ps.last().name@ == name {
        without_name(ps.drop_last(), name)
    } else {
        without_name(ps.drop_last(), name).push(ps.last())
    }
}

/// A profile to forget, and whether its local session is deleted first
/// (when its directory exists).
#[derive(Debug)]
pub struct Removal {
    pub name: ProfileName,
    pub delete_session: bool,
}

/// The command a profile's window runs Herdr behind: `<exe> exec <name> --`
/// when the profile has a saved environment, else nothing.
pub open spec fn exec_prefix(settings: Settings, target: ProfileRef, exe: Seq<char>) -> Seq<Seq<char>> {
    if saved_env(settings, ref_name(target)).len() > 0 {
        seq![exe, "exec"@, ref_name(target), "--"@]
    } else {
        seq![]
    }
}

/// A named session that Herdr reports running.
pub open spec fn running_named(sessions: Seq<Session>, name: Seq<char>) -> bool {
    exists|i: int| 0 <= i < sessions.len() && sessions[i].name@ == name && sessions[i].running
}

fn opt_clone_vec(o: &Option<Vec<String>>) -> (r: Option<Vec<String>>)
    ensures
        crate::launcher::opt_views(r) == crate::launcher::opt_views(*o),
{
    match o {
        Some(v) => {
            let mut c: Vec<String> = Vec::new();
            let mut i: usize = 0;
            while i < v.len()
                invariant
                    i <= v@.len(),
                    str_views(c@) == str_views(v@).take(i as int),
                decreases v@.len() - i,
            {
                let ghost before = str_views(c@);
                c.push(v[i].clone());
                assert(str_views(c@) =~= before.push(v@[i as int]@));
                assert(str_views(v@).take(i + 1) =~= str_views(v@).take(i as int).push(v@[i as int]@));
                i = i + 1;
            }
            assert(str_views(v@).take(v@.len() as int) =~= str_views(v@));
            Some(c)
        },
        None => None,
    }
}

impl ProfileStore {
    /// A profile by name: a saved one (local or remote), or a plain session name.
    pub fn resolve(&self, name: &str) -> (r: Result<ProfileRef, StoreError>)
        ensures
            name@ == crate::settings::default_session() ==> r == Ok::<ProfileRef, StoreError>(ProfileRef::Default),
            name@ != crate::settings::default_session() ==> match r {
                Ok(id) => valid_name(name@) && match profile_index(self.settings.profiles@, name@) {
                    Some(i) => id == ref_of(self.settings.profiles@[i]),
                    None => id matches ProfileRef::Named(n) && n@ == name@,
                },
                Err(e) => !valid_name(name@) && e == StoreError::Name(name_error(name@).unwrap()),
            },
    {
        match ProfileRef::parse(name) {
            Err(e) => Err(StoreError::Name(e)),
            Ok(ProfileRef::Named(n)) => match self.settings.profile(&n) {
                Some(p) => Ok(p.to_ref()),
                None => Ok(ProfileRef::Named(n)),
            },
            Ok(id) => Ok(id),
        }
    }

    /// Saves a new profile. The label is kept when it is not empty and not
    /// the name; the remote target when it is not empty; the remote session
    /// when it is not empty and the profile is remote.
    pub fn add(
        &mut self,
        name: &str,
        label: Option<String>,
        remote: Option<String>,
        remote_session: Option<String>,
    ) -> (r: Result<(), StoreError>)
        ensures
            !valid_name(name@) ==> r == Err::<(), StoreError>(StoreError::Name(name_error(name@).unwrap()))
                && *final(self) == *old(self),
            valid_name(name@) && profile_index(old(self).settings.profiles@, name@) is Some ==> (r
                matches Err(StoreError::Exists(n)) && n@ == name@) && *final(self) == *old(self),
            valid_name(name@) && profile_index(old(self).settings.profiles@, name@) is None ==> {
                &&& r is Ok
                &&& same_store_but_settings(*final(self), *old(self))
                &&& final(self).settings.last == old(self).settings.last
                &&& final(self).settings.profiles@.len() == old(self).settings.profiles@.len() + 1
                &&& final(self).settings.profiles@.drop_last() == old(self).settings.profiles@
                &&& final(self).settings.profiles@.last().name@ == name@
                &&& final(self).settings.profiles@.last().label == kept_label(label, name@)
                &&& final(self).settings.profiles@.last().remote == kept_remote(remote)
                &&& final(self).settings.profiles@.last().remote_session == kept_session(remote_session, remote)
                &&& final(self).settings.profiles@.last().env@.len() == 0
            },
    {
        let n = match ProfileName::parse(name) {
            Ok(n) => n,
            Err(e) => return Err(StoreError::Name(e)),
        };
        if self.settings.profile(&n).is_some() {
            return Err(StoreError::Exists(owned(name)));
        }
        let label = match label {
            Some(l) => if crate::text::chars_of(l.as_str()).len() > 0 && !str_eq(l.as_str(), name) {
                Some(l)
            } else {
                None
            },
            None => None,
        };
        let remote = match remote {
            Some(t) => if crate::text::chars_of(t.as_str()).len() > 0 { Some(t) } else { None },
            None => None,
        };
        let remote_session = match remote_session {
            Some(s) => if crate::text::chars_of(s.as_str()).len() > 0 && remote.is_some() { Some(s) } else { None },
            None => None,
        };
        let ghost before = self.settings.profiles@;
        self.settings.profiles.push(Profile { name: n, label, remote, remote_session, env: Vec::new() });
        assert(self.settings.profiles@.drop_last() =~= before);
        Ok(())
    }

    /// Checks that `target` may be deleted: not the default profile, and not
    /// a local profile whose session runs. A remote profile is only forgotten;
    /// its host keeps its session.
    pub fn remove_with(&self, target: &ProfileRef, sessions: &Vec<Session>) -> (r: Result<Removal, StoreError>)
        ensures
            match *target {
                ProfileRef::Default => r == Err::<Removal, StoreError>(StoreError::DefaultUndeletable),
                ProfileRef::Remote { name, .. } => r matches Ok(rm) && rm.name == name && !rm.delete_session,
                ProfileRef::Named(name) => if running_named(sessions@, name@) {
                    r matches Err(StoreError::Running(n)) && n@ == name@
                } else {
                    r matches Ok(rm) && rm.name == name && rm.delete_session
                },
            },
    {
        match target {
            ProfileRef::Default => Err(StoreError::DefaultUndeletable),
            ProfileRef::Remote { name, .. } => Ok(Removal { name: name.clone(), delete_session: false }),
            ProfileRef::Named(name) => {
                let mut i: usize = 0;
                while i < sessions.len()
                    invariant
                        *target == ProfileRef::Named(*name),
                        i <= sessions@.len(),
                        forall|j: int| 0 <= j < i ==> !(sessions@[j].name@ == name@ && sessions@[j].running),
                    decreases sessions@.len() - i,
                {
                    if str_eq(sessions[i].name.as_str(), name.as_str()) && sessions[i].running {
                        assert(running_named(sessions@, name@)) by {
                            assert(sessions@[i as int].name@ == name@ && sessions@[i as int].running);
                        }
                        return Err(StoreError::Running(name.to_string()));
                    }
                    i = i + 1;
                }
                Ok(Removal { name: name.clone(), delete_session: true })
            },
        }
    }

    /// Forgets every saved profile named `name`, and forgets it as the last
    /// profile opened.
    pub fn forget(&mut self, name: &ProfileName)
        ensures
            same_store_but_settings(*final(self), *old(self)),
            final(self).settings.profiles@ == without_name(old(self).settings.profiles@, name@),
            final(self).settings.last == match old(self).settings.last {
                Some(l) if l@ == name@ => None,
                other => other,
            },
    {
        let mut kept: Vec<Profile> = Vec::new();
        let mut rest: Vec<Profile> = Vec::new();
        std::mem::swap(&mut rest, &mut self.settings.profiles);
        let ghost all = rest@;
        let n = rest.len();
        let mut i: usize = 0;
        while i < n
            invariant
                n == all.len(),
                i <= n,
                rest@ == all.skip(i as int),
                kept@ == without_name(all.take(i as int), name@),
            decreases n - i,
        {
            assert(all.take(i + 1).drop_last() =~= all.take(i as int));
            assert(rest@[0] == all[i as int]);
            let p = rest.remove(0);
            assert(rest@ =~= all.skip(i + 1));
            if !p.name.same_as(name) {
                kept.push(p);
            }
            i = i + 1;
        }
        assert(all.take(n as int) =~= all);
        self.settings.profiles = kept;
        let clear = match &self.settings.last {
            Some(l) => str_eq(l.as_str(), name.as_str()),
            None => false,
        };
        if clear {
            self.settings.last = None;
        }
    }

    /// The session to stop for `target`: only a local named profile can be
    /// stopped from here.
    pub fn stop(&self, target: &ProfileRef) -> (r: Result<ProfileName, StoreError>)
        ensures
            match *target {
                ProfileRef::Default => r == Err::<ProfileName, StoreError>(StoreError::DefaultIsHerdr),
                ProfileRef::Named(name) => r == Ok::<ProfileName, StoreError>(name),
                ProfileRef::Remote { target: t, .. } => r matches Err(StoreError::RemoteHost(h)) && h@ == t@,
            },
    {
        match target {
            ProfileRef::Default => Err(StoreError::DefaultIsHerdr),
            ProfileRef::Named(name) => Ok(name.clone()),
            ProfileRef::Remote { target: t, .. } => Err(StoreError::RemoteHost(t.clone())),
        }
    }

    /// The command that opens `target` in a new terminal window. A profile
    /// that already has a window open cannot be opened twice. A profile with
    /// a saved environment runs Herdr through `<exe> exec <name> --`, this
    /// program at `exe`, which sets that environment inside the window.
    pub fn open(
        &self,
        target: &ProfileRef,
        attached: &Vec<String>,
        env: Vec<(String, String)>,
        platform: Platform,
        installed: Vec<String>,
        exe: &str,
    ) -> (r: Result<Vec<String>, StoreError>)
        ensures
            str_views(attached@).contains(attach_key_of(*target)) ==> if same_ref(*target, self.current) {
                r matches Err(StoreError::ThisWindow(n)) && n@ == ref_name(*target)
            } else {
                r matches Err(StoreError::OpenElsewhere(n)) && n@ == ref_name(*target)
            },
            !str_views(attached@).contains(attach_key_of(*target)) ==> match crate::launcher::argv_with(
                exec_prefix(self.settings, *target, exe@),
                self.herdr.bin_view(),
                crate::launcher::opt_views(self.settings.terminal),
                env@,
                platform,
                str_views(installed@),
                *target,
            ) {
                Some(a) => r matches Ok(v) && str_views(v@) == a,
                None => r matches Err(StoreError::NoTerminal(p)) && p@ == self.path@,
            },
    {
        let key = target.attach_key();
        if contains_string(attached, key.as_str()) {
            if target.same_as(&self.current) {
                return Err(StoreError::ThisWindow(owned(target.name())));
            }
            return Err(StoreError::OpenElsewhere(owned(target.name())));
        }
        let launcher = Launcher::new(self.herdr.bin(), opt_clone_vec(&self.settings.terminal), env, platform, installed);
        let launcher = if self.runs_through_exec(target) {
            launcher.through_exec(exe, target)
        } else {
            assert(str_views(launcher.exec_prefix@) =~= Seq::<Seq<char>>::empty());
            launcher
        };
        match launcher.argv(target) {
            Some(argv) => Ok(argv),
            None => Err(StoreError::NoTerminal(self.path.clone())),
        }
    }

    /// Whether `target`'s window runs Herdr through `exec`: whether a saved
    /// environment goes with it.
    pub fn runs_through_exec(&self, target: &ProfileRef) -> (b: bool)
        ensures
            b == (saved_env(self.settings, ref_name(*target)).len() > 0),
    {
        let env = self.settings.profile_env(target.name(), "");
        proof {
            assert(env_view(env@).len() == saved_env(self.settings, ref_name(*target)).len());
        }
        env.len() > 0
    }

    /// Remembers `target` as the last profile opened.
    pub fn mark_opened(&mut self, target: &ProfileRef)
        ensures
            same_store_but_settings(*final(self), *old(self)),
            final(self).settings.profiles == old(self).settings.profiles,
            final(self).settings.last matches Some(l) && l@ == ref_name(*target),
    {
        self.settings.last = Some(owned(target.name()));
    }
}

} // verus!
