use vstd::prelude::*;
use vstd::utf8::{decode_utf8, encode_utf8, is_char_boundary, encode_utf8_decode_utf8};
use vstd::string::{StringExecFns, StringSliceAdditionalSpecFns};
use crate::text::trim_end_char;

verus! {

// ---------------------------------------------------------------------------
// Profile data
// ---------------------------------------------------------------------------

/// An escalation schedule configured for a profile.
pub struct EscalationSchedule {
    pub name: String,
    pub schedule_id: String,
}

/// Per-profile defaults.
pub struct Defaults {
    pub project: Option<String>,
    pub workspace: Option<String>,
    pub bb_project: Option<String>,
    pub escalation_schedules: Option<Vec<EscalationSchedule>>,
}

/// One set of credentials for an Atlassian site.
pub struct Profile {
    pub name: String,
    pub atlassian_url: String,
    pub email: String,
    pub api_token: String,
    pub defaults: Option<Defaults>,
}

/// All configured profiles, by name, and the name of the default one.
/// Each name occurs at most once (see [`Config::wf`]).
pub struct Config {
    pub default_profile: Option<String>,
    pub profiles: Vec<(String, Profile)>,
}

pub struct EscalationScheduleView {
    pub name: Seq<char>,
    pub schedule_id: Seq<char>,
}

pub struct DefaultsView {
    pub project: Option<Seq<char>>,
    pub workspace: Option<Seq<char>>,
    pub bb_project: Option<Seq<char>>,
    pub escalation_schedules: Option<Seq<EscalationScheduleView>>,
}

pub struct ProfileView {
    pub name: Seq<char>,
    pub atlassian_url: Seq<char>,
    pub email: Seq<char>,
    pub api_token: Seq<char>,
    pub defaults: Option<DefaultsView>,
}

pub open spec fn opt_view(o: Option<String>) -> Option<Seq<char>> {
    match o {
        Some(s) => Some(s@),
        None => None,
    }
}

impl View for EscalationSchedule {
    type V = EscalationScheduleView;

    open spec fn view(&self) -> EscalationScheduleView {
        EscalationScheduleView { name: self.name@, schedule_id: self.schedule_id@ }
    }
}

pub open spec fn schedules_view(v: Seq<EscalationSchedule>) -> Seq<EscalationScheduleView> {
    Seq::new(v.len(), |i: int| v[i]@)
}

impl View for Defaults {
    type V = DefaultsView;

    open spec fn view(&self) -> DefaultsView {
        DefaultsView {
            project: opt_view(self.project),
            workspace: opt_view(self.workspace),
            bb_project: opt_view(self.bb_project),
            escalation_schedules: match self.escalation_schedules {
                Some(v) => Some(schedules_view(v@)),
                None => None,
            },
        }
    }
}

impl View for Profile {
    type V = ProfileView;

    open spec fn view(&self) -> ProfileView {
        ProfileView {
            name: self.name@,
            atlassian_url: self.atlassian_url@,
            email: self.email@,
            api_token: self.api_token@,
            defaults: match self.defaults {
                Some(d) => Some(d@),
                None => None,
            },
        }
    }
}

pub(crate) fn clone_opt_string(o: &Option<String>) -> (r: Option<String>)
    ensures
        opt_view(r) == opt_view(*o),
{
    match o {
        Some(s) => Some(s.clone()),
        None => None,
    }
}

/// A copy of a list of escalation schedules.
pub fn clone_schedules(v: &Vec<EscalationSchedule>) -> (r: Vec<EscalationSchedule>)
    ensures
        schedules_view(r@) == schedules_view(v@),
{
    let mut r: Vec<EscalationSchedule> = Vec::new();
    let n = v.len();
    for i in 0..n
        invariant
            n == v@.len(),
            r@.len() == i,
            forall|j: int| 0 <= j < i ==> #[trigger] r@[j]@ == v@[j]@,
    {
        r.push(EscalationSchedule { name: v[i].name.clone(), schedule_id: v[i].schedule_id.clone() });
    }
    assert(schedules_view(r@) =~= schedules_view(v@));
    r
}

impl Defaults {
    /// A copy of these defaults.
    pub fn duplicate(&self) -> (r: Defaults)
        ensures
            r@ == self@,
    {
        Defaults {
            project: clone_opt_string(&self.project),
            workspace: clone_opt_string(&self.workspace),
            bb_project: clone_opt_string(&self.bb_project),
            escalation_schedules: match &self.escalation_schedules {
                Some(v) => Some(clone_schedules(v)),
                None => None,
            },
        }
    }
}

impl Profile {
    /// A copy of this profile.
    pub fn duplicate(&self) -> (r: Profile)
        ensures
            r@ == self@,
    {
        Profile {
            name: self.name.clone(),
            atlassian_url: self.atlassian_url.clone(),
            email: self.email.clone(),
            api_token: self.api_token.clone(),
            defaults: match &self.defaults {
                Some(d) => Some(d.duplicate()),
                None => None,
            },
        }
    }
}

impl Config {
    /// The profile names, in order.
    pub open spec fn names(&self) -> Seq<Seq<char>> {
        Seq::new(self.profiles@.len(), |i: int| self.profiles@[i].0@)
    }

    /// No name occurs twice.
    pub open spec fn wf(&self) -> bool {
        forall|i: int, j: int|
            0 <= i < j < self.profiles@.len() ==> #[trigger] self.profiles@[i].0@ != #[trigger] self.profiles@[j].0@
    }

    /// Whether a profile of that name exists.
    pub open spec fn has(&self, name: Seq<char>) -> bool {
        exists|i: int| 0 <= i < self.profiles@.len() && #[trigger] self.profiles@[i].0@ == name
    }

    /// The profile stored under `name` (meaningful when `has(name)`).
    pub open spec fn profile(&self, name: Seq<char>) -> ProfileView {
        let i = choose|i: int| 0 <= i < self.profiles@.len() && #[trigger] self.profiles@[i].0@ == name;
        self.profiles@[i].1@
    }

    /// A configuration with no profiles and no default.
    pub fn empty() -> (r: Config)
        ensures
            r.profiles@.len() == 0,
            r.default_profile is None,
            r.wf(),
    {
        Config { default_profile: None, profiles: Vec::new() }
    }

    /// What `get_profile` answers for the requested name.
    pub open spec fn get_profile_spec(&self, name: Option<Seq<char>>) -> Result<ProfileView, Seq<char>> {
        match name {
            Some(n) => if self.has(n) {
                Ok(self.profile(n))
            } else {
                Err(profile_not_found(n))
            },
            None => if self.default_profile is Some && self.has(self.default_profile->0@) {
                Ok(self.profile(self.default_profile->0@))
            } else if self.profiles@.len() == 1 {
                Ok(self.profiles@[0].1@)
            } else if self.profiles@.len() == 0 {
                Err(no_profiles_message())
            } else {
                Err(multiple_profiles_message())
            },
        }
    }

    /// The profile to use: the named one; else the default one; else the only
    /// one. Errors name what is missing.
    pub fn get_profile(&self, name: Option<&str>) -> (r: Result<Profile, String>)
        requires
            self.wf(),
        ensures
            profile_result_view(r) == self.get_profile_spec(str_opt_view(name)),
    {
        match name {
            Some(n) => {
                match self.find(n) {
                    Some(i) => Ok(self.profiles[i].1.duplicate()),
                    None => Err(not_found_error(n)),
                }
            },
            None => {
                match &self.default_profile {
                    Some(d) => {
                        match self.find(d.as_str()) {
                            Some(i) => {
                                return Ok(self.profiles[i].1.duplicate());
                            },
                            None => {},
                        }
                    },
                    None => {},
                }
                if self.profiles.len() == 1 {
                    Ok(self.profiles[0].1.duplicate())
                } else if self.profiles.len() == 0 {
                    Err(String::from_str("No profiles configured, run 'acli config setup' to create one"))
                } else {
                    Err(String::from_str("Multiple profiles configured, specify one with -p or set a default with 'acli config set-default <name>'"))
                }
            },
        }
    }

    /// The profiles as a map from name to profile.
    pub open spec fn profile_map(&self) -> Map<Seq<char>, ProfileView> {
        Map::new(|n: Seq<char>| self.has(n), |n: Seq<char>| self.profile(n))
    }

    pub proof fn lemma_profile_at(&self, i: int)
        requires
            self.wf(),
            0 <= i < self.profiles@.len(),
        ensures
            self.has(self.profiles@[i].0@),
            self.profile(self.profiles@[i].0@) == self.profiles@[i].1@,
    {
        let n = self.profiles@[i].0@;
        assert(self.profiles@[i].0@ == n);
        let k = choose|k: int| 0 <= k < self.profiles@.len() && #[trigger] self.profiles@[k].0@ == n;
        if k != i {
            if k < i {
                assert(self.profiles@[k].0@ != self.profiles@[i].0@);
            } else {
                assert(self.profiles@[i].0@ != self.profiles@[k].0@);
            }
        }
    }

    /// The profile `config setup` stores under `name`, given what was typed.
    pub open spec fn setup_profile(&self, name: Seq<char>, url: Seq<char>, email: Seq<char>, token_input: Seq<char>) -> ProfileView {
        let existing = self.has(name);
        let current_token = if existing { self.profile(name).api_token } else { seq![] };
        let token = if token_input == mask_spec(current_token) && current_token.len() > 0 {
            current_token
        } else {
            token_input
        };
        ProfileView {
            name: name,
            atlassian_url: trim_end_char(url, '/'),
            email: email,
            api_token: token,
            defaults: if existing { self.profile(name).defaults } else { None },
        }
    }

    /// Stores a profile from what `config setup` read: the URL loses its
    /// trailing slashes, and typing back the masked token keeps the current
    /// token. The profile becomes the default when it is the first one or no
    /// default is set.
    pub fn apply_setup(&mut self, name: &str, url: &str, email: &str, token_input: &str) -> (r: SetupResult)
        requires
            old(self).wf(),
            old(self).has(name@) ==> mask_allowed(old(self).profile(name@).api_token),
        ensures
            final(self).wf(),
            r.existed == old(self).has(name@),
            final(self).profile_map() == old(self).profile_map().insert(
                name@,
                old(self).setup_profile(name@, url@, email@, token_input@),
            ),
            opt_view(final(self).default_profile) == (if old(self).profiles@.len() == 0 || old(self).default_profile is None {
                Some(name@)
            } else {
                opt_view(old(self).default_profile)
            }),
            r.is_default == (old(self).profiles@.len() == 0 || opt_view(final(self).default_profile) == Some(name@)),
    {
        let found = self.find(name);
        let ghost old_cfg = *self;
        let (current_token, defaults) = match found {
            Some(i) => {
                proof {
                    self.lemma_profile_at(i as int);
                }
                let d = match &self.profiles[i].1.defaults {
                    Some(d) => Some(d.duplicate()),
                    None => None,
                };
                (self.profiles[i].1.api_token.clone(), d)
            },
            None => (String::new(), None),
        };
        let masked = mask_token(current_token.as_str());
        let token = if crate::text::str_eq(token_input, masked.as_str()) && !current_token.as_str().is_empty() {
            current_token
        } else {
            String::from_str(token_input)
        };
        let profile = Profile {
            name: String::from_str(name),
            atlassian_url: trim_trailing_slashes(url),
            email: String::from_str(email),
            api_token: token,
            defaults: defaults,
        };
        let ghost pv = profile@;
        assert(pv == old_cfg.setup_profile(name@, url@, email@, token_input@));
        let is_first = self.profiles.len() == 0;
        match found {
            Some(i) => {
                self.profiles.set(i, (String::from_str(name), profile));
            },
            None => {
                self.profiles.push((String::from_str(name), profile));
            },
        }
        if is_first || self.default_profile.is_none() {
            self.default_profile = Some(String::from_str(name));
        }
        proof {
            assert forall|a: int, b: int| 0 <= a < b < self.profiles@.len() implies #[trigger] self.profiles@[a].0@ != #[trigger] self.profiles@[b].0@ by {
                if found is None {
                    if b == old_cfg.profiles@.len() {
                        assert(old_cfg.profiles@[a].0@ != name@);
                    } else {
                        assert(self.profiles@[a] == old_cfg.profiles@[a]);
                        assert(self.profiles@[b] == old_cfg.profiles@[b]);
                    }
                } else {
                    let i = found->0 as int;
                    if a != i && b != i {
                        assert(self.profiles@[a] == old_cfg.profiles@[a]);
                        assert(self.profiles@[b] == old_cfg.profiles@[b]);
                    } else if a == i {
                        assert(self.profiles@[b] == old_cfg.profiles@[b]);
                        assert(old_cfg.profiles@[i].0@ != old_cfg.profiles@[b].0@);
                    } else {
                        assert(self.profiles@[a] == old_cfg.profiles@[a]);
                        assert(old_cfg.profiles@[a].0@ != old_cfg.profiles@[i].0@);
                    }
                }
            }
            let mnew = self.profile_map();
            let mexp = old_cfg.profile_map().insert(name@, pv);
            assert forall|n: Seq<char>| #[trigger] mnew.contains_key(n) <==> mexp.contains_key(n) by {
                if mnew.contains_key(n) {
                    let k = choose|k: int| 0 <= k < self.profiles@.len() && #[trigger] self.profiles@[k].0@ == n;
                    if n != name@ {
                        assert(old_cfg.profiles@[k] == self.profiles@[k]);
                        assert(old_cfg.profiles@[k].0@ == n);
                    }
                }
                if mexp.contains_key(n) && n != name@ {
                    let k = choose|k: int| 0 <= k < old_cfg.profiles@.len() && #[trigger] old_cfg.profiles@[k].0@ == n;
                    assert(self.profiles@[k] == old_cfg.profiles@[k]);
                    assert(self.profiles@[k].0@ == n);
                }
                if n == name@ {
                    let k: int = if found is Some { found->0 as int } else { old_cfg.profiles@.len() as int };
                    assert(self.profiles@[k].0@ == n);
                }
            }
            assert forall|n: Seq<char>| #[trigger] mnew.contains_key(n) implies mnew[n] == mexp[n] by {
                let k = choose|k: int| 0 <= k < self.profiles@.len() && #[trigger] self.profiles@[k].0@ == n;
                self.lemma_profile_at(k);
                if n == name@ {
                    assert(self.profiles@[k].1@ == pv);
                } else {
                    assert(old_cfg.profiles@[k] == self.profiles@[k]);
                    old_cfg.lemma_profile_at(k);
                }
            }
            assert(mnew =~= mexp);
        }
        let is_default = match &self.default_profile {
            Some(d) => crate::text::str_eq(d.as_str(), name),
            None => false,
        };
        SetupResult { existed: found.is_some(), is_default: is_first || is_default }
    }

    /// Removes the profile `name`. When it was the default, the first
    /// remaining profile (if any) becomes the default.
    pub fn remove_profile(&mut self, name: &str) -> (r: Result<(), String>)
        requires
            old(self).wf(),
        ensures
            final(self).wf(),
            !old(self).has(name@) ==> (r matches Err(e) && e@ == profile_not_found(name@) && *final(self) == *old(self)),
            old(self).has(name@) ==> r is Ok && final(self).profile_map() == old(self).profile_map().remove(name@)
                && opt_view(final(self).default_profile) == (if opt_view(old(self).default_profile) == Some(name@) {
                    if final(self).profiles@.len() > 0 { Some(final(self).profiles@[0].0@) } else { None }
                } else {
                    opt_view(old(self).default_profile)
                }),
    {
        let ghost old_cfg = *self;
        match self.find(name) {
            None => Err(not_found_error(name)),
            Some(i) => {
                self.profiles.remove(i);
                proof {
                    assert forall|a: int, b: int| 0 <= a < b < self.profiles@.len() implies #[trigger] self.profiles@[a].0@ != #[trigger] self.profiles@[b].0@ by {
                        let oa = if a < i { a } else { a + 1 };
                        let ob = if b < i { b } else { b + 1 };
                        assert(self.profiles@[a] == old_cfg.profiles@[oa]);
                        assert(self.profiles@[b] == old_cfg.profiles@[ob]);
                    }
                    let mnew = self.profile_map();
                    let mexp = old_cfg.profile_map().remove(name@);
                    assert forall|n: Seq<char>| #[trigger] mnew.contains_key(n) <==> mexp.contains_key(n) by {
                        if mnew.contains_key(n) {
                            let k = choose|k: int| 0 <= k < self.profiles@.len() && #[trigger] self.profiles@[k].0@ == n;
                            let ok = if k < i { k } else { k + 1 };
                            assert(self.profiles@[k] == old_cfg.profiles@[ok]);
                            assert(old_cfg.profiles@[ok].0@ == n);
                            assert(ok != i);
                            if n == name@ {
                                if ok < i {
                                    assert(old_cfg.profiles@[ok].0@ != old_cfg.profiles@[i as int].0@);
                                } else {
                                    assert(old_cfg.profiles@[i as int].0@ != old_cfg.profiles@[ok].0@);
                                }
                            }
                        }
                        if mexp.contains_key(n) {
                            let k = choose|k: int| 0 <= k < old_cfg.profiles@.len() && #[trigger] old_cfg.profiles@[k].0@ == n;
                            assert(k != i);
                            let nk = if k < i { k } else { k - 1 };
                            assert(self.profiles@[nk] == old_cfg.profiles@[k]);
                            assert(self.profiles@[nk].0@ == n);
                        }
                    }
                    assert forall|n: Seq<char>| #[trigger] mnew.contains_key(n) implies mnew[n] == mexp[n] by {
                        let k = choose|k: int| 0 <= k < self.profiles@.len() && #[trigger] self.profiles@[k].0@ == n;
                        self.lemma_profile_at(k);
                        let ok = if k < i { k } else { k + 1 };
                        assert(self.profiles@[k] == old_cfg.profiles@[ok]);
                        old_cfg.lemma_profile_at(ok);
                    }
                    assert(mnew =~= mexp);
                }
                let was_default = match &self.default_profile {
                    Some(d) => crate::text::str_eq(d.as_str(), name),
                    None => false,
                };
                if was_default {
                    if self.profiles.len() > 0 {
                        self.default_profile = Some(self.profiles[0].0.clone());
                    } else {
                        self.default_profile = None;
                    }
                }
                Ok(())
            },
        }
    }

    /// Makes `name` the default profile.
    pub fn set_default(&mut self, name: &str) -> (r: Result<(), String>)
        requires
            old(self).wf(),
        ensures
            final(self).wf(),
            final(self).profiles == old(self).profiles,
            !old(self).has(name@) ==> (r matches Err(e) && e@ == profile_not_found(name@) && final(self).default_profile == old(self).default_profile),
            old(self).has(name@) ==> r is Ok && opt_view(final(self).default_profile) == Some(name@),
    {
        match self.find(name) {
            None => Err(not_found_error(name)),
            Some(_) => {
                self.default_profile = Some(String::from_str(name));
                Ok(())
            },
        }
    }

    /// Position of the profile named `name`.
    fn find(&self, name: &str) -> (r: Option<usize>)
        requires
            self.wf(),
        ensures
            r is Some <==> self.has(name@),
            r matches Some(i) ==> i < self.profiles@.len() && self.profiles@[i as int].0@ == name@
                && self.profile(name@) == self.profiles@[i as int].1@,
    {
        let n = self.profiles.len();
        for i in 0..n
            invariant
                n == self.profiles@.len(),
                self.wf(),
                forall|j: int| 0 <= j < i ==> self.profiles@[j].0@ != name@,
        {
            if crate::text::str_eq(self.profiles[i].0.as_str(), name) {
                proof {
                    let k = choose|k: int| 0 <= k < self.profiles@.len() && #[trigger] self.profiles@[k].0@ == name@;
                    if k != i {
                        if k < i {
                            assert(self.profiles@[k].0@ != self.profiles@[i as int].0@);
                        } else {
                            assert(self.profiles@[i as int].0@ != self.profiles@[k].0@);
                        }
                    }
                }
                return Some(i);
            }
        }
        None
    }
}


/// The error for a profile name that is not configured.
pub open spec fn profile_not_found(n: Seq<char>) -> Seq<char> {
    "Profile \""@ + n + "\" not found"@
}

pub open spec fn no_profiles_message() -> Seq<char> {
    "No profiles configured, run 'acli config setup' to create one"@
}

pub open spec fn multiple_profiles_message() -> Seq<char> {
    "Multiple profiles configured, specify one with -p or set a default with 'acli config set-default <name>'"@
}

pub open spec fn str_opt_view(o: Option<&str>) -> Option<Seq<char>> {
    match o {
        Some(s) => Some(s@),
        None => None,
    }
}

pub open spec fn profile_result_view(r: Result<Profile, String>) -> Result<ProfileView, Seq<char>> {
    match r {
        Ok(p) => Ok(p@),
        Err(e) => Err(e@),
    }
}

fn not_found_error(n: &str) -> (e: String)
    ensures
        e@ == profile_not_found(n@),
{
    let mut e = String::from_str("Profile \"");
    e.append(n);
    e.append("\" not found");
    e
}


/// What `config setup` reports: whether the profile existed before, and
/// whether it is the default afterwards.
pub struct SetupResult {
    pub existed: bool,
    pub is_default: bool,
}

/// Whether `mask_token` accepts the token: longer tokens must split into
/// whole characters after their first four and before their last four bytes.
pub open spec fn mask_allowed(token: Seq<char>) -> bool {
    let b = encode_utf8(token);
    b.len() > 8 ==> is_char_boundary(b, 4) && is_char_boundary(b, b.len() - 4)
}

/// A token as shown on screen: empty stays empty, up to eight bytes becomes
/// `****`, longer keeps its first and last four bytes around `****`.
pub open spec fn mask_spec(token: Seq<char>) -> Seq<char> {
    let b = encode_utf8(token);
    if token.len() == 0 {
        seq![]
    } else if b.len() <= 8 {
        "****"@
    } else {
        decode_utf8(b.take(4)) + "****"@ + decode_utf8(b.skip(b.len() - 4))
    }
}

/// Masks an API token for display.
pub fn mask_token(token: &str) -> (r: String)
    requires
        mask_allowed(token@),
    ensures
        r@ == mask_spec(token@),
{
    if token.is_empty() {
        return String::new();
    }
    let bytes = token.as_bytes();
    let len = bytes.len();
    assert(bytes@ == encode_utf8(token@));
    if len <= 8 {
        return String::from_str("****");
    }
    let (head, _) = token.split_at(4);
    let (_, tail) = token.split_at(len - 4);
    proof {
        encode_utf8_decode_utf8(head@);
        encode_utf8_decode_utf8(tail@);
    }
    let mut r = String::from_str(head);
    r.append("****");
    r.append(tail);
    r
}

/// The URL without its trailing slashes.
fn trim_trailing_slashes(url: &str) -> (r: String)
    ensures
        r@ == trim_end_char(url@, '/'),
{
    let mut v = crate::text::chars_of(url);
    while v.len() > 0 && v[v.len() - 1] == '/'
        invariant
            trim_end_char(v@, '/') == trim_end_char(url@, '/'),
        decreases v@.len(),
    {
        let ghost before = v@;
        v.pop();
        assert(v@ =~= before.drop_last());
    }
    crate::text::string_of(v.as_slice())
}

/// After `config setup` stores a profile, asking for it by name gives the
/// profile that was set up.
pub proof fn law_get_after_setup(
    before: Config,
    after: Config,
    name: Seq<char>,
    url: Seq<char>,
    email: Seq<char>,
    token_input: Seq<char>,
)
    requires
        after.profile_map() == before.profile_map().insert(name, before.setup_profile(name, url, email, token_input)),
    ensures
        after.get_profile_spec(Some(name)) == Ok::<ProfileView, Seq<char>>(before.setup_profile(name, url, email, token_input)),
{
    assert(after.profile_map().contains_key(name));
    assert(after.has(name));
    assert(after.profile_map()[name] == after.profile(name));
}

/// After `config set-default` makes an existing profile the default, asking
/// for no profile in particular gives that one.
pub proof fn law_default_after_set_default(before: Config, after: Config, name: Seq<char>)
    requires
        after.profiles == before.profiles,
        before.has(name),
        opt_view(after.default_profile) == Some(name),
    ensures
        after.get_profile_spec(None) == Ok::<ProfileView, Seq<char>>(before.profile(name)),
{
    assert(after.default_profile->0@ == name);
    assert(after.has(name));
}

/// After `config delete` removes a profile, asking for it by name reports it
/// missing, and every other profile is found as before.
pub proof fn law_get_after_remove(before: Config, after: Config, name: Seq<char>)
    requires
        after.profile_map() == before.profile_map().remove(name),
    ensures
        after.get_profile_spec(Some(name)) == Err::<ProfileView, Seq<char>>(profile_not_found(name)),
        forall|other: Seq<char>| other != name ==> #[trigger] after.get_profile_spec(Some(other)) == before.get_profile_spec(Some(other)),
{
    assert(!after.profile_map().contains_key(name));
    assert forall|other: Seq<char>| other != name implies #[trigger] after.get_profile_spec(Some(other)) == before.get_profile_spec(
        Some(other),
    ) by {
        assert(after.profile_map().contains_key(other) == before.profile_map().contains_key(other));
        if after.has(other) {
            assert(after.profile_map()[other] == before.profile_map()[other]);
        }
    }
}

} // verus!
