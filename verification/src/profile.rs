use vstd::prelude::*;

use crate::assoc::{
    assoc_map, find_key, has_key, key_index, keys_distinct, lemma_assoc_len, lemma_assoc_lookup,
    lemma_assoc_push, lemma_assoc_remove, lemma_assoc_update, rename_value, retain_value_ne,
    string_map, with_value_renamed, without_value,
};
use crate::crossfeed::{default_crossfeed, CrossfeedConfig};
use crate::filter_chain::MAX_BANDS;
use crate::filter_type::BandConfig;
use crate::text::{decimal_string, lemma_decimal_injective, spec_decimal, spec_trim, trim_to_string};
use vstd::string::StringExecFns;

verus! {

/// The name of the built-in fallback profile that every new store holds.
pub const DEFAULT_PROFILE_NAME: &'static str = "Default";

/// The ways a profile operation can fail.
#[derive(Debug, Clone, PartialEq)]
pub enum ProfileError {
    /// No profile has this name.
    NotFound(String),
    /// A profile with this name already exists.
    AlreadyExists(String),
    /// The current default profile cannot be removed.
    CannotRemoveDefault,
    /// The profile holds more than `MAX_BANDS` bands.
    TooManyBands { count: usize },
    /// Band `index` failed its range check for `reason`.
    InvalidBand { index: usize, reason: String },
    /// The profile named as the new default does not exist.
    DefaultNotFound(String),
    /// A profile cannot be renamed to a name that is empty once surrounding
    /// white space is removed.
    EmptyName,
}

/// A named EQ configuration: up to `MAX_BANDS` bands, applied in order,
/// and the crossfeed setting that goes with them.
#[derive(Debug, Clone, PartialEq)]
pub struct Profile<N> {
    /// Name shown in the UI and used as the store key.
    pub name: String,
    /// The bands, applied in sequence by the filter chain.
    pub bands: Vec<BandConfig<N>>,
    /// Headphone crossfeed for this profile.
    pub crossfeed: CrossfeedConfig,
}

/// Every check before index `n` passed.
pub open spec fn checks_pass_before(checks: Seq<Result<(), String>>, n: int) -> bool {
    forall|j: int| 0 <= j < n ==> (#[trigger] checks[j]) is Ok
}

/// Index `i` holds the first failed check.
pub open spec fn first_failed_check(checks: Seq<Result<(), String>>, i: int) -> bool {
    &&& 0 <= i < checks.len()
    &&& checks[i] is Err
    &&& checks_pass_before(checks, i)
}

/// The outcome of validating a profile of `count` bands whose per-band range
/// checks came out as `checks` (band `i`'s check is `checks[i]`): too many
/// bands first, then the first band that failed, else success.
pub open spec fn profile_validation(count: nat, checks: Seq<Result<(), String>>) -> Result<
    (),
    ProfileError,
> {
    if count > MAX_BANDS {
        Err(ProfileError::TooManyBands { count: count as usize })
    } else if exists|i: int| first_failed_check(checks, i) {
        let i = choose|i: int| first_failed_check(checks, i);
        match checks[i] {
            Err(reason) => Err(ProfileError::InvalidBand { index: i as usize, reason }),
            Ok(_) => Ok(()),
        }
    } else {
        Ok(())
    }
}

/// When band `i`'s check failed, some band's check is the first that
/// failed.
proof fn lemma_first_failure_exists(checks: Seq<Result<(), String>>, i: int)
    requires
        0 <= i < checks.len(),
        checks[i] is Err,
    ensures
        exists|k: int| first_failed_check(checks, k),
    decreases i,
{
    if checks_pass_before(checks, i) {
        assert(first_failed_check(checks, i));
    } else {
        let j = choose|j: int| 0 <= j < i && !(checks[j] is Ok);
        lemma_first_failure_exists(checks, j);
    }
}

/// Validation looks at every band: a profile of at most `MAX_BANDS` bands
/// passes exactly when every band's check passed, and otherwise fails on
/// the lowest-numbered band whose check failed, with that check's reason.
/// More than `MAX_BANDS` bands fail on the count.
pub proof fn lemma_validation_checks_every_band(count: nat, checks: Seq<Result<(), String>>)
    requires
        checks.len() == count,
    ensures
        count > MAX_BANDS ==> profile_validation(count, checks) == Err::<(), ProfileError>(
            ProfileError::TooManyBands { count: count as usize },
        ),
        count <= MAX_BANDS ==> (profile_validation(count, checks) is Ok <==> forall|i: int|
            0 <= i < checks.len() ==> (#[trigger] checks[i]) is Ok),
        count <= MAX_BANDS ==> forall|i: int|
            0 <= i < checks.len() && (forall|j: int| 0 <= j < i ==> (#[trigger] checks[j]) is Ok) ==> (
            #[trigger] checks[i] matches Err(reason) ==> profile_validation(count, checks) == Err::<
                (),
                ProfileError,
            >(ProfileError::InvalidBand { index: i as usize, reason })),
{
    if count <= MAX_BANDS {
        assert forall|i: int|
            0 <= i < checks.len() && (forall|j: int| 0 <= j < i ==> (#[trigger] checks[j]) is Ok)
                implies (#[trigger] checks[i] matches Err(reason) ==> profile_validation(count, checks)
            == Err::<(), ProfileError>(ProfileError::InvalidBand { index: i as usize, reason })) by {
            if checks[i] is Err {
                assert(first_failed_check(checks, i));
                let k = choose|k: int| first_failed_check(checks, k);
                if k < i {
                    assert(checks[k] is Ok);
                }
                if k > i {
                    assert(checks[i] is Ok);
                }
            }
        }
        if forall|i: int| 0 <= i < checks.len() ==> (#[trigger] checks[i]) is Ok {
            assert forall|k: int| !first_failed_check(checks, k) by {
                if 0 <= k < checks.len() {
                    assert(checks[k] is Ok);
                }
            }
        } else {
            let i = choose|i: int| 0 <= i < checks.len() && !(checks[i] is Ok);
            lemma_first_failure_exists(checks, i);
        }
    }
}

impl<N> Profile<N> {
    /// A flat (zero-band) profile: passes audio through unchanged.
    pub fn new(name: &str) -> (p: Self)
        ensures
            p.name@ == name@,
            p.bands@.len() == 0,
            p.crossfeed == default_crossfeed(),
    {
        Profile { name: name.to_owned(), bands: Vec::new(), crossfeed: CrossfeedConfig::default() }
    }

    /// A profile holding the given bands, with crossfeed off.
    pub fn with_bands(name: &str, bands: Vec<BandConfig<N>>) -> (p: Self)
        ensures
            p.name@ == name@,
            p.bands@ == bands@,
            p.crossfeed == default_crossfeed(),
    {
        Profile { name: name.to_owned(), bands, crossfeed: CrossfeedConfig::default() }
    }

    /// Checks that the profile is safe to load into the DSP engine: at most
    /// `MAX_BANDS` bands, and every band within its ranges. `band_checks[i]`
    /// is the outcome of the range check of band `i` (frequency, gain and Q
    /// are floating point and are checked by the engine).
    pub fn validate(&self, band_checks: &Vec<Result<(), String>>) -> (r: Result<(), ProfileError>)
        requires
            band_checks@.len() == self.bands@.len(),
        ensures
            r == profile_validation(self.bands@.len(), band_checks@),
            r is Ok <==> self.bands@.len() <= MAX_BANDS && forall|i: int|
                0 <= i < band_checks@.len() ==> (#[trigger] band_checks@[i]) is Ok,
    {
        proof {
            lemma_validation_checks_every_band(self.bands@.len(), band_checks@);
        }
        if self.bands.len() > MAX_BANDS {
            return Err(ProfileError::TooManyBands { count: self.bands.len() });
        }
        let mut i: usize = 0;
        while i < band_checks.len()
            invariant
                i <= band_checks@.len(),
                band_checks@.len() == self.bands@.len(),
                self.bands@.len() <= MAX_BANDS,
                checks_pass_before(band_checks@, i as int),
            decreases band_checks@.len() - i,
        {
            match &band_checks[i] {
                Ok(_) => {},
                Err(reason) => {
                    proof {
                        assert(first_failed_check(band_checks@, i as int));
                        let k = choose|k: int| first_failed_check(band_checks@, k);
                        if k < i {
                            assert(band_checks@[k] is Ok);
                        }
                        if k > i {
                            assert(band_checks@[i as int] is Ok);
                        }
                        assert(k == i);
                    }
                    let reason_copy = reason.clone();
                    assert(band_checks@[i as int] == Err::<(), String>(reason_copy));
                    return Err(ProfileError::InvalidBand { index: i, reason: reason_copy });
                },
            }
            i = i + 1;
        }
        proof {
            assert forall|k: int| !first_failed_check(band_checks@, k) by {
                if 0 <= k < band_checks@.len() {
                    assert(band_checks@[k] is Ok);
                }
            }
        }
        Ok(())
    }
}

/// All profiles, the per-application routing table, whether automatic
/// switching is on for each application, and each application's session
/// volume. `N` is the engine's number type, of band parameters and volumes.
///
/// Invariants kept by every operation (see `wf`): the default profile
/// exists, every app assignment names an existing profile, and keys are
/// unique.
pub struct ProfileStore<N> {
    profiles: Vec<(String, Profile<N>)>,
    app_assignments: Vec<(String, String)>,
    default_profile_name: String,
    app_enabled: Vec<(String, bool)>,
    app_volumes: Vec<(String, N)>,
}

impl<N> ProfileStore<N> {
    /// Profiles by name.
    pub closed spec fn profile_map(&self) -> Map<Seq<char>, Profile<N>> {
        assoc_map(self.profiles@)
    }

    /// Application executable name → assigned profile name.
    pub closed spec fn assignments(&self) -> Map<Seq<char>, Seq<char>> {
        string_map(self.app_assignments@)
    }

    /// The profile used by applications without an assignment.
    pub closed spec fn default_name(&self) -> Seq<char> {
        self.default_profile_name@
    }

    /// Application executable name → whether automatic profile switching
    /// is on for it, for the applications where it was set.
    pub closed spec fn enabled_flags(&self) -> Map<Seq<char>, bool> {
        assoc_map(self.app_enabled@)
    }

    /// Application executable name → its session volume, for the
    /// applications whose volume was set.
    pub closed spec fn volumes(&self) -> Map<Seq<char>, N> {
        assoc_map(self.app_volumes@)
    }

    /// Whether automatic profile switching is on for `app`: on unless it
    /// was turned off.
    pub open spec fn app_enabled(&self, app: Seq<char>) -> bool {
        !self.enabled_flags().contains_key(app) || self.enabled_flags()[app]
    }

    /// The store's invariants.
    pub closed spec fn wf(&self) -> bool {
        &&& keys_distinct(self.profiles@)
        &&& keys_distinct(self.app_assignments@)
        &&& keys_distinct(self.app_enabled@)
        &&& keys_distinct(self.app_volumes@)
        &&& self.profile_map().contains_key(self.default_name())
        &&& forall|app: Seq<char>| #[trigger]
            self.assignments().contains_key(app) ==> self.profile_map().contains_key(
                self.assignments()[app],
            )
    }

    /// The name of the profile that `app` resolves to: its assignment when
    /// that names a profile, else the default.
    pub open spec fn routed_name(&self, app: Seq<char>) -> Seq<char> {
        if self.assignments().contains_key(app) && self.profile_map().contains_key(
            self.assignments()[app],
        ) {
            self.assignments()[app]
        } else {
            self.default_name()
        }
    }

    /// The store's invariants, stated over its model: the default profile is
    /// present, every assignment names a present profile, and the store
    /// holds finitely many profiles.
    pub proof fn lemma_invariants(&self)
        requires
            self.wf(),
        ensures
            self.profile_map().contains_key(self.default_name()),
            forall|app: Seq<char>| #[trigger]
                self.assignments().contains_key(app) ==> self.profile_map().contains_key(
                    self.assignments()[app],
                ),
            self.profile_map().dom().finite(),
            self.profile_map().contains_key(self.routed_name(self.default_name())),
    {
        lemma_assoc_len(self.profiles@);
    }

    /// A store holding only the flat "Default" profile, which is also the
    /// default; no app is assigned.
    pub fn new() -> (s: Self)
        ensures
            s.wf(),
            s.profile_map().dom() == set![DEFAULT_PROFILE_NAME@],
            s.profile_map()[DEFAULT_PROFILE_NAME@].name@ == DEFAULT_PROFILE_NAME@,
            s.profile_map()[DEFAULT_PROFILE_NAME@].bands@.len() == 0,
            s.profile_map()[DEFAULT_PROFILE_NAME@].crossfeed == default_crossfeed(),
            s.assignments().dom() == Set::<Seq<char>>::empty(),
            s.default_name() == DEFAULT_PROFILE_NAME@,
            s.enabled_flags().dom() == Set::<Seq<char>>::empty(),
            s.volumes().dom() == Set::<Seq<char>>::empty(),
    {
        let default = Profile::new(DEFAULT_PROFILE_NAME);
        let mut profiles: Vec<(String, Profile<N>)> = Vec::new();
        let entry = (DEFAULT_PROFILE_NAME.to_owned(), default);
        proof {
            lemma_assoc_push(profiles@, entry);
        }
        profiles.push(entry);
        let s = ProfileStore {
            profiles,
            app_assignments: Vec::new(),
            default_profile_name: DEFAULT_PROFILE_NAME.to_owned(),
            app_enabled: Vec::new(),
            app_volumes: Vec::new(),
        };
        proof {
            assert(s.profile_map().dom() =~= set![DEFAULT_PROFILE_NAME@]);
            assert(s.assignments().dom() =~= Set::<Seq<char>>::empty());
            assert(s.enabled_flags().dom() =~= Set::<Seq<char>>::empty());
            assert(s.volumes().dom() =~= Set::<Seq<char>>::empty());
        }
        s
    }
}


impl<N> ProfileStore<N> {
    /// Adds a profile under its name. Fails with `AlreadyExists` when the
    /// name is taken (names are case-sensitive), else with the validation
    /// error of the profile (see `Profile::validate`; `band_checks[i]` is the
    /// range check of band `i`); the store is unchanged on failure.
    pub fn add_profile(&mut self, profile: Profile<N>, band_checks: &Vec<Result<(), String>>) -> (r:
        Result<(), ProfileError>)
        requires
            old(self).wf(),
            band_checks@.len() == profile.bands@.len(),
        ensures
            final(self).wf(),
            old(self).profile_map().contains_key(profile.name@) ==> (r matches Err(
                ProfileError::AlreadyExists(n)) && n@ == profile.name@) && *final(self) == *old(self),
            !old(self).profile_map().contains_key(profile.name@) && profile_validation(
                profile.bands@.len(),
                band_checks@,
            ) is Err ==> r == profile_validation(profile.bands@.len(), band_checks@) && *final(self)
                == *old(self),
            !old(self).profile_map().contains_key(profile.name@) && profile_validation(
                profile.bands@.len(),
                band_checks@,
            ) is Ok ==> r is Ok && final(self).profile_map() == old(self).profile_map().insert(
                profile.name@,
                profile,
            ) && final(self).assignments() == old(self).assignments() && final(self).default_name()
                == old(self).default_name() && final(self).enabled_flags() == old(self).enabled_flags()
                && final(self).volumes() == old(self).volumes(),
    {
        if let Some(_) = find_key(&self.profiles, &profile.name) {
            proof {
                let i = choose|i: int|
                    0 <= i < self.profiles@.len() && self.profiles@[i].0@ == profile.name@;
                assert(has_key(self.profiles@, profile.name@));
            }
            return Err(ProfileError::AlreadyExists(profile.name.clone()));
        }
        if let Err(e) = profile.validate(band_checks) {
            return Err(e);
        }
        let entry = (profile.name.clone(), profile);
        proof {
            lemma_assoc_push(self.profiles@, entry);
        }
        let ghost old_self = *self;
        self.profiles.push(entry);
        proof {
            assert forall|app: Seq<char>| #[trigger]
                self.assignments().contains_key(app) implies self.profile_map().contains_key(
                self.assignments()[app],
            ) by {
                assert(old_self.assignments().contains_key(app));
                assert(old_self.profile_map().contains_key(old_self.assignments()[app]));
            }
        }
        Ok(())
    }

    /// Removes the named profile and returns it; apps assigned to it fall
    /// back to the default. Fails with `CannotRemoveDefault` for the current
    /// default profile and with `NotFound` for an unknown name, leaving the
    /// store unchanged.
    pub fn remove_profile(&mut self, name: &str) -> (r: Result<Profile<N>, ProfileError>)
        requires
            old(self).wf(),
        ensures
            final(self).wf(),
            name@ == old(self).default_name() ==> r == Err::<Profile<N>, ProfileError>(
                ProfileError::CannotRemoveDefault,
            ) && *final(self) == *old(self),
            name@ != old(self).default_name() && !old(self).profile_map().contains_key(name@) ==> (r
                matches Err(ProfileError::NotFound(n)) && n@ == name@) && *final(self) == *old(self),
            name@ != old(self).default_name() && old(self).profile_map().contains_key(name@) ==> r
                == Ok::<Profile<N>, ProfileError>(old(self).profile_map()[name@])
                && final(self).profile_map() == old(self).profile_map().remove(name@)
                && final(self).assignments() == without_value(old(self).assignments(), name@)
                && final(self).default_name() == old(self).default_name()
                && final(self).enabled_flags() == old(self).enabled_flags()
                && final(self).volumes() == old(self).volumes(),
    {
        let key = name.to_owned();
        if key == self.default_profile_name {
            return Err(ProfileError::CannotRemoveDefault);
        }
        match find_key(&self.profiles, &key) {
            None => Err(ProfileError::NotFound(key)),
            Some(i) => {
                proof {
                    lemma_assoc_lookup(self.profiles@, i as int);
                    lemma_assoc_remove(self.profiles@, i as int);
                }
                let ghost old_assign = self.assignments();
                let (_, profile) = self.profiles.remove(i);
                let kept = retain_value_ne(&self.app_assignments, &key);
                self.app_assignments = kept;
                proof {
                    assert forall|app: Seq<char>| #[trigger]
                        self.assignments().contains_key(app) implies self.profile_map().contains_key(
                        self.assignments()[app],
                    ) by {
                        assert(old_assign.contains_key(app));
                    }
                }
                Ok(profile)
            },
        }
    }

    /// The named profile, or `None`.
    pub fn get_profile(&self, name: &str) -> (r: Option<&Profile<N>>)
        requires
            self.wf(),
        ensures
            match r {
                Some(p) => self.profile_map().contains_key(name@) && *p == self.profile_map()[name@],
                None => !self.profile_map().contains_key(name@),
            },
    {
        let key = name.to_owned();
        match find_key(&self.profiles, &key) {
            Some(i) => {
                proof {
                    lemma_assoc_lookup(self.profiles@, i as int);
                }
                Some(&self.profiles[i].1)
            },
            None => None,
        }
    }

    /// Mutable access to the named profile, or `None`. The profile's key in
    /// the store stays its name at lookup time.
    pub fn get_profile_mut(&mut self, name: &str) -> (r: Option<&mut Profile<N>>)
        requires
            old(self).wf(),
        ensures
            final(self).wf(),
            final(self).assignments() == old(self).assignments(),
            final(self).default_name() == old(self).default_name(),
            final(self).enabled_flags() == old(self).enabled_flags(),
            final(self).volumes() == old(self).volumes(),
            match r {
                Some(p) => old(self).profile_map().contains_key(name@) && *p == old(
                    self,
                ).profile_map()[name@] && final(self).profile_map() == old(self).profile_map().insert(
                    name@,
                    *final(p),
                ),
                None => !old(self).profile_map().contains_key(name@) && *final(self) == *old(self),
            },
    {
        let key = name.to_owned();
        match find_key(&self.profiles, &key) {
            Some(i) => {
                proof {
                    lemma_assoc_lookup(self.profiles@, i as int);
                }
                let ghost old_profiles = self.profiles@;
                let ghost old_self = *self;
                proof {
                    assert forall|x: (String, Profile<N>)| x.0@ == old_profiles[i as int].0@ implies
                        keys_distinct(#[trigger] old_profiles.update(i as int, x)) && assoc_map(
                        old_profiles.update(i as int, x),
                    ) == assoc_map(old_profiles).insert(x.0@, x.1) && assoc_map(
                        old_profiles.update(i as int, x),
                    ).dom() == assoc_map(old_profiles).dom() by {
                        lemma_assoc_update(old_profiles, i as int, x);
                        assert(assoc_map(old_profiles.update(i as int, x)).dom() =~= assoc_map(
                            old_profiles,
                        ).dom());
                    }
                    assert forall|app: Seq<char>| #[trigger]
                        old_self.assignments().contains_key(app) implies old_self.profile_map().contains_key(
                        old_self.assignments()[app],
                    ) by {}
                }
                proof {
                    assert forall|b: ProfileStore<N>|
                        keys_distinct(b.profiles@) && b.app_assignments == old_self.app_assignments
                            && b.app_enabled == old_self.app_enabled
                            && b.app_volumes == old_self.app_volumes
                            && b.default_profile_name == old_self.default_profile_name
                            && b.profile_map().dom() == old_self.profile_map().dom() implies #[trigger] b.wf() by {
                        assert forall|app: Seq<char>| #[trigger]
                            b.assignments().contains_key(app) implies b.profile_map().contains_key(
                            b.assignments()[app],
                        ) by {
                            assert(old_self.assignments().contains_key(app));
                        }
                    }
                }
                let entry = &mut self.profiles[i];
                Some(&mut entry.1)
            },
            None => None,
        }
    }

    /// The names of all profiles, each once, in unspecified order.
    pub fn profile_names(&self) -> (r: Vec<&str>)
        requires
            self.wf(),
        ensures
            r@.len() == self.profile_map().dom().len(),
            forall|i: int| 0 <= i < r@.len() ==> self.profile_map().contains_key(#[trigger] r@[i]@),
            forall|k: Seq<char>| #[trigger]
                self.profile_map().contains_key(k) ==> exists|i: int| 0 <= i < r@.len() && r@[i]@ == k,
            forall|i: int, j: int| 0 <= i < r@.len() && 0 <= j < r@.len() && i != j ==> r@[i]@ != r@[j]@,
    {
        let mut names: Vec<&str> = Vec::new();
        let mut i: usize = 0;
        while i < self.profiles.len()
            invariant
                i <= self.profiles@.len(),
                names@.len() == i,
                forall|t: int| 0 <= t < i ==> (#[trigger] names@[t])@ == self.profiles@[t].0@,
            decreases self.profiles@.len() - i,
        {
            names.push(self.profiles[i].0.as_str());
            i = i + 1;
        }
        proof {
            lemma_assoc_len(self.profiles@);
            assert forall|t: int| 0 <= t < names@.len() implies self.profile_map().contains_key(
                #[trigger] names@[t]@,
            ) by {
                lemma_assoc_lookup(self.profiles@, t);
            }
            assert forall|k: Seq<char>| #[trigger]
                self.profile_map().contains_key(k) implies exists|t: int|
                0 <= t < names@.len() && names@[t]@ == k by {
                let t = crate::assoc::key_index(self.profiles@, k);
                assert(names@[t]@ == k);
            }
        }
        names
    }

    /// The number of profiles in the store.
    pub fn profile_count(&self) -> (r: usize)
        requires
            self.wf(),
        ensures
            r == self.profile_map().dom().len(),
    {
        proof {
            lemma_assoc_len(self.profiles@);
        }
        self.profiles.len()
    }

    /// The name of the current default profile.
    pub fn default_profile_name(&self) -> (r: &str)
        ensures
            r@ == self.default_name(),
    {
        self.default_profile_name.as_str()
    }

    /// Makes the named profile the fallback for unassigned apps; fails with
    /// `DefaultNotFound`, leaving the store unchanged, when it does not exist.
    pub fn set_default_profile(&mut self, name: &str) -> (r: Result<(), ProfileError>)
        requires
            old(self).wf(),
        ensures
            final(self).wf(),
            old(self).profile_map().contains_key(name@) ==> r is Ok && final(self).default_name()
                == name@ && final(self).profile_map() == old(self).profile_map()
                && final(self).assignments() == old(self).assignments()
                && final(self).enabled_flags() == old(self).enabled_flags()
                && final(self).volumes() == old(self).volumes(),
            !old(self).profile_map().contains_key(name@) ==> (r matches Err(
                ProfileError::DefaultNotFound(n)) && n@ == name@) && *final(self) == *old(self),
    {
        let key = name.to_owned();
        match find_key(&self.profiles, &key) {
            Some(i) => {
                proof {
                    lemma_assoc_lookup(self.profiles@, i as int);
                }
                let ghost old_self = *self;
                self.default_profile_name = key;
                proof {
                    assert(self.profile_map() == old_self.profile_map());
                    assert(self.assignments() == old_self.assignments());
                    assert forall|app: Seq<char>| #[trigger]
                        self.assignments().contains_key(app) implies self.profile_map().contains_key(
                        self.assignments()[app],
                    ) by {
                        assert(old_self.assignments().contains_key(app));
                    }
                }
                Ok(())
            },
            None => Err(ProfileError::DefaultNotFound(key)),
        }
    }

    /// The profile to apply to `app_exe`: its assigned profile if it has
    /// one, else the default profile.
    pub fn profile_for_app(&self, app_exe: &str) -> (r: &Profile<N>)
        requires
            self.wf(),
        ensures
            self.profile_map().contains_key(self.routed_name(app_exe@)),
            *r == self.profile_map()[self.routed_name(app_exe@)],
    {
        let app = app_exe.to_owned();
        if let Some(a) = find_key(&self.app_assignments, &app) {
            proof {
                lemma_assoc_lookup(self.app_assignments@, a as int);
            }
            if let Some(i) = find_key(&self.profiles, &self.app_assignments[a].1) {
                proof {
                    lemma_assoc_lookup(self.profiles@, i as int);
                }
                return &self.profiles[i].1;
            }
        }
        let d = find_key(&self.profiles, &self.default_profile_name);
        proof {
            if d is None {
                let j = crate::assoc::key_index(self.profiles@, self.default_name());
                assert(has_key(self.profiles@, self.default_profile_name@));
            }
        }
        let i = d.unwrap();
        proof {
            lemma_assoc_lookup(self.profiles@, i as int);
        }
        &self.profiles[i].1
    }

    /// Assigns `app_exe` to the named profile, replacing any earlier
    /// assignment; fails with `NotFound`, leaving the store unchanged, when
    /// the profile does not exist.
    pub fn assign_app(&mut self, app_exe: &str, profile_name: &str) -> (r: Result<(), ProfileError>)
        requires
            old(self).wf(),
        ensures
            final(self).wf(),
            old(self).profile_map().contains_key(profile_name@) ==> r is Ok
                && final(self).assignments() == old(self).assignments().insert(
                app_exe@,
                profile_name@,
            ) && final(self).profile_map() == old(self).profile_map() && final(self).default_name()
                == old(self).default_name() && final(self).enabled_flags() == old(self).enabled_flags()
                && final(self).volumes() == old(self).volumes(),
            !old(self).profile_map().contains_key(profile_name@) ==> (r matches Err(
                ProfileError::NotFound(n)) && n@ == profile_name@) && *final(self) == *old(self),
    {
        let target = profile_name.to_owned();
        if find_key(&self.profiles, &target).is_none() {
            return Err(ProfileError::NotFound(target));
        }
        let app = app_exe.to_owned();
        let ghost old_assign = self.assignments();
        let entry = (app.clone(), target);
        match find_key(&self.app_assignments, &app) {
            Some(a) => {
                proof {
                    lemma_assoc_update(self.app_assignments@, a as int, entry);
                }
                self.app_assignments.set(a, entry);
            },
            None => {
                proof {
                    lemma_assoc_push(self.app_assignments@, entry);
                }
                self.app_assignments.push(entry);
            },
        }
        proof {
            assert(self.assignments() =~= old_assign.insert(app_exe@, profile_name@));
        }
        Ok(())
    }

    /// Removes the assignment of `app_exe`, which then uses the default
    /// profile. No-op when it had none.
    pub fn unassign_app(&mut self, app_exe: &str)
        requires
            old(self).wf(),
        ensures
            final(self).wf(),
            final(self).assignments() == old(self).assignments().remove(app_exe@),
            final(self).profile_map() == old(self).profile_map(),
            final(self).default_name() == old(self).default_name(),
            final(self).enabled_flags() == old(self).enabled_flags(),
            final(self).volumes() == old(self).volumes().remove(app_exe@),
    {
        let app = app_exe.to_owned();
        let ghost old_assign = self.assignments();
        if let Some(a) = find_key(&self.app_assignments, &app) {
            proof {
                lemma_assoc_lookup(self.app_assignments@, a as int);
                lemma_assoc_remove(self.app_assignments@, a as int);
            }
            self.app_assignments.remove(a);
            proof {
                assert(self.assignments() =~= old_assign.remove(app_exe@));
            }
        } else {
            proof {
                assert(self.assignments() =~= old_assign.remove(app_exe@));
            }
        }
        let ghost old_volumes = self.volumes();
        if let Some(v) = find_key(&self.app_volumes, &app) {
            proof {
                lemma_assoc_lookup(self.app_volumes@, v as int);
                lemma_assoc_remove(self.app_volumes@, v as int);
            }
            self.app_volumes.remove(v);
        }
        proof {
            assert(self.volumes() =~= old_volumes.remove(app_exe@));
            assert forall|a: Seq<char>| #[trigger]
                self.assignments().contains_key(a) implies self.profile_map().contains_key(
                self.assignments()[a],
            ) by {
                assert(old(self).assignments().contains_key(a));
            }
        }
    }

    /// Renames profile `old_name` to `new_name` with surrounding white space
    /// removed. Every app assigned to it follows, and so does the default
    /// when it was the default. Fails, leaving the store unchanged, with
    /// `NotFound` for an unknown profile, `EmptyName` for a blank new name
    /// and `AlreadyExists` when another profile has the new name.
    pub fn rename_profile(&mut self, old_name: &str, new_name: &str) -> (r: Result<(), ProfileError>)
        requires
            old(self).wf(),
        ensures
            final(self).wf(),
            !old(self).profile_map().contains_key(old_name@) ==> (r matches Err(
                ProfileError::NotFound(n)) && n@ == old_name@) && *final(self) == *old(self),
            old(self).profile_map().contains_key(old_name@) && spec_trim(new_name@).len() == 0 ==> r
                == Err::<(), ProfileError>(ProfileError::EmptyName) && *final(self) == *old(self),
            old(self).profile_map().contains_key(old_name@) && spec_trim(new_name@).len() > 0
                && spec_trim(new_name@) != old_name@ && old(self).profile_map().contains_key(
                spec_trim(new_name@),
            ) ==> (r matches Err(ProfileError::AlreadyExists(n)) && n@ == spec_trim(new_name@))
                && *final(self) == *old(self),
            old(self).profile_map().contains_key(old_name@) && spec_trim(new_name@).len() > 0 && (
            spec_trim(new_name@) == old_name@ || !old(self).profile_map().contains_key(
                spec_trim(new_name@),
            )) ==> {
                let t = spec_trim(new_name@);
                let p = old(self).profile_map()[old_name@];
                &&& r is Ok
                &&& final(self).profile_map().contains_key(t)
                &&& final(self).profile_map()[t].name@ == t
                &&& final(self).profile_map()[t].bands == p.bands
                &&& final(self).profile_map()[t].crossfeed == p.crossfeed
                &&& final(self).profile_map().remove(t) == old(self).profile_map().remove(
                    old_name@,
                ).remove(t)
                &&& final(self).assignments() == with_value_renamed(
                    old(self).assignments(),
                    old_name@,
                    t,
                )
                &&& final(self).default_name() == if old(self).default_name() == old_name@ {
                    t
                } else {
                    old(self).default_name()
                }
                &&& final(self).enabled_flags() == old(self).enabled_flags()
                &&& final(self).volumes() == old(self).volumes()
            },
    {
        let key = old_name.to_owned();
        let i = match find_key(&self.profiles, &key) {
            Some(i) => i,
            None => return Err(ProfileError::NotFound(key)),
        };
        proof {
            lemma_assoc_lookup(self.profiles@, i as int);
        }
        let t = trim_to_string(new_name);
        if t.as_str().is_empty() {
            return Err(ProfileError::EmptyName);
        }
        if let Some(j) = find_key(&self.profiles, &t) {
            if j != i {
                proof {
                    lemma_assoc_lookup(self.profiles@, j as int);
                }
                return Err(ProfileError::AlreadyExists(t));
            }
        }
        let ghost old_self = *self;
        let ghost old_profiles = self.profiles@;
        proof {
            lemma_assoc_remove(old_profiles, i as int);
            let rest = old_profiles.remove(i as int);
            if has_key(rest, t@) {
                let k = key_index(rest, t@);
                let k2 = if k < i { k } else { k + 1 };
                assert(rest[k] == old_profiles[k2]);
                lemma_assoc_lookup(old_profiles, k2);
            }
        }
        let (_, mut profile) = self.profiles.remove(i);
        profile.name = t.clone();
        let entry = (t.clone(), profile);
        proof {
            lemma_assoc_push(self.profiles@, entry);
        }
        self.profiles.push(entry);
        let renamed = rename_value(&self.app_assignments, &key, &t);
        self.app_assignments = renamed;
        if self.default_profile_name == key {
            self.default_profile_name = t.clone();
        }
        proof {
            assert(self.profile_map().remove(t@) =~= old_self.profile_map().remove(old_name@).remove(
                t@,
            ));
            assert forall|a: Seq<char>| #[trigger]
                self.assignments().contains_key(a) implies self.profile_map().contains_key(
                self.assignments()[a],
            ) by {
                assert(old_self.assignments().contains_key(a));
                assert(old_self.profile_map().contains_key(old_self.assignments()[a]));
            }
        }
        Ok(())
    }

    /// The session volumes that were set: each entry is an application
    /// executable name and its volume; names are unique.
    pub fn app_volume_entries(&self) -> (r: &Vec<(String, N)>)
        requires
            self.wf(),
        ensures
            assoc_map(r@) == self.volumes(),
            keys_distinct(r@),
    {
        &self.app_volumes
    }

    /// Sets the session volume of `app_exe`, kept with its assignment.
    pub fn set_app_volume(&mut self, app_exe: &str, volume: N)
        requires
            old(self).wf(),
        ensures
            final(self).wf(),
            final(self).volumes() == old(self).volumes().insert(app_exe@, volume),
            final(self).profile_map() == old(self).profile_map(),
            final(self).assignments() == old(self).assignments(),
            final(self).default_name() == old(self).default_name(),
            final(self).enabled_flags() == old(self).enabled_flags(),
    {
        let app = app_exe.to_owned();
        let ghost old_volumes = self.volumes();
        match find_key(&self.app_volumes, &app) {
            Some(a) => {
                let entry = (app, volume);
                proof {
                    lemma_assoc_update(self.app_volumes@, a as int, entry);
                }
                self.app_volumes.set(a, entry);
            },
            None => {
                let entry = (app, volume);
                proof {
                    lemma_assoc_push(self.app_volumes@, entry);
                }
                self.app_volumes.push(entry);
            },
        }
        proof {
            assert(self.volumes() =~= old_volumes.insert(app_exe@, volume));
            assert forall|a: Seq<char>| #[trigger]
                self.assignments().contains_key(a) implies self.profile_map().contains_key(
                self.assignments()[a],
            ) by {
                assert(old(self).assignments().contains_key(a));
            }
        }
    }

    /// The routing table: each entry is an application executable name and
    /// the profile it is assigned to; names are unique.
    pub fn app_assignments(&self) -> (r: &Vec<(String, String)>)
        requires
            self.wf(),
        ensures
            string_map(r@) == self.assignments(),
            keys_distinct(r@),
    {
        &self.app_assignments
    }

    /// Turns automatic profile switching on or off for `app_exe`. Its
    /// assignment, if any, is kept either way.
    pub fn set_app_enabled(&mut self, app_exe: &str, enabled: bool)
        requires
            old(self).wf(),
        ensures
            final(self).wf(),
            final(self).enabled_flags() == old(self).enabled_flags().insert(app_exe@, enabled),
            final(self).volumes() == old(self).volumes(),
            final(self).profile_map() == old(self).profile_map(),
            final(self).assignments() == old(self).assignments(),
            final(self).default_name() == old(self).default_name(),
    {
        let app = app_exe.to_owned();
        let ghost old_flags = self.enabled_flags();
        let entry = (app.clone(), enabled);
        match find_key(&self.app_enabled, &app) {
            Some(a) => {
                proof {
                    lemma_assoc_update(self.app_enabled@, a as int, entry);
                }
                self.app_enabled.set(a, entry);
            },
            None => {
                proof {
                    lemma_assoc_push(self.app_enabled@, entry);
                }
                self.app_enabled.push(entry);
            },
        }
        proof {
            assert(self.enabled_flags() =~= old_flags.insert(app_exe@, enabled));
            assert forall|app: Seq<char>| #[trigger]
                self.assignments().contains_key(app) implies self.profile_map().contains_key(
                self.assignments()[app],
            ) by {
                assert(old(self).assignments().contains_key(app));
            }
        }
    }

    /// The per-application switching flags that were set: each entry is an
    /// application executable name and whether switching is on for it;
    /// names are unique.
    pub fn app_enabled_flags(&self) -> (r: &Vec<(String, bool)>)
        requires
            self.wf(),
        ensures
            assoc_map(r@) == self.enabled_flags(),
            keys_distinct(r@),
    {
        &self.app_enabled
    }

    /// Whether automatic profile switching is on for `app_exe` (it is
    /// unless it was turned off).
    pub fn is_app_enabled(&self, app_exe: &str) -> (r: bool)
        requires
            self.wf(),
        ensures
            r == self.app_enabled(app_exe@),
    {
        let app = app_exe.to_owned();
        match find_key(&self.app_enabled, &app) {
            Some(a) => {
                proof {
                    lemma_assoc_lookup(self.app_enabled@, a as int);
                }
                self.app_enabled[a].1
            },
            None => true,
        }
    }
}

impl<N: Copy> ProfileStore<N> {
    /// The session volume of `app_exe`: the one set for it, else `full`.
    pub fn app_volume(&self, app_exe: &str, full: N) -> (r: N)
        requires
            self.wf(),
        ensures
            r == if self.volumes().contains_key(app_exe@) {
                self.volumes()[app_exe@]
            } else {
                full
            },
    {
        let app = app_exe.to_owned();
        match find_key(&self.app_volumes, &app) {
            Some(a) => {
                proof {
                    lemma_assoc_lookup(self.app_volumes@, a as int);
                }
                self.app_volumes[a].1
            },
            None => full,
        }
    }
}

impl<N> Default for ProfileStore<N> {
    fn default() -> (s: Self)
        ensures
            s.wf(),
            s.profile_map().dom() == set![DEFAULT_PROFILE_NAME@],
            s.assignments().dom() == Set::<Seq<char>>::empty(),
            s.default_name() == DEFAULT_PROFILE_NAME@,
            s.enabled_flags().dom() == Set::<Seq<char>>::empty(),
            s.volumes().dom() == Set::<Seq<char>>::empty(),
    {
        Self::new()
    }
}


/// Why importing a profile failed.
#[derive(Debug, Clone, PartialEq)]
pub enum ImportError {
    /// The profile failed validation.
    Invalid(ProfileError),
    /// The profile's name is empty once surrounding white space is removed.
    EmptyName,
}

/// The name tried for the `n`-th copy of an imported profile called `base`:
/// `base (n)`.
pub open spec fn import_candidate(base: Seq<char>, n: nat) -> Seq<char> {
    base + seq![' ', '('] + spec_decimal(n) + seq![')']
}

/// `n` is the smallest suffix from 2 on whose candidate name is free.
pub open spec fn first_free_suffix(names: Set<Seq<char>>, base: Seq<char>, n: nat) -> bool {
    &&& n >= 2
    &&& !names.contains(import_candidate(base, n))
    &&& forall|m: nat| 2 <= m < n ==> names.contains(#[trigger] import_candidate(base, m))
}

/// The name an imported profile called `base` is stored under when the
/// store already uses `names`: `base` itself if free, else `base (n)` for
/// the smallest `n >= 2` that is free.
pub open spec fn import_name(names: Set<Seq<char>>, base: Seq<char>) -> Seq<char> {
    if !names.contains(base) {
        base
    } else {
        import_candidate(base, choose|n: nat| first_free_suffix(names, base, n))
    }
}

/// Different suffixes give different candidate names.
pub proof fn lemma_import_candidate_injective(base: Seq<char>, a: nat, b: nat)
    requires
        import_candidate(base, a) == import_candidate(base, b),
    ensures
        a == b,
{
    let ca = import_candidate(base, a);
    let cb = import_candidate(base, b);
    let start = base.len() + 2;
    assert(ca.len() == cb.len());
    assert(ca.subrange(start as int, ca.len() - 1) =~= spec_decimal(a));
    assert(cb.subrange(start as int, cb.len() - 1) =~= spec_decimal(b));
    lemma_decimal_injective(a, b);
}

fn import_candidate_string(base: &String, n: u32) -> (s: String)
    ensures
        s@ == import_candidate(base@, n as nat),
{
    proof {
        reveal_strlit(" (");
        reveal_strlit(")");
    }
    let mut s = base.clone();
    s.append(" (");
    let digits = decimal_string(n);
    s.append(digits.as_str());
    s.append(")");
    assert(s@ =~= import_candidate(base@, n as nat));
    s
}

impl<N> ProfileStore<N> {
    /// The name under which a profile called `base` would be imported:
    /// `base` if no profile has it, else `base (2)`, `base (3)`, ... — the
    /// first that is free.
    pub fn resolve_import_name(&self, base: &String) -> (r: String)
        requires
            self.wf(),
            self.profile_map().dom().len() + 2 <= u32::MAX,
        ensures
            r@ == import_name(self.profile_map().dom(), base@),
            !self.profile_map().contains_key(r@),
    {
        if find_key(&self.profiles, base).is_none() {
            return base.clone();
        }
        proof {
            lemma_assoc_len(self.profiles@);
        }
        let ghost dom = self.profile_map().dom();
        let mut n: u32 = 2;
        let ghost mut tried: Set<Seq<char>> = Set::empty();
        loop
            invariant
                self.wf(),
                dom == self.profile_map().dom(),
                dom.finite(),
                dom.len() + 2 <= u32::MAX,
                dom.contains(base@),
                2 <= n,
                tried.finite(),
                tried.len() == n - 2,
                tried.subset_of(dom),
                forall|m: nat| 2 <= m < n ==> dom.contains(#[trigger] import_candidate(base@, m)),
                forall|t: Seq<char>|
                    tried.contains(t) ==> exists|m: nat|
                        2 <= m < n && t == #[trigger] import_candidate(base@, m),
            decreases dom.len() + 2 - n,
        {
            proof {
                vstd::set_lib::lemma_len_subset(tried, dom);
            }
            let candidate = import_candidate_string(base, n);
            if find_key(&self.profiles, &candidate).is_none() {
                proof {
                    assert(first_free_suffix(dom, base@, n as nat));
                    let k = choose|k: nat| first_free_suffix(dom, base@, k);
                    if k < n {
                        assert(dom.contains(import_candidate(base@, k)));
                    }
                    if k > n {
                        assert(dom.contains(import_candidate(base@, n as nat)));
                    }
                }
                return candidate;
            }
            proof {
                let c = import_candidate(base@, n as nat);
                let i = crate::assoc::key_index(self.profiles@, c);
                lemma_assoc_lookup(self.profiles@, i);
                assert(dom.contains(c));
                if tried.contains(c) {
                    let m = choose|m: nat| 2 <= m < n && c == #[trigger] import_candidate(base@, m);
                    lemma_import_candidate_injective(base@, m, n as nat);
                }
                tried = tried.insert(c);
                vstd::set_lib::lemma_len_subset(tried, dom);
                assert forall|t: Seq<char>| tried.contains(t) implies exists|m: nat|
                    2 <= m < n + 1 && t == #[trigger] import_candidate(base@, m) by {
                    if t == c {
                        assert(t == import_candidate(base@, n as nat));
                    } else {
                        let m = choose|m: nat| 2 <= m < n && t == #[trigger] import_candidate(base@, m);
                        assert(2 <= m < n + 1);
                    }
                }
            }
            n = n + 1;
        }
    }

    /// Imports a profile (as read from an exported file): it must pass
    /// validation (`band_checks[i]` is the range check of band `i`) and have
    /// a name that is not blank once trimmed; it is stored under that
    /// trimmed name, or with the first free numeric suffix ` (2)`, ` (3)`,
    /// ... when the name is taken. Returns the name it was stored under.
    pub fn import_profile(&mut self, profile: Profile<N>, band_checks: &Vec<Result<(), String>>) -> (r:
        Result<String, ImportError>)
        requires
            old(self).wf(),
            band_checks@.len() == profile.bands@.len(),
            old(self).profile_map().dom().len() + 2 <= u32::MAX,
        ensures
            final(self).wf(),
            profile_validation(profile.bands@.len(), band_checks@) matches Err(e) ==> r == Err::<
                String,
                ImportError,
            >(ImportError::Invalid(e)) && *final(self) == *old(self),
            profile_validation(profile.bands@.len(), band_checks@) is Ok && spec_trim(
                profile.name@,
            ).len() == 0 ==> r == Err::<String, ImportError>(ImportError::EmptyName) && *final(self)
                == *old(self),
            profile_validation(profile.bands@.len(), band_checks@) is Ok && spec_trim(
                profile.name@,
            ).len() > 0 ==> (r matches Ok(name) && name@ == import_name(
                old(self).profile_map().dom(),
                spec_trim(profile.name@),
            ) && final(self).profile_map() == old(self).profile_map().insert(
                name@,
                Profile { name, bands: profile.bands, crossfeed: profile.crossfeed },
            )) && final(self).assignments() == old(self).assignments() && final(self).default_name()
                == old(self).default_name() && final(self).enabled_flags() == old(self).enabled_flags()
                && final(self).volumes() == old(self).volumes(),
    {
        if let Err(e) = profile.validate(band_checks) {
            return Err(ImportError::Invalid(e));
        }
        let base = trim_to_string(profile.name.as_str());
        if base.as_str().is_empty() {
            return Err(ImportError::EmptyName);
        }
        let resolved = self.resolve_import_name(&base);
        let mut stored = profile;
        stored.name = resolved.clone();
        match self.add_profile(stored, band_checks) {
            Ok(()) => Ok(resolved),
            Err(e) => Err(ImportError::Invalid(e)),
        }
    }
}


impl<N> ProfileStore<N> {
    /// Once `assign_app(app, p)` has succeeded, `profile_for_app(app)` is
    /// profile `p`.
    pub proof fn lemma_assigned_app_routes_to_profile(
        before: ProfileStore<N>,
        after: ProfileStore<N>,
        app: Seq<char>,
        p: Seq<char>,
    )
        requires
            before.wf(),
            before.profile_map().contains_key(p),
            after.profile_map() == before.profile_map(),
            after.assignments() == before.assignments().insert(app, p),
            after.default_name() == before.default_name(),
        ensures
            after.routed_name(app) == p,
    {
    }

    /// Once `unassign_app(app)` has run, `profile_for_app(app)` is the
    /// default profile.
    pub proof fn lemma_unassigned_app_routes_to_default(
        before: ProfileStore<N>,
        after: ProfileStore<N>,
        app: Seq<char>,
    )
        requires
            before.wf(),
            after.profile_map() == before.profile_map(),
            after.assignments() == before.assignments().remove(app),
            after.default_name() == before.default_name(),
        ensures
            after.routed_name(app) == before.default_name(),
    {
    }

    /// Once profile `name` has been removed, no application is routed to
    /// it: every application resolves to a profile that is still stored.
    pub proof fn lemma_removed_profile_not_routed(
        before: ProfileStore<N>,
        after: ProfileStore<N>,
        name: Seq<char>,
        app: Seq<char>,
    )
        requires
            before.wf(),
            name != before.default_name(),
            after.profile_map() == before.profile_map().remove(name),
            after.assignments() == without_value(before.assignments(), name),
            after.default_name() == before.default_name(),
        ensures
            after.routed_name(app) != name,
            after.profile_map().contains_key(after.routed_name(app)),
    {
    }

    /// After `set_default_profile(d)` has succeeded, every application
    /// without an assignment resolves to `d`.
    pub proof fn lemma_new_default_is_fallback(
        before: ProfileStore<N>,
        after: ProfileStore<N>,
        d: Seq<char>,
        app: Seq<char>,
    )
        requires
            before.wf(),
            before.profile_map().contains_key(d),
            after.profile_map() == before.profile_map(),
            after.assignments() == before.assignments(),
            after.default_name() == d,
            !before.assignments().contains_key(app),
        ensures
            after.routed_name(app) == d,
    {
    }

    /// Adding a profile under a new name and then removing it gives back
    /// the profiles and the routing table the store had before.
    pub proof fn lemma_add_then_remove_restores(
        s0: ProfileStore<N>,
        s1: ProfileStore<N>,
        s2: ProfileStore<N>,
        p: Profile<N>,
    )
        requires
            s0.wf(),
            !s0.profile_map().contains_key(p.name@),
            s1.profile_map() == s0.profile_map().insert(p.name@, p),
            s1.assignments() == s0.assignments(),
            s1.default_name() == s0.default_name(),
            s2.profile_map() == s1.profile_map().remove(p.name@),
            s2.assignments() == without_value(s1.assignments(), p.name@),
            s2.default_name() == s1.default_name(),
        ensures
            s2.profile_map() == s0.profile_map(),
            s2.assignments() == s0.assignments(),
            s2.default_name() == s0.default_name(),
    {
        assert(s2.profile_map() =~= s0.profile_map());
        assert forall|app: Seq<char>| #[trigger] s0.assignments().contains_key(app) implies s0.assignments()[app]
            != p.name@ by {
            assert(s0.profile_map().contains_key(s0.assignments()[app]));
        }
        assert(s2.assignments() =~= s0.assignments());
    }
}

} // verus!
