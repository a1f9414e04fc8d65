use soundeq::crossfeed::{CrossfeedConfig, CrossfeedLevel};
use soundeq::filter_chain::MAX_BANDS;
use soundeq::filter_type::{BandConfig, FilterType};
use soundeq::profile::{ImportError, Profile, ProfileError, ProfileStore, DEFAULT_PROFILE_NAME};

type Band = BandConfig<f64>;

fn band(filter_type: FilterType, frequency: f64) -> Band {
    BandConfig { filter_type, frequency, gain_db: 0.0, q: 1.4, enabled: true, color: None }
}

fn peak(freq: f64, gain_db: f64) -> Band {
    let mut b = band(FilterType::Peak, freq);
    b.gain_db = gain_db;
    b
}

/// The engine's per-band range check: 20 Hz..20 kHz, -24..24 dB, Q > 0.
fn range_check(b: &Band) -> Result<(), String> {
    if b.frequency < 20.0 || b.frequency > 20_000.0 {
        return Err(format!(
            "Frequency {} Hz is outside the audible range (20–20,000 Hz)",
            b.frequency
        ));
    }
    if b.gain_db < -24.0 || b.gain_db > 24.0 {
        return Err(format!("Gain {:.1} dB is outside the allowed range (-24 to +24 dB)", b.gain_db));
    }
    if b.q <= 0.0 {
        return Err(format!("Q must be positive, got {}", b.q));
    }
    Ok(())
}

fn checks(p: &Profile<f64>) -> Vec<Result<(), String>> {
    p.bands.iter().map(range_check).collect()
}

fn add(store: &mut ProfileStore<f64>, p: Profile<f64>) -> Result<(), ProfileError> {
    let c = checks(&p);
    store.add_profile(p, &c)
}

// --- Profile ---

#[test]
fn flat_profile_passes_validation() {
    let p = Profile::<f64>::new("Test");
    assert!(p.validate(&checks(&p)).is_ok());
}

#[test]
fn profile_with_valid_bands_passes_validation() {
    let p = Profile::with_bands("Test", vec![peak(1000.0, 6.0)]);
    assert!(p.validate(&checks(&p)).is_ok());
}

#[test]
fn profile_with_too_many_bands_fails_validation() {
    let bands = (0..=MAX_BANDS)
        .map(|i| band(FilterType::Peak, 200.0 + i as f64 * 100.0))
        .collect();
    let p = Profile::with_bands("Overloaded", bands);
    assert!(matches!(p.validate(&checks(&p)), Err(ProfileError::TooManyBands { .. })));
}

#[test]
fn profile_with_invalid_band_fails_validation() {
    let mut bad_band = band(FilterType::Peak, 1000.0);
    bad_band.frequency = 5.0;
    let p = Profile::with_bands("Bad", vec![bad_band]);
    assert!(matches!(p.validate(&checks(&p)), Err(ProfileError::InvalidBand { index: 0, .. })));
}

// --- ProfileStore: basic CRUD ---

#[test]
fn new_store_has_default_profile() {
    let store = ProfileStore::<f64>::new();
    assert_eq!(store.profile_count(), 1);
    assert!(store.get_profile(DEFAULT_PROFILE_NAME).is_some());
    assert_eq!(store.default_profile_name(), DEFAULT_PROFILE_NAME);
}

#[test]
fn add_and_retrieve_profile() {
    let mut store = ProfileStore::new();
    let p = Profile::with_bands("Gaming", vec![peak(3000.0, 3.0)]);
    add(&mut store, p.clone()).unwrap();
    let retrieved = store.get_profile("Gaming").unwrap();
    assert_eq!(retrieved.name, "Gaming");
    assert_eq!(retrieved.bands.len(), 1);
}

#[test]
fn add_duplicate_name_returns_error() {
    let mut store = ProfileStore::new();
    let p = Profile::<f64>::new("Gaming");
    add(&mut store, p.clone()).unwrap();
    let result = add(&mut store, p);
    assert!(matches!(result, Err(ProfileError::AlreadyExists(_))));
}

#[test]
fn remove_profile_returns_it() {
    let mut store = ProfileStore::<f64>::new();
    add(&mut store, Profile::new("Gaming")).unwrap();
    let removed = store.remove_profile("Gaming").unwrap();
    assert_eq!(removed.name, "Gaming");
    assert!(store.get_profile("Gaming").is_none());
}

#[test]
fn cannot_remove_default_profile() {
    let mut store = ProfileStore::<f64>::new();
    let result = store.remove_profile(DEFAULT_PROFILE_NAME);
    assert!(matches!(result, Err(ProfileError::CannotRemoveDefault)));
}

#[test]
fn remove_nonexistent_profile_returns_error() {
    let mut store = ProfileStore::<f64>::new();
    let result = store.remove_profile("Ghost");
    assert!(matches!(result, Err(ProfileError::NotFound(_))));
}

#[test]
fn remove_profile_unassigns_apps() {
    let mut store = ProfileStore::<f64>::new();
    add(&mut store, Profile::new("Gaming")).unwrap();
    store.assign_app("game.exe", "Gaming").unwrap();

    store.remove_profile("Gaming").unwrap();

    let profile = store.profile_for_app("game.exe");
    assert_eq!(profile.name, DEFAULT_PROFILE_NAME);
}

// --- ProfileStore: default profile ---

#[test]
fn set_default_profile_changes_fallback() {
    let mut store = ProfileStore::<f64>::new();
    add(&mut store, Profile::new("Gaming")).unwrap();
    store.set_default_profile("Gaming").unwrap();
    assert_eq!(store.default_profile_name(), "Gaming");
    let profile = store.profile_for_app("unknown.exe");
    assert_eq!(profile.name, "Gaming");
}

#[test]
fn set_default_to_missing_profile_returns_error() {
    let mut store = ProfileStore::<f64>::new();
    let result = store.set_default_profile("Nonexistent");
    assert!(matches!(result, Err(ProfileError::DefaultNotFound(_))));
}

// --- ProfileStore: per-app routing ---

#[test]
fn unassigned_app_gets_default_profile() {
    let store = ProfileStore::<f64>::new();
    let profile = store.profile_for_app("firefox.exe");
    assert_eq!(profile.name, DEFAULT_PROFILE_NAME);
}

#[test]
fn assigned_app_gets_its_profile() {
    let mut store = ProfileStore::<f64>::new();
    add(&mut store, Profile::new("Gaming")).unwrap();
    store.assign_app("game.exe", "Gaming").unwrap();
    let profile = store.profile_for_app("game.exe");
    assert_eq!(profile.name, "Gaming");
}

#[test]
fn assign_to_missing_profile_returns_error() {
    let mut store = ProfileStore::<f64>::new();
    let result = store.assign_app("game.exe", "Nonexistent");
    assert!(matches!(result, Err(ProfileError::NotFound(_))));
}

#[test]
fn unassign_app_reverts_to_default() {
    let mut store = ProfileStore::<f64>::new();
    add(&mut store, Profile::new("Gaming")).unwrap();
    store.assign_app("game.exe", "Gaming").unwrap();
    store.unassign_app("game.exe");
    let profile = store.profile_for_app("game.exe");
    assert_eq!(profile.name, DEFAULT_PROFILE_NAME);
}

// --- further cases ---

#[test]
fn new_profile_has_crossfeed_off_at_mild() {
    let p = Profile::<f64>::new("Headphones");
    assert_eq!(p.crossfeed, CrossfeedConfig { enabled: false, level: CrossfeedLevel::Mild });
    assert!(p.bands.is_empty());
}

#[test]
fn first_invalid_band_is_reported_with_its_reason() {
    let mut bad_gain = peak(1000.0, 30.0);
    bad_gain.q = 1.0;
    let mut bad_q = peak(2000.0, 0.0);
    bad_q.q = 0.0;
    let p = Profile::with_bands("Bad", vec![peak(100.0, 1.0), bad_gain, bad_q]);
    match p.validate(&checks(&p)) {
        Err(ProfileError::InvalidBand { index, reason }) => {
            assert_eq!(index, 1);
            assert_eq!(reason, "Gain 30.0 dB is outside the allowed range (-24 to +24 dB)");
        }
        other => panic!("unexpected {:?}", other),
    }
}

#[test]
fn exactly_max_bands_is_accepted() {
    let bands: Vec<Band> = (0..MAX_BANDS).map(|i| peak(100.0 + i as f64 * 10.0, 1.0)).collect();
    let p = Profile::with_bands("Full", bands);
    assert!(p.validate(&checks(&p)).is_ok());
}

#[test]
fn too_many_bands_reports_the_count_before_band_errors() {
    let bands: Vec<Band> = (0..20).map(|_| band(FilterType::Notch, 5.0)).collect();
    let p = Profile::with_bands("Huge", bands);
    assert_eq!(p.validate(&checks(&p)), Err(ProfileError::TooManyBands { count: 20 }));
}

#[test]
fn add_invalid_profile_leaves_store_unchanged() {
    let mut store = ProfileStore::<f64>::new();
    let p = Profile::with_bands("Broken", vec![band(FilterType::Peak, 50_000.0)]);
    let result = add(&mut store, p);
    assert!(matches!(result, Err(ProfileError::InvalidBand { index: 0, .. })));
    assert_eq!(store.profile_count(), 1);
    assert!(store.get_profile("Broken").is_none());
}

#[test]
fn duplicate_check_comes_before_validation() {
    let mut store = ProfileStore::<f64>::new();
    let p = Profile::with_bands(DEFAULT_PROFILE_NAME, vec![band(FilterType::Peak, 1.0)]);
    let result = add(&mut store, p);
    assert_eq!(result, Err(ProfileError::AlreadyExists(DEFAULT_PROFILE_NAME.to_string())));
}

#[test]
fn add_then_remove_restores_store() {
    let mut store = ProfileStore::<f64>::new();
    store.assign_app("player.exe", DEFAULT_PROFILE_NAME).unwrap();
    add(&mut store, Profile::with_bands("Temp", vec![peak(500.0, 2.0)])).unwrap();
    assert_eq!(store.profile_count(), 2);
    store.remove_profile("Temp").unwrap();
    assert_eq!(store.profile_count(), 1);
    assert_eq!(store.profile_names(), vec![DEFAULT_PROFILE_NAME]);
    assert_eq!(store.app_assignments().len(), 1);
    assert_eq!(store.profile_for_app("player.exe").name, DEFAULT_PROFILE_NAME);
}

#[test]
fn reassigning_an_app_replaces_its_profile() {
    let mut store = ProfileStore::<f64>::new();
    add(&mut store, Profile::new("A")).unwrap();
    add(&mut store, Profile::new("B")).unwrap();
    store.assign_app("x.exe", "A").unwrap();
    store.assign_app("x.exe", "B").unwrap();
    assert_eq!(store.app_assignments().len(), 1);
    assert_eq!(store.profile_for_app("x.exe").name, "B");
}

#[test]
fn removing_a_profile_keeps_other_assignments() {
    let mut store = ProfileStore::<f64>::new();
    add(&mut store, Profile::new("A")).unwrap();
    add(&mut store, Profile::new("B")).unwrap();
    store.assign_app("a.exe", "A").unwrap();
    store.assign_app("b.exe", "B").unwrap();
    store.assign_app("a2.exe", "A").unwrap();
    store.remove_profile("A").unwrap();
    let table = store.app_assignments();
    assert_eq!(table.len(), 1);
    assert_eq!(table[0], ("b.exe".to_string(), "B".to_string()));
    assert_eq!(store.profile_for_app("a2.exe").name, DEFAULT_PROFILE_NAME);
}

#[test]
fn removing_the_current_default_is_refused_after_a_change() {
    let mut store = ProfileStore::<f64>::new();
    add(&mut store, Profile::new("Gaming")).unwrap();
    store.set_default_profile("Gaming").unwrap();
    assert_eq!(store.remove_profile("Gaming").unwrap_err(), ProfileError::CannotRemoveDefault);
    let old_default = store.remove_profile(DEFAULT_PROFILE_NAME).unwrap();
    assert_eq!(old_default.name, DEFAULT_PROFILE_NAME);
    assert_eq!(store.profile_count(), 1);
}

#[test]
fn profile_names_lists_each_profile_once() {
    let mut store = ProfileStore::<f64>::new();
    add(&mut store, Profile::new("Gaming")).unwrap();
    add(&mut store, Profile::new("Music")).unwrap();
    let mut names = store.profile_names();
    names.sort();
    assert_eq!(names, vec!["Default", "Gaming", "Music"]);
}

#[test]
fn get_profile_mut_edits_in_place() {
    let mut store = ProfileStore::<f64>::new();
    add(&mut store, Profile::new("Gaming")).unwrap();
    {
        let p = store.get_profile_mut("Gaming").unwrap();
        p.bands = vec![peak(250.0, -3.0)];
        p.crossfeed = CrossfeedConfig { enabled: true, level: CrossfeedLevel::Strong };
    }
    let p = store.get_profile("Gaming").unwrap();
    assert_eq!(p.bands.len(), 1);
    assert_eq!(p.crossfeed.level, CrossfeedLevel::Strong);
    assert!(store.get_profile_mut("Missing").is_none());
}

#[test]
fn profile_names_are_case_sensitive() {
    let mut store = ProfileStore::<f64>::new();
    add(&mut store, Profile::new("default")).unwrap();
    assert_eq!(store.profile_count(), 2);
}

// --- import ---

fn import(store: &mut ProfileStore<f64>, p: Profile<f64>) -> Result<String, ImportError> {
    let c = checks(&p);
    store.import_profile(p, &c)
}

#[test]
fn import_uses_free_trimmed_name() {
    let mut store = ProfileStore::<f64>::new();
    let name = import(&mut store, Profile::with_bands("  Studio \t", vec![peak(90.0, 2.0)])).unwrap();
    assert_eq!(name, "Studio");
    assert_eq!(store.get_profile("Studio").unwrap().name, "Studio");
}

#[test]
fn import_adds_numeric_suffix_on_collision() {
    let mut store = ProfileStore::<f64>::new();
    assert_eq!(import(&mut store, Profile::new("Gaming")).unwrap(), "Gaming");
    assert_eq!(import(&mut store, Profile::new("Gaming")).unwrap(), "Gaming (2)");
    assert_eq!(import(&mut store, Profile::new(" Gaming ")).unwrap(), "Gaming (3)");
    assert_eq!(import(&mut store, Profile::new(DEFAULT_PROFILE_NAME)).unwrap(), "Default (2)");
    assert_eq!(store.profile_count(), 5);
    assert_eq!(store.get_profile("Gaming (3)").unwrap().name, "Gaming (3)");
}

#[test]
fn import_suffix_skips_taken_numbers() {
    let mut store = ProfileStore::<f64>::new();
    add(&mut store, Profile::new("Mix")).unwrap();
    add(&mut store, Profile::new("Mix (2)")).unwrap();
    add(&mut store, Profile::new("Mix (3)")).unwrap();
    assert_eq!(import(&mut store, Profile::new("Mix")).unwrap(), "Mix (4)");
}

#[test]
fn import_two_digit_suffix() {
    let mut store = ProfileStore::<f64>::new();
    add(&mut store, Profile::new("P")).unwrap();
    for n in 2..=10 {
        add(&mut store, Profile::new(&format!("P ({n})"))).unwrap();
    }
    assert_eq!(import(&mut store, Profile::new("P")).unwrap(), "P (11)");
}

#[test]
fn import_blank_name_is_refused() {
    let mut store = ProfileStore::<f64>::new();
    assert_eq!(import(&mut store, Profile::new(" \u{3000}\n")), Err(ImportError::EmptyName));
    assert_eq!(store.profile_count(), 1);
}

#[test]
fn import_invalid_profile_is_refused_before_name_checks() {
    let mut store = ProfileStore::<f64>::new();
    let p = Profile::with_bands("   ", vec![band(FilterType::Peak, 10.0)]);
    assert!(matches!(import(&mut store, p), Err(ImportError::Invalid(ProfileError::InvalidBand { index: 0, .. }))));
    assert_eq!(store.profile_count(), 1);
}

#[test]
fn resolve_import_name_keeps_free_name() {
    let store = ProfileStore::<f64>::new();
    assert_eq!(store.resolve_import_name(&"Fresh".to_string()), "Fresh");
    assert_eq!(store.resolve_import_name(&"Default".to_string()), "Default (2)");
}

#[test]
fn app_switching_is_on_until_turned_off() {
    let mut store: ProfileStore<f64> = ProfileStore::new();
    assert!(store.is_app_enabled("game.exe"));
    store.set_app_enabled("game.exe", false);
    assert!(!store.is_app_enabled("game.exe"));
    assert!(store.is_app_enabled("other.exe"));
    store.set_app_enabled("game.exe", true);
    assert!(store.is_app_enabled("game.exe"));
    assert_eq!(store.app_enabled_flags().len(), 1);
}

#[test]
fn switching_flag_does_not_touch_assignments() {
    let mut store: ProfileStore<f64> = ProfileStore::new();
    store.add_profile(Profile::new("Gaming"), &Vec::new()).unwrap();
    store.assign_app("game.exe", "Gaming").unwrap();
    store.set_app_enabled("game.exe", false);
    assert_eq!(store.profile_for_app("game.exe").name, "Gaming");
    store.unassign_app("game.exe");
    assert!(!store.is_app_enabled("game.exe"));
}

fn routed_store() -> ProfileStore<f64> {
    let mut store: ProfileStore<f64> = ProfileStore::new();
    store.add_profile(Profile::new("Gaming"), &Vec::new()).unwrap();
    store.assign_app("game.exe", "Gaming").unwrap();
    store.assign_app("chat.exe", "Default").unwrap();
    store
}

#[test]
fn rename_moves_profile_and_its_assignments() {
    let mut store = routed_store();
    assert_eq!(store.rename_profile("Gaming", "  Shooter "), Ok(()));
    assert!(store.get_profile("Gaming").is_none());
    assert_eq!(store.get_profile("Shooter").unwrap().name, "Shooter");
    assert_eq!(store.profile_for_app("game.exe").name, "Shooter");
    assert_eq!(store.profile_for_app("chat.exe").name, "Default");
    assert_eq!(store.profile_count(), 2);
}

#[test]
fn rename_of_the_default_moves_the_default() {
    let mut store = routed_store();
    assert_eq!(store.rename_profile(DEFAULT_PROFILE_NAME, "Everyday"), Ok(()));
    assert_eq!(store.default_profile_name(), "Everyday");
    assert_eq!(store.profile_for_app("chat.exe").name, "Everyday");
    assert_eq!(store.profile_for_app("other.exe").name, "Everyday");
}

#[test]
fn rename_errors_leave_store_unchanged() {
    let mut store = routed_store();
    assert_eq!(store.rename_profile("Missing", "X"), Err(ProfileError::NotFound("Missing".to_string())));
    assert_eq!(store.rename_profile("Gaming", "   "), Err(ProfileError::EmptyName));
    assert_eq!(
        store.rename_profile("Gaming", " Default"),
        Err(ProfileError::AlreadyExists("Default".to_string()))
    );
    assert_eq!(store.profile_for_app("game.exe").name, "Gaming");
    assert_eq!(store.rename_profile("Gaming", "Gaming "), Ok(()));
    assert_eq!(store.profile_for_app("game.exe").name, "Gaming");
}

#[test]
fn app_volume_defaults_to_full_and_resets_on_removal() {
    let mut store = routed_store();
    assert_eq!(store.app_volume("game.exe", 1.0), 1.0);
    store.set_app_volume("game.exe", 0.4);
    assert_eq!(store.app_volume("game.exe", 1.0), 0.4);
    assert_eq!(store.app_volume("chat.exe", 1.0), 1.0);
    store.set_app_volume("game.exe", 0.6);
    assert_eq!(store.app_volume_entries().len(), 1);
    store.unassign_app("game.exe");
    assert_eq!(store.app_volume("game.exe", 1.0), 1.0);
    assert!(store.app_volume_entries().is_empty());
}
