use soundeq::apo::{
    clsid_sound_eq_apo, decrement_object_count, DllCanUnloadNow, fill_friendly_name,
    increment_object_count, is_sound_eq_apo_class, apo_process_sample_count, ApoFactory,
    DllGetClassObject, ObjectCount, CLASS_E_CLASSNOTAVAILABLE, CLASS_E_NOAGGREGATION, S_FALSE, S_OK,
};
use soundeq::control::{
    focus_step, has_minimized_flag, restart_attempts, restart_step, startup_command, tray_status,
    FocusStep, RestartStep, Rgb,
};
use soundeq::filter_type::BandConfig;
use soundeq::profile::{Profile, ProfileStore};
use soundeq::text::{decimal_string, trim_to_string};

#[test]
fn object_count_tracks_live_objects() {
    let mut c = ObjectCount::new();
    assert_eq!(DllCanUnloadNow(&c), S_OK);
    increment_object_count(&mut c);
    increment_object_count(&mut c);
    assert_eq!(DllCanUnloadNow(&c), S_FALSE);
    decrement_object_count(&mut c);
    assert_eq!(DllCanUnloadNow(&c), S_FALSE);
    decrement_object_count(&mut c);
    assert_eq!(DllCanUnloadNow(&c), S_OK);
    decrement_object_count(&mut c);
    assert_eq!(DllCanUnloadNow(&c), S_FALSE);
}

#[test]
fn class_object_is_only_for_our_clsid() {
    let ours = clsid_sound_eq_apo();
    assert_eq!(ours.data1, 0x8C2A5F3E);
    assert_eq!(ours.data4, [0x9E, 0x8F, 0xD0, 0xC3, 0xB6, 0xA2, 0xE1, 0xF4]);
    assert!(is_sound_eq_apo_class(&ours));
    let mut other = ours;
    other.data4[7] = 0xF5;
    assert!(!is_sound_eq_apo_class(&other));
    assert!(DllGetClassObject(&ours).is_ok());
    assert_eq!(DllGetClassObject(&other).err(), Some(CLASS_E_CLASSNOTAVAILABLE));
    assert_eq!(CLASS_E_CLASSNOTAVAILABLE as u32, 0x80040111);
}

#[test]
fn factory_refuses_aggregation() {
    let f = ApoFactory::new();
    assert_eq!(f.create_instance_check(true), Err(CLASS_E_NOAGGREGATION));
    assert_eq!(f.create_instance_check(false), Ok(()));
    assert_eq!(CLASS_E_NOAGGREGATION as u32, 0x80040110);
}

#[test]
fn apo_processing_gate() {
    assert_eq!(apo_process_sample_count(1, true, 0, 480), Some(960));
    assert_eq!(apo_process_sample_count(0, true, 0, 480), None);
    assert_eq!(apo_process_sample_count(1, false, 0, 480), None);
    assert_eq!(apo_process_sample_count(1, true, 2, 480), None);
    assert_eq!(apo_process_sample_count(1, true, 1, 0), None);
}

#[test]
fn friendly_name_is_truncated_and_terminated() {
    let mut field = [0u16; 256];
    let name: Vec<u16> = "SoundEQ Parametric EQ".encode_utf16().collect();
    fill_friendly_name(&name, &mut field);
    assert_eq!(&field[..name.len()], &name[..]);
    assert_eq!(field[name.len()], 0);
    let long = vec![65u16; 300];
    let mut field = [0u16; 256];
    fill_friendly_name(&long, &mut field);
    assert_eq!(field[254], 65);
    assert_eq!(field[255], 0);
}

// --- tray ---

#[test]
fn tray_shows_engine_state() {
    let t = tray_status(false, true, "Gaming");
    assert_eq!(t.label, "○  Stopped");
    assert_eq!(t.tooltip, "soundEQ  |  Stopped");
    assert_eq!(t.icon, Rgb { r: 107, g: 114, b: 128 });
    let t = tray_status(true, true, "Gaming");
    assert_eq!(t.label, "⊘  Bypassed");
    assert_eq!(t.tooltip, "soundEQ  |  Bypassed");
    assert_eq!(t.icon, Rgb { r: 245, g: 158, b: 11 });
    let t = tray_status(true, false, "Gaming");
    assert_eq!(t.label, "●  Active  —  Gaming");
    assert_eq!(t.tooltip, "soundEQ  |  Gaming");
    assert_eq!(t.icon, Rgb { r: 52, g: 211, b: 153 });
    let t = tray_status(true, false, "");
    assert_eq!(t.label, "●  Active  —  Default");
}

// --- focus routing ---

fn store_with_gaming() -> ProfileStore<f64> {
    let mut store = ProfileStore::new();
    let p: Profile<f64> = Profile::with_bands("Gaming", Vec::<BandConfig<f64>>::new());
    store.add_profile(p, &Vec::new()).unwrap();
    store.assign_app("game.exe", "Gaming").unwrap();
    store
}

#[test]
fn focus_is_ignored_while_stopped_or_unchanged() {
    let store = store_with_gaming();
    let mut last = String::from("a.exe");
    assert_eq!(focus_step(&store, &mut last, false, "game.exe", "Default"), FocusStep::Unchanged);
    assert_eq!(last, "a.exe");
    assert_eq!(focus_step(&store, &mut last, true, "a.exe", "Default"), FocusStep::Unchanged);
}

#[test]
fn focusing_an_assigned_app_switches_profile() {
    let store = store_with_gaming();
    let mut last = String::new();
    let step = focus_step(&store, &mut last, true, "game.exe", "Default");
    assert_eq!(
        step,
        FocusStep::Changed { apply_routed: true, active_profile: Some("Gaming".to_string()) }
    );
    assert_eq!(last, "game.exe");
    let step = focus_step(&store, &mut last, true, "notes.exe", "Gaming");
    assert_eq!(
        step,
        FocusStep::Changed { apply_routed: false, active_profile: Some("Gaming".to_string()) }
    );
    let step = focus_step(&store, &mut last, true, "game.exe", "Gaming");
    assert_eq!(
        step,
        FocusStep::Changed { apply_routed: false, active_profile: Some("Gaming".to_string()) }
    );
    let step = focus_step(&store, &mut last, true, "", "");
    assert_eq!(step, FocusStep::Changed { apply_routed: false, active_profile: None });
}

// --- device watch, startup ---

#[test]
fn restart_tries_same_devices_then_default_output() {
    let cap = Some("cable".to_string());
    let ren = Some("speakers".to_string());
    let plan = restart_attempts(true, true, &cap, &ren);
    assert_eq!(plan, vec![(cap.clone(), ren.clone()), (cap.clone(), None)]);
    assert!(restart_attempts(true, false, &cap, &ren).is_empty());
    assert!(restart_attempts(false, true, &cap, &ren).is_empty());
}

#[test]
fn focusing_an_app_with_switching_off_keeps_the_profile() {
    let mut store = store_with_gaming();
    store.set_app_enabled("game.exe", false);
    let mut last = String::new();
    let step = focus_step(&store, &mut last, true, "game.exe", "Default");
    assert_eq!(
        step,
        FocusStep::Changed { apply_routed: false, active_profile: Some("Default".to_string()) }
    );
    assert_eq!(last, "game.exe");
    store.set_app_enabled("game.exe", true);
    let mut last = String::new();
    let step = focus_step(&store, &mut last, true, "game.exe", "Default");
    assert_eq!(
        step,
        FocusStep::Changed { apply_routed: true, active_profile: Some("Gaming".to_string()) }
    );
}

#[test]
fn restart_stops_then_tries_each_attempt_in_turn() {
    let store = store_with_gaming();
    let mut results: Vec<Result<(), String>> = Vec::new();
    assert_eq!(restart_step(&store, "Gaming", 2, &results), RestartStep::Try { index: 0, stop_first: true });
    results.push(Err("device gone".to_string()));
    assert_eq!(restart_step(&store, "Gaming", 2, &results), RestartStep::Try { index: 1, stop_first: false });
    results.push(Ok(()));
    assert_eq!(
        restart_step(&store, "Gaming", 2, &results),
        RestartStep::Restarted { index: 1, reapply: Some("Gaming".to_string()) }
    );
}

#[test]
fn restart_after_first_success_reapplies_only_a_stored_profile() {
    let store = store_with_gaming();
    let results: Vec<Result<(), String>> = vec![Ok(())];
    assert_eq!(
        restart_step(&store, "Gaming", 2, &results),
        RestartStep::Restarted { index: 0, reapply: Some("Gaming".to_string()) }
    );
    assert_eq!(restart_step(&store, "Gone", 2, &results), RestartStep::Restarted { index: 0, reapply: None });
}

#[test]
fn restart_gives_up_with_the_last_error() {
    let store = store_with_gaming();
    let results: Vec<Result<(), String>> = vec![Err("first".to_string()), Err("second".to_string())];
    assert_eq!(
        restart_step(&store, "Gaming", 2, &results),
        RestartStep::GiveUp { error: "second".to_string() }
    );
}

#[test]
fn startup_entry_command_line() {
    assert_eq!(
        startup_command(r"C:\Program Files\soundEQ\soundEQ.exe"),
        "\"C:\\Program Files\\soundEQ\\soundEQ.exe\" --minimized"
    );
}

#[test]
fn minimized_flag_detection() {
    let args = vec!["soundEQ.exe".to_string(), "--minimized".to_string()];
    assert!(has_minimized_flag(&args));
    let args = vec!["soundEQ.exe".to_string(), "--minimize".to_string()];
    assert!(!has_minimized_flag(&args));
    assert!(!has_minimized_flag(&Vec::new()));
}

// --- text ---

#[test]
fn decimal_strings() {
    assert_eq!(decimal_string(0), "0");
    assert_eq!(decimal_string(7), "7");
    assert_eq!(decimal_string(10), "10");
    assert_eq!(decimal_string(4_294_967_295), "4294967295");
}

#[test]
fn trimming_matches_str_trim() {
    for s in ["  a b  ", "\t\n x", "y \u{00A0}", "\u{2003}z\u{3000}", "", "   ", "none"] {
        assert_eq!(trim_to_string(s), s.trim());
    }
}
