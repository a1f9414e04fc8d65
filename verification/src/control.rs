use vstd::prelude::*;
use vstd::string::StringExecFns;

use crate::profile::ProfileStore;

verus! {

/// An icon colour.
#[derive(Debug, Clone, Copy, PartialEq, Eq, Structural)]
pub struct Rgb {
    pub r: u8,
    pub g: u8,
    pub b: u8,
}

/// What the system tray shows: the status line of its menu, its tooltip and
/// the colour of its icon.
#[derive(Debug, Clone)]
pub struct TrayStatus {
    pub label: String,
    pub tooltip: String,
    pub icon: Rgb,
}

/// The profile name the tray shows for a running engine.
pub open spec fn shown_profile_name(profile_name: Seq<char>) -> Seq<char> {
    if profile_name.len() == 0 {
        "Default"@
    } else {
        profile_name
    }
}

/// Tray appearance for each engine state: stopped (grey), running but
/// bypassed (amber), or applying the named profile (green; an empty name
/// shows as "Default").
pub fn tray_status(running: bool, bypassed: bool, profile_name: &str) -> (t: TrayStatus)
    ensures
        !running ==> t.label@ == "○  Stopped"@ && t.tooltip@ == "soundEQ  |  Stopped"@
            && t.icon == (Rgb { r: 107, g: 114, b: 128 }),
        running && bypassed ==> t.label@ == "⊘  Bypassed"@ && t.tooltip@
            == "soundEQ  |  Bypassed"@ && t.icon == (Rgb { r: 245, g: 158, b: 11 }),
        running && !bypassed ==> t.label@ == "●  Active  —  "@ + shown_profile_name(profile_name@)
            && t.tooltip@ == "soundEQ  |  "@ + shown_profile_name(profile_name@) && t.icon == (Rgb { r: 52, g: 211, b: 153 }),
{
    if !running {
        TrayStatus {
            label: String::from_str("○  Stopped"),
            tooltip: String::from_str("soundEQ  |  Stopped"),
            icon: Rgb { r: 107, g: 114, b: 128 },
        }
    } else if bypassed {
        TrayStatus {
            label: String::from_str("⊘  Bypassed"),
            tooltip: String::from_str("soundEQ  |  Bypassed"),
            icon: Rgb { r: 245, g: 158, b: 11 },
        }
    } else {
        let name: &str = if profile_name.is_empty() {
            "Default"
        } else {
            profile_name
        };
        let mut label = String::from_str("●  Active  —  ");
        label.append(name);
        let mut tooltip = String::from_str("soundEQ  |  ");
        tooltip.append(name);
        TrayStatus { label, tooltip, icon: Rgb { r: 52, g: 211, b: 153 } }
    }
}

/// What one poll of the focused window decides.
#[derive(Debug, Clone, PartialEq)]
pub enum FocusStep {
    /// Nothing to do: the engine is stopped or focus did not move.
    Unchanged,
    /// Focus moved to another process.
    Changed {
        /// Apply the profile the store routes the focused process to.
        apply_routed: bool,
        /// The active profile name to report after the switch, if any.
        active_profile: Option<String>,
    },
}

/// One step of focus-based profile routing. When the engine runs and the
/// focused process differs from the last one seen, `last_focused` becomes
/// the focused process; if that process has an explicit assignment, has
/// automatic switching on, and its profile is not already active, the
/// routed profile is to be applied; the active profile name after the step
/// (none when empty) is reported.
pub fn focus_step<N>(
    store: &ProfileStore<N>,
    last_focused: &mut String,
    running: bool,
    current: &str,
    active_profile_name: &str,
) -> (step: FocusStep)
    requires
        store.wf(),
    ensures
        !running || current@ == old(last_focused)@ ==> step is Unchanged && final(last_focused)@
            == old(last_focused)@,
        running && current@ != old(last_focused)@ ==> {
            let assigned = current@.len() > 0 && store.assignments().contains_key(current@);
            let routed = store.profile_map()[store.routed_name(current@)].name@;
            let switch = assigned && store.app_enabled(current@) && routed != active_profile_name@;
            let after = if switch {
                routed
            } else {
                active_profile_name@
            };
            &&& final(last_focused)@ == current@
            &&& step matches FocusStep::Changed { apply_routed, active_profile }
            &&& apply_routed == switch
            &&& match active_profile {
                Some(n) => after.len() > 0 && n@ == after,
                None => after.len() == 0,
            }
        },
{
    if !running {
        return FocusStep::Unchanged;
    }
    let cur = current.to_owned();
    if cur == *last_focused {
        return FocusStep::Unchanged;
    }
    *last_focused = cur;
    let mut switch = false;
    let mut after: String = active_profile_name.to_owned();
    if !current.is_empty() && has_assignment(store, current) && store.is_app_enabled(current) {
        let p = store.profile_for_app(current);
        if !(p.name == after) {
            switch = true;
            after = p.name.clone();
        }
    }
    let active_profile = if after.as_str().is_empty() {
        None
    } else {
        Some(after)
    };
    FocusStep::Changed { apply_routed: switch, active_profile }
}

/// Whether `app` has an explicit profile assignment.
pub fn has_assignment<N>(store: &ProfileStore<N>, app: &str) -> (r: bool)
    requires
        store.wf(),
    ensures
        r == store.assignments().contains_key(app@),
{
    let key = app.to_owned();
    let table = store.app_assignments();
    match crate::assoc::find_key(table, &key) {
        Some(i) => {
            proof {
                crate::assoc::lemma_assoc_lookup(table@, i as int);
            }
            true
        },
        None => false,
    }
}

/// An optional string, read as characters.
pub open spec fn option_chars(s: Option<String>) -> Option<Seq<char>> {
    match s {
        Some(a) => Some(a@),
        None => None,
    }
}

fn copy_option(s: &Option<String>) -> (r: Option<String>)
    ensures
        option_chars(r) == option_chars(*s),
{
    match s {
        Some(a) => Some(a.clone()),
        None => None,
    }
}

/// The device configurations to try, in order, when the watch finds that
/// an audio thread of the running engine has died: first the devices it was
/// started with, then the same capture device with the system-default
/// output. Nothing is tried while the engine is stopped or healthy.
pub fn restart_attempts(
    running: bool,
    crashed: bool,
    capture_device: &Option<String>,
    render_device: &Option<String>,
) -> (r: Vec<(Option<String>, Option<String>)>)
    ensures
        !running || !crashed ==> r@.len() == 0,
        running && crashed ==> r@.len() == 2 && option_chars(r@[0].0) == option_chars(
            *capture_device,
        ) && option_chars(r@[0].1) == option_chars(*render_device) && option_chars(r@[1].0)
            == option_chars(*capture_device) && r@[1].1 is None,
{
    let mut attempts: Vec<(Option<String>, Option<String>)> = Vec::new();
    if running && crashed {
        attempts.push((copy_option(capture_device), copy_option(render_device)));
        attempts.push((copy_option(capture_device), None));
    }
    attempts
}

/// What the device watch does next while restarting an engine whose audio
/// thread died, given the outcomes of the start attempts made so far.
#[derive(Debug, Clone, PartialEq)]
pub enum RestartStep {
    /// Start the engine with the devices of planned attempt `index`,
    /// stopping it first when `stop_first`.
    Try { index: usize, stop_first: bool },
    /// Attempt `index` started the engine; re-apply the named profile, if
    /// any.
    Restarted { index: usize, reapply: Option<String> },
    /// Every planned attempt failed: the engine stays stopped and `error`,
    /// the last attempt's error, is reported.
    GiveUp { error: String },
}

/// Every start attempt made so far failed.
pub open spec fn all_failed(results: Seq<Result<(), String>>) -> bool {
    forall|j: int| 0 <= j < results.len() ==> (#[trigger] results[j]) is Err
}

/// Attempt `i` is the first that succeeded.
pub open spec fn first_success(results: Seq<Result<(), String>>, i: int) -> bool {
    &&& 0 <= i < results.len()
    &&& results[i] is Ok
    &&& forall|j: int| 0 <= j < i ==> (#[trigger] results[j]) is Err
}

/// One step of the automatic restart. `planned` attempts are planned (see
/// `restart_attempts`) and `results` holds the outcomes of those made so
/// far, in order. The engine is stopped before the first attempt; the next
/// attempt is made only while every earlier one failed; once one succeeds,
/// the active profile is re-applied if the store still holds it; when all
/// failed, the last error is reported and the engine stays stopped.
pub fn restart_step<N>(
    store: &ProfileStore<N>,
    active_name: &str,
    planned: usize,
    results: &Vec<Result<(), String>>,
) -> (step: RestartStep)
    requires
        store.wf(),
        1 <= planned,
        results@.len() <= planned,
    ensures
        !all_failed(results@) ==> (step matches RestartStep::Restarted { index, reapply }
            && first_success(results@, index as int) && match reapply {
            Some(n) => store.profile_map().contains_key(active_name@) && n@ == active_name@,
            None => !store.profile_map().contains_key(active_name@),
        }),
        all_failed(results@) && results@.len() < planned ==> step == (RestartStep::Try {
            index: results@.len() as usize,
            stop_first: results@.len() == 0,
        }),
        all_failed(results@) && results@.len() == planned ==> (step matches RestartStep::GiveUp {
            error,
        } && results@[planned - 1] matches Err(e) && error@ == e@),
{
    let mut i: usize = 0;
    while i < results.len()
        invariant
            i <= results@.len(),
            store.wf(),
            forall|j: int| 0 <= j < i ==> (#[trigger] results@[j]) is Err,
        decreases results@.len() - i,
    {
        if results[i].is_ok() {
            let reapply = match store.get_profile(active_name) {
                Some(_) => Some(active_name.to_owned()),
                None => None,
            };
            return RestartStep::Restarted { index: i, reapply };
        }
        i = i + 1;
    }
    if results.len() < planned {
        return RestartStep::Try { index: results.len(), stop_first: results.len() == 0 };
    }
    match &results[results.len() - 1] {
        Err(e) => RestartStep::GiveUp { error: e.clone() },
        Ok(_) => RestartStep::GiveUp { error: String::new() },
    }
}

/// The command line stored in the startup registry entry: the quoted
/// executable path followed by `--minimized`, so a login launch starts
/// hidden in the tray.
pub fn startup_command(exe_path: &str) -> (cmd: String)
    ensures
        cmd@ == "\""@ + exe_path@ + "\" --minimized"@,
{
    let mut cmd = String::from_str("\"");
    cmd.append(exe_path);
    cmd.append("\" --minimized");
    cmd
}

/// Whether the process was launched with `--minimized` among its
/// arguments (by the startup entry).
pub fn has_minimized_flag(args: &Vec<String>) -> (r: bool)
    ensures
        r == exists|i: int| 0 <= i < args@.len() && args@[i]@ == "--minimized"@,
{
    let flag = String::from_str("--minimized");
    let mut i: usize = 0;
    while i < args.len()
        invariant
            i <= args@.len(),
            flag@ == "--minimized"@,
            forall|j: int| 0 <= j < i ==> args@[j]@ != "--minimized"@,
        decreases args@.len() - i,
    {
        if args[i] == flag {
            return true;
        }
        i = i + 1;
    }
    false
}

} // verus!
