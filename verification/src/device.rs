use vstd::prelude::*;

verus! {

/// One active audio output device.
#[derive(Debug, Clone)]
pub struct AudioDeviceInfo {
    /// Endpoint identifier; pass it to the renderer to select the device.
    pub id: String,
    /// Name shown in the Windows sound settings.
    pub name: String,
    /// Whether this is the system-default output device.
    pub is_default: bool,
}

/// One active audio session on the default output device.
#[derive(Debug, Clone)]
pub struct AudioSessionInfo {
    /// Process that created the session; 0 for system sessions.
    pub pid: u32,
    /// Executable file name only, e.g. "chrome.exe"; empty when unknown.
    pub process_name: String,
    /// Opaque session identifier.
    pub session_id: String,
}

/// Describes an enumerated endpoint: its friendly name, or its id when it
/// has none, and whether its id is the default endpoint's id.
pub fn device_info(id: String, name: Option<String>, default_id: Option<&String>) -> (d:
    AudioDeviceInfo)
    ensures
        d.id@ == id@,
        d.name@ == match name {
            Some(n) => n@,
            None => id@,
        },
        d.is_default == match default_id {
            Some(did) => did@ == id@,
            None => false,
        },
{
    let is_default = match default_id {
        Some(did) => *did == id,
        None => false,
    };
    let name = match name {
        Some(n) => n,
        None => id.clone(),
    };
    AudioDeviceInfo { id, name, is_default }
}

/// A UTF-16 path separator: backslash or slash.
pub open spec fn is_path_separator(u: u16) -> bool {
    u == 0x5C || u == 0x2F
}

/// The last component of a UTF-16 path: everything after the last
/// separator, or the whole path when it has none.
pub open spec fn last_component(path: Seq<u16>) -> Seq<u16> {
    if exists|i: int| 0 <= i < path.len() && is_path_separator(path[i]) {
        let i = choose|i: int|
            0 <= i < path.len() && is_path_separator(path[i]) && forall|j: int|
                i < j < path.len() ==> !is_path_separator(path[j]);
        path.skip(i + 1)
    } else {
        path
    }
}

/// The executable file name of a process from its full image path, in
/// UTF-16 units: the last path component, or `None` when that is empty.
pub fn exe_name_units(path: &[u16]) -> (r: Option<Vec<u16>>)
    ensures
        match r {
            Some(name) => name@ == last_component(path@) && name@.len() > 0,
            None => last_component(path@).len() == 0,
        },
{
    let mut start: usize = path.len();
    // Scan back to the last separator.
    while start > 0 && !(path[start - 1] == 0x5C || path[start - 1] == 0x2F)
        invariant
            start <= path@.len(),
            forall|j: int| start <= j < path@.len() ==> !is_path_separator(path@[j]),
        decreases start,
    {
        start = start - 1;
    }
    proof {
        if start > 0 {
            let i = start - 1;
            assert(is_path_separator(path@[i as int]));
            let k = choose|k: int|
                0 <= k < path@.len() && is_path_separator(path@[k]) && forall|j: int|
                    k < j < path@.len() ==> !is_path_separator(path@[j]);
            if k < i {
                assert(!is_path_separator(path@[i as int]));
            }
            if k > i {
                assert(!is_path_separator(path@[k]));
            }
        } else {
            assert forall|i: int| 0 <= i < path@.len() implies !is_path_separator(path@[i]) by {}
        }
    }
    let mut name: Vec<u16> = Vec::new();
    let mut i: usize = start;
    while i < path.len()
        invariant
            start <= i <= path@.len(),
            name@ == path@.subrange(start as int, i as int),
        decreases path@.len() - i,
    {
        name.push(path[i]);
        assert(path@.subrange(start as int, i as int + 1) =~= path@.subrange(start as int, i as int).push(path@[i as int]));
        i = i + 1;
    }
    assert(name@ =~= path@.skip(start as int));
    if name.len() == 0 {
        None
    } else {
        Some(name)
    }
}

/// `RPC_E_CHANGED_MODE`: the thread already joined a different COM
/// apartment model.
pub const RPC_E_CHANGED_MODE: i32 = 0x80010106u32 as i32;

/// What joining the multithreaded COM apartment came to, from the HRESULT
/// of the call: `Ok(true)` when this thread now holds a COM reference to
/// release later (any success code), `Ok(false)` when another component
/// already initialised the thread in another model and that is tolerated,
/// else the failure code.
pub fn com_init_outcome(hr: i32, tolerate_changed_mode: bool) -> (r: Result<bool, i32>)
    ensures
        tolerate_changed_mode && hr == RPC_E_CHANGED_MODE ==> r == Ok::<bool, i32>(false),
        !(tolerate_changed_mode && hr == RPC_E_CHANGED_MODE) && hr >= 0 ==> r == Ok::<bool, i32>(true),
        !(tolerate_changed_mode && hr == RPC_E_CHANGED_MODE) && hr < 0 ==> r == Err::<bool, i32>(hr),
{
    if tolerate_changed_mode && hr == RPC_E_CHANGED_MODE {
        Ok(false)
    } else if hr >= 0 {
        Ok(true)
    } else {
        Err(hr)
    }
}

} // verus!
