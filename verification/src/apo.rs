use vstd::prelude::*;

use crate::capture::{same_guid, Guid};

verus! {

/// `S_OK`: success.
pub const S_OK: i32 = 0;

/// `S_FALSE`: success, but the answer is "no".
pub const S_FALSE: i32 = 1;

/// `CLASS_E_NOAGGREGATION`: the class does not support aggregation.
pub const CLASS_E_NOAGGREGATION: i32 = 0x80040110u32 as i32;

/// `CLASS_E_CLASSNOTAVAILABLE`: the DLL does not provide this class.
pub const CLASS_E_CLASSNOTAVAILABLE: i32 = 0x80040111u32 as i32;

/// Value of `u32BufferFlags` for a connection that carries silence.
pub const BUFFER_SILENT: u32 = 2;

/// The class identifier of the equalizer's audio processing object,
/// {8C2A5F3E-B47D-4A1C-9E8F-D0C3B6A2E1F4}.
pub open spec fn spec_clsid_sound_eq_apo() -> Guid {
    Guid {
        data1: 0x8C2A5F3E,
        data2: 0xB47D,
        data3: 0x4A1C,
        data4: [0x9E, 0x8F, 0xD0, 0xC3, 0xB6, 0xA2, 0xE1, 0xF4],
    }
}

/// The class identifier of the equalizer's audio processing object.
pub fn clsid_sound_eq_apo() -> (g: Guid)
    ensures
        g == spec_clsid_sound_eq_apo(),
{
    Guid {
        data1: 0x8C2A5F3E,
        data2: 0xB47D,
        data3: 0x4A1C,
        data4: [0x9E, 0x8F, 0xD0, 0xC3, 0xB6, 0xA2, 0xE1, 0xF4],
    }
}

/// Whether a class-object request is for the equalizer's class; every other
/// class gets `CLASS_E_CLASSNOTAVAILABLE`.
pub fn is_sound_eq_apo_class(rclsid: &Guid) -> (r: bool)
    ensures
        r == same_guid(*rclsid, spec_clsid_sound_eq_apo()),
{
    let ours = clsid_sound_eq_apo();
    rclsid.same_as(&ours)
}

/// The number of live COM objects of the DLL.
pub struct ObjectCount {
    alive: i32,
}

impl ObjectCount {
    /// The current count.
    pub closed spec fn value(&self) -> i32 {
        self.alive
    }

    /// No object is alive yet.
    pub fn new() -> (c: Self)
        ensures
            c.value() == 0,
    {
        ObjectCount { alive: 0 }
    }
}

/// Records that an object was created; the count wraps like the atomic
/// counter it stands for.
pub fn increment_object_count(count: &mut ObjectCount)
    ensures
        final(count).value() == old(count).value().wrapping_add(1),
{
    count.alive = count.alive.wrapping_add(1);
}

/// Records that an object was destroyed; the count wraps like the atomic
/// counter it stands for.
pub fn decrement_object_count(count: &mut ObjectCount)
    ensures
        final(count).value() == old(count).value().wrapping_sub(1),
{
    count.alive = count.alive.wrapping_sub(1);
}

/// The answer to "can the DLL be unloaded": `S_OK` when no COM object is
/// alive, else `S_FALSE`.
#[allow(non_snake_case)]
pub fn DllCanUnloadNow(count: &ObjectCount) -> (hr: i32)
    ensures
        hr == if count.value() == 0 {
            S_OK
        } else {
            S_FALSE
        },
{
    if count.alive == 0 {
        S_OK
    } else {
        S_FALSE
    }
}

/// Creating an object and destroying it leaves the count as it was: a
/// count that `increment_object_count` took from `before` to `created`,
/// and `decrement_object_count` then took to `after`, equals `before`.
pub proof fn lemma_create_destroy_restores(before: ObjectCount, created: ObjectCount, after: ObjectCount)
    requires
        created.value() == before.value().wrapping_add(1),
        after.value() == created.value().wrapping_sub(1),
    ensures
        after.value() == before.value(),
{
}

/// The class factory handed out by `DllGetClassObject`.
pub struct ApoFactory;

impl ApoFactory {
    /// A new factory.
    pub fn new() -> (f: Self) {
        ApoFactory
    }

    /// Whether `CreateInstance` may create an object: aggregation (an outer
    /// unknown) is not supported.
    pub fn create_instance_check(&self, has_outer: bool) -> (r: Result<(), i32>)
        ensures
            r == if has_outer {
                Err::<(), i32>(CLASS_E_NOAGGREGATION)
            } else {
                Ok::<(), i32>(())
            },
    {
        if has_outer {
            Err(CLASS_E_NOAGGREGATION)
        } else {
            Ok(())
        }
    }
}

/// The class-object request of the DLL: a factory for the equalizer's
/// class, `CLASS_E_CLASSNOTAVAILABLE` for any other class.
#[allow(non_snake_case)]
pub fn DllGetClassObject(rclsid: &Guid) -> (r: Result<ApoFactory, i32>)
    ensures
        same_guid(*rclsid, spec_clsid_sound_eq_apo()) ==> r is Ok,
        !same_guid(*rclsid, spec_clsid_sound_eq_apo()) ==> r == Err::<ApoFactory, i32>(
            CLASS_E_CLASSNOTAVAILABLE,
        ),
{
    if is_sound_eq_apo_class(rclsid) {
        Ok(ApoFactory::new())
    } else {
        Err(CLASS_E_CLASSNOTAVAILABLE)
    }
}

/// How many interleaved stereo samples a real-time processing call should
/// filter in place: none without an input connection, for a silent buffer
/// or for an empty one, else two per valid frame.
pub fn apo_process_sample_count(
    num_input_connections: u32,
    input_present: bool,
    buffer_flags: u32,
    valid_frame_count: u32,
) -> (r: Option<usize>)
    requires
        2 * valid_frame_count <= usize::MAX,
    ensures
        r == if num_input_connections == 0 || !input_present || buffer_flags == BUFFER_SILENT
            || valid_frame_count == 0 {
            None::<usize>
        } else {
            Some((2 * valid_frame_count) as usize)
        },
{
    if num_input_connections == 0 || !input_present {
        return None;
    }
    if buffer_flags == BUFFER_SILENT {
        return None;
    }
    let frame_count = valid_frame_count as usize;
    if frame_count == 0 {
        return None;
    }
    Some(frame_count * 2)
}

/// Copies a UTF-16 friendly name into the fixed 256-unit registration field:
/// at most 255 units, so the field stays null-terminated; the rest of the
/// field is left as it was.
pub fn fill_friendly_name(units: &[u16], field: &mut [u16])
    requires
        old(field)@.len() == 256,
    ensures
        final(field)@.len() == 256,
        forall|i: int|
            0 <= i < 256 ==> #[trigger] final(field)@[i] == if i < units@.len() && i < 255 {
                units@[i]
            } else {
                old(field)@[i]
            },
{
    let n = if units.len() < 255 {
        units.len()
    } else {
        255
    };
    let mut i: usize = 0;
    while i < n
        invariant
            i <= n <= 255,
            n <= units@.len(),
            n == units@.len() || n == 255,
            field@.len() == 256,
            forall|j: int|
                0 <= j < 256 ==> #[trigger] field@[j] == if j < i {
                    units@[j]
                } else {
                    old(field)@[j]
                },
        decreases n - i,
    {
        field[i] = units[i];
        i = i + 1;
    }
}

} // verus!
