//! The input poller: once per loop iteration, every controller slot up to the
//! platform maximum is queried, whether or not a controller is attached. A
//! missing controller yields an explicit disconnected status, never a failure.

use vstd::prelude::*;

verus! {

/// Number of controller slots the platform exposes; the loop polls each one
/// every iteration regardless of physical connection.
pub const MAX_CONTROLLER_SLOTS: usize = 4;

/// A read-only snapshot of one controller's buttons and sticks.
#[derive(Clone, Copy, Debug, PartialEq, Eq, Structural)]
pub struct ControllerSample {
    pub packet_number: u32,
    pub buttons: u16,
    pub left_trigger: u8,
    pub right_trigger: u8,
    pub thumb_lx: i16,
    pub thumb_ly: i16,
    pub thumb_rx: i16,
    pub thumb_ry: i16,
}

/// The per-slot outcome of one poll. Callers must check for `Disconnected`
/// before reading stick or button fields.
#[derive(Clone, Copy, Debug, PartialEq, Eq, Structural)]
pub enum SlotStatus {
    Connected(ControllerSample),
    Disconnected,
}

/// The status owed for slot `i` given what the per-slot queries returned:
/// a present sample is forwarded, and any absent slot (no reading at all, or
/// an unconnected-device reading) is disconnected.
pub open spec fn spec_slot_status(reads: Seq<Option<ControllerSample>>, i: int) -> SlotStatus {
    if 0 <= i < reads.len() && reads[i] is Some {
        SlotStatus::Connected(reads[i]->0)
    } else {
        SlotStatus::Disconnected
    }
}

/// Poll every slot index in `[0, max_slots)`. `reads` holds what the platform
/// query returned per slot; slots beyond it, and slots whose query found no
/// device, come back `Disconnected` — polling more slots than are physically
/// present never fails.
pub fn poll_all(reads: &Vec<Option<ControllerSample>>, max_slots: usize) -> (r: Vec<SlotStatus>)
    ensures
        r@.len() == max_slots,
        forall|i: int| 0 <= i < max_slots ==> r@[i] == spec_slot_status(reads@, i),
{
    let mut out: Vec<SlotStatus> = Vec::new();
    let mut i: usize = 0;
    while i < max_slots
        invariant
            i <= max_slots,
            out@.len() == i,
            forall|j: int| 0 <= j < i ==> out@[j] == spec_slot_status(reads@, j),
        decreases max_slots - i,
    {
        if i < reads.len() {
            match reads[i] {
                Some(sample) => out.push(SlotStatus::Connected(sample)),
                None => out.push(SlotStatus::Disconnected),
            }
        } else {
            out.push(SlotStatus::Disconnected);
        }
        i = i + 1;
    }
    out
}

} // verus!
