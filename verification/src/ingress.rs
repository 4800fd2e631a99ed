use vstd::prelude::*;

use crate::registry::ClickEvent;
use crate::registry::EventSpec;
use crate::registry::Registry;
use crate::registry::spec_attach;
use crate::registry::spec_broadcast;
use crate::sound::SoundRef;
use crate::sound::SoundSpec;

verus! {

/// A request is rejected before it touches shared state when its room id or
/// its sound name is malformed.
#[derive(Debug, PartialEq, Eq, Structural, Clone, Copy)]
pub enum ValidationError {
    EmptyRoomId,
    EmptySoundName,
}

/// The sound an accepted click carries: the default cue when no name was
/// given, the named sound otherwise.
pub open spec fn click_sound(sound: Option<&String>) -> SoundSpec {
    match sound {
        None => SoundSpec::DefaultCue,
        Some(n) => SoundSpec::Named(n@),
    }
}

/// Accept a click for the room `room_id`: validate, build the event, and
/// hand it to the registry for fan-out. The acknowledgment only says the
/// click was accepted; the clicker never learns how many listeners, if any,
/// received it.
pub fn handle_click(
    reg: &mut Registry,
    room_id: &String,
    sound: Option<&String>,
    now: u64,
) -> (r: Result<(), ValidationError>)
    requires
        old(reg).wf(),
    ensures
        final(reg).wf(),
        final(reg)@.next_handle == old(reg)@.next_handle,
        r == Ok::<(), ValidationError>(()) <==> (room_id@.len() > 0 && (sound matches Some(n)
            ==> n@.len() > 0)),
        room_id@.len() == 0 ==> r == Err::<(), ValidationError>(ValidationError::EmptyRoomId),
        room_id@.len() > 0 && (sound matches Some(n) && n@.len() == 0) ==> r == Err::<
            (),
            ValidationError,
        >(ValidationError::EmptySoundName),
        r is Err ==> final(reg)@ == old(reg)@,
        r is Ok ==> final(reg)@.rooms == spec_broadcast(
            old(reg)@.rooms,
            room_id@,
            EventSpec { sound: click_sound(sound), timestamp: now },
        ),
{
    if room_id.as_str().is_empty() {
        return Err(ValidationError::EmptyRoomId);
    }
    let sound_ref = match sound {
        None => SoundRef::DefaultCue,
        Some(n) => {
            if n.as_str().is_empty() {
                return Err(ValidationError::EmptySoundName);
            }
            SoundRef::Named(n.clone())
        },
    };
    let event = ClickEvent { sound: sound_ref, timestamp: now };
    reg.broadcast(room_id, &event);
    Ok(())
}

/// Accept a new listener for the room `room_id`: validate the id, then open
/// a session through the registry and hand back its fresh handle.
pub fn handle_attach(reg: &mut Registry, room_id: &String) -> (r: Result<u64, ValidationError>)
    requires
        old(reg).wf(),
        old(reg).next_handle < u64::MAX,
    ensures
        final(reg).wf(),
        r == Ok::<u64, ValidationError>(old(reg)@.next_handle) <==> room_id@.len() > 0,
        room_id@.len() == 0 ==> r == Err::<u64, ValidationError>(ValidationError::EmptyRoomId)
            && final(reg)@ == old(reg)@,
        room_id@.len() > 0 ==> final(reg)@.rooms == spec_attach(
            old(reg)@.rooms,
            room_id@,
            old(reg)@.next_handle,
        ) && final(reg)@.next_handle == old(reg)@.next_handle + 1,
{
    if room_id.as_str().is_empty() {
        return Err(ValidationError::EmptyRoomId);
    }
    let h = reg.attach(room_id);
    Ok(h)
}

} // verus!
