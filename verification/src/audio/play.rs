//! Playing a WAV file with the system's `PlaySound`: the flags it is given
//! and what its outcome means. The caller makes the call.

use vstd::prelude::*;
use crate::errors::{CoreError, CoreResult};

verus! {

/// `SND_SYNC`: return once the sound has played.
pub const SND_SYNC: u32 = 0x0000;
/// `SND_ASYNC`: return at once.
pub const SND_ASYNC: u32 = 0x0001;

/// The `PlaySound` flags: synchronous or asynchronous playback.
pub fn play_flags(sync: bool) -> (r: u32)
    ensures
        r == if sync { SND_SYNC } else { SND_ASYNC },
{
    if sync {
        SND_SYNC
    } else {
        SND_ASYNC
    }
}

/// What playing gave: `PlaySound`'s result, or no playback on this platform.
pub enum Playback {
    Unsupported,
    Played(bool),
}

/// The outcome of playing a WAV file: on a platform without `PlaySound`, the
/// `Audio` error `playback unsupported on this platform`; a failed
/// synchronous playback is the `Audio` error `PlaySound failed` (an
/// asynchronous one is not checked).
pub fn play_wav(playback: Playback, sync: bool) -> (r: CoreResult<()>)
    ensures
        match playback {
            Playback::Unsupported => r matches Err(CoreError::Audio(m)) && m@ == "playback unsupported on this platform"@,
            Playback::Played(ok) => if sync && !ok {
                r matches Err(CoreError::Audio(m)) && m@ == "PlaySound failed"@
            } else {
                r is Ok
            },
        },
{
    match playback {
        Playback::Unsupported => Err(CoreError::Audio("playback unsupported on this platform".to_owned())),
        Playback::Played(ok) => if sync && !ok {
            Err(CoreError::Audio("PlaySound failed".to_owned()))
        } else {
            Ok(())
        },
    }
}

} // verus!
