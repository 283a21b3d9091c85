//! What has to hold of the canonical producer before anything rests on it.

use vstd::prelude::*;

use crate::text::{decimal, push_decimal};

verus! {

/// The producer is the process that was spawned, and its state is finite; otherwise
/// the run fails with the first of these messages.
pub fn check_producer(pid: u32, os_pid: u32, state_finite: bool) -> (r: Result<(), String>)
    ensures
        r is Ok <==> pid == os_pid && state_finite,
        r matches Err(e) ==> e@ == if pid != os_pid {
            "producer reported pid "@ + decimal(pid as nat) + " but the OS assigned "@ + decimal(
                os_pid as nat,
            )
        } else {
            "the earned state contains a non-finite value"@
        },
{
    if pid != os_pid {
        let mut e: String = "producer reported pid ".to_owned();
        push_decimal(&mut e, pid as u64);
        e.append(" but the OS assigned ");
        push_decimal(&mut e, os_pid as u64);
        Err(e)
    } else if !state_finite {
        Err("the earned state contains a non-finite value".to_owned())
    } else {
        Ok(())
    }
}

/// The producer's process entry is gone, or cannot be looked at; otherwise the run
/// fails before it spawns a consumer.
pub fn check_exited(pid: u32, proc_gone: Option<bool>) -> (r: Result<(), String>)
    ensures
        r is Err <==> proc_gone == Some(false),
        r matches Err(e) ==> e@ == "producer pid "@ + decimal(pid as nat)
            + " still has a /proc entry after wait()"@,
{
    match proc_gone {
        Some(gone) => {
            if gone {
                return Ok(());
            }
            let mut e: String = "producer pid ".to_owned();
            push_decimal(&mut e, pid as u64);
            e.append(" still has a /proc entry after wait()");
            Err(e)
        },
        None => Ok(()),
    }
}

} // verus!
