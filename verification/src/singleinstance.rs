//! One writer of the restore map at a time: a named mutex of the session.

use vstd::prelude::*;

verus! {

/// The name of the mutex.
pub const MUTEX_NAME: &'static str = "Local\\tbg-lite.map";

/// The code that says that the mutex was there before.
pub const ERROR_ALREADY_EXISTS: u32 = 183;

/// The mutex has its name, and that it was there before has its number.
pub proof fn law_mutex()
    ensures
        MUTEX_NAME@ == "Local\\tbg-lite.map"@,
        ERROR_ALREADY_EXISTS == 183,
{
}

/// Whether the mutex is now held: it is where it could be created, or the reason
/// why not, and where it was not there before. `last_error` is the code that the
/// creation left behind.
pub fn acquire(created: Result<(), String>, last_error: u32) -> (r: Result<(), String>)
    ensures
        match created {
            Err(e) => r matches Err(w) && w@ == "cannot create mutex '"@ + MUTEX_NAME@ + "': "@
                + e@,
            Ok(()) => if last_error == ERROR_ALREADY_EXISTS {
                r matches Err(w) && w@ == "another tbg-lite instance holds the restore map ("@
                    + MUTEX_NAME@
                    + "); stop it before running this command (concurrency guard, audit BUG-02)"@
            } else {
                r is Ok
            },
        },
{
    match created {
        Err(e) => {
            let mut w: String = "cannot create mutex '".to_owned();
            w.push_str(MUTEX_NAME);
            w.push_str("': ");
            w.push_str(e.as_str());
            Err(w)
        },
        Ok(()) => {
            if last_error == ERROR_ALREADY_EXISTS {
                let mut w: String = "another tbg-lite instance holds the restore map (".to_owned();
                w.push_str(MUTEX_NAME);
                w.push_str(
                    "); stop it before running this command (concurrency guard, audit BUG-02)",
                );
                Err(w)
            } else {
                Ok(())
            }
        },
    }
}

} // verus!
