//! Whether diagnostics are written.
use vstd::prelude::*;

use crate::paths::same_bytes;

verus! {

/// Diagnostics are on unless the variable that controls them is exactly `0`.
pub fn enabled_for(value: Option<&[u8]>) -> (result: bool)
    ensures
        result == match value {
            Some(text) => text@ != seq![48u8],
            None => true,
        },
{
    match value {
        Some(text) => {
            let off: Vec<u8> = vec![48];
            assert(off@ =~= seq![48u8]);
            !same_bytes(text, off.as_slice())
        },
        None => true,
    }
}

}
