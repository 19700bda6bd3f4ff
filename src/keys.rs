use vstd::prelude::*;
use crate::error::TextError;

verus! {

/// Copies key material of exactly 32 bytes into an array.
pub fn bytes_32(b: &[u8]) -> (r: Result<[u8; 32], TextError>)
    ensures
        match r {
            Ok(a) => b@.len() == 32 && a@ == b@,
            Err(e) => b@.len() != 32 && e == (TextError::KeyFormat {
                expected: 32,
                actual: b@.len() as usize,
            }),
        },
{
    if b.len() != 32 {
        return Err(TextError::KeyFormat { expected: 32, actual: b.len() });
    }
    let mut a = [0u8; 32];
    let mut i: usize = 0;
    while i < 32
        invariant
            b@.len() == 32,
            i <= 32,
            forall|k: int| 0 <= k < i ==> a@[k] == b@[k],
        decreases 32 - i,
    {
        a[i] = b[i];
        i = i + 1;
    }
    assert(a@ =~= b@);
    Ok(a)
}

/// Copies a nonce of exactly 12 bytes into an array.
pub fn bytes_12(b: &[u8]) -> (r: Result<[u8; 12], TextError>)
    ensures
        match r {
            Ok(a) => b@.len() == 12 && a@ == b@,
            Err(e) => b@.len() != 12 && e == (TextError::KeyFormat {
                expected: 12,
                actual: b@.len() as usize,
            }),
        },
{
    if b.len() != 12 {
        return Err(TextError::KeyFormat { expected: 12, actual: b.len() });
    }
    let mut a = [0u8; 12];
    let mut i: usize = 0;
    while i < 12
        invariant
            b@.len() == 12,
            i <= 12,
            forall|k: int| 0 <= k < i ==> a@[k] == b@[k],
        decreases 12 - i,
    {
        a[i] = b[i];
        i = i + 1;
    }
    assert(a@ =~= b@);
    Ok(a)
}

} // verus!
