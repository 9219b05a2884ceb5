//! Firmware call gateway: the synchronous binary call interface between the
//! kernel and the firmware layer beneath it.
//!
//! The calling convention is fixed: an extension id, a function id, and up to
//! six arguments go in; an (error, value) pair comes back. The only call this
//! core ever exercises is the console-output call, so the firmware is modelled
//! by the one piece of its state the kernel can observe: the sequence of bytes
//! that have arrived on its console.

use vstd::prelude::*;
use vstd::string::StringSliceAdditionalSpecFns;

verus! {

/// Extension id of the console call.
pub const EID_CONSOLE: usize = 0x01;

/// Function id of the put-character call within the console extension.
pub const FID_PUTCHAR: usize = 0x00;

/// Error code returned for a call the firmware does not implement.
pub const SBI_ERR_NOT_SUPPORTED: usize = usize::MAX - 1;

/// Result pair of a firmware call: a numeric error code and a value, each in
/// its designated result register. Callers in this core leave both
/// uninterpreted.
pub struct SbiRet {
    pub error: usize,
    pub value: usize,
}

/// The firmware layer as the kernel observes it: the bytes delivered to its
/// console so far, in order of arrival.
pub struct Firmware {
    pub console: Vec<u8>,
}

impl Firmware {
    /// A firmware layer that has received nothing yet.
    pub fn new() -> (fw: Firmware)
        ensures
            fw.console@ == Seq::<u8>::empty(),
    {
        Firmware { console: Vec::new() }
    }
}

/// One synchronous privileged call into the firmware. The console put-character
/// call delivers the low byte of its first argument to the console and
/// succeeds; every other (extension, function) pair is not implemented and
/// leaves the firmware untouched.
pub fn sbi_call(
    fw: &mut Firmware,
    ext_id: usize,
    fn_id: usize,
    arg0: usize,
    arg1: usize,
    arg2: usize,
    arg3: usize,
    arg4: usize,
    arg5: usize,
) -> (ret: SbiRet)
    ensures
        ext_id == EID_CONSOLE && fn_id == FID_PUTCHAR ==> {
            &&& final(fw).console@ == old(fw).console@.push(arg0 as u8)
            &&& ret.error == 0
            &&& ret.value == 0
        },
        !(ext_id == EID_CONSOLE && fn_id == FID_PUTCHAR) ==> {
            &&& final(fw).console@ == old(fw).console@
            &&& ret.error == SBI_ERR_NOT_SUPPORTED
            &&& ret.value == 0
        },
{
    if ext_id == EID_CONSOLE && fn_id == FID_PUTCHAR {
        #[verifier::truncate]
        let byte = arg0 as u8;
        fw.console.push(byte);
        SbiRet { error: 0, value: 0 }
    } else {
        SbiRet { error: SBI_ERR_NOT_SUPPORTED, value: 0 }
    }
}

/// Emit one character on the firmware console.
pub fn put_char(fw: &mut Firmware, ch: u8)
    ensures
        final(fw).console@ == old(fw).console@.push(ch),
{
    sbi_call(fw, EID_CONSOLE, FID_PUTCHAR, ch as usize, 0, 0, 0, 0, 0);
}

/// Emit the bytes of a string on the firmware console, in order, one call per
/// byte.
pub fn put_string(fw: &mut Firmware, s: &str)
    ensures
        final(fw).console@ == old(fw).console@ + s.spec_bytes(),
{
    let bytes = s.as_bytes();
    let ghost base = fw.console@;
    for i in 0..bytes.len()
        invariant
            fw.console@ == base + bytes@.take(i as int),
    {
        put_char(fw, bytes[i]);
        assert(bytes@.take(i + 1) =~= bytes@.take(i as int).push(bytes@[i as int]));
    }
    assert(bytes@.take(bytes@.len() as int) =~= bytes@);
}

} // verus!
