//! Model-specific registers, read through `/dev/cpu/<n>/msr`: what a read
//! yields, given how the device file responded.

use vstd::prelude::*;
use crate::error::{IoFailure, MsrError, SinfoError};

verus! {

/// How reading eight bytes at offset `register` of `/dev/cpu/<cpu>/msr` went.
#[derive(Debug)]
pub enum MsrRead {
    /// Opening the device file failed.
    OpenFailed(IoFailure),
    /// Seeking to the register failed.
    SeekFailed(IoFailure),
    /// Reading the eight bytes failed.
    ReadFailed(IoFailure),
    /// The eight bytes read.
    Bytes([u8; 8]),
}

/// The number that the little-endian bytes `b` denote.
pub open spec fn le_value(b: Seq<u8>) -> nat
    decreases b.len(),
{
    if b.len() == 0 {
        0
    } else {
        (b[0] + 256 * le_value(b.drop_first())) as nat
    }
}

pub open spec fn pow256(n: nat) -> nat
    decreases n,
{
    if n == 0 {
        1
    } else {
        256 * pow256((n - 1) as nat)
    }
}

proof fn lemma_le_value_bound(b: Seq<u8>)
    ensures
        le_value(b) < pow256(b.len()),
    decreases b.len(),
{
    if b.len() > 0 {
        lemma_le_value_bound(b.drop_first());
    }
}

proof fn lemma_pow256_mono(a: nat, b: nat)
    requires
        a <= b,
    ensures
        pow256(a) <= pow256(b),
    decreases b,
{
    if a < b {
        lemma_pow256_mono(a, (b - 1) as nat);
    }
}

/// `u64::from_le_bytes`.
pub fn from_le_bytes(b: [u8; 8]) -> (v: u64)
    ensures
        v == le_value(b@),
{
    proof {
        reveal_with_fuel(pow256, 9);
        assert(pow256(8) == 0x1_0000_0000_0000_0000);
    }
    let mut acc: u64 = 0;
    let mut i: usize = 8;
    assert(b@.skip(8) =~= Seq::<u8>::empty());
    while i > 0
        invariant
            i <= 8,
            b@.len() == 8,
            acc == le_value(b@.skip(i as int)),
            pow256(8) == 0x1_0000_0000_0000_0000,
        decreases i,
    {
        proof {
            lemma_le_value_bound(b@.skip(i as int));
            lemma_pow256_mono((8 - i) as nat, 7);
        }
        let ghost s = b@.skip(i - 1);
        assert(s.drop_first() =~= b@.skip(i as int));
        assert(s[0] == b@[i - 1]);
        acc = acc * 256 + (b[i - 1] as u64);
        i = i - 1;
    }
    assert(b@.skip(0) =~= b@);
    acc
}

/// `source` is the MSR error that failing to open the device file with `e`
/// becomes.
pub open spec fn open_error(e: IoFailure, register: u32, source: MsrError) -> bool {
    match e {
        IoFailure::NotFound(_) => source is ModuleNotLoaded,
        IoFailure::PermissionDenied(_) => source == MsrError::PermissionDenied { register },
        IoFailure::Other(_) => source == MsrError::Io(e),
    }
}

/// The value of MSR `register` on CPU `cpu`, given how reading it went.
pub fn read_msr(cpu: u32, register: u32, outcome: MsrRead) -> (r: Result<u64, SinfoError>)
    ensures
        match outcome {
            MsrRead::OpenFailed(e) => r matches Err(SinfoError::Msr { cpu: c, source }) && c == cpu
                && open_error(e, register, source),
            MsrRead::SeekFailed(e) => r matches Err(SinfoError::Msr { cpu: c, source }) && c == cpu
                && source == MsrError::Io(e),
            MsrRead::ReadFailed(e) => r matches Err(SinfoError::Msr { cpu: c, source }) && c == cpu
                && source == MsrError::Io(e),
            MsrRead::Bytes(b) => r matches Ok(v) && v == le_value(b@),
        },
{
    match outcome {
        MsrRead::OpenFailed(e) => {
            let source = match e {
                IoFailure::NotFound(_) => MsrError::ModuleNotLoaded,
                IoFailure::PermissionDenied(_) => MsrError::PermissionDenied { register },
                IoFailure::Other(_) => MsrError::Io(e),
            };
            Err(SinfoError::Msr { cpu, source })
        },
        MsrRead::SeekFailed(e) => Err(SinfoError::Msr { cpu, source: MsrError::Io(e) }),
        MsrRead::ReadFailed(e) => Err(SinfoError::Msr { cpu, source: MsrError::Io(e) }),
        MsrRead::Bytes(b) => Ok(from_le_bytes(b)),
    }
}

/// The value of MSR `register` on CPU `cpu`, or `None` on any failure.
pub fn read_msr_optional(cpu: u32, register: u32, outcome: MsrRead) -> (r: Option<u64>)
    ensures
        r == match outcome {
            MsrRead::Bytes(b) => Some(le_value(b@) as u64),
            _ => None::<u64>,
        },
{
    match read_msr(cpu, register, outcome) {
        Ok(v) => Some(v),
        Err(_) => None,
    }
}

} // verus!
