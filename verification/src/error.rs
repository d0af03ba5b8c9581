//! Error values of the library.

use vstd::prelude::*;
use crate::text;
use crate::text::{debug_text, push_decimal, push_lower_hex, push_text};

verus! {

/// What the library keeps of a failed I/O operation: the kind that it tells
/// apart (not found, permission denied, anything else) and the failure's own
/// message.
#[derive(Debug, Clone, PartialEq, Eq)]
pub enum IoFailure {
    NotFound(String),
    PermissionDenied(String),
    Other(String),
}

/// The kind of a failed integer parse.
#[derive(Debug, Clone, Copy, PartialEq, Eq)]
pub enum IntErrorKind {
    Empty,
    InvalidDigit,
    PosOverflow,
    NegOverflow,
    Zero,
}

#[derive(Debug)]
pub enum SinfoError {
    /// sysfs read failed at `path`.
    Sysfs { path: String, source: SysfsError },
    /// MSR error on CPU `cpu`.
    Msr { cpu: u32, source: MsrError },
    /// NVML error.
    Nvml(NvmlError),
    /// SMBIOS parse error at `offset`.
    Smbios { offset: usize, message: String },
    /// NVMe ioctl error on `device`.
    NvmeIoctl { device: String, source: IoFailure },
    /// permission denied: `path` (try running as root).
    PermissionDenied { path: String },
    /// hardware not present.
    NotPresent(String),
    /// CPUID error.
    Cpuid(String),
    /// output format error.
    Output(String),
    Io(IoFailure),
    ParseInt(IntErrorKind),
    ParseFloat(String),
}

#[derive(Debug)]
pub enum SysfsError {
    /// file not found
    NotFound,
    /// permission denied
    PermissionDenied,
    /// parse error: expected `expected`, got `actual`
    Parse { expected: &'static str, actual: String },
    /// I/O error
    Io(IoFailure),
}

#[derive(Debug)]
pub enum MsrError {
    /// MSR module not loaded (/dev/cpu/*/msr not found)
    ModuleNotLoaded,
    /// permission denied reading MSR `register`
    PermissionDenied { register: u32 },
    /// I/O error
    Io(IoFailure),
}

#[derive(Debug)]
pub enum NvmlError {
    /// libnvidia-ml.so not found; NVIDIA driver not installed
    LibraryNotFound,
    /// NVML symbol not found
    SymbolNotFound(String),
    /// NVML returned an error code
    ApiError(u32),
    /// NVML initialization failed
    InitFailed,
}


/// The text of a failed I/O operation: the message the failure came with.
pub open spec fn io_text(e: IoFailure) -> Seq<char> {
    match e {
        IoFailure::NotFound(m) => m@,
        IoFailure::PermissionDenied(m) => m@,
        IoFailure::Other(m) => m@,
    }
}

/// The text of a failed integer parse.
pub open spec fn int_error_text(k: IntErrorKind) -> Seq<char> {
    match k {
        IntErrorKind::Empty => "cannot parse integer from empty string"@,
        IntErrorKind::InvalidDigit => "invalid digit found in string"@,
        IntErrorKind::PosOverflow => "number too large to fit in target type"@,
        IntErrorKind::NegOverflow => "number too small to fit in target type"@,
        IntErrorKind::Zero => "number would be zero for non-zero type"@,
    }
}

pub open spec fn sysfs_text(e: SysfsError) -> Seq<char> {
    match e {
        SysfsError::NotFound => "file not found"@,
        SysfsError::PermissionDenied => "permission denied"@,
        SysfsError::Parse { expected, actual } => "parse error: expected "@ + expected@ + ", got "@
            + text::debug_text_of(actual@),
        SysfsError::Io(f) => "I/O error: "@ + io_text(f),
    }
}

pub open spec fn msr_text(e: MsrError) -> Seq<char> {
    match e {
        MsrError::ModuleNotLoaded => "MSR module not loaded (/dev/cpu/*/msr not found)"@,
        MsrError::PermissionDenied { register } => "permission denied reading MSR 0x"@ + text::lower_hex(
            register as nat,
        ),
        MsrError::Io(f) => "I/O error: "@ + io_text(f),
    }
}

pub open spec fn nvml_text(e: NvmlError) -> Seq<char> {
    match e {
        NvmlError::LibraryNotFound => "libnvidia-ml.so not found; NVIDIA driver not installed"@,
        NvmlError::SymbolNotFound(s) => "NVML symbol not found: "@ + s@,
        NvmlError::ApiError(c) => "NVML returned error code "@ + text::decimal(c as nat),
        NvmlError::InitFailed => "NVML initialization failed"@,
    }
}

pub open spec fn sinfo_text(e: SinfoError) -> Seq<char> {
    match e {
        SinfoError::Sysfs { path, source } => "sysfs read failed at "@ + path@ + ": "@ + sysfs_text(source),
        SinfoError::Msr { cpu, source } => "MSR error on CPU "@ + text::decimal(cpu as nat) + ": "@
            + msr_text(source),
        SinfoError::Nvml(n) => "NVML error: "@ + nvml_text(n),
        SinfoError::Smbios { offset, message } => "SMBIOS parse error at offset 0x"@ + text::lower_hex(
            offset as nat,
        ) + ": "@ + message@,
        SinfoError::NvmeIoctl { device, source } => "NVMe ioctl error on "@ + device@ + ": "@ + io_text(
            source,
        ),
        SinfoError::PermissionDenied { path } => "permission denied: "@ + path@ + " (try running as root)"@,
        SinfoError::NotPresent(s) => "hardware not present: "@ + s@,
        SinfoError::Cpuid(s) => "CPUID error: "@ + s@,
        SinfoError::Output(s) => "output format error: "@ + s@,
        SinfoError::Io(f) => io_text(f),
        SinfoError::ParseInt(k) => int_error_text(k),
        SinfoError::ParseFloat(s) => s@,
    }
}

impl IoFailure {
    /// The error's message.
    pub fn message(&self) -> (m: String)
        ensures
            m@ == io_text(*self),
    {
        match self {
            IoFailure::NotFound(s) => s.clone(),
            IoFailure::PermissionDenied(s) => s.clone(),
            IoFailure::Other(s) => s.clone(),
        }
    }
}

impl IntErrorKind {
    /// The error's message.
    pub fn message(&self) -> (m: String)
        ensures
            m@ == int_error_text(*self),
    {
        let mut m = String::new();
        match self {
            IntErrorKind::Empty => push_text(&mut m, "cannot parse integer from empty string"),
            IntErrorKind::InvalidDigit => push_text(&mut m, "invalid digit found in string"),
            IntErrorKind::PosOverflow => push_text(&mut m, "number too large to fit in target type"),
            IntErrorKind::NegOverflow => push_text(&mut m, "number too small to fit in target type"),
            IntErrorKind::Zero => push_text(&mut m, "number would be zero for non-zero type"),
        }
        m
    }
}

impl SysfsError {
    /// The error's message.
    pub fn message(&self) -> (m: String)
        ensures
            m@ == sysfs_text(*self),
    {
        let mut m = String::new();
        match self {
            SysfsError::NotFound => push_text(&mut m, "file not found"),
            SysfsError::PermissionDenied => push_text(&mut m, "permission denied"),
            SysfsError::Parse { expected, actual } => {
                push_text(&mut m, "parse error: expected ");
                push_text(&mut m, expected);
                push_text(&mut m, ", got ");
                let d = debug_text(actual.as_str());
                push_text(&mut m, d.as_str());
            },
            SysfsError::Io(f) => {
                push_text(&mut m, "I/O error: ");
                let t = f.message();
                push_text(&mut m, t.as_str());
            },
        }
        assert(m@ =~= sysfs_text(*self));
        m
    }
}

impl MsrError {
    /// The error's message.
    pub fn message(&self) -> (m: String)
        ensures
            m@ == msr_text(*self),
    {
        let mut m = String::new();
        match self {
            MsrError::ModuleNotLoaded => push_text(&mut m, "MSR module not loaded (/dev/cpu/*/msr not found)"),
            MsrError::PermissionDenied { register } => {
                push_text(&mut m, "permission denied reading MSR 0x");
                push_lower_hex(&mut m, *register as u64);
            },
            MsrError::Io(f) => {
                push_text(&mut m, "I/O error: ");
                let t = f.message();
                push_text(&mut m, t.as_str());
            },
        }
        assert(m@ =~= msr_text(*self));
        m
    }
}

impl NvmlError {
    /// The error's message.
    pub fn message(&self) -> (m: String)
        ensures
            m@ == nvml_text(*self),
    {
        let mut m = String::new();
        match self {
            NvmlError::LibraryNotFound => push_text(&mut m, "libnvidia-ml.so not found; NVIDIA driver not installed"),
            NvmlError::SymbolNotFound(s) => {
                push_text(&mut m, "NVML symbol not found: ");
                push_text(&mut m, s.as_str());
            },
            NvmlError::ApiError(c) => {
                push_text(&mut m, "NVML returned error code ");
                push_decimal(&mut m, *c as u64);
            },
            NvmlError::InitFailed => push_text(&mut m, "NVML initialization failed"),
        }
        assert(m@ =~= nvml_text(*self));
        m
    }
}

impl SinfoError {
    /// The error's message.
    pub fn message(&self) -> (m: String)
        ensures
            m@ == sinfo_text(*self),
    {
        let mut m = String::new();
        match self {
            SinfoError::Sysfs { path, source } => {
                push_text(&mut m, "sysfs read failed at ");
                push_text(&mut m, path.as_str());
                push_text(&mut m, ": ");
                let t = source.message();
                push_text(&mut m, t.as_str());
            },
            SinfoError::Msr { cpu, source } => {
                push_text(&mut m, "MSR error on CPU ");
                push_decimal(&mut m, *cpu as u64);
                push_text(&mut m, ": ");
                let t = source.message();
                push_text(&mut m, t.as_str());
            },
            SinfoError::Nvml(n) => {
                push_text(&mut m, "NVML error: ");
                let t = n.message();
                push_text(&mut m, t.as_str());
            },
            SinfoError::Smbios { offset, message } => {
                push_text(&mut m, "SMBIOS parse error at offset 0x");
                push_lower_hex(&mut m, *offset as u64);
                push_text(&mut m, ": ");
                push_text(&mut m, message.as_str());
            },
            SinfoError::NvmeIoctl { device, source } => {
                push_text(&mut m, "NVMe ioctl error on ");
                push_text(&mut m, device.as_str());
                push_text(&mut m, ": ");
                let t = source.message();
                push_text(&mut m, t.as_str());
            },
            SinfoError::PermissionDenied { path } => {
                push_text(&mut m, "permission denied: ");
                push_text(&mut m, path.as_str());
                push_text(&mut m, " (try running as root)");
            },
            SinfoError::NotPresent(s) => {
                push_text(&mut m, "hardware not present: ");
                push_text(&mut m, s.as_str());
            },
            SinfoError::Cpuid(s) => {
                push_text(&mut m, "CPUID error: ");
                push_text(&mut m, s.as_str());
            },
            SinfoError::Output(s) => {
                push_text(&mut m, "output format error: ");
                push_text(&mut m, s.as_str());
            },
            SinfoError::Io(f) => {
                let t = f.message();
                push_text(&mut m, t.as_str());
            },
            SinfoError::ParseInt(k) => {
                let t = k.message();
                push_text(&mut m, t.as_str());
            },
            SinfoError::ParseFloat(s) => push_text(&mut m, s.as_str()),
        }
        assert(m@ =~= sinfo_text(*self));
        m
    }
}

} // verus!
