use sinfo::error::{IoFailure, MsrError, SinfoError, SysfsError};
use sinfo::platform::msr::{from_le_bytes, read_msr, read_msr_optional, MsrRead};
use sinfo::platform::sysfs::{
    parse_int_flexible, read_i64, read_string, read_string_optional, read_u32_optional, read_u64,
    read_u64_optional,
};

#[test]
fn read_string_trims() {
    assert_eq!(read_string("/sys/x", Ok("  hello \n".to_string())).unwrap(), "hello");
}

#[test]
fn read_string_errors_carry_path_and_kind() {
    match read_string("/sys/x", Err(IoFailure::NotFound("No such file or directory (os error 2)".to_string()))) {
        Err(SinfoError::Sysfs { path, source: SysfsError::NotFound }) => assert_eq!(path, "/sys/x"),
        other => panic!("unexpected {other:?}"),
    }
    match read_string("/sys/y", Err(IoFailure::PermissionDenied("Permission denied (os error 13)".to_string()))) {
        Err(SinfoError::Sysfs { path, source: SysfsError::PermissionDenied }) => assert_eq!(path, "/sys/y"),
        other => panic!("unexpected {other:?}"),
    }
    match read_string("/sys/z", Err(IoFailure::Other("busy".to_string()))) {
        Err(SinfoError::Sysfs { source: SysfsError::Io(IoFailure::Other(m)), .. }) => assert_eq!(m, "busy"),
        other => panic!("unexpected {other:?}"),
    }
}

#[test]
fn read_u64_decimal_and_hex() {
    assert_eq!(read_u64("/p", Ok("3400000\n".to_string())).unwrap(), 3400000);
    assert_eq!(read_u64("/p", Ok("0x1f\n".to_string())).unwrap(), 31);
    assert_eq!(read_u64("/p", Ok("0XFF".to_string())).unwrap(), 255);
    assert_eq!(read_u64("/p", Ok("18446744073709551615".to_string())).unwrap(), u64::MAX);
}

#[test]
fn read_u64_parse_error_reports_content() {
    match read_u64("/p", Ok(" abc \n".to_string())) {
        Err(SinfoError::Sysfs { path, source: SysfsError::Parse { expected, actual } }) => {
            assert_eq!(path, "/p");
            assert_eq!(expected, "u64");
            assert_eq!(actual, "abc");
        }
        other => panic!("unexpected {other:?}"),
    }
    assert!(read_u64("/p", Ok("18446744073709551616".to_string())).is_err());
    assert!(read_u64("/p", Ok("-1".to_string())).is_err());
}

#[test]
fn read_i64_signed_values() {
    assert_eq!(read_i64("/t", Ok("-45000\n".to_string())).unwrap(), -45000);
    assert_eq!(read_i64("/t", Ok("+7".to_string())).unwrap(), 7);
    assert_eq!(read_i64("/t", Ok("-9223372036854775808".to_string())).unwrap(), i64::MIN);
    match read_i64("/t", Ok("0x10".to_string())) {
        Err(SinfoError::Sysfs { source: SysfsError::Parse { expected, actual }, .. }) => {
            assert_eq!(expected, "i64");
            assert_eq!(actual, "0x10");
        }
        other => panic!("unexpected {other:?}"),
    }
}

#[test]
fn optional_reads_drop_placeholders() {
    assert_eq!(read_string_optional(Some(" ASUSTeK \n".to_string())), Some("ASUSTeK".to_string()));
    assert_eq!(read_string_optional(Some("To Be Filled By O.E.M.".to_string())), None);
    assert_eq!(read_string_optional(Some("Default string\n".to_string())), None);
    assert_eq!(read_string_optional(Some("Not Specified".to_string())), None);
    assert_eq!(read_string_optional(Some(" N/A ".to_string())), None);
    assert_eq!(read_string_optional(Some("   ".to_string())), None);
    assert_eq!(read_string_optional(None), None);
}

#[test]
fn optional_numbers() {
    assert_eq!(read_u64_optional(Some("42\n".to_string())), Some(42));
    assert_eq!(read_u64_optional(Some("N/A".to_string())), None);
    assert_eq!(read_u64_optional(Some("x".to_string())), None);
    assert_eq!(read_u32_optional(Some("0x10".to_string())), Some(16));
    // The value is cut to 32 bits, as the `as u32` conversion does.
    assert_eq!(read_u32_optional(Some("4294967297".to_string())), Some(1));
}

#[test]
fn read_u64_and_read_u64_optional_agree() {
    for text in ["12", "0x2A", "junk", "", "N/A", "  99 "] {
        let strict = read_u64("/p", Ok(text.to_string())).ok();
        let optional = read_u64_optional(Some(text.to_string()));
        if optional.is_some() {
            assert_eq!(strict, optional);
        }
    }
}

#[test]
fn parse_int_flexible_forms() {
    assert_eq!(parse_int_flexible("0x1A"), Some(26));
    assert_eq!(parse_int_flexible("26"), Some(26));
    assert_eq!(parse_int_flexible("+26"), Some(26));
    assert_eq!(parse_int_flexible("0x"), None);
    assert_eq!(parse_int_flexible(""), None);
    assert_eq!(parse_int_flexible("1 2"), None);
}

#[test]
fn msr_little_endian_value() {
    assert_eq!(from_le_bytes([0x01, 0x02, 0, 0, 0, 0, 0, 0]), 0x0201);
    assert_eq!(read_msr(0, 0x10, MsrRead::Bytes([0xff; 8])).unwrap(), u64::MAX);
    assert_eq!(read_msr_optional(3, 0x10, MsrRead::Bytes([7, 0, 0, 0, 0, 0, 0, 0x80])), Some(0x8000_0000_0000_0007));
}

#[test]
fn msr_errors() {
    match read_msr(2, 0x1a0, MsrRead::OpenFailed(IoFailure::NotFound("No such file or directory (os error 2)".to_string()))) {
        Err(SinfoError::Msr { cpu, source: MsrError::ModuleNotLoaded }) => assert_eq!(cpu, 2),
        other => panic!("unexpected {other:?}"),
    }
    match read_msr(1, 0x1a0, MsrRead::OpenFailed(IoFailure::PermissionDenied("Permission denied (os error 13)".to_string()))) {
        Err(SinfoError::Msr { cpu, source: MsrError::PermissionDenied { register } }) => {
            assert_eq!(cpu, 1);
            assert_eq!(register, 0x1a0);
        }
        other => panic!("unexpected {other:?}"),
    }
    match read_msr(0, 0x10, MsrRead::SeekFailed(IoFailure::Other("seek".to_string()))) {
        Err(SinfoError::Msr { source: MsrError::Io(IoFailure::Other(m)), .. }) => assert_eq!(m, "seek"),
        other => panic!("unexpected {other:?}"),
    }
    match read_msr(0, 0x10, MsrRead::ReadFailed(IoFailure::Other("short".to_string()))) {
        Err(SinfoError::Msr { source: MsrError::Io(_), .. }) => {}
        other => panic!("unexpected {other:?}"),
    }
    assert_eq!(read_msr_optional(0, 0x10, MsrRead::ReadFailed(IoFailure::NotFound("No such file or directory (os error 2)".to_string()))), None);
}

#[test]
fn error_messages() {
    let e = read_u64("/sys/p", Ok(" abc \n".to_string())).unwrap_err();
    assert_eq!(e.message(), "sysfs read failed at /sys/p: parse error: expected u64, got \"abc\"");
    let e = read_string("/sys/q", Err(IoFailure::NotFound("No such file or directory (os error 2)".to_string()))).unwrap_err();
    assert_eq!(e.message(), "sysfs read failed at /sys/q: file not found");
    let e = read_msr(1, 0x1a0, MsrRead::OpenFailed(IoFailure::PermissionDenied("Permission denied (os error 13)".to_string()))).unwrap_err();
    assert_eq!(e.message(), "MSR error on CPU 1: permission denied reading MSR 0x1a0");
    let e = read_msr(2, 0x10, MsrRead::OpenFailed(IoFailure::NotFound("No such file or directory (os error 2)".to_string()))).unwrap_err();
    assert_eq!(e.message(), "MSR error on CPU 2: MSR module not loaded (/dev/cpu/*/msr not found)");
    let e = read_msr(0, 0x10, MsrRead::ReadFailed(IoFailure::Other("short read".to_string()))).unwrap_err();
    assert_eq!(e.message(), "MSR error on CPU 0: I/O error: short read");
    let e = SinfoError::Smbios { offset: 255, message: "bad header".to_string() };
    assert_eq!(e.message(), "SMBIOS parse error at offset 0xff: bad header");
    let e = SinfoError::PermissionDenied { path: "/dev/mem".to_string() };
    assert_eq!(e.message(), "permission denied: /dev/mem (try running as root)");
    let e = SinfoError::Nvml(sinfo::error::NvmlError::ApiError(3));
    assert_eq!(e.message(), "NVML error: NVML returned error code 3");
    let e = SinfoError::ParseInt(sinfo::error::IntErrorKind::InvalidDigit);
    assert_eq!(e.message(), "invalid digit found in string");
}

#[test]
fn io_errors_keep_their_own_message() {
    let e = SinfoError::Io(IoFailure::NotFound("No such file or directory (os error 2)".to_string()));
    assert_eq!(e.message(), "No such file or directory (os error 2)");
    let e = read_msr(0, 0x10, MsrRead::SeekFailed(IoFailure::PermissionDenied("Permission denied (os error 13)".to_string())))
        .unwrap_err();
    assert_eq!(e.message(), "MSR error on CPU 0: I/O error: Permission denied (os error 13)");
}
