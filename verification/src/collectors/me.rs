//! The Intel Management Engine, from the `fw_ver` attribute of the MEI
//! devices.

use vstd::prelude::*;
use crate::platform::sysfs;
use crate::platform::sysfs::opt_view;

verus! {

#[derive(Debug, Clone)]
pub struct ManagementEngine {
    pub firmware_version: Option<String>,
    pub device_path: String,
}

/// A MEI device directory (`/sys/class/mei/mei*`) and what reading its
/// `fw_ver` attribute returned.
#[derive(Debug, Clone)]
pub struct MeiDevice {
    pub path: String,
    pub fw_ver: Option<String>,
}

/// `r` is what the MEI devices `ds` give, the first with a firmware version
/// deciding, or else the `fw_ver` read of `/sys/class/mei/mei0` (`fallback`).
pub open spec fn me_from(
    ds: Seq<MeiDevice>,
    fallback: Option<Seq<char>>,
    r: Option<ManagementEngine>,
) -> bool
    decreases ds.len(),
{
    if ds.len() == 0 {
        match sysfs::spec_read_string_optional(fallback) {
            Some(v) => r matches Some(m) && opt_view(m.firmware_version) == Some(v)
                && m.device_path@ == "/sys/class/mei/mei0"@,
            None => r is None,
        }
    } else {
        match sysfs::spec_read_string_optional(opt_view(ds[0].fw_ver)) {
            Some(v) => r matches Some(m) && opt_view(m.firmware_version) == Some(v)
                && m.device_path@ == ds[0].path@,
            None => me_from(ds.drop_first(), fallback, r),
        }
    }
}

/// The Management Engine that the MEI devices describe, if any.
pub fn collect(devices: &Vec<MeiDevice>, fallback_fw_ver: Option<String>) -> (r: Option<
    ManagementEngine,
>)
    ensures
        me_from(devices@, opt_view(fallback_fw_ver), r),
{
    let mut i: usize = 0;
    assert(devices@.skip(0) =~= devices@);
    while i < devices.len()
        invariant
            i <= devices.len(),
            forall|r: Option<ManagementEngine>|
                me_from(devices@.skip(i as int), opt_view(fallback_fw_ver), r) ==> me_from(
                    devices@,
                    opt_view(fallback_fw_ver),
                    r,
                ),
        decreases devices.len() - i,
    {
        let ghost s = devices@.skip(i as int);
        assert(s[0] == devices@[i as int]);
        assert(s.drop_first() =~= devices@.skip(i + 1));
        let fw_ver = sysfs::clean_optional(&devices[i].fw_ver);
        if fw_ver.is_some() {
            let r = Some(
                ManagementEngine { firmware_version: fw_ver, device_path: devices[i].path.clone() },
            );
            assert(me_from(s, opt_view(fallback_fw_ver), r));
            return r;
        }
        i = i + 1;
    }
    assert(devices@.skip(i as int) =~= Seq::<MeiDevice>::empty());
    let fw_ver = sysfs::read_string_optional(fallback_fw_ver);
    if fw_ver.is_some() {
        return Some(
            ManagementEngine {
                firmware_version: fw_ver,
                device_path: "/sys/class/mei/mei0".to_owned(),
            },
        );
    }
    None
}

} // verus!
