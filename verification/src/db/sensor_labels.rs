//! Display labels for hwmon sensors: built-in labels for known boards, and
//! labels that the user gives.

use vstd::prelude::*;
use crate::platform::sysfs;
use crate::strmap::StrMap;
use crate::text;
use crate::text::{chars_of, contains_literal};

verus! {

/// The built-in labels of the ASUS WRX90E-SAGE SE (nct6798).
pub open spec fn wrx90e_labels() -> Map<Seq<char>, Seq<char>> {
    Map::<Seq<char>, Seq<char>>::empty()
        .insert("hwmon/nct6798/in0"@, "Vcore"@)
        .insert("hwmon/nct6798/in1"@, "VIN1"@)
        .insert("hwmon/nct6798/in2"@, "+3.3V"@)
        .insert("hwmon/nct6798/in3"@, "+3.3V Standby"@)
        .insert("hwmon/nct6798/in4"@, "VIN4"@)
        .insert("hwmon/nct6798/in5"@, "VIN5"@)
        .insert("hwmon/nct6798/in6"@, "VIN6"@)
        .insert("hwmon/nct6798/in7"@, "+3.3V AUX"@)
        .insert("hwmon/nct6798/in8"@, "Vbat"@)
        .insert("hwmon/nct6798/temp1"@, "SYSTIN"@)
        .insert("hwmon/nct6798/temp2"@, "CPUTIN"@)
        .insert("hwmon/nct6798/temp3"@, "AUXTIN0"@)
        .insert("hwmon/nct6798/fan1"@, "CPU Fan"@)
        .insert("hwmon/nct6798/fan2"@, "Chassis Fan 1"@)
        .insert("hwmon/nct6798/fan3"@, "Chassis Fan 2"@)
        .insert("hwmon/nct6798/fan4"@, "Chassis Fan 3"@)
        .insert("hwmon/nct6798/fan5"@, "Chassis Fan 4"@)
        .insert("hwmon/nct6798/fan6"@, "Chassis Fan 5"@)
        .insert("hwmon/nct6798/fan7"@, "AIO Pump"@)
}

/// The built-in labels for the board named `board`: those of the WRX90E when
/// the name contains "WRX90E", then those of the ROG CROSSHAIR X670E when it
/// contains both "CROSSHAIR" and "X670".
pub open spec fn spec_builtin_labels(board: Seq<char>) -> Map<Seq<char>, Seq<char>> {
    let m = if text::spec_contains(board, "WRX90E"@) {
        wrx90e_labels()
    } else {
        Map::empty()
    };
    if text::spec_contains(board, "CROSSHAIR"@) && text::spec_contains(board, "X670"@) {
        m.insert("hwmon/nct6798/in0"@, "Vcore"@).insert("hwmon/nct6798/fan1"@, "CPU Fan"@).insert(
            "hwmon/nct6798/fan2"@,
            "CPU OPT"@,
        )
    } else {
        m
    }
}

/// The labels in effect: the built-in labels of the board (when its name is
/// known), with every user label replacing the built-in one for its sensor.
pub open spec fn spec_load_labels(
    board: Option<Seq<char>>,
    user: Map<Seq<char>, Seq<char>>,
) -> Map<Seq<char>, Seq<char>> {
    let builtin = match board {
        Some(b) => spec_builtin_labels(b),
        None => Map::empty(),
    };
    builtin.union_prefer_right(user)
}

pub open spec fn opt_str_view(o: Option<&str>) -> Option<Seq<char>> {
    match o {
        Some(s) => Some(s@),
        None => None,
    }
}

fn put(m: &mut StrMap<String>, k: &str, v: &str)
    ensures
        final(m)@ == old(m)@.insert(k@, v@),
{
    m.insert(k.to_owned(), v.to_owned());
}

/// The built-in labels for the board named `board`.
pub fn builtin_labels(board: &str) -> (m: StrMap<String>)
    ensures
        m@ == spec_builtin_labels(board@),
{
    let b = chars_of(board);
    let mut m: StrMap<String> = StrMap::new();
    if contains_literal(b.as_slice(), "WRX90E") {
        put(&mut m, "hwmon/nct6798/in0", "Vcore");
        put(&mut m, "hwmon/nct6798/in1", "VIN1");
        put(&mut m, "hwmon/nct6798/in2", "+3.3V");
        put(&mut m, "hwmon/nct6798/in3", "+3.3V Standby");
        put(&mut m, "hwmon/nct6798/in4", "VIN4");
        put(&mut m, "hwmon/nct6798/in5", "VIN5");
        put(&mut m, "hwmon/nct6798/in6", "VIN6");
        put(&mut m, "hwmon/nct6798/in7", "+3.3V AUX");
        put(&mut m, "hwmon/nct6798/in8", "Vbat");
        put(&mut m, "hwmon/nct6798/temp1", "SYSTIN");
        put(&mut m, "hwmon/nct6798/temp2", "CPUTIN");
        put(&mut m, "hwmon/nct6798/temp3", "AUXTIN0");
        put(&mut m, "hwmon/nct6798/fan1", "CPU Fan");
        put(&mut m, "hwmon/nct6798/fan2", "Chassis Fan 1");
        put(&mut m, "hwmon/nct6798/fan3", "Chassis Fan 2");
        put(&mut m, "hwmon/nct6798/fan4", "Chassis Fan 3");
        put(&mut m, "hwmon/nct6798/fan5", "Chassis Fan 4");
        put(&mut m, "hwmon/nct6798/fan6", "Chassis Fan 5");
        put(&mut m, "hwmon/nct6798/fan7", "AIO Pump");
    }
    if contains_literal(b.as_slice(), "CROSSHAIR") && contains_literal(b.as_slice(), "X670") {
        put(&mut m, "hwmon/nct6798/in0", "Vcore");
        put(&mut m, "hwmon/nct6798/fan1", "CPU Fan");
        put(&mut m, "hwmon/nct6798/fan2", "CPU OPT");
    }
    m
}

/// Sensor labels: the built-in ones of the board, overridden by the user's.
pub fn load_labels(board_name: Option<&str>, user_labels: &StrMap<String>) -> (m: StrMap<String>)
    ensures
        m@ == spec_load_labels(opt_str_view(board_name), user_labels@),
{
    let mut labels: StrMap<String> = match board_name {
        Some(board) => builtin_labels(board),
        None => StrMap::new(),
    };
    labels.extend_from(user_labels);
    labels
}

/// The board name from the content of `/sys/class/dmi/id/board_name`.
pub fn read_board_name(raw: Option<String>) -> (r: Option<String>)
    ensures
        sysfs::opt_view(r) == sysfs::spec_read_string_optional(sysfs::opt_view(raw)),
{
    sysfs::read_string_optional(raw)
}

/// On a WRX90E-SAGE SE board the built-in labels are exactly: in0 Vcore,
/// in1 VIN1, in2 +3.3V, in3 +3.3V Standby, in4 VIN4, in5 VIN5, in6 VIN6,
/// in7 +3.3V AUX, in8 Vbat, temp1 SYSTIN, temp2 CPUTIN, temp3 AUXTIN0,
/// fan1 CPU Fan, fan2..fan6 Chassis Fan 1..5 and fan7 AIO Pump (all on the
/// nct6798 hwmon chip).
pub proof fn lemma_wrx90e_board_labels(board: Seq<char>, labels: Map<Seq<char>, Seq<char>>)
    requires
        text::spec_contains(board, "WRX90E"@),
        !text::spec_contains(board, "CROSSHAIR"@),
        labels == spec_builtin_labels(board),
    ensures
        labels.dom() == set![
            "hwmon/nct6798/in0"@,
            "hwmon/nct6798/in1"@,
            "hwmon/nct6798/in2"@,
            "hwmon/nct6798/in3"@,
            "hwmon/nct6798/in4"@,
            "hwmon/nct6798/in5"@,
            "hwmon/nct6798/in6"@,
            "hwmon/nct6798/in7"@,
            "hwmon/nct6798/in8"@,
            "hwmon/nct6798/temp1"@,
            "hwmon/nct6798/temp2"@,
            "hwmon/nct6798/temp3"@,
            "hwmon/nct6798/fan1"@,
            "hwmon/nct6798/fan2"@,
            "hwmon/nct6798/fan3"@,
            "hwmon/nct6798/fan4"@,
            "hwmon/nct6798/fan5"@,
            "hwmon/nct6798/fan6"@,
            "hwmon/nct6798/fan7"@
        ],
        labels[("hwmon/nct6798/in0")@] == ("Vcore")@,
        labels[("hwmon/nct6798/in1")@] == ("VIN1")@,
        labels[("hwmon/nct6798/in2")@] == ("+3.3V")@,
        labels[("hwmon/nct6798/in3")@] == ("+3.3V Standby")@,
        labels[("hwmon/nct6798/in4")@] == ("VIN4")@,
        labels[("hwmon/nct6798/in5")@] == ("VIN5")@,
        labels[("hwmon/nct6798/in6")@] == ("VIN6")@,
        labels[("hwmon/nct6798/in7")@] == ("+3.3V AUX")@,
        labels[("hwmon/nct6798/in8")@] == ("Vbat")@,
        labels[("hwmon/nct6798/temp1")@] == ("SYSTIN")@,
        labels[("hwmon/nct6798/temp2")@] == ("CPUTIN")@,
        labels[("hwmon/nct6798/temp3")@] == ("AUXTIN0")@,
        labels[("hwmon/nct6798/fan1")@] == ("CPU Fan")@,
        labels[("hwmon/nct6798/fan2")@] == ("Chassis Fan 1")@,
        labels[("hwmon/nct6798/fan3")@] == ("Chassis Fan 2")@,
        labels[("hwmon/nct6798/fan4")@] == ("Chassis Fan 3")@,
        labels[("hwmon/nct6798/fan5")@] == ("Chassis Fan 4")@,
        labels[("hwmon/nct6798/fan6")@] == ("Chassis Fan 5")@,
        labels[("hwmon/nct6798/fan7")@] == ("AIO Pump")@,
{
        reveal_strlit("hwmon/nct6798/in0");
        reveal_strlit("hwmon/nct6798/in1");
        reveal_strlit("hwmon/nct6798/in2");
        reveal_strlit("hwmon/nct6798/in3");
        reveal_strlit("hwmon/nct6798/in4");
        reveal_strlit("hwmon/nct6798/in5");
        reveal_strlit("hwmon/nct6798/in6");
        reveal_strlit("hwmon/nct6798/in7");
        reveal_strlit("hwmon/nct6798/in8");
        reveal_strlit("hwmon/nct6798/temp1");
        reveal_strlit("hwmon/nct6798/temp2");
        reveal_strlit("hwmon/nct6798/temp3");
        reveal_strlit("hwmon/nct6798/fan1");
        reveal_strlit("hwmon/nct6798/fan2");
        reveal_strlit("hwmon/nct6798/fan3");
        reveal_strlit("hwmon/nct6798/fan4");
        reveal_strlit("hwmon/nct6798/fan5");
        reveal_strlit("hwmon/nct6798/fan6");
        reveal_strlit("hwmon/nct6798/fan7");
    assert("hwmon/nct6798/in0"@.len() == 17 && "hwmon/nct6798/in0"@[16] == '0');
    assert("hwmon/nct6798/in1"@.len() == 17 && "hwmon/nct6798/in1"@[16] == '1');
    assert("hwmon/nct6798/in2"@.len() == 17 && "hwmon/nct6798/in2"@[16] == '2');
    assert("hwmon/nct6798/in3"@.len() == 17 && "hwmon/nct6798/in3"@[16] == '3');
    assert("hwmon/nct6798/in4"@.len() == 17 && "hwmon/nct6798/in4"@[16] == '4');
    assert("hwmon/nct6798/in5"@.len() == 17 && "hwmon/nct6798/in5"@[16] == '5');
    assert("hwmon/nct6798/in6"@.len() == 17 && "hwmon/nct6798/in6"@[16] == '6');
    assert("hwmon/nct6798/in7"@.len() == 17 && "hwmon/nct6798/in7"@[16] == '7');
    assert("hwmon/nct6798/in8"@.len() == 17 && "hwmon/nct6798/in8"@[16] == '8');
    assert("hwmon/nct6798/temp1"@.len() == 19 && "hwmon/nct6798/temp1"@[18] == '1');
    assert("hwmon/nct6798/temp2"@.len() == 19 && "hwmon/nct6798/temp2"@[18] == '2');
    assert("hwmon/nct6798/temp3"@.len() == 19 && "hwmon/nct6798/temp3"@[18] == '3');
    assert("hwmon/nct6798/fan1"@.len() == 18 && "hwmon/nct6798/fan1"@[17] == '1');
    assert("hwmon/nct6798/fan2"@.len() == 18 && "hwmon/nct6798/fan2"@[17] == '2');
    assert("hwmon/nct6798/fan3"@.len() == 18 && "hwmon/nct6798/fan3"@[17] == '3');
    assert("hwmon/nct6798/fan4"@.len() == 18 && "hwmon/nct6798/fan4"@[17] == '4');
    assert("hwmon/nct6798/fan5"@.len() == 18 && "hwmon/nct6798/fan5"@[17] == '5');
    assert("hwmon/nct6798/fan6"@.len() == 18 && "hwmon/nct6798/fan6"@[17] == '6');
    assert("hwmon/nct6798/fan7"@.len() == 18 && "hwmon/nct6798/fan7"@[17] == '7');
    assert(labels.dom() =~= set![
            "hwmon/nct6798/in0"@,
            "hwmon/nct6798/in1"@,
            "hwmon/nct6798/in2"@,
            "hwmon/nct6798/in3"@,
            "hwmon/nct6798/in4"@,
            "hwmon/nct6798/in5"@,
            "hwmon/nct6798/in6"@,
            "hwmon/nct6798/in7"@,
            "hwmon/nct6798/in8"@,
            "hwmon/nct6798/temp1"@,
            "hwmon/nct6798/temp2"@,
            "hwmon/nct6798/temp3"@,
            "hwmon/nct6798/fan1"@,
            "hwmon/nct6798/fan2"@,
            "hwmon/nct6798/fan3"@,
            "hwmon/nct6798/fan4"@,
            "hwmon/nct6798/fan5"@,
            "hwmon/nct6798/fan6"@,
            "hwmon/nct6798/fan7"@
        ]);
}

/// On a ROG CROSSHAIR X670E board the built-in labels are exactly in0 Vcore,
/// fan1 CPU Fan and fan2 CPU OPT.
pub proof fn lemma_crosshair_board_labels(board: Seq<char>, labels: Map<Seq<char>, Seq<char>>)
    requires
        !text::spec_contains(board, "WRX90E"@),
        text::spec_contains(board, "CROSSHAIR"@),
        text::spec_contains(board, "X670"@),
        labels == spec_builtin_labels(board),
    ensures
        labels.dom() == set!["hwmon/nct6798/in0"@, "hwmon/nct6798/fan1"@, "hwmon/nct6798/fan2"@],
        labels[("hwmon/nct6798/in0")@] == ("Vcore")@,
        labels[("hwmon/nct6798/fan1")@] == ("CPU Fan")@,
        labels[("hwmon/nct6798/fan2")@] == ("CPU OPT")@,
{
    reveal_strlit("hwmon/nct6798/in0");
    reveal_strlit("hwmon/nct6798/fan1");
    reveal_strlit("hwmon/nct6798/fan2");
    assert("hwmon/nct6798/in0"@.len() == 17 && "hwmon/nct6798/in0"@[16] == '0');
    assert("hwmon/nct6798/fan1"@.len() == 18 && "hwmon/nct6798/fan1"@[17] == '1');
    assert("hwmon/nct6798/fan2"@.len() == 18 && "hwmon/nct6798/fan2"@[17] == '2');
    assert(labels.dom() =~= set!["hwmon/nct6798/in0"@, "hwmon/nct6798/fan1"@, "hwmon/nct6798/fan2"@]);
}

/// A board that is neither has no built-in label.
pub proof fn lemma_other_board_labels(board: Seq<char>)
    requires
        !text::spec_contains(board, "WRX90E"@),
        !text::spec_contains(board, "CROSSHAIR"@),
    ensures
        spec_builtin_labels(board).dom().is_empty(),
{
}

} // verus!
