//! Register tables of Nuvoton NCT6775-NCT6799 Super I/O chips, and the
//! readings that the values of their hardware monitor registers give.
//!
//! The registers are read through I/O port address/data pairs; this module
//! turns the bytes read into voltage, temperature and fan readings.

use vstd::prelude::*;
use crate::model::sensor::SensorId;
use crate::sensors::superio::chip_detect::{ChipType, SuperIoChip};
use crate::text;
use crate::text::{chars_of, push_decimal};

verus! {

/// Bank select register (banked: high byte = bank, low byte = register).
pub const REG_BANK: u8 = 0x4E;

/// Voltage registers (bank 4, 18 channels for NCT6798).
pub const VOLTAGE_REGS: [(u16, &'static str); 18] = [
    (0x480, "VIN0"),
    (0x481, "VIN1"),
    (0x482, "VIN2"),
    (0x483, "VIN3"),
    (0x484, "VIN4"),
    (0x485, "VIN5"),
    (0x486, "VIN6"),
    (0x487, "VIN7"),
    (0x488, "VBAT"),
    (0x489, "VTT"),
    (0x48A, "VIN10"),
    (0x48B, "VIN11"),
    (0x48C, "VIN12"),
    (0x48D, "VIN13"),
    (0x48E, "VIN14"),
    (0x48F, "VIN15"),
    (0x470, "VIN16"),
    (0x471, "VIN17"),
];

/// Internal voltage scaling factors of the NCT6798 (0.001 V per LSB times
/// factor / 100), in the order of `VOLTAGE_REGS`.
pub const VOLTAGE_SCALE_NCT6798: [u32; 18] = [
    800, 800, 1600, 1600, 800, 800, 800, 1600,
    1600, 1600, 1600, 1600, 800, 800, 800, 800,
    1600, 800,
];

/// Temperature monitoring registers (whole degrees).
pub const TEMP_REGS: [(u16, &'static str); 7] = [
    (0x027, "SYSTIN"),
    (0x073, "PECI Agent 0"),
    (0x075, "CPUTIN"),
    (0x077, "SYSTIN2"),
    (0x079, "AUXTIN0"),
    (0x07B, "AUXTIN1"),
    (0x07D, "AUXTIN2"),
];

/// Additional temperature registers (bank 4/6), with a half degree in the
/// top bit of the next register.
pub const TEMP_EXTRA_REGS: [(u16, &'static str); 5] = [
    (0x4A0, "AUXTIN3"),
    (0x670, "AUXTIN0 Direct"),
    (0x672, "AUXTIN1 Direct"),
    (0x674, "AUXTIN2 Direct"),
    (0x676, "AUXTIN3 Direct"),
];

/// Fan count registers (16-bit, bank 4).
pub const FAN_REGS: [(u16, &'static str); 7] = [
    (0x4C0, "Fan 1"),
    (0x4C2, "Fan 2"),
    (0x4C4, "Fan 3"),
    (0x4C6, "Fan 4"),
    (0x4C8, "Fan 5"),
    (0x4CA, "Fan 6"),
    (0x4CE, "Fan 7"),
];

/// Fan RPM divisor constant.
pub const FAN_RPM_FACTOR: u32 = 1_350_000;

/// The value of a reading.
#[derive(Debug, Clone, Copy, PartialEq, Eq)]
pub enum NctValue {
    /// `raw * scale / 100` millivolts.
    Voltage { raw: u8, scale: u32 },
    /// `degrees` Celsius, plus half a degree when `half`.
    Temperature { degrees: i8, half: bool },
    /// Revolutions per minute.
    FanRpm(u32),
}

/// A reading of the chip: the sensor, its label and its value.
#[derive(Debug, Clone)]
pub struct NctReading {
    pub id: SensorId,
    pub label: String,
    pub value: NctValue,
}

/// What reading the chip's registers returned, in the order of the register
/// tables (`None` where a read failed).
#[derive(Debug, Clone)]
pub struct NctRegisters {
    /// `VOLTAGE_REGS`.
    pub voltages: [Option<u8>; 18],
    /// `TEMP_REGS`.
    pub temps: [Option<u8>; 7],
    /// `TEMP_EXTRA_REGS`: the register, and the register after it (read only
    /// when the first holds a temperature).
    pub extra_temps: [(Option<u8>, Option<u8>); 5],
    /// `FAN_REGS`: the high byte, and the low byte (read only when the high
    /// byte was read).
    pub fans: [(Option<u8>, Option<u8>); 7],
}

pub struct Nct67xxSource {
    chip: SuperIoChip,
    addr_port: u16,
    data_port: u16,
}

/// The two's-complement value of `raw`.
pub open spec fn signed(raw: u8) -> int {
    if raw < 128 {
        raw as int
    } else {
        raw as int - 256
    }
}

/// A temperature byte that holds a reading: neither 0 nor -128.
pub open spec fn spec_temp_connected(raw: u8) -> bool {
    raw != 0 && raw != 0x80
}

/// `s` with ASCII capitals lowered and spaces turned into underscores.
pub open spec fn snake(s: Seq<char>) -> Seq<char> {
    Seq::new(
        s.len(),
        |i: int|
            if 'A' <= s[i] && s[i] <= 'Z' {
                ((s[i] as int) + 32) as char
            } else if s[i] == ' ' {
                '_'
            } else {
                s[i]
            },
    )
}

/// RPM of a fan whose count register holds `count`: stopped or disconnected
/// (0 or 0xFFFF) reads as 0.
pub open spec fn spec_fan_rpm(count: u16) -> u32 {
    if count == 0 || count == 0xFFFF {
        0
    } else {
        (FAN_RPM_FACTOR / (count as u32)) as u32
    }
}

/// `r` is a reading of chip `chip` for sensor `sensor`, labelled `label`.
pub open spec fn reading_is(r: NctReading, chip: Seq<char>, sensor: Seq<char>, label: Seq<char>, value: NctValue) -> bool {
    &&& r.id.source@ == "superio"@
    &&& r.id.chip@ == chip
    &&& r.id.sensor@ == sensor
    &&& r.label@ == label
    &&& r.value == value
}

/// The voltage readings of the first `n` voltage registers.
pub open spec fn voltage_readings(chip: Seq<char>, regs: Seq<Option<u8>>, n: nat, rs: Seq<NctReading>) -> bool
    decreases n,
{
    if n == 0 {
        rs.len() == 0
    } else {
        let i = n - 1;
        match regs[i] {
            Some(raw) => if raw != 0 {
                &&& rs.len() > 0
                &&& reading_is(
                    rs.last(),
                    chip,
                    "vin"@ + text::decimal(i as nat),
                    VOLTAGE_REGS@[i].1@,
                    NctValue::Voltage { raw, scale: VOLTAGE_SCALE_NCT6798@[i] },
                )
                &&& voltage_readings(chip, regs, (n - 1) as nat, rs.drop_last())
            } else {
                voltage_readings(chip, regs, (n - 1) as nat, rs)
            },
            None => voltage_readings(chip, regs, (n - 1) as nat, rs),
        }
    }
}

/// The temperature readings of the first `n` temperature registers.
pub open spec fn temp_readings(chip: Seq<char>, regs: Seq<Option<u8>>, n: nat, rs: Seq<NctReading>) -> bool
    decreases n,
{
    if n == 0 {
        rs.len() == 0
    } else {
        let i = n - 1;
        match regs[i] {
            Some(raw) => if spec_temp_connected(raw) {
                &&& rs.len() > 0
                &&& reading_is(
                    rs.last(),
                    chip,
                    snake(TEMP_REGS@[i].1@),
                    TEMP_REGS@[i].1@,
                    NctValue::Temperature { degrees: signed(raw) as i8, half: false },
                )
                &&& temp_readings(chip, regs, (n - 1) as nat, rs.drop_last())
            } else {
                temp_readings(chip, regs, (n - 1) as nat, rs)
            },
            None => temp_readings(chip, regs, (n - 1) as nat, rs),
        }
    }
}

/// The readings of the first `n` additional temperature registers.
pub open spec fn extra_temp_readings(
    chip: Seq<char>,
    regs: Seq<(Option<u8>, Option<u8>)>,
    n: nat,
    rs: Seq<NctReading>,
) -> bool
    decreases n,
{
    if n == 0 {
        rs.len() == 0
    } else {
        let i = n - 1;
        match regs[i].0 {
            Some(raw) => if spec_temp_connected(raw) {
                let half = match regs[i].1 {
                    Some(f) => f >= 0x80,
                    None => false,
                };
                &&& rs.len() > 0
                &&& reading_is(
                    rs.last(),
                    chip,
                    snake(TEMP_EXTRA_REGS@[i].1@),
                    TEMP_EXTRA_REGS@[i].1@,
                    NctValue::Temperature { degrees: signed(raw) as i8, half },
                )
                &&& extra_temp_readings(chip, regs, (n - 1) as nat, rs.drop_last())
            } else {
                extra_temp_readings(chip, regs, (n - 1) as nat, rs)
            },
            None => extra_temp_readings(chip, regs, (n - 1) as nat, rs),
        }
    }
}

/// The readings of the first `n` fans.
pub open spec fn fan_readings(chip: Seq<char>, regs: Seq<(Option<u8>, Option<u8>)>, n: nat, rs: Seq<NctReading>) -> bool
    decreases n,
{
    if n == 0 {
        rs.len() == 0
    } else {
        let i = n - 1;
        match regs[i] {
            (Some(hi), Some(lo)) => {
                &&& rs.len() > 0
                &&& reading_is(
                    rs.last(),
                    chip,
                    "fan"@ + text::decimal((i + 1) as nat),
                    FAN_REGS@[i].1@,
                    NctValue::FanRpm(spec_fan_rpm((hi as int * 256 + lo as int) as u16)),
                )
                &&& fan_readings(chip, regs, (n - 1) as nat, rs.drop_last())
            },
            _ => fan_readings(chip, regs, (n - 1) as nat, rs),
        }
    }
}

pub open spec fn is_nct(c: ChipType) -> bool {
    !(c is Other)
}

/// The name of a chip in the sensor ids: `nct6798` and the like.
pub open spec fn spec_chip_name(c: ChipType) -> Seq<char> {
    match c {
        ChipType::Nct6775 => "nct6775"@,
        ChipType::Nct6776 => "nct6776"@,
        ChipType::Nct6779 => "nct6779"@,
        ChipType::Nct6791 => "nct6791"@,
        ChipType::Nct6792 => "nct6792"@,
        ChipType::Nct6793 => "nct6793"@,
        ChipType::Nct6795 => "nct6795"@,
        ChipType::Nct6796 => "nct6796"@,
        ChipType::Nct6797 => "nct6797"@,
        ChipType::Nct6798 => "nct6798"@,
        ChipType::Nct6799 => "nct6799"@,
        ChipType::Other(id) => "superio"@,
    }
}

/// The name of a chip in the sensor ids.
pub fn chip_name(c: ChipType) -> (s: String)
    ensures
        s@ == spec_chip_name(c),
{
    match c {
        ChipType::Nct6775 => "nct6775".to_owned(),
        ChipType::Nct6776 => "nct6776".to_owned(),
        ChipType::Nct6779 => "nct6779".to_owned(),
        ChipType::Nct6791 => "nct6791".to_owned(),
        ChipType::Nct6792 => "nct6792".to_owned(),
        ChipType::Nct6793 => "nct6793".to_owned(),
        ChipType::Nct6795 => "nct6795".to_owned(),
        ChipType::Nct6796 => "nct6796".to_owned(),
        ChipType::Nct6797 => "nct6797".to_owned(),
        ChipType::Nct6798 => "nct6798".to_owned(),
        ChipType::Nct6799 => "nct6799".to_owned(),
        ChipType::Other(_) => "superio".to_owned(),
    }
}

/// Bank and register number of a banked register.
pub fn register_select(reg: u16) -> (r: (u8, u8))
    ensures
        r.0 as int == reg as int / 256,
        r.1 as int == reg as int % 256,
{
    ((reg / 256) as u8, (reg % 256) as u8)
}

/// Whether a temperature byte holds a reading (neither 0 nor -128).
pub fn temp_connected(raw: u8) -> (b: bool)
    ensures
        b == spec_temp_connected(raw),
{
    raw != 0 && raw != 0x80
}

/// RPM of a fan from its count register.
pub fn fan_rpm(count: u16) -> (rpm: u32)
    ensures
        rpm == spec_fan_rpm(count),
        count != 0 && count != 0xFFFF ==> rpm as int == 1_350_000int / (count as int),
        count == 0 || count == 0xFFFF ==> rpm == 0,
{
    if count == 0 || count == 0xFFFF {
        0
    } else {
        FAN_RPM_FACTOR / (count as u32)
    }
}

/// A fan's speed is 1 350 000 divided by its count (integer division) for
/// every count but the stopped (0) and disconnected (0xFFFF) ones, which read
/// as 0: the count times the speed is at most 1 350 000, and one more
/// revolution per minute would exceed it.
pub proof fn lemma_fan_rpm_is_factor_over_count(count: u16)
    ensures
        count != 0 && count != 0xFFFF ==> spec_fan_rpm(count) as int == 1_350_000int / (count as int),
        count != 0 && count != 0xFFFF ==> spec_fan_rpm(count) as int * count as int <= 1_350_000int
            < (spec_fan_rpm(count) as int + 1) * count as int,
        count == 0 || count == 0xFFFF ==> spec_fan_rpm(count) == 0,
{
    if count != 0 && count != 0xFFFF {
        let c = count as int;
        let q = 1_350_000int / c;
        assert(q * c <= 1_350_000int < (q + 1) * c) by (nonlinear_arith)
            requires
                c > 0,
                q == 1_350_000int / c,
        ;
    }
}

/// The 16-bit value of two consecutive registers, high byte first: a word
/// only when both bytes were read.
pub fn read_word(hi: Option<u8>, lo: Option<u8>) -> (w: Option<u16>)
    ensures
        w == match (hi, lo) {
            (Some(h), Some(l)) => Some((h as int * 256 + l as int) as u16),
            _ => None::<u16>,
        },
        w matches Some(v) ==> v as int == hi->0 as int * 256 + lo->0 as int,
{
    match (hi, lo) {
        (Some(h), Some(l)) => Some((h as u16) * 256 + (l as u16)),
        _ => None,
    }
}

fn snake_case(label: &str) -> (s: String)
    ensures
        s@ == snake(label@),
{
    let cs = chars_of(label);
    let mut out: Vec<char> = Vec::new();
    for i in 0..cs.len()
        invariant
            out@ =~= snake(cs@).take(i as int),
            cs@.len() == snake(cs@).len(),
    {
        let c = cs[i];
        let d = if 'A' <= c && c <= 'Z' {
            ascii_lower(c)
        } else if c == ' ' {
            '_'
        } else {
            c
        };
        out.push(d);
        assert(snake(cs@).take(i + 1) =~= snake(cs@).take(i as int).push(d));
    }
    assert(snake(cs@).take(cs@.len() as int) =~= snake(cs@));
    text::string_from(out.as_slice())
}

fn ascii_lower(c: char) -> (d: char)
    ensures
        'A' <= c <= 'Z' ==> d as int == c as int + 32,
{
    match c {
        'A' => 'a',
        'B' => 'b',
        'C' => 'c',
        'D' => 'd',
        'E' => 'e',
        'F' => 'f',
        'G' => 'g',
        'H' => 'h',
        'I' => 'i',
        'J' => 'j',
        'K' => 'k',
        'L' => 'l',
        'M' => 'm',
        'N' => 'n',
        'O' => 'o',
        'P' => 'p',
        'Q' => 'q',
        'R' => 'r',
        'S' => 's',
        'T' => 't',
        'U' => 'u',
        'V' => 'v',
        'W' => 'w',
        'X' => 'x',
        'Y' => 'y',
        'Z' => 'z',
        _ => c,
    }
}

fn to_signed(raw: u8) -> (t: i8)
    ensures
        t as int == signed(raw),
{
    if raw < 128 {
        raw as i8
    } else {
        ((raw as i16) - 256) as i8
    }
}

impl Nct67xxSource {
    pub closed spec fn chip(self) -> SuperIoChip {
        self.chip
    }

    pub closed spec fn addr_port(self) -> u16 {
        self.addr_port
    }

    pub closed spec fn data_port(self) -> u16 {
        self.data_port
    }

    /// A source for a detected chip: its address and data ports follow the
    /// hardware monitor base.
    pub fn new(chip: SuperIoChip) -> (s: Self)
        requires
            chip.hwm_base + 6 <= u16::MAX,
        ensures
            s.chip() == chip,
            s.addr_port() == chip.hwm_base + 5,
            s.data_port() == chip.hwm_base + 6,
    {
        let addr_port = chip.hwm_base + 5;
        let data_port = chip.hwm_base + 6;
        Self { chip, addr_port, data_port }
    }

    /// The address port of the hardware monitor.
    pub fn address_port(&self) -> (p: u16)
        ensures
            p == self.addr_port(),
    {
        self.addr_port
    }

    /// The data port of the hardware monitor.
    pub fn data_port_number(&self) -> (p: u16)
        ensures
            p == self.data_port(),
    {
        self.data_port
    }

    /// Whether the chip is one of the supported Nuvoton chips.
    pub fn is_supported(&self) -> (b: bool)
        ensures
            b == is_nct(self.chip().chip),
    {
        match self.chip.chip {
            ChipType::Nct6775 | ChipType::Nct6776 | ChipType::Nct6779 | ChipType::Nct6791
            | ChipType::Nct6792 | ChipType::Nct6793 | ChipType::Nct6795 | ChipType::Nct6796
            | ChipType::Nct6797 | ChipType::Nct6798 | ChipType::Nct6799 => true,
            ChipType::Other(_) => false,
        }
    }

    /// The readings that the register values `regs` give: voltages,
    /// temperatures, additional temperatures and fans, in table order.
    pub fn poll(&self, regs: &NctRegisters) -> (r: Vec<NctReading>)
        ensures
            exists|v: Seq<NctReading>, t: Seq<NctReading>, x: Seq<NctReading>, f: Seq<NctReading>|
                #![trigger voltage_readings(spec_chip_name(self.chip().chip), regs.voltages@, 18, v), temp_readings(spec_chip_name(self.chip().chip), regs.temps@, 7, t), extra_temp_readings(spec_chip_name(self.chip().chip), regs.extra_temps@, 5, x), fan_readings(spec_chip_name(self.chip().chip), regs.fans@, 7, f)]
                {
                    &&& voltage_readings(spec_chip_name(self.chip().chip), regs.voltages@, 18, v)
                    &&& temp_readings(spec_chip_name(self.chip().chip), regs.temps@, 7, t)
                    &&& extra_temp_readings(spec_chip_name(self.chip().chip), regs.extra_temps@, 5, x)
                    &&& fan_readings(spec_chip_name(self.chip().chip), regs.fans@, 7, f)
                    &&& r@ == v + t + x + f
                },
    {
        let chip_name = chip_name(self.chip.chip);
        let ghost chip = chip_name@;
        let mut readings: Vec<NctReading> = Vec::new();

        for i in 0..18
            invariant
                chip_name@ == chip,
                regs.voltages@.len() == 18,
                voltage_readings(chip, regs.voltages@, i as nat, readings@),
        {
            let ghost before = readings@;
            match regs.voltages[i] {
                Some(raw) => {
                    if raw != 0 {
                        let mut sensor = "vin".to_owned();
                        push_decimal(&mut sensor, i as u64);
                        let id = SensorId { source: "superio".to_owned(), chip: chip_name.clone(), sensor };
                        let label = VOLTAGE_REGS[i].1.to_owned();
                        let value = NctValue::Voltage { raw, scale: VOLTAGE_SCALE_NCT6798[i] };
                        readings.push(NctReading { id, label, value });
                        assert(readings@.drop_last() =~= before);
                    }
                },
                None => {},
            }
        }
        let ghost v = readings@;

        let mut temps: Vec<NctReading> = Vec::new();
        for i in 0..7
            invariant
                chip_name@ == chip,
                regs.temps@.len() == 7,
                temp_readings(chip, regs.temps@, i as nat, temps@),
        {
            let ghost before = temps@;
            match regs.temps[i] {
                Some(raw) => {
                    if temp_connected(raw) {
                        let label = TEMP_REGS[i].1;
                        let id = SensorId {
                            source: "superio".to_owned(),
                            chip: chip_name.clone(),
                            sensor: snake_case(label),
                        };
                        let value = NctValue::Temperature { degrees: to_signed(raw), half: false };
                        temps.push(NctReading { id, label: label.to_owned(), value });
                        assert(temps@.drop_last() =~= before);
                    }
                },
                None => {},
            }
        }
        let ghost t = temps@;

        let mut extras: Vec<NctReading> = Vec::new();
        for i in 0..5
            invariant
                chip_name@ == chip,
                regs.extra_temps@.len() == 5,
                extra_temp_readings(chip, regs.extra_temps@, i as nat, extras@),
        {
            let ghost before = extras@;
            match regs.extra_temps[i].0 {
                Some(raw) => {
                    if temp_connected(raw) {
                        let half = match regs.extra_temps[i].1 {
                            Some(f) => f >= 0x80,
                            None => false,
                        };
                        let label = TEMP_EXTRA_REGS[i].1;
                        let id = SensorId {
                            source: "superio".to_owned(),
                            chip: chip_name.clone(),
                            sensor: snake_case(label),
                        };
                        let value = NctValue::Temperature { degrees: to_signed(raw), half };
                        extras.push(NctReading { id, label: label.to_owned(), value });
                        assert(extras@.drop_last() =~= before);
                    }
                },
                None => {},
            }
        }
        let ghost x = extras@;

        let mut fans: Vec<NctReading> = Vec::new();
        for i in 0..7
            invariant
                chip_name@ == chip,
                regs.fans@.len() == 7,
                fan_readings(chip, regs.fans@, i as nat, fans@),
        {
            let ghost before = fans@;
            match regs.fans[i] {
                (Some(hi), Some(lo)) => {
                    let count: u16 = (hi as u16) * 256 + (lo as u16);
                    let mut sensor = "fan".to_owned();
                    push_decimal(&mut sensor, (i + 1) as u64);
                    let id = SensorId { source: "superio".to_owned(), chip: chip_name.clone(), sensor };
                    let value = NctValue::FanRpm(fan_rpm(count));
                    fans.push(NctReading { id, label: FAN_REGS[i].1.to_owned(), value });
                    assert(fans@.drop_last() =~= before);
                },
                _ => {},
            }
        }
        let ghost f = fans@;

        readings.append(&mut temps);
        readings.append(&mut extras);
        readings.append(&mut fans);
        readings
    }
}

} // verus!
