//! Sound cards from `/proc/asound/cards` and their codec files.

use vstd::prelude::*;
use crate::model::audio::{AudioBusType, AudioDevice};
use crate::sort::{in_stable_order, sort_by_key, sorted_by_key, SortKey};
use crate::text;
use crate::text::{
    chars_of, is_literal, lines, parse_unsigned, split_once, split_once_str, string_from,
    strip_prefix, trim,
};

verus! {

/// What the header line of a card in `/proc/asound/cards` says of it.
#[derive(Debug, Clone)]
pub struct CardHeader {
    pub card_index: u32,
    pub card_id: String,
    pub card_long_name: String,
    pub driver: String,
    pub bus_type: AudioBusType,
}

/// `t` is the bus type of a card driven by `driver`.
pub open spec fn bus_type_is(t: AudioBusType, driver: Seq<char>) -> bool {
    if driver == "HDA-Intel"@ {
        t is HdAudio
    } else if driver == "USB-Audio"@ {
        t is Usb
    } else if driver == "AC97"@ {
        t is Ac97
    } else if driver == "Dummy"@ || driver == "Loopback"@ {
        t is Virtual
    } else {
        t matches AudioBusType::Unknown(x) && x@ == driver
    }
}

/// Index, id, long name and driver that a header line
/// (` 0 [NVidia         ]: HDA-Intel - HDA NVidia`) gives.
pub open spec fn spec_parse_card(header: Seq<char>) -> Option<(u32, Seq<char>, Seq<char>, Seq<char>)> {
    match text::spec_split_once(text::spec_trim(header), '[') {
        None => None,
        Some((index_str, rest)) => match text::spec_parse_unsigned(
            text::spec_trim(index_str),
            10,
            u32::MAX as int,
        ) {
            None => None,
            Some(index) => match text::spec_split_once(rest, ']') {
                None => None,
                Some((id_raw, rest)) => match text::spec_strip_prefix(rest, ": "@) {
                    None => None,
                    Some(r) => {
                        let r = text::spec_trim(r);
                        match text::spec_split_once_str(r, " - "@) {
                            Some((drv, name)) => Some(
                                (
                                    index as u32,
                                    text::spec_trim(id_raw),
                                    text::spec_trim(name),
                                    text::spec_trim(drv),
                                ),
                            ),
                            None => Some((index as u32, text::spec_trim(id_raw), Seq::empty(), r)),
                        }
                    },
                },
            },
        },
    }
}

/// `h` is what the header line `line` says.
pub open spec fn header_from(line: Seq<char>, h: CardHeader) -> bool {
    &&& spec_parse_card(line) matches Some((index, id, long_name, driver))
    &&& h.card_index == index
    &&& h.card_id@ == id
    &&& h.card_long_name@ == long_name
    &&& h.driver@ == driver
    &&& bus_type_is(h.bus_type, driver)
}

/// The lines of the cards file that start a card: the first of each pair.
pub open spec fn header_lines(ls: Seq<Seq<char>>) -> Seq<Seq<char>> {
    Seq::new(((ls.len() + 1) / 2) as nat, |i: int| ls[2 * i])
}

/// `hs` holds, in order, the cards that the header lines `ls` describe.
pub open spec fn headers_from(ls: Seq<Seq<char>>, hs: Seq<CardHeader>) -> bool
    decreases ls.len(),
{
    if ls.len() == 0 {
        hs.len() == 0
    } else if spec_parse_card(ls.last()) is Some {
        hs.len() > 0 && header_from(ls.last(), hs.last()) && headers_from(ls.drop_last(), hs.drop_last())
    } else {
        headers_from(ls.drop_last(), hs)
    }
}

/// The codec name in the content of a `codec#0` file: the first `Codec:` line
/// with a non-empty value.
pub open spec fn codec_in(ls: Seq<Seq<char>>) -> Option<Seq<char>>
    decreases ls.len(),
{
    if ls.len() == 0 {
        None
    } else {
        match text::spec_strip_prefix(ls[0], "Codec:"@) {
            Some(v) => if text::spec_trim(v).len() > 0 {
                Some(text::spec_trim(v))
            } else {
                codec_in(ls.drop_first())
            },
            None => codec_in(ls.drop_first()),
        }
    }
}

impl SortKey for CardHeader {
    open spec fn spec_le(self, other: Self) -> bool {
        self.card_index <= other.card_index
    }

    fn key_le(&self, other: &Self) -> (r: bool) {
        self.card_index <= other.card_index
    }

    proof fn lemma_total(a: Self, b: Self) {
    }

    proof fn lemma_trans(a: Self, b: Self, c: Self) {
    }
}

/// The bus type of a card from its driver name.
pub fn classify_bus_type(driver: &str) -> (t: AudioBusType)
    ensures
        bus_type_is(t, driver@),
{
    let d = chars_of(driver);
    if is_literal(d.as_slice(), "HDA-Intel") {
        AudioBusType::HdAudio
    } else if is_literal(d.as_slice(), "USB-Audio") {
        AudioBusType::Usb
    } else if is_literal(d.as_slice(), "AC97") {
        AudioBusType::Ac97
    } else if is_literal(d.as_slice(), "Dummy") || is_literal(d.as_slice(), "Loopback") {
        AudioBusType::Virtual
    } else {
        AudioBusType::Unknown(driver.to_owned())
    }
}

/// Parses the header line of a card.
pub fn parse_card(header: &str) -> (r: Option<CardHeader>)
    ensures
        match r {
            Some(h) => header_from(header@, h),
            None => spec_parse_card(header@) is None,
        },
{
    let cs = chars_of(header);
    let h = trim(cs.as_slice());
    let (index_str, rest) = match split_once(h.as_slice(), '[') {
        Some(p) => p,
        None => return None,
    };
    let index_str = trim(index_str.as_slice());
    let card_index = match parse_unsigned(index_str.as_slice(), 10, u32::MAX as u64) {
        Some(v) => v as u32,
        None => return None,
    };
    let (id_raw, rest) = match split_once(rest.as_slice(), ']') {
        Some(p) => p,
        None => return None,
    };
    let card_id = trim(id_raw.as_slice());
    let sep = chars_of(": ");
    let rest = match strip_prefix(rest.as_slice(), sep.as_slice()) {
        Some(r) => r,
        None => return None,
    };
    let rest = trim(rest.as_slice());
    let dash = chars_of(" - ");
    let (driver, card_long_name) = match split_once_str(rest.as_slice(), dash.as_slice()) {
        Some((drv, name)) => {
            let d = trim(drv.as_slice());
            let n = trim(name.as_slice());
            (string_from(d.as_slice()), string_from(n.as_slice()))
        },
        None => (string_from(rest.as_slice()), String::new()),
    };
    let bus_type = classify_bus_type(driver.as_str());
    Some(
        CardHeader {
            card_index,
            card_id: string_from(card_id.as_slice()),
            card_long_name,
            driver,
            bus_type,
        },
    )
}

/// The cards of a `/proc/asound/cards` text (two lines per card), ordered by
/// card index.
pub fn card_headers(content: &str) -> (r: Vec<CardHeader>)
    ensures
        sorted_by_key(r@),
        exists|hs: Seq<CardHeader>|
            headers_from(header_lines(text::spec_lines(content@)), hs) && r@.to_multiset()
                == hs.to_multiset() && in_stable_order(r@, hs),
{
    let cs = chars_of(content);
    let ls = lines(cs.as_slice());
    let ghost l = text::spec_lines(content@);
    let ghost hl = header_lines(l);
    let mut found: Vec<CardHeader> = Vec::new();
    let n = ls.len() / 2 + ls.len() % 2;
    assert(n == hl.len());
    for k in 0..n
        invariant
            text::views_are(ls@, l),
            hl == header_lines(l),
            n == hl.len(),
            n == ls.len() / 2 + ls.len() % 2,
            headers_from(hl.take(k as int), found@),
    {
        assert(hl[k as int] == l[2 * k]);
        assert(ls@[2 * k]@ == l[2 * k]);
        let ghost prev = found@;
        let line = string_from(ls[2 * k].as_slice());
        match parse_card(line.as_str()) {
            Some(h) => found.push(h),
            None => {},
        }
        proof {
            assert(hl.take(k + 1).drop_last() =~= hl.take(k as int));
            assert(hl.take(k + 1).last() == hl[k as int]);
            if spec_parse_card(hl[k as int]) is Some {
                assert(found@.drop_last() =~= prev);
            }
        }
    }
    assert(hl.take(hl.len() as int) =~= hl);
    let ghost hs = found@;
    sort_by_key(found)
}

/// The codec that a `codec#0` file names, given what reading it returned.
pub fn read_codec(content: Option<String>) -> (r: Option<String>)
    ensures
        match content {
            Some(c) => crate::platform::sysfs::opt_view(r) == codec_in(text::spec_lines(c@)),
            None => r is None,
        },
{
    let c = match content {
        Some(c) => c,
        None => return None,
    };
    let cs = chars_of(c.as_str());
    let ls = lines(cs.as_slice());
    let ghost l = text::spec_lines(c@);
    let prefix = chars_of("Codec:");
    let mut i: usize = 0;
    assert(l.skip(0) =~= l);
    while i < ls.len()
        invariant
            text::views_are(ls@, l),
            l == text::spec_lines(c@),
            prefix@ == "Codec:"@,
            content == Some(c),
            i <= ls.len(),
            codec_in(l) == codec_in(l.skip(i as int)),
        decreases ls.len() - i,
    {
        assert(ls@[i as int]@ == l[i as int]);
        assert(l.skip(i as int)[0] == l[i as int]);
        assert(l.skip(i as int).drop_first() =~= l.skip(i + 1));
        let ghost s = l.skip(i as int);
        match strip_prefix(ls[i].as_slice(), prefix.as_slice()) {
            Some(v) => {
                let t = trim(v.as_slice());
                if t.len() > 0 {
                    assert(codec_in(s) == Some(t@));
                    return Some(string_from(t.as_slice()));
                }
                assert(codec_in(s) == codec_in(s.drop_first()));
            },
            None => {
                assert(codec_in(s) == codec_in(s.drop_first()));
            },
        }
        i = i + 1;
    }
    assert(l.skip(i as int) =~= Seq::<Seq<char>>::empty());
    None
}

/// The device that a card header, its codec and its PCI address describe.
pub fn device(h: CardHeader, codec: Option<String>, pci_bus_address: Option<String>) -> (d:
    AudioDevice)
    ensures
        d.card_index == h.card_index,
        d.card_id == h.card_id,
        d.card_long_name == h.card_long_name,
        d.driver == h.driver,
        d.bus_type == h.bus_type,
        d.codec == codec,
        d.pci_bus_address == pci_bus_address,
{
    AudioDevice {
        card_index: h.card_index,
        card_id: h.card_id,
        card_long_name: h.card_long_name,
        driver: h.driver,
        bus_type: h.bus_type,
        codec,
        pci_bus_address,
    }
}

} // verus!
