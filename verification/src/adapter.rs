//! Telling a software rasteriser from a hardware graphics adapter, by the
//! adapter's kind and the names that its driver reports.
use vstd::prelude::*;

use crate::text::chars_of;

verus! {

/// The kind of device behind a graphics adapter.
#[derive(Clone, Copy, Debug, PartialEq, Eq, Structural)]
pub enum DeviceType {
    Other,
    IntegratedGpu,
    DiscreteGpu,
    VirtualGpu,
    Cpu,
}

/// What a graphics adapter reports about itself.
pub struct AdapterInfo {
    pub name: String,
    pub device_type: DeviceType,
    pub driver: String,
    pub driver_info: String,
}

/// `c` with an ASCII capital letter turned into its small letter.
pub open spec fn ascii_lower(c: char) -> char {
    if 'A' <= c && c <= 'Z' {
        ((c as u32) + 32) as char
    } else {
        c
    }
}

/// `s` with every ASCII capital letter turned into its small letter.
pub open spec fn ascii_lower_text(s: Seq<char>) -> Seq<char> {
    s.map_values(|c: char| ascii_lower(c))
}

/// Whether `needle` occurs in `hay` as a run of consecutive characters.
pub open spec fn occurs_in(hay: Seq<char>, needle: Seq<char>) -> bool {
    exists|i: int|
        0 <= i && i + needle.len() <= hay.len() && #[trigger] hay.subrange(i, i + needle.len())
            == needle
}

/// The text searched for the marks of a software rasteriser: the adapter's
/// name, driver and driver details in small letters, joined by spaces.
pub open spec fn adapter_haystack(name: Seq<char>, driver: Seq<char>, driver_info: Seq<char>) -> Seq<
    char,
> {
    ascii_lower_text(name) + seq![' '] + ascii_lower_text(driver) + seq![' '] + ascii_lower_text(
        driver_info,
    )
}

/// The words that mark a software rasteriser.
pub open spec fn software_marks() -> Seq<Seq<char>> {
    seq!["llvmpipe"@, "lavapipe"@, "swrast"@, "swiftshader"@, "software"@]
}

/// Whether an adapter is a software rasteriser: a CPU device, or one whose
/// names mention a known software rasteriser.
pub open spec fn is_software_adapter(
    device_type: DeviceType,
    name: Seq<char>,
    driver: Seq<char>,
    driver_info: Seq<char>,
) -> bool {
    device_type == DeviceType::Cpu || exists|k: int|
        0 <= k < software_marks().len() && occurs_in(
            adapter_haystack(name, driver, driver_info),
            #[trigger] software_marks()[k],
        )
}

/// Appends `s` to `out` in small letters.
fn push_lowered(out: &mut Vec<char>, s: &str)
    ensures
        final(out)@ == old(out)@ + ascii_lower_text(s@),
{
    let chars = chars_of(s);
    let ghost start = out@;
    let mut i: usize = 0;
    while i < chars.len()
        invariant
            i <= chars.len(),
            chars@ == s@,
            out@ == start + ascii_lower_text(chars@.take(i as int)),
        decreases chars.len() - i,
    {
        let c = chars[i];
        let lowered = if 'A' <= c && c <= 'Z' {
            let b: u8 = (c as u32 + 32) as u8;
            b as char
        } else {
            c
        };
        proof {
            if 'A' <= c && c <= 'Z' {
                assert(((c as u32 + 32) as u8) as char == ((c as u32) + 32) as char);
            }
        }
        out.push(lowered);
        assert(ascii_lower_text(chars@.take(i as int + 1)) =~= ascii_lower_text(
            chars@.take(i as int),
        ).push(ascii_lower(c)));
        i = i + 1;
    }
    assert(chars@.take(chars@.len() as int) =~= chars@);
}

/// Whether `needle` occurs in `hay`.
fn occurs(hay: &Vec<char>, needle: &Vec<char>) -> (r: bool)
    ensures
        r == occurs_in(hay@, needle@),
{
    if needle.len() > hay.len() {
        return false;
    }
    let last = hay.len() - needle.len();
    let mut i: usize = 0;
    while i <= last
        invariant
            last == hay.len() - needle.len(),
            i <= last + 1,
            forall|p: int| 0 <= p < i ==> #[trigger] hay@.subrange(p, p + needle@.len()) != needle@,
        decreases last + 1 - i,
    {
        let mut j: usize = 0;
        let mut same = true;
        while j < needle.len()
            invariant
                i <= last,
                last == hay.len() - needle.len(),
                j <= needle.len(),
                same == (forall|q: int| 0 <= q < j ==> hay@[i + q] == needle@[q]),
            decreases needle.len() - j,
        {
            if hay[i + j] != needle[j] {
                same = false;
            }
            j = j + 1;
        }
        if same {
            assert(hay@.subrange(i as int, i + needle@.len()) =~= needle@);
            return true;
        }
        proof {
            let q = choose|q: int| 0 <= q < needle@.len() && hay@[i + q] != needle@[q];
            assert(hay@.subrange(i as int, i + needle@.len())[q] != needle@[q]);
        }
        i = i + 1;
    }
    assert forall|p: int|
        0 <= p && p + needle@.len() <= hay@.len() implies #[trigger] hay@.subrange(
        p,
        p + needle@.len(),
    ) != needle@ by {
        assert(p < i);
    }
    false
}

/// Whether the adapter described by `info` is a software rasteriser: a CPU
/// device, or one whose name, driver or driver details mention llvmpipe,
/// lavapipe, swrast, swiftshader or software, in any mix of capitals.
pub fn adapter_is_software(info: &AdapterInfo) -> (r: bool)
    ensures
        r == is_software_adapter(info.device_type, info.name@, info.driver@, info.driver_info@),
{
    if info.device_type == DeviceType::Cpu {
        return true;
    }
    let mut hay: Vec<char> = Vec::new();
    push_lowered(&mut hay, info.name.as_str());
    hay.push(' ');
    push_lowered(&mut hay, info.driver.as_str());
    hay.push(' ');
    push_lowered(&mut hay, info.driver_info.as_str());
    assert(hay@ =~= adapter_haystack(info.name@, info.driver@, info.driver_info@));
    let marks: [&str; 5] = ["llvmpipe", "lavapipe", "swrast", "swiftshader", "software"];
    let mut k: usize = 0;
    while k < 5
        invariant
            k <= 5,
            hay@ == adapter_haystack(info.name@, info.driver@, info.driver_info@),
            forall|m: int| 0 <= m < 5 ==> #[trigger] marks@[m]@ == software_marks()[m],
            forall|m: int| 0 <= m < k ==> !occurs_in(hay@, #[trigger] software_marks()[m]),
        decreases 5 - k,
    {
        let needle = chars_of(marks[k]);
        if occurs(&hay, &needle) {
            return true;
        }
        k = k + 1;
    }
    false
}

} // verus!
