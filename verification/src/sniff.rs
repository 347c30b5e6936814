//! Content sniffing for formats that only the bundled helper decodes.

use vstd::prelude::*;

verus! {

/// Container or codec families recognized from leading bytes.
#[derive(Debug, Clone, Copy, PartialEq, Eq, Structural)]
pub enum HelperOnlyFamily {
    MonkeysAudio,
    WavPack,
    Tta,
    Musepack,
    AsfWma,
    OggOpus,
    OggSpeex,
    Ac3,
    Dts,
}

/// Whether `s` begins with `p`.
pub open spec fn starts_with(s: Seq<u8>, p: Seq<u8>) -> bool {
    p.len() <= s.len() && s.take(p.len() as int) == p
}

/// Whether `p` occurs anywhere in `s`.
pub open spec fn occurs_in(s: Seq<u8>, p: Seq<u8>) -> bool {
    exists|i: int| 0 <= i && i + p.len() <= s.len() && #[trigger] s.subrange(i, i + p.len()) == p
}

/// The ASF header GUID.
pub open spec fn asf_header() -> Seq<u8> {
    seq![0x30u8, 0x26, 0xb2, 0x75, 0x8e, 0x66, 0xcf, 0x11, 0xa6, 0xd9, 0x00, 0xaa, 0x00, 0x62, 0xce, 0x6c]
}

/// The family a file prefix announces, checked in a fixed order.
pub open spec fn spec_helper_only_family(p: Seq<u8>) -> Option<HelperOnlyFamily> {
    if starts_with(p, seq![0x4Du8, 0x41, 0x43, 0x20]) {
        Some(HelperOnlyFamily::MonkeysAudio)
    } else if starts_with(p, seq![0x77u8, 0x76, 0x70, 0x6B]) {
        Some(HelperOnlyFamily::WavPack)
    } else if starts_with(p, seq![0x54u8, 0x54, 0x41, 0x31]) {
        Some(HelperOnlyFamily::Tta)
    } else if starts_with(p, seq![0x4Du8, 0x50, 0x43, 0x4B]) || starts_with(p, seq![0x4Du8, 0x50, 0x2B]) {
        Some(HelperOnlyFamily::Musepack)
    } else if starts_with(p, asf_header()) {
        Some(HelperOnlyFamily::AsfWma)
    } else if starts_with(p, seq![0x4Fu8, 0x67, 0x67, 0x53]) && occurs_in(
        p,
        seq![0x4Fu8, 0x70, 0x75, 0x73, 0x48, 0x65, 0x61, 0x64],
    ) {
        Some(HelperOnlyFamily::OggOpus)
    } else if starts_with(p, seq![0x4Fu8, 0x67, 0x67, 0x53]) && occurs_in(
        p,
        seq![0x53u8, 0x70, 0x65, 0x65, 0x78, 0x20, 0x20, 0x20],
    ) {
        Some(HelperOnlyFamily::OggSpeex)
    } else if starts_with(p, seq![0x0bu8, 0x77]) {
        Some(HelperOnlyFamily::Ac3)
    } else if starts_with(p, seq![0x7fu8, 0xfe, 0x80, 0x01]) || starts_with(p, seq![0xfeu8, 0x7f, 0x01, 0x80])
        || starts_with(p, seq![0x1fu8, 0xff, 0xe8, 0x00]) || starts_with(p, seq![0xffu8, 0x1f, 0x00, 0xe8]) {
        Some(HelperOnlyFamily::Dts)
    } else {
        None
    }
}

impl HelperOnlyFamily {
    /// The family's display name.
    pub fn name(self) -> (r: &'static str)
        ensures
            r@ == match self {
                HelperOnlyFamily::MonkeysAudio => "Monkey's Audio"@,
                HelperOnlyFamily::WavPack => "WavPack"@,
                HelperOnlyFamily::Tta => "TTA"@,
                HelperOnlyFamily::Musepack => "Musepack"@,
                HelperOnlyFamily::AsfWma => "ASF/WMA"@,
                HelperOnlyFamily::OggOpus => "Ogg Opus"@,
                HelperOnlyFamily::OggSpeex => "Ogg Speex"@,
                HelperOnlyFamily::Ac3 => "AC-3/E-AC-3"@,
                HelperOnlyFamily::Dts => "DTS"@,
            },
    {
        match self {
            HelperOnlyFamily::MonkeysAudio => "Monkey's Audio",
            HelperOnlyFamily::WavPack => "WavPack",
            HelperOnlyFamily::Tta => "TTA",
            HelperOnlyFamily::Musepack => "Musepack",
            HelperOnlyFamily::AsfWma => "ASF/WMA",
            HelperOnlyFamily::OggOpus => "Ogg Opus",
            HelperOnlyFamily::OggSpeex => "Ogg Speex",
            HelperOnlyFamily::Ac3 => "AC-3/E-AC-3",
            HelperOnlyFamily::Dts => "DTS",
        }
    }
}

/// Whether `s` begins with the bytes of `p`.
pub fn bytes_start_with(s: &[u8], p: &[u8]) -> (r: bool)
    ensures
        r == starts_with(s@, p@),
{
    if p.len() > s.len() {
        return false;
    }
    let mut i: usize = 0;
    while i < p.len()
        invariant
            i <= p.len() <= s.len(),
            forall|j: int| 0 <= j < i ==> s@[j] == p@[j],
        decreases p.len() - i,
    {
        if s[i] != p[i] {
            assert(s@.take(p@.len() as int)[i as int] != p@[i as int]);
            return false;
        }
        i += 1;
    }
    assert(s@.take(p@.len() as int) =~= p@);
    true
}

/// Whether the bytes of `p` occur anywhere in `s`.
pub fn bytes_contain(s: &[u8], p: &[u8]) -> (r: bool)
    ensures
        r == occurs_in(s@, p@),
{
    if p.len() > s.len() {
        return false;
    }
    let mut i: usize = 0;
    let last: usize = s.len() - p.len();
    while i <= last
        invariant
            p.len() <= s.len(),
            last == s.len() - p.len(),
            i <= last + 1,
            forall|k: int| 0 <= k < i ==> #[trigger] s@.subrange(k, k + p@.len()) != p@,
        decreases s.len() - i,
    {
        let mut j: usize = 0;
        let mut same = true;
        while j < p.len()
            invariant
                j <= p.len(),
                i + p.len() <= s.len(),
                same == (forall|m: int| 0 <= m < j ==> s@[i + m] == p@[m]),
            decreases p.len() - j,
        {
            if s[i + j] != p[j] {
                same = false;
            }
            j += 1;
        }
        if same {
            assert(s@.subrange(i as int, i + p@.len()) =~= p@);
            return true;
        }
        proof {
            let w = choose|m: int| 0 <= m < p@.len() && s@[i + m] != p@[m];
            assert(s@.subrange(i as int, i + p@.len())[w] != p@[w]);
        }
        i += 1;
    }
    proof {
        assert forall|k: int| 0 <= k && k + p@.len() <= s@.len() implies #[trigger] s@.subrange(k, k + p@.len()) != p@ by {
            assert(k < i);
        }
    }
    false
}

/// The helper-only family announced by the first bytes of a file, if any.
pub fn helper_only_family(prefix: &[u8]) -> (r: Option<HelperOnlyFamily>)
    ensures
        r == spec_helper_only_family(prefix@),
{
    let asf: [u8; 16] = [0x30, 0x26, 0xb2, 0x75, 0x8e, 0x66, 0xcf, 0x11, 0xa6, 0xd9, 0x00, 0xaa, 0x00, 0x62, 0xce, 0x6c];
    assert(asf@ =~= asf_header());
    let mac: [u8; 4] = [0x4D, 0x41, 0x43, 0x20];
    let wvpk: [u8; 4] = [0x77, 0x76, 0x70, 0x6B];
    let tta: [u8; 4] = [0x54, 0x54, 0x41, 0x31];
    let mpck: [u8; 4] = [0x4D, 0x50, 0x43, 0x4B];
    let mpplus: [u8; 3] = [0x4D, 0x50, 0x2B];
    let oggs: [u8; 4] = [0x4F, 0x67, 0x67, 0x53];
    let opus: [u8; 8] = [0x4F, 0x70, 0x75, 0x73, 0x48, 0x65, 0x61, 0x64];
    let speex: [u8; 8] = [0x53, 0x70, 0x65, 0x65, 0x78, 0x20, 0x20, 0x20];
    let ac3: [u8; 2] = [0x0b, 0x77];
    let dts1: [u8; 4] = [0x7f, 0xfe, 0x80, 0x01];
    let dts2: [u8; 4] = [0xfe, 0x7f, 0x01, 0x80];
    let dts3: [u8; 4] = [0x1f, 0xff, 0xe8, 0x00];
    let dts4: [u8; 4] = [0xff, 0x1f, 0x00, 0xe8];
    assert(mac@ =~= seq![0x4Du8, 0x41, 0x43, 0x20]);
    assert(wvpk@ =~= seq![0x77u8, 0x76, 0x70, 0x6B]);
    assert(tta@ =~= seq![0x54u8, 0x54, 0x41, 0x31]);
    assert(mpck@ =~= seq![0x4Du8, 0x50, 0x43, 0x4B]);
    assert(mpplus@ =~= seq![0x4Du8, 0x50, 0x2B]);
    assert(oggs@ =~= seq![0x4Fu8, 0x67, 0x67, 0x53]);
    assert(opus@ =~= seq![0x4Fu8, 0x70, 0x75, 0x73, 0x48, 0x65, 0x61, 0x64]);
    assert(speex@ =~= seq![0x53u8, 0x70, 0x65, 0x65, 0x78, 0x20, 0x20, 0x20]);
    assert(ac3@ =~= seq![0x0bu8, 0x77]);
    assert(dts1@ =~= seq![0x7fu8, 0xfe, 0x80, 0x01]);
    assert(dts2@ =~= seq![0xfeu8, 0x7f, 0x01, 0x80]);
    assert(dts3@ =~= seq![0x1fu8, 0xff, 0xe8, 0x00]);
    assert(dts4@ =~= seq![0xffu8, 0x1f, 0x00, 0xe8]);
    if bytes_start_with(prefix, mac.as_slice()) {
        return Some(HelperOnlyFamily::MonkeysAudio);
    }
    if bytes_start_with(prefix, wvpk.as_slice()) {
        return Some(HelperOnlyFamily::WavPack);
    }
    if bytes_start_with(prefix, tta.as_slice()) {
        return Some(HelperOnlyFamily::Tta);
    }
    if bytes_start_with(prefix, mpck.as_slice()) || bytes_start_with(prefix, mpplus.as_slice()) {
        return Some(HelperOnlyFamily::Musepack);
    }
    if bytes_start_with(prefix, asf.as_slice()) {
        return Some(HelperOnlyFamily::AsfWma);
    }
    if bytes_start_with(prefix, oggs.as_slice()) {
        if bytes_contain(prefix, opus.as_slice()) {
            return Some(HelperOnlyFamily::OggOpus);
        }
        if bytes_contain(prefix, speex.as_slice()) {
            return Some(HelperOnlyFamily::OggSpeex);
        }
    }
    if bytes_start_with(prefix, ac3.as_slice()) {
        return Some(HelperOnlyFamily::Ac3);
    }
    if bytes_start_with(prefix, dts1.as_slice()) || bytes_start_with(prefix, dts2.as_slice())
        || bytes_start_with(prefix, dts3.as_slice()) || bytes_start_with(prefix, dts4.as_slice()) {
        return Some(HelperOnlyFamily::Dts);
    }
    None
}

} // verus!
