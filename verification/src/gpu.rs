//! Graphics devices for checksums: which device is used, how a device is
//! classed by its name, and the checksum (computed on the processor, which
//! every device path falls back to).
use vstd::prelude::*;
use crate::accurip::{crc32_hash, crc32_of};
use crate::media::{lowercase, to_lowercase};
use crate::numtext::{parse_unsigned, unsigned_value};
use crate::text::{
    char_vecs, chars_of, contains_chars, has_substr, has_suffix, hex_digits, lines_of, lines_vec,
    owned, push_hex, split_chars, split_on, str_contains, string_of, trim_ws, trim_ws_vec,
};

verus! {

/// The maker of a graphics device.
#[derive(Debug, Clone, Copy, PartialEq, Eq, Structural)]
pub enum GpuType {
    Nvidia,
    Amd,
    Intel,
    AppleSilicon,
    Unknown,
}

/// A graphics device.
pub struct GpuDevice {
    pub name: String,
    pub device_type: GpuType,
    pub memory_mb: u64,
    pub compute_units: u32,
    pub available: bool,
}

/// The devices found, and the one in use.
pub struct GpuAccelerator {
    devices: Vec<GpuDevice>,
    active_device: Option<usize>,
}

impl GpuAccelerator {
    /// The devices.
    pub closed spec fn device_list(&self) -> Seq<GpuDevice> {
        self.devices@
    }

    /// The index of the device in use.
    pub closed spec fn active(&self) -> Option<int> {
        match self.active_device {
            Some(i) => Some(i as int),
            None => None,
        }
    }

    /// The device in use is one of the devices, and available.
    pub closed spec fn wf(&self) -> bool {
        match self.active_device {
            Some(i) => i < self.devices@.len() && self.devices@[i as int].available,
            None => true,
        }
    }

    /// The accelerator over the devices found: the first available one is
    /// used, else none (checksums then run on the processor).
    pub fn from_devices(devices: Vec<GpuDevice>) -> (r: Self)
        ensures
            r.wf(),
            r.device_list() == devices@,
            r.active() matches Some(i) ==> 0 <= i < devices@.len() && devices@[i].available
                && forall|k: int| 0 <= k < i ==> !#[trigger] devices@[k].available,
            r.active() is None <==> forall|k: int|
                0 <= k < devices@.len() ==> !#[trigger] devices@[k].available,
    {
        let mut i: usize = 0;
        while i < devices.len()
            invariant
                i <= devices@.len(),
                forall|k: int| 0 <= k < i ==> !#[trigger] devices@[k].available,
            decreases devices.len() - i,
        {
            if devices[i].available {
                return GpuAccelerator { devices, active_device: Some(i) };
            }
            i = i + 1;
        }
        GpuAccelerator { devices, active_device: None }
    }

    /// The devices.
    pub fn devices(&self) -> (r: &[GpuDevice])
        ensures
            r@ == self.device_list(),
    {
        self.devices.as_slice()
    }

    /// The device in use, if any.
    pub fn active_device(&self) -> (r: Option<&GpuDevice>)
        requires
            self.wf(),
        ensures
            self.active() matches Some(i) ==> r == Some(&self.device_list()[i]),
            self.active() is None ==> r is None,
    {
        match self.active_device {
            Some(i) => Some(&self.devices[i]),
            None => None,
        }
    }

    /// Whether a device is in use.
    pub fn has_gpu(&self) -> (r: bool)
        ensures
            r == self.active() is Some,
    {
        self.active_device.is_some()
    }

    /// The name of the device that computes checksums: the one in use, or
    /// `CPU`.
    pub fn device_used(&self) -> (r: String)
        requires
            self.wf(),
        ensures
            self.active() matches Some(i) ==> r@ == self.device_list()[i].name@,
            self.active() is None ==> r@ == "CPU"@,
    {
        match self.active_device {
            Some(i) => owned(self.devices[i].name.as_str()),
            None => owned("CPU"),
        }
    }

    /// The checksum of `data`: its CRC-32 in eight lower-case hexadecimal
    /// digits. The device paths are not implemented and fall back to this.
    pub fn checksum_hash(&self, data: &[u8]) -> (r: String)
        ensures
            r@ == hex_digits(crc32_of(data@) as nat, 8, false),
    {
        let crc = crc32_hash(data);
        let mut v: Vec<char> = Vec::new();
        push_hex(&mut v, crc as u64, 8, false);
        string_of(v.as_slice())
    }
}

/// The maker that a device's name shows.
pub open spec fn type_of_name(lower: Seq<char>) -> GpuType {
    if has_substr(lower, "nvidia"@) {
        GpuType::Nvidia
    } else if has_substr(lower, "amd"@) || has_substr(lower, "radeon"@) {
        GpuType::Amd
    } else if has_substr(lower, "intel"@) {
        GpuType::Intel
    } else {
        GpuType::Unknown
    }
}

/// The maker that a device's name shows, its case ignored: NVIDIA, AMD
/// (also Radeon), Intel, or unknown.
pub fn classify_name(name: &str) -> (r: GpuType)
    ensures
        r == type_of_name(lowercase(name@)),
{
    let lower = to_lowercase(name);
    if str_contains(lower.as_str(), "nvidia") {
        GpuType::Nvidia
    } else if str_contains(lower.as_str(), "amd") || str_contains(lower.as_str(), "radeon") {
        GpuType::Amd
    } else if str_contains(lower.as_str(), "intel") {
        GpuType::Intel
    } else {
        GpuType::Unknown
    }
}

/// `s` without every trailing occurrence of `p` (`str::trim_end_matches`).
pub open spec fn trim_suffix_all(s: Seq<char>, p: Seq<char>) -> Seq<char>
    decreases s.len(),
{
    if p.len() > 0 && has_suffix(s, p) {
        trim_suffix_all(s.subrange(0, s.len() - p.len()), p)
    } else {
        s
    }
}

/// The comma-separated fields of a line, each trimmed.
pub open spec fn csv_fields(l: Seq<char>) -> Seq<Seq<char>> {
    split_on(l, ',', seq![]).map_values(|f: Seq<char>| trim_ws(f))
}

/// The name, memory (MiB) and compute units of an `nvidia-smi` CSV line
/// with at least two fields; numbers that do not read count as zero.
pub open spec fn nvidia_line(l: Seq<char>) -> Option<(Seq<char>, u64, u32)> {
    let f = csv_fields(l);
    if f.len() >= 2 {
        let mem = match unsigned_value(trim_suffix_all(f[1], " MiB"@), u64::MAX as int) {
            Some(v) => v as u64,
            None => 0u64,
        };
        let units = if f.len() >= 3 {
            match unsigned_value(f[2], u32::MAX as int) {
                Some(v) => v as u32,
                None => 0u32,
            }
        } else {
            0u32
        };
        Some((f[0], mem, units))
    } else {
        None
    }
}

/// The devices described by the first `n` lines.
pub open spec fn nvidia_scan(lines: Seq<Seq<char>>, n: int) -> Seq<(Seq<char>, u64, u32)>
    decreases n,
{
    if n <= 0 {
        seq![]
    } else {
        match nvidia_line(lines[n - 1]) {
            Some(d) => nvidia_scan(lines, n - 1).push(d),
            None => nvidia_scan(lines, n - 1),
        }
    }
}

/// The devices that `nvidia-smi --format=csv,noheader` output describes.
pub open spec fn nvidia_devices(out: Seq<char>) -> Seq<(Seq<char>, u64, u32)> {
    let ls = lines_of(out);
    nvidia_scan(ls, ls.len() as int)
}

/// `v` without every trailing occurrence of `p`.
pub(crate) fn trim_suffix_all_vec(v: &mut Vec<char>, p: &[char])
    ensures
        final(v)@ == trim_suffix_all(old(v)@, p@),
{
    if p.len() == 0 {
        return ;
    }
    loop
        invariant
            p@.len() > 0,
            trim_suffix_all(v@, p@) == trim_suffix_all(old(v)@, p@),
        ensures
            v@ == trim_suffix_all(old(v)@, p@),
        decreases v@.len(),
    {
        if v.len() < p.len() {
            return ;
        }
        let off = v.len() - p.len();
        let mut k: usize = 0;
        let mut same = true;
        while k < p.len()
            invariant
                off + p@.len() == v@.len(),
                off + p@.len() <= usize::MAX,
                p@.len() > 0,
                k <= p@.len(),
                same == (forall|j: int| 0 <= j < k ==> v@[off + j] == p@[j]),
            decreases p.len() - k,
        {
            assert(off + k < v@.len());
            if v[off + k] != p[k] {
                same = false;
            }
            k = k + 1;
        }
        proof {
            if same {
                assert(v@.subrange(off as int, v@.len() as int) =~= p@);
            } else {
                if v@.subrange(off as int, v@.len() as int) == p@ {
                    assert forall|j: int| 0 <= j < p@.len() implies v@[off + j] == p@[j] by {
                        assert(v@.subrange(off as int, v@.len() as int)[j] == v@[off + j]);
                    }
                }
            }
        }
        if !same {
            return ;
        }
        let ghost before = v@;
        v.truncate(off);
        proof {
            assert(v@ =~= before.subrange(0, before.len() - p@.len()));
        }
    }
}

/// Whether `g` is the NVIDIA device `d` describes, available.
pub open spec fn is_nvidia_device(g: GpuDevice, d: (Seq<char>, u64, u32)) -> bool {
    &&& g.name@ == d.0
    &&& g.memory_mb == d.1
    &&& g.compute_units == d.2
    &&& g.device_type == GpuType::Nvidia
    &&& g.available
}

/// The device that an `nvidia-smi` CSV line describes, if any.
fn device_of_line(line: &Vec<char>) -> (r: Option<GpuDevice>)
    ensures
        match nvidia_line(line@) {
            Some(d) => r matches Some(g) && is_nvidia_device(g, d),
            None => r is None,
        },
{
    let raw = split_chars(line, ',');
    let ghost fs = csv_fields(line@);
    let mut fields: Vec<Vec<char>> = Vec::new();
    let mut j: usize = 0;
    while j < raw.len()
        invariant
            j <= raw@.len(),
            char_vecs(raw@) == split_on(line@, ',', seq![]),
            fields@.len() == j,
            forall|a: int| 0 <= a < j ==> #[trigger] fields@[a]@ == trim_ws(raw@[a]@),
        decreases raw.len() - j,
    {
        fields.push(trim_ws_vec(&raw[j]));
        j = j + 1;
    }
    proof {
        assert(fs.len() == fields@.len());
        assert forall|a: int| 0 <= a < fields@.len() implies #[trigger] fields@[a]@ == fs[a] by {
            assert(char_vecs(raw@)[a] == raw@[a]@);
        }
    }
    if fields.len() < 2 {
        return None;
    }
    let suffix = chars_of(" MiB");
    let mut mem_text: Vec<char> = Vec::new();
    let mut c: usize = 0;
    while c < fields[1].len()
        invariant
            fields@.len() >= 2,
            c <= fields@[1]@.len(),
            mem_text@ == fields@[1]@.subrange(0, c as int),
        decreases fields[1].len() - c,
    {
        mem_text.push(fields[1][c]);
        c = c + 1;
    }
    proof {
        assert(fields@[1]@.subrange(0, c as int) =~= fields@[1]@);
    }
    trim_suffix_all_vec(&mut mem_text, suffix.as_slice());
    let memory_mb = match parse_unsigned(mem_text.as_slice(), u64::MAX) {
        Some(v) => v,
        None => 0,
    };
    let compute_units: u32 = if fields.len() >= 3 {
        match parse_unsigned(fields[2].as_slice(), u32::MAX as u64) {
            Some(v) => v as u32,
            None => 0,
        }
    } else {
        0
    };
    let name = string_of(fields[0].as_slice());
    proof {
        assert(fields@[0]@ == fs[0]);
        assert(fields@[1]@ == fs[1]);
        if fields@.len() >= 3 {
            assert(fields@[2]@ == fs[2]);
            match unsigned_value(fs[2], u32::MAX as int) {
                Some(v) => {
                    crate::numtext::lemma_digits_nonneg(crate::numtext::unsigned_digits(fs[2]));
                    assert(compute_units == v as u32);
                },
                None => {},
            }
        }
    }
    Some(GpuDevice { name, device_type: GpuType::Nvidia, memory_mb, compute_units, available: true })
}

/// The devices that `nvidia-smi` CSV output (without header) describes.
pub fn parse_nvidia_output(stdout: &str) -> (r: Vec<GpuDevice>)
    ensures
        r@.len() == nvidia_devices(stdout@).len(),
        forall|i: int|
            0 <= i < r@.len() ==> is_nvidia_device(r@[i], #[trigger] nvidia_devices(stdout@)[i]),
{
    let lines = lines_vec(stdout);
    let ghost ls = char_vecs(lines@);
    let mut out: Vec<GpuDevice> = Vec::new();
    let mut i: usize = 0;
    while i < lines.len()
        invariant
            ls == char_vecs(lines@),
            ls == lines_of(stdout@),
            i <= lines@.len(),
            out@.len() == nvidia_scan(ls, i as int).len(),
            forall|k: int|
                0 <= k < out@.len() ==> is_nvidia_device(out@[k], #[trigger] nvidia_scan(ls, i as int)[k]),
        decreases lines.len() - i,
    {
        proof {
            assert(ls[i as int] == lines@[i as int]@);
        }
        let ghost before = nvidia_scan(ls, i as int);
        let ghost old_out = out@;
        match device_of_line(&lines[i]) {
            Some(g) => {
                out.push(g);
                proof {
                    let d = nvidia_line(ls[i as int])->0;
                    assert(nvidia_scan(ls, i + 1) == before.push(d));
                    assert forall|k: int| 0 <= k < out@.len() implies is_nvidia_device(
                        out@[k],
                        #[trigger] nvidia_scan(ls, i + 1)[k],
                    ) by {
                        if k < before.len() {
                            assert(out@[k] == old_out[k]);
                            assert(nvidia_scan(ls, i + 1)[k] == before[k]);
                        }
                    }
                }
            },
            None => {
                proof {
                    assert(nvidia_scan(ls, i + 1) == before);
                }
            },
        }
        i = i + 1;
    }
    out
}

/// The chipset named in `system_profiler` display lines from line `i` on:
/// the second `:`-separated piece of the first line that names a chipset
/// model, or `Apple Silicon` where that line has no such piece or there is
/// no such line.
pub open spec fn chipset_scan(ls: Seq<Seq<char>>, i: int) -> Seq<char>
    decreases ls.len() - i,
{
    if i < 0 || i >= ls.len() {
        "Apple Silicon"@
    } else if has_substr(ls[i], "Chipset Model"@) {
        let parts = split_on(ls[i], ':', seq![]);
        if parts.len() >= 2 {
            parts[1]
        } else {
            "Apple Silicon"@
        }
    } else {
        chipset_scan(ls, i + 1)
    }
}

/// The name of the Apple graphics device that `system_profiler` output
/// shows, if it shows one (`Apple M` or `Apple GPU` in it).
pub open spec fn apple_gpu_name(out: Seq<char>) -> Option<Seq<char>> {
    if has_substr(out, "Apple M"@) || has_substr(out, "Apple GPU"@) {
        Some(trim_ws(chipset_scan(lines_of(out), 0)))
    } else {
        None
    }
}

/// The Apple graphics device that `system_profiler SPDisplaysDataType`
/// output shows: memory shared with the system, available.
pub fn apple_silicon_gpu(output: &str) -> (r: Option<GpuDevice>)
    ensures
        match apple_gpu_name(output@) {
            Some(n) => r matches Some(g) && g.name@ == n && g.device_type == GpuType::AppleSilicon
                && g.memory_mb == 0 && g.compute_units == 0 && g.available,
            None => r is None,
        },
{
    if !(str_contains(output, "Apple M") || str_contains(output, "Apple GPU")) {
        return None;
    }
    let lines = lines_vec(output);
    let ghost ls = char_vecs(lines@);
    let mark = chars_of("Chipset Model");
    let mut name = chars_of("Apple Silicon");
    let mut i: usize = 0;
    while i < lines.len()
        invariant
            ls == char_vecs(lines@),
            ls == lines_of(output@),
            has_substr(output@, "Apple M"@) || has_substr(output@, "Apple GPU"@),
            mark@ == "Chipset Model"@,
            name@ == "Apple Silicon"@,
            i <= lines@.len(),
            chipset_scan(ls, i as int) == chipset_scan(ls, 0),
        decreases lines.len() - i,
    {
        proof {
            assert(ls[i as int] == lines@[i as int]@);
        }
        if contains_chars(lines[i].as_slice(), mark.as_slice()) {
            let parts = split_chars(&lines[i], ':');
            proof {
                assert(char_vecs(parts@).len() == parts@.len());
                assert(has_substr(ls[i as int], "Chipset Model"@));
            }
            if parts.len() >= 2 {
                proof {
                    assert(char_vecs(parts@)[1] == parts@[1]@);
                    assert(chipset_scan(ls, i as int) == parts@[1]@);
                }
                name = trim_ws_vec(&parts[1]);
            } else {
                name = trim_ws_vec(&name);
            }
            let text = string_of(name.as_slice());
            return Some(
                GpuDevice {
                    name: text,
                    device_type: GpuType::AppleSilicon,
                    memory_mb: 0,
                    compute_units: 0,
                    available: true,
                },
            );
        }
        i = i + 1;
    }
    let trimmed = trim_ws_vec(&name);
    Some(
        GpuDevice {
            name: string_of(trimmed.as_slice()),
            device_type: GpuType::AppleSilicon,
            memory_mb: 0,
            compute_units: 0,
            available: true,
        },
    )
}

/// The names in `wmic` video controller output before line `n`: each line
/// after the header, trimmed, where it is not empty.
pub open spec fn wmic_names(ls: Seq<Seq<char>>, n: int) -> Seq<Seq<char>>
    decreases n,
{
    if n <= 1 {
        seq![]
    } else {
        let t = trim_ws(ls[n - 1]);
        if t.len() > 0 {
            wmic_names(ls, n - 1).push(t)
        } else {
            wmic_names(ls, n - 1)
        }
    }
}

/// Whether `g` is the device named `name` in `wmic` output: classed by its
/// name, no memory or compute units known, available.
pub open spec fn is_listed_device(g: GpuDevice, name: Seq<char>) -> bool {
    &&& g.name@ == name
    &&& g.device_type == type_of_name(lowercase(name))
    &&& g.memory_mb == 0
    &&& g.compute_units == 0
    &&& g.available
}

/// The graphics devices that `wmic path win32_videocontroller get name`
/// output lists, if it lists any.
pub fn other_gpus(output: &str) -> (r: Option<Vec<GpuDevice>>)
    ensures
        ({
            let ls = lines_of(output@);
            let names = wmic_names(ls, ls.len() as int);
            &&& names.len() == 0 ==> r is None
            &&& names.len() > 0 ==> (r matches Some(v) && v@.len() == names.len() && forall|i: int|
                0 <= i < names.len() ==> is_listed_device(#[trigger] v@[i], names[i]))
        }),
{
    let lines = lines_vec(output);
    let ghost ls = char_vecs(lines@);
    let mut devices: Vec<GpuDevice> = Vec::new();
    let mut i: usize = 1;
    while i < lines.len()
        invariant
            ls == char_vecs(lines@),
            ls == lines_of(output@),
            1 <= i,
            i <= lines@.len() || (lines@.len() == 0 && i == 1),
            devices@.len() == wmic_names(ls, i as int).len(),
            forall|k: int|
                0 <= k < devices@.len() ==> is_listed_device(#[trigger] devices@[k], wmic_names(ls, i as int)[k]),
        decreases lines.len() - i,
    {
        proof {
            assert(ls[i as int] == lines@[i as int]@);
        }
        let name = trim_ws_vec(&lines[i]);
        let ghost before = wmic_names(ls, i as int);
        if name.len() > 0 {
            let text = string_of(name.as_slice());
            let kind = classify_name(text.as_str());
            let ghost old_devices = devices@;
            devices.push(GpuDevice { name: text, device_type: kind, memory_mb: 0, compute_units: 0, available: true });
            proof {
                assert(wmic_names(ls, i + 1) == before.push(name@));
                assert forall|k: int| 0 <= k < devices@.len() implies is_listed_device(
                    #[trigger] devices@[k],
                    wmic_names(ls, i + 1)[k],
                ) by {
                    if k < old_devices.len() {
                        assert(devices@[k] == old_devices[k]);
                    }
                }
            }
        } else {
            proof {
                assert(wmic_names(ls, i + 1) == before);
            }
        }
        i = i + 1;
    }
    proof {
        assert(ls.len() == lines@.len());
        if lines@.len() > 0 {
            assert(i == lines@.len());
        } else {
            assert(wmic_names(ls, 0) == Seq::<Seq<char>>::empty());
            assert(wmic_names(ls, 1) == Seq::<Seq<char>>::empty());
        }
    }
    if devices.len() == 0 {
        None
    } else {
        Some(devices)
    }
}

} // verus!
