//! Resources for parallel work: the machine's memory as `/proc/meminfo`
//! reports it, its graphics devices, and how many reads fit in memory.
use vstd::prelude::*;
use crate::numtext::{parse_unsigned, split_whitespace, unsigned_value, views_of, words};
use crate::gpu::{trim_suffix_all, trim_suffix_all_vec};
use crate::text::{
    chars_of, dec_digits, find_chars_from, find_from, has_prefix, lines_of, lines_vec, char_vecs,
    owned, push_dec, push_str, string_of, sub_chars, trim_ws, trim_ws_vec,
};

verus! {

/// A graphics device for compute.
pub struct GpuDevice {
    pub name: String,
    pub vendor: String,
    pub memory_bytes: u64,
    pub platform: String,
}

/// What the machine offers.
pub struct SystemInfo {
    pub num_cpus: usize,
    pub num_physical_cpus: usize,
    pub total_memory_bytes: u64,
    pub available_memory_bytes: u64,
    pub gpu_devices: Vec<GpuDevice>,
}

/// The kibibytes that a `/proc/meminfo` line gives after its key, in bytes
/// (wrapping at 64 bits); zero where the second word is not a number.
pub open spec fn meminfo_bytes(l: Seq<char>) -> u64 {
    let w = words(l);
    let kib: u64 = if w.len() >= 2 {
        match unsigned_value(w[1], u64::MAX as int) {
            Some(v) => v as u64,
            None => 0,
        }
    } else {
        0
    };
    kib.wrapping_mul(1024)
}

/// The total and available memory after the first `n` lines: the last
/// `MemTotal:` and `MemAvailable:` lines decide.
pub open spec fn meminfo_scan(ls: Seq<Seq<char>>, n: int) -> (u64, u64)
    decreases n,
{
    if n <= 0 {
        (0, 0)
    } else {
        let prev = meminfo_scan(ls, n - 1);
        let l = ls[n - 1];
        if has_prefix(l, "MemTotal:"@) {
            (meminfo_bytes(l), prev.1)
        } else if has_prefix(l, "MemAvailable:"@) {
            (prev.0, meminfo_bytes(l))
        } else {
            prev
        }
    }
}

/// The total and available memory that `/proc/meminfo` text reports, both
/// zero where it gives no total.
pub open spec fn meminfo(text: Seq<char>) -> (u64, u64) {
    let ls = lines_of(text);
    let r = meminfo_scan(ls, ls.len() as int);
    if r.0 > 0 {
        r
    } else {
        (0, 0)
    }
}

/// The bytes of a `/proc/meminfo` line.
fn line_bytes(l: &Vec<char>) -> (r: u64)
    ensures
        r == meminfo_bytes(l@),
{
    let w = split_whitespace(l.as_slice());
    proof {
        assert(views_of(w@).len() == w@.len());
    }
    let kib: u64 = if w.len() >= 2 {
        proof {
            assert(views_of(w@)[1] == w@[1]@);
        }
        match parse_unsigned(w[1].as_slice(), u64::MAX) {
            Some(v) => v,
            None => 0,
        }
    } else {
        0
    };
    kib.wrapping_mul(1024)
}

/// The total and available memory that `/proc/meminfo` text reports.
pub fn parse_meminfo(text: &str) -> (r: (u64, u64))
    ensures
        r == meminfo(text@),
{
    let lines = lines_vec(text);
    let ghost ls = char_vecs(lines@);
    let total_key = chars_of("MemTotal:");
    let avail_key = chars_of("MemAvailable:");
    let mut total: u64 = 0;
    let mut available: u64 = 0;
    let mut i: usize = 0;
    while i < lines.len()
        invariant
            ls == char_vecs(lines@),
            ls == lines_of(text@),
            total_key@ == "MemTotal:"@,
            avail_key@ == "MemAvailable:"@,
            i <= lines@.len(),
            (total, available) == meminfo_scan(ls, i as int),
        decreases lines.len() - i,
    {
        proof {
            assert(ls[i as int] == lines@[i as int]@);
        }
        let l = &lines[i];
        if starts_with_chars(l.as_slice(), total_key.as_slice()) {
            total = line_bytes(l);
        } else if starts_with_chars(l.as_slice(), avail_key.as_slice()) {
            available = line_bytes(l);
        }
        i = i + 1;
    }
    if total > 0 {
        (total, available)
    } else {
        (0, 0)
    }
}

/// Whether `h` begins with `p`.
fn starts_with_chars(h: &[char], p: &[char]) -> (r: bool)
    ensures
        r == has_prefix(h@, p@),
{
    if p.len() > h.len() {
        return false;
    }
    let mut i: usize = 0;
    while i < p.len()
        invariant
            p@.len() <= h@.len(),
            i <= p@.len(),
            forall|k: int| 0 <= k < i ==> h@[k] == p@[k],
        decreases p.len() - i,
    {
        if h[i] != p[i] {
            proof {
                assert(h@.subrange(0, p@.len() as int)[i as int] != p@[i as int]);
            }
            return false;
        }
        i = i + 1;
    }
    proof {
        assert(h@.subrange(0, p@.len() as int) =~= p@);
    }
    true
}

impl SystemInfo {
    /// Whether a graphics device was found.
    pub fn has_gpu(&self) -> (r: bool)
        ensures
            r == (self.gpu_devices@.len() > 0),
    {
        self.gpu_devices.len() > 0
    }

    /// The device with the most memory (the last of those with the most),
    /// if any.
    pub fn best_gpu(&self) -> (r: Option<&GpuDevice>)
        ensures
            self.gpu_devices@.len() == 0 ==> r is None,
            self.gpu_devices@.len() > 0 ==> exists|i: int|
                {
                    &&& 0 <= i < self.gpu_devices@.len()
                    &&& r == Some(&self.gpu_devices@[i])
                    &&& forall|k: int|
                        0 <= k < self.gpu_devices@.len() ==> #[trigger] self.gpu_devices@[k].memory_bytes
                            <= self.gpu_devices@[i].memory_bytes
                    &&& forall|k: int|
                        i < k < self.gpu_devices@.len() ==> #[trigger] self.gpu_devices@[k].memory_bytes
                            < self.gpu_devices@[i].memory_bytes
                },
    {
        if self.gpu_devices.len() == 0 {
            return None;
        }
        let mut best: usize = 0;
        let mut i: usize = 1;
        while i < self.gpu_devices.len()
            invariant
                1 <= i <= self.gpu_devices@.len(),
                best < i,
                forall|k: int| 0 <= k < i ==> #[trigger] self.gpu_devices@[k].memory_bytes
                    <= self.gpu_devices@[best as int].memory_bytes,
                forall|k: int| best < k < i ==> #[trigger] self.gpu_devices@[k].memory_bytes
                    < self.gpu_devices@[best as int].memory_bytes,
            decreases self.gpu_devices.len() - i,
        {
            if self.gpu_devices[i].memory_bytes >= self.gpu_devices[best].memory_bytes {
                best = i;
            }
            i = i + 1;
        }
        Some(&self.gpu_devices[best])
    }
}

/// The description of one device: `name (platform, N MB)`.
pub open spec fn gpu_text(d: GpuDevice) -> Seq<char> {
    d.name@ + " ("@ + d.platform@ + ", "@ + dec_digits((d.memory_bytes / 1048576u64) as nat)
        + " MB)"@
}

/// The descriptions of the first `n` devices, separated by `, `.
pub open spec fn gpus_text(ds: Seq<GpuDevice>, n: int) -> Seq<char>
    decreases n,
{
    if n <= 0 {
        seq![]
    } else if n == 1 {
        gpu_text(ds[0])
    } else {
        gpus_text(ds, n - 1) + ", "@ + gpu_text(ds[n - 1])
    }
}

/// A description of the devices, or `No GPU detected`.
pub fn gpu_info(devices: &[GpuDevice]) -> (r: String)
    ensures
        devices@.len() == 0 ==> r@ == "No GPU detected"@,
        devices@.len() > 0 ==> r@ == gpus_text(devices@, devices@.len() as int),
{
    if devices.len() == 0 {
        return owned("No GPU detected");
    }
    let mut out: Vec<char> = Vec::new();
    let mut i: usize = 0;
    while i < devices.len()
        invariant
            i <= devices@.len(),
            out@ == gpus_text(devices@, i as int),
        decreases devices.len() - i,
    {
        if i > 0 {
            push_str(&mut out, ", ");
        }
        let d = &devices[i];
        push_str(&mut out, d.name.as_str());
        push_str(&mut out, " (");
        push_str(&mut out, d.platform.as_str());
        push_str(&mut out, ", ");
        push_dec(&mut out, d.memory_bytes / (1024 * 1024), 0);
        push_str(&mut out, " MB)");
        proof {
            if i == 0 {
                assert(out@ =~= gpu_text(devices@[0]));
            } else {
                assert(out@ =~= gpus_text(devices@, i as int) + ", "@ + gpu_text(devices@[i as int]));
            }
        }
        i = i + 1;
    }
    string_of(out.as_slice())
}

/// Reads at once within a memory budget.
pub struct MemoryAwareReader {
    pub max_memory_bytes: usize,
    pub concurrent_reads: usize,
}

impl MemoryAwareReader {
    /// A reader that runs one read per 8 MiB of the budget, from 1 to 16.
    pub fn new(max_memory_bytes: usize) -> (r: Self)
        ensures
            r.max_memory_bytes == max_memory_bytes,
            r.concurrent_reads == (if max_memory_bytes / 8388608usize < 1 {
                1
            } else if max_memory_bytes / 8388608usize > 16 {
                16
            } else {
                max_memory_bytes / 8388608usize
            }),
    {
        let n = max_memory_bytes / 8388608usize;
        let concurrent_reads = if n < 1 {
            1
        } else if n > 16 {
            16
        } else {
            n
        };
        MemoryAwareReader { max_memory_bytes, concurrent_reads }
    }
}

/// The memory in MiB of an `nvidia-smi` field: trimmed, without every
/// trailing ` MiB` and then every trailing ` MB`; zero where what is left
/// is not a number.
pub open spec fn smi_mib(field: Seq<char>) -> u64 {
    match unsigned_value(
        trim_suffix_all(trim_suffix_all(trim_ws(field), " MiB"@), " MB"@),
        u64::MAX as int,
    ) {
        Some(v) => v as u64,
        None => 0,
    }
}

/// The name and the memory in bytes (wrapping at 64 bits) of the device on
/// the first line of `nvidia-smi --query-gpu=name,memory.total` output,
/// where that line has at least two `, `-separated fields.
pub open spec fn smi_first_gpu(out: Seq<char>) -> Option<(Seq<char>, u64)> {
    let ls = lines_of(out);
    if ls.len() == 0 {
        None
    } else {
        let l = ls[0];
        match find_from(l, seq![',', ' '], 0) {
            None => None,
            Some(j) => {
                let second = match find_from(l, seq![',', ' '], j + 2) {
                    Some(k) => l.subrange(j + 2, k),
                    None => l.subrange(j + 2, l.len() as int),
                };
                Some((trim_ws(l.subrange(0, j)), smi_mib(second).wrapping_mul(1024).wrapping_mul(1024)))
            },
        }
    }
}

/// The NVIDIA device that `nvidia-smi` output describes on its first line.
pub fn nvidia_gpu(output: &str) -> (r: Option<GpuDevice>)
    ensures
        match smi_first_gpu(output@) {
            Some(d) => r matches Some(g) && g.name@ == d.0 && g.vendor@ == "NVIDIA"@
                && g.memory_bytes == d.1 && g.platform@ == "CUDA"@,
            None => r is None,
        },
{
    let lines = lines_vec(output);
    if lines.len() == 0 {
        return None;
    }
    let l = &lines[0];
    proof {
        assert(char_vecs(lines@)[0] == l@);
    }
    let mut sep: Vec<char> = Vec::new();
    sep.push(',');
    sep.push(' ');
    assert(sep@ =~= seq![',', ' ']);
    let j = match find_chars_from(l.as_slice(), sep.as_slice(), 0) {
        None => {
            return None;
        },
        Some(j) => j,
    };
    assert(j + 2 <= l@.len());
    assert(l@.len() == l.len());
    let second = match find_chars_from(l.as_slice(), sep.as_slice(), j + 2) {
        Some(k) => sub_chars(l.as_slice(), j + 2, k),
        None => sub_chars(l.as_slice(), j + 2, l.len()),
    };
    let mut text = trim_ws_vec(&second);
    let mib_suffix = chars_of(" MiB");
    let mb_suffix = chars_of(" MB");
    trim_suffix_all_vec(&mut text, mib_suffix.as_slice());
    trim_suffix_all_vec(&mut text, mb_suffix.as_slice());
    let mib: u64 = match parse_unsigned(text.as_slice(), u64::MAX) {
        Some(v) => v,
        None => 0,
    };
    let first = sub_chars(l.as_slice(), 0, j);
    let name = trim_ws_vec(&first);
    Some(
        GpuDevice {
            name: string_of(name.as_slice()),
            vendor: owned("NVIDIA"),
            memory_bytes: mib.wrapping_mul(1024).wrapping_mul(1024),
            platform: owned("CUDA"),
        },
    )
}

} // verus!
