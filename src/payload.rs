//! Snapshots of the machine and the payload built from them.
use vstd::prelude::*;
use crate::config::Config;

verus! {

/// Physical memory and swap, in bytes.
pub struct Memory {
    pub total_memory: u64,
    pub used_memory: u64,
    pub total_swap: u64,
    pub used_swap: u64,
}

/// What the operating system says of itself; each name may be unknown.
pub struct SystemIdentity {
    pub system_name: Option<String>,
    pub kernel_version: Option<String>,
    pub os_version: Option<String>,
    pub host_name: Option<String>,
    /// Boot time, in seconds since the Unix epoch.
    pub boot_time: u64,
}

/// One logical CPU.
pub struct Cpu {
    pub brand: String,
    /// Utilisation in thousandths of a percent (`25_000` is 25 %).
    pub usage: u32,
}

pub struct Disk {
    pub file_system: String,
    pub total_space: u64,
    pub available_space: u64,
}

pub struct ProcessInfo {
    pub pid: u32,
    pub name: String,
    /// Start time, in seconds since the Unix epoch.
    pub start_time: u64,
    /// Utilisation in thousandths of a percent.
    pub cpu_usage: u32,
    /// Resident memory, in bytes.
    pub memory: u64,
}

/// A still image of the primary display: rows of RGBA pixels, four bytes each.
pub struct DisplayImage {
    pub width: u32,
    pub height: u32,
    pub rgba: Vec<u8>,
}

/// One point-in-time sample of the machine.
pub struct Snapshot {
    pub memory: Memory,
    pub identity: SystemIdentity,
    pub cpus: Vec<Cpu>,
    pub disks: Vec<Disk>,
    /// One descriptor per network interface.
    pub networks: Vec<String>,
    /// One descriptor per sensor component.
    pub components: Vec<String>,
    pub processes: Vec<ProcessInfo>,
    /// `None` where the capture failed.
    pub display: Option<DisplayImage>,
}

/// The structure sent to the collection endpoint.
pub struct Payload {
    pub credential: String,
    pub interval_seconds: u64,
    pub start_time: u64,
    pub total_memory: u64,
    pub used_memory: u64,
    pub total_swap: u64,
    pub used_swap: u64,
    pub system_name: Option<String>,
    pub kernel_version: Option<String>,
    pub os_version: Option<String>,
    pub host_name: Option<String>,
    pub cpu_count: usize,
    pub cpu_name: Option<String>,
    /// Mean utilisation over all CPUs, in thousandths of a percent.
    pub cpu_usage: u32,
    pub disks_numbers: usize,
    pub disks: Vec<Disk>,
    pub networks: Vec<String>,
    pub processes_count: usize,
    pub processes: Vec<ProcessInfo>,
    /// The display image as base64 of its PNG encoding; empty where there is none.
    pub image_base64: String,
}

pub open spec fn usage_sum(cs: Seq<Cpu>) -> int
    decreases cs.len(),
{
    if cs.len() == 0 {
        0
    } else {
        usage_sum(cs.drop_last()) + cs.last().usage
    }
}

/// The arithmetic mean of the CPUs' utilisation, rounded down; zero for no CPU.
pub open spec fn mean_usage(cs: Seq<Cpu>) -> int {
    if cs.len() == 0 {
        0
    } else {
        usage_sum(cs) / (cs.len() as int)
    }
}

/// The PNG file that the image crate writes for an RGBA image.
pub uninterp spec fn png_of(width: u32, height: u32, rgba: Seq<u8>) -> Seq<u8>;

/// Standard base64 text, with padding, of some bytes.
pub uninterp spec fn base64_of(bytes: Seq<u8>) -> Seq<char>;

pub open spec fn pixels_fit(img: DisplayImage) -> bool {
    img.rgba@.len() == img.width as int * img.height as int * 4
}

/// Relies on image::write_buffer_with_format with the PNG format: it writes
/// the PNG encoding of the pixels; it panics where the buffer's length is not
/// four bytes per pixel, begins its output with the 8-byte PNG signature,
/// and reports an error only for a zero width or
/// height (writing into memory does not fail).
#[verifier::external_body]
fn encode_png(width: u32, height: u32, rgba: &Vec<u8>) -> (r: Option<Vec<u8>>)
    requires
        rgba@.len() == width as int * height as int * 4,
    ensures
        r is Some ==> r->0@ == png_of(width, height, rgba@) && r->0@.len() >= 8,
        (r is Some) == (width > 0 && height > 0),
{
    let mut out = std::io::Cursor::new(Vec::new());
    match image::write_buffer_with_format(
        &mut out,
        rgba,
        width,
        height,
        image::ColorType::Rgba8,
        image::ImageOutputFormat::Png,
    ) {
        Ok(()) => Some(out.into_inner()),
        Err(_) => None,
    }
}

/// Relies on base64's standard engine: padded base64 text, four characters
/// for each three bytes or part of three.
#[verifier::external_body]
fn base64_text(bytes: &Vec<u8>) -> (r: String)
    ensures
        r@ == base64_of(bytes@),
        r@.len() == 4 * ((bytes@.len() + 2) / 3),
{
    base64::Engine::encode(&base64::engine::general_purpose::STANDARD, bytes)
}

/// The text sent for an encoded image: base64 of the PNG bytes, or empty
/// where the encoding failed.
pub fn image_text(png: Option<Vec<u8>>) -> (r: String)
    ensures
        match png {
            Some(b) => r@ == base64_of(b@) && r@.len() == 4 * ((b@.len() + 2) / 3),
            None => r@ == Seq::<char>::empty(),
        },
{
    match png {
        Some(b) => base64_text(&b),
        None => String::new(),
    }
}

pub open spec fn has_pixels(img: DisplayImage) -> bool {
    pixels_fit(img) && img.width > 0 && img.height > 0
}

/// Encodes a display image for the payload: base64 of its PNG encoding, or
/// empty text where the pixels do not fit its size or it has no pixel (the
/// encoder refuses an image of zero width or height).
pub fn encode_display(img: &DisplayImage) -> (r: String)
    ensures
        !pixels_fit(*img) ==> r@ == Seq::<char>::empty(),
        has_pixels(*img) ==> r@ == base64_of(png_of(img.width, img.height, img.rgba@)) && r@.len()
            > 0,
        pixels_fit(*img) && !has_pixels(*img) ==> r@ == Seq::<char>::empty(),
{
    let w = img.width as u128;
    let h = img.height as u128;
    assert(w * h <= u32::MAX as u128 * u32::MAX as u128) by (nonlinear_arith)
        requires
            w <= u32::MAX,
            h <= u32::MAX,
    ;
    let fits = img.rgba.len() as u128 == w * h * 4;
    if !fits {
        return String::new();
    }
    let png = encode_png(img.width, img.height, &img.rgba);
    image_text(png)
}

/// The mean utilisation of the CPUs, rounded down; zero where there are none.
pub fn average_usage(cpus: &Vec<Cpu>) -> (r: u32)
    ensures
        r as int == mean_usage(cpus@),
{
    let n = cpus.len();
    if n == 0 {
        return 0;
    }
    let mut sum: u128 = 0;
    let mut i: usize = 0;
    while i < n
        invariant
            i <= n,
            n == cpus@.len(),
            sum as int == usage_sum(cpus@.take(i as int)),
            sum <= i as int * u32::MAX as int,
        decreases n - i,
    {
        proof {
            assert(cpus@.take(i + 1).drop_last() =~= cpus@.take(i as int));
        }
        sum = sum + cpus[i].usage as u128;
        i = i + 1;
    }
    proof {
        assert(cpus@.take(n as int) =~= cpus@);
        let s = sum as int;
        let m = n as int;
        assert(s / m <= u32::MAX) by (nonlinear_arith)
            requires
                s <= m * u32::MAX,
                m > 0,
                s >= 0,
        ;
    }
    (sum / n as u128) as u32
}

pub open spec fn first_brand(cs: Seq<Cpu>) -> Option<String> {
    if cs.len() == 0 {
        None
    } else {
        Some(cs[0].brand)
    }
}

/// Whether `p` is the payload of snapshot `s` under settings `c`: every
/// field taken from them, the CPU usage their mean, and the image text the
/// base64 of the image's PNG encoding, empty where there is no image to encode.
pub open spec fn built_from(p: Payload, s: Snapshot, c: Config) -> bool {
    &&& p.credential == c.credential
    &&& p.interval_seconds == c.interval_seconds
    &&& p.start_time == s.identity.boot_time
    &&& p.total_memory == s.memory.total_memory
    &&& p.used_memory == s.memory.used_memory
    &&& p.total_swap == s.memory.total_swap
    &&& p.used_swap == s.memory.used_swap
    &&& p.system_name == s.identity.system_name
    &&& p.kernel_version == s.identity.kernel_version
    &&& p.os_version == s.identity.os_version
    &&& p.host_name == s.identity.host_name
    &&& p.cpu_count == s.cpus@.len()
    &&& p.cpu_name == first_brand(s.cpus@)
    &&& p.cpu_usage as int == mean_usage(s.cpus@)
    &&& p.disks_numbers == s.disks@.len()
    &&& p.disks@ == s.disks@
    &&& p.networks@ == s.networks@
    &&& p.processes_count == s.processes@.len()
    &&& p.processes@ == s.processes@
    &&& s.display is None ==> p.image_base64@ == Seq::<char>::empty()
    &&& s.display is Some && !pixels_fit(s.display->0) ==> p.image_base64@ == Seq::<
        char,
    >::empty()
    &&& s.display is Some && has_pixels(s.display->0) ==> p.image_base64@ == base64_of(
        png_of(s.display->0.width, s.display->0.height, s.display->0.rgba@),
    ) && p.image_base64@.len() > 0
    &&& s.display is Some && pixels_fit(s.display->0) && !has_pixels(s.display->0)
        ==> p.image_base64@ == Seq::<char>::empty()
}

/// Builds the payload of one snapshot. Every field is set: what the snapshot
/// lacks stays `None` or empty.
pub fn build(snapshot: Snapshot, config: &Config) -> (r: Payload)
    ensures
        built_from(r, snapshot, *config),
{
    let cpu_usage = average_usage(&snapshot.cpus);
    let cpu_name = if snapshot.cpus.len() == 0 {
        None
    } else {
        Some(snapshot.cpus[0].brand.clone())
    };
    let image_base64 = match &snapshot.display {
        Some(img) => encode_display(img),
        None => String::new(),
    };
    let cpu_count = snapshot.cpus.len();
    let disks_numbers = snapshot.disks.len();
    let processes_count = snapshot.processes.len();
    Payload {
        credential: config.credential.clone(),
        interval_seconds: config.interval_seconds,
        start_time: snapshot.identity.boot_time,
        total_memory: snapshot.memory.total_memory,
        used_memory: snapshot.memory.used_memory,
        total_swap: snapshot.memory.total_swap,
        used_swap: snapshot.memory.used_swap,
        system_name: snapshot.identity.system_name,
        kernel_version: snapshot.identity.kernel_version,
        os_version: snapshot.identity.os_version,
        host_name: snapshot.identity.host_name,
        cpu_count,
        cpu_name,
        cpu_usage,
        disks_numbers,
        disks: snapshot.disks,
        networks: snapshot.networks,
        processes_count,
        processes: snapshot.processes,
        image_base64,
    }
}

} // verus!
