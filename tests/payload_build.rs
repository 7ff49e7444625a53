use host_agent::config::Config;
use host_agent::payload::{
    average_usage, build, encode_display, image_text, Cpu, DisplayImage, Disk, Memory,
    ProcessInfo, Snapshot, SystemIdentity,
};

fn config() -> Config {
    Config {
        credential: "secret-key".to_string(),
        endpoint: "http://localhost/metrics".to_string(),
        interval_seconds: 5,
    }
}

fn cpus(usages: &[u32]) -> Vec<Cpu> {
    usages.iter().map(|u| Cpu { brand: "Test CPU".to_string(), usage: *u }).collect()
}

fn image() -> DisplayImage {
    DisplayImage { width: 2, height: 2, rgba: vec![255; 16] }
}

fn snapshot(cpus: Vec<Cpu>, display: Option<DisplayImage>) -> Snapshot {
    Snapshot {
        memory: Memory { total_memory: 16, used_memory: 8, total_swap: 4, used_swap: 1 },
        identity: SystemIdentity {
            system_name: Some("Linux".to_string()),
            kernel_version: Some("6.1".to_string()),
            os_version: None,
            host_name: Some("box".to_string()),
            boot_time: 1_700_000_000,
        },
        cpus,
        disks: vec![
            Disk { file_system: "ext4".to_string(), total_space: 100, available_space: 40 },
            Disk { file_system: "vfat".to_string(), total_space: 10, available_space: 9 },
        ],
        networks: vec!["eth0".to_string()],
        components: vec![],
        processes: vec![ProcessInfo {
            pid: 1,
            name: "init".to_string(),
            start_time: 1_700_000_001,
            cpu_usage: 500,
            memory: 4096,
        }],
        display,
    }
}

#[test]
fn cpu_usage_is_the_mean() {
    let p = build(snapshot(cpus(&[10_000, 20_000, 30_000, 40_000]), Some(image())), &config());
    assert_eq!(p.cpu_usage, 25_000);
    assert_eq!(p.cpu_count, 4);
    assert_eq!(p.cpu_name.as_deref(), Some("Test CPU"));
}

#[test]
fn cpu_usage_without_cpus_is_zero() {
    let p = build(snapshot(vec![], None), &config());
    assert_eq!(p.cpu_usage, 0);
    assert_eq!(p.cpu_count, 0);
    assert_eq!(p.cpu_name, None);
}

#[test]
fn average_usage_rounds_down() {
    assert_eq!(average_usage(&cpus(&[1, 2])), 1);
    assert_eq!(average_usage(&cpus(&[u32::MAX, u32::MAX])), u32::MAX);
    assert_eq!(average_usage(&cpus(&[])), 0);
}

#[test]
fn missing_display_gives_empty_image() {
    let p = build(snapshot(cpus(&[1_000]), None), &config());
    assert_eq!(p.image_base64, "");
}

#[test]
fn mismatched_pixels_give_empty_image() {
    let bad = DisplayImage { width: 3, height: 3, rgba: vec![0; 4] };
    assert_eq!(encode_display(&bad), "");
}

#[test]
fn empty_display_gives_empty_image() {
    let empty = DisplayImage { width: 0, height: 5, rgba: vec![] };
    assert_eq!(encode_display(&empty), "");
}

#[test]
fn display_is_png_in_base64() {
    let text = encode_display(&image());
    assert!(text.starts_with("iVBORw0KGgo"), "{text}");
    assert_eq!(text.len() % 4, 0);
}

#[test]
fn image_text_encodes_bytes() {
    assert_eq!(image_text(Some(b"Man".to_vec())), "TWFu");
    assert_eq!(image_text(Some(b"Ma".to_vec())), "TWE=");
    assert_eq!(image_text(None), "");
}

#[test]
fn payload_passes_fields_through() {
    let p = build(snapshot(cpus(&[10_000]), Some(image())), &config());
    assert_eq!(p.credential, "secret-key");
    assert_eq!(p.interval_seconds, 5);
    assert_eq!(p.start_time, 1_700_000_000);
    assert_eq!((p.total_memory, p.used_memory, p.total_swap, p.used_swap), (16, 8, 4, 1));
    assert_eq!(p.system_name.as_deref(), Some("Linux"));
    assert_eq!(p.kernel_version.as_deref(), Some("6.1"));
    assert_eq!(p.os_version, None);
    assert_eq!(p.host_name.as_deref(), Some("box"));
    assert_eq!(p.disks_numbers, 2);
    assert_eq!(p.disks[1].file_system, "vfat");
    assert_eq!(p.networks, vec!["eth0".to_string()]);
    assert_eq!(p.processes_count, 1);
    assert_eq!(p.processes[0].name, "init");
    assert!(!p.image_base64.is_empty());
}
