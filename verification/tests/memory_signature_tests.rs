use hmac::{Hmac, Mac};
use image_mirror::memory::{cgroup_memory, process_memory, CgroupMemory, ProcessMemory};
use image_mirror::signature::verify_signature;
use sha2::Sha256;

#[test]
fn proc_status_figures() {
    let status = "Name:\tserver\nVmPeak:\t  9000 kB\nVmRSS:\t  2048 kB\nRssAnon:\t  1024 kB\nRssFile:\t   512 kB\r\n";
    assert_eq!(process_memory(status), ProcessMemory { rss_kb: 2048, anon_kb: 1024, file_kb: 512 });
}

#[test]
fn proc_status_missing_or_bad_fields() {
    assert_eq!(process_memory(""), ProcessMemory { rss_kb: 0, anon_kb: 0, file_kb: 0 });
    let status = "VmRSS:\nRssAnon: x kB\nRssFile: +7 kB\n VmRSS: 5 kB";
    assert_eq!(process_memory(status), ProcessMemory { rss_kb: 0, anon_kb: 0, file_kb: 7 });
}

#[test]
fn last_line_wins() {
    let status = "VmRSS: 1 kB\nVmRSS: 2 kB\n";
    assert_eq!(process_memory(status).rss_kb, 2);
}

#[test]
fn overflowing_field_reads_zero() {
    let status = "VmRSS: 18446744073709551616 kB\nRssAnon: 18446744073709551615 kB";
    let m = process_memory(status);
    assert_eq!(m.rss_kb, 0);
    assert_eq!(m.anon_kb, u64::MAX);
}

#[test]
fn cgroup_figures() {
    let stat = "anon 4096\nfile 8192\nkernel 1\nanon_thp 0\n";
    assert_eq!(cgroup_memory(stat), CgroupMemory { anon_bytes: 4096, file_bytes: 8192 });
}

fn tag(secret: &str, msg: &str) -> String {
    let mut mac = Hmac::<Sha256>::new_from_slice(secret.as_bytes()).unwrap();
    mac.update(msg.as_bytes());
    hex::encode(mac.finalize().into_bytes())
}

#[test]
fn signatures() {
    let t = tag("SECRET-REDACTED", "aGVsbG8=");
    assert!(verify_signature("aGVsbG8=", &t, "SECRET-REDACTED"));
    assert!(verify_signature("aGVsbG8=", &t.to_uppercase(), "SECRET-REDACTED"));
    assert!(!verify_signature("aGVsbG9=", &t, "SECRET-REDACTED"));
    assert!(!verify_signature("aGVsbG8=", &t, "other"));
    assert!(!verify_signature("aGVsbG8=", &t[1..], "SECRET-REDACTED"));
    assert!(!verify_signature("aGVsbG8=", &t[2..], "SECRET-REDACTED"));
    assert!(!verify_signature("aGVsbG8=", "zz", "SECRET-REDACTED"));
    assert!(!verify_signature("aGVsbG8=", "", "SECRET-REDACTED"));
}

#[test]
fn known_hmac_vector() {
    // RFC 4231, test case 2.
    let expected = "5bdcc146bf60754e6a042426089575c75a003f089d2739839dec58b964ec3843";
    assert!(verify_signature("what do ya want for nothing?", expected, "Jefe"));
}
