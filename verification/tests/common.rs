//! Keys, modes, addresses, rates, compression and the statistics log.

use kcptun::calendar::civil_from_secs;
use kcptun::common::key::derive_key;
use kcptun::common::mode::{apply_mode, apply_mode_or_manual, parse_mode};
use kcptun::common::multiport::{expand_addr, parse_multi_port, AddrError};
use kcptun::common::qpp_validate::{gcd, validate_qpp_params};
use kcptun::common::ratelimit::RateLimiter;
use kcptun::common::snappy_frame::{SnappyStreamDecoder, SnappyStreamEncoder};
use kcptun::common::snmp_log::{
    csv_header, csv_line, expand_time_at, expand_time_format, lines_to_append, rust_obs_header,
    rust_obs_line, rust_obs_path, RustObs,
};
use kcptun::kcp::config::{KcpMode, KCP};
use kcptun::wire::{push_be16, push_be32, read_be16, read_be32};
use std::io::Write;

#[test]
fn test_derive_key() {
    let key = derive_key("test-password");
    assert_eq!(key.len(), 32);
    let key2 = derive_key("test-password");
    assert_eq!(key, key2);
}

#[test]
fn test_derive_key_different() {
    let key1 = derive_key("password1");
    let key2 = derive_key("password2");
    assert_ne!(key1, key2);
}

#[test]
fn derived_key_is_known() {
    let key = derive_key("test-password");
    assert_eq!(key[..8], [0xe6, 0xad, 0x6b, 0xd2, 0x79, 0x20, 0xd4, 0x76]);
    assert_eq!(key[24..], [0x1d, 0x1b, 0x1d, 0x41, 0x39, 0x78, 0x73, 0xff]);
}

#[test]
fn test_apply_mode_normal() {
    let mut kcp = KCP::new(1, 0);
    apply_mode(&mut kcp, "normal");
    assert_eq!(kcp.interval(), 40);
}

#[test]
fn test_apply_mode_fast3() {
    let mut kcp = KCP::new(1, 0);
    apply_mode(&mut kcp, "fast3");
    assert_eq!(kcp.interval(), 10);
}

#[test]
fn modes_by_name() {
    assert_eq!(parse_mode("normal"), Some(KcpMode::Normal));
    assert_eq!(parse_mode("fast"), Some(KcpMode::Fast));
    assert_eq!(parse_mode("fast2"), Some(KcpMode::Fast2));
    assert_eq!(parse_mode("fast3"), Some(KcpMode::Fast3));
    assert_eq!(parse_mode("manual"), None);
}

#[test]
fn manual_mode_takes_its_own_settings() {
    let mut kcp = KCP::new(1, 0);
    apply_mode_or_manual(&mut kcp, "manual", 1, 25, 2, 1);
    assert_eq!(kcp.interval(), 25);
}

#[test]
fn test_single_port() {
    let addrs = parse_multi_port("127.0.0.1:1234").unwrap();
    assert_eq!(addrs.len(), 1);
    assert_eq!(addrs[0].port, 1234);
}

#[test]
fn test_port_range() {
    let addrs = parse_multi_port("127.0.0.1:1000-1003").unwrap();
    assert_eq!(addrs.len(), 4);
    assert_eq!(addrs[0].port, 1000);
    assert_eq!(addrs[3].port, 1003);
}

#[test]
fn test_shorthand_host() {
    let addrs = parse_multi_port(":29900-29901").unwrap();
    assert_eq!(addrs.len(), 2);
    assert_eq!(addrs[0].port, 29900);
    assert_eq!(addrs[1].port, 29901);
}

#[test]
fn test_ipv6() {
    let addrs = parse_multi_port("[::1]:1234").unwrap();
    assert_eq!(addrs.len(), 1);
}

#[test]
fn test_invalid_range() {
    assert!(parse_multi_port("127.0.0.1:10-5").is_err());
    assert!(parse_multi_port("127.0.0.1:0-10").is_err());
    assert!(parse_multi_port("127.0.0.1:99999-99999").is_err());
}

#[test]
fn test_no_port() {
    assert!(parse_multi_port("127.0.0.1").is_err());
}

#[test]
fn address_errors_tell_what_is_wrong() {
    assert_eq!(parse_multi_port("127.0.0.1").unwrap_err(), AddrError::MissingPort);
    assert_eq!(
        parse_multi_port("127.0.0.1:10-5").unwrap_err(),
        AddrError::InvalidRange { min: 10, max: 5 }
    );
    assert_eq!(parse_multi_port("127.0.0.1:x").unwrap_err(), AddrError::InvalidPort);
    assert_eq!(parse_multi_port("host:99999").unwrap_err(), AddrError::InvalidPort);
}

#[test]
fn addresses_as_text() {
    let addrs = parse_multi_port(":29900-29901").unwrap();
    assert_eq!(addrs[0].to_text(), "0.0.0.0:29900");
    assert_eq!(addrs[1].to_text(), "0.0.0.0:29901");
    assert_eq!(parse_multi_port("[::1]:1234").unwrap()[0].to_text(), "[::1]:1234");
}

#[test]
fn shorthand_address_is_expanded() {
    assert_eq!(expand_addr(":29900"), "0.0.0.0:29900");
    assert_eq!(expand_addr("10.0.0.1:1"), "10.0.0.1:1");
}

#[test]
fn zero_count_is_fatal() {
    let result = validate_qpp_params(0, &[0u8; 256]);
    assert!(result.is_err());
}

#[test]
fn short_key_warns() {
    let result = validate_qpp_params(61, b"short-key");
    assert!(result.is_ok());
    let warnings = result.unwrap();
    assert!(warnings.iter().any(|w| w.contains("key")));
}

#[test]
fn adequate_key_no_warnings() {
    let result = validate_qpp_params(61, &[0u8; 256]);
    assert!(result.is_ok());
    let warnings = result.unwrap();
    assert!(warnings.is_empty());
}

#[test]
fn non_prime_warns() {
    let result = validate_qpp_params(64, &[0u8; 256]);
    assert!(result.is_ok());
    let warnings = result.unwrap();
    assert!(warnings.iter().any(|w| w.contains("prime")));
}

#[test]
fn too_few_pads_warns() {
    let result = validate_qpp_params(3, &[0u8; 256]);
    assert!(result.is_ok());
    let warnings = result.unwrap();
    assert!(warnings.iter().any(|w| w.contains("required")));
}

#[test]
fn warnings_word_for_word() {
    assert_eq!(
        validate_qpp_params(0, b"").unwrap_err(),
        "QPPCount must be greater than 0 when QPP is enabled"
    );
    assert_eq!(
        validate_qpp_params(61, b"short-key").unwrap(),
        vec!["QPP Warning: 'key' has size of 9 bytes, required 256 bytes at least".to_string()]
    );
}

#[test]
fn greatest_common_divisors() {
    assert_eq!(gcd(64, 256), 64);
    assert_eq!(gcd(61, 256), 1);
    assert_eq!(gcd(0, 9), 9);
}

#[test]
fn zero_rate_is_unlimited() {
    let mut lim = RateLimiter::new(0, 0);
    assert_eq!(lim.acquire(1_000_000, 0), 0);
    assert_eq!(lim.acquire(1_000_000_000, 0), 0);
}

#[test]
fn small_burst_passes_immediately() {
    let mut lim = RateLimiter::new(1_000_000, 0);
    assert_eq!(lim.acquire(100_000, 0), 0);
}

#[test]
fn rate_limit_enforces_wait() {
    let mut lim = RateLimiter::new(1_000_000, 0);
    assert_eq!(lim.acquire(1_000_000, 0), 0);
    let wait = lim.acquire(100_000, 0);
    assert!(wait >= 80_000_000, "wait was {:?}", wait);
    assert!(wait <= 500_000_000, "wait was {:?}", wait);
}

#[test]
fn waiting_as_told_suffices() {
    let mut lim = RateLimiter::new(1_000_000, 0);
    assert_eq!(lim.acquire(1_000_000, 0), 0);
    assert_eq!(lim.acquire(100_000, 0), 100_000_000);
    assert_eq!(lim.acquire(100_000, 100_000_000), 0);
    assert_eq!(lim.acquire(1, 100_000_000), 1_000);
}

#[test]
fn settling_empties_the_bucket_at_worst() {
    let mut lim = RateLimiter::new(1_000, 0);
    assert_eq!(lim.acquire(1_000, 0), 0);
    lim.settle(5_000, 1_000_000_000);
    assert_eq!(lim.acquire(1_000, 1_000_000_000), 1_000_000_000);
}

#[test]
fn set_rate_dynamically() {
    let mut lim = RateLimiter::new(1_000_000, 0);
    lim.set_rate(2_000_000, 0);
    assert_eq!(lim.rate(), 2_000_000);
    assert_eq!(lim.acquire(2_000_000, 0), 0);
}

#[test]
fn zero_n_returns_immediately() {
    let mut lim = RateLimiter::new(1_000, 0);
    assert_eq!(lim.acquire(0, 0), 0);
}

#[test]
fn snappy_stream_is_known() {
    let mut enc = SnappyStreamEncoder::new();
    assert_eq!(
        enc.encode(b"hello"),
        vec![
            0xff, 0x06, 0x00, 0x00, 0x73, 0x4e, 0x61, 0x50, 0x70, 0x59, 0x01, 0x09, 0x00, 0x00,
            0xbb, 0x1f, 0x1c, 0x19, b'h', b'e', b'l', b'l', b'o'
        ]
    );
    assert_eq!(
        enc.encode(b"hello"),
        vec![0x01, 0x09, 0x00, 0x00, 0xbb, 0x1f, 0x1c, 0x19, b'h', b'e', b'l', b'l', b'o']
    );
    assert!(enc.encode(b"").is_empty());
}

#[test]
fn snappy_comes_back_byte_by_byte() {
    let mut enc = SnappyStreamEncoder::new();
    let mut dec = SnappyStreamDecoder::default();
    let data = vec![7u8; 200_000];
    let mut out: Vec<u8> = Vec::new();
    let first = enc.encode(&data);
    assert!(first.len() < data.len());
    for b in first {
        out.extend(dec.feed(&[b]).unwrap());
    }
    assert_eq!(out, data);
    assert_eq!(dec.feed(&enc.encode(b"more")).unwrap(), b"more");
}

#[test]
fn snappy_decoder_agrees_with_the_frame_encoder() {
    let mut enc = snap::write::FrameEncoder::new(Vec::new());
    enc.write_all(b"one piece of text, one piece of text, one piece of text").unwrap();
    enc.flush().unwrap();
    enc.write_all(b"and one more").unwrap();
    enc.flush().unwrap();
    let bytes = enc.get_ref().clone();
    let mut dec = SnappyStreamDecoder::new();
    let mut out = dec.feed(&bytes[..17]).unwrap();
    out.extend(dec.feed(&bytes[17..]).unwrap());
    assert_eq!(
        out,
        b"one piece of text, one piece of text, one piece of textand one more".to_vec()
    );
}

#[test]
fn snappy_passes_over_what_it_does_not_know() {
    let mut dec = SnappyStreamDecoder::new();
    let mut stream = vec![1u8, 2, 3];
    stream.extend([0xff, 6, 0, 0, 0x73, 0x4e, 0x61, 0x50, 0x70, 0x59]);
    stream.extend([0x80, 2, 0, 0, 9, 9]);
    stream.extend([0x00, 6, 0, 0, 1, 2, 3, 4, 0xff, 0xff]);
    stream.extend([0x01, 6, 0, 0, 0, 0, 0, 0, b'o', b'k']);
    assert_eq!(dec.feed(&stream).unwrap(), b"ok");
}

#[test]
fn test_civil_from_secs_epoch() {
    let (y, m, d, h, min, s) = civil_from_secs(0);
    assert_eq!((y, m, d), (1970, 1, 1));
    assert_eq!((h, min, s), (0, 0, 0));
}

#[test]
fn test_civil_from_secs_known() {
    let ts: u64 = 1718454645;
    let (y, m, d, h, min, s) = civil_from_secs(ts);
    assert_eq!((y, m, d), (2024, 6, 15));
    assert_eq!((h, min, s), (12, 30, 45));
}

#[test]
fn test_civil_from_secs_leap_year() {
    let feb29_2024: u64 = 1709164800;
    let (y, m, d, h, min, s) = civil_from_secs(feb29_2024);
    assert_eq!((y, m, d), (2024, 2, 29));
    assert_eq!((h, min, s), (0, 0, 0));
}

#[test]
fn test_civil_from_secs_year_2000() {
    let y2k: u64 = 946684800;
    let (y, m, d, h, min, s) = civil_from_secs(y2k);
    assert_eq!((y, m, d), (2000, 1, 1));
    assert_eq!((h, min, s), (0, 0, 0));
}

#[test]
fn civil_century_that_is_no_leap_year() {
    assert_eq!(civil_from_secs(4107542399), (2100, 2, 28, 23, 59, 59));
    assert_eq!(civil_from_secs(4107542400), (2100, 3, 1, 0, 0, 0));
}

#[test]
fn test_expand_time_format_epoch() {
    let result = expand_time_format("snmp-%Y%m%d.log");
    assert!(!result.contains("%Y"));
    assert!(!result.contains("%m"));
    assert!(!result.contains("%d"));
    assert!(result.starts_with("snmp-"));
    assert!(result.ends_with(".log"));
    let date_part = &result[5..13];
    assert!(date_part.chars().all(|c| c.is_ascii_digit()));
}

#[test]
fn test_expand_time_format_mixed_literals() {
    let result = expand_time_format("/var/log/kcptun/%Y/%m/snmp-%d.log");
    assert!(!result.contains('%'), "all % specifiers must be replaced");
    assert!(result.starts_with("/var/log/kcptun/"));
    assert!(result.ends_with(".log"));
}

#[test]
fn test_expand_time_format_hms() {
    let result = expand_time_format("dump-%H%M%S.csv");
    assert!(!result.contains('%'), "all % specifiers must be replaced");
    assert!(result.starts_with("dump-"));
    assert!(result.ends_with(".csv"));
    let time_part = &result[5..11];
    assert!(time_part.chars().all(|c| c.is_ascii_digit()));
}

#[test]
fn test_civil_vs_expand_consistency() {
    let secs: u64 = 1718454645;
    let (y, m, d, h, min, s) = civil_from_secs(secs);
    let formatted = format!("{:04}{:02}{:02}-{:02}{:02}{:02}", y, m, d, h, min, s);
    assert_eq!(formatted, "20240615-123045");
}

#[test]
fn paths_at_a_known_time() {
    assert_eq!(
        expand_time_at("/log/%Y/%m/%d-%H%M%S.csv", 1718454645),
        "/log/2024/06/15-123045.csv"
    );
    assert_eq!(expand_time_at("%%Y %x", 0), "%1970 %x");
    assert!(expand_time_format("%Y").as_str() >= "2024");
}

#[test]
fn statistics_lines() {
    let columns = vec!["BytesSent".to_string(), "BytesReceived".to_string()];
    let header = csv_header(&columns);
    assert_eq!(header, "timestamp,BytesSent,BytesReceived");
    let line = csv_line(7, &vec!["1".to_string(), "2".to_string()]);
    assert_eq!(line, "7,1,2");
    assert_eq!(
        lines_to_append(0, header.clone(), line.clone()),
        vec![header.clone(), line.clone()]
    );
    assert_eq!(lines_to_append(5, header, line.clone()), vec![line]);
}

#[test]
fn observation_file_stands_beside_the_log() {
    assert_eq!(rust_obs_path("snmp.log"), "snmp.log.rustobs");
    assert_eq!(
        rust_obs_header(),
        "timestamp,EmptyFlush,EncryptInline,EncryptOffload,DecryptOffloadSkipped,WriteInlineSends,WriteFlushSends,InputUrgentSends"
    );
    let obs = RustObs {
        empty_flush: 1,
        encrypt_inline: 2,
        encrypt_offload: 3,
        decrypt_offload_skipped: 4,
        write_inline_sends: 5,
        write_flush_sends: 60,
        input_urgent_sends: 700,
    };
    assert_eq!(rust_obs_line(99, obs), "99,1,2,3,4,5,60,700");
}

#[test]
fn hosts_are_addresses() {
    let good = [
        "0.0.0.0:1",
        "255.255.255.255:1",
        "[::]:1",
        "[::1]:1",
        "[1::]:1",
        "[fe80::1%3]:1",
        "[1:2:3:4:5:6:7:8]:1",
        "[1:2:3:4:5:6:7::]:1",
        "[::2:3:4:5:6:7:8]:1",
        "[::ffff:10.0.0.1]:1",
        "[1:2:3:4:5:6:10.0.0.1]:1",
        "[ABCD:ef01::00ff]:1-2",
    ];
    for addr in good {
        assert!(parse_multi_port(addr).is_ok(), "{}", addr);
    }
    let bad = [
        "vps:1",
        "localhost:1",
        "1.2.3:1",
        "1.2.3.4.5:1",
        "1.2.3.256:1",
        "01.2.3.4:1",
        "1.2.3.0004:1",
        "1..3.4:1",
        "+1.2.3.4:1",
        " 1.2.3.4:1",
        "::1:1",
        "[]:1",
        "[:]:1",
        "[:::]:1",
        "[1::2::3]:1",
        "[1:2:3:4:5:6:7]:1",
        "[1:2:3:4:5:6:7:8:9]:1",
        "[1:2:3:4:5:6:7:8::]:1",
        "[1:2:3:4::5:6:7:8]:1",
        "[1:2:3:4:5:6:7:10.0.0.1]:1",
        "[10.0.0.1::]:1",
        "[10.0.0.1]:1",
        "[12345::]:1",
        "[g::]:1",
        "[::1%]:1",
        "[::1%eth0]:1",
        "[::1%4294967296]:1",
        "[::1%1%2]:1",
        "[::1:1",
        "::1]:1",
        "[[::1]]:1",
        "1.2.3.4:5:1",
    ];
    for addr in bad {
        assert_eq!(parse_multi_port(addr).unwrap_err(), AddrError::InvalidHost, "{}", addr);
    }
    assert_eq!(parse_multi_port("vps:2-5").unwrap_err(), AddrError::InvalidHost);
    assert_eq!(
        parse_multi_port("vps:5-2").unwrap_err(),
        AddrError::InvalidRange { min: 5, max: 2 }
    );
}

#[test]
fn big_endian_numbers_come_back() {
    let mut out = vec![9u8];
    push_be16(&mut out, 0x1234);
    push_be32(&mut out, 0xdeadbeef);
    assert_eq!(out, vec![9, 0x12, 0x34, 0xde, 0xad, 0xbe, 0xef]);
    assert_eq!(read_be16(&out, 1), 0x1234);
    assert_eq!(read_be32(&out, 3), 0xdeadbeef);
}

#[test]
fn waits_are_rounded_to_the_nearest_nanosecond() {
    let mut lim = RateLimiter::new(3, 0);
    assert_eq!(lim.acquire(3, 0), 0);
    assert_eq!(lim.acquire(1, 0), 333_333_333);
    assert_eq!(lim.acquire(2, 0), 666_666_667);
    let mut lim = RateLimiter::new(1_024, 0);
    assert_eq!(lim.acquire(1_024, 0), 0);
    assert_eq!(lim.acquire(1, 0), 976_562);
    assert_eq!(lim.acquire(3, 0), 2_929_688);
    let mut lim = RateLimiter::new(4_000_000_000, 0);
    assert_eq!(lim.acquire(4_000_000_000, 0), 0);
    assert_eq!(lim.acquire(1, 0), 0);
    assert_eq!(lim.acquire(4, 0), 1);
}

#[test]
fn rate_is_kept_over_time() {
    let mut lim = RateLimiter::new(1_000, 0);
    let mut granted: u64 = 0;
    for ms in 0..3_000u64 {
        if lim.acquire(100, ms * 1_000_000) == 0 {
            granted += 100;
        }
    }
    assert!(granted <= 1_000 + 3_000);
    assert_eq!(granted, 3_900);
}
