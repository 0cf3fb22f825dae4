use cdn_optimizer::address::Address;
use cdn_optimizer::probe::{
    latency_from_output, parse_ping_output, ping_arguments, ping_program, probe_result,
    settle_probe, Attempt, Latency, LatencySource, Platform, RawAttempt,
};

fn micros(n: u64) -> Latency {
    Latency { micros: n }
}

const LINUX_REPLY: &str = "PING 1.1.1.1 (1.1.1.1) 56(84) bytes of data.\n\
64 bytes from 1.1.1.1: icmp_seq=1 ttl=57 time=12.3 ms\n\n\
--- 1.1.1.1 ping statistics ---\n\
1 packets transmitted, 1 received, 0% packet loss, time 0ms\n\
rtt min/avg/max/mdev = 12.345/12.345/12.345/0.000 ms\n";

const WINDOWS_REPLY: &str = "\r\nPinging 1.1.1.1 with 32 bytes of data:\r\n\
Reply from 1.1.1.1: bytes=32 time=12ms TTL=57\r\n\r\n\
Ping statistics for 1.1.1.1:\r\n\
    Packets: Sent = 1, Received = 1, Lost = 0 (0% loss),\r\n\
Approximate round trip times in milli-seconds:\r\n\
    Minimum = 12ms, Maximum = 12ms, Average = 12ms\r\n";

#[test]
fn ping_program_is_ping() {
    assert_eq!(ping_program(), "ping");
}

#[test]
fn linux_arguments_ask_for_one_echo_with_seconds() {
    let arguments = ping_arguments(Platform::Linux, &Address::V4(0x0a000001), 6000);
    assert_eq!(arguments, vec!["-c", "1", "-W", "6", "10.0.0.1"]);
}

#[test]
fn linux_timeout_is_rounded_down_to_seconds() {
    let arguments = ping_arguments(Platform::Linux, &Address::V4(0x01010101), 1999);
    assert_eq!(arguments, vec!["-c", "1", "-W", "1", "1.1.1.1"]);
    let none = ping_arguments(Platform::Linux, &Address::V4(0x01010101), 999);
    assert_eq!(none[3], "0");
}

#[test]
fn windows_arguments_ask_for_one_echo_with_milliseconds() {
    let arguments = ping_arguments(Platform::Windows, &Address::V6(1), 6000);
    assert_eq!(arguments, vec!["-n", "1", "-w", "6000", "::1"]);
}

#[test]
fn linux_reply_with_fraction() {
    assert_eq!(parse_ping_output(Platform::Linux, LINUX_REPLY), Some(micros(12_300)));
}

#[test]
fn linux_token_without_fraction() {
    assert_eq!(parse_ping_output(Platform::Linux, "time=7 ms"), Some(micros(7_000)));
}

#[test]
fn linux_fraction_is_cut_after_microseconds() {
    assert_eq!(parse_ping_output(Platform::Linux, "time=0.0459 ms"), Some(micros(45)));
    assert_eq!(parse_ping_output(Platform::Linux, "time=1.5 ms"), Some(micros(1_500)));
    assert_eq!(parse_ping_output(Platform::Linux, "time=1.05 ms"), Some(micros(1_050)));
    assert_eq!(parse_ping_output(Platform::Linux, "time=2.999999 ms"), Some(micros(2_999)));
}

#[test]
fn linux_first_token_counts() {
    let text = "time=3.2 ms and later time=9.9 ms";
    assert_eq!(parse_ping_output(Platform::Linux, text), Some(micros(3_200)));
}

#[test]
fn linux_token_needs_its_unit() {
    assert_eq!(parse_ping_output(Platform::Linux, "time=12.3ms"), None);
    assert_eq!(parse_ping_output(Platform::Linux, "time=12.3"), None);
    assert_eq!(parse_ping_output(Platform::Linux, "time=12. ms"), None);
    assert_eq!(parse_ping_output(Platform::Linux, "time= ms"), None);
    assert_eq!(parse_ping_output(Platform::Linux, "time=.5 ms"), None);
    assert_eq!(parse_ping_output(Platform::Linux, "time 0ms"), None);
}

#[test]
fn linux_broken_token_does_not_hide_a_later_one() {
    let text = "time=1.x ms time=4 ms";
    assert_eq!(parse_ping_output(Platform::Linux, text), Some(micros(4_000)));
}

#[test]
fn linux_output_without_reply_has_no_latency() {
    let text = "PING 10.0.0.9 (10.0.0.9) 56(84) bytes of data.\n\n\
--- 10.0.0.9 ping statistics ---\n\
1 packets transmitted, 0 received, 100% packet loss, time 0ms\n";
    assert_eq!(parse_ping_output(Platform::Linux, text), None);
}

#[test]
fn empty_output_has_no_latency() {
    assert_eq!(parse_ping_output(Platform::Linux, ""), None);
    assert_eq!(parse_ping_output(Platform::Windows, ""), None);
}

#[test]
fn windows_reply() {
    assert_eq!(parse_ping_output(Platform::Windows, WINDOWS_REPLY), Some(micros(12_000)));
}

#[test]
fn windows_reply_below_one_millisecond() {
    let text = "Reply from 192.168.1.1: bytes=32 time<1ms TTL=64";
    assert_eq!(parse_ping_output(Platform::Windows, text), Some(micros(1_000)));
}

#[test]
fn windows_wording_is_not_read_on_linux_and_back() {
    assert_eq!(parse_ping_output(Platform::Linux, "time=12ms"), None);
    assert_eq!(parse_ping_output(Platform::Linux, "time<1ms"), None);
    assert_eq!(parse_ping_output(Platform::Windows, "time=12.3 ms"), None);
}

#[test]
fn windows_timeout_output_has_no_latency() {
    let text = "Pinging 10.0.0.9 with 32 bytes of data:\r\nRequest timed out.\r\n\
    Packets: Sent = 1, Received = 0, Lost = 1 (100% loss),\r\n";
    assert_eq!(parse_ping_output(Platform::Windows, text), None);
}

#[test]
fn text_beyond_ascii_is_read_by_characters() {
    let text = "Réponse de 1.1.1.1 : octets=32 temps=25ms TTL=57 € time=3.5 ms";
    assert_eq!(parse_ping_output(Platform::Windows, text), Some(micros(25_000)));
    assert_eq!(parse_ping_output(Platform::Linux, text), Some(micros(3_500)));
}

#[test]
fn latency_that_does_not_fit_is_the_largest() {
    let text = "time=99999999999999999999999999 ms";
    assert_eq!(parse_ping_output(Platform::Linux, text), Some(micros(u64::MAX)));
    let edge = "time=18446744073709551.615 ms";
    assert_eq!(parse_ping_output(Platform::Linux, edge), Some(micros(u64::MAX)));
    let over = "time=18446744073709551.616 ms";
    assert_eq!(parse_ping_output(Platform::Linux, over), Some(micros(u64::MAX)));
    let under = "time=18446744073709551.614 ms";
    assert_eq!(parse_ping_output(Platform::Linux, under), Some(micros(u64::MAX - 1)));
    let cap = "=18446744073709552ms";
    assert_eq!(parse_ping_output(Platform::Windows, cap), Some(micros(u64::MAX)));
}

#[test]
fn leading_zeros_do_not_change_the_number() {
    assert_eq!(parse_ping_output(Platform::Linux, "time=0012.030 ms"), Some(micros(12_030)));
    assert_eq!(parse_ping_output(Platform::Windows, "<000ms"), Some(micros(0)));
}

#[test]
fn latency_in_whole_milliseconds() {
    assert_eq!(micros(12_999).as_millis(), 12);
    assert_eq!(micros(999).as_millis(), 0);
    assert_eq!(micros(1_000).as_millis(), 1);
}

#[test]
fn output_bytes_are_decoded_before_reading() {
    assert_eq!(
        latency_from_output(Platform::Linux, LINUX_REPLY.as_bytes()),
        Some(micros(12_300))
    );
    assert_eq!(
        latency_from_output(Platform::Windows, WINDOWS_REPLY.as_bytes()),
        Some(micros(12_000))
    );
}

#[test]
fn output_bytes_outside_ascii_are_decoded_as_windows_1252() {
    let mut bytes: Vec<u8> = vec![0x52, 0xe9, 0x70, 0x6f, 0x6e, 0x73, 0x65, 0x80, 0x20];
    bytes.extend_from_slice(b"temps=25ms");
    assert_eq!(latency_from_output(Platform::Windows, &bytes), Some(micros(25_000)));
}

#[test]
fn output_with_utf16_byte_order_mark_is_decoded_as_utf16() {
    let mut bytes: Vec<u8> = vec![0xff, 0xfe];
    for unit in "time=5ms".encode_utf16() {
        bytes.extend_from_slice(&unit.to_le_bytes());
    }
    assert_eq!(latency_from_output(Platform::Windows, &bytes), Some(micros(5_000)));
}

#[test]
fn probe_that_outlasts_its_timeout_has_no_result() {
    let finished = Attempt::Finished { exit_ok: true, reported: Some(micros(5_000)) };
    for source in [LatencySource::ReportedRtt, LatencySource::WallClock] {
        assert_eq!(settle_probe(source, micros(6_000_000), micros(6_000_001), finished), None);
        assert_eq!(settle_probe(source, micros(0), micros(1), finished), None);
    }
}

#[test]
fn probe_that_ends_in_time_reports_its_round_trip_time() {
    let finished = Attempt::Finished { exit_ok: true, reported: Some(micros(5_000)) };
    assert_eq!(
        settle_probe(LatencySource::ReportedRtt, micros(6_000_000), micros(40_000), finished),
        Some(micros(5_000))
    );
    assert_eq!(
        settle_probe(LatencySource::ReportedRtt, micros(40_000), micros(40_000), finished),
        Some(micros(5_000))
    );
}

#[test]
fn probe_timed_by_the_wall_clock_reports_elapsed_time() {
    let finished = Attempt::Finished { exit_ok: true, reported: Some(micros(5_000)) };
    assert_eq!(
        settle_probe(LatencySource::WallClock, micros(6_000_000), micros(40_000), finished),
        Some(micros(40_000))
    );
    let silent = Attempt::Finished { exit_ok: true, reported: None };
    assert_eq!(
        settle_probe(LatencySource::WallClock, micros(6_000_000), micros(40_000), silent),
        Some(micros(40_000))
    );
}

#[test]
fn probe_without_readable_output_has_no_result() {
    let silent = Attempt::Finished { exit_ok: true, reported: None };
    assert_eq!(
        settle_probe(LatencySource::ReportedRtt, micros(6_000_000), micros(40_000), silent),
        None
    );
}

#[test]
fn probe_whose_utility_failed_has_no_result() {
    let failed = Attempt::Finished { exit_ok: false, reported: Some(micros(5_000)) };
    for source in [LatencySource::ReportedRtt, LatencySource::WallClock] {
        assert_eq!(settle_probe(source, micros(6_000_000), micros(40_000), failed), None);
        assert_eq!(settle_probe(source, micros(6_000_000), micros(1), Attempt::Failed), None);
        assert_eq!(settle_probe(source, micros(6_000_000), micros(1), Attempt::TimedOut), None);
    }
}

#[test]
fn raw_attempt_is_read_and_settled() {
    let raw = RawAttempt::Exited { exit_ok: true, stdout: LINUX_REPLY.as_bytes().to_vec() };
    assert_eq!(
        probe_result(
            Platform::Linux,
            LatencySource::ReportedRtt,
            micros(6_000_000),
            micros(20_000),
            &raw
        ),
        Some(micros(12_300))
    );
    assert_eq!(
        probe_result(
            Platform::Linux,
            LatencySource::ReportedRtt,
            micros(10_000),
            micros(20_000),
            &raw
        ),
        None
    );
    assert_eq!(
        probe_result(
            Platform::Linux,
            LatencySource::WallClock,
            micros(6_000_000),
            micros(20_000),
            &raw
        ),
        Some(micros(20_000))
    );
}

#[test]
fn raw_attempt_that_did_not_run_has_no_result() {
    for raw in [RawAttempt::TimedOut, RawAttempt::SpawnFailed] {
        assert_eq!(
            probe_result(
                Platform::Linux,
                LatencySource::WallClock,
                micros(6_000_000),
                micros(1),
                &raw
            ),
            None
        );
    }
    let failed = RawAttempt::Exited { exit_ok: false, stdout: LINUX_REPLY.as_bytes().to_vec() };
    assert_eq!(
        probe_result(
            Platform::Linux,
            LatencySource::ReportedRtt,
            micros(6_000_000),
            micros(1),
            &failed
        ),
        None
    );
}
