use std::path::PathBuf;
use std::time::Duration;

use yt_dlp::error::Error;
use yt_dlp::executor::{process_outcome, streaming_outcome, timeout_error, Executor, ProcessOutput};
use yt_dlp::ffmpeg_stats::{ffmpeg_size_fits, parse_ffmpeg_bitrate_field, parse_ffmpeg_size, parse_ffmpeg_stats_line, BitrateText};

#[test]
fn executor_keeps_its_configuration() {
    let e = Executor::new(
        PathBuf::from("/usr/bin/yt-dlp"),
        vec!["--version".to_string(), "-q".to_string()],
        Duration::from_secs(30),
    );
    assert_eq!(e.executable_path(), &PathBuf::from("/usr/bin/yt-dlp"));
    assert_eq!(e.args(), &["--version".to_string(), "-q".to_string()]);
    assert_eq!(e.timeout(), Duration::from_secs(30));
    assert_eq!(e.to_string(), "Executor(path=/usr/bin/yt-dlp, args=2, timeout=30s)");
    let u = Executor::new(PathBuf::from("yt-dlp"), vec!["--update".to_string()], Duration::from_millis(30_900));
    assert_eq!(u.to_string(), "Executor(path=yt-dlp, args=1, timeout=30s)");
}

#[test]
fn process_output_is_decoded_lossily() {
    let ok = process_outcome("x".to_string(), true, Some(0), vec![b'a', 0xff, b'b'], "h\u{e9}".as_bytes().to_vec()).unwrap();
    assert_eq!(ok.stdout, "a\u{fffd}b");
    assert_eq!(ok.stderr, "h\u{e9}");
    match process_outcome("x".to_string(), false, Some(1), Vec::new(), vec![0xc3]) {
        Err(Error::CommandFailed { stderr, .. }) => assert_eq!(stderr, "\u{fffd}"),
        other => panic!("unexpected {:?}", other),
    }
}

#[test]
fn process_output_display_counts_bytes() {
    let out = ProcessOutput { stdout: "h\u{e9}llo".to_string(), stderr: String::new(), code: -2 };
    assert_eq!(out.to_string(), "ProcessOutput(code=-2, stdout_len=6, stderr_len=0)");
}

#[test]
fn process_outcome_success_and_failure() {
    let ok = process_outcome("yt-dlp".to_string(), true, Some(0), b"out".to_vec(), b"err".to_vec());
    assert_eq!(ok.unwrap(), ProcessOutput { stdout: "out".to_string(), stderr: "err".to_string(), code: 0 });
    let failed = process_outcome("yt-dlp".to_string(), false, Some(2), Vec::new(), b"boom".to_vec());
    match failed {
        Err(Error::CommandFailed { command, exit_code, stderr }) => {
            assert_eq!(command, "yt-dlp");
            assert_eq!(exit_code, 2);
            assert_eq!(stderr, "boom");
        },
        other => panic!("unexpected {:?}", other),
    }
    let killed = process_outcome("ffmpeg".to_string(), false, None, Vec::new(), Vec::new());
    match killed {
        Err(Error::CommandFailed { exit_code, .. }) => assert_eq!(exit_code, -1),
        other => panic!("unexpected {:?}", other),
    }
}

#[test]
fn streaming_outcome_has_no_stdout() {
    let out = streaming_outcome("warn".to_string(), None);
    assert_eq!(out, ProcessOutput { stdout: String::new(), stderr: "warn".to_string(), code: -1 });
    assert_eq!(streaming_outcome(String::new(), Some(0)).code, 0);
}

#[test]
fn timeout_errors_name_the_command() {
    match timeout_error("/bin/ffmpeg", Duration::from_secs(5)) {
        Error::Timeout { operation, duration } => {
            assert_eq!(operation, "executing command: /bin/ffmpeg");
            assert_eq!(duration, Duration::from_secs(5));
        },
        other => panic!("unexpected {:?}", other),
    }
}

#[test]
fn ffmpeg_sizes() {
    assert_eq!(parse_ffmpeg_size("size=  12288kB time=00:00:41.16 bitrate=2444.1kbits/s"), Some(12288 * 1024));
    assert_eq!(parse_ffmpeg_size("size=3 MiB time=1"), Some(3 * 1024 * 1024));
    assert_eq!(parse_ffmpeg_size("size=7mB"), Some(7 * 1024 * 1024));
    assert_eq!(parse_ffmpeg_size("size=N/A time=00:00:01"), None);
    assert_eq!(parse_ffmpeg_size("size=123"), None);
    assert_eq!(parse_ffmpeg_size("frame=1 fps=0"), None);
    assert_eq!(parse_ffmpeg_size("size=99999999999999999999999kB"), None);
}

#[test]
fn ffmpeg_bitrate_fields() {
    assert_eq!(
        parse_ffmpeg_bitrate_field("size=1kB time=0 bitrate= 2444.1kbits/s speed=1x"),
        Some(BitrateText { number: "2444.1".to_string(), mega: false })
    );
    assert_eq!(
        parse_ffmpeg_bitrate_field("bitrate=1.5Mbits/s"),
        Some(BitrateText { number: "1.5".to_string(), mega: true })
    );
    assert_eq!(parse_ffmpeg_bitrate_field("bitrate=N/A"), Some(BitrateText { number: String::new(), mega: false }));
    assert_eq!(parse_ffmpeg_bitrate_field("bitrate=128"), None);
    assert_eq!(parse_ffmpeg_bitrate_field("no rate here"), None);
}

#[test]
fn ffmpeg_stats_lines() {
    let st = parse_ffmpeg_stats_line("size=  12288kB time=00:00:41.16 bitrate=2444.1kbits/s speed=1.00x").unwrap();
    assert_eq!(st.bytes, 12288 * 1024);
    assert_eq!(st.bitrate, Some(BitrateText { number: "2444.1".to_string(), mega: false }));
    let no_rate = parse_ffmpeg_stats_line("size=10kB time=00:00:01.00").unwrap();
    assert_eq!(no_rate.bytes, 10240);
    assert_eq!(no_rate.bitrate, None);
    assert!(parse_ffmpeg_stats_line("size=10kB").is_none());
    assert!(parse_ffmpeg_stats_line("Input #0, hls, from 'x':").is_none());
    assert!(parse_ffmpeg_stats_line("size=N/A time=00:00:01.00").is_none());
}

#[test]
fn ffmpeg_size_range_check() {
    assert!(ffmpeg_size_fits("size=12kB time=0"));
    assert!(ffmpeg_size_fits("no size here"));
    assert!(ffmpeg_size_fits("size=18014398509481983kB"));
    assert!(!ffmpeg_size_fits("size=18014398509481984kB"));
    assert!(ffmpeg_size_fits("size=17592186044415MB"));
    assert!(!ffmpeg_size_fits("size=17592186044416MB"));
}

#[test]
fn output_written_to_a_file_leaves_stdout_empty() {
    let ok = process_outcome("ffmpeg".to_string(), true, Some(0), Vec::new(), b"frame=1".to_vec()).unwrap();
    assert_eq!(ok.stdout, "");
    assert_eq!(ok.stderr, "frame=1");
}
