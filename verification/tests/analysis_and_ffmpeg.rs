//! The encoder driver's pure half: silence parsing, the duration banner,
//! the audible complement, and the filter script.

use voice::analysis::{audible_from_silence, post_encode_playtime_us, Interval};
use voice::ffmpeg::{extract_duration_us, parse_analysis, FFmpeg, FFmpegError};

fn lines(raw: &[&str]) -> Vec<String> {
    raw.iter().map(|s| s.to_string()).collect()
}

const STDERR_12S: &str =
    "Input #0, mov,mp4,m4a, from 'in.mp4':\n  Duration: 00:00:12.00, start: 0.000000, bitrate: 1000 kb/s\n";

#[test]
fn duration_banner_read() {
    assert_eq!(extract_duration_us(STDERR_12S), Some(12_000_000));
    assert_eq!(extract_duration_us("no banner here"), None);
    assert_eq!(extract_duration_us("Duration: 00:00:12.00 without comma"), None);
}

#[test]
fn happy_path_analysis() {
    // Silent intervals [3,5] and [10,10.5] over a 12-second duration.
    let out = lines(&[
        "frame=1",
        "lavfi.silence_start=3",
        "lavfi.silence_end=5",
        "lavfi.silence_duration=2",
        "lavfi.silence_start=10",
        "lavfi.silence_end=10.5",
        "lavfi.silence_duration=0.5",
    ]);
    let a = parse_analysis(&out, STDERR_12S, true).unwrap();
    assert_eq!(a.duration_us, 12_000_000);
    assert_eq!(
        a.audible,
        vec![
            Interval { start_us: 0, end_us: 3_000_000 },
            Interval { start_us: 5_000_000, end_us: 10_000_000 },
            Interval { start_us: 10_500_000, end_us: 12_000_000 },
        ]
    );
    assert_eq!(post_encode_playtime_us(&a), 9_500_000);
}

#[test]
fn no_silence_yields_single_interval() {
    let a = parse_analysis(&lines(&[]), STDERR_12S, true).unwrap();
    assert_eq!(a.audible, vec![Interval { start_us: 0, end_us: 12_000_000 }]);
}

#[test]
fn missing_final_end_is_synthesised() {
    // Silence begins at 3 and runs to end of file: the final audible
    // interval stops at the silence start.
    let out = lines(&["lavfi.silence_start=3"]);
    let a = parse_analysis(&out, STDERR_12S, true).unwrap();
    assert_eq!(a.audible, vec![Interval { start_us: 0, end_us: 3_000_000 }]);
}

#[test]
fn pure_silence_yields_no_audible() {
    let out = lines(&[
        "lavfi.silence_start=0",
        "lavfi.silence_end=12",
        "lavfi.silence_duration=12",
    ]);
    let a = parse_analysis(&out, STDERR_12S, true).unwrap();
    assert_eq!(a.audible, vec![]);
    assert_eq!(post_encode_playtime_us(&a), 0);
}

#[test]
fn encoder_failure_reports_stderr() {
    let r = parse_analysis(&lines(&[]), "boom: broken input", false);
    match r {
        Err(FFmpegError::FFmpeg(m)) => assert_eq!(m, "boom: broken input"),
        _ => panic!("expected an encoder failure"),
    }
}

#[test]
fn wrong_metadata_key_is_a_parse_error() {
    // Expecting a start, got an end: a hard parse error.
    let out = lines(&["lavfi.silence_end=5"]);
    let r = parse_analysis(&out, STDERR_12S, true);
    assert!(matches!(r, Err(FFmpegError::Parse(_))));
}

#[test]
fn missing_duration_is_a_parse_error() {
    let r = parse_analysis(&lines(&[]), "no banner", true);
    assert!(matches!(r, Err(FFmpegError::Parse(_))));
}

#[test]
fn complement_drops_zero_length_spans() {
    // Silence starting at zero: no zero-length audible span before it.
    let silence = vec![Interval { start_us: 0, end_us: 4_000_000 }];
    let audible = audible_from_silence(&silence, 8_000_000);
    assert_eq!(audible, vec![Interval { start_us: 4_000_000, end_us: 8_000_000 }]);
}

#[test]
fn filter_script_exact() {
    let audible = vec![
        Interval { start_us: 0, end_us: 3_000_000 },
        Interval { start_us: 5_000_000, end_us: 10_000_000 },
        Interval { start_us: 10_500_000, end_us: 12_000_000 },
    ];
    let script = FFmpeg::filter_script(&audible);
    let sel = "between(t\\,0\\,3)+between(t\\,5\\,10)+between(t\\,10.5\\,12)";
    let pts = "PTS-STARTPTS-(gt(T,3)*(2)+gt(T,10)*(0.5))/TB";
    let expected = format!(
        "[0:v]select='{sel}',setpts='{pts}',scale='trunc(oh*a/2)*2:576'[video];[0:a]aselect='{sel}',asetpts='{pts}'[audio]"
    );
    assert_eq!(script, expected);
}

#[test]
fn filter_script_single_interval_has_zero_shift() {
    let audible = vec![Interval { start_us: 0, end_us: 5_000_000 }];
    let script = FFmpeg::filter_script(&audible);
    let sel = "between(t\\,0\\,5)";
    let pts = "PTS-STARTPTS-(0)/TB";
    let expected = format!(
        "[0:v]select='{sel}',setpts='{pts}',scale='trunc(oh*a/2)*2:576'[video];[0:a]aselect='{sel}',asetpts='{pts}'[audio]"
    );
    assert_eq!(script, expected);
}

#[test]
fn command_argument_lists() {
    let f = FFmpeg::new("in.mp4".to_string(), "out.mp4".to_string(), "ffmpeg".to_string());
    let a = f.analyze_args();
    assert_eq!(
        a,
        vec![
            "-i",
            "in.mp4",
            "-vn",
            "-hide_banner",
            "-af",
            "silencedetect=noise=-50dB:d=0.1,ametadata=mode=print:file=-",
            "-f",
            "null",
            "-",
        ]
        .into_iter()
        .map(String::from)
        .collect::<Vec<_>>()
    );
    let e = f.remove_silence_args();
    assert_eq!(e.len(), 23);
    assert_eq!(e[0], "-i");
    assert_eq!(e[1], "in.mp4");
    assert_eq!(e[8], "-filter_complex_script");
    assert_eq!(e[9], "pipe:0");
    assert_eq!(e[22], "out.mp4");
}
