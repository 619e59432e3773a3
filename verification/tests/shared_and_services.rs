//! Remote file identifiers, the service rules, configuration decisions,
//! and the deployment builder's pure pieces.

use voice::avg::{DisplayDuration, SlidingAverage};
use voice::buildcfg::{
    dimensions_string, noise_setting, workspace_members_valid, DockerfileTemplateBuilder,
};
use voice::config::{Config, ConfigFileState, ReloadAction, reload_decision};
use voice::probe::{
    classify_video, parse_ffprobe_line, probe_report_from_records, Bounds, FfprobeRecord,
    ProbeReport, VideoValidity,
};
use voice::shared::{DebugRemoteManager, FileUrl, RemoteFile, RemoteFileIdentifier, RemoteFileKind};
use voice::task::Task;
use voice::text::replace_all;
use voice::templates::Index;
use voice::upload::{check_file_size, check_upload_url_verdict, CheckUploadUrlError, UploadUrlProbe};
use voice::waveform::{magick_draw_line_args, magick_trim_args, waveform_ffmpeg_args};
use voice::yc::{classify_yc_stderr, core_fraction, Concurrency, Cores, MinRam, VCpu, YcErrorKind};

const HELLO_SHA256: &str = "2cf24dba5fb0a30e26e83b2ac5b9e29e1b161e5c1fa7425e73043362938b9824";

fn hello_identifier_hex() -> String {
    // First thirty digest bytes, the marker byte, and the checksum.
    let hash_hex = &HELLO_SHA256[0..60];
    let bytes: Vec<u8> = (0..30)
        .map(|i| u8::from_str_radix(&hash_hex[2 * i..2 * i + 2], 16).unwrap())
        .collect();
    let check: u32 = bytes.iter().map(|b| b.count_ones()).sum();
    format!("{}69{:02x}", hash_hex, check)
}

#[test]
fn digest_matches_known_answer() {
    let id = RemoteFileIdentifier::digest(b"hello");
    assert_eq!(id.to_hex_string(), hello_identifier_hex());
}

#[test]
fn identifier_string_round_trip() {
    let id = RemoteFileIdentifier::digest(b"hello");
    let hex = id.to_hex_string();
    let back = RemoteFileIdentifier::from_str(&hex).unwrap();
    assert_eq!(back, id);
}

#[test]
fn identifier_rejects_corruption() {
    let good = hello_identifier_hex();
    assert!(RemoteFileIdentifier::from_str(&good).is_ok());
    // Wrong length.
    assert!(RemoteFileIdentifier::from_str(&good[0..63]).is_err());
    // Broken checksum.
    let mut bad = good.clone();
    bad.replace_range(62..64, "00");
    assert!(RemoteFileIdentifier::from_str(&bad).is_err());
    // Broken marker.
    let mut bad2 = good.clone();
    bad2.replace_range(60..62, "68");
    assert!(RemoteFileIdentifier::from_str(&bad2).is_err());
    // Not hex at all.
    assert!(RemoteFileIdentifier::from_str(&"zz".repeat(32)).is_err());
}

#[test]
fn identifier_bytes_round_trip() {
    let id = RemoteFileIdentifier::digest(b"hello");
    let bytes = id.to_bytes();
    assert_eq!(bytes.len(), 32);
    let back = RemoteFileIdentifier::try_from(&bytes).unwrap();
    assert_eq!(back, id);
    // A flipped marker byte is rejected.
    let mut bad = bytes.clone();
    bad[30] = 0x68;
    assert!(RemoteFileIdentifier::try_from(&bad).is_err());
}

#[test]
fn file_paths_are_laid_out() {
    let id = RemoteFileIdentifier::digest(b"hello");
    let hex = id.to_hex_string();
    let file = RemoteFile::new(RemoteFileKind::VideoOutput(id.clone()), id.clone());
    assert_eq!(file.bucket_path(), format!("{}/output", hex));
    let mgr = DebugRemoteManager::new("/srv/bucket".to_string());
    assert_eq!(
        mgr.make_file_path(&file),
        format!("/srv/bucket/{}/output", hex)
    );
    assert_eq!(RemoteFileKind::VideoInput.as_dir_name(), "input");
    assert_eq!(RemoteFileKind::VideoAnalysis(id.clone()).as_dir_name(), "analyse");
    assert_eq!(RemoteFileKind::Waveform(id).as_dir_name(), "waveform");
}

#[test]
fn sliding_average_window() {
    let mut w = SlidingAverage::new(3);
    assert_eq!(w.push(10), 10);
    assert_eq!(w.push(20), 15);
    assert_eq!(w.push(30), 20);
    // The window is full: the oldest value drops out.
    assert_eq!(w.push(40), 30);
}

#[test]
fn display_duration_units() {
    assert_eq!(DisplayDuration(45).render(), "45s");
    assert_eq!(DisplayDuration(125).render(), "2m 5s");
    assert_eq!(DisplayDuration(3725).render(), "1h 2m 5s");
    assert_eq!(DisplayDuration(2 * 86400 + 3 * 3600 + 4 * 60 + 5).render(), "2d 3h 4m 5s");
    assert_eq!(DisplayDuration(60).render(), "1m 0s");
}

#[test]
fn web_dir_requires_both_pages() {
    let config = Config::default();
    let both = vec!["index.html".to_string(), "completed.html".to_string(), "x".to_string()];
    assert!(config.web_dir_found(Some(&both)));
    let one = vec!["index.html".to_string()];
    assert!(!config.web_dir_found(Some(&one)));
    assert!(!config.web_dir_found(None));
}

#[test]
fn reload_decisions() {
    assert_eq!(reload_decision(&ConfigFileState::Missing), ReloadAction::WriteCurrent);
    assert_eq!(reload_decision(&ConfigFileState::Malformed), ReloadAction::WriteCurrent);
    assert_eq!(reload_decision(&ConfigFileState::Unreadable), ReloadAction::Fail);
    assert_eq!(
        reload_decision(&ConfigFileState::Parsed(Config::default())),
        ReloadAction::UseParsed
    );
}

#[test]
fn upload_size_limits() {
    assert!(check_file_size(100 * 1024 * 1024, false));
    assert!(!check_file_size(100 * 1024 * 1024 + 1, false));
    assert!(check_file_size(1000 * 1024 * 1024, true));
    assert!(!check_file_size(1000 * 1024 * 1024 + 1, true));
}

fn good_probe() -> UploadUrlProbe {
    UploadUrlProbe {
        scheme_ok: true,
        responded: true,
        status_success: true,
        content_is_video: true,
        content_length: Some(1024),
    }
}

#[test]
fn upload_url_verdicts() {
    assert_eq!(check_upload_url_verdict(&good_probe(), false), Ok(()));
    let mut p = good_probe();
    p.scheme_ok = false;
    assert_eq!(check_upload_url_verdict(&p, false), Err(CheckUploadUrlError::BadUrl));
    let mut p = good_probe();
    p.responded = false;
    assert_eq!(check_upload_url_verdict(&p, false), Err(CheckUploadUrlError::Unreachable));
    let mut p = good_probe();
    p.status_success = false;
    assert_eq!(check_upload_url_verdict(&p, false), Err(CheckUploadUrlError::RequestError));
    let mut p = good_probe();
    p.content_is_video = false;
    assert_eq!(check_upload_url_verdict(&p, false), Err(CheckUploadUrlError::NotVideo));
    let mut p = good_probe();
    p.content_length = None;
    assert_eq!(check_upload_url_verdict(&p, false), Err(CheckUploadUrlError::NoContentLength));
    let mut p = good_probe();
    p.content_length = Some(200 * 1024 * 1024);
    assert_eq!(check_upload_url_verdict(&p, false), Err(CheckUploadUrlError::TooBig));
    // The same length passes for a premium user.
    assert_eq!(check_upload_url_verdict(&p, true), Ok(()));
}

#[test]
fn upload_error_codes_and_messages() {
    assert_eq!(CheckUploadUrlError::BadUrl.status_code(), 400);
    assert_eq!(CheckUploadUrlError::Unreachable.status_code(), 504);
    assert_eq!(CheckUploadUrlError::TooBig.message(), "video is too big");
    assert_eq!(
        CheckUploadUrlError::NoContentLength.message(),
        "HEAD does not return a content length"
    );
}

#[test]
fn yc_error_classification() {
    assert_eq!(
        classify_yc_stderr("ERROR: bucket already exists"),
        YcErrorKind::ResourceAlreadyExists
    );
    assert_eq!(classify_yc_stderr("folder not found"), YcErrorKind::ResourceMissing);
    assert_eq!(classify_yc_stderr("code = NotFound"), YcErrorKind::ResourceMissing);
    assert_eq!(classify_yc_stderr("something else"), YcErrorKind::Unspecified);
}

#[test]
fn yc_resource_sizes_validate() {
    assert!(MinRam::new(127).is_err());
    assert_eq!(MinRam::new(128).unwrap().0, 128);
    assert!(MinRam::new(4097).is_err());
    assert_eq!(MinRam::new(500).unwrap().aligned(), 384);
    assert!(Concurrency::new(0).is_err());
    assert_eq!(Concurrency::new(16).unwrap().0, 16);
    assert!(Concurrency::new(17).is_err());
    assert_eq!(VCpu::Share50.as_percent_int(), 50);
}

#[test]
fn yc_core_fraction_rule() {
    assert_eq!(core_fraction(Cores(2), VCpu::Share5), "100");
    assert_eq!(core_fraction(Cores(1), VCpu::Share20), "20");
}

#[test]
fn probe_classification() {
    let bounds = Bounds::normal();
    let good = ProbeReport {
        too_many_streams: false,
        video_codec: Some("h264".to_string()),
        audio_codec: Some("aac".to_string()),
        container: Some("mov,mp4,m4a".to_string()),
        width: Some(1280),
        height: Some(720),
        fps: Some((30, 1)),
    };
    assert!(matches!(classify_video(good, &bounds), VideoValidity::Valid(_)));

    let too_many = ProbeReport { too_many_streams: true, ..empty_report() };
    assert!(matches!(classify_video(too_many, &bounds), VideoValidity::TooManyStreams));

    let bad_container = ProbeReport {
        container: Some("matroska".to_string()),
        ..empty_report()
    };
    assert!(matches!(
        classify_video(bad_container, &bounds),
        VideoValidity::UnsupportedContainer(_)
    ));

    let bad_codec = ProbeReport {
        video_codec: Some("av1".to_string()),
        container: Some("mp4".to_string()),
        ..empty_report()
    };
    match classify_video(bad_codec, &bounds) {
        VideoValidity::UnsupportedCodecs(xs) => assert_eq!(xs, vec!["av1".to_string()]),
        _ => panic!("expected unsupported codecs"),
    }

    let too_big = ProbeReport {
        container: Some("mp4".to_string()),
        width: Some(4096),
        height: Some(2160),
        fps: Some((30, 1)),
        ..empty_report()
    };
    assert!(matches!(
        classify_video(too_big, &bounds),
        VideoValidity::UnsupportedResolution(4096, 2160)
    ));

    let no_container = empty_report();
    assert!(matches!(classify_video(no_container, &bounds), VideoValidity::BadFile));
}

fn empty_report() -> ProbeReport {
    ProbeReport {
        too_many_streams: false,
        video_codec: None,
        audio_codec: None,
        container: None,
        width: None,
        height: None,
        fps: None,
    }
}

#[test]
fn waveform_command_lines() {
    let f = waveform_ffmpeg_args("file:in.webm");
    assert_eq!(f[4], "-i");
    assert_eq!(f[5], "file:in.webm");
    assert_eq!(
        f[7],
        "aformat=channel_layouts=mono,showwavespic=s=6384x128:draw=full:colors=#ffffff"
    );
    assert_eq!(
        magick_draw_line_args(),
        vec!["png:-", "-gravity", "Center", "-background", "white", "-splice", "0x1", "png:-"]
            .into_iter()
            .map(String::from)
            .collect::<Vec<_>>()
    );
    assert_eq!(
        magick_trim_args(),
        vec!["png:-", "-trim", "png:-"].into_iter().map(String::from).collect::<Vec<_>>()
    );
}

#[test]
fn dockerfile_recipe_matches_template() {
    let builder = DockerfileTemplateBuilder {
        deps: vec!["ffmpeg".to_string()],
        project_name: "voice-analyzer".to_string(),
        copy: vec![("/usr/bin/ffmpeg".to_string(), "/usr/bin/ffmpeg".to_string())],
        config: String::new(),
    };
    let built = builder.build().0;
    let template = "\nFROM rust:1.75 as prepare\n\tRUN apt update && \\\n\t\tapt install -y --no-install-recommends mold ca-certificates %deps% && \\\n\t\trm -rf /var/lib/apt/lists/*\n\n\tWORKDIR /build\n\nFROM prepare as builder\n\tCOPY . .\n\tENV RUSTFLAGS=\"-C target-feature=+crt-static --cfg=____builder\"\n\tRUN cargo build --release --bin %project_name% --target x86_64-unknown-linux-gnu\n\nFROM scratch\n\tCOPY --from=prepare /etc/ssl/certs/ca-certificates.crt /etc/ssl/certs/\n\tCOPY --from=builder /build/target/x86_64-unknown-linux-gnu/release/%project_name% /application\n\tCOPY --from=builder /build/__config.toml /config.toml\n\tCOPY --from=builder /build/__shared-config.toml /shared-config.toml\n\t%copy%\n\nENTRYPOINT [\"/application\"]\n";
    let expected = template
        .replace("%deps%", "ffmpeg")
        .replace("%project_name%", "voice-analyzer")
        .replace("%copy%", "COPY --from=builder /usr/bin/ffmpeg /usr/bin/ffmpeg");
    assert_eq!(built, expected);
}

#[test]
fn workspace_member_check() {
    let good = vec![
        "voice-file-upload".to_string(),
        "voice-waveform-gen".to_string(),
        "voice-shared".to_string(),
        "voice-analyzer".to_string(),
        "builder".to_string(),
    ];
    assert!(workspace_members_valid(&good));
    let mut shuffled = good.clone();
    shuffled.reverse();
    assert!(workspace_members_valid(&shuffled));
    let mut missing = good.clone();
    missing.pop();
    assert!(!workspace_members_valid(&missing));
    let mut duplicated = good.clone();
    duplicated[4] = "voice-shared".to_string();
    assert!(!workspace_members_valid(&duplicated));
    let mut stranger = good.clone();
    stranger[0] = "intruder".to_string();
    assert!(!workspace_members_valid(&stranger));
}

#[test]
fn config_value_renderings() {
    assert_eq!(dimensions_string(6384, 128), "6384x128");
    assert_eq!(noise_setting(-40), Some("-40dB".to_string()));
    assert_eq!(noise_setting(0), None);
    assert_eq!(noise_setting(-101), None);
}

#[test]
fn landing_page_placeholders() {
    let index = Index::new();
    assert_eq!(index.your_files.len(), 13);
    assert_eq!(index.your_files[0].name, "video1.mp4");
    assert_eq!(index.your_files[2].name, "audio.mp3");
    let _ = Task::gen_id();
}

#[test]
fn ffprobe_lines_parse() {
    let l1 = parse_ffprobe_line("stream,video,h264,1280,720,30/1").unwrap();
    match &l1 {
        FfprobeRecord::Stream { codec_type, codec_name, width, height, fps } => {
            assert_eq!(codec_type, "video");
            assert_eq!(codec_name, "h264");
            assert_eq!(*width, Some(1280));
            assert_eq!(*height, Some(720));
            assert_eq!(*fps, Some((30, 1)));
        }
        _ => panic!("expected a stream record"),
    }
    let l2 = parse_ffprobe_line("stream,audio,aac").unwrap();
    assert!(matches!(l2, FfprobeRecord::Stream { .. }));
    let l3 = parse_ffprobe_line("format,\"mov,mp4\"");
    // The container field is the text between the first two commas, with
    // the quotes removed.
    match l3 {
        Some(FfprobeRecord::Format { container }) => assert_eq!(container, "mov"),
        _ => panic!("expected a format record"),
    }
    assert!(parse_ffprobe_line("something else").is_none());

    let records = vec![
        parse_ffprobe_line("stream,video,h264,1280,720,30/1").unwrap(),
        parse_ffprobe_line("stream,audio,aac").unwrap(),
        parse_ffprobe_line("format,mp4").unwrap(),
    ];
    let report = probe_report_from_records(&records);
    assert!(!report.too_many_streams);
    assert_eq!(report.video_codec.as_deref(), Some("h264"));
    assert_eq!(report.audio_codec.as_deref(), Some("aac"));
    assert_eq!(report.container.as_deref(), Some("mp4"));
    assert_eq!(report.width, Some(1280));

    // A second video stream is too many.
    let records2 = vec![
        parse_ffprobe_line("stream,video,h264,1280,720,30/1").unwrap(),
        parse_ffprobe_line("stream,video,vp9,640,480,25/1").unwrap(),
    ];
    assert!(probe_report_from_records(&records2).too_many_streams);
}

#[test]
fn file_urls_for_the_transcoder() {
    let local = FileUrl::new("file:///tmp/in.webm".to_string());
    assert_eq!(local.to_string_for_ffmpeg(), "file:/tmp/in.webm");
    let remote = FileUrl::new("https://example.com/in.webm".to_string());
    assert_eq!(remote.to_string_for_ffmpeg(), "https://example.com/in.webm");
    assert_eq!(remote.as_str(), "https://example.com/in.webm");
}

#[test]
fn replace_all_left_to_right() {
    assert_eq!(replace_all("a%x%b%x%c", "%x%", "-"), "a-b-c");
    assert_eq!(replace_all("aaaa", "aa", "a"), "aa");
    assert_eq!(replace_all("none", "%x%", "-"), "none");
}
