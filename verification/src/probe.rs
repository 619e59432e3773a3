//! Judging an uploaded video from what a probe of its streams reports:
//! how many audio and video streams it has, what they are encoded with,
//! what container carries them, and whether that fits the service's
//! bounds. Running the probe and reading its report happen outside the
//! library.

use vstd::prelude::*;

use crate::buildcfg::join_with;
use crate::text::{match_at, parse_u64, spec_parse_u64, spec_split, split_str, str_eq};

verus! {

/// A stream or container property, marked by whether the service
/// supports it.
pub enum VideoProperty {
    Supported(String),
    Unsupported(String),
}

/// What the probe reported of a valid video. The frame rate is the
/// probe's rational reading, numerator over denominator.
pub struct VideoInfo {
    pub width: u32,
    pub height: u32,
    pub fps_num: u32,
    pub fps_den: u32,
    pub container: VideoProperty,
    pub video_codec: Option<VideoProperty>,
    pub audio_codec: Option<VideoProperty>,
}

/// The verdict on an uploaded video.
pub enum VideoValidity {
    Valid(VideoInfo),
    BadFile,
    TooManyStreams,
    UnsupportedCodecs(Vec<String>),
    UnsupportedContainer(String),
    UnsupportedResolution(u32, u32),
}

/// What the service accepts: codec and container names, and the
/// resolution bounds. The frame-rate ceiling is in thousandths of a
/// frame per second.
pub struct Bounds {
    pub supported_audio_codecs: Vec<String>,
    pub supported_video_codecs: Vec<String>,
    pub supported_containers: Vec<String>,
    pub max_resolution: (u32, u32),
    pub min_resolution: (u32, u32),
    pub max_fps_milli: u32,
}

/// A list of names holds the given one.
pub open spec fn names_contain(names: Seq<Seq<char>>, name: Seq<char>) -> bool {
    exists|i: int| 0 <= i < names.len() && names[i] == name
}

/// Some supported container name occurs inside the reported one (the
/// probe reports compound names such as `mov,mp4,m4a`).
pub open spec fn container_supported(supported: Seq<Seq<char>>, reported: Seq<char>) -> bool {
    exists|i: int, j: int|
        0 <= i < supported.len() && match_at(reported, supported[i], j)
}

impl Bounds {
    /// The bounds every user gets.
    pub fn normal() -> (r: Bounds)
        ensures
            r.supported_audio_codecs@.map_values(|s: String| s@) =~= seq!["aac"@, "opus"@],
            r.supported_video_codecs@.map_values(|s: String| s@) =~= seq![
                "h264"@,
                "vp8"@,
                "vp9"@,
            ],
            r.supported_containers@.map_values(|s: String| s@) =~= seq!["mp4"@, "webm"@],
            r.max_resolution == (1920u32, 1080u32),
            r.min_resolution == (256u32, 144u32),
            r.max_fps_milli == 60_000,
    {
        let mut audio: Vec<String> = Vec::new();
        audio.push(String::from_str("aac"));
        audio.push(String::from_str("opus"));
        let mut video: Vec<String> = Vec::new();
        video.push(String::from_str("h264"));
        video.push(String::from_str("vp8"));
        video.push(String::from_str("vp9"));
        let mut containers: Vec<String> = Vec::new();
        containers.push(String::from_str("mp4"));
        containers.push(String::from_str("webm"));
        proof {
            assert(audio@.map_values(|s: String| s@) =~= seq!["aac"@, "opus"@]);
            assert(video@.map_values(|s: String| s@) =~= seq!["h264"@, "vp8"@, "vp9"@]);
            assert(containers@.map_values(|s: String| s@) =~= seq!["mp4"@, "webm"@]);
        }
        Bounds {
            supported_audio_codecs: audio,
            supported_video_codecs: video,
            supported_containers: containers,
            max_resolution: (1920, 1080),
            min_resolution: (256, 144),
            max_fps_milli: 60_000,
        }
    }

    /// The bounds a premium user gets: the same, today.
    pub fn premium() -> (r: Bounds)
        ensures
            r.supported_audio_codecs@.map_values(|s: String| s@) =~= seq!["aac"@, "opus"@],
            r.supported_video_codecs@.map_values(|s: String| s@) =~= seq![
                "h264"@,
                "vp8"@,
                "vp9"@,
            ],
            r.supported_containers@.map_values(|s: String| s@) =~= seq!["mp4"@, "webm"@],
            r.max_resolution == (1920u32, 1080u32),
            r.min_resolution == (256u32, 144u32),
            r.max_fps_milli == 60_000,
    {
        Bounds::normal()
    }
}

/// Is `name` one of the names in `names`?
pub fn name_in(names: &Vec<String>, name: &str) -> (r: bool)
    ensures
        r == names_contain(names@.map_values(|s: String| s@), name@),
{
    let ghost views = names@.map_values(|s: String| s@);
    let n = names.len();
    let mut i: usize = 0;
    while i < n
        invariant
            0 <= i <= n,
            n == names@.len(),
            views == names@.map_values(|s: String| s@),
            forall|m: int| 0 <= m < i ==> views[m] != name@,
        decreases n - i,
    {
        if str_eq(names[i].as_str(), name) {
            proof {
                assert(views[i as int] == name@);
            }
            return true;
        }
        proof {
            assert(views[i as int] != name@);
        }
        i = i + 1;
    }
    false
}

/// Does any supported container name occur inside the reported one?
pub fn container_ok(supported: &Vec<String>, reported: &str) -> (r: bool)
    ensures
        r == container_supported(supported@.map_values(|s: String| s@), reported@),
{
    let ghost views = supported@.map_values(|s: String| s@);
    let n = supported.len();
    let mut i: usize = 0;
    while i < n
        invariant
            0 <= i <= n,
            n == supported@.len(),
            views == supported@.map_values(|s: String| s@),
            forall|m: int, j: int|
                0 <= m < i ==> !(#[trigger] match_at(reported@, views[m], j)),
        decreases n - i,
    {
        if crate::text::contains_sub(reported, supported[i].as_str()) {
            proof {
                let j = choose|j: int| match_at(reported@, supported@[i as int]@, j);
                assert(match_at(reported@, views[i as int], j));
            }
            return true;
        }
        i = i + 1;
    }
    false
}

/// One line of the probe's report: a stream's type, codec and geometry,
/// or the container's name.
pub enum FfprobeRecord {
    Stream {
        codec_type: String,
        codec_name: String,
        width: Option<u32>,
        height: Option<u32>,
        fps: Option<(u32, u32)>,
    },
    Format { container: String },
}

/// A 32-bit reading of a digit string, if it is one and fits.
pub open spec fn spec_opt_u32(s: Seq<char>) -> Option<u32> {
    match spec_parse_u64(s) {
        Some(v) => if v <= u32::MAX {
            Some(v as u32)
        } else {
            None
        },
        None => None,
    }
}

/// A frame-rate reading `n/d`, if it is one.
pub open spec fn spec_fps(s: Seq<char>) -> Option<(u32, u32)> {
    let parts = spec_split(s, '/');
    if parts.len() == 2 {
        match (spec_opt_u32(parts[0]), spec_opt_u32(parts[1])) {
            (Some(n), Some(d)) => Some((n, d)),
            _ => None,
        }
    } else {
        None
    }
}

/// The line is a stream record: the marker, the type, the codec, and
/// perhaps geometry.
pub open spec fn stream_shape(fields: Seq<Seq<char>>) -> bool {
    fields.len() >= 3 && fields[0] == "stream"@
}

/// The line is a format record: the marker and the container name.
pub open spec fn format_shape(fields: Seq<Seq<char>>) -> bool {
    fields.len() >= 2 && fields[0] == "format"@
}

/// The container name with its quote characters removed.
pub open spec fn spec_unquoted(s: Seq<char>) -> Seq<char> {
    join_with(spec_split(s, '"'), Seq::empty())
}

/// Read one comma-separated report line: a `stream` line yields the
/// stream's type, codec, and — where present and readable — its width,
/// height and frame rate; a `format` line yields the unquoted container
/// name; any other shape yields nothing.
#[verifier::rlimit(100)]
pub fn parse_ffprobe_line(line: &str) -> (r: Option<FfprobeRecord>)
    ensures
        r is Some <==> (stream_shape(spec_split(line@, ',')) || format_shape(
            spec_split(line@, ','),
        )),
        stream_shape(spec_split(line@, ',')) ==> ({
            let fields = spec_split(line@, ',');
            (r matches Some(rec) && rec matches FfprobeRecord::Stream {
                codec_type,
                codec_name,
                width,
                height,
                fps,
            } && codec_type@ == fields[1] && codec_name@ == fields[2] && width == (
            if fields.len() >= 4 {
                spec_opt_u32(fields[3])
            } else {
                None
            }) && height == (if fields.len() >= 5 {
                spec_opt_u32(fields[4])
            } else {
                None
            }) && fps == (if fields.len() >= 6 {
                spec_fps(fields[5])
            } else {
                None
            }))
        }),
        !stream_shape(spec_split(line@, ',')) && format_shape(spec_split(line@, ','))
            ==> ({
            let fields = spec_split(line@, ',');
            (r matches Some(rec) && rec matches FfprobeRecord::Format { container }
                && container@ == spec_unquoted(fields[1]))
        }),
{
    proof {
        reveal_strlit(",");
        assert(","@ =~= seq![',']);
    }
    let fields = split_str(line, ",");
    let ghost fviews = spec_split(line@, ',');
    proof {
        assert(fields@.map_values(|p: String| p@) == fviews);
        assert(fields@.len() == fviews.len());
    }
    if fields.len() < 2 {
        return None;
    }
    proof {
        assert(fields@[0]@ == fviews[0]);
    }
    if str_eq(fields[0].as_str(), "stream") && fields.len() >= 3 {
        proof {
            assert(fields@[1]@ == fviews[1]);
            assert(fields@[2]@ == fviews[2]);
        }
        let width = if fields.len() >= 4 {
            proof {
                assert(fields@[3]@ == fviews[3]);
            }
            parse_u32_field(fields[3].as_str())
        } else {
            None
        };
        let height = if fields.len() >= 5 {
            proof {
                assert(fields@[4]@ == fviews[4]);
            }
            parse_u32_field(fields[4].as_str())
        } else {
            None
        };
        let fps = if fields.len() >= 6 {
            proof {
                assert(fields@[5]@ == fviews[5]);
            }
            parse_fps_field(fields[5].as_str())
        } else {
            None
        };
        Some(
            FfprobeRecord::Stream {
                codec_type: String::from_str(fields[1].as_str()),
                codec_name: String::from_str(fields[2].as_str()),
                width,
                height,
                fps,
            },
        )
    } else if str_eq(fields[0].as_str(), "format") {
        proof {
            assert(fields@[1]@ == fviews[1]);
        }
        Some(FfprobeRecord::Format { container: unquote(fields[1].as_str()) })
    } else {
        None
    }
}

/// A 32-bit reading of a digit string.
fn parse_u32_field(s: &str) -> (r: Option<u32>)
    ensures
        r == spec_opt_u32(s@),
{
    match parse_u64(s) {
        Some(v) => {
            if v <= 0xffff_ffff {
                Some(v as u32)
            } else {
                None
            }
        },
        None => None,
    }
}

/// A frame-rate reading `n/d`.
#[verifier::rlimit(100)]
fn parse_fps_field(s: &str) -> (r: Option<(u32, u32)>)
    ensures
        r == spec_fps(s@),
{
    proof {
        reveal_strlit("/");
        assert("/"@ =~= seq!['/']);
    }
    let parts = split_str(s, "/");
    proof {
        assert(parts@.map_values(|p: String| p@) == spec_split(s@, '/'));
    }
    if parts.len() != 2 {
        return None;
    }
    proof {
        assert(parts@[0]@ == spec_split(s@, '/')[0]);
        assert(parts@[1]@ == spec_split(s@, '/')[1]);
    }
    let n = parse_u32_field(parts[0].as_str());
    let d = parse_u32_field(parts[1].as_str());
    match (n, d) {
        (Some(n), Some(d)) => Some((n, d)),
        _ => None,
    }
}

/// The string with its quote characters removed.
#[verifier::rlimit(100)]
fn unquote(s: &str) -> (r: String)
    ensures
        r@ == spec_unquoted(s@),
{
    proof {
        reveal_strlit("\"");
        assert("\""@ =~= seq!['"']);
    }
    let parts = split_str(s, "\"");
    let ghost views = spec_split(s@, '"');
    proof {
        assert(parts@.map_values(|p: String| p@) == views);
    }
    let n = parts.len();
    let mut out = String::new();
    let mut i: usize = 0;
    while i < n
        invariant
            0 <= i <= n,
            n == parts@.len(),
            views == parts@.map_values(|p: String| p@),
            out@ == join_with(views.take(i as int), Seq::<char>::empty()),
        decreases n - i,
    {
        out.append(parts[i].as_str());
        proof {
            let t = views.take(i + 1);
            assert(t.drop_last() =~= views.take(i as int));
            assert(t.last() == views[i as int]);
            assert(views[i as int] == parts@[i as int]@);
            if i == 0 {
                assert(out@ =~= join_with(t, Seq::<char>::empty()));
            } else {
                assert(out@ =~= join_with(t, Seq::<char>::empty()));
            }
        }
        i = i + 1;
    }
    proof {
        assert(views.take(n as int) =~= views);
        if n == 0 {
            assert(out@ =~= join_with(views, Seq::<char>::empty()));
        }
    }
    out
}

/// What a finished probe reported of the file, one field per fact the
/// verdict reads. The shell around the library fills this in from the
/// probe's report lines.
pub struct ProbeReport {
    /// The file carried more than one video or more than one audio
    /// stream.
    pub too_many_streams: bool,
    /// The codec of the single video stream, if one exists.
    pub video_codec: Option<String>,
    /// The codec of the single audio stream, if one exists.
    pub audio_codec: Option<String>,
    /// The container name, possibly compound.
    pub container: Option<String>,
    /// The video stream's width in pixels.
    pub width: Option<u32>,
    /// The video stream's height in pixels.
    pub height: Option<u32>,
    /// The video stream's frame rate as the probe's rational reading.
    pub fps: Option<(u32, u32)>,
}

/// The facts gathered while reading the report lines, as spec values.
pub struct ReportFacts {
    pub too_many: bool,
    pub video: Option<Seq<char>>,
    pub audio: Option<Seq<char>>,
    pub container: Option<Seq<char>>,
    pub width: Option<u32>,
    pub height: Option<u32>,
    pub fps: Option<(u32, u32)>,
}

/// No facts yet.
pub open spec fn no_facts() -> ReportFacts {
    ReportFacts {
        too_many: false,
        video: None,
        audio: None,
        container: None,
        width: None,
        height: None,
        fps: None,
    }
}

/// One record's effect on the gathered facts: the first video stream
/// brings its codec and geometry, the first audio stream its codec, a
/// second of either kind marks too many streams, a format record brings
/// the container, and after too many streams nothing more is read.
pub open spec fn spec_record_step(st: ReportFacts, r: FfprobeRecord) -> ReportFacts {
    if st.too_many {
        st
    } else {
        match r {
            FfprobeRecord::Stream { codec_type, codec_name, width, height, fps } => {
                if codec_type@ == "video"@ {
                    if st.video is None {
                        ReportFacts {
                            too_many: st.too_many,
                            video: Some(codec_name@),
                            audio: st.audio,
                            container: st.container,
                            width,
                            height,
                            fps,
                        }
                    } else {
                        ReportFacts {
                            too_many: true,
                            video: st.video,
                            audio: st.audio,
                            container: st.container,
                            width: st.width,
                            height: st.height,
                            fps: st.fps,
                        }
                    }
                } else if codec_type@ == "audio"@ {
                    if st.audio is None {
                        ReportFacts {
                            too_many: st.too_many,
                            video: st.video,
                            audio: Some(codec_name@),
                            container: st.container,
                            width: st.width,
                            height: st.height,
                            fps: st.fps,
                        }
                    } else {
                        ReportFacts {
                            too_many: true,
                            video: st.video,
                            audio: st.audio,
                            container: st.container,
                            width: st.width,
                            height: st.height,
                            fps: st.fps,
                        }
                    }
                } else {
                    st
                }
            },
            FfprobeRecord::Format { container } => ReportFacts {
                too_many: st.too_many,
                video: st.video,
                audio: st.audio,
                container: Some(container@),
                width: st.width,
                height: st.height,
                fps: st.fps,
            },
        }
    }
}

/// The facts after all records.
pub open spec fn spec_fold_records(records: Seq<FfprobeRecord>, st: ReportFacts) -> ReportFacts
    decreases records.len(),
{
    if records.len() == 0 {
        st
    } else {
        spec_fold_records(records.drop_first(), spec_record_step(st, records[0]))
    }
}

/// The probe report and the gathered facts say the same thing.
pub open spec fn report_matches_facts(r: ProbeReport, f: ReportFacts) -> bool {
    &&& r.too_many_streams == f.too_many
    &&& (r.video_codec is Some <==> f.video is Some)
    &&& (r.video_codec is Some ==> r.video_codec->0@ == f.video->0)
    &&& (r.audio_codec is Some <==> f.audio is Some)
    &&& (r.audio_codec is Some ==> r.audio_codec->0@ == f.audio->0)
    &&& (r.container is Some <==> f.container is Some)
    &&& (r.container is Some ==> r.container->0@ == f.container->0)
    &&& r.width == f.width
    &&& r.height == f.height
    &&& r.fps == f.fps
}

/// Gather a probe report from the parsed record lines, exactly as
/// `spec_fold_records` reads them.
pub fn probe_report_from_records(records: &Vec<FfprobeRecord>) -> (r: ProbeReport)
    ensures
        report_matches_facts(r, spec_fold_records(records@, no_facts())),
{
    let mut report = ProbeReport {
        too_many_streams: false,
        video_codec: None,
        audio_codec: None,
        container: None,
        width: None,
        height: None,
        fps: None,
    };
    let ghost st = no_facts();
    let n = records.len();
    let mut i: usize = 0;
    proof {
        assert(records@.skip(0) =~= records@);
    }
    while i < n
        invariant
            0 <= i <= n,
            n == records@.len(),
            report_matches_facts(report, st),
            spec_fold_records(records@, no_facts()) == spec_fold_records(
                records@.skip(i as int),
                st,
            ),
        decreases n - i,
    {
        proof {
            assert(records@.skip(i as int)[0] == records@[i as int]);
            assert(records@.skip(i as int).drop_first() =~= records@.skip(i + 1));
        }
        let rec = &records[i];
        if !report.too_many_streams {
            match rec {
                FfprobeRecord::Stream { codec_type, codec_name, width, height, fps } => {
                    if str_eq(codec_type.as_str(), "video") {
                        if report.video_codec.is_none() {
                            report.video_codec = Some(String::from_str(codec_name.as_str()));
                            report.width = *width;
                            report.height = *height;
                            report.fps = *fps;
                        } else {
                            report.too_many_streams = true;
                        }
                    } else if str_eq(codec_type.as_str(), "audio") {
                        if report.audio_codec.is_none() {
                            report.audio_codec = Some(String::from_str(codec_name.as_str()));
                        } else {
                            report.too_many_streams = true;
                        }
                    }
                },
                FfprobeRecord::Format { container } => {
                    report.container = Some(String::from_str(container.as_str()));
                },
            }
        }
        proof {
            st = spec_record_step(st, records@[i as int]);
        }
        i = i + 1;
    }
    proof {
        assert(records@.skip(n as int) =~= Seq::<FfprobeRecord>::empty());
    }
    report
}

/// The reported codecs the service does not support, video first.
pub open spec fn spec_bad_codecs(report: ProbeReport, bounds: Bounds) -> Seq<Seq<char>> {
    let videos = bounds.supported_video_codecs@.map_values(|s: String| s@);
    let audios = bounds.supported_audio_codecs@.map_values(|s: String| s@);
    (match report.video_codec {
        Some(c) => if !names_contain(videos, c@) {
            seq![c@]
        } else {
            Seq::empty()
        },
        None => Seq::empty(),
    }) + (match report.audio_codec {
        Some(c) => if !names_contain(audios, c@) {
            seq![c@]
        } else {
            Seq::empty()
        },
        None => Seq::empty(),
    })
}

/// Judge the probed file, checks in order: the stream count, that a
/// container was reported and is supported, that every reported codec is
/// supported, that a resolution was reported and fits, and that the frame
/// rate was readable; what passes all of that is valid.
pub fn classify_video(report: ProbeReport, bounds: &Bounds) -> (r: VideoValidity)
    ensures
        report.too_many_streams ==> r is TooManyStreams,
        !report.too_many_streams && report.container is None ==> r is BadFile,
        (!report.too_many_streams && report.container is Some && !container_supported(
            bounds.supported_containers@.map_values(|s: String| s@),
            report.container->0@,
        )) ==> (r matches VideoValidity::UnsupportedContainer(x) && x@ == report.container->0@),
        (!report.too_many_streams && report.container is Some && container_supported(
            bounds.supported_containers@.map_values(|s: String| s@),
            report.container->0@,
        ) && spec_bad_codecs(report, *bounds).len() > 0) ==> (r matches
            VideoValidity::UnsupportedCodecs(xs) && xs@.map_values(|s: String| s@)
            == spec_bad_codecs(report, *bounds)),
        (!report.too_many_streams && report.container is Some && container_supported(
            bounds.supported_containers@.map_values(|s: String| s@),
            report.container->0@,
        ) && spec_bad_codecs(report, *bounds).len() == 0) ==> ({
            if report.width is None || report.height is None || report.fps is None {
                r is BadFile
            } else if report.width->0 > bounds.max_resolution.0 || report.height->0
                > bounds.max_resolution.1 {
                (r matches VideoValidity::UnsupportedResolution(w, h) && w == report.width->0
                    && h == report.height->0)
            } else {
                (r matches VideoValidity::Valid(info) && info.width == report.width->0
                    && info.height == report.height->0 && info.fps_num == (report.fps->0).0
                    && info.fps_den == (report.fps->0).1)
            }
        }),
{
    if report.too_many_streams {
        return VideoValidity::TooManyStreams;
    }
    let container = match report.container {
        Some(c) => c,
        None => {
            return VideoValidity::BadFile;
        },
    };
    if !container_ok(&bounds.supported_containers, container.as_str()) {
        return VideoValidity::UnsupportedContainer(container);
    }
    let mut bad: Vec<String> = Vec::new();
    let video_codec = match &report.video_codec {
        Some(c) => {
            if !name_in(&bounds.supported_video_codecs, c.as_str()) {
                bad.push(String::from_str(c.as_str()));
            }
            Some(String::from_str(c.as_str()))
        },
        None => None,
    };
    let audio_codec = match &report.audio_codec {
        Some(c) => {
            if !name_in(&bounds.supported_audio_codecs, c.as_str()) {
                bad.push(String::from_str(c.as_str()));
            }
            Some(String::from_str(c.as_str()))
        },
        None => None,
    };
    proof {
        assert(bad@.map_values(|s: String| s@) =~= spec_bad_codecs(report, *bounds));
    }
    if bad.len() > 0 {
        return VideoValidity::UnsupportedCodecs(bad);
    }
    let width = match report.width {
        Some(w) => w,
        None => {
            return VideoValidity::BadFile;
        },
    };
    let height = match report.height {
        Some(h) => h,
        None => {
            return VideoValidity::BadFile;
        },
    };
    let (fps_num, fps_den) = match report.fps {
        Some(f) => f,
        None => {
            return VideoValidity::BadFile;
        },
    };
    if width > bounds.max_resolution.0 || height > bounds.max_resolution.1 {
        return VideoValidity::UnsupportedResolution(width, height);
    }
    VideoValidity::Valid(
        VideoInfo {
            width,
            height,
            fps_num,
            fps_den,
            container: VideoProperty::Supported(container),
            video_codec: match video_codec {
                Some(c) => Some(VideoProperty::Supported(c)),
                None => None,
            },
            audio_codec: match audio_codec {
                Some(c) => Some(VideoProperty::Supported(c)),
                None => None,
            },
        },
    )
}

} // verus!
