//! The encoder driver's pure half: parsing the transcoder's analysis
//! output into silent intervals and a media duration, and building the
//! argument lists and the filter script that the process-spawning shell
//! around the library hands to the transcoder.

use vstd::prelude::*;

use crate::analysis::{
    audible_from_silence, in_intervals, intervals_are_ordered, intervals_ordered, Interval,
    VideoAnalysis,
};
use crate::text::{
    clock_micros, find_sub, first_match, fixed_micros, format_secs, has_match, has_prefix,
    lemma_first_match_at, parse_clock_micros, parse_fixed_micros, secs_repr, spec_clock_ok,
    spec_fixed_ok,
};

verus! {

/// Why a transcoder run yielded no result.
#[derive(Clone, Debug, PartialEq, Eq)]
pub enum FFmpegError {
    /// The transcoder exited with a failure; the message is its collected
    /// diagnostic output.
    FFmpeg(String),
    /// The transcoder's output did not have the expected shape; the
    /// message names what could not be read.
    Parse(String),
    /// Spawning or talking to the transcoder failed; the message is the
    /// I/O error's text.
    IO(String),
}

/// The message a transcoder failure carries.
pub open spec fn spec_error_message(e: FFmpegError) -> Seq<char> {
    match e {
        FFmpegError::FFmpeg(m) => m@,
        FFmpegError::Parse(m) => m@,
        FFmpegError::IO(m) => m@,
    }
}

impl FFmpegError {
    /// The human-readable message of this failure.
    pub fn message(&self) -> (r: String)
        ensures
            r@ == spec_error_message(*self),
    {
        match self {
            FFmpegError::FFmpeg(m) => String::from_str(m.as_str()),
            FFmpegError::Parse(m) => String::from_str(m.as_str()),
            FFmpegError::IO(m) => String::from_str(m.as_str()),
        }
    }
}

/// One invocation target of the external transcoder: where it reads, where
/// it writes, and which binary runs. The struct itself holds no process;
/// it yields the argument lists and the filter script that the shell
/// around the library passes to the spawned child.
pub struct FFmpeg {
    pub input: String,
    pub output: String,
    pub exec_path: String,
}

impl FFmpeg {
    /// Bundle the paths of one transcoder invocation.
    pub fn new(input: String, output: String, exec_path: String) -> (r: FFmpeg)
        ensures
            r.input@ == input@,
            r.output@ == output@,
            r.exec_path@ == exec_path@,
    {
        FFmpeg { input, output, exec_path }
    }

    /// Arguments of the analysis run: read the input, drop the video
    /// stream, detect silence at the fixed thresholds, print the
    /// detector's metadata to standard output, and discard the encode.
    pub fn analyze_args(&self) -> (r: Vec<String>)
        ensures
            r@.len() == 9,
            r@[0]@ == "-i"@,
            r@[1]@ == self.input@,
            r@[2]@ == "-vn"@,
            r@[3]@ == "-hide_banner"@,
            r@[4]@ == "-af"@,
            r@[5]@ == "silencedetect=noise=-50dB:d=0.1,ametadata=mode=print:file=-"@,
            r@[6]@ == "-f"@,
            r@[7]@ == "null"@,
            r@[8]@ == "-"@,
    {
        let mut args: Vec<String> = Vec::new();
        args.push(String::from_str("-i"));
        args.push(String::from_str(self.input.as_str()));
        args.push(String::from_str("-vn"));
        args.push(String::from_str("-hide_banner"));
        args.push(String::from_str("-af"));
        args.push(
            String::from_str("silencedetect=noise=-50dB:d=0.1,ametadata=mode=print:file=-"),
        );
        args.push(String::from_str("-f"));
        args.push(String::from_str("null"));
        args.push(String::from_str("-"));
        args
    }

    /// Arguments of the encoding run: read the input, emit machine
    /// progress every 0.3 s, take the filter script on standard input, map
    /// the labelled streams, and write H.264 ultrafast video with Opus
    /// audio into an MP4 at the output path.
    pub fn remove_silence_args(&self) -> (r: Vec<String>)
        ensures
            r@.len() == 23,
            r@[0]@ == "-i"@,
            r@[1]@ == self.input@,
            r@[2]@ == "-progress"@,
            r@[3]@ == "-"@,
            r@[4]@ == "-loglevel"@,
            r@[5]@ == "error"@,
            r@[6]@ == "-stats_period"@,
            r@[7]@ == "0.3"@,
            r@[8]@ == "-filter_complex_script"@,
            r@[9]@ == "pipe:0"@,
            r@[10]@ == "-map"@,
            r@[11]@ == "[video]"@,
            r@[12]@ == "-map"@,
            r@[13]@ == "[audio]"@,
            r@[14]@ == "-c:v"@,
            r@[15]@ == "libx264"@,
            r@[16]@ == "-preset"@,
            r@[17]@ == "ultrafast"@,
            r@[18]@ == "-c:a"@,
            r@[19]@ == "libopus"@,
            r@[20]@ == "-f"@,
            r@[21]@ == "mp4"@,
            r@[22]@ == self.output@,
    {
        let mut args: Vec<String> = Vec::new();
        args.push(String::from_str("-i"));
        args.push(String::from_str(self.input.as_str()));
        args.push(String::from_str("-progress"));
        args.push(String::from_str("-"));
        args.push(String::from_str("-loglevel"));
        args.push(String::from_str("error"));
        args.push(String::from_str("-stats_period"));
        args.push(String::from_str("0.3"));
        args.push(String::from_str("-filter_complex_script"));
        args.push(String::from_str("pipe:0"));
        args.push(String::from_str("-map"));
        args.push(String::from_str("[video]"));
        args.push(String::from_str("-map"));
        args.push(String::from_str("[audio]"));
        args.push(String::from_str("-c:v"));
        args.push(String::from_str("libx264"));
        args.push(String::from_str("-preset"));
        args.push(String::from_str("ultrafast"));
        args.push(String::from_str("-c:a"));
        args.push(String::from_str("libopus"));
        args.push(String::from_str("-f"));
        args.push(String::from_str("mp4"));
        args.push(String::from_str(self.output.as_str()));
        args
    }
}

/// State of the silence-metadata reader: which key the next metadata line
/// must carry. A full triple — start, end, duration — yields one silent
/// interval.
#[derive(Clone, Copy, Debug, PartialEq, Eq, Structural)]
pub enum OutputParser {
    /// Expecting a `silence_start` line.
    Start,
    /// Expecting a `silence_end` line; holds the start just read.
    End(u64),
    /// Expecting a `silence_duration` line; holds the pending interval.
    Duration(u64, u64),
}

/// `line` begins with `pre`.
pub open spec fn spec_has_prefix(line: Seq<char>, pre: Seq<char>) -> bool {
    line.len() >= pre.len() && line.take(pre.len() as int) == pre
}

/// The marker every metadata line of the silence detector begins with.
pub open spec fn lavfi_prefix() -> Seq<char> {
    "lavfi"@
}

/// Key of a line reporting where silence begins.
pub open spec fn start_prefix() -> Seq<char> {
    "lavfi.silence_start="@
}

/// Key of a line reporting where silence ends.
pub open spec fn end_prefix() -> Seq<char> {
    "lavfi.silence_end="@
}

/// Key of a line reporting how long the silence lasted.
pub open spec fn duration_prefix() -> Seq<char> {
    "lavfi.silence_duration="@
}

/// One step of the silence-metadata reader on a metadata line: the next
/// state and the interval emitted, or nothing when the line does not carry
/// the expected key with a readable value.
pub open spec fn spec_step(st: OutputParser, line: Seq<char>) -> Option<
    (OutputParser, Option<Interval>),
> {
    match st {
        OutputParser::Start => {
            if spec_has_prefix(line, start_prefix()) && spec_fixed_ok(
                line.skip(start_prefix().len() as int),
            ) {
                Some(
                    (
                        OutputParser::End(
                            fixed_micros(line.skip(start_prefix().len() as int)) as u64,
                        ),
                        None,
                    ),
                )
            } else {
                None
            }
        },
        OutputParser::End(start) => {
            if spec_has_prefix(line, end_prefix()) && spec_fixed_ok(
                line.skip(end_prefix().len() as int),
            ) {
                Some(
                    (
                        OutputParser::Duration(
                            start,
                            fixed_micros(line.skip(end_prefix().len() as int)) as u64,
                        ),
                        None,
                    ),
                )
            } else {
                None
            }
        },
        OutputParser::Duration(start, end) => {
            if spec_has_prefix(line, duration_prefix()) {
                Some((OutputParser::Start, Some(Interval { start_us: start, end_us: end })))
            } else {
                None
            }
        },
    }
}

/// Run the silence-metadata reader over all lines: lines without the
/// metadata marker are skipped, the rest drive `spec_step`.
pub open spec fn spec_run(
    lines: Seq<Seq<char>>,
    st: OutputParser,
    acc: Seq<Interval>,
) -> Option<(OutputParser, Seq<Interval>)>
    decreases lines.len(),
{
    if lines.len() == 0 {
        Some((st, acc))
    } else {
        let line = lines[0];
        if !spec_has_prefix(line, lavfi_prefix()) {
            spec_run(lines.drop_first(), st, acc)
        } else {
            match spec_step(st, line) {
                None => None,
                Some((st2, emitted)) => spec_run(
                    lines.drop_first(),
                    st2,
                    match emitted {
                        None => acc,
                        Some(iv) => acc.push(iv),
                    },
                ),
            }
        }
    }
}

/// The silent intervals denoted by the metadata lines, with a missing
/// final `silence_end` synthesised as the media duration.
pub open spec fn spec_silence_result(lines: Seq<Seq<char>>, duration_us: u64) -> Option<
    Seq<Interval>,
> {
    match spec_run(lines, OutputParser::Start, Seq::empty()) {
        None => None,
        Some((st, acc)) => match st {
            OutputParser::End(start) => Some(
                acc.push(Interval { start_us: start, end_us: duration_us }),
            ),
            _ => Some(acc),
        },
    }
}

/// The views of a vector of lines.
pub open spec fn line_views(lines: Seq<String>) -> Seq<Seq<char>> {
    lines.map_values(|l: String| l@)
}

/// Read the silent intervals out of the transcoder's metadata lines.
///
/// Succeeds exactly when every metadata line carries the key the reader
/// expects with a readable value; the error is the first line that does
/// not.
pub fn parse_silence_lines(lines: &Vec<String>, duration_us: u64) -> (r: Result<
    Vec<Interval>,
    String,
>)
    ensures
        r is Ok <==> spec_silence_result(line_views(lines@), duration_us) is Some,
        r is Ok ==> r->Ok_0@ == spec_silence_result(line_views(lines@), duration_us)->Some_0,
{
    let ghost all = line_views(lines@);
    let n = lines.len();
    let mut st = OutputParser::Start;
    let mut acc: Vec<Interval> = Vec::new();
    let mut i: usize = 0;
    proof {
        assert(all.skip(0) =~= all);
    }
    while i < n
        invariant
            0 <= i <= n,
            n == lines@.len(),
            all == line_views(lines@),
            spec_run(all, OutputParser::Start, Seq::empty()) == spec_run(
                all.skip(i as int),
                st,
                acc@,
            ),
        decreases n - i,
    {
        let line: &String = &lines[i];
        proof {
            assert(all.skip(i as int).len() > 0);
            assert(all.skip(i as int)[0] == line@);
            assert(all.skip(i as int).drop_first() =~= all.skip(i + 1));
        }
        if has_prefix(line.as_str(), "lavfi") {
            proof {
                assert(spec_has_prefix(line@, lavfi_prefix()));
            }
            let step = step_line(&st, line);
            match step {
                Some((st2, emitted)) => {
                    st = st2;
                    match emitted {
                        Some(iv) => {
                            let ghost old_acc = acc@;
                            acc.push(iv);
                            proof {
                                assert(acc@ =~= old_acc.push(iv));
                            }
                        },
                        None => {},
                    }
                },
                None => {
                    return Err(clone_string(line));
                },
            }
        } else {
            proof {
                assert(!spec_has_prefix(line@, lavfi_prefix()));
            }
        }
        i = i + 1;
    }
    proof {
        assert(all.skip(n as int) =~= Seq::<Seq<char>>::empty());
        assert(spec_run(all.skip(n as int), st, acc@) == Some::<(OutputParser, Seq<Interval>)>(
            (st, acc@),
        ));
    }
    let mut out = acc;
    match st {
        OutputParser::End(start) => {
            let ghost before = out@;
            out.push(Interval { start_us: start, end_us: duration_us });
            proof {
                assert(out@ =~= before.push(Interval { start_us: start, end_us: duration_us }));
            }
        },
        _ => {},
    }
    Ok(out)
}

/// Clone a string.
fn clone_string(s: &String) -> (r: String)
    ensures
        r@ == s@,
{
    String::from_str(s.as_str())
}

/// One executable step of the silence-metadata reader.
fn step_line(st: &OutputParser, line: &String) -> (r: Option<(OutputParser, Option<Interval>)>)
    ensures
        r == spec_step(*st, line@),
{
    match st {
        OutputParser::Start => {
            if has_prefix(line.as_str(), "lavfi.silence_start=") {
                let pre_len = "lavfi.silence_start=".unicode_len();
                let rest = line.as_str().substring_char(pre_len, line.as_str().unicode_len());
                proof {
                    assert(rest@ =~= line@.skip(start_prefix().len() as int));
                }
                match parse_fixed_micros(rest) {
                    Some(v) => Some((OutputParser::End(v), None)),
                    None => None,
                }
            } else {
                None
            }
        },
        OutputParser::End(start) => {
            if has_prefix(line.as_str(), "lavfi.silence_end=") {
                let pre_len = "lavfi.silence_end=".unicode_len();
                let rest = line.as_str().substring_char(pre_len, line.as_str().unicode_len());
                proof {
                    assert(rest@ =~= line@.skip(end_prefix().len() as int));
                }
                match parse_fixed_micros(rest) {
                    Some(v) => Some((OutputParser::Duration(*start, v), None)),
                    None => None,
                }
            } else {
                None
            }
        },
        OutputParser::Duration(start, end) => {
            if has_prefix(line.as_str(), "lavfi.silence_duration=") {
                Some(
                    (
                        OutputParser::Start,
                        Some(Interval { start_us: *start, end_us: *end }),
                    ),
                )
            } else {
                None
            }
        },
    }
}

/// The banner on the transcoder's diagnostic stream that precedes the
/// media duration.
pub open spec fn duration_marker() -> Seq<char> {
    "Duration: "@
}

/// The media duration in microseconds announced on the diagnostic stream:
/// the clock reading after the first `Duration: ` banner, up to the first
/// comma after it. Nothing when banner, comma, or a readable clock is
/// missing.
pub open spec fn spec_stderr_duration(s: Seq<char>) -> Option<u64> {
    if !has_match(s, duration_marker()) {
        None
    } else {
        let rest = s.skip(first_match(s, duration_marker()) + duration_marker().len());
        if !has_match(rest, ","@) {
            None
        } else {
            let clock = rest.take(first_match(rest, ","@));
            if spec_clock_ok(clock) {
                Some(clock_micros(clock) as u64)
            } else {
                None
            }
        }
    }
}

/// Read the media duration out of the transcoder's diagnostic text.
pub fn extract_duration_us(stderr_text: &str) -> (r: Option<u64>)
    ensures
        r == spec_stderr_duration(stderr_text@),
{
    let marker = "Duration: ";
    match find_sub(stderr_text, marker) {
        None => {
            proof {
                assert(!has_match(stderr_text@, duration_marker()));
            }
            None
        },
        Some(i) => {
            proof {
                lemma_first_match_at(stderr_text@, marker@, i as int);
            }
            let n = stderr_text.unicode_len();
            let mlen = marker.unicode_len();
            let rest = stderr_text.substring_char(i + mlen, n);
            proof {
                assert(rest@ =~= stderr_text@.skip(i + mlen));
            }
            match find_sub(rest, ",") {
                None => {
                    proof {
                        assert(!has_match(rest@, ","@));
                    }
                    None
                },
                Some(c) => {
                    proof {
                        lemma_first_match_at(rest@, ","@, c as int);
                    }
                    let clock = rest.substring_char(0, c);
                    proof {
                        assert(clock@ =~= rest@.take(c as int));
                    }
                    parse_clock_micros(clock)
                },
            }
        },
    }
}

/// Everything an analysis run needs to succeed: the transcoder exited
/// cleanly, its diagnostic stream announces a duration, its metadata lines
/// read as silent intervals, and those intervals are ordered within the
/// duration.
pub open spec fn spec_analysis_ok(
    lines: Seq<Seq<char>>,
    stderr: Seq<char>,
    exit_success: bool,
) -> bool {
    &&& exit_success
    &&& spec_stderr_duration(stderr) is Some
    &&& spec_silence_result(lines, spec_stderr_duration(stderr)->0) is Some
    &&& intervals_ordered(
        spec_silence_result(lines, spec_stderr_duration(stderr)->0)->0,
        spec_stderr_duration(stderr)->0 as nat,
    )
}

/// Turn one finished analysis run of the transcoder — its metadata lines,
/// its diagnostic text, and whether it exited cleanly — into the video's
/// audible intervals.
///
/// On success the audible intervals are exactly the complement of the
/// reported silent intervals over `[0, duration]`, zero-length spans
/// dropped. A failed exit reports the diagnostic text; a malformed line,
/// a missing duration, or disordered silent intervals report what could
/// not be read.
pub fn parse_analysis(
    stdout_lines: &Vec<String>,
    stderr_text: &str,
    exit_success: bool,
) -> (r: Result<VideoAnalysis, FFmpegError>)
    ensures
        r is Ok <==> spec_analysis_ok(line_views(stdout_lines@), stderr_text@, exit_success),
        r is Ok ==> ({
            let dur = spec_stderr_duration(stderr_text@)->0;
            let sil = spec_silence_result(line_views(stdout_lines@), dur)->0;
            &&& r->Ok_0.duration_us == dur
            &&& r->Ok_0.wf()
            &&& forall|t: int|
                0 <= t < dur ==> (#[trigger] in_intervals(r->Ok_0.audible@, t)
                    <==> !in_intervals(sil, t))
        }),
        !exit_success ==> (r matches Err(e) && e matches FFmpegError::FFmpeg(m) && m@
            == stderr_text@),
        exit_success && !(r is Ok) ==> (r matches Err(e) && e is Parse),
{
    if !exit_success {
        return Err(FFmpegError::FFmpeg(String::from_str(stderr_text)));
    }
    let duration_us = match extract_duration_us(stderr_text) {
        Some(d) => d,
        None => {
            return Err(FFmpegError::Parse(String::from_str(stderr_text)));
        },
    };
    let silence = match parse_silence_lines(stdout_lines, duration_us) {
        Ok(v) => v,
        Err(line) => {
            return Err(FFmpegError::Parse(line));
        },
    };
    if !intervals_are_ordered(&silence, duration_us) {
        return Err(FFmpegError::Parse(String::from_str("silence intervals out of order")));
    }
    let audible = audible_from_silence(&silence, duration_us);
    Ok(VideoAnalysis { audible, duration_us })
}

/// One `between` predicate of the keep-set: the frame time lies in the
/// interval (the commas are escaped for the filter language).
pub open spec fn between_expr(iv: Interval) -> Seq<char> {
    "between(t\\,"@ + secs_repr(iv.start_us as nat) + "\\,"@ + secs_repr(iv.end_us as nat)
        + ")"@
}

/// The keep-set: the disjunction of the `between` predicates.
pub open spec fn between_join(s: Seq<Interval>) -> Seq<char>
    decreases s.len(),
{
    if s.len() == 0 {
        Seq::empty()
    } else if s.len() == 1 {
        between_expr(s[0])
    } else {
        between_join(s.drop_last()) + "+"@ + between_expr(s.last())
    }
}

/// One gap's timestamp shift: past the gap's start, shift by its length.
pub open spec fn gap_expr(g: Interval) -> Seq<char> {
    "gt(T,"@ + secs_repr(g.start_us as nat) + ")*("@ + secs_repr(
        (g.end_us - g.start_us) as nat,
    ) + ")"@
}

/// The gaps between consecutive audible intervals.
pub open spec fn gaps_of(s: Seq<Interval>) -> Seq<Interval> {
    Seq::new(
        (s.len() - 1) as nat,
        |i: int| Interval { start_us: s[i].end_us, end_us: s[i + 1].start_us },
    )
}

/// The sum of the gap shifts; zero when there is no gap.
pub open spec fn gap_join(s: Seq<Interval>) -> Seq<char>
    decreases s.len(),
{
    if s.len() == 0 {
        "0"@
    } else if s.len() == 1 {
        gap_expr(s[0])
    } else {
        gap_join(s.drop_last()) + "+"@ + gap_expr(s.last())
    }
}

/// The timestamp rewrite: start at zero with the gaps compressed out.
pub open spec fn pts_expr(audible: Seq<Interval>) -> Seq<char> {
    "PTS-STARTPTS-("@ + gap_join(gaps_of(audible)) + ")/TB"@
}

/// The whole filter script: a video part that keeps, re-times and rescales
/// the kept frames, and an audio part with the same keep-set and re-timing,
/// labelled `[video]` and `[audio]`.
pub open spec fn spec_filter_script(audible: Seq<Interval>) -> Seq<char> {
    "[0:v]select='"@ + between_join(audible) + "',setpts='"@ + pts_expr(audible)
        + "',scale='trunc(oh*a/2)*2:576'[video];[0:a]aselect='"@ + between_join(audible)
        + "',asetpts='"@ + pts_expr(audible) + "'[audio]"@
}

/// Append one `between` predicate to the string being built.
fn push_between(out: &mut String, iv: Interval)
    ensures
        final(out)@ == old(out)@ + between_expr(iv),
{
    out.append("between(t\\,");
    let start = format_secs(iv.start_us);
    out.append(start.as_str());
    out.append("\\,");
    let end = format_secs(iv.end_us);
    out.append(end.as_str());
    out.append(")");
    proof {
        assert(out@ =~= old(out)@ + between_expr(iv));
    }
}

/// Append one gap shift to the string being built.
fn push_gap(out: &mut String, g: Interval)
    requires
        g.start_us <= g.end_us,
    ensures
        final(out)@ == old(out)@ + gap_expr(g),
{
    out.append("gt(T,");
    let start = format_secs(g.start_us);
    out.append(start.as_str());
    out.append(")*(");
    let len = format_secs(g.end_us - g.start_us);
    out.append(len.as_str());
    out.append(")");
    proof {
        assert(out@ =~= old(out)@ + gap_expr(g));
    }
}

impl FFmpeg {
    /// Build the filter script for the given audible intervals, exactly as
    /// `spec_filter_script` lays it out. The shell around the library pipes
    /// it to the transcoder's standard input.
    pub fn filter_script(audible: &Vec<Interval>) -> (r: String)
        requires
            audible@.len() >= 1,
            forall|i: int|
                0 <= i < audible@.len() - 1 ==> #[trigger] audible@[i].end_us <= audible@[i
                    + 1].start_us,
        ensures
            r@ == spec_filter_script(audible@),
    {
        let n = audible.len();
        // The keep-set shared by the video and audio parts.
        let mut sel = String::new();
        push_between(&mut sel, audible[0]);
        proof {
            assert(audible@.take(1).len() == 1);
            assert(audible@.take(1)[0] == audible@[0]);
            assert(sel@ == between_join(audible@.take(1)));
        }
        let mut i: usize = 1;
        while i < n
            invariant
                1 <= i <= n,
                n == audible@.len(),
                sel@ == between_join(audible@.take(i as int)),
            decreases n - i,
        {
            sel.append("+");
            push_between(&mut sel, audible[i]);
            proof {
                let t = audible@.take(i + 1);
                assert(t.drop_last() =~= audible@.take(i as int));
                assert(t.last() == audible@[i as int]);
                assert(t.len() >= 2);
                assert(sel@ =~= between_join(t));
            }
            i = i + 1;
        }
        proof {
            assert(audible@.take(n as int) =~= audible@);
        }
        // The timestamp shifts over the gaps between the kept intervals.
        let mut shifts = String::new();
        if n == 1 {
            shifts.append("0");
            proof {
                assert(gaps_of(audible@).len() == 0);
                assert(shifts@ =~= gap_join(gaps_of(audible@)));
            }
        } else {
            let ghost gaps = gaps_of(audible@);
            let g0 = Interval { start_us: audible[0].end_us, end_us: audible[1].start_us };
            push_gap(&mut shifts, g0);
            proof {
                assert(gaps[0] == g0);
                assert(gaps.take(1).len() == 1);
                assert(gaps.take(1)[0] == g0);
                assert(shifts@ == gap_join(gaps.take(1)));
            }
            let mut j: usize = 1;
            while j < n - 1
                invariant
                    1 <= j <= n - 1,
                    2 <= n == audible@.len(),
                    gaps == gaps_of(audible@),
                    forall|m: int|
                        0 <= m < audible@.len() - 1 ==> #[trigger] audible@[m].end_us
                            <= audible@[m + 1].start_us,
                    shifts@ == gap_join(gaps.take(j as int)),
                decreases n - j,
            {
                shifts.append("+");
                let gj = Interval {
                    start_us: audible[j].end_us,
                    end_us: audible[j + 1].start_us,
                };
                push_gap(&mut shifts, gj);
                proof {
                    let t = gaps.take(j + 1);
                    assert(gaps[j as int] == gj);
                    assert(t.drop_last() =~= gaps.take(j as int));
                    assert(t.last() == gj);
                    assert(t.len() >= 2);
                    assert(shifts@ =~= gap_join(t));
                }
                j = j + 1;
            }
            proof {
                assert(gaps.take((n - 1) as int) =~= gaps);
            }
        }
        // The timestamp rewrite shared by both parts.
        let mut pts = String::from_str("PTS-STARTPTS-(");
        pts.append(shifts.as_str());
        pts.append(")/TB");
        proof {
            assert(pts@ =~= pts_expr(audible@));
        }
        // Assemble the labelled video and audio parts.
        let mut out = String::from_str("[0:v]select='");
        out.append(sel.as_str());
        out.append("',setpts='");
        out.append(pts.as_str());
        out.append("',scale='trunc(oh*a/2)*2:576'[video];[0:a]aselect='");
        out.append(sel.as_str());
        out.append("',asetpts='");
        out.append(pts.as_str());
        out.append("'[audio]");
        proof {
            assert(out@ =~= spec_filter_script(audible@));
        }
        out
    }
}

} // verus!
