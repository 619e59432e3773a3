//! The command lines of the waveform pipeline: one transcoder run that
//! draws the waveform image, and two image-tool runs that splice a centre
//! line in and trim the margins. Spawning the commands and piping bytes
//! between them happen outside the library.

use vstd::prelude::*;

verus! {

/// Arguments of the transcoder run that renders the input's mono waveform
/// as one PNG on standard output.
pub fn waveform_ffmpeg_args(file_url: &str) -> (r: Vec<String>)
    ensures
        r@.len() == 15,
        r@[0]@ == "-loglevel"@,
        r@[1]@ == "error"@,
        r@[2]@ == "-hide_banner"@,
        r@[3]@ == "-y"@,
        r@[4]@ == "-i"@,
        r@[5]@ == file_url@,
        r@[6]@ == "-filter_complex"@,
        r@[7]@ == "aformat=channel_layouts=mono,showwavespic=s=6384x128:draw=full:colors=#ffffff"@,
        r@[8]@ == "-frames:v"@,
        r@[9]@ == "1"@,
        r@[10]@ == "-c:v"@,
        r@[11]@ == "png"@,
        r@[12]@ == "-f"@,
        r@[13]@ == "image2pipe"@,
        r@[14]@ == "-"@,
{
    let mut args: Vec<String> = Vec::new();
    args.push(String::from_str("-loglevel"));
    args.push(String::from_str("error"));
    args.push(String::from_str("-hide_banner"));
    args.push(String::from_str("-y"));
    args.push(String::from_str("-i"));
    args.push(String::from_str(file_url));
    args.push(String::from_str("-filter_complex"));
    args.push(
        String::from_str(
            "aformat=channel_layouts=mono,showwavespic=s=6384x128:draw=full:colors=#ffffff",
        ),
    );
    args.push(String::from_str("-frames:v"));
    args.push(String::from_str("1"));
    args.push(String::from_str("-c:v"));
    args.push(String::from_str("png"));
    args.push(String::from_str("-f"));
    args.push(String::from_str("image2pipe"));
    args.push(String::from_str("-"));
    args
}

/// Arguments of the image-tool run that splices a one-pixel centre line
/// into the waveform.
pub fn magick_draw_line_args() -> (r: Vec<String>)
    ensures
        r@.len() == 8,
        r@[0]@ == "png:-"@,
        r@[1]@ == "-gravity"@,
        r@[2]@ == "Center"@,
        r@[3]@ == "-background"@,
        r@[4]@ == "white"@,
        r@[5]@ == "-splice"@,
        r@[6]@ == "0x1"@,
        r@[7]@ == "png:-"@,
{
    let mut args: Vec<String> = Vec::new();
    args.push(String::from_str("png:-"));
    args.push(String::from_str("-gravity"));
    args.push(String::from_str("Center"));
    args.push(String::from_str("-background"));
    args.push(String::from_str("white"));
    args.push(String::from_str("-splice"));
    args.push(String::from_str("0x1"));
    args.push(String::from_str("png:-"));
    args
}

/// Arguments of the image-tool run that trims the waveform's margins.
pub fn magick_trim_args() -> (r: Vec<String>)
    ensures
        r@.len() == 3,
        r@[0]@ == "png:-"@,
        r@[1]@ == "-trim"@,
        r@[2]@ == "png:-"@,
{
    let mut args: Vec<String> = Vec::new();
    args.push(String::from_str("png:-"));
    args.push(String::from_str("-trim"));
    args.push(String::from_str("png:-"));
    args
}

/// Whether a piped command's output is taken: it exited cleanly and wrote
/// no diagnostics.
pub fn pipe_output_accepted(status_success: bool, stderr_empty: bool) -> (r: bool)
    ensures
        r == (status_success && stderr_empty),
{
    status_success && stderr_empty
}

} // verus!
