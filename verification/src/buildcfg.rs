//! What the deployment builder writes for each service: the settings
//! files, the rendering of their validated values, and the container
//! recipe assembled around a service's name, packages and extra files.
//! Writing files and driving the container tool happen outside the
//! library.

use vstd::prelude::*;

use crate::text::{dec_digits, render_u64, str_eq};

verus! {

/// Settings of the upload service.
pub struct VoiceFileUploadConfig {
    pub silence_cutoff: (i32, i32),
    pub skip_duration: (i32, i32),
    pub max_free_file_size: u64,
    pub max_premium_file_size: u64,
    pub reqwest_connect_timeout_ms: u64,
}

/// Settings of the waveform service.
pub struct VoiceWaveformGenConfig {
    pub waveform_dimensions: String,
}

/// Settings of the analysis service.
pub struct VoiceAnalyzerConfig {
    pub silencedetect_noise: String,
    pub silencedetect_duration: String,
}

/// Settings every service shares: where the bucket lives and how to reach
/// it.
pub struct VoiceSharedConfig {
    pub aws_id: String,
    pub aws_secret: String,
    pub endpoint_url: String,
    pub bucket_name: String,
    pub region: String,
}

/// Render waveform dimensions as the `WxH` form the tools take.
pub fn dimensions_string(w: u32, h: u32) -> (r: String)
    ensures
        r@ == dec_digits(w as nat) + "x"@ + dec_digits(h as nat),
{
    let mut out = render_u64(w as u64);
    out.append("x");
    let hs = render_u64(h as u64);
    out.append(hs.as_str());
    proof {
        assert(out@ =~= dec_digits(w as nat) + "x"@ + dec_digits(h as nat));
    }
    out
}

/// Render a silence-noise threshold as the `NdB` form the detector takes;
/// only thresholds strictly between -100 and 0 decibels are accepted.
pub fn noise_setting(db: i32) -> (r: Option<String>)
    ensures
        r is Some <==> (-100 <= db < 0),
        r matches Some(s) ==> s@ == seq!['-'] + dec_digits((-db) as nat) + "dB"@,
{
    if db < -100 || db >= 0 {
        return None;
    }
    let magnitude: u64 = (-(db as i64)) as u64;
    let mut out = String::from_str("-");
    proof {
        reveal_strlit("-");
        assert("-"@ =~= seq!['-']);
    }
    let digits = render_u64(magnitude);
    out.append(digits.as_str());
    out.append("dB");
    proof {
        assert(out@ =~= seq!['-'] + dec_digits(magnitude as nat) + "dB"@);
    }
    Some(out)
}

/// Join texts with a separator.
pub open spec fn join_with(parts: Seq<Seq<char>>, sep: Seq<char>) -> Seq<char>
    decreases parts.len(),
{
    if parts.len() == 0 {
        Seq::empty()
    } else if parts.len() == 1 {
        parts[0]
    } else {
        join_with(parts.drop_last(), sep) + sep + parts.last()
    }
}

/// One extra-file line of the recipe.
pub open spec fn copy_line(from: Seq<char>, to: Seq<char>) -> Seq<char> {
    "COPY --from=builder "@ + from + " "@ + to
}

/// The extra-file lines of the recipe.
pub open spec fn copy_lines(copy: Seq<(Seq<char>, Seq<char>)>) -> Seq<Seq<char>> {
    copy.map_values(|p: (Seq<char>, Seq<char>)| copy_line(p.0, p.1))
}

/// The recipe around one service: its system packages, its crate name
/// (twice: once built, once copied out), and its extra files.
pub open spec fn spec_dockerfile(
    deps: Seq<Seq<char>>,
    project_name: Seq<char>,
    copy: Seq<(Seq<char>, Seq<char>)>,
) -> Seq<char> {
    "\nFROM rust:1.75 as prepare\n\tRUN apt update && \\\n\t\tapt install -y --no-install-recommends mold ca-certificates "@
        + join_with(deps, " "@)
        + " && \\\n\t\trm -rf /var/lib/apt/lists/*\n\n\tWORKDIR /build\n\nFROM prepare as builder\n\tCOPY . .\n\tENV RUSTFLAGS=\"-C target-feature=+crt-static --cfg=____builder\"\n\tRUN cargo build --release --bin "@
        + project_name
        + " --target x86_64-unknown-linux-gnu\n\nFROM scratch\n\tCOPY --from=prepare /etc/ssl/certs/ca-certificates.crt /etc/ssl/certs/\n\tCOPY --from=builder /build/target/x86_64-unknown-linux-gnu/release/"@
        + project_name
        + " /application\n\tCOPY --from=builder /build/__config.toml /config.toml\n\tCOPY --from=builder /build/__shared-config.toml /shared-config.toml\n\t"@
        + join_with(copy_lines(copy), "\n"@) + "\n\nENTRYPOINT [\"/application\"]\n"@
}

/// A finished recipe.
pub struct DockerfileTemplate(pub String);

/// The pieces of one service's recipe.
pub struct DockerfileTemplateBuilder {
    pub deps: Vec<String>,
    pub project_name: String,
    pub copy: Vec<(String, String)>,
    pub config: String,
}

impl DockerfileTemplateBuilder {
    /// Assemble the recipe, exactly as `spec_dockerfile` lays it out.
    pub fn build(self) -> (r: DockerfileTemplate)
        ensures
            r.0@ == spec_dockerfile(
                self.deps@.map_values(|s: String| s@),
                self.project_name@,
                self.copy@.map_values(|p: (String, String)| (p.0@, p.1@)),
            ),
    {
        let ghost dep_views = self.deps@.map_values(|s: String| s@);
        let ghost copy_views = self.copy@.map_values(|p: (String, String)| (p.0@, p.1@));
        // The packages, separated by spaces.
        let mut deps_joined = String::new();
        let nd = self.deps.len();
        let mut i: usize = 0;
        while i < nd
            invariant
                0 <= i <= nd,
                nd == self.deps@.len(),
                dep_views == self.deps@.map_values(|s: String| s@),
                deps_joined@ == join_with(dep_views.take(i as int), " "@),
            decreases nd - i,
        {
            if i > 0 {
                deps_joined.append(" ");
            }
            deps_joined.append(self.deps[i].as_str());
            proof {
                let t = dep_views.take(i + 1);
                assert(t.drop_last() =~= dep_views.take(i as int));
                assert(t.last() == dep_views[i as int]);
                if i == 0 {
                    assert(deps_joined@ =~= join_with(t, " "@));
                } else {
                    assert(deps_joined@ =~= join_with(t, " "@));
                }
            }
            i = i + 1;
        }
        proof {
            assert(dep_views.take(nd as int) =~= dep_views);
        }
        // The extra-file lines, separated by line breaks.
        let mut copies_joined = String::new();
        let nc = self.copy.len();
        let mut j: usize = 0;
        while j < nc
            invariant
                0 <= j <= nc,
                nc == self.copy@.len(),
                copy_views == self.copy@.map_values(|p: (String, String)| (p.0@, p.1@)),
                copies_joined@ == join_with(copy_lines(copy_views.take(j as int)), "\n"@),
            decreases nc - j,
        {
            if j > 0 {
                copies_joined.append("\n");
            }
            copies_joined.append("COPY --from=builder ");
            copies_joined.append(self.copy[j].0.as_str());
            copies_joined.append(" ");
            copies_joined.append(self.copy[j].1.as_str());
            proof {
                let t = copy_lines(copy_views.take(j + 1));
                assert(copy_lines(copy_views.take(j + 1)).drop_last() =~= copy_lines(
                    copy_views.take(j as int),
                ));
                assert(t.last() == copy_line(copy_views[j as int].0, copy_views[j as int].1));
                assert(copies_joined@ =~= join_with(t, "\n"@));
            }
            j = j + 1;
        }
        proof {
            assert(copy_views.take(nc as int) =~= copy_views);
        }
        let mut out = String::from_str(
            "\nFROM rust:1.75 as prepare\n\tRUN apt update && \\\n\t\tapt install -y --no-install-recommends mold ca-certificates ",
        );
        out.append(deps_joined.as_str());
        out.append(
            " && \\\n\t\trm -rf /var/lib/apt/lists/*\n\n\tWORKDIR /build\n\nFROM prepare as builder\n\tCOPY . .\n\tENV RUSTFLAGS=\"-C target-feature=+crt-static --cfg=____builder\"\n\tRUN cargo build --release --bin ",
        );
        out.append(self.project_name.as_str());
        out.append(
            " --target x86_64-unknown-linux-gnu\n\nFROM scratch\n\tCOPY --from=prepare /etc/ssl/certs/ca-certificates.crt /etc/ssl/certs/\n\tCOPY --from=builder /build/target/x86_64-unknown-linux-gnu/release/",
        );
        out.append(self.project_name.as_str());
        out.append(
            " /application\n\tCOPY --from=builder /build/__config.toml /config.toml\n\tCOPY --from=builder /build/__shared-config.toml /shared-config.toml\n\t",
        );
        out.append(copies_joined.as_str());
        out.append("\n\nENTRYPOINT [\"/application\"]\n");
        proof {
            assert(out@ =~= spec_dockerfile(dep_views, self.project_name@, copy_views));
        }
        DockerfileTemplate(out)
    }
}

/// The five crates a deployable workspace must list, each exactly once.
pub fn workspace_members_valid(members: &Vec<String>) -> (r: bool)
    ensures
        r == ({
            let views = members@.map_values(|s: String| s@);
            &&& views.len() == 5
            &&& (forall|i: int, j: int| 0 <= i < j < views.len() ==> views[i] != views[j])
            &&& (forall|i: int|
                0 <= i < views.len() ==> (#[trigger] views[i] == "voice-file-upload"@
                    || views[i] == "voice-waveform-gen"@ || views[i] == "voice-shared"@
                    || views[i] == "voice-analyzer"@ || views[i] == "builder"@))
            &&& (exists|i: int| 0 <= i < views.len() && views[i] == "voice-file-upload"@)
            &&& (exists|i: int| 0 <= i < views.len() && views[i] == "voice-waveform-gen"@)
            &&& (exists|i: int| 0 <= i < views.len() && views[i] == "voice-shared"@)
            &&& (exists|i: int| 0 <= i < views.len() && views[i] == "voice-analyzer"@)
            &&& (exists|i: int| 0 <= i < views.len() && views[i] == "builder"@)
        }),
{
    let ghost views = members@.map_values(|s: String| s@);
    if members.len() != 5 {
        return false;
    }
    let mut i: usize = 1;
    while i < 5
        invariant
            1 <= i <= 5,
            members@.len() == 5,
            views == members@.map_values(|s: String| s@),
            forall|a: int, b: int| 0 <= a < b < i ==> views[a] != views[b],
        decreases 5 - i,
    {
        let mut j: usize = 0;
        while j < i
            invariant
                0 <= j <= i < 5,
                members@.len() == 5,
                views == members@.map_values(|s: String| s@),
                forall|a: int, b: int| 0 <= a < b < i ==> views[a] != views[b],
                forall|b: int| 0 <= b < j ==> views[b] != views[i as int],
            decreases i - j,
        {
            proof {
                assert(views[j as int] == members@[j as int]@);
                assert(views[i as int] == members@[i as int]@);
            }
            if str_eq(members[j].as_str(), members[i].as_str()) {
                proof {
                    assert(views[j as int] == views[i as int]);
                }
                return false;
            }
            j = j + 1;
        }
        i = i + 1;
    }
    let mut all_known: bool = true;
    let mut has_upload: bool = false;
    let mut has_waveform: bool = false;
    let mut has_shared: bool = false;
    let mut has_analyzer: bool = false;
    let mut has_builder: bool = false;
    let mut k: usize = 0;
    while k < 5
        invariant
            0 <= k <= 5,
            members@.len() == 5,
            views == members@.map_values(|s: String| s@),
            all_known == (forall|m: int|
                0 <= m < k ==> (#[trigger] views[m] == "voice-file-upload"@ || views[m]
                    == "voice-waveform-gen"@ || views[m] == "voice-shared"@ || views[m]
                    == "voice-analyzer"@ || views[m] == "builder"@)),
            has_upload == (exists|m: int| 0 <= m < k && views[m] == "voice-file-upload"@),
            has_waveform == (exists|m: int| 0 <= m < k && views[m] == "voice-waveform-gen"@),
            has_shared == (exists|m: int| 0 <= m < k && views[m] == "voice-shared"@),
            has_analyzer == (exists|m: int| 0 <= m < k && views[m] == "voice-analyzer"@),
            has_builder == (exists|m: int| 0 <= m < k && views[m] == "builder"@),
        decreases 5 - k,
    {
        let name = members[k].as_str();
        let is_upload = str_eq(name, "voice-file-upload");
        let is_waveform = str_eq(name, "voice-waveform-gen");
        let is_shared = str_eq(name, "voice-shared");
        let is_analyzer = str_eq(name, "voice-analyzer");
        let is_builder = str_eq(name, "builder");
        proof {
            assert(views[k as int] == members@[k as int]@);
        }
        if is_upload {
            has_upload = true;
        }
        if is_waveform {
            has_waveform = true;
        }
        if is_shared {
            has_shared = true;
        }
        if is_analyzer {
            has_analyzer = true;
        }
        if is_builder {
            has_builder = true;
        }
        if !is_upload && !is_waveform && !is_shared && !is_analyzer && !is_builder {
            all_known = false;
        }
        k = k + 1;
    }
    all_known && has_upload && has_waveform && has_shared && has_analyzer && has_builder
}

} // verus!
