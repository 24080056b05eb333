//! The steps of the tile and stitch jobs: which commands run, with which arguments, and
//! which files move to and from S3.

use vstd::prelude::*;
use crate::coordinate::{
    coordinate_fields, coordinate_text, has_no_comma, is_trimmed,
    lemma_coordinate_text_roundtrip, CoordinateError,
};

verus! {

broadcast use vstd::string::group_string_axioms;

/// The directory where all viewview input and output goes.
pub const WORKING_DIRECTORY: &'static str = "work";

/// A command to run on a machine.
pub struct Command {
    /// The executable.
    pub executable: String,
    /// Its arguments.
    pub args: Vec<String>,
    /// Variables set in its environment.
    pub env: Vec<(String, String)>,
}

/// What a command is, as text.
pub struct CommandView {
    /// The executable.
    pub executable: Seq<char>,
    /// Its arguments.
    pub args: Seq<Seq<char>>,
    /// Variables set in its environment.
    pub env: Seq<(Seq<char>, Seq<char>)>,
}

impl View for Command {
    type V = CommandView;

    open spec fn view(&self) -> CommandView {
        CommandView {
            executable: self.executable@,
            args: self.args@.map_values(|a: String| a@),
            env: self.env@.map_values(|e: (String, String)| (e.0@, e.1@)),
        }
    }
}

/// One step of a job. A job runs its steps in order and stops at the first that fails.
pub enum JobStep {
    /// Run a command.
    Run(Command),
    /// Run the line-of-sight computation: a command that runs on its own, one at a time.
    Compute(Command),
    /// Copy a file from S3.
    SyncFromS3 {
        /// Where the file is read.
        source: String,
        /// Where the file is written.
        destination: String,
    },
    /// Copy a file to S3.
    SyncToS3 {
        /// Where the file is read.
        source: String,
        /// Where the file is written.
        destination: String,
    },
    /// Remove a local file.
    RemoveFile(String),
}

/// What a job step is, as text.
pub enum JobStepView {
    /// Run a command.
    Run(CommandView),
    /// Run the line-of-sight computation.
    Compute(CommandView),
    /// Copy a file from S3.
    SyncFromS3 { source: Seq<char>, destination: Seq<char> },
    /// Copy a file to S3.
    SyncToS3 { source: Seq<char>, destination: Seq<char> },
    /// Remove a local file.
    RemoveFile(Seq<char>),
}

impl View for JobStep {
    type V = JobStepView;

    open spec fn view(&self) -> JobStepView {
        match self {
            JobStep::Run(c) => JobStepView::Run(c@),
            JobStep::Compute(c) => JobStepView::Compute(c@),
            JobStep::SyncFromS3 { source, destination } => JobStepView::SyncFromS3 {
                source: source@,
                destination: destination@,
            },
            JobStep::SyncToS3 { source, destination } => JobStepView::SyncToS3 {
                source: source@,
                destination: destination@,
            },
            JobStep::RemoveFile(p) => JobStepView::RemoveFile(p@),
        }
    }
}

/// The views of a list of steps.
pub open spec fn steps_view(steps: Seq<JobStep>) -> Seq<JobStepView> {
    steps.map_values(|s: JobStep| s@)
}

/// `a`, a slash and `b`: a path inside a directory.
pub open spec fn path_in(a: Seq<char>, b: Seq<char>) -> Seq<char> {
    a + seq!['/'] + b
}

fn join_path(dir: &str, name: &str) -> (r: String)
    ensures
        r@ == path_in(dir@, name@),
{
    let r = dir.to_owned().concat("/").concat(name);
    proof {
        reveal_strlit("/");
    }
    r
}

fn text(s: &str) -> (r: String)
    ensures
        r@ == s@,
{
    s.to_owned()
}


/// Filename for the longest lines COG.
pub const LONGEST_LINES_COG: &'static str = "longest_lines.cog.tiff";

/// A worker job that processes a tile, as the plain values that its steps read.
pub struct TileJob {
    /// The ID of the run.
    pub run_id: String,
    /// Whether the run is local: its files stay in a `local` job directory and are not
    /// uploaded.
    pub is_local_run: bool,
    /// Whether the job directory is removed once the job succeeded.
    pub enable_cleanup: bool,
    /// The name of the backend of the line-of-sight kernel.
    pub backend: String,
    /// The number of threads of the line-of-sight kernel, as text, where one was set.
    pub cpu_kernel_threads: Option<String>,
    /// The executable of the line-of-sight kernel.
    pub tvs_executable: String,
    /// The canonical filename of the stitched DEM of the tile.
    pub stitched_filename: String,
    /// The canonical filename of the tile.
    pub tile_filename: String,
}

/// The job directory: `work/local` for a local run, else `work/` and the timestamp.
pub open spec fn job_directory_of(is_local_run: bool, timestamp: Seq<char>) -> Seq<char> {
    path_in(WORKING_DIRECTORY@, if is_local_run { "local"@ } else { timestamp })
}

/// A command without environment variables.
pub open spec fn plain_command(executable: Seq<char>, args: Seq<Seq<char>>) -> CommandView {
    CommandView { executable, args, env: Seq::empty() }
}

/// Create the directories of the job.
pub open spec fn ensure_directories_step(dir: Seq<char>) -> JobStepView {
    JobStepView::Run(
        plain_command(
            "mkdir"@,
            seq!["-p"@, path_in(dir, "archive"@), path_in(dir, "longest_lines"@)],
        ),
    )
}

/// Download the stitched DEM of the tile into the job directory.
pub open spec fn download_step(job: &TileJob, dir: Seq<char>) -> JobStepView {
    JobStepView::SyncFromS3 {
        source: "s3://viewview/stitched/"@ + job.stitched_filename@,
        destination: path_in(dir, job.stitched_filename@),
    }
}

/// The arguments of the line-of-sight kernel.
pub open spec fn compute_args(job: &TileJob, dir: Seq<char>) -> Seq<Seq<char>> {
    seq![
        "compute"@,
        path_in(dir, job.stitched_filename@),
        "--output-dir"@,
        dir,
        "--disable-image-render"@,
        "--backend"@,
        job.backend@,
        "--process"@,
        "total-surfaces,longest-lines"@,
    ] + match job.cpu_kernel_threads {
        Some(threads) => seq!["--thread-count"@, threads@],
        None => Seq::empty(),
    }
}

/// Run the line-of-sight kernel on the stitched DEM.
pub open spec fn compute_step(job: &TileJob, dir: Seq<char>) -> JobStepView {
    JobStepView::Compute(
        CommandView {
            executable: job.tvs_executable@,
            args: compute_args(job, dir),
            env: seq![("RUST_BACKTRACE"@, "1"@), ("RUST_LOG"@, "off,total_viewsheds=trace"@)],
        },
    )
}

/// The arguments that turn the longest lines raster into a COG.
pub open spec fn longest_lines_cog_args(dir: Seq<char>) -> Seq<Seq<char>> {
    seq![
        "-of"@,
        "COG"@,
        "-co"@,
        "BLOCKSIZE=128"@,
        "-co"@,
        "RESAMPLING=NEAREST"@,
        "-co"@,
        "OVERVIEWS=NONE"@,
        "-co"@,
        "COMPRESS=DEFLATE"@,
        "-co"@,
        "PREDICTOR=3"@,
        path_in(dir, "longest_lines.tiff"@),
        path_in(dir, LONGEST_LINES_COG@),
    ]
}

/// Turn the longest lines raster into a COG.
pub open spec fn longest_lines_cog_step(dir: Seq<char>) -> JobStepView {
    JobStepView::Run(plain_command("/usr/bin/gdal_translate"@, longest_lines_cog_args(dir)))
}

/// Upload the longest lines COG.
pub open spec fn put_longest_lines_cog_step(job: &TileJob, dir: Seq<char>) -> JobStepView {
    JobStepView::SyncToS3 {
        source: path_in(dir, LONGEST_LINES_COG@),
        destination: "s3://viewview/runs/"@ + job.run_id@ + "/longest_lines_cogs/"@
            + job.tile_filename@,
    }
}

/// Upload the raw total surfaces raster.
pub open spec fn put_raw_tvs_tiff_step(job: &TileJob, dir: Seq<char>) -> JobStepView {
    JobStepView::SyncToS3 {
        source: path_in(dir, "total_surfaces.tiff"@),
        destination: "s3://viewview/runs/"@ + job.run_id@ + "/raw/"@ + job.tile_filename@,
    }
}

/// The steps of a tile job, in order: create its directories, download the stitched DEM,
/// compute, make the longest lines COG and, but for a local run, upload the COG and the raw
/// total surfaces.
pub open spec fn tile_job_steps(job: &TileJob, dir: Seq<char>) -> Seq<JobStepView> {
    seq![
        ensure_directories_step(dir),
        download_step(job, dir),
        compute_step(job, dir),
        longest_lines_cog_step(dir),
    ] + if job.is_local_run {
        Seq::empty()
    } else {
        seq![put_longest_lines_cog_step(job, dir), put_raw_tvs_tiff_step(job, dir)]
    }
}

/// Remove the job directory.
pub open spec fn cleanup_command(dir: Seq<char>) -> CommandView {
    plain_command("rm"@, seq!["-r"@, dir])
}

proof fn lemma_strings_view(v: Seq<String>, w: Seq<Seq<char>>)
    requires
        v.len() == w.len(),
        forall|i: int| 0 <= i < v.len() ==> #[trigger] v[i]@ == w[i],
    ensures
        v.map_values(|a: String| a@) == w,
{
    assert(v.map_values(|a: String| a@) =~= w);
}

fn command(executable: String, args: Vec<String>) -> (r: Command)
    ensures
        r@ == plain_command(executable@, args@.map_values(|a: String| a@)),
{
    let r = Command { executable, args, env: Vec::new() };
    assert(r@.env =~= Seq::empty());
    r
}

impl TileJob {
    /// The job directory, from the time at which the job started where the run is not local.
    pub fn job_directory(&self, timestamp: &str) -> (r: String)
        ensures
            r@ == job_directory_of(self.is_local_run, timestamp@),
    {
        if self.is_local_run {
            join_path(WORKING_DIRECTORY, "local")
        } else {
            join_path(WORKING_DIRECTORY, timestamp)
        }
    }

    fn compute(&self, dir: &str) -> (r: JobStep)
        ensures
            r@ == compute_step(self, dir@),
    {
        let mut args: Vec<String> = vec![
            text("compute"),
            join_path(dir, self.stitched_filename.as_str()),
            text("--output-dir"),
            text(dir),
            text("--disable-image-render"),
            text("--backend"),
            self.backend.clone(),
            text("--process"),
            text("total-surfaces,longest-lines"),
        ];
        if let Some(threads) = &self.cpu_kernel_threads {
            args.push(text("--thread-count"));
            args.push(threads.clone());
        }
        let env: Vec<(String, String)> = vec![
            (text("RUST_BACKTRACE"), text("1")),
            (text("RUST_LOG"), text("off,total_viewsheds=trace")),
        ];
        let c = Command { executable: self.tvs_executable.clone(), args, env };
        proof {
            lemma_strings_view(c.args@, compute_args(self, dir@));
            assert(c@.env =~= seq![("RUST_BACKTRACE"@, "1"@), ("RUST_LOG"@, "off,total_viewsheds=trace"@)]);
        }
        JobStep::Compute(c)
    }

    /// The steps of the job, run in the job directory `dir`.
    pub fn steps(&self, dir: &str) -> (r: Vec<JobStep>)
        ensures
            steps_view(r@) == tile_job_steps(self, dir@),
    {
        let mut steps: Vec<JobStep> = Vec::new();
        let mkdir_args = vec![
            text("-p"),
            join_path(dir, "archive"),
            join_path(dir, "longest_lines"),
        ];
        proof {
            lemma_strings_view(mkdir_args@, seq!["-p"@, path_in(dir@, "archive"@), path_in(dir@, "longest_lines"@)]);
        }
        steps.push(JobStep::Run(command(text("mkdir"), mkdir_args)));
        steps.push(
            JobStep::SyncFromS3 {
                source: text("s3://viewview/stitched/").concat(self.stitched_filename.as_str()),
                destination: join_path(dir, self.stitched_filename.as_str()),
            },
        );
        steps.push(self.compute(dir));
        let cog_args = vec![
            text("-of"),
            text("COG"),
            text("-co"),
            text("BLOCKSIZE=128"),
            text("-co"),
            text("RESAMPLING=NEAREST"),
            text("-co"),
            text("OVERVIEWS=NONE"),
            text("-co"),
            text("COMPRESS=DEFLATE"),
            text("-co"),
            text("PREDICTOR=3"),
            join_path(dir, "longest_lines.tiff"),
            join_path(dir, LONGEST_LINES_COG),
        ];
        proof {
            lemma_strings_view(cog_args@, longest_lines_cog_args(dir@));
        }
        steps.push(JobStep::Run(command(text("/usr/bin/gdal_translate"), cog_args)));
        if !self.is_local_run {
            steps.push(
                JobStep::SyncToS3 {
                    source: join_path(dir, LONGEST_LINES_COG),
                    destination: text("s3://viewview/runs/").concat(self.run_id.as_str()).concat(
                        "/longest_lines_cogs/",
                    ).concat(self.tile_filename.as_str()),
                },
            );
            steps.push(
                JobStep::SyncToS3 {
                    source: join_path(dir, "total_surfaces.tiff"),
                    destination: text("s3://viewview/runs/").concat(self.run_id.as_str()).concat(
                        "/raw/",
                    ).concat(self.tile_filename.as_str()),
                },
            );
        }
        assert(steps_view(steps@) =~= tile_job_steps(self, dir@));
        steps
    }

    /// The command that removes the job directory `dir` once the job succeeded, where
    /// cleanup is enabled.
    pub fn cleanup(&self, dir: &str) -> (r: Option<Command>)
        ensures
            self.enable_cleanup ==> (r matches Some(c) && c@ == cleanup_command(dir@)),
            !self.enable_cleanup ==> r is None,
    {
        if self.enable_cleanup {
            let args = vec![text("-r"), text(dir)];
            proof {
                lemma_strings_view(args@, seq!["-r"@, dir@]);
            }
            Some(command(text("rm"), args))
        } else {
            None
        }
    }
}


/// A worker job that stitches the DEM of a tile, as the plain values that its steps read.
pub struct StitchJob {
    /// The directory of the DEM files, as text.
    pub dems: String,
    /// The directory where the stitched DEM is written, as text.
    pub tmp_directory: String,
    /// The scale of the stitched DEM, as text, where one was set.
    pub scale: Option<String>,
    /// The longitude of the centre of the tile, as text.
    pub centre_lon: String,
    /// The latitude of the centre of the tile, as text.
    pub centre_lat: String,
    /// The width of the tile, as text.
    pub width: String,
    /// The canonical filename of the stitched DEM of the tile.
    pub stitched_filename: String,
}

/// The arguments of the stitch command.
pub open spec fn stitch_args(job: &StitchJob) -> Seq<Seq<char>> {
    seq![
        "stitch"@,
        "--dems"@,
        job.dems@,
        "--centre"@,
        job.centre_lon@ + seq![','] + job.centre_lat@,
        "--width"@,
        job.width@,
        "--output-dir"@,
        job.tmp_directory@,
    ] + match job.scale {
        Some(scale) => seq!["--scale"@, scale@],
        None => Seq::empty(),
    }
}

/// The steps of a stitch job, in order: run the stitch command with `executable`, upload the
/// stitched DEM, and remove it.
pub open spec fn stitch_job_steps(job: &StitchJob, executable: Seq<char>) -> Seq<JobStepView> {
    let stitched = path_in(job.tmp_directory@, job.stitched_filename@);
    seq![
        JobStepView::Run(plain_command(executable, stitch_args(job))),
        JobStepView::SyncToS3 {
            source: stitched,
            destination: "s3://viewview/stitched/"@ + job.stitched_filename@,
        },
        JobStepView::RemoveFile(stitched),
    ]
}

impl StitchJob {
    /// The steps of the job, where `executable` is the program that stitches.
    pub fn steps(&self, executable: &str) -> (r: Vec<JobStep>)
        ensures
            steps_view(r@) == stitch_job_steps(self, executable@),
    {
        let mut args: Vec<String> = vec![
            text("stitch"),
            text("--dems"),
            self.dems.clone(),
            text("--centre"),
            coordinate_text(self.centre_lon.as_str(), self.centre_lat.as_str()),
            text("--width"),
            self.width.clone(),
            text("--output-dir"),
            self.tmp_directory.clone(),
        ];
        if let Some(scale) = &self.scale {
            args.push(text("--scale"));
            args.push(scale.clone());
        }
        proof {
            lemma_strings_view(args@, stitch_args(self));
        }
        let mut steps: Vec<JobStep> = Vec::new();
        steps.push(JobStep::Run(command(text(executable), args)));
        steps.push(
            JobStep::SyncToS3 {
                source: join_path(self.tmp_directory.as_str(), self.stitched_filename.as_str()),
                destination: text("s3://viewview/stitched/").concat(
                    self.stitched_filename.as_str(),
                ),
            },
        );
        steps.push(
            JobStep::RemoveFile(
                join_path(self.tmp_directory.as_str(), self.stitched_filename.as_str()),
            ),
        );
        assert(steps_view(steps@) =~= stitch_job_steps(self, executable@));
        steps
    }
}


/// A local tile job uploads nothing to S3.
pub proof fn lemma_local_run_uploads_nothing(job: &TileJob, dir: Seq<char>)
    requires
        job.is_local_run,
    ensures
        forall|i: int|
            0 <= i < tile_job_steps(job, dir).len() ==> !(tile_job_steps(job, dir)[i] is SyncToS3),
{
}

/// Every file that a tile job uploads lies in its job directory.
pub proof fn lemma_uploads_come_from_job_directory(job: &TileJob, dir: Seq<char>)
    ensures
        forall|i: int|
            0 <= i < tile_job_steps(job, dir).len() ==> (#[trigger] tile_job_steps(job, dir)[i] matches JobStepView::SyncToS3 { source, .. }
                ==> source.subrange(0, dir.len() + 1int) == dir + seq!['/']),
{
    let steps = tile_job_steps(job, dir);
    assert forall|i: int| 0 <= i < steps.len() implies (#[trigger] steps[i] matches JobStepView::SyncToS3 { source, .. }
        ==> source.subrange(0, dir.len() + 1int) == dir + seq!['/']) by {
        if i == 4 {
            assert(path_in(dir, LONGEST_LINES_COG@).subrange(0, dir.len() + 1int) =~= dir + seq!['/']);
        }
        if i == 5 {
            assert(path_in(dir, "total_surfaces.tiff"@).subrange(0, dir.len() + 1int) =~= dir + seq![
                '/',
            ]);
        }
    }
}

/// The line-of-sight kernel of a tile job reads the file that the job downloaded.
pub proof fn lemma_compute_reads_download(job: &TileJob, dir: Seq<char>)
    ensures
        tile_job_steps(job, dir)[1] matches JobStepView::SyncFromS3 { destination, .. }
            && tile_job_steps(job, dir)[2] matches JobStepView::Compute(c) && c.args[1]
            == destination,
{
}

/// The centre argument of the stitch command reads back, as the text of a coordinate, as the
/// longitude and latitude of the tile's centre, where these hold no comma and no leading or
/// trailing white space.
pub proof fn lemma_stitch_centre_reads_back(job: &StitchJob)
    requires
        has_no_comma(job.centre_lon@),
        has_no_comma(job.centre_lat@),
        is_trimmed(job.centre_lon@),
        is_trimmed(job.centre_lat@),
    ensures
        coordinate_fields(stitch_args(job)[4]) == Ok::<(Seq<char>, Seq<char>), CoordinateError>(
            (job.centre_lon@, job.centre_lat@),
        ),
{
    lemma_coordinate_text_roundtrip(job.centre_lon@, job.centre_lat@);
}

/// A tile job has four steps, and six where the run is not local: create directories,
/// download, compute, write the longest lines COG, then the two uploads.
pub proof fn lemma_tile_job_step_kinds(job: &TileJob, dir: Seq<char>)
    ensures
        tile_job_steps(job, dir).len() == if job.is_local_run {
            4int
        } else {
            6int
        },
        tile_job_steps(job, dir)[0] matches JobStepView::Run(c) && c.executable == "mkdir"@,
        tile_job_steps(job, dir)[1] is SyncFromS3,
        tile_job_steps(job, dir)[2] is Compute,
        tile_job_steps(job, dir)[3] is Run,
        !job.is_local_run ==> tile_job_steps(job, dir)[4] is SyncToS3 && tile_job_steps(
            job,
            dir,
        )[5] is SyncToS3,
{
}

/// The longest lines raster is converted by `gdal_translate` into the Cloud Optimised GeoTIFF
/// format (`-of COG`), from `longest_lines.tiff` into `longest_lines.cog.tiff` of the job
/// directory; where the run is not local, that very file is what is uploaded to the run's
/// `longest_lines_cogs` on S3.
pub proof fn lemma_longest_lines_written_as_cog(job: &TileJob, dir: Seq<char>)
    ensures
        tile_job_steps(job, dir)[3] matches JobStepView::Run(c) && c.executable
            == "/usr/bin/gdal_translate"@ && c.env.len() == 0 && c.args.len() >= 4 && c.args[0]
            == "-of"@ && c.args[1] == "COG"@ && c.args[c.args.len() - 2] == dir + seq!['/']
            + "longest_lines.tiff"@ && c.args[c.args.len() - 1] == dir + seq!['/']
            + "longest_lines.cog.tiff"@,
        !job.is_local_run ==> (tile_job_steps(job, dir)[4] matches JobStepView::SyncToS3 {
            source,
            destination,
        } && source == dir + seq!['/'] + "longest_lines.cog.tiff"@ && destination
            == "s3://viewview/runs/"@ + job.run_id@ + "/longest_lines_cogs/"@
            + job.tile_filename@),
        !job.is_local_run ==> (tile_job_steps(job, dir)[5] matches JobStepView::SyncToS3 {
            source,
            destination,
        } && source == dir + seq!['/'] + "total_surfaces.tiff"@ && destination
            == "s3://viewview/runs/"@ + job.run_id@ + "/raw/"@ + job.tile_filename@),
{
}

/// The line-of-sight kernel is given `--thread-count` and the thread count exactly when the
/// job sets one; otherwise its arguments are the nine fixed ones.
pub proof fn lemma_compute_thread_count(job: &TileJob, dir: Seq<char>)
    ensures
        tile_job_steps(job, dir)[2] matches JobStepView::Compute(c) && c.executable
            == job.tvs_executable@ && c.args[0] == "compute"@ && c.args[2] == "--output-dir"@
            && c.args[3] == dir && c.args[5] == "--backend"@ && c.args[6] == job.backend@
            && c.args[7] == "--process"@ && c.args[8] == "total-surfaces,longest-lines"@ && (
        match job.cpu_kernel_threads {
            None => c.args.len() == 9,
            Some(threads) => c.args.len() == 11 && c.args[9] == "--thread-count"@ && c.args[10]
                == threads@,
        }),
{
}

/// The stitch command is given `--scale` and the scale exactly when the job has a scale;
/// otherwise its arguments are the nine fixed ones, the last being the output directory.
pub proof fn lemma_stitch_scale(job: &StitchJob, executable: Seq<char>)
    ensures
        stitch_job_steps(job, executable)[0] matches JobStepView::Run(c) && c.executable
            == executable && c.env.len() == 0 && c.args[0] == "stitch"@ && c.args[1]
            == "--dems"@ && c.args[2] == job.dems@ && c.args[3] == "--centre"@ && c.args[5]
            == "--width"@ && c.args[6] == job.width@ && c.args[7] == "--output-dir"@
            && c.args[8] == job.tmp_directory@ && (match job.scale {
            None => c.args.len() == 9,
            Some(scale) => c.args.len() == 11 && c.args[9] == "--scale"@ && c.args[10]
                == scale@,
        }),
        job.scale is None ==> stitch_args(job).len() == 9,
{
}

/// The stitch job uploads the file it stitched into its temporary directory to the
/// `stitched` prefix on S3, then removes that local file.
pub proof fn lemma_stitch_uploads_then_removes(job: &StitchJob, executable: Seq<char>)
    ensures
        stitch_job_steps(job, executable).len() == 3,
        stitch_job_steps(job, executable)[1] matches JobStepView::SyncToS3 {
            source,
            destination,
        } && source == job.tmp_directory@ + seq!['/'] + job.stitched_filename@ && destination
            == "s3://viewview/stitched/"@ + job.stitched_filename@,
        stitch_job_steps(job, executable)[2] == JobStepView::RemoveFile(
            job.tmp_directory@ + seq!['/'] + job.stitched_filename@,
        ),
{
}

/// A tile job works in `work/local` for a local run, and otherwise in `work/` followed by
/// the time at which it started.
pub proof fn lemma_job_directory(is_local_run: bool, timestamp: Seq<char>)
    ensures
        is_local_run ==> job_directory_of(is_local_run, timestamp) == "work/local"@,
        !is_local_run ==> job_directory_of(is_local_run, timestamp) == "work/"@ + timestamp,
{
    reveal_strlit("work");
    reveal_strlit("local");
    reveal_strlit("work/");
    reveal_strlit("work/local");
    if is_local_run {
        assert(job_directory_of(is_local_run, timestamp) =~= "work/local"@);
    } else {
        assert(job_directory_of(is_local_run, timestamp) =~= "work/"@ + timestamp);
    }
}

/// A tile job first creates the `archive` and `longest_lines` directories inside its job
/// directory, then downloads the tile's stitched DEM into the job directory, and the cleanup
/// removes the job directory, recursively, and nothing else.
pub proof fn lemma_tile_job_directories(job: &TileJob, dir: Seq<char>)
    ensures
        tile_job_steps(job, dir)[0] matches JobStepView::Run(c) && c.args.len() == 3 && c.args[0]
            == "-p"@ && c.args[1] == dir + seq!['/'] + "archive"@ && c.args[2] == dir + seq!['/']
            + "longest_lines"@,
        tile_job_steps(job, dir)[1] matches JobStepView::SyncFromS3 { source, destination }
            && source == "s3://viewview/stitched/"@ + job.stitched_filename@ && destination == dir
            + seq!['/'] + job.stitched_filename@,
        cleanup_command(dir).executable == "rm"@,
        cleanup_command(dir).args == seq!["-r"@, dir],
        cleanup_command(dir).env.len() == 0,
{
}

/// The line-of-sight kernel runs with backtraces on and only its own tracing logged.
pub proof fn lemma_compute_environment(job: &TileJob, dir: Seq<char>)
    ensures
        tile_job_steps(job, dir)[2] matches JobStepView::Compute(c) && c.env == seq![
            ("RUST_BACKTRACE"@, "1"@),
            ("RUST_LOG"@, "off,total_viewsheds=trace"@),
        ] && c.args[1] == dir + seq!['/'] + job.stitched_filename@ && c.args[4]
            == "--disable-image-render"@,
{
}

} // verus!
