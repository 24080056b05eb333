use viewview::jobs::{JobStep, StitchJob, TileJob};

fn tile_job(local: bool, threads: Option<&str>) -> TileJob {
    TileJob {
        run_id: "run-1".to_owned(),
        is_local_run: local,
        enable_cleanup: true,
        backend: "vulkan".to_owned(),
        cpu_kernel_threads: threads.map(str::to_owned),
        tvs_executable: "/bin/tvs".to_owned(),
        stitched_filename: "stitched.bt".to_owned(),
        tile_filename: "tile.tiff".to_owned(),
    }
}

fn args(step: &JobStep) -> Vec<String> {
    match step {
        JobStep::Run(c) | JobStep::Compute(c) => c.args.clone(),
        _ => panic!("not a command"),
    }
}

#[test]
fn job_directory() {
    assert_eq!(tile_job(true, None).job_directory("123"), "work/local");
    assert_eq!(tile_job(false, None).job_directory("123"), "work/123");
}

#[test]
fn tile_job_steps() {
    let job = tile_job(false, Some("8"));
    let steps = job.steps("work/123");
    assert_eq!(steps.len(), 6);
    assert_eq!(args(&steps[0]), ["-p", "work/123/archive", "work/123/longest_lines"]);
    match &steps[1] {
        JobStep::SyncFromS3 { source, destination } => {
            assert_eq!(source, "s3://viewview/stitched/stitched.bt");
            assert_eq!(destination, "work/123/stitched.bt");
        }
        _ => panic!("expected a download"),
    }
    match &steps[2] {
        JobStep::Compute(c) => {
            assert_eq!(c.executable, "/bin/tvs");
            assert_eq!(
                c.args,
                [
                    "compute",
                    "work/123/stitched.bt",
                    "--output-dir",
                    "work/123",
                    "--disable-image-render",
                    "--backend",
                    "vulkan",
                    "--process",
                    "total-surfaces,longest-lines",
                    "--thread-count",
                    "8"
                ]
            );
            assert_eq!(
                c.env,
                [
                    ("RUST_BACKTRACE".to_owned(), "1".to_owned()),
                    ("RUST_LOG".to_owned(), "off,total_viewsheds=trace".to_owned())
                ]
            );
        }
        _ => panic!("expected the computation"),
    }
    let cog = args(&steps[3]);
    assert_eq!(cog[0], "-of");
    assert_eq!(cog[12], "work/123/longest_lines.tiff");
    assert_eq!(cog[13], "work/123/longest_lines.cog.tiff");
    match &steps[4] {
        JobStep::SyncToS3 { source, destination } => {
            assert_eq!(source, "work/123/longest_lines.cog.tiff");
            assert_eq!(destination, "s3://viewview/runs/run-1/longest_lines_cogs/tile.tiff");
        }
        _ => panic!("expected an upload"),
    }
    match &steps[5] {
        JobStep::SyncToS3 { source, destination } => {
            assert_eq!(source, "work/123/total_surfaces.tiff");
            assert_eq!(destination, "s3://viewview/runs/run-1/raw/tile.tiff");
        }
        _ => panic!("expected an upload"),
    }
}

#[test]
fn local_tile_job_uploads_nothing() {
    let job = tile_job(true, None);
    let steps = job.steps("work/local");
    assert_eq!(steps.len(), 4);
    assert!(steps.iter().all(|s| !matches!(s, JobStep::SyncToS3 { .. })));
    assert_eq!(args(&steps[2]).len(), 9);
}

#[test]
fn cleanup_command() {
    let job = tile_job(false, None);
    let c = job.cleanup("work/123").unwrap();
    assert_eq!(c.executable, "rm");
    assert_eq!(c.args, ["-r", "work/123"]);
    let mut job = tile_job(false, None);
    job.enable_cleanup = false;
    assert!(job.cleanup("work/123").is_none());
}

#[test]
fn stitch_job_steps() {
    let job = StitchJob {
        dems: "dems".to_owned(),
        tmp_directory: "/tmp/s".to_owned(),
        scale: Some("100".to_owned()),
        centre_lon: "-2.5".to_owned(),
        centre_lat: "51.4".to_owned(),
        width: "1000".to_owned(),
        stitched_filename: "a.bt".to_owned(),
    };
    let steps = job.steps("/bin/tasks");
    assert_eq!(steps.len(), 3);
    match &steps[0] {
        JobStep::Run(c) => {
            assert_eq!(c.executable, "/bin/tasks");
            assert_eq!(
                c.args,
                [
                    "stitch", "--dems", "dems", "--centre", "-2.5,51.4", "--width", "1000",
                    "--output-dir", "/tmp/s", "--scale", "100"
                ]
            );
            assert!(c.env.is_empty());
        }
        _ => panic!("expected the stitch command"),
    }
    match &steps[1] {
        JobStep::SyncToS3 { source, destination } => {
            assert_eq!(source, "/tmp/s/a.bt");
            assert_eq!(destination, "s3://viewview/stitched/a.bt");
        }
        _ => panic!("expected an upload"),
    }
    match &steps[2] {
        JobStep::RemoveFile(path) => assert_eq!(path, "/tmp/s/a.bt"),
        _ => panic!("expected a removal"),
    }
}
