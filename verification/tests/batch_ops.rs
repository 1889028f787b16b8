use sprite_norm::batch::{
    Arguments, DecodeFailure, EntryInfo, PathProbe, PipelineFailure, RunError, RunMode,
    failure_is_silent, plan_run, select_entries,
};

fn args(force: bool, downsize: bool, max_size: Option<u32>) -> Arguments {
    Arguments {
        input: String::from("in"),
        output: String::from("out"),
        force,
        downsize,
        max_size,
    }
}

fn probe(input_exists: bool, input_is_file: bool, output_is_file: bool, output_is_dir: bool) -> PathProbe {
    PathProbe { input_exists, input_is_file, output_is_file, output_is_dir }
}

#[test]
fn plan_rejects_missing_input() {
    let r = plan_run(&args(false, false, None), &probe(false, false, false, false));
    assert_eq!(r, Err(RunError::InputMissing));
}

#[test]
fn plan_rejects_downsize_without_max_size() {
    let r = plan_run(&args(false, true, None), &probe(true, true, false, false));
    assert_eq!(r, Err(RunError::MaxSizeMissing));
}

#[test]
fn plan_rejects_max_size_below_two() {
    let r = plan_run(&args(false, true, Some(1)), &probe(true, true, false, false));
    assert_eq!(r, Err(RunError::MaxSizeTooSmall));
}

#[test]
fn plan_rejects_occupied_output_without_force() {
    let r = plan_run(&args(false, false, None), &probe(true, true, true, false));
    assert_eq!(r, Err(RunError::OutputOccupied));
}

#[test]
fn plan_allows_occupied_output_with_force() {
    let r = plan_run(&args(true, false, None), &probe(true, true, true, false));
    let plan = r.unwrap();
    assert_eq!(plan.mode, RunMode::SingleFile);
    assert!(!plan.warn_max_size);
}

#[test]
fn plan_rejects_directory_output_for_file_input() {
    let r = plan_run(&args(false, false, None), &probe(true, true, false, true));
    assert_eq!(r, Err(RunError::OutputIsDir));
}

#[test]
fn plan_batch_mode_for_directory_input() {
    let r = plan_run(&args(false, false, None), &probe(true, false, false, true));
    let plan = r.unwrap();
    assert_eq!(plan.mode, RunMode::Batch);
}

#[test]
fn plan_warns_when_max_size_not_multiple_of_four() {
    let r = plan_run(&args(false, true, Some(238)), &probe(true, false, false, false));
    assert!(r.unwrap().warn_max_size);
    let r = plan_run(&args(false, true, Some(240)), &probe(true, false, false, false));
    assert!(!r.unwrap().warn_max_size);
}

#[test]
fn occupied_entry_skipped_without_force_sibling_kept() {
    let entries = vec![
        EntryInfo { readable: true, output_occupied: true },
        EntryInfo { readable: true, output_occupied: false },
    ];
    let selected = select_entries(&entries, false);
    assert_eq!(selected, vec![1]);
}

#[test]
fn occupied_entry_kept_with_force() {
    let entries = vec![
        EntryInfo { readable: true, output_occupied: true },
        EntryInfo { readable: true, output_occupied: false },
    ];
    let selected = select_entries(&entries, true);
    assert_eq!(selected, vec![0, 1]);
}

#[test]
fn unreadable_entry_skipped() {
    let entries = vec![
        EntryInfo { readable: false, output_occupied: false },
        EntryInfo { readable: true, output_occupied: false },
    ];
    let selected = select_entries(&entries, false);
    assert_eq!(selected, vec![1]);
}

#[test]
fn non_image_entry_fails_silently() {
    assert!(failure_is_silent(&PipelineFailure::Decode(DecodeFailure::NotAnImage)));
    assert!(failure_is_silent(&PipelineFailure::Decode(DecodeFailure::NotAFile)));
}

#[test]
fn real_failures_are_reported() {
    assert!(!failure_is_silent(&PipelineFailure::Decode(DecodeFailure::Corrupt)));
    assert!(!failure_is_silent(&PipelineFailure::Decode(DecodeFailure::IoFailure)));
    assert!(!failure_is_silent(&PipelineFailure::Encode));
}
