use vstd::prelude::*;

verus! {

/// Command-line arguments, as plain values.
pub struct Arguments {
    /// Path to a singular file or an entire directory.
    pub input: String,
    /// Must be a path to a singular file if the input is a singular file, and
    /// vice versa.
    pub output: String,
    /// Overwrite files at the output path.
    pub force: bool,
    /// Downsize the image according to `max_size`.
    pub downsize: bool,
    /// Must be specified if `downsize` is specified.
    pub max_size: Option<u32>,
}

/// What probing the file system said about the input and output paths.
#[derive(Clone, Copy)]
pub struct PathProbe {
    pub input_exists: bool,
    pub input_is_file: bool,
    pub output_is_file: bool,
    pub output_is_dir: bool,
}

/// A fatal validation failure; each variant names the input that causes it.
#[derive(Clone, Copy, PartialEq, Eq, Structural, Debug)]
pub enum RunError {
    /// The input path does not exist.
    InputMissing,
    /// Downsizing was requested without a maximum size.
    MaxSizeMissing,
    /// The maximum size is below the smallest permitted edge length.
    MaxSizeTooSmall,
    /// Single-file mode: the output file exists and overwriting is not forced.
    OutputOccupied,
    /// Single-file mode: the output path is a directory.
    OutputIsDir,
}

#[derive(Clone, Copy, PartialEq, Eq, Structural, Debug)]
pub enum RunMode {
    SingleFile,
    Batch,
}

/// A validated run: its mode, and whether to warn that `max_size` is not a
/// multiple of four (the padding step will round the result up).
#[derive(Clone, Copy, PartialEq, Eq, Structural, Debug)]
pub struct RunPlan {
    pub mode: RunMode,
    pub warn_max_size: bool,
}

/// The validation decision as a function of the arguments and the probe.
pub open spec fn plan_run_spec(
    downsize: bool,
    max_size: Option<u32>,
    force: bool,
    probe: PathProbe,
) -> Result<RunPlan, RunError> {
    if !probe.input_exists {
        Err(RunError::InputMissing)
    } else if downsize && max_size is None {
        Err(RunError::MaxSizeMissing)
    } else if downsize && max_size->Some_0 < 2 {
        Err(RunError::MaxSizeTooSmall)
    } else if probe.input_is_file && probe.output_is_file && !force {
        Err(RunError::OutputOccupied)
    } else if probe.input_is_file && probe.output_is_dir {
        Err(RunError::OutputIsDir)
    } else {
        Ok(
            RunPlan {
                mode: if probe.input_is_file {
                    RunMode::SingleFile
                } else {
                    RunMode::Batch
                },
                warn_max_size: downsize && max_size->Some_0 % 4 != 0,
            },
        )
    }
}

/// Validates a run before any work is dispatched: the input must exist, and
/// downsizing needs a maximum size of at least two; in single-file mode an
/// occupied, unforced output or a directory output is fatal.
pub fn plan_run(args: &Arguments, probe: &PathProbe) -> (r: Result<RunPlan, RunError>)
    ensures
        r == plan_run_spec(args.downsize, args.max_size, args.force, *probe),
{
    if !probe.input_exists {
        return Err(RunError::InputMissing);
    }
    if args.downsize {
        match args.max_size {
            None => {
                return Err(RunError::MaxSizeMissing);
            },
            Some(max_size) => {
                if max_size < 2 {
                    return Err(RunError::MaxSizeTooSmall);
                }
            },
        }
    }
    if probe.input_is_file {
        if probe.output_is_file && !args.force {
            return Err(RunError::OutputOccupied);
        }
        if probe.output_is_dir {
            return Err(RunError::OutputIsDir);
        }
    }
    let warn_max_size = args.downsize && match args.max_size {
        Some(max_size) => max_size % 4 != 0,
        None => false,
    };
    Ok(
        RunPlan {
            mode: if probe.input_is_file {
                RunMode::SingleFile
            } else {
                RunMode::Batch
            },
            warn_max_size,
        },
    )
}

/// What enumeration learned about one directory entry: whether its metadata
/// could be read, and whether its mirrored output path is already a file.
#[derive(Clone, Copy)]
pub struct EntryInfo {
    pub readable: bool,
    pub output_occupied: bool,
}

/// An entry is dispatched to a worker only when its metadata was readable and
/// its output is not an unforced, already-existing file.
pub open spec fn dispatchable(e: EntryInfo, force: bool) -> bool {
    e.readable && !(e.output_occupied && !force)
}

/// Indices of the dispatchable entries, in directory order.
pub open spec fn selected_indices(s: Seq<EntryInfo>, force: bool) -> Seq<int>
    decreases s.len(),
{
    if s.len() == 0 {
        Seq::empty()
    } else if dispatchable(s.last(), force) {
        selected_indices(s.drop_last(), force).push(s.len() - 1)
    } else {
        selected_indices(s.drop_last(), force)
    }
}

/// Sequential collision pre-check: keeps exactly the entries a worker will be
/// started for, in directory order, before any worker runs.
pub fn select_entries(entries: &Vec<EntryInfo>, force: bool) -> (r: Vec<usize>)
    ensures
        r@.map_values(|u: usize| u as int) == selected_indices(entries@, force),
{
    let mut selected: Vec<usize> = Vec::new();
    let mut i: usize = 0;
    while i < entries.len()
        invariant
            i <= entries.len(),
            selected@.map_values(|u: usize| u as int) == selected_indices(
                entries@.take(i as int),
                force,
            ),
        decreases entries.len() - i,
    {
        let e = entries[i];
        let ghost prefix = entries@.take(i as int);
        let ghost prefix_next = entries@.take(i as int + 1);
        proof {
            assert(prefix_next.drop_last() =~= prefix);
            assert(prefix_next.last() == entries@[i as int]);
        }
        if e.readable && !(e.output_occupied && !force) {
            let ghost before = selected@;
            selected.push(i);
            proof {
                assert(selected@.map_values(|u: usize| u as int) =~= before.map_values(
                    |u: usize| u as int,
                ).push(i as int));
            }
        }
        i += 1;
    }
    proof {
        assert(entries@.take(entries@.len() as int) =~= entries@);
    }
    selected
}

/// Every selected index is in range and dispatchable, and every dispatchable
/// index is selected: the skip policy drops nothing else.
pub proof fn lemma_selected_indices_exact(s: Seq<EntryInfo>, force: bool)
    ensures
        forall|k: int|
            0 <= k < selected_indices(s, force).len() ==> {
                let i = #[trigger] selected_indices(s, force)[k];
                0 <= i < s.len() && dispatchable(s[i], force)
            },
        forall|i: int|
            0 <= i < s.len() && dispatchable(s[i], force) ==> selected_indices(
                s,
                force,
            ).contains(i),
    decreases s.len(),
{
    if s.len() > 0 {
        lemma_selected_indices_exact(s.drop_last(), force);
        let sel = selected_indices(s, force);
        let pre = selected_indices(s.drop_last(), force);
        assert forall|i: int| 0 <= i < s.len() && dispatchable(s[i], force) implies sel.contains(
            i,
        ) by {
            if i < s.len() - 1 {
                assert(s.drop_last()[i] == s[i]);
                assert(pre.contains(i));
                let k = choose|k: int| 0 <= k < pre.len() && pre[k] == i;
                assert(sel[k] == i);
            } else {
                assert(sel.last() == i);
            }
        }
        assert forall|k: int| 0 <= k < sel.len() implies {
            let i = #[trigger] sel[k];
            0 <= i < s.len() && dispatchable(s[i], force)
        } by {
            if k < pre.len() {
                assert(sel[k] == pre[k]);
                assert(s.drop_last()[pre[k]] == s[pre[k]]);
            }
        }
    }
}

/// How a decode attempt failed, as classified by the codec boundary.
#[derive(Clone, Copy, PartialEq, Eq, Structural, Debug)]
pub enum DecodeFailure {
    /// The entry is not a regular file (for example a sub-directory).
    NotAFile,
    /// The codec does not recognise the format.
    NotAnImage,
    /// The data looks like an image but cannot be decoded.
    Corrupt,
    /// Reading the input failed.
    IoFailure,
}

/// Why one worker's file could not be processed.
#[derive(Clone, Copy, PartialEq, Eq, Structural, Debug)]
pub enum PipelineFailure {
    Decode(DecodeFailure),
    /// Encoding or writing the output failed.
    Encode,
}

/// A failure is swallowed silently exactly when the entry was not an image
/// file to begin with: directories and foreign file types are expected in a
/// mixed input directory. Everything else is logged; no failure ever aborts
/// sibling workers.
pub fn failure_is_silent(failure: &PipelineFailure) -> (r: bool)
    ensures
        r == (failure == PipelineFailure::Decode(DecodeFailure::NotAFile) || failure
            == PipelineFailure::Decode(DecodeFailure::NotAnImage)),
{
    match failure {
        PipelineFailure::Decode(DecodeFailure::NotAFile) => true,
        PipelineFailure::Decode(DecodeFailure::NotAnImage) => true,
        _ => false,
    }
}

} // verus!
