//! The manifest builder: given the ordered chunks, a workspace location and
//! the static job options, lays out the per-chunk input and output artifact
//! paths and produces the declarative job descriptor that is submitted to
//! the backend. The builder computes the layout only; executing the
//! filesystem plan is the caller's concern.

use vstd::prelude::*;
use crate::text::dec_rep;
use crate::text::push_char;
use crate::text::u64_to_dec;
use crate::timeout::Timeout;

verus! {

/// The static job options, passed through to the descriptor verbatim.
pub struct GolemOpt {
    /// Bid value for the task, as the caller wrote it.
    pub bid: String,
    /// Task-level timeout.
    pub task_timeout: Timeout,
    /// Subtask-level timeout.
    pub subtask_timeout: Timeout,
}

/// The shared workload payload: the execution stub and the binary module,
/// carried into the workspace unmodified and never interpreted.
pub struct WorkloadPayload {
    pub js: Vec<u8>,
    pub wasm: Vec<u8>,
}

/// The workspace root: either a caller-supplied directory, left intact for
/// inspection, or an ephemeral one the caller deletes when the run ends.
pub enum Workspace {
    UserSpecified(String),
    Ephemeral(String),
}

impl Workspace {
    /// The directory path of the workspace.
    pub open spec fn path_spec(&self) -> Seq<char> {
        match self {
            Workspace::UserSpecified(p) => p@,
            Workspace::Ephemeral(p) => p@,
        }
    }

    /// Whether the workspace is deleted when the run's scope exits.
    pub open spec fn is_ephemeral_spec(&self) -> bool {
        self matches Workspace::Ephemeral(_)
    }

    /// The directory path of the workspace.
    pub fn path(&self) -> (p: &str)
        ensures
            p@ == self.path_spec(),
    {
        match self {
            Workspace::UserSpecified(p) => p.as_str(),
            Workspace::Ephemeral(p) => p.as_str(),
        }
    }

    /// Whether the workspace is deleted when the run's scope exits.
    pub fn is_ephemeral(&self) -> (b: bool)
        ensures
            b == self.is_ephemeral_spec(),
    {
        match self {
            Workspace::UserSpecified(_) => false,
            Workspace::Ephemeral(_) => true,
        }
    }

    /// The workspace path as an owned string, for display.
    pub fn display_string(&self) -> (s: String)
        ensures
            s@ == self.path_spec(),
    {
        String::from_str(self.path())
    }
}

/// Joins two path components with a single separator.
pub open spec fn path_join(a: Seq<char>, b: Seq<char>) -> Seq<char> {
    a + seq!['/'] + b
}

/// Joins two path components with a single separator.
fn join_path(a: &str, b: &str) -> (r: String)
    ensures
        r@ == path_join(a@, b@),
{
    let mut r: String = String::from_str(a);
    push_char(&mut r, '/');
    r.append(b);
    proof {
        assert(r@ =~= path_join(a@, b@));
    }
    r
}

/// The name of the `k`-th subtask.
pub open spec fn subtask_name_chars(k: nat) -> Seq<char> {
    "subtask"@ + dec_rep(k)
}

/// Renders the name of the `k`-th subtask.
fn subtask_name(k: u64) -> (r: String)
    ensures
        r@ == subtask_name_chars(k as nat),
{
    let mut r: String = String::from_str("subtask");
    let d: String = u64_to_dec(k);
    r.append(d.as_str());
    r
}

/// One subtask of the descriptor: where its input artifact is written,
/// where its result artifact is expected, and the execution arguments the
/// workload is invoked with.
pub struct Subtask {
    /// The subtask's name, `subtask<k>` for chunk index `k`.
    pub name: String,
    /// The chunk text this subtask converts.
    pub data: String,
    /// Directory holding the subtask's input artifact.
    pub input_dir: String,
    /// Path of the input artifact.
    pub input_file: String,
    /// Directory the backend fills with the result artifact.
    pub output_dir: String,
    /// Expected path of the result artifact.
    pub output_file: String,
    /// First execution argument: the input artifact's name.
    pub input_name: String,
    /// Second execution argument: the expected output artifact's name.
    pub output_name: String,
}

/// The layout the descriptor promises for subtask `k` with chunk text
/// `data`, under the given input and output roots.
pub open spec fn subtask_wf(
    s: Subtask,
    input_root: Seq<char>,
    output_root: Seq<char>,
    k: nat,
    data: Seq<char>,
) -> bool {
    &&& s.name@ == subtask_name_chars(k)
    &&& s.data@ == data
    &&& s.input_dir@ == path_join(input_root, subtask_name_chars(k))
    &&& s.output_dir@ == path_join(output_root, subtask_name_chars(k))
    &&& s.input_name@ == "in.txt"@
    &&& s.output_name@ == "in.wav"@
    &&& s.input_file@ == path_join(s.input_dir@, "in.txt"@)
    &&& s.output_file@ == path_join(s.output_dir@, "in.wav"@)
}

/// The job descriptor: built once per run, immutable afterwards, owned by
/// the lifecycle controller for the duration of submission.
pub struct Task {
    /// The job's name.
    pub name: String,
    /// Bid value, verbatim from the options.
    pub bid: String,
    /// Task-level timeout, rendered "HH:MM:SS".
    pub task_timeout: String,
    /// Subtask-level timeout, rendered "HH:MM:SS".
    pub subtask_timeout: String,
    /// Name of the execution stub inside the input directory.
    pub js_name: String,
    /// Name of the binary module inside the input directory.
    pub wasm_name: String,
    /// The workspace's input area.
    pub input_dir: String,
    /// The workspace's output area.
    pub output_dir: String,
    /// The execution stub's bytes, verbatim.
    pub js: Vec<u8>,
    /// The binary module's bytes, verbatim.
    pub wasm: Vec<u8>,
    /// The subtasks, in original chunk order.
    pub subtasks: Vec<Subtask>,
    /// The expected result artifact paths, in original chunk order.
    pub expected_output_paths: Vec<String>,
}

/// Builds the job descriptor for one run.
pub struct TaskBuilder {
    pub bid: String,
    pub task_timeout: String,
    pub subtask_timeout: String,
    pub js_name: String,
    pub wasm_name: String,
    pub input_dir_path: String,
    pub output_dir_path: String,
    pub payload: WorkloadPayload,
    pub subtasks: Vec<String>,
}

impl TaskBuilder {
    /// Starts a builder over the given workspace: the input area is the
    /// workspace's `in` directory and the output area its `out` directory;
    /// bid and timeouts are taken from the options verbatim.
    pub fn new(workspace: &str, opt: GolemOpt, payload: WorkloadPayload) -> (b: TaskBuilder)
        requires
            opt.task_timeout.wf(),
            opt.subtask_timeout.wf(),
        ensures
            b.bid == opt.bid,
            b.task_timeout@ == opt.task_timeout.chars(),
            b.subtask_timeout@ == opt.subtask_timeout.chars(),
            b.js_name@ == "flite.js"@,
            b.wasm_name@ == "flite.wasm"@,
            b.input_dir_path@ == path_join(workspace@, "in"@),
            b.output_dir_path@ == path_join(workspace@, "out"@),
            b.payload == payload,
            b.subtasks@.len() == 0,
    {
        TaskBuilder {
            bid: opt.bid,
            task_timeout: opt.task_timeout.to_string(),
            subtask_timeout: opt.subtask_timeout.to_string(),
            js_name: String::from_str("flite.js"),
            wasm_name: String::from_str("flite.wasm"),
            input_dir_path: join_path(workspace, "in"),
            output_dir_path: join_path(workspace, "out"),
            payload,
            subtasks: Vec::new(),
        }
    }

    /// Appends one chunk's text as the next subtask.
    pub fn add_subtask(&mut self, data: String)
        ensures
            final(self).subtasks@ == old(self).subtasks@.push(data),
            final(self).bid == old(self).bid,
            final(self).task_timeout == old(self).task_timeout,
            final(self).subtask_timeout == old(self).subtask_timeout,
            final(self).js_name == old(self).js_name,
            final(self).wasm_name == old(self).wasm_name,
            final(self).input_dir_path == old(self).input_dir_path,
            final(self).output_dir_path == old(self).output_dir_path,
            final(self).payload == old(self).payload,
    {
        self.subtasks.push(data);
    }

    /// Lays out every subtask and produces the descriptor: subtask `k` is
    /// named `subtask<k>`, reads `in.txt` from its own directory under the
    /// input area, and is expected to leave `in.wav` in its own directory
    /// under the output area; options and payload pass through verbatim.
    pub fn build(self) -> (t: Task)
        ensures
            t.name@ == "g_flite"@,
            t.bid == self.bid,
            t.task_timeout == self.task_timeout,
            t.subtask_timeout == self.subtask_timeout,
            t.js_name == self.js_name,
            t.wasm_name == self.wasm_name,
            t.input_dir == self.input_dir_path,
            t.output_dir == self.output_dir_path,
            t.js == self.payload.js,
            t.wasm == self.payload.wasm,
            t.subtasks@.len() == self.subtasks@.len(),
            forall|k: int|
                0 <= k < self.subtasks@.len() ==> subtask_wf(
                    #[trigger] t.subtasks@[k],
                    self.input_dir_path@,
                    self.output_dir_path@,
                    k as nat,
                    self.subtasks@[k]@,
                ),
            t.expected_output_paths@.len() == self.subtasks@.len(),
            forall|k: int|
                0 <= k < self.subtasks@.len() ==> (#[trigger] t.expected_output_paths@[k])@
                    == path_join(
                    path_join(self.output_dir_path@, subtask_name_chars(k as nat)),
                    "in.wav"@,
                ),
    {
        let mut subtasks: Vec<Subtask> = Vec::new();
        let mut expected_output_paths: Vec<String> = Vec::new();
        let count: usize = self.subtasks.len();
        let mut k: usize = 0;
        while k < count
            invariant
                k <= count,
                count == self.subtasks@.len(),
                subtasks@.len() == k,
                expected_output_paths@.len() == k,
                forall|j: int|
                    0 <= j < k ==> subtask_wf(
                        #[trigger] subtasks@[j],
                        self.input_dir_path@,
                        self.output_dir_path@,
                        j as nat,
                        self.subtasks@[j]@,
                    ),
                forall|j: int|
                    0 <= j < k ==> (#[trigger] expected_output_paths@[j])@ == path_join(
                        path_join(self.output_dir_path@, subtask_name_chars(j as nat)),
                        "in.wav"@,
                    ),
            decreases count - k,
        {
            let name: String = subtask_name(k as u64);
            let input_dir: String = join_path(self.input_dir_path.as_str(), name.as_str());
            let output_dir: String = join_path(self.output_dir_path.as_str(), name.as_str());
            let input_file: String = join_path(input_dir.as_str(), "in.txt");
            let output_file: String = join_path(output_dir.as_str(), "in.wav");
            let expected: String = output_file.clone();
            let data: String = self.subtasks[k].clone();
            let sub = Subtask {
                name,
                data,
                input_dir,
                input_file,
                output_dir,
                output_file,
                input_name: String::from_str("in.txt"),
                output_name: String::from_str("in.wav"),
            };
            subtasks.push(sub);
            expected_output_paths.push(expected);
            k = k + 1;
        }
        Task {
            name: String::from_str("g_flite"),
            bid: self.bid,
            task_timeout: self.task_timeout,
            subtask_timeout: self.subtask_timeout,
            js_name: self.js_name,
            wasm_name: self.wasm_name,
            input_dir: self.input_dir_path,
            output_dir: self.output_dir_path,
            js: self.payload.js,
            wasm: self.payload.wasm,
            subtasks,
            expected_output_paths,
        }
    }
}

} // verus!
