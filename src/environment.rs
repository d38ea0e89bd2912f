//! Locating the project root and the interpreter, and the paths and command
//! lines of one run.
use vstd::prelude::*;
use crate::text::views;
use crate::workspace::{join, join_path};

verus! {

/// Whether `c` is white space in Unicode's sense.
pub uninterp spec fn whitespace(c: char) -> bool;

/// Relies on `char::is_whitespace`, a function of the character alone.
#[verifier::external_body]
fn is_whitespace(c: char) -> (r: bool)
    ensures
        r == whitespace(c),
{
    c.is_whitespace()
}

/// Whether `s` holds nothing but white space.
pub fn is_blank(s: &String) -> (r: bool)
    ensures
        r == forall|i: int| 0 <= i < s@.len() ==> whitespace(#[trigger] s@[i]),
{
    let n = s.as_str().unicode_len();
    let mut i: usize = 0;
    while i < n
        invariant
            n == s@.len(),
            i <= n,
            forall|j: int| 0 <= j < i ==> whitespace(#[trigger] s@[j]),
        decreases n - i,
    {
        if !is_whitespace(s.as_str().get_char(i)) {
            return false;
        }
        i = i + 1;
    }
    true
}

fn lit(s: &str) -> (r: String)
    ensures
        r@ == s@,
{
    String::from_str(s)
}

/// `a/b/c`.
pub open spec fn join3(a: Seq<char>, b: Seq<char>, c: Seq<char>) -> Seq<char> {
    join(join(a, b), c)
}

fn join3_path(a: &String, b: &str, c: &str) -> (r: String)
    ensures
        r@ == join3(a@, b@, c@),
{
    join_path(&join_path(a, &lit(b)), &lit(c))
}

/// The detection stage's entry point under `root`.
pub open spec fn detection_entry(root: Seq<char>) -> Seq<char> {
    join3(root, "yolov8"@, "run.py"@)
}

/// The judgment stage's entry point under `root`.
pub open spec fn judgment_entry(root: Seq<char>) -> Seq<char> {
    join3(root, "gemini"@, "run.py"@)
}

pub fn detection_entry_path(root: &String) -> (r: String)
    ensures
        r@ == detection_entry(root@),
{
    join3_path(root, "yolov8", "run.py")
}

pub fn judgment_entry_path(root: &String) -> (r: String)
    ensures
        r@ == judgment_entry(root@),
{
    join3_path(root, "gemini", "run.py")
}

/// How many ancestors of the working directory are searched.
pub const ANCESTOR_DEPTH: usize = 5;

/// Where the project root is looked for, in order: the configured root, the
/// working directory, then its ancestors, nearest first, at most five.
pub fn root_candidates(configured: &String, cwd: &String, ancestors: &Vec<String>) -> (r: Vec<
    String,
>)
    ensures
        r@.len() >= 2,
        r@[0] == configured,
        r@[1] == cwd,
        r@.len() == 2 + if ancestors@.len() < 5 {
            ancestors@.len() as int
        } else {
            5
        },
        forall|i: int| 2 <= i < r@.len() ==> r@[i] == ancestors@[i - 2],
{
    let mut r: Vec<String> = Vec::new();
    r.push(configured.clone());
    r.push(cwd.clone());
    let mut i: usize = 0;
    while i < ancestors.len() && i < ANCESTOR_DEPTH
        invariant
            i <= ancestors@.len(),
            i <= 5,
            r@.len() == 2 + i,
            r@[0] == configured,
            r@[1] == cwd,
            forall|k: int| 2 <= k < r@.len() ==> r@[k] == ancestors@[k - 2],
        decreases ancestors@.len() - i,
    {
        r.push(ancestors[i].clone());
        i = i + 1;
    }
    r
}

/// `dir` holds both stages' entry points, by the list of paths found present.
pub open spec fn is_repo_root(dir: Seq<char>, present: Seq<String>) -> bool {
    views(present).contains(detection_entry(dir)) && views(present).contains(judgment_entry(dir))
}

/// Whether `dir` holds both stages' entry points, given the paths that were
/// found to exist.
pub fn looks_like_repo_root(dir: &String, present: &Vec<String>) -> (r: bool)
    ensures
        r == is_repo_root(dir@, present@),
{
    crate::names::contains_name(present, &detection_entry_path(dir))
        && crate::names::contains_name(present, &judgment_entry_path(dir))
}

/// The first candidate that holds both entry points; candidates earlier in
/// the list take precedence.
pub fn resolve_project_root(candidates: &Vec<String>, present: &Vec<String>) -> (r: Option<
    String,
>)
    ensures
        match r {
            Some(root) => exists|i: int|
                0 <= i < candidates@.len() && candidates@[i] == root && is_repo_root(root@, present@)
                    && forall|j: int|
                    0 <= j < i ==> !is_repo_root(#[trigger] candidates@[j]@, present@),
            None => forall|j: int|
                0 <= j < candidates@.len() ==> !is_repo_root(#[trigger] candidates@[j]@, present@),
        },
{
    let mut i: usize = 0;
    while i < candidates.len()
        invariant
            i <= candidates@.len(),
            forall|j: int| 0 <= j < i ==> !is_repo_root(#[trigger] candidates@[j]@, present@),
        decreases candidates@.len() - i,
    {
        if looks_like_repo_root(&candidates[i], present) {
            return Some(candidates[i].clone());
        }
        i = i + 1;
    }
    None
}

/// Interpreters to try, in order: the virtual environment under the root in
/// its two layouts, the configured one unless blank, then `python3` and
/// `python`.
pub open spec fn interpreter_list(root: Seq<char>, configured: Seq<char>) -> Seq<Seq<char>> {
    let venv = join(root, ".venv"@);
    let head = seq![join3(venv, "bin"@, "python"@), join3(venv, "Scripts"@, "python.exe"@)];
    let middle = if forall|i: int| 0 <= i < configured.len() ==> whitespace(#[trigger] configured[i]) {
        seq![]
    } else {
        seq![configured]
    };
    head + middle + seq!["python3"@, "python"@]
}

pub fn interpreter_candidates(root: &String, configured: &String) -> (r: Vec<String>)
    ensures
        views(r@) == interpreter_list(root@, configured@),
{
    let venv = join_path(root, &lit(".venv"));
    let mut r: Vec<String> = Vec::new();
    r.push(join3_path(&venv, "bin", "python"));
    r.push(join3_path(&venv, "Scripts", "python.exe"));
    if !is_blank(configured) {
        r.push(configured.clone());
    }
    r.push(lit("python3"));
    r.push(lit("python"));
    assert(views(r@) =~= interpreter_list(root@, configured@));
    r
}

/// The first candidate whose version probe answered: `responded[i]` tells
/// whether `candidates[i]` did; a candidate without an answer counts as
/// silent.
pub fn first_responding(candidates: &Vec<String>, responded: &Vec<bool>) -> (r: Option<String>)
    ensures
        match r {
            Some(c) => exists|i: int|
                0 <= i < candidates@.len() && i < responded@.len() && responded@[i]
                    && candidates@[i] == c && forall|j: int|
                    0 <= j < i && j < responded@.len() ==> !#[trigger] responded@[j],
            None => forall|j: int|
                0 <= j < candidates@.len() && j < responded@.len() ==> !#[trigger] responded@[j],
        },
{
    let mut i: usize = 0;
    while i < candidates.len() && i < responded.len()
        invariant
            i <= candidates@.len(),
            forall|j: int| 0 <= j < i && j < responded@.len() ==> !#[trigger] responded@[j],
        decreases candidates@.len() - i,
    {
        if responded[i] {
            return Some(candidates[i].clone());
        }
        i = i + 1;
    }
    None
}

/// How a program is to be started.
pub struct Invocation {
    pub program: String,
    pub args: Vec<String>,
    pub workdir: String,
}

/// Everything one run reads and writes, derived from the project root, the
/// interpreter, the weights' path and the run identifier.
pub struct RunPlan {
    pub root: String,
    pub interpreter: String,
    pub weights: String,
    pub input_dir: String,
    pub staging_dir: String,
    pub output_dir: String,
    pub results_dir: String,
    pub results_file: String,
    pub detection: Invocation,
    pub judgment: Invocation,
}

pub open spec fn results_file_name(run_id: Seq<char>) -> Seq<char> {
    "result_"@ + run_id + ".json"@
}

impl RunPlan {
    /// The plan's paths and command lines are those of the run `run_id`.
    pub open spec fn describes(
        &self,
        root: Seq<char>,
        interpreter: Seq<char>,
        weights: Seq<char>,
        run_id: Seq<char>,
    ) -> bool {
        let work = join(root, ".runner_work"@);
        &&& self.root@ == root
        &&& self.interpreter@ == interpreter
        &&& self.weights@ == join(root, weights)
        &&& self.input_dir@ == join(root, "input_images"@)
        &&& self.staging_dir@ == join(work, "input"@)
        &&& self.output_dir@ == join3(work, "bbox"@, run_id)
        &&& self.results_dir@ == join(root, "results"@)
        &&& self.results_file@ == join(self.results_dir@, results_file_name(run_id))
        &&& self.detection.program@ == interpreter
        &&& self.detection.workdir@ == root
        &&& views(self.detection.args@) == seq![
            detection_entry(root),
            "--weights"@,
            self.weights@,
            "--source"@,
            self.staging_dir@,
            "--outdir"@,
            self.output_dir@,
        ]
        &&& self.judgment.program@ == interpreter
        &&& self.judgment.workdir@ == root
        &&& views(self.judgment.args@) == seq![
            judgment_entry(root),
            "--images_dir"@,
            self.output_dir@,
            "--out_json"@,
            self.results_file@,
        ]
    }
}

/// The plan of the run `run_id` under `root`, with `weights` relative to it.
pub fn plan_run(root: &String, interpreter: &String, weights: &String, run_id: &String) -> (r:
    RunPlan)
    ensures
        r.describes(root@, interpreter@, weights@, run_id@),
{
    let work = join_path(root, &lit(".runner_work"));
    let weights_path = join_path(root, weights);
    let input_dir = join_path(root, &lit("input_images"));
    let staging_dir = join_path(&work, &lit("input"));
    let output_dir = join_path(&join_path(&work, &lit("bbox")), run_id);
    let results_dir = join_path(root, &lit("results"));
    let file_name = lit("result_").concat(run_id.as_str()).concat(".json");
    let results_file = join_path(&results_dir, &file_name);
    let mut dargs: Vec<String> = Vec::new();
    dargs.push(detection_entry_path(root));
    dargs.push(lit("--weights"));
    dargs.push(weights_path.clone());
    dargs.push(lit("--source"));
    dargs.push(staging_dir.clone());
    dargs.push(lit("--outdir"));
    dargs.push(output_dir.clone());
    let mut jargs: Vec<String> = Vec::new();
    jargs.push(judgment_entry_path(root));
    jargs.push(lit("--images_dir"));
    jargs.push(output_dir.clone());
    jargs.push(lit("--out_json"));
    jargs.push(results_file.clone());
    let r = RunPlan {
        root: root.clone(),
        interpreter: interpreter.clone(),
        weights: weights_path,
        input_dir,
        staging_dir,
        output_dir,
        results_dir,
        results_file,
        detection: Invocation { program: interpreter.clone(), args: dargs, workdir: root.clone() },
        judgment: Invocation { program: interpreter.clone(), args: jargs, workdir: root.clone() },
    };
    assert(views(r.detection.args@) =~= seq![
        detection_entry(root@),
        "--weights"@,
        r.weights@,
        "--source"@,
        r.staging_dir@,
        "--outdir"@,
        r.output_dir@,
    ]);
    assert(views(r.judgment.args@) =~= seq![
        judgment_entry(root@),
        "--images_dir"@,
        r.output_dir@,
        "--out_json"@,
        r.results_file@,
    ]);
    r
}

/// The first of the detection entry point, the judgment entry point and the
/// weights that is not among the paths found present, or `None`.
pub fn missing_artifact(plan: &RunPlan, present: &Vec<String>) -> (r: Option<String>)
    ensures
        match r {
            None => views(present@).contains(detection_entry(plan.root@)) && views(
                present@,
            ).contains(judgment_entry(plan.root@)) && views(present@).contains(plan.weights@),
            Some(p) => {
                ||| !views(present@).contains(detection_entry(plan.root@)) && p@ == detection_entry(
                    plan.root@,
                )
                ||| views(present@).contains(detection_entry(plan.root@)) && !views(
                    present@,
                ).contains(judgment_entry(plan.root@)) && p@ == judgment_entry(plan.root@)
                ||| views(present@).contains(detection_entry(plan.root@)) && views(
                    present@,
                ).contains(judgment_entry(plan.root@)) && !views(present@).contains(plan.weights@)
                    && p@ == plan.weights@
            },
        },
{
    let d = detection_entry_path(&plan.root);
    if !crate::names::contains_name(present, &d) {
        return Some(d);
    }
    let j = judgment_entry_path(&plan.root);
    if !crate::names::contains_name(present, &j) {
        return Some(j);
    }
    if !crate::names::contains_name(present, &plan.weights) {
        return Some(plan.weights.clone());
    }
    None
}

} // verus!
