use vstd::prelude::*;
use vstd::string::StrSliceExecFns;
use vstd::string::StringSliceAdditionalSpecFns;

use crate::candidate::{parse_dev_cmd, split_ws, CandidateModel, SpawnCandidate};

verus! {

/// What the host gathered before resolution starts: the override variable's
/// value, the bundled-resource directory and the directory holding the host's
/// own executable (where the platform provides them), the platform's naming
/// conventions, and whether this is a development build.
pub struct LocateCtx {
    pub dev_cmd: Option<Vec<u8>>,
    pub resource_dir: Option<Vec<u8>>,
    pub exe_dir: Option<Vec<u8>>,
    pub windows: bool,
    pub dev_build: bool,
}

#[verifier::ext_equal]
pub struct CtxModel {
    pub dev_cmd: Option<Seq<u8>>,
    pub resource_dir: Option<Seq<u8>>,
    pub exe_dir: Option<Seq<u8>>,
    pub windows: bool,
    pub dev_build: bool,
}

impl View for LocateCtx {
    type V = CtxModel;

    open spec fn view(&self) -> CtxModel {
        CtxModel {
            dev_cmd: match self.dev_cmd {
                Some(v) => Some(v@),
                None => None,
            },
            resource_dir: match self.resource_dir {
                Some(v) => Some(v@),
                None => None,
            },
            exe_dir: match self.exe_dir {
                Some(v) => Some(v@),
                None => None,
            },
            windows: self.windows,
            dev_build: self.dev_build,
        }
    }
}

/// One resolution attempt: an artifact whose existence is to be checked, when
/// there is one, and the candidate to spawn once the check passes (or
/// unconditionally, when there is nothing to check). When `resolve` is set,
/// the host must not merely check the artifact but resolve it to its
/// canonical absolute path, and that resolved path — not the checked one —
/// becomes the candidate's final argument at spawn time.
pub struct Attempt {
    pub check: Option<Vec<u8>>,
    pub resolve: bool,
    pub candidate: SpawnCandidate,
}

#[verifier::ext_equal]
pub struct AttemptModel {
    pub check: Option<Seq<u8>>,
    pub resolve: bool,
    pub candidate: CandidateModel,
}

impl View for Attempt {
    type V = AttemptModel;

    open spec fn view(&self) -> AttemptModel {
        AttemptModel {
            check: match self.check {
                Some(v) => Some(v@),
                None => None,
            },
            resolve: self.resolve,
            candidate: self.candidate@,
        }
    }
}

impl DeepView for Attempt {
    type V = AttemptModel;

    open spec fn deep_view(&self) -> AttemptModel {
        self@
    }
}

/// The platform's path separator.
pub open spec fn sep_byte(windows: bool) -> u8 {
    if windows {
        92u8
    } else {
        47u8
    }
}

/// A path with one more component.
pub open spec fn joined(windows: bool, base: Seq<u8>, name: Seq<u8>) -> Seq<u8> {
    base + seq![sep_byte(windows)] + name
}

pub fn join_path(windows: bool, base: &Vec<u8>, name: &Vec<u8>) -> (out: Vec<u8>)
    ensures
        out@ == joined(windows, base@, name@),
{
    let mut out: Vec<u8> = vstd::slice::slice_to_vec(base.as_slice());
    if windows {
        out.push(92u8);
    } else {
        out.push(47u8);
    }
    let mut i: usize = 0;
    while i < name.len()
        invariant
            i <= name.len(),
            out@ == base@ + seq![sep_byte(windows)] + name@.take(i as int),
        decreases name.len() - i,
    {
        out.push(name[i]);
        proof {
            assert(base@ + seq![sep_byte(windows)] + name@.take(i as int + 1) =~= (base@ + seq![
                sep_byte(windows),
            ] + name@.take(i as int)).push(name@[i as int]));
        }
        i = i + 1;
    }
    proof {
        assert(name@.take(name@.len() as int) =~= name@);
        assert(out@ =~= joined(windows, base@, name@));
    }
    out
}

pub(crate) fn copy_bytes(v: &Vec<u8>) -> (out: Vec<u8>)
    ensures
        out@ == v@,
{
    vstd::slice::slice_to_vec(v.as_slice())
}

/// The companion binary's conventional name on this platform.
pub open spec fn binary_name(windows: bool) -> Seq<u8> {
    if windows {
        "bridge.exe".spec_bytes()
    } else {
        "bridge".spec_bytes()
    }
}

/// An attempt on a native binary: check the path, then run it, no arguments.
pub open spec fn binary_attempt(path: Seq<u8>) -> AttemptModel {
    AttemptModel {
        check: Some(path),
        resolve: false,
        candidate: CandidateModel { program: path, args: Seq::empty() },
    }
}

/// An attempt on a bundled script artifact: check the path, then hand it to
/// the external interpreter as given.
pub open spec fn script_attempt(path: Seq<u8>) -> AttemptModel {
    AttemptModel {
        check: Some(path),
        resolve: false,
        candidate: CandidateModel { program: "node".spec_bytes(), args: seq![path] },
    }
}

/// An attempt on a development-tree script, named by a relative path: the
/// host resolves the artifact to its canonical absolute path, and the
/// interpreter receives that resolved path as its argument.
pub open spec fn resolved_script_attempt(path: Seq<u8>) -> AttemptModel {
    AttemptModel {
        check: Some(path),
        resolve: true,
        candidate: CandidateModel { program: "node".spec_bytes(), args: Seq::empty() },
    }
}

/// The two recognised script names under one base directory, preferred
/// extension first.
pub open spec fn script_pair(windows: bool, base: Seq<u8>) -> Seq<AttemptModel> {
    seq![
        script_attempt(joined(windows, base, "index.cjs".spec_bytes())),
        script_attempt(joined(windows, base, "index.js".spec_bytes())),
    ]
}

/// The two recognised script names under one development-tree base, host
/// resolution demanded, preferred extension first.
pub open spec fn resolved_script_pair(windows: bool, base: Seq<u8>) -> Seq<AttemptModel> {
    seq![
        resolved_script_attempt(joined(windows, base, "index.cjs".spec_bytes())),
        resolved_script_attempt(joined(windows, base, "index.js".spec_bytes())),
    ]
}

/// The scripts' conventional subdirectory under a root.
pub open spec fn bridge_dist(windows: bool, root: Seq<u8>) -> Seq<u8> {
    joined(windows, joined(windows, root, "bridge".spec_bytes()), "dist".spec_bytes())
}

/// The installer-relocation directory under a root.
pub open spec fn up_dir(windows: bool, root: Seq<u8>) -> Seq<u8> {
    joined(windows, root, "_up_".spec_bytes())
}

/// Highest priority: the environment override, whitespace-split into program
/// and arguments, spawned without any filesystem check. An unset or wordless
/// override contributes nothing.
pub open spec fn override_plan(dev_cmd: Option<Seq<u8>>) -> Seq<AttemptModel> {
    match dev_cmd {
        Some(line) => {
            let words = split_ws(line);
            if words.len() == 0 {
                Seq::empty()
            } else {
                seq![
                    AttemptModel {
                        check: None,
                        resolve: false,
                        candidate: CandidateModel { program: words[0], args: words.skip(1) },
                    },
                ]
            }
        },
        None => Seq::empty(),
    }
}

/// The bundled native binary, directly in the resource directory and one
/// level under the relocation directory, under the platform's conventional
/// name in both places.
pub open spec fn bundled_binary_plan(rd: Seq<u8>, windows: bool) -> Seq<AttemptModel> {
    seq![
        binary_attempt(joined(windows, rd, binary_name(windows))),
        binary_attempt(joined(windows, up_dir(windows, rd), binary_name(windows))),
    ]
}

/// Bundled scripts: under the conventional subdirectory, directly in the
/// resource directory, and under the relocation directory.
pub open spec fn bundled_script_plan(rd: Seq<u8>, windows: bool) -> Seq<AttemptModel> {
    script_pair(windows, bridge_dist(windows, rd)) + script_pair(windows, rd) + script_pair(
        windows,
        bridge_dist(windows, up_dir(windows, rd)),
    )
}

/// The native binary next to the host's own executable, and one level under
/// the relocation directory there.
pub open spec fn exe_dir_binary_plan(ed: Seq<u8>, windows: bool) -> Seq<AttemptModel> {
    seq![
        binary_attempt(joined(windows, ed, binary_name(windows))),
        binary_attempt(joined(windows, up_dir(windows, ed), binary_name(windows))),
    ]
}

/// Scripts next to the host's own executable.
pub open spec fn exe_dir_script_plan(ed: Seq<u8>, windows: bool) -> Seq<AttemptModel> {
    script_pair(windows, bridge_dist(windows, ed)) + script_pair(
        windows,
        bridge_dist(windows, up_dir(windows, ed)),
    )
}

/// The development tree relative to the current working directory. The
/// artifacts are named by relative paths, so the host resolves the one it
/// finds before the interpreter is handed it.
pub open spec fn local_dev_plan(windows: bool) -> Seq<AttemptModel> {
    resolved_script_pair(windows, joined(windows, "bridge".spec_bytes(), "dist".spec_bytes()))
}

/// The development tree two levels up, for a host started from a nested
/// build-output directory; host-resolved like the local one.
pub open spec fn parent_dev_plan(windows: bool) -> Seq<AttemptModel> {
    resolved_script_pair(
        windows,
        joined(
            windows,
            joined(windows, joined(windows, "..".spec_bytes(), "..".spec_bytes()), "bridge".spec_bytes()),
            "dist".spec_bytes(),
        ),
    )
}

/// Last resort, development builds only: the package-script runner in watch
/// mode, spawned without any filesystem check.
pub open spec fn dev_runner_plan(windows: bool, dev_build: bool) -> Seq<AttemptModel> {
    if !dev_build {
        Seq::empty()
    } else if windows {
        seq![
            AttemptModel {
                check: None,
                resolve: false,
                candidate: CandidateModel {
                    program: "cmd".spec_bytes(),
                    args: seq![
                        "/C".spec_bytes(),
                        "pnpm".spec_bytes(),
                        "--prefix".spec_bytes(),
                        "..\\bridge".spec_bytes(),
                        "dev".spec_bytes(),
                    ],
                },
            },
        ]
    } else {
        seq![
            AttemptModel {
                check: None,
                resolve: false,
                candidate: CandidateModel {
                    program: "pnpm".spec_bytes(),
                    args: seq!["--prefix".spec_bytes(), "../bridge".spec_bytes(), "dev".spec_bytes()],
                },
            },
        ]
    }
}

/// The whole resolution plan, in fixed priority order: the override first,
/// then the bundled binary and bundled scripts, the executable-adjacent binary
/// and scripts, the local and parent development trees, and — in development
/// builds only — the package-script runner.
pub open spec fn full_plan(ctx: CtxModel) -> Seq<AttemptModel> {
    override_plan(ctx.dev_cmd) + (match ctx.resource_dir {
        Some(rd) => bundled_binary_plan(rd, ctx.windows) + bundled_script_plan(rd, ctx.windows),
        None => Seq::empty(),
    }) + (match ctx.exe_dir {
        Some(ed) => exe_dir_binary_plan(ed, ctx.windows) + exe_dir_script_plan(ed, ctx.windows),
        None => Seq::empty(),
    }) + local_dev_plan(ctx.windows) + parent_dev_plan(ctx.windows) + dev_runner_plan(
        ctx.windows,
        ctx.dev_build,
    )
}

fn binary_attempt_for(path: Vec<u8>) -> (a: Attempt)
    ensures
        a@ == binary_attempt(path@),
{
    let check = copy_bytes(&path);
    let a = Attempt {
        check: Some(check),
        resolve: false,
        candidate: SpawnCandidate { program: path, args: Vec::new() },
    };
    proof {
        assert(a@ =~~= binary_attempt(a.candidate.program@));
    }
    a
}

fn script_attempt_for(windows: bool, base: &Vec<u8>, name: &Vec<u8>) -> (a: Attempt)
    ensures
        a@ == script_attempt(joined(windows, base@, name@)),
{
    let path = join_path(windows, base, name);
    let arg = copy_bytes(&path);
    let mut args: Vec<Vec<u8>> = Vec::new();
    args.push(arg);
    let a = Attempt {
        check: Some(path),
        resolve: false,
        candidate: SpawnCandidate { program: "node".as_bytes_vec(), args },
    };
    proof {
        assert(a@ =~~= script_attempt(joined(windows, base@, name@)));
    }
    a
}

fn resolved_script_attempt_for(windows: bool, base: &Vec<u8>, name: &Vec<u8>) -> (a: Attempt)
    ensures
        a@ == resolved_script_attempt(joined(windows, base@, name@)),
{
    let path = join_path(windows, base, name);
    let a = Attempt {
        check: Some(path),
        resolve: true,
        candidate: SpawnCandidate { program: "node".as_bytes_vec(), args: Vec::new() },
    };
    proof {
        assert(a@ =~~= resolved_script_attempt(joined(windows, base@, name@)));
    }
    a
}

fn script_pair_for(windows: bool, base: &Vec<u8>) -> (v: Vec<Attempt>)
    ensures
        v.deep_view() == script_pair(windows, base@),
{
    let mut v: Vec<Attempt> = Vec::new();
    let cjs = "index.cjs".as_bytes_vec();
    v.push(script_attempt_for(windows, base, &cjs));
    let js = "index.js".as_bytes_vec();
    v.push(script_attempt_for(windows, base, &js));
    proof {
        assert(v.deep_view() =~~= script_pair(windows, base@));
    }
    v
}

fn bundled_binary_attempts(rd: &Vec<u8>, windows: bool) -> (v: Vec<Attempt>)
    ensures
        v.deep_view() == bundled_binary_plan(rd@, windows),
{
    let mut v: Vec<Attempt> = Vec::new();
    let name = if windows {
        "bridge.exe".as_bytes_vec()
    } else {
        "bridge".as_bytes_vec()
    };
    v.push(binary_attempt_for(join_path(windows, rd, &name)));
    let up = join_path(windows, rd, &"_up_".as_bytes_vec());
    v.push(binary_attempt_for(join_path(windows, &up, &name)));
    proof {
        assert(v.deep_view() =~~= bundled_binary_plan(rd@, windows));
    }
    v
}

fn bundled_script_attempts(rd: &Vec<u8>, windows: bool) -> (v: Vec<Attempt>)
    ensures
        v.deep_view() == bundled_script_plan(rd@, windows),
{
    let bridge = "bridge".as_bytes_vec();
    let dist = "dist".as_bytes_vec();
    let mut v = script_pair_for(windows, &join_path(windows, &join_path(windows, rd, &bridge), &dist));
    let mut direct = script_pair_for(windows, rd);
    v.append(&mut direct);
    let up = join_path(windows, rd, &"_up_".as_bytes_vec());
    let mut relocated = script_pair_for(
        windows,
        &join_path(windows, &join_path(windows, &up, &bridge), &dist),
    );
    v.append(&mut relocated);
    proof {
        assert(v.deep_view() =~~= bundled_script_plan(rd@, windows));
    }
    v
}

fn exe_dir_binary_attempts(ed: &Vec<u8>, windows: bool) -> (v: Vec<Attempt>)
    ensures
        v.deep_view() == exe_dir_binary_plan(ed@, windows),
{
    let mut v: Vec<Attempt> = Vec::new();
    let name = if windows {
        "bridge.exe".as_bytes_vec()
    } else {
        "bridge".as_bytes_vec()
    };
    v.push(binary_attempt_for(join_path(windows, ed, &name)));
    let up = join_path(windows, ed, &"_up_".as_bytes_vec());
    v.push(binary_attempt_for(join_path(windows, &up, &name)));
    proof {
        assert(v.deep_view() =~~= exe_dir_binary_plan(ed@, windows));
    }
    v
}

fn exe_dir_script_attempts(ed: &Vec<u8>, windows: bool) -> (v: Vec<Attempt>)
    ensures
        v.deep_view() == exe_dir_script_plan(ed@, windows),
{
    let bridge = "bridge".as_bytes_vec();
    let dist = "dist".as_bytes_vec();
    let mut v = script_pair_for(windows, &join_path(windows, &join_path(windows, ed, &bridge), &dist));
    let up = join_path(windows, ed, &"_up_".as_bytes_vec());
    let mut relocated = script_pair_for(
        windows,
        &join_path(windows, &join_path(windows, &up, &bridge), &dist),
    );
    v.append(&mut relocated);
    proof {
        assert(v.deep_view() =~~= exe_dir_script_plan(ed@, windows));
    }
    v
}

fn resolved_script_pair_for(windows: bool, base: &Vec<u8>) -> (v: Vec<Attempt>)
    ensures
        v.deep_view() == resolved_script_pair(windows, base@),
{
    let mut v: Vec<Attempt> = Vec::new();
    let cjs = "index.cjs".as_bytes_vec();
    v.push(resolved_script_attempt_for(windows, base, &cjs));
    let js = "index.js".as_bytes_vec();
    v.push(resolved_script_attempt_for(windows, base, &js));
    proof {
        assert(v.deep_view() =~~= resolved_script_pair(windows, base@));
    }
    v
}

fn local_dev_attempts(windows: bool) -> (v: Vec<Attempt>)
    ensures
        v.deep_view() == local_dev_plan(windows),
{
    let base = join_path(windows, &"bridge".as_bytes_vec(), &"dist".as_bytes_vec());
    let v = resolved_script_pair_for(windows, &base);
    proof {
        assert(v.deep_view() =~~= local_dev_plan(windows));
    }
    v
}

fn parent_dev_attempts(windows: bool) -> (v: Vec<Attempt>)
    ensures
        v.deep_view() == parent_dev_plan(windows),
{
    let dots = "..".as_bytes_vec();
    let parents = join_path(windows, &dots, &dots);
    let base = join_path(
        windows,
        &join_path(windows, &parents, &"bridge".as_bytes_vec()),
        &"dist".as_bytes_vec(),
    );
    let v = resolved_script_pair_for(windows, &base);
    proof {
        assert(v.deep_view() =~~= parent_dev_plan(windows));
    }
    v
}

fn dev_runner_attempts(windows: bool, dev_build: bool) -> (v: Vec<Attempt>)
    ensures
        v.deep_view() == dev_runner_plan(windows, dev_build),
{
    let mut v: Vec<Attempt> = Vec::new();
    if dev_build {
        let mut args: Vec<Vec<u8>> = Vec::new();
        let program: Vec<u8>;
        if windows {
            program = "cmd".as_bytes_vec();
            args.push("/C".as_bytes_vec());
            args.push("pnpm".as_bytes_vec());
            args.push("--prefix".as_bytes_vec());
            args.push("..\\bridge".as_bytes_vec());
            args.push("dev".as_bytes_vec());
        } else {
            program = "pnpm".as_bytes_vec();
            args.push("--prefix".as_bytes_vec());
            args.push("../bridge".as_bytes_vec());
            args.push("dev".as_bytes_vec());
        }
        v.push(Attempt { check: None, resolve: false, candidate: SpawnCandidate { program, args } });
    }
    proof {
        assert(v.deep_view() =~~= dev_runner_plan(windows, dev_build));
    }
    v
}

/// Builds the whole resolution plan for a context, in the fixed priority
/// order that `full_plan` states.
#[verifier::rlimit(60)]
pub fn build_plan(ctx: &LocateCtx) -> (plan: Vec<Attempt>)
    ensures
        plan.deep_view() == full_plan(ctx@),
{
    let mut plan: Vec<Attempt> = Vec::new();
    match &ctx.dev_cmd {
        Some(line) => {
            match parse_dev_cmd(line) {
                Some(c) => {
                    plan.push(Attempt { check: None, resolve: false, candidate: c });
                },
                None => {},
            }
        },
        None => {},
    }
    proof {
        assert(plan.deep_view() =~~= override_plan(ctx@.dev_cmd));
    }
    let ghost done1 = plan.deep_view();
    match &ctx.resource_dir {
        Some(rd) => {
            let mut binaries = bundled_binary_attempts(rd, ctx.windows);
            plan.append(&mut binaries);
            let mut scripts = bundled_script_attempts(rd, ctx.windows);
            plan.append(&mut scripts);
        },
        None => {},
    }
    proof {
        assert(plan.deep_view() =~~= done1 + (match ctx@.resource_dir {
            Some(rd) => bundled_binary_plan(rd, ctx@.windows) + bundled_script_plan(
                rd,
                ctx@.windows,
            ),
            None => Seq::<AttemptModel>::empty(),
        }));
    }
    let ghost done2 = plan.deep_view();
    match &ctx.exe_dir {
        Some(ed) => {
            let mut binaries = exe_dir_binary_attempts(ed, ctx.windows);
            plan.append(&mut binaries);
            let mut scripts = exe_dir_script_attempts(ed, ctx.windows);
            plan.append(&mut scripts);
        },
        None => {},
    }
    proof {
        assert(plan.deep_view() =~~= done2 + (match ctx@.exe_dir {
            Some(ed) => exe_dir_binary_plan(ed, ctx@.windows) + exe_dir_script_plan(
                ed,
                ctx@.windows,
            ),
            None => Seq::<AttemptModel>::empty(),
        }));
    }
    let mut local = local_dev_attempts(ctx.windows);
    plan.append(&mut local);
    let mut parent = parent_dev_attempts(ctx.windows);
    plan.append(&mut parent);
    let mut runner = dev_runner_attempts(ctx.windows, ctx.dev_build);
    plan.append(&mut runner);
    proof {
        assert(plan.deep_view() =~~= full_plan(ctx@));
    }
    plan
}

} // verus!
