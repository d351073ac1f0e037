use bridge_lifecycle::candidate::parse_dev_cmd;
use bridge_lifecycle::locator::{build_plan, LocateCtx};

#[test]
fn override_splits_program_and_arguments() {
    let c = parse_dev_cmd(&b"echo hello".to_vec()).unwrap();
    assert_eq!(c.program, b"echo".to_vec());
    assert_eq!(c.args, vec![b"hello".to_vec()]);
}

#[test]
fn override_collapses_whitespace_runs() {
    let c = parse_dev_cmd(&b"  node  --inspect  index.js ".to_vec()).unwrap();
    assert_eq!(c.program, b"node".to_vec());
    assert_eq!(c.args, vec![b"--inspect".to_vec(), b"index.js".to_vec()]);
}

#[test]
fn blank_override_yields_nothing() {
    assert!(parse_dev_cmd(&Vec::new()).is_none());
    assert!(parse_dev_cmd(&b"   \t ".to_vec()).is_none());
}

fn unix_ctx() -> LocateCtx {
    LocateCtx {
        dev_cmd: None,
        resource_dir: Some(b"/res".to_vec()),
        exe_dir: Some(b"/exe".to_vec()),
        windows: false,
        dev_build: false,
    }
}

#[test]
fn override_takes_priority_and_skips_checks() {
    let mut ctx = unix_ctx();
    ctx.dev_cmd = Some(b"echo hello".to_vec());
    let plan = build_plan(&ctx);
    assert!(plan[0].check.is_none());
    assert_eq!(plan[0].candidate.program, b"echo".to_vec());
    assert_eq!(plan[0].candidate.args, vec![b"hello".to_vec()]);
}

#[test]
fn plan_tries_strategies_in_fixed_order() {
    let plan = build_plan(&unix_ctx());
    let checks: Vec<Vec<u8>> =
        plan.iter().map(|a| a.check.clone().unwrap_or_default()).collect();
    let expected: Vec<Vec<u8>> = [
        "/res/bridge",
        "/res/_up_/bridge",
        "/res/bridge/dist/index.cjs",
        "/res/bridge/dist/index.js",
        "/res/index.cjs",
        "/res/index.js",
        "/res/_up_/bridge/dist/index.cjs",
        "/res/_up_/bridge/dist/index.js",
        "/exe/bridge",
        "/exe/_up_/bridge",
        "/exe/bridge/dist/index.cjs",
        "/exe/bridge/dist/index.js",
        "/exe/_up_/bridge/dist/index.cjs",
        "/exe/_up_/bridge/dist/index.js",
        "bridge/dist/index.cjs",
        "bridge/dist/index.js",
        "../../bridge/dist/index.cjs",
        "../../bridge/dist/index.js",
    ]
    .iter()
    .map(|s| s.as_bytes().to_vec())
    .collect();
    assert_eq!(checks, expected);
}

#[test]
fn binary_attempts_run_the_artifact_itself() {
    let plan = build_plan(&unix_ctx());
    assert_eq!(plan[0].candidate.program, b"/res/bridge".to_vec());
    assert!(plan[0].candidate.args.is_empty());
}

#[test]
fn script_attempts_run_under_the_interpreter() {
    let plan = build_plan(&unix_ctx());
    assert_eq!(plan[2].candidate.program, b"node".to_vec());
    assert_eq!(plan[2].candidate.args, vec![b"/res/bridge/dist/index.cjs".to_vec()]);
}

#[test]
fn missing_directories_drop_their_strategies() {
    let ctx = LocateCtx {
        dev_cmd: None,
        resource_dir: None,
        exe_dir: None,
        windows: false,
        dev_build: false,
    };
    let plan = build_plan(&ctx);
    assert_eq!(plan.len(), 4);
    assert_eq!(plan[0].check, Some(b"bridge/dist/index.cjs".to_vec()));
    assert_eq!(plan[3].check, Some(b"../../bridge/dist/index.js".to_vec()));
}

#[test]
fn dev_tree_scripts_demand_host_resolution() {
    let plan = build_plan(&unix_ctx());
    for a in &plan {
        let dev_tree = matches!(&a.check, Some(p) if p.starts_with(b"bridge/") || p.starts_with(b"../../"));
        // exactly the development-tree artifacts are host-resolved, and their
        // interpreter argument is filled in only from the resolved path
        assert_eq!(a.resolve, dev_tree);
        if a.resolve {
            assert_eq!(a.candidate.program, b"node".to_vec());
            assert!(a.candidate.args.is_empty());
        }
    }
    assert_eq!(plan.iter().filter(|a| a.resolve).count(), 4);
}

#[test]
fn dev_build_appends_the_package_runner() {
    let mut ctx = unix_ctx();
    ctx.dev_build = true;
    let plan = build_plan(&ctx);
    let last = plan.last().unwrap();
    assert!(last.check.is_none());
    assert_eq!(last.candidate.program, b"pnpm".to_vec());
    assert_eq!(
        last.candidate.args,
        vec![b"--prefix".to_vec(), b"../bridge".to_vec(), b"dev".to_vec()]
    );
}

#[test]
fn windows_plan_uses_platform_conventions() {
    let ctx = LocateCtx {
        dev_cmd: None,
        resource_dir: Some(b"C:\\res".to_vec()),
        exe_dir: None,
        windows: true,
        dev_build: true,
    };
    let plan = build_plan(&ctx);
    assert_eq!(plan[0].check, Some(b"C:\\res\\bridge.exe".to_vec()));
    assert_eq!(plan[1].check, Some(b"C:\\res\\_up_\\bridge.exe".to_vec()));
    let last = plan.last().unwrap();
    assert_eq!(last.candidate.program, b"cmd".to_vec());
    assert_eq!(
        last.candidate.args,
        vec![
            b"/C".to_vec(),
            b"pnpm".to_vec(),
            b"--prefix".to_vec(),
            b"..\\bridge".to_vec(),
            b"dev".to_vec()
        ]
    );
}
