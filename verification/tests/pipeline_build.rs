use mandelbrot_explorer::pipeline::{
    compile_outcome, link_outcome, BuildError, RenderPipeline, SurfaceState,
};

#[test]
fn build_succeeds_when_all_steps_report_success() {
    let r = RenderPipeline::build(
        true,
        String::new(),
        true,
        String::new(),
        true,
        String::new(),
        800,
        600,
    );
    let p = r.expect("all steps succeeded");
    assert_eq!(p.surface, SurfaceState { width: 800, height: 600 });
}

#[test]
fn invalid_fragment_source_aborts_with_compile_error() {
    // A syntactically invalid fragment stage: the compiler reports failure
    // and a non-empty diagnostic log; construction yields a compile error
    // carrying that log, and no pipeline is produced.
    let diagnostic = String::from("ERROR: 0:1: 'widht' : undeclared identifier");
    let r = RenderPipeline::build(
        true,
        String::new(),
        false,
        diagnostic.clone(),
        false,
        String::new(),
        800,
        600,
    );
    match r {
        Err(BuildError::ShaderCompileError(log)) => {
            assert_eq!(log, diagnostic);
            assert!(!log.is_empty());
        },
        _ => panic!("expected a shader compile error"),
    }
}

#[test]
fn invalid_vertex_source_aborts_with_compile_error() {
    let r = RenderPipeline::build(
        false,
        String::from("ERROR: 0:3: syntax error"),
        true,
        String::new(),
        true,
        String::new(),
        1024,
        768,
    );
    match r {
        Err(BuildError::ShaderCompileError(log)) => {
            assert_eq!(log, "ERROR: 0:3: syntax error");
        },
        _ => panic!("expected a shader compile error"),
    }
}

#[test]
fn link_failure_aborts_with_link_error() {
    let r = RenderPipeline::build(
        true,
        String::new(),
        true,
        String::new(),
        false,
        String::from("varying 'v_pos' has no matching output"),
        640,
        480,
    );
    match r {
        Err(BuildError::ProgramLinkError(log)) => {
            assert_eq!(log, "varying 'v_pos' has no matching output");
        },
        _ => panic!("expected a program link error"),
    }
}

#[test]
fn compile_outcome_mirrors_the_reported_status() {
    assert!(compile_outcome(true, String::from("ignored")).is_ok());
    match compile_outcome(false, String::from("bad shader")) {
        Err(BuildError::ShaderCompileError(log)) => assert_eq!(log, "bad shader"),
        _ => panic!("expected a shader compile error"),
    }
}

#[test]
fn link_outcome_mirrors_the_reported_status() {
    assert!(link_outcome(true, String::new()).is_ok());
    match link_outcome(false, String::from("bad link")) {
        Err(BuildError::ProgramLinkError(log)) => assert_eq!(log, "bad link"),
        _ => panic!("expected a program link error"),
    }
}
