use glquad::shader::{
    compile_outcome, link_outcome, truncated_log, uniform_int_of_bool, ShaderError, Stage, Uniform,
};

#[test]
fn bool_uniform_values() {
    assert_eq!(uniform_int_of_bool(true), 1);
    assert_eq!(uniform_int_of_bool(false), 0);
}

#[test]
fn compile_success_returns_stage_handle() {
    let r = compile_outcome(Stage::Vertex, true, 7, Vec::new());
    assert_eq!(r, Ok(7));
}

#[test]
fn vertex_failure_names_vertex_stage() {
    let r = compile_outcome(Stage::Vertex, false, 7, vec![65, 66]);
    assert_eq!(r, Err(ShaderError::CompileFailure { stage: Stage::Vertex, log: vec![65, 66] }));
}

#[test]
fn fragment_failure_names_fragment_stage() {
    let r = compile_outcome(Stage::Fragment, false, 9, vec![67]);
    assert_eq!(r, Err(ShaderError::CompileFailure { stage: Stage::Fragment, log: vec![67] }));
}

#[test]
fn link_success_wraps_program_handle() {
    let r = link_outcome(true, 11, Vec::new());
    assert!(matches!(r, Ok(p) if p.id == 11));
}

#[test]
fn link_failure_carries_log() {
    let r = link_outcome(false, 0, vec![1, 2, 3]);
    assert_eq!(r, Err(ShaderError::LinkFailure { log: vec![1, 2, 3] }));
}

#[test]
fn long_log_is_truncated_to_limit() {
    let log: Vec<u8> = (0..600u32).map(|i| (i % 251) as u8).collect();
    let t = truncated_log(log.clone());
    assert_eq!(t.len(), 512);
    assert_eq!(&t[..], &log[..512]);
}

#[test]
fn short_log_is_kept_whole() {
    let log: Vec<u8> = vec![5; 100];
    assert_eq!(truncated_log(log.clone()), log);
}

#[test]
fn failure_log_is_truncated() {
    let log: Vec<u8> = vec![9; 1000];
    match compile_outcome(Stage::Vertex, false, 0, log) {
        Err(ShaderError::CompileFailure { stage, log }) => {
            assert_eq!(stage, Stage::Vertex);
            assert_eq!(log, vec![9; 512]);
        }
        other => panic!("unexpected outcome: {:?}", other),
    }
}

#[test]
fn stage_labels() {
    assert_eq!(Stage::Vertex.label(), "vertex");
    assert_eq!(Stage::Fragment.label(), "fragment");
}

#[test]
fn uniform_name_is_nul_terminated() {
    let u = Uniform::new(b"mixAmount").unwrap();
    assert_eq!(u.as_bytes().as_slice(), b"mixAmount\0");
}

#[test]
fn uniform_name_with_interior_nul_is_rejected() {
    assert!(Uniform::new(b"mix\0Amount").is_none());
}

#[test]
fn empty_uniform_name_is_terminated() {
    let u = Uniform::new(b"").unwrap();
    assert_eq!(u.as_bytes().as_slice(), b"\0");
}
