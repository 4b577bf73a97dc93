use shdrr::compile::build_request;
use shdrr::config::{parse_opt_level, parse_target_env, Config, OptLevel, TargetEnv};
use shdrr::kind::ShaderKind;

fn config_with_opt(opt: &str) -> Config {
    let (conf, recognized) = Config::new(
        "/project/shaders".to_string(),
        "/build".to_string(),
        false,
        true,
        opt,
        "vulkan",
        "1.0".to_string(),
    );
    assert!(recognized);
    conf
}

#[test]
fn opt_level_values_resolve() {
    assert_eq!(parse_opt_level("0"), OptLevel::Zero);
    assert_eq!(parse_opt_level("1"), OptLevel::Performance);
    assert_eq!(parse_opt_level("s"), OptLevel::Size);
    assert_eq!(parse_opt_level("anything"), OptLevel::Performance);
}

#[test]
fn target_env_values_resolve() {
    assert_eq!(parse_target_env("vulkan"), (TargetEnv::Vulkan, true));
    assert_eq!(parse_target_env("opengl"), (TargetEnv::OpenGl, true));
    assert_eq!(
        parse_target_env("opengl_compat"),
        (TargetEnv::OpenGlCompat, true)
    );
}

#[test]
fn unrecognized_env_defaults_to_vulkan() {
    let (env, recognized) = parse_target_env("metal");
    assert_eq!(env, TargetEnv::Vulkan);
    assert!(!recognized);
}

#[test]
fn config_keeps_the_given_values() {
    let (conf, recognized) = Config::new(
        "/project/shaders".to_string(),
        "/build".to_string(),
        true,
        false,
        "s",
        "opengl",
        "1.2".to_string(),
    );
    assert!(recognized);
    assert_eq!(conf.dir, "/project/shaders");
    assert_eq!(conf.output, "/build");
    assert!(conf.verbose);
    assert!(!conf.recursive);
    assert_eq!(conf.optimization, OptLevel::Size);
    assert_eq!(conf.target_env, TargetEnv::OpenGl);
    assert_eq!(conf.target_spirv, "1.2");
}

#[test]
fn distinct_opt_levels_reach_the_request() {
    let source = "void main() {}";
    let debug = build_request(
        &config_with_opt("0"),
        "/project/shaders/fx/glow.fs",
        source.to_string(),
    );
    let perf = build_request(
        &config_with_opt("1"),
        "/project/shaders/fx/glow.fs",
        source.to_string(),
    );
    assert_eq!(debug.optimization, OptLevel::Zero);
    assert_eq!(perf.optimization, OptLevel::Performance);
    assert_ne!(debug.optimization, perf.optimization);
}

#[test]
fn request_carries_stage_name_and_entry_point() {
    let req = build_request(
        &config_with_opt("1"),
        "/project/shaders/fx/glow.fs",
        "void main() {}".to_string(),
    );
    assert_eq!(req.kind, ShaderKind::Fragment);
    assert_eq!(req.input_name, "glow.fs");
    assert_eq!(req.entry_point, "main");
    assert_eq!(req.source_text, "void main() {}");
    assert_eq!(req.target_env, TargetEnv::Vulkan);
}
