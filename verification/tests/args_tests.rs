use wild_proxy::args::setup_parser;

fn toks(xs: &[&str]) -> Vec<String> {
    xs.iter().map(|s| s.to_string()).collect()
}

#[test]
fn args_pthread_parsing() {
    let mut parser = setup_parser().unwrap();
    assert!(!parser.args.pthread);
    parser.parse(&toks(&["--pthread"])).unwrap();
    assert!(parser.args.pthread);
    parser.parse(&toks(&["-no-pthread"])).unwrap();
    assert!(!parser.args.pthread);
}

#[test]
fn args_sysroot_parsing() {
    let mut parser = setup_parser().unwrap();
    assert!(parser.args.sysroot.is_none());
    parser.parse(&toks(&["--sysroot=/foo"])).unwrap();
    assert_eq!(parser.args.sysroot, Some("/foo".to_string()));
    parser.parse(&toks(&["--sysroot", "/bar"])).unwrap();
    assert_eq!(parser.args.sysroot, Some("/bar".to_string()));
}

#[test]
fn args_scripts_parsing() {
    let mut parser = setup_parser().unwrap();
    assert!(parser.args.scripts.is_empty());
    parser.parse(&toks(&["-T", "/foo", "-T/bar"])).unwrap();
    assert_eq!(parser.args.scripts, toks(&["/foo", "/bar"]));
}

#[test]
fn args_wl_parsing() {
    let mut parser = setup_parser().unwrap();
    parser.parse(&toks(&["-Wl,-z,text", "-Wl=-z,now"])).unwrap();
    assert_eq!(parser.args.linker_args, toks(&["-z", "text", "-z", "now"]));
    parser.parse(&toks(&["-Xlinker", "-z,relro"])).unwrap();
    assert_eq!(
        parser.args.linker_args,
        toks(&["-z", "text", "-z", "now", "-z,relro"])
    );
}

#[test]
fn args_compiler_args_parsing() {
    let mut parser = setup_parser().unwrap();
    parser.parse(&toks(&["-B/foo", "-B", "/bar", "-Bstatic"])).unwrap();
    assert_eq!(parser.args.compiler_b_args, toks(&["/foo", "/bar", "static"]));
}

#[test]
fn args_additional_libs_parsing() {
    let mut parser = setup_parser().unwrap();
    parser.parse(&toks(&["-lfoo", "-lbar"])).unwrap();
    assert_eq!(parser.args.additional_libs, toks(&["foo", "bar"]));
}

#[test]
fn args_additional_search_paths_parsing() {
    let mut parser = setup_parser().unwrap();
    parser.parse(&toks(&["-L/foo", "-L", "/bar/baz"])).unwrap();
    assert_eq!(parser.args.additional_search_paths, toks(&["/foo", "/bar/baz"]));
}

#[test]
fn args_target_parsing() {
    let mut parser = setup_parser().unwrap();
    parser.parse(&toks(&["--target=x86_64-linux-gnu"])).unwrap();
    assert_eq!(parser.args.target, Some("x86_64-linux-gnu".to_string()));
    parser.parse(&toks(&["-target", "aarch64-linux-gnu"])).unwrap();
    assert_eq!(parser.args.target, Some("aarch64-linux-gnu".to_string()));
}

#[test]
fn args_coverage_parsing() {
    let mut parser = setup_parser().unwrap();
    assert!(!parser.args.coverage);
    parser.parse(&toks(&["--coverage"])).unwrap();
    assert!(parser.args.coverage);
}

#[test]
fn args_profile_parsing() {
    let mut parser = setup_parser().unwrap();
    assert!(!parser.args.profile);
    parser.parse(&toks(&["--profile"])).unwrap();
    assert!(parser.args.profile);
}

#[test]
fn args_unknown_arg_parsing() {
    let mut parser = setup_parser().unwrap();
    let args = toks(&[
        "-an-argument-that-does-not-exist",
        "--an-argument-that-does-not-exist",
    ]);
    parser.parse(&args).unwrap();
    assert_eq!(parser.unknown_args, args);
}

#[test]
fn args_c_args_parsing() {
    let mut parser = setup_parser().unwrap();
    parser.parse(&toks(&["-x", "c"])).unwrap();
    assert_eq!(parser.args.language, Some("c".to_string()));
    parser.parse(&toks(&["-xc++"])).unwrap();
    assert_eq!(parser.args.language, Some("c++".to_string()));
}

#[test]
fn args_unprefixed_args_parsing() {
    let mut parser = setup_parser().unwrap();
    let args = toks(&["foo.c", "bar.o", "baz.a"]);
    parser.parse(&args).unwrap();
    assert_eq!(parser.args.sources, args[..1]);
    assert_eq!(parser.args.objects, args[1..]);
}

#[test]
fn out_parsing() {
    let mut parser = setup_parser().unwrap();
    parser.parse(&toks(&["-o", "foo"])).unwrap();
    assert_eq!(parser.args.out, Some("foo".to_string()));
    parser.parse(&toks(&["-o/tmp/bar"])).unwrap();
    assert_eq!(parser.args.out, Some("/tmp/bar".to_string()));
}

#[test]
fn dont_assemble_parsing() {
    let mut parser = setup_parser().unwrap();
    assert!(!parser.args.dont_assemble);
    parser.parse(&toks(&["-S"])).unwrap();
    assert!(parser.args.dont_assemble);
}

#[test]
fn dont_link_parsing() {
    let mut parser = setup_parser().unwrap();
    assert!(!parser.args.dont_link);
    parser.parse(&toks(&["-c"])).unwrap();
    assert!(parser.args.dont_link);
}

#[test]
fn z_parsing() {
    let mut parser = setup_parser().unwrap();
    parser.parse(&toks(&["-z", "now"])).unwrap();
    assert_eq!(parser.args.linker_args, toks(&["-z", "now"]));
}
