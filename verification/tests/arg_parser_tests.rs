use wild_proxy::args::setup_parser;

fn toks(xs: &[&str]) -> Vec<String> {
    xs.iter().map(|s| s.to_string()).collect()
}

#[test]
fn arg_parser_pthread_parsing() {
    let mut parser = setup_parser().unwrap();
    assert!(!parser.args.pthread);
    parser.parse(&toks(&["--pthread"])).unwrap();
    assert!(parser.args.pthread);
    parser.parse(&toks(&["-no-pthread"])).unwrap();
    assert!(!parser.args.pthread);
}

#[test]
fn arg_parser_sysroot_parsing() {
    let mut parser = setup_parser().unwrap();
    assert!(parser.args.sysroot.is_none());
    parser.parse(&toks(&["--sysroot=/foo"])).unwrap();
    assert_eq!(parser.args.sysroot, Some("/foo".to_string()));
    parser.parse(&toks(&["--sysroot", "/bar"])).unwrap();
    assert_eq!(parser.args.sysroot, Some("/bar".to_string()));
}

#[test]
fn arg_parser_scripts_parsing() {
    let mut parser = setup_parser().unwrap();
    assert!(parser.args.scripts.is_empty());
    parser.parse(&toks(&["-T", "/foo", "-T/bar"])).unwrap();
    assert_eq!(parser.args.scripts, toks(&["/foo", "/bar"]));
}

#[test]
fn arg_parser_wl_parsing() {
    let mut parser = setup_parser().unwrap();
    parser.parse(&toks(&["-Wl,-z,text", "-Wl=-z,now"])).unwrap();
    assert_eq!(parser.args.linker_args, toks(&["-z", "text", "-z", "now"]));
    parser.parse(&toks(&["-Xlinker", "-z,relro"])).unwrap();
    assert_eq!(
        parser.args.linker_args,
        toks(&["-z", "text", "-z", "now", "-z,relro"])
    );
}

#[test]
fn arg_parser_compiler_args_parsing() {
    let mut parser = setup_parser().unwrap();
    parser.parse(&toks(&["-B/foo", "-B", "/bar", "-Bstatic"])).unwrap();
    assert_eq!(parser.args.compiler_b_args, toks(&["/foo", "/bar", "static"]));
}

#[test]
fn arg_parser_additional_libs_parsing() {
    let mut parser = setup_parser().unwrap();
    parser.parse(&toks(&["-lfoo", "-lbar"])).unwrap();
    assert_eq!(parser.args.additional_libs, toks(&["foo", "bar"]));
}

#[test]
fn arg_parser_additional_search_paths_parsing() {
    let mut parser = setup_parser().unwrap();
    parser.parse(&toks(&["-L/foo", "-L", "/bar/baz"])).unwrap();
    assert_eq!(parser.args.additional_search_paths, toks(&["/foo", "/bar/baz"]));
}

#[test]
fn arg_parser_target_parsing() {
    let mut parser = setup_parser().unwrap();
    parser.parse(&toks(&["--target=x86_64-linux-gnu"])).unwrap();
    assert_eq!(parser.args.target, Some("x86_64-linux-gnu".to_string()));
    parser.parse(&toks(&["-target", "aarch64-linux-gnu"])).unwrap();
    assert_eq!(parser.args.target, Some("aarch64-linux-gnu".to_string()));
}

#[test]
fn arg_parser_coverage_parsing() {
    let mut parser = setup_parser().unwrap();
    assert!(!parser.args.coverage);
    parser.parse(&toks(&["--coverage"])).unwrap();
    assert!(parser.args.coverage);
}

#[test]
fn arg_parser_profile_parsing() {
    let mut parser = setup_parser().unwrap();
    assert!(!parser.args.profile);
    parser.parse(&toks(&["--profile"])).unwrap();
    assert!(parser.args.profile);
}

#[test]
fn arg_parser_unknown_arg_parsing() {
    let mut parser = setup_parser().unwrap();
    let args = toks(&[
        "-an-argument-that-does-not-exist",
        "--an-argument-that-does-not-exist",
    ]);
    parser.parse(&args).unwrap();
    assert_eq!(parser.unknown_args, args);
}

#[test]
fn arg_parser_c_args_parsing() {
    let mut parser = setup_parser().unwrap();
    parser.parse(&toks(&["-x", "c"])).unwrap();
    assert_eq!(parser.args.language, Some("c".to_string()));
    parser.parse(&toks(&["-xc++"])).unwrap();
    assert_eq!(parser.args.language, Some("c++".to_string()));
}

#[test]
fn arg_parser_unprefixed_args_parsing() {
    let mut parser = setup_parser().unwrap();
    let args = toks(&["foo.c", "bar.o", "baz.a"]);
    parser.parse(&args).unwrap();
    assert_eq!(parser.args.sources, toks(&["foo.c"]));
    assert_eq!(parser.args.objects, toks(&["bar.o", "baz.a"]));
}
