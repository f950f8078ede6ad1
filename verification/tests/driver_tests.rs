use wild_proxy::arch::{Arch, TripleErrorKind, target_arch};
use wild_proxy::arg_parser::{ArgParser, ArgTarget, DeclError};
use wild_proxy::args::{
    Args, DriverError, FlagField, Mode, OutputKind, SingleField, invocation_context, setup_parser,
};
use wild_proxy::dump::{DumpError, DumpFlavor, detect_dump_flavor, parse_clang_dump, parse_gcc_dump};
use wild_proxy::link::{
    LinkError, build_linker_invocation, gcc_objects, highest_version_index,
    resolve_system_library_paths, system_library_paths,
};
use wild_proxy::outputs_cleanup::DeleteOutputs;

fn toks(xs: &[&str]) -> Vec<String> {
    xs.iter().map(|s| s.to_string()).collect()
}

#[test]
fn default_record() {
    let args = Args::default();
    assert!(args.pie);
    assert_eq!(args.output, "a.out".to_string());
    assert_eq!(args.output_kind, OutputKind::DynamicPie);
    assert_eq!(args.mode, Mode::NoWork);
    assert_eq!(args.arch, Arch::X86_64);
    assert!(!args.pthread);
    assert!(args.sources.is_empty());
}

#[test]
fn output_kind_priority_static_beats_shared() {
    let args = Args::parse_args(&toks(&["-static", "-shared", "foo.o"]), None).unwrap();
    assert_eq!(args.output_kind, OutputKind::Static);
}

#[test]
fn output_kind_priority_static_pie_first() {
    let args = Args::parse_args(&toks(&["-shared", "-static", "-static-pie"]), None).unwrap();
    assert_eq!(args.output_kind, OutputKind::StaticPie);
}

#[test]
fn output_kind_shared_beats_pie() {
    let args = Args::parse_args(&toks(&["-shared"]), None).unwrap();
    assert_eq!(args.output_kind, OutputKind::SharedObject);
}

#[test]
fn output_kind_no_pie_dynamic() {
    let args = Args::parse_args(&toks(&["-no-pie"]), None).unwrap();
    assert_eq!(args.output_kind, OutputKind::Dynamic);
}

#[test]
fn output_kind_default_dynamic_pie() {
    let args = Args::parse_args(&toks(&["foo.o"]), None).unwrap();
    assert_eq!(args.output_kind, OutputKind::DynamicPie);
}

#[test]
fn free_token_classification() {
    let args = Args::parse_args(&toks(&["foo.c", "bar.o", "baz.a"]), None).unwrap();
    assert_eq!(args.sources, toks(&["foo.c"]));
    assert_eq!(args.objects, toks(&["bar.o", "baz.a"]));
}

#[test]
fn mode_no_inputs_is_no_work() {
    let args = Args::parse_args(&toks(&[]), None).unwrap();
    assert_eq!(args.mode, Mode::NoWork);
}

#[test]
fn mode_dont_link_forces_compile_only() {
    let args = Args::parse_args(&toks(&["foo.c", "-c"]), None).unwrap();
    assert_eq!(args.mode, Mode::CompileOnly);
}

#[test]
fn mode_dont_assemble_forces_compile_only() {
    let args = Args::parse_args(&toks(&["-S"]), None).unwrap();
    assert_eq!(args.mode, Mode::CompileOnly);
}

#[test]
fn mode_sources_force_compile_and_link() {
    let args = Args::parse_args(&toks(&["foo.c", "bar.o"]), None).unwrap();
    assert_eq!(args.mode, Mode::CompileAndLink);
}

#[test]
fn mode_objects_alone_force_link_only() {
    let args = Args::parse_args(&toks(&["foo.o"]), None).unwrap();
    assert_eq!(args.mode, Mode::LinkOnly);
}

#[test]
fn parse_args_output_and_target() {
    let args = Args::parse_args(
        &toks(&["-o", "prog", "--target=aarch64-pc-linux-gnu", "foo.o"]),
        None,
    )
    .unwrap();
    assert_eq!(args.output, "prog".to_string());
    assert_eq!(args.arch, Arch::Aarch64);
    assert_eq!(args.mode, Mode::LinkOnly);
}

#[test]
fn parse_args_inferred_target_yields_to_explicit() {
    let args = Args::parse_args(&toks(&["--target=riscv64-linux-gnu"]), Some(Arch::Aarch64))
        .unwrap();
    assert_eq!(args.arch, Arch::Riscv64);
    let args = Args::parse_args(&toks(&[]), Some(Arch::Aarch64)).unwrap();
    assert_eq!(args.arch, Arch::Aarch64);
}

#[test]
fn parse_args_missing_value_is_hard_error() {
    let err = Args::parse_args(&toks(&["--sysroot"]), None).unwrap_err();
    match err {
        DriverError::Parse(e) => assert_eq!(e.token, "--sysroot".to_string()),
        _ => panic!("expected a parse error"),
    }
}

#[test]
fn parse_args_bad_triple_is_hard_error() {
    let err = Args::parse_args(&toks(&["--target=mips-linux-gnu"]), None).unwrap_err();
    match err {
        DriverError::Triple(e) => {
            assert_eq!(e.kind, TripleErrorKind::UnsupportedArch);
            assert_eq!(e.input, "mips-linux-gnu".to_string());
        },
        _ => panic!("expected a triple error"),
    }
}

#[test]
fn target_triple_round_trip() {
    assert_eq!(target_arch("aarch64-pc-linux-gnu").unwrap(), Arch::Aarch64);
    assert_eq!(target_arch("aarch64-linux-gnu").unwrap(), Arch::Aarch64);
    assert_eq!(target_arch("x86_64-linux-gnu").unwrap(), Arch::X86_64);
    assert_eq!(target_arch("riscv64-pc-linux-gnu").unwrap(), Arch::Riscv64);
    assert!(target_arch("mips-linux-gnu").is_err());
}

#[test]
fn target_triple_error_kinds() {
    assert_eq!(target_arch("nodashes").unwrap_err().kind, TripleErrorKind::UnknownTriple);
    assert_eq!(
        target_arch("x86_64-pc-windows-msvc").unwrap_err().kind,
        TripleErrorKind::UnsupportedTriple
    );
    assert_eq!(
        target_arch("mips-linux-gnu").unwrap_err().kind,
        TripleErrorKind::UnsupportedArch
    );
}

#[test]
fn arch_catalog_values() {
    assert_eq!(Arch::X86_64.emulation(), "elf_x86_64");
    assert_eq!(Arch::Aarch64.emulation(), "aarch64linux");
    assert_eq!(Arch::Riscv64.emulation(), "elf64lriscv");
    assert_eq!(Arch::X86_64.dynamic_linker(), "/lib64/ld-linux-x86-64.so.2");
    assert_eq!(Arch::Aarch64.dynamic_linker(), "/lib/ld-linux-aarch64.so.1");
    assert_eq!(Arch::X86_64.name(), "x86_64");
}

#[test]
fn invocation_context_resolution() {
    assert_eq!(invocation_context("wild", "wild").unwrap(), (false, None));
    assert_eq!(invocation_context("clang++", "wild").unwrap(), (true, None));
    assert_eq!(
        invocation_context("x86_64-linux-gnu-gcc", "wild").unwrap(),
        (false, Some(Arch::X86_64))
    );
    assert_eq!(
        invocation_context("aarch64-linux-gnu-g++", "wild").unwrap(),
        (true, Some(Arch::Aarch64))
    );
    assert!(invocation_context("foo-gcc", "wild").is_err());
}

#[test]
fn declaration_without_binding_fails() {
    let mut parser = ArgParser::new();
    let err = ArgParser::declare_flag().short("q").build(&mut parser).unwrap_err();
    assert_eq!(err, DeclError::MissingBinding);
    let err = ArgParser::declare_arg().short("q").build(&mut parser).unwrap_err();
    assert_eq!(err, DeclError::MissingBinding);
}

#[test]
fn declaration_without_name_fails() {
    let mut parser = ArgParser::new();
    let err = ArgParser::declare_flag().bind(FlagField::Help).build(&mut parser).unwrap_err();
    assert_eq!(err, DeclError::MissingName);
    let err = ArgParser::declare_arg()
        .bind(ArgTarget::Single(SingleField::Out))
        .build(&mut parser)
        .unwrap_err();
    assert_eq!(err, DeclError::MissingName);
}

#[test]
fn negation_needs_declared_support() {
    let mut parser = setup_parser().unwrap();
    parser.parse(&toks(&["--shared"])).unwrap();
    assert!(parser.args.shared);
    parser.parse(&toks(&["--no-shared"])).unwrap();
    assert!(parser.args.shared);
    assert_eq!(parser.unknown_args, toks(&["--no-shared"]));
}

#[test]
fn clang_dump_two_lines() {
    let dump = "clang version 17.0.1\nTarget: x86_64-pc-linux-gnu\nThread model: posix\n \
                \"/usr/bin/clang-17\" -cc1 -triple x86_64 foo.c\n \"/usr/bin/ld\" -o a.out foo.o\n";
    let pipeline = parse_clang_dump(dump).unwrap();
    assert_eq!(
        pipeline.build_and_assemble,
        toks(&["\"/usr/bin/clang-17\" -cc1 -triple x86_64 foo.c"])
    );
    assert_eq!(pipeline.link, Some("\"/usr/bin/ld\" -o a.out foo.o".to_string()));
}

#[test]
fn clang_dump_compile_only_has_no_link() {
    let dump = "clang version 17.0.1\n (in-process)\n /usr/bin/clang-17 -cc1 -S foo.c\n";
    let pipeline = parse_clang_dump(dump).unwrap();
    assert_eq!(pipeline.build_and_assemble, toks(&["/usr/bin/clang-17 -cc1 -S foo.c"]));
    assert_eq!(pipeline.link, None);
}

#[test]
fn clang_dump_link_only() {
    let dump = "clang version 17.0.1\n /usr/bin/ld -o a.out foo.o\n";
    let pipeline = parse_clang_dump(dump).unwrap();
    assert!(pipeline.build_and_assemble.is_empty());
    assert_eq!(pipeline.link, Some("/usr/bin/ld -o a.out foo.o".to_string()));
}

#[test]
fn clang_dump_empty_is_an_error() {
    match parse_clang_dump("clang version 17.0.1\n").unwrap_err() {
        DumpError::NoCommands => {},
        _ => panic!("expected no commands"),
    }
}

#[test]
fn gcc_dump_pipeline() {
    let dump = "Using built-in specs.\nCOLLECT_GCC=gcc\n /usr/libexec/gcc/cc1plus foo.cpp\n \
                /usr/bin/as -o foo.o foo.s\n /usr/libexec/gcc/collect2 -o a.out foo.o\n";
    let pipeline = parse_gcc_dump(dump).unwrap();
    assert_eq!(
        pipeline.build_and_assemble,
        toks(&["/usr/libexec/gcc/cc1plus foo.cpp", "/usr/bin/as -o foo.o foo.s"])
    );
    assert_eq!(pipeline.link, Some("/usr/libexec/gcc/collect2 -o a.out foo.o".to_string()));
}

#[test]
fn gcc_dump_compile_only_keeps_all_commands() {
    let dump = "Using built-in specs.\n /usr/libexec/gcc/cc1 foo.c\n /usr/bin/as -o foo.o foo.s\n";
    let pipeline = parse_gcc_dump(dump).unwrap();
    assert_eq!(pipeline.build_and_assemble.len(), 2);
    assert_eq!(pipeline.link, None);
}

#[test]
fn gcc_dump_error_line_is_fatal() {
    let dump = "Using built-in specs.\ngcc: error: unrecognized command-line option\n \
                /usr/libexec/gcc/cc1 foo.c\n";
    match parse_gcc_dump(dump).unwrap_err() {
        DumpError::CompilerError(line) => {
            assert_eq!(line, "gcc: error: unrecognized command-line option".to_string());
        },
        _ => panic!("expected a compiler error"),
    }
}

#[test]
fn dump_flavor_detection() {
    assert_eq!(detect_dump_flavor("Using built-in specs.\n x\n"), DumpFlavor::Gcc);
    assert_eq!(detect_dump_flavor("clang version 17\n x\n"), DumpFlavor::Clang);
}

#[test]
fn highest_version_among_names() {
    let names = toks(&["4.9.2", "15.2.1", "10.1.0", "junk"]);
    assert_eq!(highest_version_index(&names), Some(1));
    assert_eq!(highest_version_index(&toks(&["junk", "dot"])), None);
    assert_eq!(highest_version_index(&toks(&["1.2.3", "1.2.3"])), Some(1));
}

#[test]
fn system_library_paths_by_kind() {
    let sys = system_library_paths(&OutputKind::DynamicPie, "/usr/lib64");
    assert_eq!(sys.crt1, Some("/usr/lib64/Scrt1.o".to_string()));
    assert_eq!(sys.crti, "/usr/lib64/crti.o".to_string());
    assert_eq!(sys.crtn, "/usr/lib64/crtn.o".to_string());
    assert_eq!(sys.library_paths, toks(&["/usr/lib64", "/lib64", "/lib", "/usr/lib"]));
    let sys = system_library_paths(&OutputKind::StaticPie, "/lib");
    assert_eq!(sys.crt1, Some("/lib/rcrt1.o".to_string()));
    let sys = system_library_paths(&OutputKind::Static, "/lib");
    assert_eq!(sys.crt1, Some("/lib/crt1.o".to_string()));
    let sys = system_library_paths(&OutputKind::SharedObject, "/lib");
    assert_eq!(sys.crt1, None);
}

#[test]
fn gcc_objects_pick_highest_version() {
    let g = gcc_objects(
        &OutputKind::DynamicPie,
        "/usr/lib/gcc/x86_64-pc-linux-gnu",
        &toks(&["14.1.0", "15.2.1"]),
    )
    .unwrap();
    assert_eq!(g.lib_dir, "/usr/lib/gcc/x86_64-pc-linux-gnu/15.2.1".to_string());
    assert_eq!(
        g.begin_object,
        "/usr/lib/gcc/x86_64-pc-linux-gnu/15.2.1/crtbeginS.o".to_string()
    );
    assert_eq!(g.end_object, "/usr/lib/gcc/x86_64-pc-linux-gnu/15.2.1/crtend.o".to_string());
    let g = gcc_objects(&OutputKind::Static, "/usr/lib/gcc/x86_64-pc-linux-gnu", &toks(&["15.2.1"]))
        .unwrap();
    assert!(g.begin_object.ends_with("crtbeginT.o"));
    match gcc_objects(&OutputKind::Static, "/root", &toks(&["junk"])).unwrap_err() {
        LinkError::NoGccVersionDirectory => {},
        _ => panic!("expected a version discovery failure"),
    }
}

#[test]
fn crt_probe_failure_is_fatal() {
    match resolve_system_library_paths(&OutputKind::DynamicPie, None).unwrap_err() {
        LinkError::NoCrtDirectory => {},
        _ => panic!("expected the missing-crti failure"),
    }
    let sys = resolve_system_library_paths(&OutputKind::DynamicPie, Some("/usr/lib64")).unwrap();
    assert_eq!(sys.crt1, Some("/usr/lib64/Scrt1.o".to_string()));
}

#[test]
fn driver_error_messages_carry_the_offender() {
    let err = Args::parse_args(&toks(&["--sysroot"]), None).unwrap_err();
    assert_eq!(err.message(), "unexpected end of arguments after: --sysroot".to_string());
    let err = Args::parse_args(&toks(&["--target=mips-linux-gnu"]), None).unwrap_err();
    assert_eq!(
        err.message(),
        "Unsupported target architecture in triple: mips-linux-gnu".to_string()
    );
}

#[test]
fn link_error_messages() {
    assert_eq!(
        LinkError::NoCrtDirectory.message(),
        "no system library directory holds crti.o".to_string()
    );
    assert_eq!(
        LinkError::NoGccVersionDirectory.message(),
        "no GCC version directory was found".to_string()
    );
}

#[test]
fn full_linker_invocation() {
    let args = Args::parse_args(&toks(&["foo.o"]), None).unwrap();
    let sys = system_library_paths(&args.output_kind, "/usr/lib64");
    let g = gcc_objects(
        &args.output_kind,
        "/usr/lib/gcc/x86_64-pc-linux-gnu",
        &toks(&["15.2.1"]),
    )
    .unwrap();
    let line = build_linker_invocation(&args, false, &sys, &g);
    assert_eq!(
        line,
        toks(&[
            "--hash-style=gnu",
            "--build-id",
            "--eh-frame-hdr",
            "-m",
            "elf_x86_64",
            "-pie",
            "--dynamic-linker",
            "/lib64/ld-linux-x86-64.so.2",
            "-o",
            "a.out",
            "/usr/lib64/Scrt1.o",
            "/usr/lib64/crti.o",
            "/usr/lib/gcc/x86_64-pc-linux-gnu/15.2.1/crtbeginS.o",
            "-L/usr/lib/gcc/x86_64-pc-linux-gnu/15.2.1",
            "-L/usr/lib64",
            "-L/lib64",
            "-L/lib",
            "-L/usr/lib",
            "foo.o",
            "-lgcc",
            "--as-needed",
            "-lgcc_s",
            "--no-as-needed",
            "-lc",
            "/usr/lib/gcc/x86_64-pc-linux-gnu/15.2.1/crtend.o",
            "/usr/lib64/crtn.o",
        ])
    );
}

#[test]
fn linker_invocation_with_caller_inputs() {
    let args = Args::parse_args(
        &toks(&["foo.o", "-L/opt/lib", "-lm", "-T/script.ld", "-Wl,-z,now", "-o", "prog"]),
        None,
    )
    .unwrap();
    let sys = system_library_paths(&args.output_kind, "/usr/lib64");
    let g = gcc_objects(
        &args.output_kind,
        "/usr/lib/gcc/x86_64-pc-linux-gnu",
        &toks(&["15.2.1"]),
    )
    .unwrap();
    let line = build_linker_invocation(&args, true, &sys, &g);
    let text = line.join(" ");
    assert!(text.contains("-o prog"));
    assert!(text.contains("foo.o -L/opt/lib -lm -T/script.ld -z now"));
    assert!(text.contains("-lstdc++ -lm -lgcc --as-needed -lgcc_s --no-as-needed -lc"));
}

#[test]
fn nodefaultlibs_suppresses_default_libraries() {
    let args = Args::parse_args(&toks(&["foo.o", "-nodefaultlibs"]), None).unwrap();
    let sys = system_library_paths(&args.output_kind, "/usr/lib64");
    let g = gcc_objects(
        &args.output_kind,
        "/usr/lib/gcc/x86_64-pc-linux-gnu",
        &toks(&["15.2.1"]),
    )
    .unwrap();
    let line = build_linker_invocation(&args, false, &sys, &g);
    assert!(!line.contains(&"-lgcc".to_string()));
    assert!(!line.contains(&"-lc".to_string()));
}

#[test]
fn static_link_uses_static_libraries() {
    let args = Args::parse_args(&toks(&["foo.o", "-static"]), None).unwrap();
    let sys = system_library_paths(&args.output_kind, "/usr/lib64");
    let g = gcc_objects(
        &args.output_kind,
        "/usr/lib/gcc/x86_64-pc-linux-gnu",
        &toks(&["15.2.1"]),
    )
    .unwrap();
    let line = build_linker_invocation(&args, false, &sys, &g);
    let text = line.join(" ");
    assert!(text.contains("-static"));
    assert!(text.contains("-lgcc -lgcc_eh -lc"));
    assert!(!text.contains("--as-needed"));
}

#[test]
fn delete_outputs_tracking() {
    let mut outputs = DeleteOutputs::with_capacity(2);
    assert!(outputs.outputs().is_empty());
    outputs.add_output("/tmp/a.o".to_string());
    outputs.add_output("/tmp/b.o".to_string());
    assert_eq!(outputs.outputs(), &toks(&["/tmp/a.o", "/tmp/b.o"]));
}

#[test]
fn round_trip_reparse_reproduces_the_record() {
    let first = Args::parse_args(
        &toks(&[
            "--pthread",
            "-static",
            "foo.c",
            "bar.o",
            "-o",
            "prog",
            "-L/opt/lib",
            "-lfoo",
            "-T/script.ld",
            "-Xlinker",
            "--build-id",
            "-funknown-option",
            "--sysroot=/sr",
            "-x",
            "c",
            "--target=aarch64-linux-gnu",
            "-B/tools",
        ]),
        None,
    )
    .unwrap();
    let reemitted = first.to_tokens();
    let second = Args::parse_args(&reemitted, None).unwrap();
    assert_eq!(second.pthread, first.pthread);
    assert_eq!(second.pie, first.pie);
    assert_eq!(second.shared, first.shared);
    assert_eq!(second.static_exe, first.static_exe);
    assert_eq!(second.static_pie, first.static_pie);
    assert_eq!(second.nodefaultlibs, first.nodefaultlibs);
    assert_eq!(second.nostartfiles, first.nostartfiles);
    assert_eq!(second.nostdlib, first.nostdlib);
    assert_eq!(second.coverage, first.coverage);
    assert_eq!(second.profile, first.profile);
    assert_eq!(second.dont_link, first.dont_link);
    assert_eq!(second.dont_assemble, first.dont_assemble);
    assert_eq!(second.help, first.help);
    assert_eq!(second.out, first.out);
    assert_eq!(second.output, first.output);
    assert_eq!(second.language, first.language);
    assert_eq!(second.target, first.target);
    assert_eq!(second.sysroot, first.sysroot);
    assert_eq!(second.compiler_b_args, first.compiler_b_args);
    assert_eq!(second.additional_libs, first.additional_libs);
    assert_eq!(second.additional_search_paths, first.additional_search_paths);
    assert_eq!(second.scripts, first.scripts);
    assert_eq!(second.linker_args, first.linker_args);
    assert_eq!(second.sources, first.sources);
    assert_eq!(second.objects, first.objects);
    assert_eq!(second.unknown_args, first.unknown_args);
    assert_eq!(second.mode, first.mode);
    assert_eq!(second.output_kind, first.output_kind);
    assert_eq!(second.arch, first.arch);
}

#[test]
fn round_trip_of_defaults_and_negations() {
    let first = Args::parse_args(&toks(&["-no-pie", "-c"]), None).unwrap();
    let second = Args::parse_args(&first.to_tokens(), None).unwrap();
    assert_eq!(second.pie, first.pie);
    assert_eq!(second.pthread, first.pthread);
    assert_eq!(second.dont_link, first.dont_link);
    assert_eq!(second.mode, first.mode);
    assert_eq!(second.output_kind, first.output_kind);
    assert_eq!(second.output, first.output);
}

#[test]
fn unknown_args_survive_into_record() {
    let args = Args::parse_args(&toks(&["-funroll-loops", "foo.o"]), None).unwrap();
    assert_eq!(args.unknown_args, toks(&["-funroll-loops"]));
    assert_eq!(args.objects, toks(&["foo.o"]));
}
