//! Architecture catalog: the closed set of supported targets, their ELF
//! emulation names and dynamic-linker paths, and the parsing of a target
//! triple of the shape `<arch>-<vendor>-linux-gnu`.

use vstd::prelude::*;
use vstd::string::*;
use crate::text::{find_char_in, str_eq, str_find_char};

verus! {

#[derive(Clone, Copy, Debug, PartialEq, Eq, Structural)]
pub enum Arch {
    X86_64,
    Aarch64,
    Riscv64,
}

impl Default for Arch {
    /// The compile-host default that applies when no target is given.
    fn default() -> (r: Self)
        ensures
            r == Arch::X86_64,
    {
        Arch::X86_64
    }
}

/// The plain name of the architecture, as it appears in a target triple.
pub open spec fn spec_arch_name(a: Arch) -> Seq<char> {
    match a {
        Arch::X86_64 => "x86_64"@,
        Arch::Aarch64 => "aarch64"@,
        Arch::Riscv64 => "riscv64"@,
    }
}

/// The linker `-m` emulation value for the architecture.
pub open spec fn spec_emulation(a: Arch) -> Seq<char> {
    match a {
        Arch::X86_64 => "elf_x86_64"@,
        Arch::Aarch64 => "aarch64linux"@,
        Arch::Riscv64 => "elf64lriscv"@,
    }
}

/// The absolute path of the dynamic linker for the architecture.
pub open spec fn spec_dynamic_linker(a: Arch) -> Seq<char> {
    match a {
        Arch::X86_64 => "/lib64/ld-linux-x86-64.so.2"@,
        Arch::Aarch64 => "/lib/ld-linux-aarch64.so.1"@,
        Arch::Riscv64 => "/lib/ld-linux-riscv64-lp64d.so.1"@,
    }
}

/// The architecture named `s`, for the three supported names.
pub open spec fn spec_arch_from_name(s: Seq<char>) -> Option<Arch> {
    if s == "x86_64"@ {
        Some(Arch::X86_64)
    } else if s == "aarch64"@ {
        Some(Arch::Aarch64)
    } else if s == "riscv64"@ {
        Some(Arch::Riscv64)
    } else {
        None
    }
}

impl Arch {
    pub fn name(&self) -> (r: &'static str)
        ensures
            r@ == spec_arch_name(*self),
    {
        match self {
            Arch::X86_64 => "x86_64",
            Arch::Aarch64 => "aarch64",
            Arch::Riscv64 => "riscv64",
        }
    }

    pub fn emulation(&self) -> (r: &'static str)
        ensures
            r@ == spec_emulation(*self),
    {
        match self {
            Arch::X86_64 => "elf_x86_64",
            Arch::Aarch64 => "aarch64linux",
            Arch::Riscv64 => "elf64lriscv",
        }
    }

    pub fn dynamic_linker(&self) -> (r: &'static str)
        ensures
            r@ == spec_dynamic_linker(*self),
    {
        match self {
            Arch::X86_64 => "/lib64/ld-linux-x86-64.so.2",
            Arch::Aarch64 => "/lib/ld-linux-aarch64.so.1",
            Arch::Riscv64 => "/lib/ld-linux-riscv64-lp64d.so.1",
        }
    }

    pub fn from_name(s: &str) -> (r: Option<Arch>)
        ensures
            r == spec_arch_from_name(s@),
    {
        if str_eq(s, "x86_64") {
            Some(Arch::X86_64)
        } else if str_eq(s, "aarch64") {
            Some(Arch::Aarch64)
        } else if str_eq(s, "riscv64") {
            Some(Arch::Riscv64)
        } else {
            None
        }
    }
}

/// Why a target triple was rejected.
#[derive(Debug, PartialEq, Eq, Structural, Clone)]
pub enum TripleErrorKind {
    /// The string holds no `-` separator at all.
    UnknownTriple,
    /// The part after the architecture is not a `linux-gnu` ABI.
    UnsupportedTriple,
    /// The architecture name is not one of the supported set.
    UnsupportedArch,
}

/// A rejected target triple, together with the offending string.
#[derive(Debug)]
pub struct TripleError {
    pub kind: TripleErrorKind,
    pub input: String,
}

impl TripleError {
    pub fn message(&self) -> (r: String)
        ensures
            r@ == spec_triple_error_prefix(self.kind) + self.input@,
    {
        let prefix: &str = match self.kind {
            TripleErrorKind::UnknownTriple => "Unknown target triple: ",
            TripleErrorKind::UnsupportedTriple => "Unsupported target triple: ",
            TripleErrorKind::UnsupportedArch => "Unsupported target architecture in triple: ",
        };
        crate::text::concat2(prefix, self.input.as_str())
    }
}

pub open spec fn spec_triple_error_prefix(kind: TripleErrorKind) -> Seq<char> {
    match kind {
        TripleErrorKind::UnknownTriple => "Unknown target triple: "@,
        TripleErrorKind::UnsupportedTriple => "Unsupported target triple: "@,
        TripleErrorKind::UnsupportedArch => "Unsupported target architecture in triple: "@,
    }
}

/// What `target_arch` yields on `s`: the architecture before the first `-`,
/// provided the remainder is `linux-gnu` or `pc-linux-gnu`.
pub open spec fn spec_target_arch(s: Seq<char>) -> Result<Arch, TripleErrorKind> {
    match find_char_in(s, '-') {
        None => Err(TripleErrorKind::UnknownTriple),
        Some(i) => {
            let arch_name = s.subrange(0, i);
            let rest = s.subrange(i + 1, s.len() as int);
            if rest != "linux-gnu"@ && rest != "pc-linux-gnu"@ {
                Err(TripleErrorKind::UnsupportedTriple)
            } else {
                match spec_arch_from_name(arch_name) {
                    Some(a) => Ok(a),
                    None => Err(TripleErrorKind::UnsupportedArch),
                }
            }
        },
    }
}

/// Parses the architecture out of a target triple and checks that the triple
/// names a supported Linux-gnu target.
pub fn target_arch(s: &str) -> (r: Result<Arch, TripleError>)
    ensures
        match r {
            Ok(a) => spec_target_arch(s@) == Ok::<Arch, TripleErrorKind>(a),
            Err(e) => spec_target_arch(s@) == Err::<Arch, TripleErrorKind>(e.kind) && e.input@
                == s@,
        },
{
    let slen = s.unicode_len();
    match str_find_char(s, '-') {
        None => Err(TripleError { kind: TripleErrorKind::UnknownTriple, input: s.to_owned() }),
        Some(i) => {
            proof {
                crate::text::lemma_find_char_in(s@, '-');
            }
            let arch_name = s.substring_char(0, i);
            let rest = s.substring_char(i + 1, slen);
            if !str_eq(rest, "linux-gnu") && !str_eq(rest, "pc-linux-gnu") {
                Err(TripleError { kind: TripleErrorKind::UnsupportedTriple, input: s.to_owned() })
            } else {
                match Arch::from_name(arch_name) {
                    Some(a) => Ok(a),
                    None => Err(
                        TripleError { kind: TripleErrorKind::UnsupportedArch, input: s.to_owned() },
                    ),
                }
            }
        },
    }
}

} // verus!
