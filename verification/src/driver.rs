//! The decisions of the command line driver: which arguments the compiler
//! and `cargo` are run with, and what their exit means.

use vstd::prelude::*;
use vstd::string::*;
use crate::text::{ends_with, is_suffix, text_eq, texts};

verus! {

/// Whether one of the arguments is `arg`.
pub open spec fn has_arg(args: Seq<Seq<char>>, arg: Seq<char>) -> bool {
    exists|k: int| 0 <= k < args.len() && #[trigger] args[k] == arg
}

/// Whether one of the arguments is `arg`.
pub fn contains_arg(args: &Vec<String>, arg: &str) -> (r: bool)
    ensures
        r == has_arg(texts(args@), arg@),
{
    let n = args.len();
    let mut k: usize = 0;
    while k < n
        invariant
            k <= n == args.len(),
            forall|i: int| 0 <= i < k ==> #[trigger] texts(args@)[i] != arg@,
        decreases n - k,
    {
        if text_eq(args[k].as_str(), arg) {
            assert(texts(args@)[k as int] == arg@);
            return true;
        }
        k += 1;
    }
    false
}

/// The arguments with which `cargo` is run to check one target: `rustc`,
/// the arguments given, a `--` if they hold none, and then the flags for
/// the compiler: where the dependencies are, the system root, and that no
/// code is to be made.
pub open spec fn cargo_args(old_args: Seq<Seq<char>>, dep_path: Seq<char>, sysroot: Seq<char>) -> Seq<
    Seq<char>,
> {
    seq!["rustc"@] + old_args + (if has_arg(old_args, "--"@) {
        Seq::empty()
    } else {
        seq!["--"@]
    }) + seq!["-L"@, dep_path, "--sysroot"@, sysroot, "-Zno-trans"@]
}

/// Builds the arguments for the run of `cargo` that checks one target.
pub fn process_args(old_args: Vec<String>, dep_path: &str, sysroot: &str) -> (args: Vec<String>)
    ensures
        texts(args@) == cargo_args(texts(old_args@), dep_path@, sysroot@),
{
    let found_dashes = contains_arg(&old_args, "--");
    let mut args: Vec<String> = Vec::new();
    args.push(String::from_str("rustc"));
    let mut old = old_args;
    args.append(&mut old);
    let ghost head = seq!["rustc"@] + texts(old_args@);
    assert(texts(args@) =~= head);
    if !found_dashes {
        args.push(String::from_str("--"));
    }
    let ghost middle = head + (if found_dashes {
        Seq::<Seq<char>>::empty()
    } else {
        seq!["--"@]
    });
    assert(texts(args@) =~= middle);
    args.push(String::from_str("-L"));
    args.push(String::from_str(dep_path));
    args.push(String::from_str("--sysroot"));
    args.push(String::from_str(sysroot));
    args.push(String::from_str("-Zno-trans"));
    assert(texts(args@) =~= middle + seq!["-L"@, dep_path@, "--sysroot"@, sysroot@, "-Zno-trans"@]);
    args
}

/// What the exit of `cargo` means: success, or the failure with its exit
/// code, or with -1 if it has none.
pub fn process_result(success: bool, code: Option<i32>) -> (r: Result<(), i32>)
    ensures
        r == (if success {
            Ok::<(), i32>(())
        } else {
            Err::<(), i32>(
                match code {
                    Some(c) => c,
                    None => -1i32,
                },
            )
        }),
{
    if success {
        Ok(())
    } else {
        Err(
            match code {
                Some(c) => c,
                None => -1,
            },
        )
    }
}

/// The arguments with which the compiler is run: those given, with the
/// system root added unless they name one.
pub open spec fn compiler_args(args: Seq<Seq<char>>, sys_root: Seq<char>) -> Seq<Seq<char>> {
    if has_arg(args, "--sysroot"@) {
        args
    } else {
        args + seq!["--sysroot"@, sys_root]
    }
}

/// Builds the arguments for the run of the compiler.
pub fn rustc_args(args: Vec<String>, sys_root: String) -> (r: Vec<String>)
    ensures
        texts(r@) == compiler_args(texts(args@), sys_root@),
{
    if contains_arg(&args, "--sysroot") {
        args
    } else {
        let mut r = args;
        r.push(String::from_str("--sysroot"));
        r.push(sys_root);
        assert(texts(r@) =~= texts(args@) + seq!["--sysroot"@, sys_root@]);
        r
    }
}

/// Whether the lints run: they do where no code is made, so that the
/// dependencies are built but not linted and the final crate is linted
/// but not built.
pub fn runs_lints(args: &Vec<String>) -> (r: bool)
    ensures
        r == has_arg(texts(args@), "-Zno-trans"@),
{
    contains_arg(args, "-Zno-trans")
}

/// Which target of a package a run of `cargo` checks.
#[derive(Debug, PartialEq, Eq)]
pub enum TargetChoice {
    Lib,
    Bin(String),
    /// A target of another kind: it is not checked.
    Skip,
    /// The package's description names no kind for the target.
    NoKind,
}

/// The choice for a target with the given kinds: the library for a target
/// of several kinds or of a kind that ends in `lib`, the binary for the
/// kind `bin`.
pub open spec fn target_choice_is(kinds: Seq<Seq<char>>, r: TargetChoice, name: Seq<char>) -> bool {
    if kinds.len() == 0 {
        r is NoKind
    } else if kinds.len() > 1 || is_suffix("lib"@, kinds[0]) {
        r is Lib
    } else if kinds[0] == "bin"@ {
        r matches TargetChoice::Bin(n) && n@ == name
    } else {
        r is Skip
    }
}

/// Chooses how the target `name` with the given kinds is checked.
pub fn choose_target(kinds: &Vec<String>, name: &str) -> (r: TargetChoice)
    ensures
        target_choice_is(texts(kinds@), r, name@),
{
    if kinds.len() == 0 {
        return TargetChoice::NoKind;
    }
    assert(texts(kinds@)[0] == kinds[0]@);
    if kinds.len() > 1 || ends_with(kinds[0].as_str(), "lib") {
        TargetChoice::Lib
    } else if text_eq(kinds[0].as_str(), "bin") {
        TargetChoice::Bin(String::from_str(name))
    } else {
        TargetChoice::Skip
    }
}

} // verus!
