//! Following a link: the argument list of the child process that formats the linked
//! page and pages it with a new instance of this pager, and how its end is read.
use vstd::prelude::*;
use vstd::string::*;

use crate::man_page_info::nul_terminated;
use crate::text::chars_of;

verus! {

/// Relies on `libc::WIFEXITED`, which on Linux tests that the low seven bits of a wait
/// status are zero: the child exited rather than being stopped by a signal.
#[verifier::external_body]
fn exited_normally(status: i32) -> (r: bool)
    ensures
        r == (status & 0x7f == 0),
{
    libc::WIFEXITED(status)
}

/// Relies on `libc::WEXITSTATUS`, which on Linux takes bits 8 to 15 of a wait status:
/// the code the child exited with.
#[verifier::external_body]
fn exit_code(status: i32) -> (r: i32)
    ensures
        r == (status >> 8) & 0xff,
{
    libc::WEXITSTATUS(status)
}

/// Whether a followed link succeeded, given what waiting for the child returned and the
/// status it filled in: the wait succeeded and the child exited normally with code 0.
/// A failed wait, a signal or any other code is a failed jump.
pub fn jump_succeeded(wait_result: i32, status: i32) -> (r: bool)
    ensures
        r == (wait_result >= 0 && status & 0x7f == 0 && (status >> 8) & 0xff == 0),
{
    wait_result >= 0 && exited_normally(status) && exit_code(status) == 0
}

/// The argument that marks a pager started by another one, whose input the formatter has
/// already prepared at the right width.
pub open spec fn subsequent_run_flag() -> Seq<char> {
    "--subsequent-run"@
}

/// Whether the program's arguments, the program's own name first, hold the mark of a
/// pager started by another one.
pub fn is_subsequent_run(args: &Vec<String>) -> (r: bool)
    ensures
        r == exists|i: int| 1 <= i < args@.len() && #[trigger] args@[i]@ == subsequent_run_flag(),
{
    let flag = String::from_str("--subsequent-run");
    let mut i: usize = 1;
    while i < args.len()
        invariant
            flag@ == subsequent_run_flag(),
            1 <= i,
            forall|k: int| 1 <= k < i && k < args@.len() ==> #[trigger] args@[k]@ != subsequent_run_flag(),
        decreases args@.len() - i,
    {
        if args[i] == flag {
            return true;
        }
        i = i + 1;
    }
    false
}

/// The pager command handed to the formatter: the absolute path of this program and the
/// mark of a subsequent run.
pub fn pager_command(exe: &str) -> (r: String)
    ensures
        r@ == exe@ + seq![' '] + subsequent_run_flag(),
{
    proof {
        reveal_strlit(" ");
    }
    let r = String::from_str(exe).concat(" ");
    r.concat("--subsequent-run")
}

/// The argument list of the child that shows a page: the formatter `man`, its option
/// `-P` naming `pager` as the program to page with, then `section` and `name`, the two
/// arguments that [`crate::man_page_info::ManPageInfo::as_args`] gives, each a text followed by a NUL byte.
/// `None` where `pager` holds a NUL character, which no argument can carry.
pub fn man_command_args(pager: &str, section: Vec<u8>, name: Vec<u8>) -> (r: Option<
    Vec<Vec<u8>>,
>)
    ensures
        match r {
            Some(args) => {
                &&& forall|k: int| 0 <= k < pager@.len() ==> pager@[k] != '\0'
                &&& args@.len() == 5
                &&& args@[0]@ == nul_terminated("man"@)
                &&& args@[1]@ == nul_terminated("-P"@)
                &&& args@[2]@ == nul_terminated(pager@)
                &&& args@[3]@ == section@
                &&& args@[4]@ == name@
            },
            None => exists|k: int| 0 <= k < pager@.len() && pager@[k] == '\0',
        },
{
    let cs = chars_of(pager);
    let mut i: usize = 0;
    while i < cs.len()
        invariant
            cs@ == pager@,
            i <= cs@.len(),
            forall|k: int| 0 <= k < i ==> pager@[k] != '\0',
        decreases cs@.len() - i,
    {
        if cs[i] == '\0' {
            return None;
        }
        i = i + 1;
    }
    let mut program = "man".as_bytes_vec();
    program.push(0u8);
    let mut option = "-P".as_bytes_vec();
    option.push(0u8);
    let mut pager_arg = pager.as_bytes_vec();
    pager_arg.push(0u8);
    let mut args: Vec<Vec<u8>> = Vec::new();
    args.push(program);
    args.push(option);
    args.push(pager_arg);
    args.push(section);
    args.push(name);
    Some(args)
}

} // verus!
