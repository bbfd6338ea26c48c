//! Reads the switches and the definition files from the command line.

use crate::text::{chars_of, same_chars};
use vstd::prelude::*;

verus! {

/// What the command line asks for.
#[derive(Debug)]
pub struct ParsedArgs {
    pub ioc_definitions: Vec<String>,
    pub local_mode: bool,
    pub raw_console_mode: bool,
    pub cert_check: bool,
    pub conn_check: bool,
    pub dns_check: bool,
    pub file_check: bool,
    pub mutex_check: bool,
    pub process_check: bool,
    pub registry_check: bool,
}

/// Whether two strings hold the same characters.
pub fn same_text(a: &str, b: &str) -> (same: bool)
    ensures
        same == (a@ == b@),
{
    let a_chars = chars_of(a);
    let b_chars = chars_of(b);
    same_chars(a_chars.as_slice(), b_chars.as_slice())
}

/// The argument is one of the switches.
pub open spec fn is_switch(arg: Seq<char>) -> bool {
    ||| arg == "--local"@
    ||| arg == "-l"@
    ||| arg == "--raw"@
    ||| arg == "-r"@
    ||| arg == "--dis-cert"@
    ||| arg == "--dis-conn"@
    ||| arg == "--dis-dns"@
    ||| arg == "--dis-file"@
    ||| arg == "--dis-mutex"@
    ||| arg == "--dis-proc"@
    ||| arg == "--dis-reg"@
}

/// Some argument is the given switch.
pub open spec fn has_switch(args: Seq<String>, switch: Seq<char>) -> bool {
    exists|i: int| 0 <= i < args.len() && (#[trigger] args[i])@ == switch
}

/// The arguments that are no switches, in order: the definition files.
pub open spec fn definition_files(args: Seq<String>) -> Seq<String> {
    args.filter(|arg: String| !is_switch(arg@))
}

/// Whether some argument is the given switch.
pub fn switch_given(args: &[String], switch: &str) -> (given: bool)
    ensures
        given == has_switch(args@, switch@),
{
    let mut at: usize = 0;
    while at < args.len()
        invariant
            at <= args.len(),
            forall|i: int| 0 <= i < at ==> (#[trigger] args@[i])@ != switch@,
        decreases args.len() - at,
    {
        if same_text(args[at].as_str(), switch) {
            return true;
        }
        at += 1;
    }
    false
}

/// Whether the argument is one of the switches.
pub fn names_switch(arg: &str) -> (switch: bool)
    ensures
        switch == is_switch(arg@),
{
    same_text(arg, "--local") || same_text(arg, "-l") || same_text(arg, "--raw") || same_text(
        arg,
        "-r",
    ) || same_text(arg, "--dis-cert") || same_text(arg, "--dis-conn") || same_text(
        arg,
        "--dis-dns",
    ) || same_text(arg, "--dis-file") || same_text(arg, "--dis-mutex") || same_text(
        arg,
        "--dis-proc",
    ) || same_text(arg, "--dis-reg")
}

/// Reads the arguments that follow the program's name. Every check is on
/// unless its switch turns it off; whatever is no switch names a file of
/// definitions.
pub fn parsed_args(args: &[String]) -> (parsed: ParsedArgs)
    ensures
        parsed.ioc_definitions@ == definition_files(args@),
        parsed.local_mode == (has_switch(args@, "--local"@) || has_switch(args@, "-l"@)),
        parsed.raw_console_mode == (has_switch(args@, "--raw"@) || has_switch(args@, "-r"@)),
        parsed.cert_check == !has_switch(args@, "--dis-cert"@),
        parsed.conn_check == !has_switch(args@, "--dis-conn"@),
        parsed.dns_check == !has_switch(args@, "--dis-dns"@),
        parsed.file_check == !has_switch(args@, "--dis-file"@),
        parsed.mutex_check == !has_switch(args@, "--dis-mutex"@),
        parsed.process_check == !has_switch(args@, "--dis-proc"@),
        parsed.registry_check == !has_switch(args@, "--dis-reg"@),
{
    let mut ioc_definitions: Vec<String> = Vec::new();
    let mut at: usize = 0;
    while at < args.len()
        invariant
            at <= args.len(),
            ioc_definitions@ == definition_files(args@.take(at as int)),
        decreases args.len() - at,
    {
        proof {
            assert(args@.take(at + 1) =~= args@.take(at as int).push(args@[at as int]));
            args@.take(at as int).lemma_filter_push(
                args@[at as int],
                |arg: String| !is_switch(arg@),
            );
        }
        if !names_switch(args[at].as_str()) {
            ioc_definitions.push(args[at].clone());
        }
        at += 1;
    }
    assert(args@.take(at as int) =~= args@);
    ParsedArgs {
        ioc_definitions,
        local_mode: switch_given(args, "--local") || switch_given(args, "-l"),
        raw_console_mode: switch_given(args, "--raw") || switch_given(args, "-r"),
        cert_check: !switch_given(args, "--dis-cert"),
        conn_check: !switch_given(args, "--dis-conn"),
        dns_check: !switch_given(args, "--dis-dns"),
        file_check: !switch_given(args, "--dis-file"),
        mutex_check: !switch_given(args, "--dis-mutex"),
        process_check: !switch_given(args, "--dis-proc"),
        registry_check: !switch_given(args, "--dis-reg"),
    }
}

} // verus!
