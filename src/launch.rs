//! What the sandbox launcher is asked to run: the executor image, removed
//! when the run ends, with an argument list ending in the encoded descriptor.
use crate::syscall::{encoding, Operation, Syscall};
use vstd::prelude::*;

verus! {

/// One sandboxed run of the executor.
pub struct LaunchRequest {
    /// The image to run.
    pub image: String,
    /// Whether the sandbox is removed when the run ends.
    pub remove: bool,
    /// The program run inside the sandbox.
    pub command: String,
    /// The isolation arguments, then the encoded descriptor.
    pub args: Vec<String>,
}

/// The configured argument list could not be read.
#[derive(PartialEq, Eq, Structural, Clone, Copy, Debug)]
pub enum ConfigError {
    InvalidArguments,
}

pub open spec fn strings_view(v: Seq<String>) -> Seq<Seq<char>> {
    v.map_values(|s: String| s@)
}

/// The list of strings that a JSON text holds, when it holds one.
pub uninterp spec fn json_string_list(s: Seq<char>) -> Option<Seq<Seq<char>>>;

/// Relies on `serde_json::from_str::<Vec<String>>`: its result depends on
/// the text alone.
#[verifier::external_body]
fn parse_string_list(s: &str) -> (r: Option<Vec<String>>)
    ensures
        match r {
            Some(v) => json_string_list(s@) == Some(strings_view(v@)),
            None => json_string_list(s@) is None,
        },
{
    serde_json::from_str::<Vec<String>>(s).ok()
}

/// The isolation arguments common to both launches of a trial, from an
/// optional configuration value holding a JSON list of strings.
pub fn base_args(config: Option<&str>) -> (r: Result<Vec<String>, ConfigError>)
    ensures
        config is None ==> (r matches Ok(v) && v@.len() == 0),
        config matches Some(t) ==> match r {
            Ok(v) => json_string_list(t@) == Some(strings_view(v@)),
            Err(_) => json_string_list(t@) is None,
        },
{
    match config {
        None => Ok(Vec::new()),
        Some(t) => match parse_string_list(t) {
            Some(v) => Ok(v),
            None => Err(ConfigError::InvalidArguments),
        },
    }
}

fn push_copies(out: &mut Vec<String>, v: &Vec<String>)
    ensures
        strings_view(final(out)@) == strings_view(old(out)@) + strings_view(v@),
{
    let mut k: usize = 0;
    while k < v.len()
        invariant
            k <= v.len(),
            strings_view(out@) == strings_view(old(out)@) + strings_view(v@.subrange(0, k as int)),
        decreases v.len() - k,
    {
        let ghost before = out@;
        out.push(v[k].clone());
        assert(strings_view(out@) =~= strings_view(before) + seq![v@[k as int]@]);
        assert(strings_view(v@.subrange(0, k as int + 1)) =~= strings_view(v@.subrange(0, k as int))
            + seq![v@[k as int]@]);
        k = k + 1;
    }
    assert(v@.subrange(0, k as int) =~= v@);
}

/// The request for one run: the executor image, removed when the run ends,
/// with `base` and then `extra` as isolation arguments and the descriptor's
/// wire text as the executor's sole argument.
pub fn launch_request(base: &Vec<String>, extra: &Vec<String>, op: &Operation) -> (r: LaunchRequest)
    ensures
        r.image@ == "subuidless/executor:latest"@,
        r.remove,
        r.command@ == "executor"@,
        strings_view(r.args@) == strings_view(base@) + strings_view(extra@) + seq![encoding(op@)],
{
    let mut args: Vec<String> = Vec::new();
    push_copies(&mut args, base);
    push_copies(&mut args, extra);
    let ghost before = args@;
    args.push(op.encode());
    assert(strings_view(args@) =~= strings_view(before) + seq![encoding(op@)]);
    assert(strings_view(Seq::<String>::empty()) =~= Seq::<Seq<char>>::empty());
    LaunchRequest {
        image: "subuidless/executor:latest".to_owned(),
        remove: true,
        command: "executor".to_owned(),
        args,
    }
}

/// The two requests of a trial: the test run with the extra arguments under
/// test, and the baseline run without them. Both carry the common arguments,
/// so the extra arguments are the only difference between them.
pub fn trial_requests(base: &Vec<String>, test_extra: &Vec<String>, op: &Operation) -> (r: (
    LaunchRequest,
    LaunchRequest,
))
    ensures
        r.0.remove && r.1.remove,
        r.0.image@ == "subuidless/executor:latest"@,
        r.1.image@ == "subuidless/executor:latest"@,
        r.0.command@ == "executor"@,
        r.1.command@ == "executor"@,
        strings_view(r.0.args@) == strings_view(base@) + strings_view(test_extra@) + seq![
            encoding(op@),
        ],
        strings_view(r.1.args@) == strings_view(base@) + seq![encoding(op@)],
{
    let none: Vec<String> = Vec::new();
    let test = launch_request(base, test_extra, op);
    let baseline = launch_request(base, &none, op);
    assert(strings_view(none@) =~= Seq::<Seq<char>>::empty());
    assert(strings_view(base@) + Seq::<Seq<char>>::empty() =~= strings_view(base@));
    (test, baseline)
}

} // verus!
