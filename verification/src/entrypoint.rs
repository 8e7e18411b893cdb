//! Turning a manifest entrypoint into a process command line.

use vstd::prelude::*;
use crate::resolver::{CapsuleExecution, RuntimeType};
use crate::text::{copy_strings, strs_view};

verus! {

/// The words `shell_words::split` makes of a command line, or `None` where a
/// quote is left open.
pub uninterp spec fn shell_words_of(line: Seq<char>) -> Option<Seq<Seq<char>>>;

/// `shell_words::split`: splits a command line into words as a POSIX shell
/// would, removing quotes and expanding nothing; fails on an unmatched
/// quote. The contract names the words; the quoting rules are not spelled out.
#[verifier::external_body]
pub(crate) fn split_words(line: &str) -> (r: Option<Vec<String>>)
    ensures
        match r {
            Some(v) => shell_words_of(line@) == Some(strs_view(v@)),
            None => shell_words_of(line@) is None,
        },
{
    shell_words::split(line).ok()
}

/// The words of an entrypoint: its shell words, or the whole entrypoint as
/// one word where it does not split.
pub open spec fn entry_words(entrypoint: Seq<char>, words: Option<Seq<Seq<char>>>) -> Seq<Seq<char>> {
    match words {
        Some(w) => w,
        None => seq![entrypoint],
    }
}

/// The process arguments of a workload. For native and source runtimes: the
/// entrypoint's words, with everything after the program replaced by
/// `extra_args` when those are given and not empty. For other runtimes: the
/// extra arguments, or none, so that the image keeps its own command.
pub open spec fn derived_args(
    runtime: RuntimeType,
    entrypoint: Seq<char>,
    words: Option<Seq<Seq<char>>>,
    extra_args: Option<Seq<Seq<char>>>,
) -> Seq<Seq<char>> {
    if runtime == RuntimeType::Native || runtime == RuntimeType::Source {
        let parts = entry_words(entrypoint, words);
        if parts.len() == 0 {
            Seq::empty()
        } else {
            match extra_args {
                Some(extra) => if extra.len() > 0 {
                    seq![parts[0]] + extra
                } else {
                    parts
                },
                None => parts,
            }
        }
    } else {
        match extra_args {
            Some(extra) => extra,
            None => Seq::empty(),
        }
    }
}

/// The process arguments, given the entrypoint's shell words (`None` where
/// they did not split).
pub fn derive_args_from_words(
    execution: &CapsuleExecution,
    words: Option<Vec<String>>,
    extra_args: Option<&Vec<String>>,
) -> (r: Vec<String>)
    ensures
        strs_view(r@) == derived_args(
            execution.runtime,
            execution.entrypoint@,
            match words {
                Some(w) => Some(strs_view(w@)),
                None => None,
            },
            match extra_args {
                Some(e) => Some(strs_view(e@)),
                None => None,
            },
        ),
{
    let is_native_or_source = match execution.runtime {
        RuntimeType::Native | RuntimeType::Source => true,
        _ => false,
    };
    if is_native_or_source {
        let parts = match words {
            Some(w) => w,
            None => {
                let mut v: Vec<String> = Vec::new();
                v.push(execution.entrypoint.clone());
                assert(strs_view(v@) =~= seq![execution.entrypoint@]);
                v
            },
        };
        if parts.len() == 0 {
            let r: Vec<String> = Vec::new();
            assert(strs_view(r@) =~= Seq::<Seq<char>>::empty());
            return r;
        }
        match extra_args {
            Some(extra) => {
                if extra.len() > 0 {
                    let mut r: Vec<String> = Vec::new();
                    r.push(parts[0].clone());
                    let mut i: usize = 0;
                    while i < extra.len()
                        invariant
                            r@.len() == i + 1,
                            i <= extra@.len(),
                            r@[0]@ == parts@[0]@,
                            forall|k: int| 0 <= k < i ==> #[trigger] r@[k + 1]@ == extra@[k]@,
                        decreases extra@.len() - i,
                    {
                        r.push(extra[i].clone());
                        i += 1;
                    }
                    let ghost want = seq![strs_view(parts@)[0]] + strs_view(extra@);
                    assert(want.len() == r@.len());
                    assert forall|k: int| 0 <= k < r@.len() implies strs_view(r@)[k] == want[k] by {
                        if k > 0 {
                            assert(r@[(k - 1) + 1]@ == extra@[k - 1]@);
                        }
                    }
                    assert(strs_view(r@) =~= want);
                    r
                } else {
                    parts
                }
            },
            None => parts,
        }
    } else {
        match extra_args {
            Some(extra) => copy_strings(extra),
            None => {
                let r: Vec<String> = Vec::new();
                assert(strs_view(r@) =~= Seq::<Seq<char>>::empty());
                r
            },
        }
    }
}

/// The process arguments of a workload (`derive_args`): the entrypoint is
/// split into shell words first.
pub fn derive_args(execution: &CapsuleExecution, extra_args: Option<&Vec<String>>) -> (r: Vec<String>)
    ensures
        strs_view(r@) == derived_args(
            execution.runtime,
            execution.entrypoint@,
            shell_words_of(execution.entrypoint@),
            match extra_args {
                Some(e) => Some(strs_view(e@)),
                None => None,
            },
        ),
{
    let words = split_words(execution.entrypoint.as_str());
    derive_args_from_words(execution, words, extra_args)
}

} // verus!
