//! What the server is started with.

use crate::text::{option_text, string_texts};
use itertools::Itertools;
use vstd::prelude::*;
use vstd::string::StringExecFns;

verus! {

/// What the server was started with. It is made once and only read after.
#[derive(Debug, Clone, PartialEq, Eq)]
pub struct ProgramEnv {
    /// The directory that the `/files/` routes serve and fill; without one
    /// they answer `404 Not Found`.
    pub files_dir: Option<String>,
}

impl View for ProgramEnv {
    type V = Option<Seq<char>>;

    open spec fn view(&self) -> Option<Seq<char>> {
        option_text(self.files_dir)
    }
}

/// `items` two by two, in their order; a last item without a partner is
/// left out.
pub open spec fn pairs_of(items: Seq<Seq<char>>) -> Seq<(Seq<char>, Seq<char>)> {
    Seq::new((items.len() / 2) as nat, |k: int| (items[2 * k], items[2 * k + 1]))
}

/// The second half of the last of `pairs` whose first half is `flag`.
pub open spec fn last_value(pairs: Seq<(Seq<char>, Seq<char>)>, flag: Seq<char>) -> Option<
    Seq<char>,
>
    decreases pairs.len(),
{
    if pairs.len() == 0 {
        None
    } else if pairs.last().0 == flag {
        Some(pairs.last().1)
    } else {
        last_value(pairs.drop_last(), flag)
    }
}

/// What follows the name of the program on the command line.
pub open spec fn options(args: Seq<Seq<char>>) -> Seq<Seq<char>> {
    if args.len() == 0 {
        args
    } else {
        args.drop_first()
    }
}

/// The directory that the command line gives. The options are taken two by
/// two, and the last pair that begins with `--directory` names it; so the
/// flag counts only at an odd place of the command line.
pub open spec fn directory_flag(args: Seq<Seq<char>>) -> Option<Seq<char>> {
    last_value(pairs_of(options(args)), "--directory"@)
}

/// `Itertools::tuples`, asked for pairs: the items two by two, in their
/// order, a last item without a partner left out.
#[verifier::external_body]
fn in_pairs(items: Vec<String>) -> (pairs: Vec<(String, String)>)
    ensures
        pairs@.len() == items@.len() / 2,
        forall|k: int|
            0 <= k < pairs@.len() ==> (#[trigger] pairs@[k]).0@ == items@[2 * k]@
                && pairs@[k].1@ == items@[2 * k + 1]@,
{
    items.into_iter().tuples().collect()
}

/// The pairs as plain values.
pub open spec fn pair_texts(pairs: Seq<(String, String)>) -> Seq<(Seq<char>, Seq<char>)> {
    pairs.map_values(|pair: (String, String)| (pair.0@, pair.1@))
}

impl ProgramEnv {
    /// Reads the command line, the name of the program included.
    pub fn from_args(args: Vec<String>) -> (env: ProgramEnv)
        ensures
            env@ == directory_flag(string_texts(args@)),
    {
        let ghost given = string_texts(args@);
        let mut rest = args;
        if rest.len() > 0 {
            rest.remove(0);
        }
        let pairs = in_pairs(rest);
        assert(pair_texts(pairs@) =~= pairs_of(options(given)));
        let flag = String::from_str("--directory");
        let mut files_dir: Option<String> = None;
        let mut k: usize = 0;
        while k < pairs.len()
            invariant
                k <= pairs@.len(),
                flag@ == "--directory"@,
                option_text(files_dir) == last_value(pair_texts(pairs@).take(k as int), flag@),
            decreases pairs@.len() - k,
        {
            assert(pair_texts(pairs@).take(k + 1).drop_last() =~= pair_texts(pairs@).take(
                k as int,
            ));
            if pairs[k].0 == flag {
                files_dir = Some(pairs[k].1.clone());
            }
            k += 1;
        }
        assert(pair_texts(pairs@).take(k as int) =~= pair_texts(pairs@));
        ProgramEnv { files_dir }
    }
}

} // verus!
