//! Where the results of an experiment are written.
//!
//! The results of an experiment are kept beside the experiments, in a
//! directory tree of the same shape: the file `experiments/a/b.yaml` has
//! its results in `results/a/b.json`.

use std::hash::{Hash, Hasher};
use vstd::prelude::*;
use crate::seqs::lemma_take_push;
use crate::text::{decimal, push_decimal, texts};

verus! {

/// `i` is the last position at which `components` holds `name`.
pub open spec fn is_last_named(components: Seq<Seq<char>>, name: Seq<char>, i: int) -> bool {
    &&& 0 <= i < components.len()
    &&& components[i] == name
    &&& forall|j: int| i < j < components.len() ==> #[trigger] components[j] != name
}

/// The components of a path with the deepest directory that is named
/// `experiments` turned into `results`. A path without such a directory
/// stays as it is.
pub open spec fn mirrored(components: Seq<Seq<char>>) -> Seq<Seq<char>> {
    if exists|i: int| is_last_named(components, "experiments"@, i) {
        let i = choose|i: int| is_last_named(components, "experiments"@, i);
        components.update(i, "results"@)
    } else {
        components
    }
}

/// Turns the components of the path of an experiment into those of the
/// path of its results: the deepest directory that is named `experiments`
/// becomes `results`.
pub fn mirror_results(components: Vec<String>) -> (r: Vec<String>)
    ensures
        texts(r@) == mirrored(texts(components@)),
{
    let ghost all = texts(components@);
    let ghost name = "experiments"@;
    let mut experiments = String::new();
    experiments.append("experiments");
    assert(experiments@ =~= name);
    // The last position that holds the name, or the length if none does.
    let mut last: usize = components.len();
    let mut i: usize = components.len();
    while i > 0 && last == components.len()
        invariant
            i <= components.len(),
            all == texts(components@),
            name == "experiments"@,
            experiments@ == name,
            last <= components.len(),
            last < components.len() ==> is_last_named(all, name, last as int),
            last == components.len() ==> forall|j: int|
                i <= j < components.len() ==> #[trigger] all[j] != name,
        decreases i,
    {
        i = i - 1;
        assert(all[i as int] == components@[i as int]@);
        if components[i].eq(&experiments) {
            last = i;
        }
    }
    if last == components.len() {
        proof {
            assert forall|k: int| !is_last_named(all, name, k) by {}
        }
        return components;
    }
    proof {
        let k = choose|k: int| is_last_named(all, name, k);
        if k < last {
            assert(all[last as int] != name);
        } else if last < k {
            assert(all[k] != name);
        }
    }
    let mut r: Vec<String> = Vec::new();
    let ghost target = all.update(last as int, "results"@);
    let n = components.len();
    for x in it: components
        invariant
            n == all.len(),
            last < n,
            texts(it.seq()) == all,
            it.seq().len() == n,
            r.len() == it.index(),
            target == all.update(last as int, "results"@),
            texts(r@) == target.take(it.index() as int),
    {
        let ghost k = it.index() as int;
        let ghost before = r@;
        proof {
            assert(all[k] == it.seq()[k]@);
        }
        if r.len() == last {
            let mut replaced = String::new();
            replaced.append("results");
            assert(replaced@ =~= "results"@);
            r.push(replaced);
        } else {
            r.push(x);
        }
        proof {
            assert(texts(r@) =~= texts(before).push(target[k]));
            lemma_take_push(target, k);
        }
    }
    proof {
        assert(target.take(n as int) == target);
    }
    r
}

/// The name of the file that keeps the results of one run: the name of
/// the experiment, an underscore, the time of the run, and `.json`.
pub fn log_file_name(experiment: &str, time: &str) -> (name: String)
    ensures
        name@ == experiment@ + "_"@ + time@ + ".json"@,
{
    let mut name = String::new();
    name.append(experiment);
    name.append("_");
    name.append(time);
    name.append(".json");
    assert(name@ =~= experiment@ + "_"@ + time@ + ".json"@);
    name
}

/// The time of the machine in its own time zone, to the second, written
/// as in RFC 3339: what `chrono::Local::now` gives, with its nanoseconds
/// set to 0 by `with_nanosecond` and written by `to_rfc3339`. Nothing is
/// claimed of it.
#[verifier::external_body]
fn local_time() -> (time: String) {
    let now = chrono::Local::now();
    chrono::Timelike::with_nanosecond(&now, 0).unwrap_or(now).to_rfc3339()
}

/// The name of the file that keeps the results of a run that ends now:
/// the name of the experiment, an underscore, the time, and `.json`.
pub fn log_file_now(experiment: &str) -> (name: String)
    ensures
        exists|time: Seq<char>| name@ == experiment@ + "_"@ + time + ".json"@,
{
    let time = local_time();
    let name = log_file_name(experiment, time.as_str());
    assert(name@ == experiment@ + "_"@ + time@ + ".json"@);
    name
}

/// The path, below the directory of the data, of the file that keeps
/// sequence pairs with the hash `hash`.
pub open spec fn data_file_text(hash: u64) -> Seq<char> {
    "manual/"@ + decimal(hash as nat) + ".seq"@
}

/// The path, below the directory of the data, of the file that keeps
/// sequence pairs with the hash `hash`.
pub fn data_file_name(hash: u64) -> (name: String)
    ensures
        name@ == data_file_text(hash),
{
    let mut name = String::new();
    name.append("manual/");
    push_decimal(&mut name, hash);
    name.append(".seq");
    assert(name@ =~= data_file_text(hash));
    name
}

/// The hash of sequence pairs, by `fxhash::FxHasher`: the pairs are fed
/// to a hasher in its first state, and the hasher is asked for its value.
/// The value depends on the width of the numbers of the machine, so it is
/// given no name and nothing is claimed of it.
#[verifier::external_body]
fn hash_of_pairs(pairs: &Vec<(String, String)>) -> (hash: u64) {
    let mut state = fxhash::FxHasher::default();
    pairs.hash(&mut state);
    state.finish()
}

/// The path, below the directory of the data, of the file that keeps the
/// sequence pairs `pairs`. It is named by a hash of the pairs, so that
/// the same pairs are kept in the same file.
pub fn data_file_of(pairs: &Vec<(String, String)>) -> (name: String)
    ensures
        exists|hash: u64| name@ == data_file_text(hash),
{
    let hash = hash_of_pairs(pairs);
    let name = data_file_name(hash);
    assert(name@ == data_file_text(hash));
    name
}

} // verus!
