//! Local diagnostics: the error report the frontend sends, and which log
//! files a bounded log directory gives up at startup.
use vstd::prelude::*;

use crate::text::chars_of;

verus! {

/// An error report sent from the frontend's error boundary.
#[derive(Clone, Debug)]
pub struct ClientErrorReport {
    pub category: String,
    pub message: String,
    pub diagnostic_code: String,
}

/// Whether a file name has the extension `log`: it ends in `.log` and that
/// dot does not start the name.
pub open spec fn has_log_extension(name: Seq<char>) -> bool {
    &&& name.len() >= 5
    &&& name.subrange(name.len() - 4, name.len() as int) == seq!['.', 'l', 'o', 'g']
}

/// Whether a file name has the extension `log`.
pub fn is_log_file(name: &str) -> (result: bool)
    ensures
        result == has_log_extension(name@),
{
    let chars = chars_of(name);
    let n = chars.len();
    if n < 5 {
        return false;
    }
    let result = chars[n - 4] == '.' && chars[n - 3] == 'l' && chars[n - 2] == 'o' && chars[n - 1] == 'g';
    proof {
        let tail = name@.subrange(n - 4, n as int);
        if result {
            assert(tail =~= seq!['.', 'l', 'o', 'g']);
        } else {
            if tail == seq!['.', 'l', 'o', 'g'] {
                assert(tail[0] == '.' && tail[1] == 'l' && tail[2] == 'o' && tail[3] == 'g');
            }
        }
    }
    result
}

/// Modification times order as `Option` does: an unknown time first.
pub open spec fn time_before(a: Option<u64>, b: Option<u64>) -> bool {
    match (a, b) {
        (None, Some(_)) => true,
        (Some(x), Some(y)) => x < y,
        _ => false,
    }
}

/// Entry `i` comes before entry `j` when sorted oldest first; equal times
/// keep the listing order.
pub open spec fn older(modified: Seq<Option<u64>>, i: int, j: int) -> bool {
    time_before(modified[i], modified[j]) || (modified[i] == modified[j] && i < j)
}

/// The positions of the log files in a listing.
pub open spec fn log_set(names: Seq<String>) -> Set<usize> {
    Set::new(|u: usize| u < names.len() && has_log_extension(names[u as int]@))
}

fn is_older(modified: &Vec<Option<u64>>, i: usize, j: usize) -> (result: bool)
    requires
        i < modified.len(),
        j < modified.len(),
    ensures
        result == older(modified@, i as int, j as int),
{
    let earlier = match (modified[i], modified[j]) {
        (None, Some(_)) => true,
        (Some(x), Some(y)) => x < y,
        _ => false,
    };
    earlier || (modified[i] == modified[j] && i < j)
}

proof fn lemma_older_order(modified: Seq<Option<u64>>, i: int, j: int, k: int)
    ensures
        !older(modified, i, i),
        older(modified, i, j) ==> !older(modified, j, i),
        i != j ==> older(modified, i, j) || older(modified, j, i),
        older(modified, i, j) && older(modified, j, k) ==> older(modified, i, k),
{
}

/// The log files to delete so that at most `max_files` remain: none when
/// there are few enough, else the oldest surplus, oldest first. Names are
/// the directory's entries; `modified` holds each entry's modification
/// time where it could be read.
pub fn log_files_to_delete(names: &Vec<String>, modified: &Vec<Option<u64>>, max_files: usize) -> (doomed: Vec<usize>)
    requires
        names.len() == modified.len(),
    ensures
        log_set(names@).finite(),
        log_set(names@).len() <= max_files ==> doomed@.len() == 0,
        log_set(names@).len() > max_files ==> {
            &&& doomed@.len() == log_set(names@).len() - max_files
            &&& forall|a: int| 0 <= a < doomed@.len() ==> log_set(names@).contains(#[trigger] doomed@[a])
            &&& forall|a: int, b: int| 0 <= a < b < doomed@.len() ==> older(modified@, doomed@[a] as int, doomed@[b] as int)
            &&& forall|u: usize, a: int| #![trigger log_set(names@).contains(u), doomed@[a]]
                log_set(names@).contains(u) && !doomed@.contains(u) && 0 <= a < doomed@.len()
                    ==> older(modified@, doomed@[a] as int, u as int)
        },
{
    let mut logs: Vec<usize> = Vec::new();
    let mut i: usize = 0;
    while i < names.len()
        invariant
            i <= names.len(),
            forall|a: int| 0 <= a < logs@.len() ==> #[trigger] logs@[a] < i && has_log_extension(names@[logs@[a] as int]@),
            forall|a: int, b: int| 0 <= a < b < logs@.len() ==> logs@[a] < logs@[b],
            forall|u: usize| u < i && has_log_extension(names@[u as int]@) ==> logs@.contains(u),
        decreases names.len() - i,
    {
        let ghost before = logs@;
        let name: &String = &names[i];
        let is_log = is_log_file(name.as_str());
        assert(is_log == has_log_extension(names@[i as int]@));
        if is_log {
            logs.push(i);
            assert(logs@[logs@.len() - 1] == i);
        }
        proof {
            assert forall|u: usize| u < i + 1 && has_log_extension(names@[u as int]@) implies logs@.contains(u) by {
                if u < i {
                    assert(before.contains(u));
                    let a = choose|a: int| 0 <= a < before.len() && before[a] == u;
                    assert(logs@[a] == u);
                } else {
                    assert(logs@[logs@.len() - 1] == u);
                }
            }
        }
        i = i + 1;
    }
    proof {
        assert(logs@.to_set() =~= log_set(names@)) by {
            assert forall|u: usize| logs@.to_set().contains(u) implies log_set(names@).contains(u) by {
                let a = choose|a: int| 0 <= a < logs@.len() && logs@[a] == u;
                assert(logs@[a] < i);
            }
        }
        assert(logs@.no_duplicates()) by {
            assert forall|a: int, b: int| 0 <= a < logs@.len() && 0 <= b < logs@.len() && a != b implies logs@[a] != logs@[b] by {
                if a < b {
                    assert(logs@[a] < logs@[b]);
                } else {
                    assert(logs@[b] < logs@[a]);
                }
            }
        }
        logs@.unique_seq_to_set();
    }
    if logs.len() <= max_files {
        return Vec::new();
    }
    let excess = logs.len() - max_files;
    let mut doomed: Vec<usize> = Vec::new();
    while doomed.len() < excess
        invariant
            names.len() == modified.len(),
            logs@.to_set() == log_set(names@),
            logs@.len() == log_set(names@).len(),
            logs@.no_duplicates(),
            forall|a: int| 0 <= a < logs@.len() ==> #[trigger] logs@[a] < names.len(),
            excess == logs@.len() - max_files,
            excess <= logs@.len(),
            doomed@.len() <= excess,
            forall|a: int| 0 <= a < doomed@.len() ==> logs@.contains(#[trigger] doomed@[a]),
            forall|a: int, b: int| 0 <= a < b < doomed@.len() ==> older(modified@, doomed@[a] as int, doomed@[b] as int),
            forall|u: usize, a: int| #![trigger logs@.contains(u), doomed@[a]]
                logs@.contains(u) && !doomed@.contains(u) && 0 <= a < doomed@.len()
                    ==> older(modified@, doomed@[a] as int, u as int),
        decreases excess - doomed@.len(),
    {
        let ghost d = doomed@;
        let ghost last = if d.len() > 0 { d.last() as int } else { 0 };
        let mut best: Option<usize> = None;
        let mut j: usize = 0;
        while j < logs.len()
            invariant
                names.len() == modified.len(),
                d == doomed@,
                d.len() > 0 ==> last == d.last(),
                0 < d.len() ==> last < modified.len(),
                j <= logs@.len(),
                forall|a: int| 0 <= a < logs@.len() ==> #[trigger] logs@[a] < names.len(),
                best matches Some(b) ==> {
                    &&& logs@.contains(b)
                    &&& (d.len() == 0 || older(modified@, last, b as int))
                    &&& forall|k: int| 0 <= k < j && (d.len() == 0 || older(modified@, last, #[trigger] logs@[k] as int))
                        ==> !older(modified@, logs@[k] as int, b as int)
                },
                best is None ==> forall|k: int| 0 <= k < j ==> !(d.len() == 0 || older(modified@, last, #[trigger] logs@[k] as int)),
            decreases logs@.len() - j,
        {
            let c = logs[j];
            let candidate = doomed.len() == 0 || is_older(modified, doomed[doomed.len() - 1], c);
            if candidate {
                match best {
                    None => {
                        best = Some(c);
                        proof {
                            assert(logs@.contains(c)) by {
                                assert(logs@[j as int] == c);
                            }
                            lemma_older_order(modified@, c as int, c as int, c as int);
                        }
                    },
                    Some(b) => {
                        if is_older(modified, c, b) {
                            best = Some(c);
                            proof {
                                assert(logs@.contains(c)) by {
                                    assert(logs@[j as int] == c);
                                }
                                assert forall|k: int| 0 <= k < j + 1 && (d.len() == 0 || older(modified@, last, #[trigger] logs@[k] as int))
                                    implies !older(modified@, logs@[k] as int, c as int) by {
                                    lemma_older_order(modified@, logs@[k] as int, c as int, b as int);
                                    lemma_older_order(modified@, c as int, c as int, c as int);
                                }
                            }
                        } else {
                            proof {
                                lemma_older_order(modified@, c as int, b as int, b as int);
                            }
                        }
                    },
                }
            }
            j = j + 1;
        }
        match best {
            Some(b) => {
                proof {
                    // `b` is the oldest entry not yet chosen.
                    assert(!d.contains(b)) by {
                        if d.contains(b) {
                            let a = choose|a: int| 0 <= a < d.len() && d[a] == b;
                            lemma_older_order(modified@, last, b as int, last);
                            if a < d.len() - 1 {
                                assert(older(modified@, d[a] as int, last));
                            }
                        }
                    }
                    assert forall|u: usize| logs@.contains(u) && !d.contains(u) && u != b implies older(modified@, b as int, u as int) by {
                        let k = choose|k: int| 0 <= k < logs@.len() && logs@[k] == u;
                        if d.len() > 0 {
                            assert(older(modified@, d[d.len() - 1] as int, u as int));
                        }
                        lemma_older_order(modified@, b as int, u as int, b as int);
                    }
                }
                doomed.push(b);
                proof {
                    assert forall|a: int| 0 <= a < doomed@.len() implies logs@.contains(#[trigger] doomed@[a]) by {
                        if a < d.len() {
                            assert(doomed@[a] == d[a]);
                        }
                    }
                    assert forall|x: int, y: int| 0 <= x < y < doomed@.len() implies older(modified@, doomed@[x] as int, doomed@[y] as int) by {
                        assert(doomed@[x] == d[x]);
                        if y < d.len() {
                            assert(doomed@[y] == d[y]);
                        } else {
                            assert(logs@.contains(b));
                        }
                    }
                    assert forall|u: usize, a: int| #![trigger logs@.contains(u), doomed@[a]]
                        logs@.contains(u) && !doomed@.contains(u) && 0 <= a < doomed@.len()
                            implies older(modified@, doomed@[a] as int, u as int) by {
                        assert(u != b) by {
                            assert(doomed@[d.len() as int] == b);
                        }
                        assert(!d.contains(u)) by {
                            if d.contains(u) {
                                let w = choose|w: int| 0 <= w < d.len() && d[w] == u;
                                assert(doomed@[w] == u);
                            }
                        }
                        if a < d.len() {
                            assert(doomed@[a] == d[a]);
                        }
                    }
                }
            },
            None => {
                proof {
                    // Fewer entries were chosen than there are logs, so one is left.
                    assert(d.no_duplicates()) by {
                        assert forall|x: int, y: int| 0 <= x < d.len() && 0 <= y < d.len() && x != y implies d[x] != d[y] by {
                            if x < y {
                                lemma_older_order(modified@, d[x] as int, d[y] as int, d[x] as int);
                            } else {
                                lemma_older_order(modified@, d[y] as int, d[x] as int, d[y] as int);
                            }
                        }
                    }
                    d.unique_seq_to_set();
                    assert(d.to_set().subset_of(logs@.to_set()));
                    let missing = choose|u: usize| logs@.contains(u) && !d.contains(u);
                    if !(exists|u: usize| logs@.contains(u) && !d.contains(u)) {
                        assert(logs@.to_set().subset_of(d.to_set()));
                        vstd::set_lib::lemma_len_subset(logs@.to_set(), d.to_set());
                        assert(false);
                    }
                    let k = choose|k: int| 0 <= k < logs@.len() && logs@[k] == missing;
                    if d.len() > 0 {
                        assert(older(modified@, d[d.len() - 1] as int, missing as int));
                    }
                    assert(!(d.len() == 0 || older(modified@, last, logs@[k] as int)));
                }
                return doomed;
            },
        }
    }
    proof {
        assert forall|u: usize, a: int| #![trigger log_set(names@).contains(u), doomed@[a]]
            log_set(names@).contains(u) && !doomed@.contains(u) && 0 <= a < doomed@.len()
                implies older(modified@, doomed@[a] as int, u as int) by {
            assert(logs@.to_set().contains(u));
            assert(logs@.contains(u));
        }
        assert forall|a: int| 0 <= a < doomed@.len() implies log_set(names@).contains(#[trigger] doomed@[a]) by {
            assert(logs@.contains(doomed@[a]));
            assert(logs@.to_set().contains(doomed@[a]));
        }
    }
    doomed
}

} // verus!
