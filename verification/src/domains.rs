//! The hosts that were visited most, from the numbers of visits to each URL.

use crate::util::{domain_from, spec_domain_from};
use vstd::prelude::*;

verus! {

/// How many hosts are shown.
pub const TOP_DOMAINS: usize = 100;

/// A URL or a host with its number of visits, as mathematical values.
pub type Counted = (Seq<char>, i64);

/// The views of a sequence of counted texts, in the same order.
pub open spec fn counted_views(rows: Seq<(String, i64)>) -> Seq<Counted> {
    Seq::new(rows.len(), |i: int| (rows[i].0@, rows[i].1))
}

/// The sum of two counts, or the nearest count where the sum is out of
/// range.
pub open spec fn spec_add_count(a: i64, b: i64) -> i64 {
    if a + b > i64::MAX {
        i64::MAX
    } else if a + b < i64::MIN {
        i64::MIN
    } else {
        (a + b) as i64
    }
}

/// The number that stands for `host` after the `rows`, each a URL with its
/// number of visits, have been taken in order; `None` where no URL of the
/// rows has that host. The first row of a host counts twice.
pub open spec fn domain_total(rows: Seq<Counted>, host: Seq<char>) -> Option<i64>
    decreases rows.len(),
{
    if rows.len() == 0 {
        None
    } else {
        let before = domain_total(rows.drop_last(), host);
        if spec_domain_from(rows.last().0) == host {
            match before {
                Some(total) => Some(spec_add_count(total, rows.last().1)),
                None => Some(spec_add_count(rows.last().1, rows.last().1)),
            }
        } else {
            before
        }
    }
}

/// Whether `out` holds `host`.
pub open spec fn holds_host(out: Seq<Counted>, host: Seq<char>) -> bool {
    exists|i: int| 0 <= i < out.len() && (#[trigger] out[i]).0 == host
}

/// Whether `out` holds the hosts of `rows` with the largest numbers, at most
/// `limit` of them: each with its number, none twice, the larger number
/// first, and no host left out unless `out` is full of hosts that have no
/// smaller number.
pub open spec fn is_top_of(rows: Seq<Counted>, out: Seq<Counted>, limit: nat) -> bool {
    &&& out.len() <= limit
    &&& forall|i: int|
        0 <= i < out.len() ==> domain_total(rows, (#[trigger] out[i]).0) == Some(out[i].1)
    &&& forall|i: int, j: int|
        0 <= i < j < out.len() ==> (#[trigger] out[i]).0 != (#[trigger] out[j]).0
    &&& forall|i: int, j: int|
        0 <= i < j < out.len() ==> (#[trigger] out[i]).1 >= (#[trigger] out[j]).1
    &&& forall|host: Seq<char>|
        (#[trigger] domain_total(rows, host)) is Some && !holds_host(out, host) ==> {
            &&& out.len() == limit
            &&& forall|i: int|
                0 <= i < out.len() ==> (#[trigger] out[i]).1 >= domain_total(rows, host)->Some_0
        }
}

/// Whether `totals` holds each host of `rows` once, with its number.
pub open spec fn is_tally_of(rows: Seq<Counted>, totals: Seq<Counted>) -> bool {
    &&& forall|i: int|
        0 <= i < totals.len() ==> domain_total(rows, (#[trigger] totals[i]).0) == Some(
            totals[i].1,
        )
    &&& forall|i: int, j: int|
        0 <= i < j < totals.len() ==> (#[trigger] totals[i]).0 != (#[trigger] totals[j]).0
    &&& forall|host: Seq<char>|
        (#[trigger] domain_total(rows, host)) is Some ==> holds_host(totals, host)
}

fn add_count(a: i64, b: i64) -> (r: i64)
    ensures
        r == spec_add_count(a, b),
{
    match a.checked_add(b) {
        Some(sum) => sum,
        None => if b > 0 {
            i64::MAX
        } else {
            i64::MIN
        },
    }
}

/// The place of `host` among `totals`, if it has one.
fn find_host(totals: &Vec<(String, i64)>, host: &String) -> (r: Option<usize>)
    ensures
        match r {
            Some(at) => at < totals@.len() && totals@[at as int].0@ == host@,
            None => !holds_host(counted_views(totals@), host@),
        },
{
    let mut i: usize = 0;
    while i < totals.len()
        invariant
            i <= totals@.len(),
            forall|k: int| 0 <= k < i ==> (#[trigger] counted_views(totals@)[k]).0 != host@,
        decreases totals@.len() - i,
    {
        if totals[i].0 == *host {
            return Some(i);
        }
        proof {
            assert(counted_views(totals@)[i as int].0 == totals@[i as int].0@);
        }
        i = i + 1;
    }
    None
}

/// Each host of the URLs of `url_counts`, once, with its number.
pub fn tally_domains(url_counts: Vec<(String, i64)>) -> (r: Vec<(String, i64)>)
    ensures
        is_tally_of(counted_views(url_counts@), counted_views(r@)),
{
    let ghost all = counted_views(url_counts@);
    let mut totals: Vec<(String, i64)> = Vec::new();
    for row in it: url_counts
        invariant
            it.seq().len() == all.len(),
            forall|k: int|
                0 <= k < it.seq().len() ==> (#[trigger] it.seq()[k]).0@ == all[k].0 && it.seq()[k].1
                    == all[k].1,
            is_tally_of(all.subrange(0, it.index() as int), counted_views(totals@)),
    {
        let ghost done = all.subrange(0, it.index() as int);
        let ghost next = all.subrange(0, it.index() + 1);
        let ghost before = counted_views(totals@);
        let (url, cnt) = row;
        let host = domain_from(url);
        proof {
            assert(next.drop_last() =~= done);
            assert(next.last() == all[it.index() as int]);
            assert(spec_domain_from(next.last().0) == host@);
        }
        match find_host(&totals, &host) {
            Some(at) => {
                let (name, total) = totals.remove(at);
                totals.push((name, add_count(total, cnt)));
                proof {
                    let after = counted_views(totals@);
                    let moved = after.len() - 1;
                    assert(after[moved] == (host@, spec_add_count(before[at as int].1, cnt)));
                    assert forall|i: int| 0 <= i < moved implies after[i] == before[if i < at {
                        i
                    } else {
                        i + 1
                    }] by {}
                    assert forall|i: int| 0 <= i < after.len() implies domain_total(
                        next,
                        (#[trigger] after[i]).0,
                    ) == Some(after[i].1) by {
                        if i < moved {
                            let k = if i < at {
                                i
                            } else {
                                i + 1
                            };
                            assert(before[k].0 != before[at as int].0);
                        }
                    }
                    assert forall|host: Seq<char>|
                        (#[trigger] domain_total(next, host)) is Some implies holds_host(
                        after,
                        host,
                    ) by {
                        if host == after[moved].0 {
                        } else {
                            assert(domain_total(done, host) is Some);
                            let k = choose|k: int|
                                0 <= k < before.len() && (#[trigger] before[k]).0 == host;
                            let i = if k < at {
                                k
                            } else {
                                k - 1
                            };
                            assert(after[i] == before[k]);
                        }
                    }
                }
            },
            None => {
                totals.push((host, add_count(cnt, cnt)));
                proof {
                    let after = counted_views(totals@);
                    let added = after.len() - 1;
                    assert forall|i: int| 0 <= i < added implies after[i] == before[i] by {}
                    assert(domain_total(done, after[added].0) is None) by {
                        if domain_total(done, after[added].0) is Some {
                            assert(holds_host(before, after[added].0));
                        }
                    }
                    assert forall|i: int| 0 <= i < after.len() implies domain_total(
                        next,
                        (#[trigger] after[i]).0,
                    ) == Some(after[i].1) by {
                        if i < added {
                            assert(holds_host(before, before[i].0));
                        }
                    }
                    assert forall|host: Seq<char>|
                        (#[trigger] domain_total(next, host)) is Some implies holds_host(
                        after,
                        host,
                    ) by {
                        if host == after[added].0 {
                        } else {
                            assert(domain_total(done, host) is Some);
                            let k = choose|k: int|
                                0 <= k < before.len() && (#[trigger] before[k]).0 == host;
                            assert(after[k] == before[k]);
                        }
                    }
                }
            },
        }
    }
    proof {
        assert(all.subrange(0, all.len() as int) =~= all);
    }
    totals
}


/// Whether no text stands twice in `counted`.
pub open spec fn no_text_twice(counted: Seq<Counted>) -> bool {
    forall|i: int, j: int|
        0 <= i < j < counted.len() ==> (#[trigger] counted[i]).0 != (#[trigger] counted[j]).0
}

/// Whether `counted` holds `item`.
pub open spec fn holds_item(counted: Seq<Counted>, item: Counted) -> bool {
    exists|i: int| 0 <= i < counted.len() && #[trigger] counted[i] == item
}

/// Whether `out` holds those of `all` with the largest numbers, at most
/// `limit` of them: the larger number first, and none left out unless `out`
/// is full of items that have no smaller number.
pub open spec fn is_largest_of(all: Seq<Counted>, out: Seq<Counted>, limit: nat) -> bool {
    &&& out.len() <= limit
    &&& no_text_twice(out)
    &&& forall|i: int| 0 <= i < out.len() ==> holds_item(all, #[trigger] out[i])
    &&& forall|i: int, j: int|
        0 <= i < j < out.len() ==> (#[trigger] out[i]).1 >= (#[trigger] out[j]).1
    &&& forall|k: int|
        0 <= k < all.len() && !holds_item(out, #[trigger] all[k]) ==> {
            &&& out.len() == limit
            &&& forall|i: int| 0 <= i < out.len() ==> (#[trigger] out[i]).1 >= all[k].1
        }
}

/// The place of an item of `counted` that has the largest number.
fn largest(counted: &Vec<(String, i64)>) -> (r: usize)
    requires
        counted@.len() > 0,
    ensures
        r < counted@.len(),
        forall|j: int| 0 <= j < counted@.len() ==> counted@[r as int].1 >= (#[trigger] counted@[j]).1,
{
    let mut best: usize = 0;
    let mut i: usize = 1;
    while i < counted.len()
        invariant
            1 <= i <= counted@.len(),
            best < i,
            forall|j: int| 0 <= j < i ==> counted@[best as int].1 >= (#[trigger] counted@[j]).1,
        decreases counted@.len() - i,
    {
        if counted[i].1 > counted[best].1 {
            best = i;
        }
        i = i + 1;
    }
    best
}

/// Those of `counted` with the largest numbers, at most `limit` of them, the
/// largest first.
fn largest_counts(counted: Vec<(String, i64)>, limit: usize) -> (r: Vec<(String, i64)>)
    requires
        no_text_twice(counted_views(counted@)),
    ensures
        is_largest_of(counted_views(counted@), counted_views(r@), limit as nat),
{
    let ghost all = counted_views(counted@);
    let mut left = counted;
    let mut out: Vec<(String, i64)> = Vec::new();
    proof {
        assert forall|k: int| 0 <= k < all.len() implies holds_item(
            counted_views(left@),
            #[trigger] all[k],
        ) by {
            assert(counted_views(left@)[k] == all[k]);
        }
    }
    while out.len() < limit && left.len() > 0
        invariant
            out@.len() <= limit,
            no_text_twice(counted_views(left@)),
            no_text_twice(counted_views(out@)),
            forall|i: int, j: int|
                0 <= i < out@.len() && 0 <= j < left@.len() ==> (#[trigger] counted_views(
                    out@,
                )[i]).0 != (#[trigger] counted_views(left@)[j]).0,
            forall|i: int|
                0 <= i < out@.len() ==> holds_item(all, #[trigger] counted_views(out@)[i]),
            forall|j: int|
                0 <= j < left@.len() ==> holds_item(all, #[trigger] counted_views(left@)[j]),
            forall|k: int|
                0 <= k < all.len() ==> holds_item(counted_views(out@), #[trigger] all[k])
                    || holds_item(counted_views(left@), all[k]),
            forall|i: int, j: int|
                0 <= i < j < out@.len() ==> (#[trigger] counted_views(out@)[i]).1
                    >= (#[trigger] counted_views(out@)[j]).1,
            forall|i: int, j: int|
                0 <= i < out@.len() && 0 <= j < left@.len() ==> (#[trigger] counted_views(
                    out@,
                )[i]).1 >= (#[trigger] counted_views(left@)[j]).1,
        decreases left@.len(),
    {
        let ghost out0 = counted_views(out@);
        let ghost left0 = counted_views(left@);
        let ghost held = left@;
        let at = largest(&left);
        let item = left.remove(at);
        out.push(item);
        proof {
            let out1 = counted_views(out@);
            let left1 = counted_views(left@);
            let last = out1.len() - 1;
            assert(out1[last] == left0[at as int]);
            assert forall|i: int| 0 <= i < last implies out1[i] == out0[i] by {}
            assert forall|j: int| 0 <= j < left1.len() implies left1[j] == left0[if j < at {
                j
            } else {
                j + 1
            }] by {}
            assert forall|j: int| 0 <= j < left1.len() implies holds_item(
                all,
                #[trigger] left1[j],
            ) by {
                let k = if j < at {
                    j
                } else {
                    j + 1
                };
                assert(holds_item(all, left0[k]));
            }
            assert forall|i: int| 0 <= i < out1.len() implies holds_item(all, #[trigger] out1[i]) by {
                if i < last {
                    assert(holds_item(all, out0[i]));
                } else {
                    assert(holds_item(all, left0[at as int]));
                }
            }
            assert forall|k: int| 0 <= k < all.len() implies holds_item(out1, #[trigger] all[k])
                || holds_item(left1, all[k]) by {
                if holds_item(out0, all[k]) {
                    let i = choose|i: int| 0 <= i < out0.len() && #[trigger] out0[i] == all[k];
                    assert(out1[i] == all[k]);
                } else {
                    let j = choose|j: int| 0 <= j < left0.len() && #[trigger] left0[j] == all[k];
                    if j == at {
                        assert(out1[last] == all[k]);
                    } else {
                        let m = if j < at {
                            j
                        } else {
                            j - 1
                        };
                        assert(left1[m] == all[k]);
                    }
                }
            }
            assert forall|i: int, j: int| 0 <= i < j < out1.len() implies (#[trigger] out1[i]).1
                >= (#[trigger] out1[j]).1 by {
                if j == last {
                    assert(out0[i].1 >= left0[at as int].1);
                }
            }
            assert forall|i: int, j: int| 0 <= i < j < out1.len() implies (#[trigger] out1[i]).0
                != (#[trigger] out1[j]).0 by {
                if j == last {
                    assert(out0[i].0 != left0[at as int].0);
                }
            }
            assert forall|i: int, j: int|
                0 <= i < out1.len() && 0 <= j < left1.len() implies (#[trigger] out1[i]).0
                != (#[trigger] left1[j]).0 && out1[i].1 >= left1[j].1 by {
                let k = if j < at {
                    j
                } else {
                    j + 1
                };
                if i < last {
                    assert(out0[i].0 != left0[k].0);
                    assert(out0[i].1 >= left0[k].1);
                } else {
                    assert(left0[at as int].1 >= left0[k].1) by {
                        assert(held[at as int].1 >= held[k].1);
                    }
                    if k < at {
                        assert(left0[k].0 != left0[at as int].0);
                    } else {
                        assert(left0[at as int].0 != left0[k].0);
                    }
                }
            }
            assert forall|i: int, j: int| 0 <= i < j < left1.len() implies (#[trigger] left1[i]).0
                != (#[trigger] left1[j]).0 by {
                let a = if i < at {
                    i
                } else {
                    i + 1
                };
                let b = if j < at {
                    j
                } else {
                    j + 1
                };
                assert(left0[a].0 != left0[b].0);
            }
        }
    }
    proof {
        let out1 = counted_views(out@);
        let left1 = counted_views(left@);
        assert forall|k: int| 0 <= k < all.len() && !holds_item(out1, #[trigger] all[k]) implies {
            &&& out1.len() == limit
            &&& forall|i: int| 0 <= i < out1.len() ==> (#[trigger] out1[i]).1 >= all[k].1
        } by {
            assert(holds_item(left1, all[k]));
            let j = choose|j: int| 0 <= j < left1.len() && #[trigger] left1[j] == all[k];
            assert forall|i: int| 0 <= i < out1.len() implies (#[trigger] out1[i]).1
                >= all[k].1 by {
                assert(out1[i].1 >= left1[j].1);
            }
        }
    }
    out
}


/// The hundred hosts that were visited most, with the number of each, the
/// one with the largest number first. `url_counts` holds the URLs that were
/// visited, each with the number of its visits. The host of a URL is what
/// `domain_from` finds, and the first URL of a host counts twice. Which of
/// two hosts with the same number comes first, or is left out, is open.
pub fn domain_top100(url_counts: Vec<(String, i64)>) -> (r: Vec<(String, i64)>)
    ensures
        is_top_of(counted_views(url_counts@), counted_views(r@), TOP_DOMAINS as nat),
{
    let ghost rows = counted_views(url_counts@);
    let totals = tally_domains(url_counts);
    let ghost tally = counted_views(totals@);
    let out = largest_counts(totals, TOP_DOMAINS);
    proof {
        let top = counted_views(out@);
        assert forall|i: int| 0 <= i < top.len() implies domain_total(rows, (#[trigger] top[i]).0)
            == Some(top[i].1) by {
            assert(holds_item(tally, top[i]));
        }
        assert forall|host: Seq<char>|
            (#[trigger] domain_total(rows, host)) is Some && !holds_host(top, host) implies {
            &&& top.len() == TOP_DOMAINS
            &&& forall|i: int|
                0 <= i < top.len() ==> (#[trigger] top[i]).1 >= domain_total(rows, host)->Some_0
        } by {
            assert(holds_host(tally, host));
            let k = choose|k: int| 0 <= k < tally.len() && (#[trigger] tally[k]).0 == host;
            if holds_item(top, tally[k]) {
                let i = choose|i: int| 0 <= i < top.len() && #[trigger] top[i] == tally[k];
                assert(top[i].0 == host);
            }
        }
    }
    out
}

} // verus!
