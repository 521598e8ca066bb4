//! Development-environment helpers.
//!
//! The workspace tool allocates free local ports for the services and
//! compares file modification times when deciding whether a minified
//! asset is stale.  Probing a port and reading a file's metadata are
//! I/O; the selection and comparison logic stands here on the probed
//! results.

use vstd::prelude::*;

verus! {

/// The first probed port number.
pub const PORT_RANGE_START: u16 = 8560;

/// The open ports among the probed range, in probe order, from index `i`
/// on: entry `j` of `available` answers for port `PORT_RANGE_START + j`.
pub open spec fn spec_open_ports(available: Seq<bool>, i: int) -> Seq<u16>
    decreases available.len() - i,
{
    if i < 0 || i >= available.len() || i > 439 {
        Seq::<u16>::empty()
    } else if available[i] {
        seq![(PORT_RANGE_START + i) as u16] + spec_open_ports(available, i + 1)
    } else {
        spec_open_ports(available, i + 1)
    }
}

/// The first `n` available ports of the probed range (fewer when fewer
/// are open).  Entry `j` of `available` reports whether port
/// `PORT_RANGE_START + j` accepted a bind.
pub fn get_available_ports(n: usize, available: &Vec<bool>) -> (r: Vec<u16>)
    ensures
        r@ == spec_open_ports(available@, 0).take(
            if spec_open_ports(available@, 0).len() < n {
                spec_open_ports(available@, 0).len() as int
            } else {
                n as int
            },
        ),
{
    let mut r: Vec<u16> = Vec::new();
    let mut i: usize = 0;
    let limit: usize = if available.len() < 440 {
        available.len()
    } else {
        440
    };
    while i < limit && r.len() < n
        invariant
            i <= limit,
            limit == if available@.len() < 440 {
                available@.len() as int
            } else {
                440
            },
            r@.len() <= n,
            r@.len() < n ==> spec_open_ports(available@, 0) =~= r@ + spec_open_ports(
                available@,
                i as int,
            ),
            r@.len() == n ==> spec_open_ports(available@, 0).len() >= n && r@
                =~= spec_open_ports(available@, 0).take(n as int),
        decreases limit - i,
    {
        let ghost pre = r@;
        if available[i] {
            r.push(PORT_RANGE_START + (i as u16));
        }
        proof {
            if pre.len() < n {
                if available@[i as int] {
                    assert(spec_open_ports(available@, i as int) =~= seq![
                        (PORT_RANGE_START + i as int) as u16,
                    ] + spec_open_ports(available@, i + 1));
                    assert(spec_open_ports(available@, 0) =~= r@ + spec_open_ports(
                        available@,
                        i + 1,
                    ));
                    if r@.len() == n {
                        assert(spec_open_ports(available@, 0).len() >= n);
                        assert(r@ =~= spec_open_ports(available@, 0).take(n as int));
                    }
                } else {
                    assert(spec_open_ports(available@, i as int) =~= spec_open_ports(
                        available@,
                        i + 1,
                    ));
                }
            }
        }
        i = i + 1;
    }
    proof {
        if r@.len() < n {
            assert(spec_open_ports(available@, i as int) =~= Seq::<u16>::empty());
            assert(r@ =~= spec_open_ports(available@, 0));
            assert(r@ =~= spec_open_ports(available@, 0).take(r@.len() as int));
        }
    }
    r
}

/// Check if the first modification time is older (greater) than the
/// second, treating an unreadable time as older.
pub fn cmp_modified(a: Option<u64>, b: Option<u64>) -> (r: core::cmp::Ordering)
    ensures
        r == match (a, b) {
            (Some(t1), Some(t2)) => if t1 < t2 {
                core::cmp::Ordering::Less
            } else if t1 == t2 {
                core::cmp::Ordering::Equal
            } else {
                core::cmp::Ordering::Greater
            },
            _ => core::cmp::Ordering::Greater,
        },
{
    match (a, b) {
        (Some(t1), Some(t2)) => {
            if t1 < t2 {
                core::cmp::Ordering::Less
            } else if t1 == t2 {
                core::cmp::Ordering::Equal
            } else {
                core::cmp::Ordering::Greater
            }
        },
        _ => core::cmp::Ordering::Greater,
    }
}

} // verus!
