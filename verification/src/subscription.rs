//! How subscribers update the data they hold, and whom they accept data
//! from.
//!
//! A subscriber keeps the most recent piece of data it received; a
//! subscriber with a time-to-live forgets data that is older than its
//! time-to-live; a subscriber with a whitelist accepts data only from the
//! addresses on it.

use vstd::prelude::*;
use vstd::std_specs::cmp::PartialEqSpec;

use crate::packing::PackingError;
use crate::scheduling::same_id;

verus! {

/// An error with publishing datagrams.
#[derive(Debug)]
pub enum UdpPublishError {
    /// An input/output error of the socket.
    IOError(std::io::Error),
    /// An error occurred with packing the data.
    PackingError(PackingError),
}

/// An error when publishing over TCP connections.
#[derive(Debug)]
pub enum TcpPublishError {
    /// Input/output errors, one for each address that failed.
    IOError(Vec<std::io::Error>),
    /// An error occurred with packing the data.
    PackingError(PackingError),
}

/// The outcome of publishing over TCP after the sends to every address:
/// success when no send failed, and otherwise every error, in the order
/// of the addresses.
pub fn tcp_publish_outcome(errors: Vec<std::io::Error>) -> (r: Result<(), TcpPublishError>)
    ensures
        errors@.len() == 0 ==> r is Ok,
        errors@.len() > 0 ==> (r matches Err(TcpPublishError::IOError(e)) && e@ == errors@),
{
    if errors.len() == 0 {
        Ok(())
    } else {
        Err(TcpPublishError::IOError(errors))
    }
}

/// The data a subscriber holds after receiving `received` (oldest first):
/// the newest piece received, or what it held when nothing arrived.
pub open spec fn latest_of<D>(current: Option<D>, received: Seq<D>) -> Option<D> {
    if received.len() > 0 { Some(received.last()) } else { current }
}

/// The data a subscriber holds after receiving `received` (oldest first).
pub fn latest<D>(current: Option<D>, received: Vec<D>) -> (r: Option<D>)
    ensures
        r == latest_of(current, received@),
{
    let mut received = received;
    match received.pop() {
        Some(d) => Some(d),
        None => current,
    }
}

/// Data of age `age` has outlived the time-to-live `ttl`.
pub open spec fn outlived(age: u128, ttl: u128) -> bool {
    age > ttl
}

/// Whether data of age `age` has outlived the time-to-live `ttl`; data
/// exactly as old as its time-to-live is still alive.
pub fn has_expired(age: u128, ttl: u128) -> (b: bool)
    ensures
        b == outlived(age, ttl),
{
    age > ttl
}

/// The data a time-to-live subscriber keeps: its data unless that data has
/// outlived the time-to-live.
pub fn keep_if_alive<D>(data: Option<D>, age: u128, ttl: u128) -> (r: Option<D>)
    ensures
        r == if data is Some && outlived(age, ttl) { None } else { data },
{
    match data {
        Some(d) => if age > ttl {
            None
        } else {
            Some(d)
        },
        None => None,
    }
}

/// The whitelist after adding `address`: appended to the list, or a new
/// list of that one address where there was no whitelist.
pub open spec fn with_address<A>(whitelist: Option<Seq<A>>, address: A) -> Option<Seq<A>> {
    match whitelist {
        Some(list) => Some(list.push(address)),
        None => Some(seq![address]),
    }
}

/// The view of an optional whitelist.
pub open spec fn list_view<A>(whitelist: Option<Vec<A>>) -> Option<Seq<A>> {
    match whitelist {
        Some(list) => Some(list@),
        None => None,
    }
}

/// Add an address to a whitelist, starting a whitelist where there is
/// none.
pub fn add_to_whitelist<A>(whitelist: &mut Option<Vec<A>>, address: A)
    ensures
        list_view(*final(whitelist)) == with_address(list_view(*old(whitelist)), address),
{
    match whitelist {
        Some(list) => {
            list.push(address);
        },
        None => {
            let mut list = Vec::new();
            list.push(address);
            *whitelist = Some(list);
        },
    }
}

/// `i` is the first address of the list equal to `address`.
pub open spec fn is_first_match<A: PartialEq>(list: Seq<A>, address: A, i: int) -> bool {
    &&& 0 <= i < list.len()
    &&& same_id(list[i], address)
    &&& forall|j: int| 0 <= j < i ==> !same_id(#[trigger] list[j], address)
}

/// The position of the first address of `list` equal to `address`, if
/// any.
fn find_address<A: PartialEq>(list: &Vec<A>, address: &A) -> (r: Option<usize>)
    ensures
        A::obeys_eq_spec() ==> match r {
            Some(i) => is_first_match(list@, *address, i as int),
            None => forall|j: int| 0 <= j < list@.len() ==> !same_id(#[trigger] list@[j], *address),
        },
        r matches Some(i) ==> i < list@.len(),
{
    let n = list.len();
    let mut i: usize = 0;
    while i < n
        invariant
            n == list@.len(),
            0 <= i <= n,
            A::obeys_eq_spec() ==> forall|j: int| 0 <= j < i ==> !same_id(#[trigger] list@[j], *address),
        decreases n - i,
    {
        if list[i].eq(address) {
            return Some(i);
        }
        i = i + 1;
    }
    None
}

/// Remove the first address equal to `address` from a whitelist and
/// return it; nothing is removed when the whitelist has no such address
/// or there is no whitelist.
pub fn remove_from_whitelist<A: PartialEq>(whitelist: &mut Option<Vec<A>>, address: &A) -> (r: Option<A>)
    ensures
        *old(whitelist) is None ==> r is None && *final(whitelist) is None,
        r is None ==> list_view(*final(whitelist)) == list_view(*old(whitelist)),
        A::obeys_eq_spec() && *old(whitelist) is Some ==> {
            let list = (*old(whitelist))->Some_0@;
            match r {
                Some(a) => exists|i: int| is_first_match(list, *address, i)
                    && a == list[i]
                    && list_view(*final(whitelist)) == Some(list.remove(i)),
                None => forall|j: int| 0 <= j < list.len() ==> !same_id(#[trigger] list[j], *address),
            }
        },
{
    let mut taken: Option<Vec<A>> = None;
    std::mem::swap(whitelist, &mut taken);
    match taken {
        Some(mut list) => {
            let ghost before = list@;
            match find_address(&list, address) {
                Some(i) => {
                    let a = list.remove(i);
                    assert(A::obeys_eq_spec() ==> is_first_match(before, *address, i as int));
                    *whitelist = Some(list);
                    Some(a)
                },
                None => {
                    *whitelist = Some(list);
                    None
                },
            }
        },
        None => None,
    }
}

/// A subscriber with whitelist `whitelist` accepts data from `address`:
/// always without a whitelist, otherwise when the address is on it.
pub fn whitelist_admits<A: PartialEq>(whitelist: &Option<Vec<A>>, address: &A) -> (b: bool)
    ensures
        *whitelist is None ==> b,
        A::obeys_eq_spec() && *whitelist is Some ==> (b <==> exists|i: int|
            0 <= i < (*whitelist)->Some_0@.len() && same_id(#[trigger] (*whitelist)->Some_0@[i], *address)),
{
    match whitelist {
        Some(list) => match find_address(list, address) {
            Some(i) => {
                assert(A::obeys_eq_spec() ==> same_id(list@[i as int], *address));
                true
            },
            None => false,
        },
        None => true,
    }
}


/// An address added to a whitelist is admitted: it is on the list after
/// it is added (when the address equals itself, as `Eq` promises).
pub proof fn lemma_added_address_admitted<A: PartialEq>(whitelist: Option<Seq<A>>, address: A)
    requires
        same_id(address, address),
    ensures
        with_address(whitelist, address) is Some,
        exists|i: int|
            0 <= i < with_address(whitelist, address)->Some_0.len() && same_id(
                #[trigger] with_address(whitelist, address)->Some_0[i],
                address,
            ),
{
    let list = with_address(whitelist, address)->Some_0;
    let i = list.len() - 1;
    assert(list[i] == address);
}

/// Removing an address that was just added to a whitelist that did not
/// list it gives the address back and leaves the whitelist as it was
/// before the address was added.
pub proof fn lemma_remove_after_add<A: PartialEq>(list: Seq<A>, address: A)
    requires
        same_id(address, address),
        forall|j: int| 0 <= j < list.len() ==> !same_id(#[trigger] list[j], address),
    ensures
        is_first_match(with_address(Some(list), address)->Some_0, address, list.len() as int),
        with_address(Some(list), address)->Some_0[list.len() as int] == address,
        with_address(Some(list), address)->Some_0.remove(list.len() as int) == list,
{
    let after = list.push(address);
    assert forall|j: int| 0 <= j < list.len() implies !same_id(#[trigger] after[j], address) by {
        assert(after[j] == list[j]);
    }
    assert(after.remove(list.len() as int) =~= list);
}

} // verus!
