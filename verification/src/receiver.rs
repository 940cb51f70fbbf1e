//! Which HID interfaces are the receiver, in which order they are tried,
//! and how the outcomes of reading each of them become one reading.
use vstd::prelude::*;
use vstd::string::*;
use crate::battery::{Status, MODEL};
use crate::text::{join, joined, same_text, views};

verus! {

/// Receiver vendor ID.
pub const RECEIVER_VID: u16 = 0x3837;

/// Receiver product ID.
pub const RECEIVER_PID: u16 = 0x1014;

/// Vendor-defined usage page of the battery interface.
pub const USAGE_PAGE: u16 = 0xff01;

/// Usage of the battery interface.
pub const USAGE: u16 = 1;

/// Interface number of the battery interface.
pub const INTERFACE: i32 = 2;

/// The selectors of one enumerated HID interface.
pub struct ReceiverInfo {
    pub vendor_id: u16,
    pub product_id: u16,
    pub usage_page: u16,
    pub usage: u16,
    pub interface_number: i32,
    pub product: Option<String>,
}

/// The interface carries the battery protocol.
pub open spec fn is_receiver_spec(d: ReceiverInfo) -> bool {
    &&& d.vendor_id == RECEIVER_VID
    &&& d.product_id == RECEIVER_PID
    &&& d.usage_page == USAGE_PAGE
    &&& d.usage == USAGE
    &&& d.interface_number == INTERFACE
}

/// The interface reports the known product name.
pub open spec fn is_named_spec(d: ReceiverInfo) -> bool {
    match d.product {
        Some(p) => p@ == MODEL@,
        None => false,
    }
}

/// The name used for an interface in messages.
pub open spec fn product_label_spec(d: ReceiverInfo) -> Seq<char> {
    match d.product {
        Some(p) => p@,
        None => "<unknown>"@,
    }
}

/// Positions, in enumeration order, of the receivers among `ds` that do
/// (`named`) or do not report the known product name.
pub open spec fn receivers_where(ds: Seq<ReceiverInfo>, named: bool) -> Seq<usize>
    decreases ds.len(),
{
    if ds.len() == 0 {
        Seq::empty()
    } else {
        let rest = receivers_where(ds.drop_last(), named);
        if is_receiver_spec(ds.last()) && is_named_spec(ds.last()) == named {
            rest.push((ds.len() - 1) as usize)
        } else {
            rest
        }
    }
}

/// The order in which receivers are tried: those reporting the known name
/// first, then the others, each group in enumeration order.
pub open spec fn try_order(ds: Seq<ReceiverInfo>) -> Seq<usize> {
    receivers_where(ds, true) + receivers_where(ds, false)
}

/// Whether an enumerated interface is the receiver's battery interface.
pub fn is_receiver(d: &ReceiverInfo) -> (yes: bool)
    ensures
        yes == is_receiver_spec(*d),
{
    d.vendor_id == RECEIVER_VID && d.product_id == RECEIVER_PID && d.usage_page == USAGE_PAGE
        && d.usage == USAGE && d.interface_number == INTERFACE
}

/// Whether an interface reports the known product name.
pub fn is_named(d: &ReceiverInfo) -> (yes: bool)
    ensures
        yes == is_named_spec(*d),
{
    match &d.product {
        Some(p) => same_text(p.as_str(), MODEL),
        None => false,
    }
}

/// The product name of an interface, or `<unknown>`.
pub fn product_label(d: &ReceiverInfo) -> (label: String)
    ensures
        label@ == product_label_spec(*d),
{
    match &d.product {
        Some(p) => p.clone(),
        None => String::from_str("<unknown>"),
    }
}

proof fn lemma_receivers_where(ds: Seq<ReceiverInfo>, named: bool)
    requires
        ds.len() <= usize::MAX,
    ensures
        forall|k: int|
            0 <= k < receivers_where(ds, named).len() ==> {
                let i = #[trigger] receivers_where(ds, named)[k] as int;
                &&& i < ds.len()
                &&& is_receiver_spec(ds[i])
                &&& is_named_spec(ds[i]) == named
            },
        forall|a: int, b: int|
            0 <= a < b < receivers_where(ds, named).len() ==> #[trigger] receivers_where(ds, named)[a]
                < #[trigger] receivers_where(ds, named)[b],
        forall|i: int|
            0 <= i < ds.len() && is_receiver_spec(ds[i]) && is_named_spec(ds[i]) == named
                ==> #[trigger] receivers_where(ds, named).contains(i as usize),
    decreases ds.len(),
{
    if ds.len() > 0 {
        let rest = receivers_where(ds.drop_last(), named);
        let all = receivers_where(ds, named);
        lemma_receivers_where(ds.drop_last(), named);
        assert forall|k: int| 0 <= k < all.len() implies {
            let i = #[trigger] all[k] as int;
            &&& i < ds.len()
            &&& is_receiver_spec(ds[i])
            &&& is_named_spec(ds[i]) == named
        } by {
            if k < rest.len() {
                assert(ds.drop_last()[rest[k] as int] == ds[rest[k] as int]);
            }
        }
        assert forall|i: int|
            0 <= i < ds.len() && is_receiver_spec(ds[i]) && is_named_spec(ds[i]) == named implies #[trigger] all.contains(
            i as usize,
        ) by {
            if i < ds.len() - 1 {
                assert(ds.drop_last()[i] == ds[i]);
                assert(rest.contains(i as usize));
                let k = choose|k: int| 0 <= k < rest.len() && rest[k] == i as usize;
                assert(all[k] == i as usize);
            } else {
                assert(all[all.len() - 1] == i as usize);
            }
        }
    }
}

/// Every receiver among the enumerated interfaces is tried exactly once,
/// nothing else is tried, and those reporting the known name come first.
pub proof fn lemma_every_receiver_tried_once(ds: Seq<ReceiverInfo>)
    requires
        ds.len() <= usize::MAX,
    ensures
        forall|k: int|
            0 <= k < try_order(ds).len() ==> (#[trigger] try_order(ds)[k] as int) < ds.len()
                && is_receiver_spec(ds[try_order(ds)[k] as int]),
        forall|i: int|
            0 <= i < ds.len() && is_receiver_spec(ds[i]) ==> #[trigger] try_order(ds).contains(
                i as usize,
            ),
        try_order(ds).no_duplicates(),
        forall|a: int, b: int|
            0 <= a < b < try_order(ds).len() && is_named_spec(ds[try_order(ds)[b] as int])
                ==> is_named_spec(ds[try_order(ds)[a] as int]),
{
    let named = receivers_where(ds, true);
    let others = receivers_where(ds, false);
    let order = try_order(ds);
    lemma_receivers_where(ds, true);
    lemma_receivers_where(ds, false);
    assert forall|k: int| 0 <= k < order.len() implies (#[trigger] order[k] as int) < ds.len()
        && is_receiver_spec(ds[order[k] as int]) by {
        if k < named.len() {
            assert(order[k] == named[k]);
        } else {
            assert(order[k] == others[k - named.len()]);
        }
    }
    assert forall|i: int| 0 <= i < ds.len() && is_receiver_spec(ds[i]) implies #[trigger] order.contains(
        i as usize,
    ) by {
        if is_named_spec(ds[i]) {
            assert(named.contains(i as usize));
            let k = choose|k: int| 0 <= k < named.len() && named[k] == i as usize;
            assert(order[k] == i as usize);
        } else {
            assert(others.contains(i as usize));
            let k = choose|k: int| 0 <= k < others.len() && others[k] == i as usize;
            assert(order[named.len() + k] == i as usize);
        }
    }
    assert forall|a: int, b: int| 0 <= a < order.len() && 0 <= b < order.len() && a != b implies order[a]
        != order[b] by {
        if a < named.len() && b < named.len() {
            if a < b {
                assert(named[a] < named[b]);
            } else {
                assert(named[b] < named[a]);
            }
        } else if a >= named.len() && b >= named.len() {
            let a2 = a - named.len();
            let b2 = b - named.len();
            if a2 < b2 {
                assert(others[a2] < others[b2]);
            } else {
                assert(others[b2] < others[a2]);
            }
        } else if a < named.len() {
            let x = named[a];
            let y = others[b - named.len()];
            assert(is_named_spec(ds[x as int]) && !is_named_spec(ds[y as int]));
        } else {
            let x = others[a - named.len()];
            let y = named[b];
            assert(!is_named_spec(ds[x as int]) && is_named_spec(ds[y as int]));
        }
    }
    assert forall|a: int, b: int|
        0 <= a < b < order.len() && is_named_spec(ds[order[b] as int]) implies is_named_spec(
        ds[order[a] as int],
    ) by {
        if b >= named.len() {
            assert(order[b] == others[b - named.len()]);
        } else {
            assert(order[a] == named[a]);
        }
    }
}

/// Positions of the receivers in `devices`, in the order they are tried.
pub fn receiver_order(devices: &Vec<ReceiverInfo>) -> (order: Vec<usize>)
    ensures
        order@ == try_order(devices@),
        forall|k: int| 0 <= k < order.len() ==> order[k] < devices.len(),
{
    let mut named: Vec<usize> = Vec::new();
    let mut others: Vec<usize> = Vec::new();
    let mut i: usize = 0;
    while i < devices.len()
        invariant
            i <= devices.len(),
            named@ == receivers_where(devices@.take(i as int), true),
            others@ == receivers_where(devices@.take(i as int), false),
        decreases devices.len() - i,
    {
        proof {
            assert(devices@.take(i + 1).drop_last() =~= devices@.take(i as int));
        }
        if is_receiver(&devices[i]) {
            if is_named(&devices[i]) {
                named.push(i);
            } else {
                others.push(i);
            }
        }
        i = i + 1;
    }
    assert(devices@.take(devices.len() as int) =~= devices@);
    proof {
        lemma_receivers_where(devices@, true);
        lemma_receivers_where(devices@, false);
    }
    named.append(&mut others);
    named
}

/// The message recorded when reading one receiver fails.
pub open spec fn failure_text(d: ReceiverInfo, error: Seq<char>) -> Seq<char> {
    product_label_spec(d) + ": "@ + error
}

/// The outcomes gathered while trying the receivers one after another.
pub struct Scan {
    fallback: Option<Status>,
    errors: Vec<String>,
}

impl Scan {
    /// The last reading without a percentage, if any.
    pub closed spec fn fallback(&self) -> Option<Status> {
        self.fallback
    }

    /// The failures so far, in order.
    pub closed spec fn errors(&self) -> Seq<Seq<char>> {
        views(self.errors@)
    }

    /// No fallback ever holds a percentage.
    #[verifier::type_invariant]
    spec fn no_cached_percentage(&self) -> bool {
        !(self.fallback matches Some(Status::Battery { .. }))
    }

    /// Nothing tried yet.
    pub fn new() -> (scan: Self)
        ensures
            scan.fallback() is None,
            scan.errors() == Seq::<Seq<char>>::empty(),
    {
        let scan = Scan { fallback: None, errors: Vec::new() };
        assert(views(scan.errors@) =~= Seq::<Seq<char>>::empty());
        scan
    }

    /// Takes in the outcome of reading one receiver. A percentage ends the
    /// scan and is returned; a reading without one is kept as the fallback;
    /// a failure is recorded under the receiver's name.
    pub fn record(&mut self, receiver: &ReceiverInfo, outcome: Result<Status, String>) -> (done:
        Option<Status>)
        ensures
            match outcome {
                Ok(Status::Battery { percent, charging }) => {
                    &&& done == Some(Status::Battery { percent, charging })
                    &&& final(self).fallback() == old(self).fallback()
                    &&& final(self).errors() == old(self).errors()
                },
                Ok(status) => {
                    &&& done is None
                    &&& final(self).fallback() == Some(status)
                    &&& final(self).errors() == old(self).errors()
                },
                Err(error) => {
                    &&& done is None
                    &&& final(self).fallback() == old(self).fallback()
                    &&& final(self).errors() == old(self).errors().push(
                        failure_text(*receiver, error@),
                    )
                },
            },
    {
        proof {
            use_type_invariant(&*self);
        }
        match outcome {
            Ok(Status::Battery { percent, charging }) => Some(Status::Battery { percent, charging }),
            Ok(status) => {
                self.fallback = Some(status);
                None
            },
            Err(error) => {
                let mut text = product_label(receiver);
                text.append(": ");
                text.append(error.as_str());
                let mut errors: Vec<String> = Vec::new();
                std::mem::swap(&mut errors, &mut self.errors);
                errors.push(text);
                std::mem::swap(&mut errors, &mut self.errors);
                assert(views(self.errors@) =~= views(old(self).errors@).push(
                    failure_text(*receiver, error@),
                ));
                None
            },
        }
    }

    /// The reading once every receiver has been tried without a
    /// percentage: the last reading without one; `Disconnected` when no
    /// receiver was tried; otherwise the failures joined by `; `.
    pub fn finish(self) -> (reading: Result<Status, String>)
        ensures
            match self.fallback() {
                Some(status) => reading == Ok::<Status, String>(status),
                None => if self.errors().len() == 0 {
                    reading == Ok::<Status, String>(Status::Disconnected)
                } else {
                    reading matches Err(text) && text@ == joined(self.errors(), "; "@)
                },
            },
            !(reading matches Ok(Status::Battery { .. })),
    {
        proof {
            use_type_invariant(&self);
        }
        match self.fallback {
            Some(status) => Ok(status),
            None => {
                if self.errors.len() == 0 {
                    Ok(Status::Disconnected)
                } else {
                    Err(join(&self.errors, "; "))
                }
            },
        }
    }
}

/// Longest wait for a reply, in milliseconds.
pub const REPLY_TIMEOUT_MS: u64 = 800;

/// Longest single read while waiting for a reply, in milliseconds.
pub const READ_SLICE_MS: u128 = 100;

/// The timeout of the next read while waiting for a reply, given the whole
/// milliseconds left before the deadline: at most one slice, at least 1 ms.
pub fn read_wait_ms(remaining_ms: u128) -> (wait: i32)
    ensures
        wait == (if remaining_ms < 1 {
            1
        } else if remaining_ms > READ_SLICE_MS {
            READ_SLICE_MS as int
        } else {
            remaining_ms as int
        }),
{
    if remaining_ms < 1 {
        1
    } else if remaining_ms > READ_SLICE_MS {
        READ_SLICE_MS as i32
    } else {
        remaining_ms as i32
    }
}

/// A request is only useful when all of its bytes were written.
pub fn check_request_written(written: usize) -> (sent: Result<(), String>)
    ensures
        sent is Ok <==> written == crate::battery::REPORT_LEN,
        sent matches Err(text) ==> text@ == "Incomplete battery request"@,
{
    if written != crate::battery::REPORT_LEN {
        Err(String::from_str("Incomplete battery request"))
    } else {
        Ok(())
    }
}

} // verus!
