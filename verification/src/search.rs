//! Finding the device to open.

use vstd::prelude::*;

use crate::constants::FTDI_VID;
use crate::device::FtdiDevice;
use crate::error::Error;
use crate::types::{DeviceFilter, Interface};

verus! {

/// A connected device, as it is listed.
#[derive(Clone, Copy, Debug, PartialEq, Eq, Structural)]
pub struct ListedDevice {
    pub vendor_id: u16,
    pub product_id: u16,
    /// Number of the bus that it is connected to.
    pub busnum: u8,
    /// Its address on the bus.
    pub device_address: u8,
}

impl ListedDevice {
    /// Whether the device has these vendor and product ids.
    pub open spec fn has_ids(self, vendor: u16, product: u16) -> bool {
        self.vendor_id == vendor && self.product_id == product
    }

    /// Whether the device is at this address.
    pub open spec fn is_at(self, bus: u8, addr: u8) -> bool {
        self.busnum == bus && self.device_address == addr
    }
}

impl FtdiDevice {
    /// Find the first device with the given vendor and product ids, to be opened
    /// on its first channel, which is [`Interface::A`].
    pub fn open(listed: &[ListedDevice], vendor: u16, product: u16) -> (found: Result<
        (usize, Interface),
        Error,
    >)
        ensures
            match found {
                Ok((i, iface)) => {
                    &&& iface == Interface::Any
                    &&& iface.addresses() == Interface::A.addresses()
                    &&& i < listed@.len() && listed@[i as int].has_ids(vendor, product)
                    &&& forall|j: int| 0 <= j < i ==> !listed@[j].has_ids(vendor, product)
                    &&& listed@[i as int].vendor_id == vendor
                    &&& listed@[i as int].product_id == product
                    &&& forall|j: int|
                        0 <= j < i ==> (#[trigger] listed@[j]).vendor_id != vendor
                            || listed@[j].product_id != product
                },
                Err(error) => {
                    &&& error == Error::DeviceNotFound
                    &&& forall|j: int|
                        0 <= j < listed@.len() ==> !listed@[j].has_ids(vendor, product)
                    &&& forall|j: int|
                        0 <= j < listed@.len() ==> (#[trigger] listed@[j]).vendor_id != vendor
                            || listed@[j].product_id != product
                },
            },
    {
        FtdiDevice::open_with_interface(listed, vendor, product, Interface::Any)
    }

    /// Find the first device with the given vendor and product ids, to be opened
    /// on a specific channel.
    pub fn open_with_interface(
        listed: &[ListedDevice],
        vendor: u16,
        product: u16,
        iface: Interface,
    ) -> (found: Result<(usize, Interface), Error>)
        ensures
            match found {
                Ok((i, chosen)) => {
                    &&& chosen == iface
                    &&& i < listed@.len() && listed@[i as int].has_ids(vendor, product)
                    &&& forall|j: int| 0 <= j < i ==> !listed@[j].has_ids(vendor, product)
                    &&& listed@[i as int].vendor_id == vendor
                    &&& listed@[i as int].product_id == product
                    &&& forall|j: int|
                        0 <= j < i ==> (#[trigger] listed@[j]).vendor_id != vendor
                            || listed@[j].product_id != product
                },
                Err(error) => {
                    &&& error == Error::DeviceNotFound
                    &&& forall|j: int|
                        0 <= j < listed@.len() ==> !listed@[j].has_ids(vendor, product)
                    &&& forall|j: int|
                        0 <= j < listed@.len() ==> (#[trigger] listed@[j]).vendor_id != vendor
                            || listed@[j].product_id != product
                },
            },
    {
        let mut i: usize = 0;
        while i < listed.len()
            invariant
                i <= listed@.len(),
                forall|j: int|
                    0 <= j < i ==> (#[trigger] listed@[j]).vendor_id != vendor
                        || listed@[j].product_id != product,
            decreases listed@.len() - i,
        {
            if listed[i].vendor_id == vendor && listed[i].product_id == product {
                return Ok((i, iface));
            }
            i = i + 1;
        }
        Err(Error::DeviceNotFound)
    }

    /// Find the device at a bus number and device address, to be opened on a
    /// specific channel.
    pub fn open_bus_addr(listed: &[ListedDevice], bus: u8, addr: u8, iface: Interface) -> (found:
        Result<(usize, Interface), Error>)
        ensures
            match found {
                Ok((i, chosen)) => {
                    &&& chosen == iface
                    &&& i < listed@.len() && listed@[i as int].is_at(bus, addr)
                    &&& forall|j: int| 0 <= j < i ==> !listed@[j].is_at(bus, addr)
                    &&& listed@[i as int].busnum == bus
                    &&& listed@[i as int].device_address == addr
                    &&& forall|j: int|
                        0 <= j < i ==> (#[trigger] listed@[j]).busnum != bus
                            || listed@[j].device_address != addr
                },
                Err(error) => {
                    &&& error == Error::DeviceNotFound
                    &&& forall|j: int| 0 <= j < listed@.len() ==> !listed@[j].is_at(bus, addr)
                    &&& forall|j: int|
                        0 <= j < listed@.len() ==> (#[trigger] listed@[j]).busnum != bus
                            || listed@[j].device_address != addr
                },
            },
    {
        let mut i: usize = 0;
        while i < listed.len()
            invariant
                i <= listed@.len(),
                forall|j: int|
                    0 <= j < i ==> (#[trigger] listed@[j]).busnum != bus
                        || listed@[j].device_address != addr,
            decreases listed@.len() - i,
        {
            if listed[i].busnum == bus && listed[i].device_address == addr {
                return Ok((i, iface));
            }
            i = i + 1;
        }
        Err(Error::DeviceNotFound)
    }
}

// ---- Filters ----

/// A string descriptor of a device.
#[derive(Clone, Copy, Debug, PartialEq, Eq, Structural)]
pub enum StringKind {
    /// The product string.
    Description,
    /// The serial number string.
    Serial,
}

/// What reading a string descriptor gave.
#[derive(Debug)]
pub enum StringRead {
    /// The device has no such string.
    Absent,
    /// The string could not be read.
    Unreadable,
    Text(String),
}

impl StringRead {
    /// Whether the string is the expected one. One that could not be read counts
    /// as empty.
    pub open spec fn is_text(self, expected: Seq<char>) -> bool {
        match self {
            StringRead::Absent => false,
            StringRead::Unreadable => expected.len() == 0,
            StringRead::Text(text) => text@ == expected,
        }
    }

    fn reads(self, expected: &String) -> (same: bool)
        ensures
            same == self.is_text(expected@),
    {
        match self {
            StringRead::Absent => false,
            StringRead::Unreadable => expected.as_str().is_empty(),
            StringRead::Text(text) => text == *expected,
        }
    }
}

/// A search for the device that a filter selects.
#[derive(Debug)]
pub struct Search {
    /// The listed devices whose ids match, as positions in the list.
    pub candidates: Vec<usize>,
    /// How many candidates have been decided on.
    pub position: usize,
    /// How many of those matched.
    pub match_count: usize,
    /// The string that decides on the next candidate.
    pub wanted: StringKind,
    /// The channel to open.
    pub iface: Interface,
}

/// What is to be done next about a search.
#[derive(Debug)]
pub enum SearchStep {
    /// No device is selected.
    NotFound,
    /// Open the listed device at `index` on this channel.
    Select { index: usize, iface: Interface },
    /// Read the string [`Search::wanted`] of the listed device at `index`, then
    /// call [`FtdiDevice::resume_search`].
    Read { index: usize, search: Search },
}

/// The positions of the listed devices with these ids, in order.
pub open spec fn candidates_of(listed: Seq<ListedDevice>, vendor: u16, product: u16) -> Seq<usize>
    decreases listed.len(),
{
    if listed.len() == 0 {
        Seq::empty()
    } else {
        let before = candidates_of(listed.drop_last(), vendor, product);
        if listed.last().has_ids(vendor, product) {
            before.push((listed.len() - 1) as usize)
        } else {
            before
        }
    }
}

impl Search {
    /// A candidate is to be decided on, by a string that the filter gives.
    pub open spec fn wf(self, filter: DeviceFilter) -> bool {
        &&& self.match_count <= self.position < self.candidates@.len()
        &&& self.match_count <= filter.index
        &&& match self.wanted {
            StringKind::Description => filter.description is Some,
            StringKind::Serial => filter.serial is Some,
        }
    }

    /// The candidate to be decided on.
    pub open spec fn candidate(self) -> usize {
        self.candidates@[self.position as int]
    }

    /// With the candidate passed over, as a match or not.
    pub open spec fn passed(self, matched: bool) -> Search {
        Search {
            position: (self.position + 1) as usize,
            match_count: (self.match_count + if matched {
                1int
            } else {
                0
            }) as usize,
            ..self
        }
    }
}

/// How a search goes on with the candidate at its position.
pub open spec fn considered(filter: DeviceFilter, search: Search) -> SearchStep {
    if search.position >= search.candidates@.len() {
        SearchStep::NotFound
    } else if filter.description is Some {
        SearchStep::Read {
            index: search.candidate(),
            search: Search { wanted: StringKind::Description, ..search },
        }
    } else if filter.serial is Some {
        SearchStep::Read {
            index: search.candidate(),
            search: Search { wanted: StringKind::Serial, ..search },
        }
    } else {
        // Every candidate matches.
        let position = search.position + (filter.index - search.match_count);
        if position < search.candidates@.len() {
            SearchStep::Select { index: search.candidates@[position], iface: search.iface }
        } else {
            SearchStep::NotFound
        }
    }
}

/// How a search goes on with a candidate that matches.
pub open spec fn accepted(filter: DeviceFilter, search: Search) -> SearchStep {
    if search.match_count == filter.index {
        SearchStep::Select { index: search.candidate(), iface: search.iface }
    } else {
        considered(filter, search.passed(true))
    }
}

/// How a search goes on once the wanted string was read.
pub open spec fn answered(filter: DeviceFilter, search: Search, read: StringRead) -> SearchStep {
    let expected = match search.wanted {
        StringKind::Description => filter.description->0,
        StringKind::Serial => filter.serial->0,
    };
    if !read.is_text(expected@) {
        considered(filter, search.passed(false))
    } else if search.wanted is Description && filter.serial is Some {
        SearchStep::Read {
            index: search.candidate(),
            search: Search { wanted: StringKind::Serial, ..search },
        }
    } else {
        accepted(filter, search)
    }
}

impl FtdiDevice {
    /// Find the device that a filter selects, to be opened on a specific
    /// channel.
    pub fn open_with_filter(
        filter: &DeviceFilter,
        iface: Interface,
        listed: &[ListedDevice],
    ) -> (step: SearchStep)
        ensures
            exists|search: Search|
                {
                    &&& search.candidates@ == candidates_of(
                        listed@,
                        filter.vendor_id,
                        filter.product_id,
                    )
                    &&& search.position == 0
                    &&& search.match_count == 0
                    &&& search.iface == iface
                    &&& step == #[trigger] considered(*filter, search)
                },
            step matches SearchStep::Read { search, .. } ==> search.wf(*filter),
    {
        let mut candidates: Vec<usize> = Vec::new();
        let mut i: usize = 0;
        assert(listed@.take(0) =~= Seq::<ListedDevice>::empty());
        while i < listed.len()
            invariant
                i <= listed@.len(),
                candidates@ == candidates_of(
                    listed@.take(i as int),
                    filter.vendor_id,
                    filter.product_id,
                ),
            decreases listed@.len() - i,
        {
            assert(listed@.take(i + 1).drop_last() =~= listed@.take(i as int));
            if listed[i].vendor_id == filter.vendor_id && listed[i].product_id
                == filter.product_id {
                candidates.push(i);
            }
            i = i + 1;
        }
        assert(listed@.take(i as int) =~= listed@);
        FtdiDevice::consider(
            filter,
            Search {
                candidates,
                position: 0,
                match_count: 0,
                wanted: StringKind::Description,
                iface,
            },
        )
    }

    /// Go on with a search once the wanted string was read.
    pub fn resume_search(filter: &DeviceFilter, search: Search, read: StringRead) -> (step:
        SearchStep)
        requires
            search.wf(*filter),
        ensures
            step == answered(*filter, search, read),
            step matches SearchStep::Read { search, .. } ==> search.wf(*filter),
    {
        let same: bool = match search.wanted {
            StringKind::Description => match &filter.description {
                Some(expected) => read.reads(expected),
                None => false,
            },
            StringKind::Serial => match &filter.serial {
                Some(expected) => read.reads(expected),
                None => false,
            },
        };
        let index: usize = search.candidates[search.position];
        assert(search.candidates.len() == search.candidates@.len());
        if !same {
            return FtdiDevice::consider(
                filter,
                Search { position: search.position + 1, ..search },
            );
        }
        if search.wanted == StringKind::Description && filter.serial.is_some() {
            return SearchStep::Read {
                index,
                search: Search { wanted: StringKind::Serial, ..search },
            };
        }
        if search.match_count == filter.index {
            return SearchStep::Select { index, iface: search.iface };
        }
        FtdiDevice::consider(
            filter,
            Search {
                position: search.position + 1,
                match_count: search.match_count + 1,
                ..search
            },
        )
    }

    fn consider(filter: &DeviceFilter, search: Search) -> (step: SearchStep)
        requires
            search.match_count <= search.position <= search.candidates@.len(),
            search.match_count <= filter.index,
        ensures
            step == considered(*filter, search),
            step matches SearchStep::Read { search, .. } ==> search.wf(*filter),
    {
        let len: usize = search.candidates.len();
        if search.position >= len {
            return SearchStep::NotFound;
        }
        let index: usize = search.candidates[search.position];
        if filter.description.is_some() {
            return SearchStep::Read {
                index,
                search: Search { wanted: StringKind::Description, ..search },
            };
        }
        if filter.serial.is_some() {
            return SearchStep::Read {
                index,
                search: Search { wanted: StringKind::Serial, ..search },
            };
        }
        let skip: usize = filter.index - search.match_count;
        if skip < len - search.position {
            SearchStep::Select {
                index: search.candidates[search.position + skip],
                iface: search.iface,
            }
        } else {
            SearchStep::NotFound
        }
    }
}

// ---- What a filter selects ----

/// The candidates are exactly the listed devices with the filter's ids, in the
/// order of the list.
pub proof fn candidates_are_the_devices_with_the_ids(
    listed: Seq<ListedDevice>,
    vendor: u16,
    product: u16,
)
    requires
        listed.len() <= usize::MAX,
    ensures
        ({
            let candidates = candidates_of(listed, vendor, product);
            &&& forall|k: int|
                0 <= k < candidates.len() ==> (#[trigger] candidates[k]) < listed.len()
                    && listed[candidates[k] as int].vendor_id == vendor
                    && listed[candidates[k] as int].product_id == product
            &&& forall|i: usize|
                i < listed.len() && (#[trigger] listed[i as int]).vendor_id == vendor
                    && listed[i as int].product_id == product ==> candidates.contains(i)
            &&& forall|j: int, k: int|
                0 <= j < k < candidates.len() ==> candidates[j] < candidates[k]
        }),
    decreases listed.len(),
{
    if listed.len() > 0 {
        let before = listed.drop_last();
        let candidates = candidates_of(listed, vendor, product);
        candidates_are_the_devices_with_the_ids(before, vendor, product);
        let earlier = candidates_of(before, vendor, product);
        assert forall|i: usize|
            i < listed.len() && (#[trigger] listed[i as int]).vendor_id == vendor
                && listed[i as int].product_id == product implies candidates.contains(i) by {
            if i < before.len() {
                assert(before[i as int] == listed[i as int]);
                assert(earlier.contains(i));
                let k = choose|k: int| 0 <= k < earlier.len() && earlier[k] == i;
                assert(candidates[k] == i);
            } else {
                assert(candidates.last() == i);
            }
        }
    }
}

/// Whether a device with these strings matches the filter.
pub open spec fn strings_match(
    filter: DeviceFilter,
    description: StringRead,
    serial: StringRead,
) -> bool {
    &&& filter.description matches Some(expected) ==> description.is_text(expected@)
    &&& filter.serial matches Some(expected) ==> serial.is_text(expected@)
}

/// The candidate that comes after `n` other matching ones. The strings of the
/// listed devices are given by their positions.
pub open spec fn nth_match(
    filter: DeviceFilter,
    candidates: Seq<usize>,
    descriptions: spec_fn(usize) -> StringRead,
    serials: spec_fn(usize) -> StringRead,
    n: int,
) -> Option<usize>
    decreases candidates.len(),
{
    if candidates.len() == 0 {
        None
    } else if strings_match(filter, descriptions(candidates[0]), serials(candidates[0])) {
        if n == 0 {
            Some(candidates[0])
        } else {
            nth_match(filter, candidates.skip(1), descriptions, serials, n - 1)
        }
    } else {
        nth_match(filter, candidates.skip(1), descriptions, serials, n)
    }
}

/// The rest of a search, in which strings are read truthfully, up to `fuel` of
/// them.
pub open spec fn searched(
    filter: DeviceFilter,
    step: SearchStep,
    descriptions: spec_fn(usize) -> StringRead,
    serials: spec_fn(usize) -> StringRead,
    fuel: nat,
) -> SearchStep
    decreases fuel,
{
    match step {
        SearchStep::Read { index, search } => if fuel == 0 {
            step
        } else {
            let read = match search.wanted {
                StringKind::Description => descriptions(index),
                StringKind::Serial => serials(index),
            };
            searched(
                filter,
                answered(filter, search, read),
                descriptions,
                serials,
                (fuel - 1) as nat,
            )
        },
        _ => step,
    }
}

/// What the rest of a search has to find.
spec fn left_to_find(
    filter: DeviceFilter,
    search: Search,
    descriptions: spec_fn(usize) -> StringRead,
    serials: spec_fn(usize) -> StringRead,
) -> Option<usize> {
    nth_match(
        filter,
        search.candidates@.skip(search.position as int),
        descriptions,
        serials,
        filter.index - search.match_count,
    )
}

spec fn found(target: Option<usize>, iface: Interface) -> SearchStep {
    match target {
        Some(index) => SearchStep::Select { index, iface },
        None => SearchStep::NotFound,
    }
}

/// Without strings to compare, every candidate matches.
proof fn lemma_all_match(
    filter: DeviceFilter,
    candidates: Seq<usize>,
    descriptions: spec_fn(usize) -> StringRead,
    serials: spec_fn(usize) -> StringRead,
    n: int,
)
    requires
        filter.description is None,
        filter.serial is None,
        n >= 0,
    ensures
        nth_match(filter, candidates, descriptions, serials, n) == if n < candidates.len() {
            Some(candidates[n])
        } else {
            None
        },
    decreases candidates.len(),
{
    if candidates.len() > 0 && n > 0 {
        lemma_all_match(filter, candidates.skip(1), descriptions, serials, n - 1);
    }
}

proof fn lemma_considered(
    filter: DeviceFilter,
    search: Search,
    descriptions: spec_fn(usize) -> StringRead,
    serials: spec_fn(usize) -> StringRead,
    fuel: nat,
)
    requires
        search.match_count <= search.position <= search.candidates@.len(),
        search.match_count <= filter.index,
        fuel >= 2 * (search.candidates@.len() - search.position),
    ensures
        searched(filter, considered(filter, search), descriptions, serials, fuel) == found(
            left_to_find(filter, search, descriptions, serials),
            search.iface,
        ),
    decreases search.candidates@.len() - search.position,
{
    let rest = search.candidates@.skip(search.position as int);
    if search.position < search.candidates@.len() {
        let index = search.candidate();
        assert(rest[0] == index);
        assert(rest.skip(1) =~= search.candidates@.skip(search.position + 1));
        assert(search.position < usize::MAX) by {
            assert(search.candidates.len() == search.candidates@.len());
        }
        if filter.description is None && filter.serial is None {
            lemma_all_match(
                filter,
                rest,
                descriptions,
                serials,
                filter.index - search.match_count,
            );
        } else {
            let asked = if filter.description is Some {
                Search { wanted: StringKind::Description, ..search }
            } else {
                Search { wanted: StringKind::Serial, ..search }
            };
            let asked_serial = Search { wanted: StringKind::Serial, ..search };
            reveal_with_fuel(searched, 3);
            // However the strings decide, the search goes on with fuel enough.
            lemma_considered(filter, asked.passed(false), descriptions, serials, (fuel - 1) as nat);
            lemma_considered(filter, asked.passed(false), descriptions, serials, (fuel - 2) as nat);
            lemma_considered(
                filter,
                asked_serial.passed(false),
                descriptions,
                serials,
                (fuel - 2) as nat,
            );
            if search.match_count < filter.index {
                lemma_considered(
                    filter,
                    asked.passed(true),
                    descriptions,
                    serials,
                    (fuel - 1) as nat,
                );
                lemma_considered(
                    filter,
                    asked_serial.passed(true),
                    descriptions,
                    serials,
                    (fuel - 2) as nat,
                );
            }
        }
    } else {
        assert(rest =~= Seq::<usize>::empty());
    }
}

/// A search with a filter selects, of the candidates that match it, the one
/// that comes after [`DeviceFilter::index`] others, and finds none if there are
/// fewer. It reads at most two strings of each candidate.
pub proof fn filter_selects_nth_match(
    filter: DeviceFilter,
    search: Search,
    descriptions: spec_fn(usize) -> StringRead,
    serials: spec_fn(usize) -> StringRead,
)
    requires
        search.position == 0,
        search.match_count == 0,
    ensures
        searched(
            filter,
            considered(filter, search),
            descriptions,
            serials,
            2 * search.candidates@.len(),
        ) == match nth_match(
            filter,
            search.candidates@,
            descriptions,
            serials,
            filter.index as int,
        ) {
            Some(index) => SearchStep::Select { index, iface: search.iface },
            None => SearchStep::NotFound,
        },
{
    assert(search.candidates@.skip(0) =~= search.candidates@);
    lemma_considered(filter, search, descriptions, serials, 2 * search.candidates@.len());
}

/// A string that was read is the expected one exactly if it is the same text,
/// however long; one that could not be read counts as empty; and one that the
/// device does not have is never the expected one.
pub proof fn strings_are_compared_in_full(read: StringRead, expected: Seq<char>)
    ensures
        read matches StringRead::Text(text) ==> (read.is_text(expected) <==> text@ == expected),
        read is Unreadable ==> (read.is_text(expected) <==> expected.len() == 0),
        read is Absent ==> !read.is_text(expected),
{
}

/// Whether `read` gives the text that a filter asks for, if it asks for one.
pub open spec fn gives(read: StringRead, expected: Option<String>) -> bool {
    match expected {
        None => true,
        Some(expected) => match read {
            StringRead::Text(text) => text@ == expected@,
            StringRead::Unreadable => expected@.len() == 0,
            StringRead::Absent => false,
        },
    }
}

/// If `matching` lists, in order, exactly the candidates that match, the n-th
/// match is the n-th of them.
proof fn lemma_nth_match(
    filter: DeviceFilter,
    candidates: Seq<usize>,
    descriptions: spec_fn(usize) -> StringRead,
    serials: spec_fn(usize) -> StringRead,
    n: int,
    matching: Seq<usize>,
)
    requires
        n >= 0,
        forall|j: int, k: int| 0 <= j < k < candidates.len() ==> candidates[j] < candidates[k],
        forall|j: int, k: int| 0 <= j < k < matching.len() ==> matching[j] < matching[k],
        forall|k: int|
            0 <= k < matching.len() ==> candidates.contains(#[trigger] matching[k])
                && strings_match(filter, descriptions(matching[k]), serials(matching[k])),
        forall|k: int|
            0 <= k < candidates.len() && strings_match(
                filter,
                descriptions(#[trigger] candidates[k]),
                serials(candidates[k]),
            ) ==> matching.contains(candidates[k]),
    ensures
        nth_match(filter, candidates, descriptions, serials, n) == if n < matching.len() {
            Some(matching[n])
        } else {
            None
        },
    decreases candidates.len(),
{
    if candidates.len() == 0 {
        if matching.len() > 0 {
            assert(candidates.contains(matching[0]));
        }
    } else {
        let first = candidates[0];
        let rest = candidates.skip(1);
        let matches_first = strings_match(filter, descriptions(first), serials(first));
        assert forall|j: int, k: int| 0 <= j < k < rest.len() implies rest[j] < rest[k] by {
            assert(rest[j] == candidates[j + 1] && rest[k] == candidates[k + 1]);
        }
        if matches_first {
            // The first candidate is the first match.
            assert(matching.contains(first));
            let at = choose|k: int| 0 <= k < matching.len() && matching[k] == first;
            assert(at == 0) by {
                if at > 0 {
                    assert(matching[0] < matching[at]);
                    assert(candidates.contains(matching[0]));
                    let c = choose|k: int| 0 <= k < candidates.len() && candidates[k] == matching[0];
                    if c > 0 {
                        assert(candidates[0] < candidates[c]);
                    }
                }
            }
        } else if matching.len() > 0 {
            assert(strings_match(filter, descriptions(matching[0]), serials(matching[0])));
        }
        let later = if matches_first {
            matching.skip(1)
        } else {
            matching
        };
        let shift: int = if matches_first {
            1
        } else {
            0
        };
        assert forall|j: int, k: int| 0 <= j < k < later.len() implies later[j] < later[k] by {
            assert(later[j] == matching[j + shift] && later[k] == matching[k + shift]);
        }
        assert forall|k: int| 0 <= k < later.len() implies rest.contains(#[trigger] later[k])
            && strings_match(filter, descriptions(later[k]), serials(later[k])) by {
            assert(later[k] == matching[k + shift]);
            assert(candidates.contains(matching[k + shift]));
            let c = choose|c: int|
                0 <= c < candidates.len() && candidates[c] == matching[k + shift];
            if c == 0 {
                assert(later[k] == first);
                if matches_first {
                    assert(matching[0] < matching[k + shift]);
                }
            } else {
                assert(rest[c - 1] == later[k]);
            }
        }
        assert forall|k: int|
            0 <= k < rest.len() && strings_match(
                filter,
                descriptions(#[trigger] rest[k]),
                serials(rest[k]),
            ) implies later.contains(rest[k]) by {
            assert(rest[k] == candidates[k + 1]);
            assert(matching.contains(candidates[k + 1]));
            let m = choose|m: int| 0 <= m < matching.len() && matching[m] == candidates[k + 1];
            assert(candidates[0] < candidates[k + 1]);
            if matches_first {
                assert(m > 0);
                assert(later[m - 1] == rest[k]);
            } else {
                assert(later[m] == rest[k]);
            }
        }
        if matches_first {
            if n > 0 {
                lemma_nth_match(filter, rest, descriptions, serials, n - 1, later);
            }
        } else {
            lemma_nth_match(filter, rest, descriptions, serials, n, later);
        }
    }
}

/// What a filter selects, said of the list itself. Let `matching` hold, in order,
/// the positions of all listed devices that have the filter's ids and give the
/// texts that it asks for. The search ends by selecting the one at
/// [`DeviceFilter::index`] among them, for the channel that was asked for, and
/// without one if there are not as many.
pub proof fn filter_selects_by_ids_and_texts(
    filter: DeviceFilter,
    listed: Seq<ListedDevice>,
    search: Search,
    descriptions: spec_fn(usize) -> StringRead,
    serials: spec_fn(usize) -> StringRead,
    matching: Seq<usize>,
)
    requires
        listed.len() <= usize::MAX,
        search.candidates@ == candidates_of(listed, filter.vendor_id, filter.product_id),
        search.position == 0,
        search.match_count == 0,
        forall|j: int, k: int| 0 <= j < k < matching.len() ==> matching[j] < matching[k],
        forall|i: usize| #[trigger]
            matching.contains(i) <==> {
                &&& i < listed.len()
                &&& listed[i as int].vendor_id == filter.vendor_id
                &&& listed[i as int].product_id == filter.product_id
                &&& gives(descriptions(i), filter.description)
                &&& gives(serials(i), filter.serial)
            },
    ensures
        searched(
            filter,
            considered(filter, search),
            descriptions,
            serials,
            2 * search.candidates@.len(),
        ) == if filter.index < matching.len() {
            SearchStep::Select { index: matching[filter.index as int], iface: search.iface }
        } else {
            SearchStep::NotFound
        },
{
    let candidates = search.candidates@;
    candidates_are_the_devices_with_the_ids(listed, filter.vendor_id, filter.product_id);
    assert forall|k: int| 0 <= k < matching.len() implies candidates.contains(
        #[trigger] matching[k],
    ) && strings_match(filter, descriptions(matching[k]), serials(matching[k])) by {
        assert(matching.contains(matching[k]));
        assert(listed[matching[k] as int].vendor_id == filter.vendor_id);
    }
    assert forall|k: int|
        0 <= k < candidates.len() && strings_match(
            filter,
            descriptions(#[trigger] candidates[k]),
            serials(candidates[k]),
        ) implies matching.contains(candidates[k]) by {}
    filter_selects_nth_match(filter, search, descriptions, serials);
    lemma_nth_match(
        filter,
        candidates,
        descriptions,
        serials,
        filter.index as int,
        matching,
    );
}

// ---- Device picker ----

/// The product ids of common FTDI chips.
pub open spec fn common_products() -> Seq<u16> {
    seq![0x6001u16, 0x6010, 0x6011, 0x6014, 0x6015]
}

impl FtdiDevice {
    /// The vendor and product ids by which a device picker recognizes common
    /// FTDI chips: FT232, FT2232, FT4232, FT232H and FT230X.
    pub fn request_device() -> (filters: Vec<(u16, u16)>)
        ensures
            filters@ == common_products().map_values(|product: u16| (FTDI_VID, product)),
    {
        let products: [u16; 5] = [0x6001, 0x6010, 0x6011, 0x6014, 0x6015];
        let mut filters: Vec<(u16, u16)> = Vec::new();
        let mut i: usize = 0;
        while i < 5
            invariant
                i <= 5,
                products@ == common_products(),
                filters@ == common_products().take(i as int).map_values(
                    |product: u16| (FTDI_VID, product),
                ),
            decreases 5 - i,
        {
            filters.push((FTDI_VID, products[i]));
            i = i + 1;
            assert(filters@ =~= common_products().take(i as int).map_values(
                |product: u16| (FTDI_VID, product),
            ));
        }
        assert(common_products().take(5) =~= common_products());
        filters
    }
}

} // verus!
