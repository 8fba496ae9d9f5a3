//! The device directory: an append-only registry of device records with
//! derived presentation metadata, name filtering, and bulk actions.

use vstd::prelude::*;
use vstd::string::*;
use crate::device::{
    Device, DeviceProps, device_from_props, device_of_props, device_wf, merged_record,
    props_valid, same_record_except_flags,
};
use crate::console::emit_line;
use crate::layout::{compute_layout, lemma_entry_fits_column, Layout};
use crate::manager::BluetoothManager;
use crate::term::{term_cols, TermSize};
use crate::patterns::{anchor_pattern, anchored, compile_regex, regex_accepts, regex_is_match,
    regex_matches_within, regex_pattern};
use crate::text::{contains_seq, contains_str, has_space, make_spaces, spaces_seq, str_eq,
    str_has_space};

verus! {

/// How a name filter interprets its argument.
pub enum FilterBehaviour {
    /// The whole name must equal the argument.
    Full,
    /// The name must contain the argument.
    Contains,
    /// The whole name must match the argument as a regular expression.
    FullRegex,
    /// The name must contain a match of the argument as a regular
    /// expression.
    ContainsRegex,
}

/// A name test, as the filter contracts state it.
pub enum NameTest {
    Full(Seq<char>),
    Contains(Seq<char>),
    FullRegex(Seq<char>),
    ContainsRegex(Seq<char>),
}

/// Whether a name passes a test.
pub open spec fn name_matches(t: NameTest, name: Seq<char>) -> bool {
    match t {
        NameTest::Full(s) => name == s,
        NameTest::Contains(s) => contains_seq(name, s),
        NameTest::FullRegex(p) => regex_matches_within(anchored(p), name),
        NameTest::ContainsRegex(p) => regex_matches_within(p, name),
    }
}

/// The records whose names pass the test, kept in order.
pub open spec fn filtered_by(devs: Seq<Device>, t: NameTest) -> Seq<Device>
    decreases devs.len(),
{
    if devs.len() == 0 {
        Seq::empty()
    } else {
        let rest = filtered_by(devs.drop_last(), t);
        if name_matches(t, devs.last().name@) {
            rest.push(devs.last())
        } else {
            rest
        }
    }
}

proof fn lemma_filtered_by_take_succ(devs: Seq<Device>, t: NameTest, j: int)
    requires
        0 <= j < devs.len(),
    ensures
        filtered_by(devs.take(j + 1), t) == if name_matches(t, devs[j].name@) {
            filtered_by(devs.take(j), t).push(devs[j])
        } else {
            filtered_by(devs.take(j), t)
        },
{
    assert(devs.take(j + 1).drop_last() =~= devs.take(j));
    assert(devs.take(j + 1).last() == devs[j]);
}

/// Longest name length among the records, 0 when there are none.
pub open spec fn max_name_len_of(devs: Seq<Device>) -> int
    decreases devs.len(),
{
    if devs.len() == 0 {
        0
    } else {
        let rest = max_name_len_of(devs.drop_last());
        if devs.last().name@.len() > rest {
            devs.last().name@.len() as int
        } else {
            rest
        }
    }
}

/// Shortest name length among the records, 0 when there are none.
pub open spec fn min_name_len_of(devs: Seq<Device>) -> int
    decreases devs.len(),
{
    if devs.len() == 0 {
        0
    } else if devs.len() == 1 {
        devs[0].name@.len() as int
    } else {
        let rest = min_name_len_of(devs.drop_last());
        if devs.last().name@.len() < rest {
            devs.last().name@.len() as int
        } else {
            rest
        }
    }
}

/// The validated records of one backend snapshot, in the order the
/// backend reported them; malformed entries are skipped.
pub open spec fn snapshot_records(entries: Seq<DeviceProps>) -> Seq<Device>
    decreases entries.len(),
{
    if entries.len() == 0 {
        Seq::empty()
    } else {
        let rest = snapshot_records(entries.drop_last());
        if props_valid(entries.last()) {
            rest.push(device_of_props(entries.last()))
        } else {
            rest
        }
    }
}

proof fn lemma_snapshot_records_take_succ(entries: Seq<DeviceProps>, j: int)
    requires
        0 <= j < entries.len(),
    ensures
        snapshot_records(entries.take(j + 1)) == if props_valid(entries[j]) {
            snapshot_records(entries.take(j)).push(device_of_props(entries[j]))
        } else {
            snapshot_records(entries.take(j))
        },
{
    assert(entries.take(j + 1).drop_last() =~= entries.take(j));
    assert(entries.take(j + 1).last() == entries[j]);
}

/// Validates one backend snapshot: the records of the well-formed entries,
/// in order; a malformed entry is dropped without aborting the others.
pub fn devices_from_snapshot(entries: &Vec<DeviceProps>) -> (r: Vec<Device>)
    ensures
        r@ == snapshot_records(entries@),
        forall|i: int| 0 <= i < r@.len() ==> device_wf(r@[i]),
{
    let n = entries.len();
    let mut r: Vec<Device> = Vec::new();
    let mut j: usize = 0;
    proof {
        assert(entries@.take(0) =~= Seq::<DeviceProps>::empty());
    }
    while j < n
        invariant
            n == entries@.len(),
            j <= n,
            r@ == snapshot_records(entries@.take(j as int)),
            forall|i: int| 0 <= i < r@.len() ==> device_wf(r@[i]),
        decreases n - j,
    {
        proof {
            lemma_snapshot_records_take_succ(entries@, j as int);
        }
        match device_from_props(&entries[j]) {
            Some(d) => {
                r.push(d);
            },
            None => {},
        }
        j = j + 1;
    }
    proof {
        assert(entries@.take(n as int) =~= entries@);
    }
    r
}

/// The registry: an append-only list of records with presentation
/// metadata kept in step as records are added.
pub struct DeviceList {
    pub devices: Vec<Device>,
    /// Whether names are quoted when printed; set once a record with white
    /// space in its name is added.
    pub quote_names: bool,
    /// Whether output from this registry carries ANSI color codes.
    pub print_in_color: bool,
    /// Longest name length among the records.
    pub max_name_len: u8,
    /// Shortest name length among the records.
    pub min_name_len: u8,
}

impl DeviceList {
    /// The registry invariant: every record is well formed and the length
    /// metadata matches the records.
    pub open spec fn wf(self) -> bool {
        &&& forall|i: int| 0 <= i < self.devices@.len() ==> device_wf(#[trigger] self.devices@[i])
        &&& self.max_name_len == max_name_len_of(self.devices@)
        &&& self.min_name_len == min_name_len_of(self.devices@)
    }

    /// Creates a new empty device list.
    pub fn new() -> (r: DeviceList)
        ensures
            r.wf(),
            r.devices@ == Seq::<Device>::empty(),
            !r.quote_names,
            r.print_in_color,
    {
        DeviceList {
            devices: Vec::new(),
            quote_names: false,
            print_in_color: true,
            max_name_len: 0,
            min_name_len: 0,
        }
    }

    /// Appends one record, keeping the white-space flag and the length
    /// metadata in step. The record is stored as given.
    fn push_record(&mut self, d: Device)
        requires
            old(self).wf(),
            device_wf(d),
        ensures
            final(self).wf(),
            final(self).devices@ == old(self).devices@.push(d),
            final(self).quote_names == (old(self).quote_names || has_space(d.name@)),
            final(self).print_in_color == old(self).print_in_color,
            final(self).max_name_len as int == max_name_len_of(final(self).devices@),
    {
        if str_has_space(d.name.as_str()) {
            self.quote_names = true;
        }
        let len = d.name_len();
        if self.devices.len() == 0 {
            self.max_name_len = len;
            self.min_name_len = len;
        } else {
            if len > self.max_name_len {
                self.max_name_len = len;
            }
            if len < self.min_name_len {
                self.min_name_len = len;
            }
        }
        let ghost before = self.devices@;
        self.devices.push(d);
        proof {
            assert(self.devices@.drop_last() =~= before);
            assert(self.devices@.last() == d);
        }
    }

    /// Adds a device to this list: the record takes the list's color
    /// setting and the metadata is updated.
    pub fn add_device(&mut self, new: Device)
        requires
            old(self).wf(),
            device_wf(new),
        ensures
            final(self).wf(),
            final(self).devices@ == old(self).devices@.push(
                Device { name_in_color: old(self).print_in_color, ..new },
            ),
            final(self).quote_names == (old(self).quote_names || has_space(new.name@)),
            final(self).print_in_color == old(self).print_in_color,
    {
        let mut d = new;
        d.name_in_color = self.print_in_color;
        self.push_record(d);
    }

    /// Fills the device list with the records of a fresh backend snapshot.
    /// Records already held are kept; every appended record is a validated
    /// snapshot record carrying this list's color setting.
    pub fn fill<M: BluetoothManager>(&mut self, manager: &M)
        requires
            old(self).wf(),
        ensures
            final(self).wf(),
            final(self).print_in_color == old(self).print_in_color,
            old(self).devices@.len() <= final(self).devices@.len(),
            forall|i: int|
                0 <= i < old(self).devices@.len() ==> final(self).devices@[i] == old(
                    self,
                ).devices@[i],
            forall|i: int|
                old(self).devices@.len() <= i < final(self).devices@.len() ==> device_wf(
                    #[trigger] final(self).devices@[i],
                ) && final(self).devices@[i].name_in_color == old(self).print_in_color,
    {
        let entries = manager.get_all_devices();
        let records = devices_from_snapshot(&entries);
        let n = records.len();
        let ghost kept = self.devices@;
        let ghost pic = self.print_in_color;
        let mut j: usize = 0;
        while j < n
            invariant
                n == records@.len(),
                j <= n,
                self.wf(),
                self.print_in_color == pic,
                forall|i: int| 0 <= i < records@.len() ==> device_wf(#[trigger] records@[i]),
                kept.len() + j == self.devices@.len(),
                forall|i: int| 0 <= i < kept.len() ==> self.devices@[i] == kept[i],
                forall|i: int|
                    kept.len() <= i < self.devices@.len() ==> device_wf(
                        #[trigger] self.devices@[i],
                    ) && self.devices@[i].name_in_color == pic,
            decreases n - j,
        {
            let d = records[j].clone();
            self.add_device(d);
            j = j + 1;
        }
    }

    /// Returns a filtered device list holding exactly the records that
    /// satisfy the given predicate, in order; the records themselves are
    /// carried over unchanged. The selection is stated through the index
    /// sequence of the kept records: every kept record got `true` from
    /// the predicate, and every record left out got `false`.
    pub fn filtered<F: Fn(&Device) -> bool>(&self, filter: F) -> (r: DeviceList)
        requires
            self.wf(),
            forall|d: &Device| #[trigger] call_requires(filter, (d,)),
        ensures
            r.wf(),
            r.print_in_color == self.print_in_color,
            r.devices@.len() <= self.devices@.len(),
            exists|sel: Seq<int>|
                #![trigger sel.len()]
                {
                    &&& sel.len() == r.devices@.len()
                    &&& forall|x: int|
                        0 <= x < sel.len() ==> 0 <= #[trigger] sel[x] < self.devices@.len()
                    &&& forall|x: int, y: int| 0 <= x < y < sel.len() ==> sel[x] < sel[y]
                    &&& forall|x: int|
                        0 <= x < sel.len() ==> r.devices@[x] == self.devices@[#[trigger] sel[x]]
                            && call_ensures(filter, (&self.devices@[sel[x]],), true)
                    &&& forall|i: int|
                        0 <= i < self.devices@.len() && !sel.contains(i) ==> call_ensures(
                            filter,
                            (&self.devices@[i],),
                            false,
                        )
                },
    {
        let mut r = DeviceList {
            devices: Vec::new(),
            quote_names: false,
            print_in_color: self.print_in_color,
            max_name_len: 0,
            min_name_len: 0,
        };
        let ghost mut sel: Seq<int> = Seq::empty();
        let n = self.devices.len();
        let mut j: usize = 0;
        while j < n
            invariant
                n == self.devices@.len(),
                j <= n,
                self.wf(),
                forall|d: &Device| #[trigger] call_requires(filter, (d,)),
                r.wf(),
                r.print_in_color == self.print_in_color,
                r.devices@.len() <= j,
                sel.len() == r.devices@.len(),
                forall|x: int| 0 <= x < sel.len() ==> 0 <= #[trigger] sel[x] < j,
                forall|x: int, y: int| 0 <= x < y < sel.len() ==> sel[x] < sel[y],
                forall|x: int|
                    0 <= x < sel.len() ==> r.devices@[x] == self.devices@[#[trigger] sel[x]]
                        && call_ensures(filter, (&self.devices@[sel[x]],), true),
                forall|i: int|
                    0 <= i < j && !sel.contains(i) ==> call_ensures(
                        filter,
                        (&self.devices@[i],),
                        false,
                    ),
            decreases n - j,
        {
            let ghost sel0 = sel;
            let matches = filter(&self.devices[j]);
            if matches {
                let d = self.devices[j].clone();
                r.push_record(d);
                proof {
                    sel = sel.push(j as int);
                    assert(sel[sel.len() - 1] == j as int);
                    assert(sel.contains(j as int));
                    assert forall|i: int|
                        0 <= i < j + 1 && !sel.contains(i) implies call_ensures(
                        filter,
                        (&self.devices@[i],),
                        false,
                    ) by {
                        if i < j {
                            assert forall|x: int|
                                0 <= x < sel0.len() && sel0[x] == i implies sel.contains(i) by {
                                assert(sel[x] == i);
                            }
                            assert(!sel0.contains(i));
                        }
                    }
                }
            } else {
                proof {
                    assert(call_ensures(filter, (&self.devices@[j as int],), false));
                }
            }
            j = j + 1;
        }
        proof {
            assert(sel.len() == r.devices@.len());
        }
        r
    }

    fn filtered_by_test(&self, t: Ghost<NameTest>, behaviour: &FilterBehaviour, key: &str) -> (r:
        DeviceList)
        requires
            self.wf(),
            match *behaviour {
                FilterBehaviour::Full => t@ == NameTest::Full(key@),
                FilterBehaviour::Contains => t@ == NameTest::Contains(key@),
                _ => false,
            },
        ensures
            r.wf(),
            r.print_in_color == self.print_in_color,
            r.devices@ == filtered_by(self.devices@, t@),
    {
        let mut r = DeviceList {
            devices: Vec::new(),
            quote_names: false,
            print_in_color: self.print_in_color,
            max_name_len: 0,
            min_name_len: 0,
        };
        let n = self.devices.len();
        let mut j: usize = 0;
        proof {
            assert(self.devices@.take(0) =~= Seq::<Device>::empty());
        }
        while j < n
            invariant
                n == self.devices@.len(),
                j <= n,
                self.wf(),
                match *behaviour {
                    FilterBehaviour::Full => t@ == NameTest::Full(key@),
                    FilterBehaviour::Contains => t@ == NameTest::Contains(key@),
                    _ => false,
                },
                r.wf(),
                r.print_in_color == self.print_in_color,
                r.devices@ == filtered_by(self.devices@.take(j as int), t@),
            decreases n - j,
        {
            proof {
                lemma_filtered_by_take_succ(self.devices@, t@, j as int);
            }
            let matched: bool = match behaviour {
                FilterBehaviour::Full => str_eq(self.devices[j].name.as_str(), key),
                FilterBehaviour::Contains => contains_str(self.devices[j].name.as_str(), key),
                _ => false,
            };
            if matched {
                let d = self.devices[j].clone();
                r.push_record(d);
            }
            j = j + 1;
        }
        proof {
            assert(self.devices@.take(n as int) =~= self.devices@);
        }
        r
    }

    /// Returns devices in the device list with the given name.
    pub fn filtered_name_full(&self, name: &str) -> (r: DeviceList)
        requires
            self.wf(),
        ensures
            r.wf(),
            r.print_in_color == self.print_in_color,
            r.devices@ == filtered_by(self.devices@, NameTest::Full(name@)),
    {
        self.filtered_by_test(Ghost(NameTest::Full(name@)), &FilterBehaviour::Full, name)
    }

    /// Returns devices in the device list whose name contains the given
    /// substring.
    pub fn filtered_name_contains(&self, substr: &str) -> (r: DeviceList)
        requires
            self.wf(),
        ensures
            r.wf(),
            r.print_in_color == self.print_in_color,
            r.devices@ == filtered_by(self.devices@, NameTest::Contains(substr@)),
    {
        self.filtered_by_test(
            Ghost(NameTest::Contains(substr@)),
            &FilterBehaviour::Contains,
            substr,
        )
    }

    fn filtered_compiled(&self, re: &regex::Regex, t: Ghost<NameTest>) -> (r: DeviceList)
        requires
            self.wf(),
            match t@ {
                NameTest::FullRegex(p) => regex_pattern(*re) == anchored(p),
                NameTest::ContainsRegex(p) => regex_pattern(*re) == p,
                _ => false,
            },
        ensures
            r.wf(),
            r.print_in_color == self.print_in_color,
            r.devices@ == filtered_by(self.devices@, t@),
    {
        let mut r = DeviceList {
            devices: Vec::new(),
            quote_names: false,
            print_in_color: self.print_in_color,
            max_name_len: 0,
            min_name_len: 0,
        };
        let n = self.devices.len();
        let mut j: usize = 0;
        proof {
            assert(self.devices@.take(0) =~= Seq::<Device>::empty());
        }
        while j < n
            invariant
                n == self.devices@.len(),
                j <= n,
                self.wf(),
                match t@ {
                    NameTest::FullRegex(p) => regex_pattern(*re) == anchored(p),
                    NameTest::ContainsRegex(p) => regex_pattern(*re) == p,
                    _ => false,
                },
                r.wf(),
                r.print_in_color == self.print_in_color,
                r.devices@ == filtered_by(self.devices@.take(j as int), t@),
            decreases n - j,
        {
            proof {
                lemma_filtered_by_take_succ(self.devices@, t@, j as int);
            }
            let matched = regex_is_match(re, self.devices[j].name.as_str());
            if matched {
                let d = self.devices[j].clone();
                r.push_record(d);
            }
            j = j + 1;
        }
        proof {
            assert(self.devices@.take(n as int) =~= self.devices@);
        }
        r
    }

    /// Returns devices in the device list whose whole name matches the
    /// regular expression. A pattern the compiler rejects yields an empty
    /// registry.
    pub fn filtered_name_full_regex(&self, regex: &str) -> (r: DeviceList)
        requires
            self.wf(),
        ensures
            r.wf(),
            r.print_in_color == self.print_in_color,
            !regex_accepts(regex@) ==> r.devices@ == Seq::<Device>::empty(),
            regex_accepts(regex@) && regex_accepts(anchored(regex@)) ==> r.devices@ == filtered_by(
                self.devices@,
                NameTest::FullRegex(regex@),
            ),
            regex_accepts(regex@) && !regex_accepts(anchored(regex@)) ==> r.devices@
                == Seq::<Device>::empty(),
    {
        match compile_regex(regex) {
            None => {
                let mut r = DeviceList::new();
                r.print_in_color = self.print_in_color;
                r
            },
            Some(_) => {
                let anchored_pat = anchor_pattern(regex);
                match compile_regex(anchored_pat.as_str()) {
                    None => {
                        let mut r = DeviceList::new();
                        r.print_in_color = self.print_in_color;
                        r
                    },
                    Some(re) => self.filtered_compiled(
                        &re,
                        Ghost(NameTest::FullRegex(regex@)),
                    ),
                }
            },
        }
    }

    /// Returns devices in the device list whose name contains a match for
    /// the regular expression. A pattern the compiler rejects yields an
    /// empty registry.
    pub fn filtered_name_contains_regex(&self, regex: &str) -> (r: DeviceList)
        requires
            self.wf(),
        ensures
            r.wf(),
            r.print_in_color == self.print_in_color,
            !regex_accepts(regex@) ==> r.devices@ == Seq::<Device>::empty(),
            regex_accepts(regex@) ==> r.devices@ == filtered_by(
                self.devices@,
                NameTest::ContainsRegex(regex@),
            ),
    {
        match compile_regex(regex) {
            None => {
                let mut r = DeviceList::new();
                r.print_in_color = self.print_in_color;
                r
            },
            Some(re) => self.filtered_compiled(&re, Ghost(NameTest::ContainsRegex(regex@))),
        }
    }

    /// Returns devices in the device list with name matching the filter
    /// string, with "matching" defined according to the behaviour.
    pub fn filtered_name(&self, filterstr: &str, behaviour: FilterBehaviour) -> (r: DeviceList)
        requires
            self.wf(),
        ensures
            r.wf(),
            r.print_in_color == self.print_in_color,
            match behaviour {
                FilterBehaviour::Full => r.devices@ == filtered_by(
                    self.devices@,
                    NameTest::Full(filterstr@),
                ),
                FilterBehaviour::Contains => r.devices@ == filtered_by(
                    self.devices@,
                    NameTest::Contains(filterstr@),
                ),
                FilterBehaviour::FullRegex => {
                    &&& !regex_accepts(filterstr@) ==> r.devices@ == Seq::<Device>::empty()
                    &&& regex_accepts(filterstr@) && regex_accepts(anchored(filterstr@))
                        ==> r.devices@ == filtered_by(
                        self.devices@,
                        NameTest::FullRegex(filterstr@),
                    )
                    &&& regex_accepts(filterstr@) && !regex_accepts(anchored(filterstr@))
                        ==> r.devices@ == Seq::<Device>::empty()
                },
                FilterBehaviour::ContainsRegex => {
                    &&& !regex_accepts(filterstr@) ==> r.devices@ == Seq::<Device>::empty()
                    &&& regex_accepts(filterstr@) ==> r.devices@ == filtered_by(
                        self.devices@,
                        NameTest::ContainsRegex(filterstr@),
                    )
                },
            },
    {
        match behaviour {
            FilterBehaviour::Full => self.filtered_name_full(filterstr),
            FilterBehaviour::Contains => self.filtered_name_contains(filterstr),
            FilterBehaviour::FullRegex => self.filtered_name_full_regex(filterstr),
            FilterBehaviour::ContainsRegex => self.filtered_name_contains_regex(filterstr),
        }
    }

    /// Hands out references to the devices carrying exactly the given
    /// name, in order.
    pub fn devices_with_name<'a>(&'a self, name: &str) -> (r: Vec<&'a Device>)
        ensures
            r@.len() == filtered_by(self.devices@, NameTest::Full(name@)).len(),
            forall|x: int|
                0 <= x < r@.len() ==> *r@[x] == filtered_by(
                    self.devices@,
                    NameTest::Full(name@),
                )[x],
    {
        let ghost t = NameTest::Full(name@);
        let mut r: Vec<&Device> = Vec::new();
        let n = self.devices.len();
        let mut j: usize = 0;
        proof {
            assert(self.devices@.take(0) =~= Seq::<Device>::empty());
        }
        while j < n
            invariant
                n == self.devices@.len(),
                j <= n,
                t == NameTest::Full(name@),
                r@.len() == filtered_by(self.devices@.take(j as int), t).len(),
                forall|x: int|
                    0 <= x < r@.len() ==> *r@[x] == filtered_by(
                        self.devices@.take(j as int),
                        t,
                    )[x],
            decreases n - j,
        {
            proof {
                lemma_filtered_by_take_succ(self.devices@, t, j as int);
            }
            if str_eq(self.devices[j].name.as_str(), name) {
                r.push(&self.devices[j]);
            }
            j = j + 1;
        }
        proof {
            assert(self.devices@.take(n as int) =~= self.devices@);
        }
        r
    }

    /// Sets whether quotes will be added if there is a device name
    /// containing whitespace.
    pub fn set_quote_names(&mut self, val: bool)
        ensures
            *final(self) == (DeviceList { quote_names: val, ..*old(self) }),
    {
        self.quote_names = val;
    }

    /// Sets whether output will be colored with ANSI color codes.
    pub fn set_print_in_color(&mut self, val: bool)
        ensures
            *final(self) == (DeviceList { print_in_color: val, ..*old(self) }),
    {
        self.print_in_color = val;
    }
}

/// How many of the records are marked paired.
pub open spec fn num_paired(devs: Seq<Device>) -> int
    decreases devs.len(),
{
    if devs.len() == 0 {
        0
    } else {
        num_paired(devs.drop_last()) + if devs.last().paired {
            1int
        } else {
            0int
        }
    }
}

/// How many of the records are marked connected.
pub open spec fn num_connected(devs: Seq<Device>) -> int
    decreases devs.len(),
{
    if devs.len() == 0 {
        0
    } else {
        num_connected(devs.drop_last()) + if devs.last().connected {
            1int
        } else {
            0int
        }
    }
}

proof fn lemma_num_paired_take_succ(devs: Seq<Device>, j: int)
    requires
        0 <= j < devs.len(),
    ensures
        num_paired(devs.take(j + 1)) == num_paired(devs.take(j)) + if devs[j].paired {
            1int
        } else {
            0int
        },
        num_paired(devs.take(j)) <= j,
    decreases j,
{
    assert(devs.take(j + 1).drop_last() =~= devs.take(j));
    assert(devs.take(j + 1).last() == devs[j]);
    if j > 0 {
        lemma_num_paired_take_succ(devs, j - 1);
    } else {
        assert(devs.take(0) =~= Seq::<Device>::empty());
    }
}

proof fn lemma_num_connected_take_succ(devs: Seq<Device>, j: int)
    requires
        0 <= j < devs.len(),
    ensures
        num_connected(devs.take(j + 1)) == num_connected(devs.take(j)) + if devs[j].connected {
            1int
        } else {
            0int
        },
        num_connected(devs.take(j)) <= j,
    decreases j,
{
    assert(devs.take(j + 1).drop_last() =~= devs.take(j));
    assert(devs.take(j + 1).last() == devs[j]);
    if j > 0 {
        lemma_num_connected_take_succ(devs, j - 1);
    } else {
        assert(devs.take(0) =~= Seq::<Device>::empty());
    }
}

proof fn lemma_metadata_same_names(a: Seq<Device>, b: Seq<Device>)
    requires
        a.len() == b.len(),
        forall|i: int| 0 <= i < a.len() ==> a[i].name == b[i].name,
    ensures
        max_name_len_of(a) == max_name_len_of(b),
        min_name_len_of(a) == min_name_len_of(b),
    decreases a.len(),
{
    if a.len() > 0 {
        lemma_metadata_same_names(a.drop_last(), b.drop_last());
    }
}

impl DeviceList {
    /// Attempts to pair every device in the list, one after the other: a
    /// failed call is counted as zero and the loop goes on. Returns how
    /// many of the records are paired after the sweep; a record already
    /// marked paired stays paired and always counts.
    pub fn pair_all<M: BluetoothManager>(&mut self, manager: &mut M) -> (count: i32)
        requires
            old(self).wf(),
            old(self).devices@.len() <= i32::MAX,
        ensures
            final(self).wf(),
            final(self).devices@.len() == old(self).devices@.len(),
            forall|i: int|
                0 <= i < old(self).devices@.len() ==> {
                    &&& same_record_except_flags(
                        old(self).devices@[i],
                        #[trigger] final(self).devices@[i],
                    )
                    &&& final(self).devices@[i].connected == old(self).devices@[i].connected
                    &&& (old(self).devices@[i].paired ==> final(self).devices@[i].paired)
                },
            count == num_paired(final(self).devices@),
            num_paired(old(self).devices@) <= count <= final(self).devices@.len(),
    {
        let ghost orig = self.devices@;
        let n = self.devices.len();
        let mut count: i32 = 0;
        let mut j: usize = 0;
        proof {
            assert(self.devices@.take(0) =~= Seq::<Device>::empty());
            assert(orig.take(0) =~= Seq::<Device>::empty());
        }
        while j < n
            invariant
                n == self.devices@.len(),
                n == orig.len(),
                n <= i32::MAX,
                j <= n,
                self.wf(),
                forall|i: int| j <= i < n ==> self.devices@[i] == orig[i],
                forall|i: int|
                    0 <= i < j ==> {
                        &&& same_record_except_flags(orig[i], #[trigger] self.devices@[i])
                        &&& self.devices@[i].connected == orig[i].connected
                        &&& (orig[i].paired ==> self.devices@[i].paired)
                    },
                count == num_paired(self.devices@.take(j as int)),
                num_paired(orig.take(j as int)) <= count <= j,
            decreases n - j,
        {
            let ghost before = self.devices@;
            proof {
                lemma_num_paired_take_succ(orig, j as int);
            }
            let mut d = self.devices[j].clone();
            let ok = d.pair(manager);
            self.devices.set(j, d);
            if ok {
                count = count + 1;
            }
            proof {
                lemma_num_paired_take_succ(self.devices@, j as int);
                assert(self.devices@.take(j as int) =~= before.take(j as int));
                assert forall|i: int| 0 <= i < n implies self.devices@[i].name == orig[i].name by {}
                lemma_metadata_same_names(self.devices@, orig);
                lemma_metadata_same_names(before, orig);
            }
            j = j + 1;
        }
        proof {
            assert(self.devices@.take(n as int) =~= self.devices@);
            assert(orig.take(n as int) =~= orig);
        }
        count
    }

    /// Attempts to connect every device in the list, one after the other:
    /// a failed call is counted as zero and the loop goes on. Returns how
    /// many of the records are connected after the sweep; a record already
    /// marked connected stays connected and always counts.
    pub fn connect_all<M: BluetoothManager>(&mut self, manager: &mut M) -> (count: i32)
        requires
            old(self).wf(),
            old(self).devices@.len() <= i32::MAX,
        ensures
            final(self).wf(),
            final(self).devices@.len() == old(self).devices@.len(),
            forall|i: int|
                0 <= i < old(self).devices@.len() ==> {
                    &&& same_record_except_flags(
                        old(self).devices@[i],
                        #[trigger] final(self).devices@[i],
                    )
                    &&& final(self).devices@[i].paired == old(self).devices@[i].paired
                    &&& (old(self).devices@[i].connected ==> final(self).devices@[i].connected)
                },
            count == num_connected(final(self).devices@),
            num_connected(old(self).devices@) <= count <= final(self).devices@.len(),
    {
        let ghost orig = self.devices@;
        let n = self.devices.len();
        let mut count: i32 = 0;
        let mut j: usize = 0;
        proof {
            assert(self.devices@.take(0) =~= Seq::<Device>::empty());
            assert(orig.take(0) =~= Seq::<Device>::empty());
        }
        while j < n
            invariant
                n == self.devices@.len(),
                n == orig.len(),
                n <= i32::MAX,
                j <= n,
                self.wf(),
                forall|i: int| j <= i < n ==> self.devices@[i] == orig[i],
                forall|i: int|
                    0 <= i < j ==> {
                        &&& same_record_except_flags(orig[i], #[trigger] self.devices@[i])
                        &&& self.devices@[i].paired == orig[i].paired
                        &&& (orig[i].connected ==> self.devices@[i].connected)
                    },
                count == num_connected(self.devices@.take(j as int)),
                num_connected(orig.take(j as int)) <= count <= j,
            decreases n - j,
        {
            let ghost before = self.devices@;
            proof {
                lemma_num_connected_take_succ(orig, j as int);
            }
            let mut d = self.devices[j].clone();
            let ok = d.connect(manager);
            self.devices.set(j, d);
            if ok {
                count = count + 1;
            }
            proof {
                lemma_num_connected_take_succ(self.devices@, j as int);
                assert(self.devices@.take(j as int) =~= before.take(j as int));
                assert forall|i: int| 0 <= i < n implies self.devices@[i].name == orig[i].name by {}
                lemma_metadata_same_names(self.devices@, orig);
                lemma_metadata_same_names(before, orig);
            }
            j = j + 1;
        }
        proof {
            assert(self.devices@.take(n as int) =~= self.devices@);
            assert(orig.take(n as int) =~= orig);
        }
        count
    }

    /// Unpairs every device in the list, best effort, and returns how many
    /// were acted on: every record ends unpaired and disconnected.
    pub fn unpair_all<M: BluetoothManager>(&mut self, manager: &mut M) -> (count: i32)
        requires
            old(self).wf(),
            old(self).devices@.len() <= i32::MAX,
        ensures
            final(self).wf(),
            final(self).devices@.len() == old(self).devices@.len(),
            forall|i: int|
                0 <= i < old(self).devices@.len() ==> {
                    &&& same_record_except_flags(
                        old(self).devices@[i],
                        #[trigger] final(self).devices@[i],
                    )
                    &&& !final(self).devices@[i].paired
                    &&& !final(self).devices@[i].connected
                },
            count == final(self).devices@.len(),
    {
        let ghost orig = self.devices@;
        let n = self.devices.len();
        let mut count: i32 = 0;
        let mut j: usize = 0;
        while j < n
            invariant
                n == self.devices@.len(),
                n == orig.len(),
                n <= i32::MAX,
                j <= n,
                self.wf(),
                forall|i: int| j <= i < n ==> self.devices@[i] == orig[i],
                forall|i: int|
                    0 <= i < j ==> {
                        &&& same_record_except_flags(orig[i], #[trigger] self.devices@[i])
                        &&& !self.devices@[i].paired
                        &&& !self.devices@[i].connected
                    },
                count == j,
            decreases n - j,
        {
            let ghost before = self.devices@;
            let mut d = self.devices[j].clone();
            let ok = d.unpair(manager);
            self.devices.set(j, d);
            if ok {
                count = count + 1;
            }
            proof {
                assert forall|i: int| 0 <= i < n implies self.devices@[i].name == orig[i].name by {}
                assert forall|i: int| 0 <= i < n implies before[i].name == orig[i].name by {}
                lemma_metadata_same_names(self.devices@, orig);
                lemma_metadata_same_names(before, orig);
            }
            j = j + 1;
        }
        count
    }

    /// Disconnects every device in the list, best effort, and returns how
    /// many were acted on: every record ends unpaired and disconnected.
    pub fn disconnect_all<M: BluetoothManager>(&mut self, manager: &mut M) -> (count: i32)
        requires
            old(self).wf(),
            old(self).devices@.len() <= i32::MAX,
        ensures
            final(self).wf(),
            final(self).devices@.len() == old(self).devices@.len(),
            forall|i: int|
                0 <= i < old(self).devices@.len() ==> {
                    &&& same_record_except_flags(
                        old(self).devices@[i],
                        #[trigger] final(self).devices@[i],
                    )
                    &&& !final(self).devices@[i].paired
                    &&& !final(self).devices@[i].connected
                },
            count == final(self).devices@.len(),
    {
        let ghost orig = self.devices@;
        let n = self.devices.len();
        let mut count: i32 = 0;
        let mut j: usize = 0;
        while j < n
            invariant
                n == self.devices@.len(),
                n == orig.len(),
                n <= i32::MAX,
                j <= n,
                self.wf(),
                forall|i: int| j <= i < n ==> self.devices@[i] == orig[i],
                forall|i: int|
                    0 <= i < j ==> {
                        &&& same_record_except_flags(orig[i], #[trigger] self.devices@[i])
                        &&& !self.devices@[i].paired
                        &&& !self.devices@[i].connected
                    },
                count == j,
            decreases n - j,
        {
            let ghost before = self.devices@;
            let mut d = self.devices[j].clone();
            let ok = d.disconnect(manager);
            self.devices.set(j, d);
            if ok {
                count = count + 1;
            }
            proof {
                assert forall|i: int| 0 <= i < n implies self.devices@[i].name == orig[i].name by {}
                assert forall|i: int| 0 <= i < n implies before[i].name == orig[i].name by {}
                lemma_metadata_same_names(self.devices@, orig);
                lemma_metadata_same_names(before, orig);
            }
            j = j + 1;
        }
        count
    }
}

/// The decorated display text of one record: quoted when the registry
/// quotes names, colored as the record asks.
pub open spec fn spec_decorated(qn: bool, d: Device) -> Seq<char> {
    if qn {
        d.spec_quoted_name("'"@, " "@)
    } else {
        d.spec_colored_name()
    }
}

/// One grid cell: the decorated name, padded to its column's width and
/// separated from the next cell by two spaces, except at the end of the
/// row.
pub open spec fn spec_cell(qn: bool, d: Device, w: int, last: bool) -> Seq<char> {
    if last {
        spec_decorated(qn, d)
    } else {
        spec_decorated(qn, d) + spaces_seq(w - d.name@.len() + 2)
    }
}

/// The text of one grid row: the cells of the `count` records starting at
/// `start`, joined.
pub open spec fn spec_row(qn: bool, devs: Seq<Device>, cols: Seq<u8>, start: int, count: int) -> Seq<
    char,
>
    decreases count,
{
    if count <= 0 {
        Seq::empty()
    } else {
        let i = start + count - 1;
        let c = count - 1;
        let last = (c == cols.len() - 1) || (i == devs.len() - 1);
        spec_row(qn, devs, cols, start, count - 1) + spec_cell(qn, devs[i], cols[c] as int, last)
    }
}

/// How many records the row starting at `start` holds: a full row of `k`,
/// or what is left of the `n` records.
pub open spec fn row_cell_count(n: int, k: int, start: int) -> int {
    if n - start < k {
        n - start
    } else {
        k
    }
}

impl DeviceList {
    /// Returns the name of the device with decorations depending on the
    /// state of self.
    pub fn correctly_quoted_device_name(&self, device: &Device) -> (r: String)
        ensures
            r@ == spec_decorated(self.quote_names, *device),
    {
        if self.quote_names {
            device.quoted_name("'", " ")
        } else {
            device.get_name_colored()
        }
    }

    /// Assembles the rows of the grid with the given column widths:
    /// records are placed round-robin, each padded to its column's true
    /// width (never an underflow) and followed by two spaces, except at
    /// the end of its row.
    pub fn grid_lines(&self, cols: &Vec<u8>) -> (rows: Vec<String>)
        requires
            self.wf(),
            1 <= cols@.len(),
            forall|i: int|
                0 <= i < self.devices@.len() ==> #[trigger] self.devices@[i].name@.len()
                    <= cols@[i % (cols@.len() as int)],
        ensures
            self.devices@.len() == 0 ==> rows@.len() == 0,
            self.devices@.len() > 0 ==> (rows@.len() - 1) * cols@.len() < self.devices@.len()
                <= rows@.len() * cols@.len(),
            forall|r: int|
                0 <= r < rows@.len() ==> #[trigger] rows@[r]@ == spec_row(
                    self.quote_names,
                    self.devices@,
                    cols@,
                    r * cols@.len(),
                    row_cell_count(
                        self.devices@.len() as int,
                        cols@.len() as int,
                        r * cols@.len(),
                    ),
                ),
    {
        let k = cols.len();
        let n = self.devices.len();
        let mut rows: Vec<String> = Vec::new();
        let mut cur = String::new();
        let mut start: usize = 0;
        let mut c: usize = 0;
        let mut j: usize = 0;
        proof {
            assert(rows@.len() * (k as int) == 0) by (nonlinear_arith)
                requires
                    rows@.len() == 0,
            ;
        }
        while j < n
            invariant
                self.wf(),
                k == cols@.len(),
                1 <= k,
                n == self.devices@.len(),
                forall|i: int|
                    0 <= i < n ==> #[trigger] self.devices@[i].name@.len() <= cols@[
                        i % (cols@.len() as int)],
                j <= n,
                j == start + c,
                0 <= c < k,
                start == rows@.len() * k,
                cur@ == spec_row(
                    self.quote_names,
                    self.devices@,
                    cols@,
                    start as int,
                    c as int,
                ),
                forall|r: int|
                    0 <= r < rows@.len() ==> #[trigger] rows@[r]@ == spec_row(
                        self.quote_names,
                        self.devices@,
                        cols@,
                        r * (k as int),
                        k as int,
                    ),
                forall|r: int| 0 <= r < rows@.len() ==> #[trigger] ((r + 1) * (k as int)) <= n,
            decreases n - j,
        {
            proof {
                vstd::arithmetic::div_mod::lemma_mod_multiples_vanish(
                    rows@.len() as int,
                    c as int,
                    k as int,
                );
                vstd::arithmetic::div_mod::lemma_small_mod(c as nat, k as nat);
                assert((j as int) % (k as int) == c as int);
            }
            let ghost cur0 = cur@;
            let dec = self.correctly_quoted_device_name(&self.devices[j]);
            let islast = (c == k - 1) || (j == n - 1);
            cur.append(dec.as_str());
            if !islast {
                let w = cols[c];
                let len = self.devices[j].name_len();
                let pad = ((w - len) as usize) + 2;
                cur.append(make_spaces(pad).as_str());
            }
            proof {
                assert(cur@ =~= cur0 + spec_cell(
                    self.quote_names,
                    self.devices@[j as int],
                    cols@[c as int] as int,
                    (c as int == k - 1) || (j as int == n - 1),
                ));
            }
            j = j + 1;
            c = c + 1;
            if c == k {
                let full = cur;
                rows.push(full);
                cur = String::new();
                proof {
                    assert((rows@.len() - 1) * (k as int) == start as int) by (nonlinear_arith)
                        requires
                            start as int == (rows@.len() - 1) * (k as int),
                    ;
                    assert(rows@.len() * (k as int) == start as int + k as int) by (
                    nonlinear_arith)
                        requires
                            (rows@.len() - 1) * (k as int) == start as int,
                    ;
                }
                start = j;
                c = 0;
            }
        }
        if c > 0 {
            let last_row = cur;
            rows.push(last_row);
            proof {
                assert((rows@.len() - 1) * (k as int) == start as int);
                assert(row_cell_count(n as int, k as int, start as int) == c as int);
                assert((rows@.len() - 1) * (k as int) < n as int <= rows@.len() * (k as int)) by (
                nonlinear_arith)
                    requires
                        (rows@.len() - 1) * (k as int) == start as int,
                        n as int == start as int + c as int,
                        0 < c as int,
                        (c as int) < (k as int),
                ;
            }
        } else {
            proof {
                if n == 0 {
                    assert(rows@.len() * (k as int) == 0);
                    assert(rows@.len() == 0) by (nonlinear_arith)
                        requires
                            rows@.len() * (k as int) == 0,
                            1 <= k as int,
                            rows@.len() >= 0,
                    ;
                } else {
                    assert(start as int == rows@.len() * (k as int));
                    assert((rows@.len() - 1) * (k as int) < n as int <= rows@.len() * (
                    k as int)) by (nonlinear_arith)
                        requires
                            n as int == rows@.len() * (k as int),
                            1 <= k as int,
                            n as int > 0,
                    ;
                }
            }
        }
        proof {
            assert forall|r: int| 0 <= r < rows@.len() implies #[trigger] rows@[r]@ == spec_row(
                self.quote_names,
                self.devices@,
                cols@,
                r * (k as int),
                row_cell_count(n as int, k as int, r * (k as int)),
            ) by {
                assert((r + 1) * (k as int) == r * (k as int) + (k as int)) by (nonlinear_arith);
            }
        }
        rows
    }

    /// Re-fetches one record's detail from the backend right before it is
    /// rendered, so the displayed state is the most recent available.
    /// When the backend reports nothing the registry is unchanged;
    /// otherwise exactly the one record is replaced by the merge of some
    /// reported attribute set, so its identity, name and color setting
    /// stay as they are either way.
    fn refetch_record<M: BluetoothManager>(&mut self, j: usize, manager: &M)
        requires
            old(self).wf(),
            j < old(self).devices@.len(),
        ensures
            final(self).wf(),
            final(self).devices@.len() == old(self).devices@.len(),
            final(self).quote_names == old(self).quote_names,
            final(self).print_in_color == old(self).print_in_color,
            final(self).devices@ == old(self).devices@ || exists|q: DeviceProps|
                final(self).devices@ == old(self).devices@.update(
                    j as int,
                    #[trigger] merged_record(old(self).devices@[j as int], q),
                ),
            forall|i: int|
                0 <= i < final(self).devices@.len() && i != j ==> final(self).devices@[i] == old(
                    self,
                ).devices@[i],
            final(self).devices@[j as int].name == old(self).devices@[j as int].name,
            final(self).devices@[j as int].address == old(self).devices@[j as int].address,
            final(self).devices@[j as int].name_in_color == old(self).devices@[
                j as int].name_in_color,
    {
        let ghost orig = self.devices@;
        match manager.device_info(self.devices[j].address.as_str()) {
            Some(p) => {
                let ghost q = p;
                let mut d = self.devices[j].clone();
                d.update_info(&p);
                self.devices.set(j, d);
                proof {
                    assert(self.devices@ =~= orig.update(
                        j as int,
                        merged_record(orig[j as int], q),
                    ));
                    assert forall|i: int|
                        0 <= i < orig.len() implies self.devices@[i].name == orig[i].name by {}
                    lemma_metadata_same_names(self.devices@, orig);
                }
            },
            None => {},
        }
    }

    /// Prints each device on its own line, re-fetching its detail first.
    pub fn print_fullline<M: BluetoothManager>(&mut self, manager: &M)
        requires
            old(self).wf(),
        ensures
            final(self).wf(),
            final(self).devices@.len() == old(self).devices@.len(),
            forall|i: int|
                0 <= i < final(self).devices@.len() ==> final(self).devices@[i].name == old(
                    self,
                ).devices@[i].name && #[trigger] final(self).devices@[i].address == old(
                    self,
                ).devices@[i].address,
    {
        let ghost orig = self.devices@;
        let n = self.devices.len();
        let mut j: usize = 0;
        while j < n
            invariant
                self.wf(),
                n == self.devices@.len(),
                n == orig.len(),
                j <= n,
                forall|i: int|
                    0 <= i < n ==> self.devices@[i].name == orig[i].name
                        && #[trigger] self.devices@[i].address == orig[i].address,
            decreases n - j,
        {
            self.refetch_record(j, manager);
            let line = self.correctly_quoted_device_name(&self.devices[j]);
            emit_line(line.as_str());
            j = j + 1;
        }
    }

    /// Prints each device in long format: the address, then the decorated
    /// name, re-fetching each record's detail first.
    pub fn print_long<M: BluetoothManager>(&mut self, manager: &M)
        requires
            old(self).wf(),
        ensures
            final(self).wf(),
            final(self).devices@.len() == old(self).devices@.len(),
            forall|i: int|
                0 <= i < final(self).devices@.len() ==> final(self).devices@[i].name == old(
                    self,
                ).devices@[i].name && #[trigger] final(self).devices@[i].address == old(
                    self,
                ).devices@[i].address,
    {
        let ghost orig = self.devices@;
        let n = self.devices.len();
        let mut j: usize = 0;
        while j < n
            invariant
                self.wf(),
                n == self.devices@.len(),
                n == orig.len(),
                j <= n,
                forall|i: int|
                    0 <= i < n ==> self.devices@[i].name == orig[i].name
                        && #[trigger] self.devices@[i].address == orig[i].address,
            decreases n - j,
        {
            self.refetch_record(j, manager);
            let mut line = self.devices[j].address.clone();
            line.append(" ");
            line.append(self.correctly_quoted_device_name(&self.devices[j]).as_str());
            emit_line(line.as_str());
            j = j + 1;
        }
    }

    /// Prints several devices per line: the widest grid that fits the
    /// terminal is computed from the name widths, every record's detail is
    /// re-fetched, and the assembled rows are written out. When no grid
    /// fits, each device goes on its own line.
    pub fn print_lines<M: BluetoothManager>(&mut self, manager: &M, term: &Option<TermSize>)
        requires
            old(self).wf(),
        ensures
            final(self).wf(),
            final(self).devices@.len() == old(self).devices@.len(),
            forall|i: int|
                0 <= i < final(self).devices@.len() ==> final(self).devices@[i].name == old(
                    self,
                ).devices@[i].name && #[trigger] final(self).devices@[i].address == old(
                    self,
                ).devices@[i].address,
    {
        let maxw = term_cols(term);
        let extra: u8 = if self.quote_names {
            4
        } else {
            2
        };
        let n = self.devices.len();
        let mut widths: Vec<u8> = Vec::new();
        let mut j: usize = 0;
        while j < n
            invariant
                self.wf(),
                n == self.devices@.len(),
                j <= n,
                widths@.len() == j,
                forall|i: int|
                    0 <= i < j ==> #[trigger] widths@[i] as int == self.devices@[i].name@.len(),
            decreases n - j,
        {
            let len = self.devices[j].name_len();
            widths.push(len);
            j = j + 1;
        }
        match compute_layout(&widths, maxw, extra) {
            Layout::OnePerLine => {
                self.print_fullline(manager);
            },
            Layout::Grid(cols) => {
                let ghost orig = self.devices@;
                let mut i: usize = 0;
                while i < n
                    invariant
                        self.wf(),
                        n == self.devices@.len(),
                        n == orig.len(),
                        i <= n,
                        forall|x: int|
                            0 <= x < n ==> self.devices@[x].name == orig[x].name
                                && #[trigger] self.devices@[x].address == orig[x].address,
                    decreases n - i,
                {
                    self.refetch_record(i, manager);
                    i = i + 1;
                }
                proof {
                    assert forall|x: int|
                        0 <= x < self.devices@.len() implies #[trigger] self.devices@[
                        x].name@.len() <= cols@[x % (cols@.len() as int)] by {
                        lemma_entry_fits_column(widths@, cols@.len() as int, x);
                    }
                }
                let rows = self.grid_lines(&cols);
                let m = rows.len();
                let mut r: usize = 0;
                while r < m
                    invariant
                        m == rows@.len(),
                        r <= m,
                    decreases m - r,
                {
                    emit_line(rows[r].as_str());
                    r = r + 1;
                }
            },
        }
    }

    /// Prints the devices: the grid by default, one device per line when
    /// `linewise` is set, the long format when `long_output` is set.
    pub fn print<M: BluetoothManager>(
        &mut self,
        manager: &M,
        linewise: bool,
        long_output: bool,
        term: &Option<TermSize>,
    )
        requires
            old(self).wf(),
        ensures
            final(self).wf(),
            final(self).devices@.len() == old(self).devices@.len(),
            forall|i: int|
                0 <= i < final(self).devices@.len() ==> final(self).devices@[i].name == old(
                    self,
                ).devices@[i].name && #[trigger] final(self).devices@[i].address == old(
                    self,
                ).devices@[i].address,
    {
        if !linewise && !long_output {
            self.print_lines(manager, term);
        } else if linewise {
            self.print_fullline(manager);
        } else {
            self.print_long(manager);
        }
    }

    /// Prints detailed information about every device, re-fetching each
    /// record's detail first.
    pub fn print_info_all<M: BluetoothManager>(&mut self, manager: &M)
        requires
            old(self).wf(),
        ensures
            final(self).wf(),
            final(self).devices@.len() == old(self).devices@.len(),
            forall|i: int|
                0 <= i < final(self).devices@.len() ==> final(self).devices@[i].name == old(
                    self,
                ).devices@[i].name && #[trigger] final(self).devices@[i].address == old(
                    self,
                ).devices@[i].address,
    {
        let ghost orig = self.devices@;
        let n = self.devices.len();
        let mut j: usize = 0;
        while j < n
            invariant
                self.wf(),
                n == self.devices@.len(),
                n == orig.len(),
                j <= n,
                forall|i: int|
                    0 <= i < n ==> self.devices@[i].name == orig[i].name
                        && #[trigger] self.devices@[i].address == orig[i].address,
            decreases n - j,
        {
            self.refetch_record(j, manager);
            self.devices[j].print_info();
            j = j + 1;
        }
    }
}

} // verus!
