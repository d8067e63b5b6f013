//! The device registry: which devices have a reader, found again by identity.
//!
//! A device that is reported while its record is active is ignored. A record
//! leaves the registry when its reader fails, so that a later scan can find the
//! same device again and start a fresh reader.

use vstd::prelude::*;

verus! {

/// `std::path::PathBuf`, carried through opaquely.
#[verifier::external_type_specification]
#[verifier::external_body]
pub struct ExPathBuf(std::path::PathBuf);

/// What a path holds as text: its characters where it is valid Unicode.
pub uninterp spec fn path_unicode(path: std::path::PathBuf) -> Option<Seq<char>>;

/// `Path::to_str`: the path as a string slice where it is valid Unicode,
/// `None` where it is not.
#[verifier::external_body]
fn path_to_str(path: &std::path::PathBuf) -> (text: Option<&str>)
    ensures
        match text {
            Some(s) => path_unicode(*path) == Some(s@),
            None => path_unicode(*path).is_none(),
        },
{
    path.to_str()
}

/// `text` where there is one, else `fallback`.
pub open spec fn text_or(text: Option<Seq<char>>, fallback: Seq<char>) -> Seq<char> {
    match text {
        Some(t) => t,
        None => fallback,
    }
}

/// The characters of an optional string slice.
pub open spec fn chars_of(text: Option<&str>) -> Option<Seq<char>> {
    match text {
        Some(s) => Some(s@),
        None => None,
    }
}

/// How a path is shown: its text, or "unknown path" where it has none.
pub fn path_label(text: Option<&str>) -> (label: String)
    ensures
        label@ == text_or(chars_of(text), "unknown path"@),
{
    match text {
        Some(v) => v.to_owned(),
        None => "unknown path".to_owned(),
    }
}

/// How a device is shown: the name it reports, or "unknown device" where it
/// reports none.
pub fn device_label(name: Option<&str>) -> (label: String)
    ensures
        label@ == text_or(chars_of(name), "unknown device"@),
{
    match name {
        Some(v) => v.to_owned(),
        None => "unknown device".to_owned(),
    }
}

/// How `path` is shown in messages.
pub fn get_path(path: &std::path::PathBuf) -> (label: String)
    ensures
        label@ == text_or(path_unicode(*path), "unknown path"@),
{
    path_label(path_to_str(path))
}

/// Tells one physical device from another across rescans.
#[derive(Debug, Clone)]
pub enum DeviceIdentity {
    /// Bus, vendor, product and version, as the device reports them, where
    /// no two attached devices report the same.
    Hardware { bus_type: u16, vendor: u16, product: u16, version: u16 },
    /// What the device reports, and the path of its node: the path tells
    /// apart two devices of one model, which report the same.
    HardwareAt { bus_type: u16, vendor: u16, product: u16, version: u16, path: String },
    /// The path of the device node, where the device reports nothing.
    Path(String),
}

/// A device identity as a plain value.
pub enum IdentityView {
    Hardware { bus_type: u16, vendor: u16, product: u16, version: u16 },
    HardwareAt { bus_type: u16, vendor: u16, product: u16, version: u16, path: Seq<char> },
    Path(Seq<char>),
}

/// The identity of the device found at `path` that reports `ids` (bus,
/// vendor, product, version): both together where it reports any, the path
/// alone where it reports none.
pub open spec fn identity_of(ids: Option<(u16, u16, u16, u16)>, path: Seq<char>) -> IdentityView {
    match ids {
        Some((bus_type, vendor, product, version)) => IdentityView::HardwareAt {
            bus_type,
            vendor,
            product,
            version,
            path,
        },
        None => IdentityView::Path(path),
    }
}

/// Forms the identity of the device found at `path` that reports `ids` (bus,
/// vendor, product, version), or reports nothing.
pub fn identify(ids: Option<(u16, u16, u16, u16)>, path: &str) -> (identity: DeviceIdentity)
    ensures
        identity@ == identity_of(ids, path@),
{
    match ids {
        Some((bus_type, vendor, product, version)) => DeviceIdentity::HardwareAt {
            bus_type,
            vendor,
            product,
            version,
            path: path.to_owned(),
        },
        None => DeviceIdentity::Path(path.to_owned()),
    }
}

impl View for DeviceIdentity {
    type V = IdentityView;

    open spec fn view(&self) -> IdentityView {
        match *self {
            DeviceIdentity::Hardware { bus_type, vendor, product, version } => {
                IdentityView::Hardware { bus_type, vendor, product, version }
            },
            DeviceIdentity::HardwareAt { bus_type, vendor, product, version, path } => {
                IdentityView::HardwareAt { bus_type, vendor, product, version, path: path@ }
            },
            DeviceIdentity::Path(path) => IdentityView::Path(path@),
        }
    }
}

impl DeviceIdentity {
    /// Whether both identities denote the same device.
    pub fn same_device(&self, other: &DeviceIdentity) -> (same: bool)
        ensures
            same == (self@ == other@),
    {
        match self {
            DeviceIdentity::Hardware { bus_type, vendor, product, version } => match other {
                DeviceIdentity::Hardware {
                    bus_type: other_bus,
                    vendor: other_vendor,
                    product: other_product,
                    version: other_version,
                } => {
                    *bus_type == *other_bus && *vendor == *other_vendor && *product
                        == *other_product && *version == *other_version
                },
                _ => false,
            },
            DeviceIdentity::HardwareAt { bus_type, vendor, product, version, path } => match other {
                DeviceIdentity::HardwareAt {
                    bus_type: other_bus,
                    vendor: other_vendor,
                    product: other_product,
                    version: other_version,
                    path: other_path,
                } => {
                    *bus_type == *other_bus && *vendor == *other_vendor && *product
                        == *other_product && *version == *other_version && *path == *other_path
                },
                _ => false,
            },
            DeviceIdentity::Path(path) => match other {
                DeviceIdentity::Path(other_path) => *path == *other_path,
                _ => false,
            },
        }
    }
}

impl PartialEq for DeviceIdentity {
    fn eq(&self, other: &DeviceIdentity) -> (same: bool) {
        self.same_device(other)
    }
}

impl Eq for DeviceIdentity {

}

impl vstd::std_specs::cmp::PartialEqSpecImpl for DeviceIdentity {
    open spec fn obeys_eq_spec() -> bool {
        true
    }

    open spec fn eq_spec(&self, other: &DeviceIdentity) -> bool {
        self@ == other@
    }
}

/// Whether a record's device has a reader.
#[derive(Debug, Clone, Copy, PartialEq, Eq, Structural)]
pub enum DeviceStatus {
    /// A reader is bound to the device.
    Active,
    /// The reader failed and the record has left the registry.
    Removed,
}

/// What the registry knows of one device, and the handle of the device's
/// reader, which goes where the record goes.
pub struct DeviceRecord<H> {
    pub identity: DeviceIdentity,
    pub display_name: String,
    pub status: DeviceStatus,
    pub reader: H,
}

/// The identities of `records`, in the same order.
pub open spec fn identities_of<H>(records: Seq<DeviceRecord<H>>) -> Seq<IdentityView> {
    records.map_values(|r: DeviceRecord<H>| r.identity@)
}

/// What a report does to the active identities, and whether a reader is to
/// be started: a device that is active already is ignored.
pub open spec fn report(active: Seq<IdentityView>, identity: IdentityView) -> (
    Seq<IdentityView>,
    bool,
) {
    if active.contains(identity) {
        (active, false)
    } else {
        (active.push(identity), true)
    }
}

/// The active identities once the reader of `identity` has failed: its
/// record is gone, the others stay where they were.
pub open spec fn forget(active: Seq<IdentityView>, identity: IdentityView) -> Seq<IdentityView> {
    if active.contains(identity) {
        active.remove(active.index_of(identity))
    } else {
        active
    }
}

/// The active identities after `reports`, taken in order.
pub open spec fn after_reports(active: Seq<IdentityView>, reports: Seq<IdentityView>) -> Seq<
    IdentityView,
>
    decreases reports.len(),
{
    if reports.len() == 0 {
        active
    } else {
        report(after_reports(active, reports.drop_last()), reports.last()).0
    }
}

/// How many readers are started for `identity` over `reports`.
pub open spec fn readers_started(
    active: Seq<IdentityView>,
    reports: Seq<IdentityView>,
    identity: IdentityView,
) -> nat
    decreases reports.len(),
{
    if reports.len() == 0 {
        0
    } else {
        let earlier = readers_started(active, reports.drop_last(), identity);
        if reports.last() == identity && report(
            after_reports(active, reports.drop_last()),
            reports.last(),
        ).1 {
            earlier + 1
        } else {
            earlier
        }
    }
}

/// The devices that currently have a reader.
pub struct Registry<H> {
    records: Vec<DeviceRecord<H>>,
}

impl<H> View for Registry<H> {
    type V = Seq<DeviceRecord<H>>;

    /// The records, in the order in which their devices were found.
    closed spec fn view(&self) -> Seq<DeviceRecord<H>> {
        self.records@
    }
}

impl<H> Registry<H> {
    /// The identities of the devices that have a reader.
    pub open spec fn identities(&self) -> Seq<IdentityView> {
        identities_of(self@)
    }

    /// Every record is active, and no identity has two records.
    pub open spec fn wf(&self) -> bool {
        &&& forall|i: int| 0 <= i < self@.len() ==> (#[trigger] self@[i]).status == DeviceStatus::Active
        &&& self.identities().no_duplicates()
    }

    /// Whether `identity` has an active record.
    pub open spec fn active(&self, identity: IdentityView) -> bool {
        self.identities().contains(identity)
    }

    /// A registry without devices.
    pub fn new() -> (registry: Self)
        ensures
            registry.wf(),
            registry@ == Seq::<DeviceRecord<H>>::empty(),
    {
        Registry { records: Vec::new() }
    }

    /// The number of devices that have a reader.
    pub fn len(&self) -> (n: usize)
        ensures
            n == self@.len(),
    {
        self.records.len()
    }

    /// The record at position `i`.
    pub fn get(&self, i: usize) -> (record: Option<&DeviceRecord<H>>)
        ensures
            record == if i < self@.len() {
                Some(&self@[i as int])
            } else {
                None
            },
    {
        if i < self.records.len() {
            Some(&self.records[i])
        } else {
            None
        }
    }

    /// Where the record of `identity` stands: the first position that holds
    /// it, or `None` where no record does.
    pub fn position(&self, identity: &DeviceIdentity) -> (at: Option<usize>)
        ensures
            match at {
                Some(i) => {
                    &&& i < self@.len()
                    &&& self.identities()[i as int] == identity@
                    &&& forall|j: int| 0 <= j < i ==> self.identities()[j] != identity@
                },
                None => !self.active(identity@),
            },
    {
        let mut i: usize = 0;
        while i < self.records.len()
            invariant
                i <= self.records.len(),
                forall|j: int| 0 <= j < i ==> self.identities()[j] != identity@,
            decreases self.records.len() - i,
        {
            if self.records[i].identity.same_device(identity) {
                return Some(i);
            }
            i += 1;
        }
        None
    }

    /// Whether a reader is bound to the device `identity`.
    pub fn is_active(&self, identity: &DeviceIdentity) -> (b: bool)
        ensures
            b == self.active(identity@),
    {
        self.position(identity).is_some()
    }

    /// Takes note of a reported device whose reader would be `reader`. Where
    /// the identity has no active record, a record is added behind the others:
    /// the reader is bound to the device. Where it has one, the report is
    /// ignored and `reader` is handed back as the error.
    pub fn add_device(
        &mut self,
        identity: DeviceIdentity,
        name: Option<&str>,
        reader: H,
    ) -> (added: Result<(), H>)
        requires
            old(self).wf(),
        ensures
            final(self).wf(),
            (final(self).identities(), added.is_ok()) == report(old(self).identities(), identity@),
            final(self).active(identity@),
            match added {
                Ok(_) => {
                    &&& final(self)@.len() == old(self)@.len() + 1
                    &&& final(self)@.drop_last() == old(self)@
                    &&& final(self)@.last().identity == identity
                    &&& final(self)@.last().display_name@ == text_or(
                        chars_of(name),
                        "unknown device"@,
                    )
                    &&& final(self)@.last().status == DeviceStatus::Active
                    &&& final(self)@.last().reader == reader
                },
                Err(handed_back) => {
                    &&& final(self)@ == old(self)@
                    &&& handed_back == reader
                },
            },
    {
        if self.is_active(&identity) {
            return Err(reader);
        }
        let display_name = device_label(name);
        let record = DeviceRecord { identity, display_name, status: DeviceStatus::Active, reader };
        self.records.push(record);
        proof {
            let before = old(self)@;
            let after = self@;
            assert(after.drop_last() =~= before);
            assert(identities_of(after) =~= identities_of(before).push(identity@));
            assert(identities_of(after)[after.len() - 1] == identity@);
        }
        Ok(())
    }

    /// Empties the registry when the pipeline shuts down: every record
    /// leaves it, in the order in which the devices were found, with the
    /// status `Removed` and with its reader's handle.
    pub fn drain(&mut self) -> (removed: Vec<DeviceRecord<H>>)
        ensures
            final(self).wf(),
            final(self)@ == Seq::<DeviceRecord<H>>::empty(),
            removed@.len() == old(self)@.len(),
            forall|i: int|
                0 <= i < removed@.len() ==> {
                    &&& (#[trigger] removed@[i]).identity == old(self)@[i].identity
                    &&& removed@[i].display_name == old(self)@[i].display_name
                    &&& removed@[i].reader == old(self)@[i].reader
                    &&& removed@[i].status == DeviceStatus::Removed
                },
    {
        let mut removed: Vec<DeviceRecord<H>> = Vec::new();
        while self.records.len() > 0
            invariant
                removed@.len() + self.records@.len() == old(self)@.len(),
                self.records@ == old(self)@.skip(removed@.len() as int),
                forall|i: int|
                    0 <= i < removed@.len() ==> {
                        &&& (#[trigger] removed@[i]).identity == old(self)@[i].identity
                        &&& removed@[i].display_name == old(self)@[i].display_name
                        &&& removed@[i].reader == old(self)@[i].reader
                        &&& removed@[i].status == DeviceStatus::Removed
                    },
            decreases self.records.len(),
        {
            let mut record = self.records.remove(0);
            record.status = DeviceStatus::Removed;
            removed.push(record);
            proof {
                let done = removed@.len() as int;
                assert(self.records@ =~= old(self)@.skip(done));
            }
        }
        proof {
            assert(identities_of(self@) =~= Seq::<IdentityView>::empty());
        }
        removed
    }

    /// Takes note that the reader of `identity` failed. Its record leaves the
    /// registry and is returned with the status `Removed`; the other records
    /// stay as they are. Where `identity` has no record, nothing changes.
    pub fn remove_device(&mut self, identity: &DeviceIdentity) -> (removed: Option<
        DeviceRecord<H>,
    >)
        requires
            old(self).wf(),
        ensures
            final(self).wf(),
            !final(self).active(identity@),
            final(self).identities() == forget(old(self).identities(), identity@),
            match removed {
                Some(record) => {
                    let at = old(self).identities().index_of(identity@);
                    &&& old(self).active(identity@)
                    &&& final(self)@ == old(self)@.remove(at)
                    &&& record.identity == old(self)@[at].identity
                    &&& record.display_name == old(self)@[at].display_name
                    &&& record.reader == old(self)@[at].reader
                    &&& record.status == DeviceStatus::Removed
                },
                None => {
                    &&& !old(self).active(identity@)
                    &&& final(self)@ == old(self)@
                },
            },
    {
        match self.position(identity) {
            Some(i) => {
                let ghost before = self@;
                let ghost ids = self.identities();
                let mut record = self.records.remove(i);
                record.status = DeviceStatus::Removed;
                proof {
                    let at = ids.index_of(identity@);
                    assert(ids[i as int] == identity@);
                    assert(ids.contains(identity@));
                    assert(0 <= at < ids.len() && ids[at] == identity@);
                    assert(at == i);
                    let after = self@;
                    assert(identities_of(after) =~= ids.remove(i as int));
                    assert forall|a: int, b: int|
                        0 <= a < identities_of(after).len() && 0 <= b < identities_of(after).len()
                            && a != b implies identities_of(after)[a] != identities_of(after)[b] by {
                        let a0 = if a < i { a } else { a + 1 };
                        let b0 = if b < i { b } else { b + 1 };
                        assert(identities_of(after)[a] == ids[a0]);
                        assert(identities_of(after)[b] == ids[b0]);
                    }
                    assert forall|k: int| 0 <= k < identities_of(after).len() implies identities_of(
                        after,
                    )[k] != identity@ by {
                        let k0 = if k < i { k } else { k + 1 };
                        assert(identities_of(after)[k] == ids[k0]);
                    }
                    assert forall|k: int| 0 <= k < after.len() implies (#[trigger] after[k]).status
                        == DeviceStatus::Active by {
                        let k0 = if k < i { k } else { k + 1 };
                        assert(after[k] == before[k0]);
                    }
                }
                Some(record)
            },
            None => None,
        }
    }
}

/// The path tells apart what the reported numbers cannot: two devices that
/// report the same are one device exactly when they are found at one path.
/// A device that reports nothing is never taken for one that does.
pub proof fn law_path_tells_models_apart(
    ids: (u16, u16, u16, u16),
    path: Seq<char>,
    other_path: Seq<char>,
)
    ensures
        identity_of(Some(ids), path) == identity_of(Some(ids), other_path) <==> path == other_path,
        identity_of(None, path) == identity_of(None, other_path) <==> path == other_path,
        identity_of(Some(ids), path) != identity_of(None, other_path),
{
}

/// A second device of a model, found at another path than the first, is
/// not ignored because the first is active: unless it is active itself, it
/// gets a reader of its own.
pub proof fn law_second_device_of_a_model_is_added(
    active: Seq<IdentityView>,
    ids: (u16, u16, u16, u16),
    path: Seq<char>,
    other_path: Seq<char>,
)
    requires
        path != other_path,
        !active.contains(identity_of(Some(ids), other_path)),
    ensures
        report(report(active, identity_of(Some(ids), path)).0, identity_of(
            Some(ids),
            other_path,
        )).1,
{
    let first = identity_of(Some(ids), path);
    let second = identity_of(Some(ids), other_path);
    let after_first = report(active, first).0;
    if after_first.contains(second) {
        let k = choose|k: int| 0 <= k < after_first.len() && after_first[k] == second;
        if k < active.len() {
            assert(active[k] == second);
        }
    }
}

/// Over any run of reports, with no reader failing in between, at most one
/// reader is started for a device: exactly one where the device was not active
/// before and is reported at all, none otherwise. However often a device is
/// reported, no identity is ever active twice.
pub proof fn law_one_reader_per_identity(
    active: Seq<IdentityView>,
    reports: Seq<IdentityView>,
    identity: IdentityView,
)
    requires
        active.no_duplicates(),
    ensures
        after_reports(active, reports).no_duplicates(),
        after_reports(active, reports).contains(identity) <==> active.contains(identity)
            || reports.contains(identity),
        readers_started(active, reports, identity) == if !active.contains(identity)
            && reports.contains(identity) {
            1nat
        } else {
            0nat
        },
    decreases reports.len(),
{
    if reports.len() > 0 {
        let earlier = reports.drop_last();
        let last = reports.last();
        law_one_reader_per_identity(active, earlier, identity);
        law_one_reader_per_identity(active, earlier, last);
        let mid = after_reports(active, earlier);
        let end = after_reports(active, reports);
        assert(reports[reports.len() - 1] == last);
        if earlier.contains(identity) {
            let k = choose|k: int| 0 <= k < earlier.len() && earlier[k] == identity;
            assert(reports[k] == identity);
        }
        if reports.contains(identity) && last != identity {
            let k = choose|k: int| 0 <= k < reports.len() && reports[k] == identity;
            assert(earlier[k] == identity);
        }
        if !mid.contains(last) {
            assert(end == mid.push(last));
            assert(end[end.len() - 1] == last);
            if mid.contains(identity) {
                let k = choose|k: int| 0 <= k < mid.len() && mid[k] == identity;
                assert(end[k] == identity);
            }
            if end.contains(identity) && identity != last {
                let k = choose|k: int| 0 <= k < end.len() && end[k] == identity;
                assert(mid[k] == identity);
            }
        }
    }
}

/// After the reader of a device has failed, the device has no record, every
/// other device keeps its own, and the next report of the device starts a
/// fresh reader.
pub proof fn law_failed_device_is_found_again(active: Seq<IdentityView>, identity: IdentityView)
    requires
        active.no_duplicates(),
    ensures
        forget(active, identity).no_duplicates(),
        !forget(active, identity).contains(identity),
        forall|other: IdentityView|
            other != identity ==> (forget(active, identity).contains(other) <==> active.contains(
                other,
            )),
        report(forget(active, identity), identity).1,
{
    let after = forget(active, identity);
    if active.contains(identity) {
        let at = active.index_of(identity);
        assert(0 <= at < active.len() && active[at] == identity);
        assert forall|k: int| 0 <= k < after.len() implies after[k] == active[if k < at {
            k
        } else {
            k + 1
        }] by {}
        assert forall|other: IdentityView| other != identity implies (after.contains(other)
            <==> active.contains(other)) by {
            if after.contains(other) {
                let k = choose|k: int| 0 <= k < after.len() && after[k] == other;
                assert(active[if k < at { k } else { k + 1 }] == other);
            }
            if active.contains(other) {
                let k0 = choose|k0: int| 0 <= k0 < active.len() && active[k0] == other;
                assert(after[if k0 < at { k0 } else { k0 - 1 }] == other);
            }
        }
        if after.contains(identity) {
            let k = choose|k: int| 0 <= k < after.len() && after[k] == identity;
            assert(active[if k < at { k } else { k + 1 }] == identity);
        }
    }
}

/// A device that is reported twice in a row gets no reader from the second
/// report, and the registry is the same after it as before it.
pub proof fn law_second_report_is_ignored(active: Seq<IdentityView>, identity: IdentityView)
    ensures
        report(report(active, identity).0, identity) == (report(active, identity).0, false),
{
    let once = report(active, identity).0;
    if !active.contains(identity) {
        assert(once[once.len() - 1] == identity);
    }
}

} // verus!
