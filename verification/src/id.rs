//! Identifiers of adapters, devices, GATT services and characteristics.
//!
//! Each identifier is the object path under which the daemon exposes the
//! entity. The path of a child is the path of its parent, a `/`, and one more
//! segment, so the parent is found by cutting the path at its last `/`.

use vstd::prelude::*;
use vstd::string::*;

verus! {

/// The separator between the segments of an object path.
pub open spec fn separator() -> char {
    '/'
}

/// The position of the last separator in `path`, or -1 where it has none.
pub open spec fn last_separator(path: Seq<char>) -> int
    decreases path.len(),
{
    if path.len() == 0 {
        -1
    } else if path.last() == separator() {
        path.len() - 1
    } else {
        last_separator(path.drop_last())
    }
}

/// `path` without its last segment and the separator before it.
pub open spec fn parent_path(path: Seq<char>) -> Seq<char>
    recommends
        path.contains(separator()),
{
    path.take(last_separator(path))
}

/// What follows the last separator of `path`; all of it where there is none.
pub open spec fn last_segment(path: Seq<char>) -> Seq<char> {
    path.skip(last_separator(path) + 1)
}

/// The path of the child named `segment` below `parent`.
pub open spec fn child_path(parent: Seq<char>, segment: Seq<char>) -> Seq<char> {
    parent + seq![separator()] + segment
}

/// `last_separator` is -1 exactly on paths without a separator, and otherwise
/// the index of a separator after which none follows.
pub proof fn lemma_last_separator(path: Seq<char>)
    ensures
        -1 <= last_separator(path) < path.len(),
        last_separator(path) == -1 <==> !path.contains(separator()),
        last_separator(path) >= 0 ==> path[last_separator(path)] == separator(),
        forall|j: int| last_separator(path) < j < path.len() ==> path[j] != separator(),
    decreases path.len(),
{
    if path.len() == 0 {
    } else if path.last() == separator() {
        assert(path[path.len() - 1] == separator());
    } else {
        let front = path.drop_last();
        lemma_last_separator(front);
        assert forall|j: int| last_separator(front) < j < path.len() implies path[j]
            != separator() by {
            if j < front.len() {
                assert(front[j] == path[j]);
            }
        }
        if last_separator(front) >= 0 {
            assert(path[last_separator(front)] == front[last_separator(front)]);
        }
    }
}

/// A separator after which none follows is the last one.
pub proof fn lemma_last_separator_is(path: Seq<char>, k: int)
    requires
        0 <= k < path.len(),
        path[k] == separator(),
        forall|j: int| k < j < path.len() ==> path[j] != separator(),
    ensures
        last_separator(path) == k,
{
    lemma_last_separator(path);
    let l = last_separator(path);
    assert(path.contains(separator()));
    if l < k {
        assert(path[k] != separator());
    }
}

/// Cutting a child's path at its last separator gives back the parent's path,
/// whatever the parent is, as long as the child's own segment holds no
/// separator.
pub proof fn lemma_parent_of_child(parent: Seq<char>, segment: Seq<char>)
    requires
        !segment.contains(separator()),
    ensures
        child_path(parent, segment).contains(separator()),
        parent_path(child_path(parent, segment)) == parent,
{
    let path = child_path(parent, segment);
    let k = parent.len() as int;
    assert(path[k] == separator());
    assert forall|j: int| k < j < path.len() implies path[j] != separator() by {
        assert(path[j] == segment[j - k - 1]);
    }
    lemma_last_separator_is(path, k);
    assert(path.take(k) =~= parent);
}

/// A path with a separator is its parent, a separator, and a last segment
/// that holds none: the parent is the path with its last segment removed.
pub proof fn lemma_path_splits_at_parent(path: Seq<char>)
    requires
        path.contains(separator()),
    ensures
        !last_segment(path).contains(separator()),
        path == child_path(parent_path(path), last_segment(path)),
{
    lemma_last_separator(path);
    let k = last_separator(path);
    let segment = last_segment(path);
    assert forall|j: int| 0 <= j < segment.len() implies segment[j] != separator() by {
        assert(segment[j] == path[k + 1 + j]);
    }
    assert(path =~= child_path(parent_path(path), segment));
}

/// Walking up from a characteristic: its service is the path one segment
/// shorter, and that service's device the path two segments shorter, which is
/// also what the service named directly gives.
pub proof fn lemma_parent_chain(device: Seq<char>, service: Seq<char>, characteristic: Seq<char>)
    requires
        !service.contains(separator()),
        !characteristic.contains(separator()),
    ensures
        parent_path(child_path(child_path(device, service), characteristic)) == child_path(
            device,
            service,
        ),
        parent_path(parent_path(child_path(child_path(device, service), characteristic)))
            == device,
        parent_path(parent_path(child_path(child_path(device, service), characteristic)))
            == parent_path(child_path(device, service)),
{
    lemma_parent_of_child(child_path(device, service), characteristic);
    lemma_parent_of_child(device, service);
}

/// Whether `path` holds a separator.
fn contains_separator(path: &str) -> (r: bool)
    ensures
        r == path@.contains(separator()),
{
    let n: usize = path.unicode_len();
    let mut i: usize = 0;
    while i < n
        invariant
            i <= n,
            n == path@.len(),
            forall|j: int| 0 <= j < i ==> path@[j] != separator(),
        decreases n - i,
    {
        if path.get_char(i) == '/' {
            assert(path@[i as int] == separator());
            return true;
        }
        i += 1;
    }
    false
}

/// The parent of `path` as an owned string.
fn parent_of(path: &str) -> (parent: String)
    requires
        path@.contains(separator()),
    ensures
        parent@ == parent_path(path@),
{
    let n: usize = path.unicode_len();
    let mut i: usize = n;
    while i > 0 && path.get_char(i - 1) != '/'
        invariant
            i <= n,
            n == path@.len(),
            forall|j: int| i <= j < n ==> path@[j] != separator(),
        decreases i,
    {
        i -= 1;
    }
    proof {
        if i == 0 {
            assert forall|j: int| 0 <= j < path@.len() implies path@[j] != separator() by {}
            assert(!path@.contains(separator()));
        }
        lemma_last_separator_is(path@, i - 1);
    }
    String::from_str(path.substring_char(0, i - 1))
}

/// Opaque identifier for a Bluetooth adapter on the system.
#[derive(Clone, Debug, Eq, Hash, Ord, PartialOrd)]
pub struct AdapterId {
    pub object_path: String,
}

impl PartialEq for AdapterId {
    fn eq(&self, other: &Self) -> (r: bool) {
        self.object_path == other.object_path
    }
}

impl vstd::std_specs::cmp::PartialEqSpecImpl for AdapterId {
    open spec fn obeys_eq_spec() -> bool {
        true
    }

    open spec fn eq_spec(&self, other: &Self) -> bool {
        self.object_path@ == other.object_path@
    }
}

impl View for AdapterId {
    type V = Seq<char>;

    open spec fn view(&self) -> Seq<char> {
        self.object_path@
    }
}

impl AdapterId {
    /// The identifier of the adapter exposed at `object_path`.
    pub fn new(object_path: &str) -> (id: Self)
        ensures
            id@ == object_path@,
    {
        Self { object_path: String::from_str(object_path) }
    }

    /// The object path that this identifier stands for.
    pub fn path(&self) -> (path: &str)
        ensures
            path@ == self@,
    {
        self.object_path.as_str()
    }
}

/// Opaque identifier for a Bluetooth device which the system knows about. Its
/// path lies below that of the adapter on which the device was discovered.
#[derive(Clone, Debug, Eq, Hash, Ord, PartialOrd)]
pub struct DeviceId {
    pub object_path: String,
}

impl PartialEq for DeviceId {
    fn eq(&self, other: &Self) -> (r: bool) {
        self.object_path == other.object_path
    }
}

impl vstd::std_specs::cmp::PartialEqSpecImpl for DeviceId {
    open spec fn obeys_eq_spec() -> bool {
        true
    }

    open spec fn eq_spec(&self, other: &Self) -> bool {
        self.object_path@ == other.object_path@
    }
}

impl View for DeviceId {
    type V = Seq<char>;

    open spec fn view(&self) -> Seq<char> {
        self.object_path@
    }
}

impl DeviceId {
    /// The identifier of the device exposed at `object_path`.
    pub fn new(object_path: &str) -> (id: Self)
        ensures
            id@ == object_path@,
    {
        Self { object_path: String::from_str(object_path) }
    }

    /// The object path that this identifier stands for.
    pub fn path(&self) -> (path: &str)
        ensures
            path@ == self@,
    {
        self.object_path.as_str()
    }

    /// Whether the path has a separator to cut at, which every identifier
    /// handed out by discovery has.
    pub open spec fn well_formed(&self) -> bool {
        self@.contains(separator())
    }

    /// Whether the path has a separator, so that the parent can be asked
    /// for.
    pub fn has_parent(&self) -> (r: bool)
        ensures
            r == self.well_formed(),
    {
        contains_separator(self.object_path.as_str())
    }

    /// The adapter on which this device was discovered.
    pub fn adapter(&self) -> (parent: AdapterId)
        requires
            self.well_formed(),
        ensures
            parent@ == parent_path(self@),
    {
        AdapterId { object_path: parent_of(self.object_path.as_str()) }
    }
}

/// Opaque identifier for a GATT service on a Bluetooth device.
#[derive(Clone, Debug, Eq, Hash, Ord, PartialOrd)]
pub struct ServiceId {
    pub object_path: String,
}

impl PartialEq for ServiceId {
    fn eq(&self, other: &Self) -> (r: bool) {
        self.object_path == other.object_path
    }
}

impl vstd::std_specs::cmp::PartialEqSpecImpl for ServiceId {
    open spec fn obeys_eq_spec() -> bool {
        true
    }

    open spec fn eq_spec(&self, other: &Self) -> bool {
        self.object_path@ == other.object_path@
    }
}

impl View for ServiceId {
    type V = Seq<char>;

    open spec fn view(&self) -> Seq<char> {
        self.object_path@
    }
}

impl ServiceId {
    /// The identifier of the service exposed at `object_path`.
    pub fn new(object_path: &str) -> (id: Self)
        ensures
            id@ == object_path@,
    {
        Self { object_path: String::from_str(object_path) }
    }

    /// The object path that this identifier stands for.
    pub fn path(&self) -> (path: &str)
        ensures
            path@ == self@,
    {
        self.object_path.as_str()
    }

    /// Whether the path has a separator to cut at, which every identifier
    /// handed out by discovery has.
    pub open spec fn well_formed(&self) -> bool {
        self@.contains(separator())
    }

    /// Whether the path has a separator, so that the parent can be asked
    /// for.
    pub fn has_parent(&self) -> (r: bool)
        ensures
            r == self.well_formed(),
    {
        contains_separator(self.object_path.as_str())
    }

    /// The device on which this service was advertised.
    pub fn device(&self) -> (parent: DeviceId)
        requires
            self.well_formed(),
        ensures
            parent@ == parent_path(self@),
    {
        DeviceId { object_path: parent_of(self.object_path.as_str()) }
    }
}

/// Opaque identifier for a GATT characteristic on a Bluetooth device.
#[derive(Clone, Debug, Eq, Hash, Ord, PartialOrd)]
pub struct CharacteristicId {
    pub object_path: String,
}

impl PartialEq for CharacteristicId {
    fn eq(&self, other: &Self) -> (r: bool) {
        self.object_path == other.object_path
    }
}

impl vstd::std_specs::cmp::PartialEqSpecImpl for CharacteristicId {
    open spec fn obeys_eq_spec() -> bool {
        true
    }

    open spec fn eq_spec(&self, other: &Self) -> bool {
        self.object_path@ == other.object_path@
    }
}

impl View for CharacteristicId {
    type V = Seq<char>;

    open spec fn view(&self) -> Seq<char> {
        self.object_path@
    }
}

impl CharacteristicId {
    /// The identifier of the characteristic exposed at `object_path`.
    pub fn new(object_path: &str) -> (id: Self)
        ensures
            id@ == object_path@,
    {
        Self { object_path: String::from_str(object_path) }
    }

    /// The object path that this identifier stands for.
    pub fn path(&self) -> (path: &str)
        ensures
            path@ == self@,
    {
        self.object_path.as_str()
    }

    /// Whether the path has a separator to cut at, which every identifier
    /// handed out by discovery has.
    pub open spec fn well_formed(&self) -> bool {
        self@.contains(separator())
    }

    /// Whether the path has a separator, so that the parent can be asked
    /// for.
    pub fn has_parent(&self) -> (r: bool)
        ensures
            r == self.well_formed(),
    {
        contains_separator(self.object_path.as_str())
    }

    /// The service on which this characteristic was advertised.
    pub fn service(&self) -> (parent: ServiceId)
        requires
            self.well_formed(),
        ensures
            parent@ == parent_path(self@),
    {
        ServiceId { object_path: parent_of(self.object_path.as_str()) }
    }
}

} // verus!
