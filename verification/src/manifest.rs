//! The manifest of the files that belong to an installation. The file system is outside:
//! what was read from it comes in, what is to be written goes out.

use vstd::prelude::*;
use crate::paths::{self, PathText};
use crate::sorting::{self, Ranked};
use crate::text;

verus! {

/// The name of the manifest's file.
pub const COMPONENT_MANIFEST_FILE_NAME: &'static str = "component-manifest.toml";

/// The version of the manifest's format.
pub const COMPONENT_MANIFEST_VERSION: u32 = 1;

/// What a file is.
#[derive(Debug, Clone, Copy, PartialEq, Eq, Structural)]
pub enum ComponentKind {
    Bin,
    Config,
    Db,
    Lock,
}

/// A file of the installation.
#[derive(Debug, Clone, PartialEq, Eq)]
pub struct ComponentEntry {
    pub kind: ComponentKind,
    pub path: PathText,
}

/// What a kind is sorted by.
pub open spec fn kind_key(kind: ComponentKind) -> Seq<char> {
    match kind {
        ComponentKind::Bin => "0"@,
        ComponentKind::Config => "1"@,
        ComponentKind::Db => "2"@,
        ComponentKind::Lock => "3"@,
    }
}

/// What an entry is sorted by: its kind, then the components of its path. Two paths with
/// the same components are the same path.
pub open spec fn entry_keys(e: ComponentEntry) -> Seq<Seq<char>> {
    seq![kind_key(e.kind)] + text::texts(e.path.keys@)
}

fn keys_of(e: &ComponentEntry) -> (r: Vec<&str>)
    ensures
        text::strs(r@) == entry_keys(*e),
{
    let mut all: Vec<&str> = Vec::new();
    all.push(
        match e.kind {
            ComponentKind::Bin => "0",
            ComponentKind::Config => "1",
            ComponentKind::Db => "2",
            ComponentKind::Lock => "3",
        },
    );
    let keys = &e.path.keys;
    let mut i: usize = 0;
    while i < keys.len()
        invariant
            i <= keys@.len(),
            all@.len() == i + 1,
            all@[0]@ == kind_key(e.kind),
            forall|j: int| 0 <= j < i ==> (#[trigger] all@[j + 1])@ == keys@[j]@,
        decreases keys@.len() - i,
    {
        all.push(keys[i].as_str());
        i = i + 1;
    }
    assert forall|j: int| 0 <= j < all@.len() implies #[trigger] text::strs(all@)[j]
        == entry_keys(*e)[j] by {
        if j > 0 {
            let k = j - 1;
            assert(all@[k + 1]@ == keys@[k]@);
        }
    }
    assert(text::strs(all@) =~= entry_keys(*e));
    all
}

impl Ranked for ComponentEntry {
    open spec fn le(a: Self, b: Self) -> bool {
        text::keys_le(entry_keys(a), entry_keys(b))
    }

    proof fn le_total(a: Self, b: Self) {
        text::keys_le_total(entry_keys(a), entry_keys(b));
    }

    proof fn le_transitive(a: Self, b: Self, c: Self) {
        text::keys_le_transitive(entry_keys(a), entry_keys(b), entry_keys(c));
    }

    fn is_le(&self, other: &Self) -> (r: bool) {
        text::keys_precede(&keys_of(self), &keys_of(other))
    }
}

/// The first `n` of sorted entries, each once; of entries for the same file the last one.
pub open spec fn last_of_each(sorted: Seq<ComponentEntry>, n: nat) -> Seq<ComponentEntry>
    decreases n,
{
    if n == 0 {
        Seq::empty()
    } else {
        let before = last_of_each(sorted, (n - 1) as nat);
        let e = sorted[n - 1];
        if before.len() > 0 && ComponentEntry::le(e, before.last()) {
            before.drop_last().push(e)
        } else {
            before.push(e)
        }
    }
}

/// The entries in their order, each file once.
pub open spec fn in_order(entries: Seq<ComponentEntry>) -> Seq<ComponentEntry> {
    last_of_each(sorting::arranged(entries), entries.len())
}

/// The entries are in their order, and each file is there once.
pub open spec fn orderly(entries: Seq<ComponentEntry>) -> bool {
    forall|i: int, j: int|
        0 <= i < j < entries.len() ==> !ComponentEntry::le(
            #[trigger] entries[j],
            #[trigger] entries[i],
        )
}

/// Entries that were put in order are in their order.
pub proof fn ordering_orders(sorted: Seq<ComponentEntry>, n: nat)
    requires
        n <= sorted.len(),
        sorting::ascending(sorted),
    ensures
        orderly(last_of_each(sorted, n)),
        n > 0 ==> last_of_each(sorted, n).len() > 0 && last_of_each(sorted, n).last() == sorted[n
            - 1],
        forall|i: int|
            0 <= i < last_of_each(sorted, n).len() ==> exists|j: int|
                0 <= j < n && #[trigger] last_of_each(sorted, n)[i] == sorted[j],
    decreases n,
{
    if n > 0 {
        let m = (n - 1) as nat;
        ordering_orders(sorted, m);
        let before = last_of_each(sorted, m);
        let after = last_of_each(sorted, n);
        let e = sorted[n - 1];
        assert forall|i: int| 0 <= i < after.len() implies exists|j: int|
            0 <= j < n && #[trigger] after[i] == sorted[j] by {
            if i == after.len() - 1 {
                assert(after[i] == sorted[n - 1]);
            } else {
                assert(after[i] == before[i]);
                let j = choose|j: int| 0 <= j < m && before[i] == sorted[j];
                assert(0 <= j < n && after[i] == sorted[j]);
            }
        }
        assert forall|i: int, j: int| 0 <= i < j < after.len() implies !ComponentEntry::le(
            #[trigger] after[j],
            #[trigger] after[i],
        ) by {
            if j < after.len() - 1 {
                assert(after[i] == before[i] && after[j] == before[j]);
            } else if before.len() > 0 && ComponentEntry::le(e, before.last()) {
                let last = before.last();
                assert(after[i] == before[i]);
                assert(!ComponentEntry::le(before[before.len() - 1], before[i]));
                if ComponentEntry::le(e, before[i]) {
                    assert(last == sorted[m - 1]);
                    assert(ComponentEntry::le(sorted[m - 1], sorted[n - 1]));
                    ComponentEntry::le_transitive(last, e, before[i]);
                }
            } else {
                assert(after[i] == before[i]);
                if i < before.len() - 1 {
                    if ComponentEntry::le(e, before[i]) {
                        assert(before.last() == sorted[m - 1]);
                        assert(ComponentEntry::le(sorted[m - 1], sorted[n - 1]));
                        ComponentEntry::le_transitive(before.last(), e, before[i]);
                        assert(!ComponentEntry::le(before[before.len() - 1], before[i]));
                    }
                }
            }
        }
    }
}

/// The entries in their order, each file once; of entries for the same file the last one.
pub fn order_entries(entries: Vec<ComponentEntry>) -> (r: Vec<ComponentEntry>)
    ensures
        r@ == in_order(entries@),
        orderly(r@),
{
    let ghost all = entries@;
    let sorted = sorting::sort(entries);
    proof {
        broadcast use vstd::seq_lib::group_to_multiset_ensures;

        assert(sorted@.len() == sorted@.to_multiset().len());
        assert(all.len() == all.to_multiset().len());
    }
    let ghost order = sorted@;
    let mut rest = sorted;
    let mut once: Vec<ComponentEntry> = Vec::new();
    assert(order.skip(0) =~= order);
    while rest.len() > 0
        invariant
            rest@.len() <= order.len(),
            rest@ == order.skip(order.len() - rest@.len()),
            once@ == last_of_each(order, (order.len() - rest@.len()) as nat),
        decreases rest@.len(),
    {
        let ghost before = rest@;
        let entry = rest.remove(0);
        assert(entry == order[order.len() - before.len()]);
        assert(rest@ =~= order.skip(order.len() - rest@.len()));
        if once.len() > 0 && entry.is_le(&once[once.len() - 1]) {
            let _ = once.pop();
        }
        once.push(entry);
    }
    proof {
        ordering_orders(order, order.len());
    }
    once
}

/// The first index from `i` on whose entry does not stand before `e`.
pub open spec fn place_for(entries: Seq<ComponentEntry>, e: ComponentEntry, i: int) -> int
    decreases entries.len() - i,
{
    if i < 0 || i >= entries.len() || ComponentEntry::le(e, entries[i]) {
        i
    } else {
        place_for(entries, e, i + 1)
    }
}

/// The file of an entry is there.
pub open spec fn recorded(entries: Seq<ComponentEntry>, e: ComponentEntry) -> bool {
    exists|i: int| 0 <= i < entries.len() && sorting::tied(#[trigger] entries[i], e)
}

/// The entries with one more, unless its file is there.
pub open spec fn with_entry(entries: Seq<ComponentEntry>, e: ComponentEntry) -> Seq<
    ComponentEntry,
> {
    if recorded(entries, e) {
        entries
    } else {
        entries.insert(place_for(entries, e, 0), e)
    }
}

proof fn lemma_place_for(entries: Seq<ComponentEntry>, e: ComponentEntry, i: int)
    requires
        0 <= i <= entries.len(),
    ensures
        i <= place_for(entries, e, i) <= entries.len(),
        forall|j: int|
            i <= j < place_for(entries, e, i) ==> !ComponentEntry::le(e, #[trigger] entries[j]),
        place_for(entries, e, i) < entries.len() ==> ComponentEntry::le(
            e,
            entries[place_for(entries, e, i)],
        ),
    decreases entries.len() - i,
{
    if i < entries.len() && !ComponentEntry::le(e, entries[i]) {
        lemma_place_for(entries, e, i + 1);
    }
}

/// A recorded file keeps the entries in their order.
pub proof fn recording_keeps_order(entries: Seq<ComponentEntry>, e: ComponentEntry)
    requires
        orderly(entries),
    ensures
        orderly(with_entry(entries, e)),
        recorded(with_entry(entries, e), e),
        with_entry(with_entry(entries, e), e) == with_entry(entries, e),
{
    let after = with_entry(entries, e);
    ComponentEntry::le_total(e, e);
    if !recorded(entries, e) {
        let p = place_for(entries, e, 0);
        lemma_place_for(entries, e, 0);
        assert(after[p] == e);
        assert(sorting::tied(after[p], e));
        assert forall|i: int, j: int| 0 <= i < j < after.len() implies !ComponentEntry::le(
            #[trigger] after[j],
            #[trigger] after[i],
        ) by {
            if i == p {
                // `e` stands before what follows it.
                assert(after[j] == entries[j - 1]);
                if ComponentEntry::le(entries[j - 1], e) {
                    if j - 1 == p {
                        assert(sorting::tied(entries[p], e));
                    } else {
                        ComponentEntry::le_transitive(entries[j - 1], e, entries[p]);
                        assert(!ComponentEntry::le(entries[j - 1], entries[p]));
                    }
                }
            } else if j == p {
                assert(after[i] == entries[i]);
            } else {
                let i2 = if i < p {
                    i
                } else {
                    i - 1
                };
                let j2 = if j < p {
                    j
                } else {
                    j - 1
                };
                assert(after[i] == entries[i2] && after[j] == entries[j2]);
                assert(!ComponentEntry::le(entries[j2], entries[i2]));
            }
        }
    }
}

/// Every file that is there stays there when another is recorded.
pub proof fn recording_loses_nothing(
    entries: Seq<ComponentEntry>,
    e: ComponentEntry,
    other: ComponentEntry,
)
    requires
        recorded(entries, other),
    ensures
        recorded(with_entry(entries, e), other),
{
    let after = with_entry(entries, e);
    let k = choose|k: int| 0 <= k < entries.len() && sorting::tied(#[trigger] entries[k], other);
    if !recorded(entries, e) {
        lemma_place_for(entries, e, 0);
        let p = place_for(entries, e, 0);
        if k < p {
            assert(after[k] == entries[k]);
        } else {
            assert(after[k + 1] == entries[k]);
        }
    }
}

proof fn lemma_each_stays(s: Seq<ComponentEntry>, n: nat)
    requires
        orderly(s),
        n <= s.len(),
    ensures
        last_of_each(s, n) == s.take(n as int),
    decreases n,
{
    if n == 0 {
        assert(s.take(0) =~= Seq::empty());
    } else {
        let m = (n - 1) as nat;
        lemma_each_stays(s, m);
        if m > 0 {
            assert(s.take(m as int).last() == s[m - 1]);
            assert(!ComponentEntry::le(s[n - 1], s[m - 1]));
        }
        assert(s.take(m as int).push(s[n - 1]) =~= s.take(n as int));
    }
}

/// Entries that are in their order stay as they are when they are put in order.
pub proof fn ordered_entries_stay(s: Seq<ComponentEntry>)
    requires
        orderly(s),
    ensures
        in_order(s) == s,
{
    assert forall|i: int, j: int| 0 <= i <= j < s.len() implies ComponentEntry::le(
        #[trigger] s[i],
        #[trigger] s[j],
    ) by {
        ComponentEntry::le_total(s[i], s[j]);
        if i < j {
            assert(!ComponentEntry::le(s[j], s[i]));
        }
    }
    assert(sorting::sorted_from(s, s));
    sorting::every_list_can_be_sorted(s);
    sorting::sort_is_unique(sorting::arranged(s), s, s);
    lemma_each_stays(s, s.len());
    assert(s.take(s.len() as int) =~= s);
}

/// Recording adds the file and no other.
pub proof fn recording_adds_one(
    entries: Seq<ComponentEntry>,
    e: ComponentEntry,
    other: ComponentEntry,
)
    ensures
        recorded(with_entry(entries, e), other) <==> recorded(entries, other) || sorting::tied(
            e,
            other,
        ),
{
    let after = with_entry(entries, e);
    if recorded(entries, other) {
        recording_loses_nothing(entries, e, other);
    }
    if recorded(entries, e) {
        if sorting::tied(e, other) {
            let k = choose|k: int| 0 <= k < entries.len() && sorting::tied(#[trigger] entries[k], e);
            ComponentEntry::le_transitive(entries[k], e, other);
            ComponentEntry::le_transitive(other, e, entries[k]);
            assert(sorting::tied(entries[k], other));
        }
    } else {
        lemma_place_for(entries, e, 0);
        let p = place_for(entries, e, 0);
        assert(after[p] == e);
        if recorded(after, other) {
            let k = choose|k: int| 0 <= k < after.len() && sorting::tied(#[trigger] after[k], other);
            if k < p {
                assert(after[k] == entries[k]);
            } else if k > p {
                assert(after[k] == entries[k - 1]);
            }
        }
    }
}

/// The entries once all these files were recorded, one after the other.
pub open spec fn with_entries(entries: Seq<ComponentEntry>, new: Seq<ComponentEntry>) -> Seq<
    ComponentEntry,
>
    decreases new.len(),
{
    if new.len() == 0 {
        entries
    } else {
        with_entry(with_entries(entries, new.drop_last()), new.last())
    }
}

/// Records that are made one after the other add up: exactly the files that were there and
/// those that were recorded are there, in their order and each once.
pub proof fn records_add_up(
    entries: Seq<ComponentEntry>,
    new: Seq<ComponentEntry>,
    other: ComponentEntry,
)
    requires
        orderly(entries),
    ensures
        orderly(with_entries(entries, new)),
        recorded(with_entries(entries, new), other) <==> recorded(entries, other) || recorded(
            new,
            other,
        ),
    decreases new.len(),
{
    if new.len() > 0 {
        let rest = new.drop_last();
        records_add_up(entries, rest, other);
        let before = with_entries(entries, rest);
        recording_keeps_order(before, new.last());
        recording_adds_one(before, new.last(), other);
        if recorded(rest, other) {
            let i = choose|i: int| 0 <= i < rest.len() && sorting::tied(#[trigger] rest[i], other);
            assert(sorting::tied(new[i], other));
        }
        if sorting::tied(new.last(), other) {
            assert(sorting::tied(new[new.len() - 1], other));
        }
        if recorded(new, other) {
            let i = choose|i: int| 0 <= i < new.len() && sorting::tied(#[trigger] new[i], other);
            if i < rest.len() {
                assert(sorting::tied(rest[i], other));
            }
        }
    }
}

/// In whatever order files are recorded, the same ones are there in the end.
pub proof fn the_order_of_records_does_not_matter(
    entries: Seq<ComponentEntry>,
    new: Seq<ComponentEntry>,
    turned: Seq<ComponentEntry>,
    other: ComponentEntry,
)
    requires
        orderly(entries),
        new.to_multiset() == turned.to_multiset(),
    ensures
        recorded(with_entries(entries, new), other) <==> recorded(
            with_entries(entries, turned),
            other,
        ),
{
    records_add_up(entries, new, other);
    records_add_up(entries, turned, other);
    lemma_recorded_turned(new, turned, other);
    lemma_recorded_turned(turned, new, other);
}

proof fn lemma_recorded_turned(
    new: Seq<ComponentEntry>,
    turned: Seq<ComponentEntry>,
    other: ComponentEntry,
)
    requires
        new.to_multiset() == turned.to_multiset(),
    ensures
        recorded(new, other) ==> recorded(turned, other),
{
    broadcast use vstd::seq_lib::group_to_multiset_ensures;

    if recorded(new, other) {
        let i = choose|i: int| 0 <= i < new.len() && sorting::tied(#[trigger] new[i], other);
        assert(new.contains(new[i]));
        assert(new.to_multiset().count(new[i]) > 0);
        assert(turned.contains(new[i]));
        let j = choose|j: int| 0 <= j < turned.len() && turned[j] == new[i];
        assert(sorting::tied(turned[j], other));
    }
}

/// The manifest as it is written.
#[derive(Debug, PartialEq, Eq)]
pub struct ManifestDocument {
    pub version: u32,
    pub components: Vec<ComponentEntry>,
}

/// Why a manifest cannot be read, if it cannot.
pub open spec fn version_fault(version: u32) -> Option<Seq<char>> {
    if version != COMPONENT_MANIFEST_VERSION {
        Some(
            "component manifest version "@ + text::numeral(version as nat)
                + " is unsupported; this build supports "@ + text::numeral(
                COMPONENT_MANIFEST_VERSION as nat,
            ),
        )
    } else {
        None
    }
}

/// Where the manifest is, and where its lock is.
#[derive(Debug)]
pub struct ComponentManifest {
    path: String,
    lock_path: String,
}

impl ComponentManifest {
    /// Where the manifest is.
    pub closed spec fn place(self) -> Seq<char> {
        self.path@
    }

    /// Where the manifest's lock is.
    pub closed spec fn lock_place(self) -> Seq<char> {
        self.lock_path@
    }

    /// The manifest at a path.
    pub fn open(path: &str) -> (r: ComponentManifest)
        ensures
            r.place() == path@,
            r.lock_place() == path@ + ".lock"@,
    {
        ComponentManifest {
            lock_path: ComponentManifest::lock_path_for(path),
            path: path.to_owned(),
        }
    }

    /// The manifest beside a configuration file, given what the path of that file says of
    /// its directory.
    pub fn for_config_path<F: Fn(&str, &str) -> String>(parent: Option<&str>, join: &F) -> (r:
        ComponentManifest)
        requires
            paths::continues(*join),
        ensures
            exists|place: String|
                {
                    &&& #[trigger] call_ensures(
                        *join,
                        (paths::directory_of(parent), COMPONENT_MANIFEST_FILE_NAME),
                        place,
                    )
                    &&& r.place() == place@
                    &&& r.lock_place() == place@ + ".lock"@
                },
    {
        let place = join(paths::parent_directory(parent), COMPONENT_MANIFEST_FILE_NAME);
        ComponentManifest::open(place.as_str())
    }

    /// Where the manifest is.
    pub fn path(&self) -> (r: &str)
        ensures
            r@ == self.place(),
    {
        self.path.as_str()
    }

    /// Where the manifest's lock is.
    pub fn lock_path(&self) -> (r: &str)
        ensures
            r@ == self.lock_place(),
    {
        self.lock_path.as_str()
    }

    /// Where the lock of the manifest at a path is.
    pub fn lock_path_for(path: &str) -> (r: String)
        ensures
            r@ == path@ + ".lock"@,
    {
        text::cat(path, ".lock")
    }

    /// The files of the installation, in their order: none where there is no manifest.
    pub fn list(&self, document: Option<ManifestDocument>) -> (r: Result<
        Vec<ComponentEntry>,
        String,
    >)
        ensures
            match document {
                None => r matches Ok(v) && v@.len() == 0,
                Some(d) => match version_fault(d.version) {
                    Some(m) => r matches Err(e) && e@ == m,
                    None => r matches Ok(v) && v@ == in_order(d.components@) && orderly(v@),
                },
            },
    {
        match document {
            None => Ok(Vec::new()),
            Some(document) => {
                if document.version != COMPONENT_MANIFEST_VERSION {
                    let mut m = text::cat(
                        "component manifest version ",
                        text::decimal(document.version as u64).as_str(),
                    );
                    m.append(" is unsupported; this build supports ");
                    m.append(text::decimal(COMPONENT_MANIFEST_VERSION as u64).as_str());
                    return Err(m);
                }
                Ok(order_entries(document.components))
            },
        }
    }

    /// The manifest to write once a file is recorded: none where the file is recorded
    /// already. A manifest that cannot be read is not written.
    pub fn record(
        &self,
        document: Option<ManifestDocument>,
        kind: ComponentKind,
        path: PathText,
    ) -> (r: Result<Option<ManifestDocument>, String>)
        ensures
            match document {
                Some(d) => match version_fault(d.version) {
                    Some(m) => r matches Err(e) && e@ == m,
                    None => r matches Ok(w) && recording(
                        w,
                        in_order(d.components@),
                        (ComponentEntry { kind, path }),
                    ),
                },
                None => r matches Ok(w) && recording(
                    w,
                    Seq::empty(),
                    (ComponentEntry { kind, path }),
                ),
            },
    {
        let entries = match self.list(document) {
            Ok(entries) => entries,
            Err(m) => {
                return Err(m);
            },
        };
        assert(document is None ==> entries@ =~= Seq::empty());
        let ghost all = entries@;
        let entry = ComponentEntry { kind, path };
        let mut entries = entries;
        let mut i: usize = 0;
        while i < entries.len() && !entry.is_le(&entries[i])
            invariant
                entries@ == all,
                i <= all.len(),
                orderly(all),
                place_for(all, entry, 0) == place_for(all, entry, i as int),
                forall|j: int| 0 <= j < i ==> !ComponentEntry::le(entry, #[trigger] all[j]),
            decreases all.len() - i,
        {
            i = i + 1;
        }
        if i < entries.len() && entries[i].is_le(&entry) {
            assert(sorting::tied(all[i as int], entry));
            return Ok(None);
        }
        proof {
            if recorded(all, entry) {
                let k = choose|k: int| 0 <= k < all.len() && sorting::tied(#[trigger] all[k], entry);
                if k > i {
                    ComponentEntry::le_transitive(all[k], entry, all[i as int]);
                    assert(!ComponentEntry::le(all[k], all[i as int]));
                }
            }
        }
        entries.insert(i, entry);
        Ok(Some(ManifestDocument { version: COMPONENT_MANIFEST_VERSION, components: entries }))
    }
}

/// `w` is the manifest to write once a file is recorded, where one is to be written.
pub open spec fn recording(
    w: Option<ManifestDocument>,
    entries: Seq<ComponentEntry>,
    e: ComponentEntry,
) -> bool {
    match w {
        None => recorded(entries, e),
        Some(d) => !recorded(entries, e) && d.version == COMPONENT_MANIFEST_VERSION
            && d.components@ == with_entry(entries, e),
    }
}

/// A manifest that was written when a file was recorded can be read, and lists what was
/// written: the entries with the new one, in their order.
pub proof fn what_is_written_is_listed(
    document: ManifestDocument,
    entries: Seq<ComponentEntry>,
    e: ComponentEntry,
)
    requires
        orderly(entries),
        recording(Some(document), entries, e),
    ensures
        version_fault(document.version) is None,
        in_order(document.components@) == document.components@,
        in_order(document.components@) == with_entry(entries, e),
{
    recording_keeps_order(entries, e);
    ordered_entries_stay(document.components@);
}

/// The start of the name of a temporary file for the manifest, given the name of the
/// manifest's file.
pub fn temporary_prefix(file_name: Option<&str>) -> (r: String)
    ensures
        r@ == "."@ + (match file_name {
            Some(name) => name@,
            None => "component-manifest"@,
        }) + "."@,
{
    let name = match file_name {
        Some(name) => name,
        None => "component-manifest",
    };
    text::cat(".", name).concat(".")
}

/// What a locked operation gives back: its own failure first, then that of the unlocking.
pub fn finish_locked<T>(operation: Result<T, String>, unlock: Result<(), String>) -> (r: Result<
    T,
    String,
>)
    ensures
        match operation {
            Err(m) => r == Err::<T, _>(m),
            Ok(value) => match unlock {
                Ok(_) => r == Ok::<_, String>(value),
                Err(u) => r matches Err(m) && m@ == text::in_context("unlock component manifest"@, u@),
            },
        },
{
    match operation {
        Err(message) => Err(message),
        Ok(value) => match unlock {
            Ok(_) => Ok(value),
            Err(message) => Err(
                text::cat("unlock component manifest", ": ").concat(message.as_str()),
            ),
        },
    }
}

/// Two entries are for the same file exactly where they are of one kind and their paths
/// have the same components.
pub proof fn files_are_told_by_kind_and_path(a: ComponentEntry, b: ComponentEntry)
    ensures
        sorting::tied(a, b) <==> a.kind == b.kind && text::texts(a.path.keys@) == text::texts(
            b.path.keys@,
        ),
{
    let x = entry_keys(a);
    let y = entry_keys(b);
    reveal_strlit("0");
    reveal_strlit("1");
    reveal_strlit("2");
    reveal_strlit("3");
    text::keys_le_total(x, x);
    if sorting::tied(a, b) {
        text::keys_le_antisymmetric(x, y);
        assert(x[0] == y[0]);
        assert(kind_key(a.kind)[0] == kind_key(b.kind)[0]);
        assert(x.drop_first() =~= text::texts(a.path.keys@));
        assert(y.drop_first() =~= text::texts(b.path.keys@));
    }
}

/// Entries in their order stand by kind: programs, then configuration, then the database,
/// then locks. Those of one kind stand by the components of their paths.
pub proof fn entries_stand_by_kind(entries: Seq<ComponentEntry>, i: int, j: int)
    requires
        orderly(entries),
        0 <= i < j < entries.len(),
    ensures
        entries[i].kind is Config ==> !(entries[j].kind is Bin),
        entries[i].kind is Db ==> entries[j].kind is Db || entries[j].kind is Lock,
        entries[i].kind is Lock ==> entries[j].kind is Lock,
        entries[i].kind == entries[j].kind ==> !text::keys_le(
            text::texts(entries[j].path.keys@),
            text::texts(entries[i].path.keys@),
        ),
{
    let a = entries[i];
    let b = entries[j];
    let x = entry_keys(a);
    let y = entry_keys(b);
    assert(!ComponentEntry::le(b, a));
    reveal_strlit("0");
    reveal_strlit("1");
    reveal_strlit("2");
    reveal_strlit("3");
    assert(y.take(0) =~= x.take(0));
    if a.kind != b.kind {
        let p = kind_key(b.kind);
        let q = kind_key(a.kind);
        assert(p.take(0) =~= q.take(0));
        assert(p[0] != q[0]);
        text::texts_are_ordered_by_their_first_difference(p, q, 0);
        assert(y[0] == p && x[0] == q);
        text::keys_are_ordered_by_their_first_difference(y, x, 0);
    } else {
        assert(x.drop_first() =~= text::texts(a.path.keys@));
        assert(y.drop_first() =~= text::texts(b.path.keys@));
        assert(x[0] == y[0]);
    }
}

proof fn lemma_last_is_kept(sorted: Seq<ComponentEntry>, n: nat, k: int)
    requires
        0 <= k < n <= sorted.len(),
        sorting::ascending(sorted),
        forall|m: int| k < m < n ==> !ComponentEntry::le(#[trigger] sorted[m], sorted[k]),
    ensures
        last_of_each(sorted, n).contains(sorted[k]),
    decreases n,
{
    let m = (n - 1) as nat;
    ordering_orders(sorted, m);
    ordering_orders(sorted, n);
    let before = last_of_each(sorted, m);
    let after = last_of_each(sorted, n);
    let e = sorted[n - 1];
    if k == n - 1 {
        assert(after[after.len() - 1] == sorted[k]);
    } else {
        lemma_last_is_kept(sorted, m, k);
        let p = choose|p: int| 0 <= p < before.len() && before[p] == sorted[k];
        if before.len() > 0 && ComponentEntry::le(e, before.last()) {
            assert(!ComponentEntry::le(sorted[n - 1], sorted[k]));
            assert(p < before.len() - 1);
            assert(after[p] == before[p]);
        } else {
            assert(after[p] == before[p]);
        }
    }
}

/// A list that is put in order holds of every file the entry that came last, and no entry
/// that was not there.
pub proof fn the_last_entry_of_a_file_counts(entries: Seq<ComponentEntry>, i: int, k: int)
    ensures
        0 <= i < entries.len() && (forall|j: int|
            i < j < entries.len() ==> (#[trigger] entries[j]).kind != entries[i].kind
                || text::texts(entries[j].path.keys@) != text::texts(entries[i].path.keys@))
            ==> in_order(entries).contains(entries[i]),
        0 <= k < in_order(entries).len() ==> entries.contains(in_order(entries)[k]),
        orderly(in_order(entries)),
{
    let sorted = sorting::arranged(entries);
    sorting::every_list_can_be_sorted(entries);
    sorting::sorting_keeps_values(entries, entries[i]);
    ordering_orders(sorted, entries.len());
    if 0 <= k < in_order(entries).len() {
        let j = choose|j: int| 0 <= j < entries.len() && in_order(entries)[k] == sorted[j];
        assert(sorted.contains(sorted[j]));
        sorting::sorting_keeps_values(entries, sorted[j]);
    }
    if 0 <= i < entries.len() && (forall|j: int|
        i < j < entries.len() ==> (#[trigger] entries[j]).kind != entries[i].kind || text::texts(
            entries[j].path.keys@,
        ) != text::texts(entries[i].path.keys@)) {
        assert forall|j: int| i < j < entries.len() implies !sorting::tied(
            #[trigger] entries[j],
            entries[i],
        ) by {
            files_are_told_by_kind_and_path(entries[j], entries[i]);
        }
        let a = sorting::the_last_tie_stays_last(entries, i);
        assert forall|m: int| a < m < entries.len() implies !ComponentEntry::le(
            #[trigger] sorted[m],
            sorted[a],
        ) by {}
        lemma_last_is_kept(sorted, entries.len(), a);
    }
}

/// A manifest is read exactly where its version is the first.
pub proof fn manifests_of_another_version_are_refused(version: u32)
    ensures
        version_fault(version) is None <==> version == 1,
{
}

/// A file that is recorded is in the manifest that is written, with everything that was
/// there before and nothing else; where the file is there already nothing is written.
pub proof fn recorded_files_are_written(
    w: Option<ManifestDocument>,
    entries: Seq<ComponentEntry>,
    e: ComponentEntry,
    other: ComponentEntry,
)
    requires
        recording(w, entries, e),
    ensures
        w is None <==> exists|i: int|
            0 <= i < entries.len() && (#[trigger] entries[i]).kind == e.kind && text::texts(
                entries[i].path.keys@,
            ) == text::texts(e.path.keys@),
        w matches Some(d) ==> {
            &&& d.version == 1
            &&& d.components@.len() == entries.len() + 1
            &&& d.components@.contains(other) <==> entries.contains(other) || other == e
        },
{
    assert forall|i: int| 0 <= i < entries.len() implies (sorting::tied(#[trigger] entries[i], e)
        <==> entries[i].kind == e.kind && text::texts(entries[i].path.keys@) == text::texts(
        e.path.keys@,
    )) by {
        files_are_told_by_kind_and_path(entries[i], e);
    }
    if let Some(d) = w {
        lemma_place_for(entries, e, 0);
        let p = place_for(entries, e, 0);
        let after = d.components@;
        assert(after[p] == e);
        if entries.contains(other) {
            let k = choose|k: int| 0 <= k < entries.len() && entries[k] == other;
            if k < p {
                assert(after[k] == other);
            } else {
                assert(after[k + 1] == other);
            }
        }
        if after.contains(other) {
            let k = choose|k: int| 0 <= k < after.len() && after[k] == other;
            if k < p {
                assert(entries[k] == other);
            } else if k > p {
                assert(entries[k - 1] == other);
            }
        }
    }
}

/// The manifest is a file of this name, and of the first version.
pub proof fn the_manifest_has_a_name()
    ensures
        COMPONENT_MANIFEST_FILE_NAME@ == "component-manifest.toml"@,
        COMPONENT_MANIFEST_VERSION == 1,
{
}

/// A manifest of another version is told by its version and the one that is read.
pub proof fn other_versions_are_told(version: u32)
    requires
        version != 1,
    ensures
        version_fault(version) == Some(
            "component manifest version "@ + text::numeral(version as nat)
                + " is unsupported; this build supports "@ + text::numeral(1),
        ),
{
}

} // verus!
