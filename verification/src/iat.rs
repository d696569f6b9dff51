//! Walking of a loaded module's import directory, and hooks on its import address
//! table (IAT).

use vstd::prelude::*;
use vstd::string::*;
use crate::bytes;
use crate::bytes::{cast_signed, read_u16, read_u32, to_lower};
use crate::vtable::FnSlot;

verus! {

/// The highest number of installs that the audit can cover.
pub const MAX_TRACKED: usize = 32;

/// `MZ`.
pub const IMAGE_DOS_SIGNATURE: u16 = 0x5a4d;

/// `PE`.
pub const IMAGE_NT_SIGNATURE: u32 = 0x4550;

/// The index of the import directory.
pub const IMAGE_DIRECTORY_ENTRY_IMPORT: usize = 1;

/// The number of data directories.
pub const IMAGE_NUMBEROF_DIRECTORY_ENTRIES: usize = 16;

/// The offset of the signed offset of the NT headers.
pub const E_LFANEW: usize = 0x3c;

/// The offset of the data directories within the 32-bit NT headers.
pub const DATA_DIRECTORY: usize = 120;

/// The size of an import descriptor: the RVA of the lookup table at 0, of the DLL
/// name at 12, and of the address table at 16.
pub const DESCRIPTOR_SIZE: usize = 20;

/// Imports by ordinal have the top bit set.
pub const IMAGE_ORDINAL_FLAG32: u32 = 0x8000_0000;

/// The RVA and size of data directory `idx`, if the image has one.
pub open spec fn directory(image: Seq<u8>, idx: int) -> Option<(u32, u32)> {
    if !bytes::in_bounds(image, 0, 2) || bytes::u16_at(image, 0) != IMAGE_DOS_SIGNATURE
        || !bytes::in_bounds(image, 0x3c, 4) {
        None
    } else {
        let nt = bytes::as_signed(bytes::u32_at(image, 0x3c)) as int;
        let entry = nt + 120 + 8 * idx;
        if nt < 0 || !bytes::in_bounds(image, nt, 4) || bytes::u32_at(image, nt)
            != IMAGE_NT_SIGNATURE || !bytes::in_bounds(image, entry, 8) || bytes::u32_at(
            image,
            entry,
        ) == 0 || bytes::u32_at(image, entry + 4) == 0 {
            None
        } else {
            Some((bytes::u32_at(image, entry), bytes::u32_at(image, entry + 4)))
        }
    }
}

/// Reads the RVA and size of data directory `idx` of a mapped image. A negative NT
/// header offset is malformed rather than wrapping.
pub fn data_directory(image: &[u8], idx: usize) -> (res: Option<(u32, u32)>)
    requires
        idx < IMAGE_NUMBEROF_DIRECTORY_ENTRIES,
    ensures
        res == directory(image@, idx as int),
{
    match read_u16(image, 0) {
        Some(magic) if magic == IMAGE_DOS_SIGNATURE => {},
        _ => {
            return None;
        },
    }
    let nt: usize = match read_u32(image, E_LFANEW) {
        Some(v) => {
            let offset: i32 = cast_signed(v);
            if offset < 0 {
                return None;
            }
            offset as usize
        },
        None => {
            return None;
        },
    };
    match read_u32(image, nt) {
        Some(signature) if signature == IMAGE_NT_SIGNATURE => {},
        _ => {
            return None;
        },
    }
    let entry: usize = nt + DATA_DIRECTORY + 8 * idx;
    match (read_u32(image, entry), read_u32(image, entry + 4)) {
        (Some(rva), Some(size)) if rva != 0 && size != 0 => Some((rva, size)),
        _ => None,
    }
}

/// The position of the first NUL from `at` on.
pub open spec fn nul_from(image: Seq<u8>, at: int) -> Option<int>
    decreases image.len() - at,
{
    if at < 0 || at >= image.len() {
        None
    } else if image[at] == 0 {
        Some(at)
    } else {
        nul_from(image, at + 1)
    }
}

/// The NUL-terminated string at `at`.
pub open spec fn c_string(image: Seq<u8>, at: int) -> Option<Seq<u8>> {
    match nul_from(image, at) {
        Some(end) => Some(image.subrange(at, end)),
        None => None,
    }
}

/// Finds the NUL that ends the string at `at`.
fn find_nul(image: &[u8], at: usize) -> (res: Option<usize>)
    ensures
        match res {
            Some(end) => nul_from(image@, at as int) == Some(end as int) && at <= end < image@.len(),
            None => nul_from(image@, at as int) is None,
        },
{
    let mut i: usize = at;
    while i < image.len()
        invariant
            at <= i,
            i <= image@.len() || i == at,
            nul_from(image@, at as int) == nul_from(image@, i as int),
        decreases image.len() - i,
    {
        if image[i] == 0 {
            return Some(i);
        }
        i += 1;
    }
    None
}

/// Compares the string at `at` with `name`, ignoring ASCII case. `None` when the
/// string is not terminated within the image.
fn string_at_is(image: &[u8], at: usize, name: &[u8]) -> (res: Option<bool>)
    ensures
        match c_string(image@, at as int) {
            Some(s) => res == Some(bytes::same_ignoring_case(s, name@)),
            None => res is None,
        },
{
    let end: usize = match find_nul(image, at) {
        Some(end) => end,
        None => {
            return None;
        },
    };
    let ghost s = image@.subrange(at as int, end as int);
    if end - at != name.len() {
        return Some(false);
    }
    let mut i: usize = 0;
    while i < name.len()
        invariant
            i <= name@.len(),
            at + name@.len() == end,
            end < image@.len(),
            s == image@.subrange(at as int, end as int),
            forall|k: int| 0 <= k < i ==> bytes::lower(#[trigger] s[k]) == bytes::lower(name@[k]),
            c_string(image@, at as int) == Some(s),
        decreases name.len() - i,
    {
        if to_lower(image[at + i]) != to_lower(name[i]) {
            assert(bytes::lower(s[i as int]) != bytes::lower(name@[i as int]));
            return Some(false);
        }
        i += 1;
    }
    Some(true)
}

/// The outcome of searching one import lookup table.
pub enum ThunkSearch {
    /// The entry with this index names the import.
    Found(nat),
    /// The table ends without it.
    Absent,
    /// The table or a name in it runs out of the image.
    Malformed,
}

/// Searches the lookup table at `at` for `name`, the entry at `at` having index `i`.
pub open spec fn search_thunks(image: Seq<u8>, at: int, i: nat, name: Seq<u8>) -> ThunkSearch
    decreases image.len() - at,
{
    if !bytes::in_bounds(image, at, 4) {
        ThunkSearch::Malformed
    } else {
        let entry = bytes::u32_at(image, at);
        if entry == 0 {
            ThunkSearch::Absent
        } else if entry >= IMAGE_ORDINAL_FLAG32 {
            search_thunks(image, at + 4, i + 1, name)
        } else {
            match c_string(image, entry + 2) {
                None => ThunkSearch::Malformed,
                Some(s) => if bytes::same_ignoring_case(s, name) {
                    ThunkSearch::Found(i)
                } else {
                    search_thunks(image, at + 4, i + 1, name)
                },
            }
        }
    }
}

/// Where an import was found.
#[derive(Clone, Copy, Debug, PartialEq, Eq, Structural)]
pub enum SlotOutcome {
    /// The offset of the import's address table slot within the image.
    Hit { slot: usize },
    /// The number of descriptors that couldn't be searched. Nonzero means the miss may be
    /// a false negative.
    Miss { descriptors: u32 },
}

/// Searches the import descriptors from `at` on, `skipped` ones having been skipped.
pub open spec fn search_descriptors(
    image: Seq<u8>,
    at: int,
    skipped: nat,
    name: Seq<u8>,
) -> SlotOutcome
    decreases image.len() - at,
{
    let miss = SlotOutcome::Miss { descriptors: skipped as u32 };
    if !bytes::in_bounds(image, at, 20) || bytes::u32_at(image, at + 12) == 0 {
        miss
    } else {
        let lookup = bytes::u32_at(image, at);
        let table = bytes::u32_at(image, at + 16);
        if lookup == 0 || table == 0 {
            search_descriptors(image, at + 20, skipped + 1, name)
        } else {
            match search_thunks(image, lookup as int, 0, name) {
                ThunkSearch::Found(i) => if bytes::in_bounds(image, table + 4 * i, 4) {
                    SlotOutcome::Hit { slot: (table + 4 * i) as usize }
                } else {
                    miss
                },
                ThunkSearch::Absent => search_descriptors(image, at + 20, skipped, name),
                ThunkSearch::Malformed => miss,
            }
        }
    }
}

/// Where the import `name` of an image is.
pub open spec fn import_slot(image: Seq<u8>, name: Seq<u8>) -> SlotOutcome {
    match directory(image, 1) {
        Some((rva, _)) => search_descriptors(image, rva as int, 0, name),
        None => SlotOutcome::Miss { descriptors: 0 },
    }
}

/// Searches the lookup table at `at` for `name`.
fn find_thunk(image: &[u8], at: usize, name: &[u8]) -> (res: Option<Option<usize>>)
    requires
        image@.len() <= u32::MAX,
    ensures
        match search_thunks(image@, at as int, 0, name@) {
            ThunkSearch::Found(i) => res == Some(Some(i as usize)) && 4 * i < image@.len(),
            ThunkSearch::Absent => res == Some(None::<usize>),
            ThunkSearch::Malformed => res is None,
        },
{
    let mut pos: usize = at;
    let mut i: usize = 0;
    loop
        invariant
            image@.len() <= u32::MAX,
            pos == at + 4 * i,
            i > 0 ==> pos <= image@.len(),
            search_thunks(image@, at as int, 0, name@) == search_thunks(
                image@,
                pos as int,
                i as nat,
                name@,
            ),
        decreases image@.len() - pos,
    {
        let entry: u32 = match read_u32(image, pos) {
            Some(entry) => entry,
            None => {
                return None;
            },
        };
        if entry == 0 {
            return Some(None);
        }
        if entry < IMAGE_ORDINAL_FLAG32 {
            match string_at_is(image, entry as usize + 2, name) {
                None => {
                    return None;
                },
                Some(true) => {
                    return Some(Some(i));
                },
                Some(false) => {},
            }
        }
        pos += 4;
        i += 1;
    }
}

/// Walks the import directory of a mapped image for a case-insensitive match on
/// `import_name`. Gives the offset of the address table slot on a hit, or the count of
/// descriptors that couldn't be searched on a miss. A descriptor without a lookup
/// table cannot be searched: its address table holds bound addresses, not names.
pub fn find_iat_slot(image: &[u8], import_name: &[u8]) -> (res: SlotOutcome)
    requires
        image@.len() <= u32::MAX,
    ensures
        res == import_slot(image@, import_name@),
        res is Hit ==> bytes::in_bounds(image@, res->slot as int, 4),
{
    let rva: u32 = match data_directory(image, IMAGE_DIRECTORY_ENTRY_IMPORT) {
        Some((rva, _)) => rva,
        None => {
            return SlotOutcome::Miss { descriptors: 0 };
        },
    };
    let mut at: usize = rva as usize;
    let mut descriptors: u32 = 0;
    let ghost target = search_descriptors(image@, rva as int, 0, import_name@);
    loop
        invariant
            image@.len() <= u32::MAX,
            target == import_slot(image@, import_name@),
            target == search_descriptors(image@, at as int, descriptors as nat, import_name@),
            20 * descriptors <= at,
            at <= u32::MAX,
        decreases image@.len() - at,
    {
        if at > image.len() || image.len() - at < DESCRIPTOR_SIZE {
            return SlotOutcome::Miss { descriptors };
        }
        let (lookup, dll_name, table) = match (
            read_u32(image, at),
            read_u32(image, at + 12),
            read_u32(image, at + 16),
        ) {
            (Some(lookup), Some(dll_name), Some(table)) => (lookup, dll_name, table),
            _ => {
                return SlotOutcome::Miss { descriptors };
            },
        };
        if dll_name == 0 {
            return SlotOutcome::Miss { descriptors };
        }
        if lookup == 0 || table == 0 {
            descriptors += 1;
            at += DESCRIPTOR_SIZE;
            continue;
        }
        match find_thunk(image, lookup as usize, import_name) {
            None => {
                return SlotOutcome::Miss { descriptors };
            },
            Some(None) => {},
            Some(Some(i)) => {
                let slot: u64 = table as u64 + 4 * (i as u64);
                if slot + 4 > image.len() as u64 {
                    return SlotOutcome::Miss { descriptors };
                }
                return SlotOutcome::Hit { slot: slot as usize };
            },
        }
        at += DESCRIPTOR_SIZE;
    }
}

/// Whether entry `i` of the lookup table at `lookup` imports `name`.
pub open spec fn entry_names(image: Seq<u8>, lookup: int, i: nat, name: Seq<u8>) -> bool {
    let entry = bytes::u32_at(image, lookup + 4 * i);
    &&& bytes::in_bounds(image, lookup + 4 * i, 4)
    &&& 0 < entry < IMAGE_ORDINAL_FLAG32
    &&& c_string(image, entry + 2) is Some
    &&& bytes::same_ignoring_case(c_string(image, entry + 2)->0, name)
}

/// Whether entry `i` of the descriptor at `at` imports `name` through `slot`.
pub open spec fn imports_through(
    image: Seq<u8>,
    at: int,
    i: nat,
    name: Seq<u8>,
    slot: int,
) -> bool {
    &&& bytes::in_bounds(image, at, 20)
    &&& entry_names(image, bytes::u32_at(image, at) as int, i, name)
    &&& slot == bytes::u32_at(image, at + 16) + 4 * i
}

proof fn lemma_found_thunk(image: Seq<u8>, at: int, i: nat, name: Seq<u8>)
    requires
        search_thunks(image, at, i, name) is Found,
    ensures
        search_thunks(image, at, i, name)->Found_0 >= i,
        entry_names(image, at - 4 * i, search_thunks(image, at, i, name)->Found_0, name),
    decreases image.len() - at,
{
    let entry = bytes::u32_at(image, at);
    if entry >= IMAGE_ORDINAL_FLAG32 || !bytes::same_ignoring_case(
        c_string(image, entry + 2)->0,
        name,
    ) {
        lemma_found_thunk(image, at + 4, i + 1, name);
    }
}

proof fn lemma_found_descriptor(image: Seq<u8>, at: int, skipped: nat, name: Seq<u8>)
    requires
        image.len() <= u32::MAX,
        search_descriptors(image, at, skipped, name) is Hit,
    ensures
        exists|d: int, i: nat|
            imports_through(
                image,
                d,
                i,
                name,
                search_descriptors(image, at, skipped, name)->slot as int,
            ),
    decreases image.len() - at,
{
    let lookup = bytes::u32_at(image, at);
    let table = bytes::u32_at(image, at + 16);
    if lookup == 0 || table == 0 {
        lemma_found_descriptor(image, at + 20, skipped + 1, name);
    } else {
        match search_thunks(image, lookup as int, 0, name) {
            ThunkSearch::Found(i) => {
                lemma_found_thunk(image, lookup as int, 0, name);
                assert(search_descriptors(image, at, skipped, name)->slot as int == table + 4 * i);
                assert(imports_through(image, at, i, name, table + 4 * i));
            },
            ThunkSearch::Absent => {
                lemma_found_descriptor(image, at + 20, skipped, name);
            },
            ThunkSearch::Malformed => {},
        }
    }
}

/// A slot that is found belongs to an entry of an import descriptor that names the
/// import.
pub proof fn lemma_hit_names_the_import(image: Seq<u8>, name: Seq<u8>)
    requires
        image.len() <= u32::MAX,
        import_slot(image, name) is Hit,
    ensures
        exists|d: int, i: nat|
            imports_through(image, d, i, name, import_slot(image, name)->slot as int),
{
    lemma_found_descriptor(image, (directory(image, 1)->0).0 as int, 0, name);
}

/// Whether the lookup table at `at` ends within the image, as do the names in it, and the
/// address table at `table` has a slot for each of its entries.
pub open spec fn table_ends(image: Seq<u8>, at: int, table: int) -> bool
    decreases image.len() - at,
{
    &&& bytes::in_bounds(image, at, 4)
    &&& bytes::u32_at(image, at) != 0 ==> {
        let entry = bytes::u32_at(image, at);
        &&& entry >= IMAGE_ORDINAL_FLAG32 || c_string(image, entry + 2) is Some
        &&& bytes::in_bounds(image, table, 4)
        &&& table_ends(image, at + 4, table + 4)
    }
}

/// Whether a descriptor has both of its tables, so that it can be searched.
pub open spec fn searchable(image: Seq<u8>, at: int) -> bool {
    bytes::u32_at(image, at) != 0 && bytes::u32_at(image, at + 16) != 0
}

/// Whether the descriptors from `at` on end within the image, as do their tables.
pub open spec fn descriptors_end(image: Seq<u8>, at: int) -> bool
    decreases image.len() - at,
{
    &&& bytes::in_bounds(image, at, 20)
    &&& bytes::u32_at(image, at + 12) != 0 ==> {
        &&& searchable(image, at) ==> table_ends(
            image,
            bytes::u32_at(image, at) as int,
            bytes::u32_at(image, at + 16) as int,
        )
        &&& descriptors_end(image, at + 20)
    }
}

/// Whether entry `i` of the lookup table at `at` comes before the table's end.
pub open spec fn entry_listed(image: Seq<u8>, at: int, i: nat) -> bool {
    forall|j: int| 0 <= j <= i ==> #[trigger] bytes::u32_at(image, at + 4 * j) != 0
}

/// Whether descriptor `k` of those at `at` comes before their end.
pub open spec fn descriptor_listed(image: Seq<u8>, at: int, k: nat) -> bool {
    forall|j: int| 0 <= j <= k ==> #[trigger] bytes::u32_at(image, at + 20 * j + 12) != 0
}

proof fn lemma_absent_thunk(image: Seq<u8>, at: int, table: int, first: nat, name: Seq<u8>, i: nat)
    requires
        table_ends(image, at, table),
        !(search_thunks(image, at, first, name) is Found),
        entry_listed(image, at, i),
    ensures
        !entry_names(image, at, i, name),
    decreases i,
{
    assert(bytes::u32_at(image, at + 4 * 0) != 0);
    if i > 0 {
        assert forall|j: int| 0 <= j <= i - 1 implies #[trigger] bytes::u32_at(
            image,
            at + 4 + 4 * j,
        ) != 0 by {
            assert(at + 4 + 4 * j == at + 4 * (j + 1));
            assert(bytes::u32_at(image, at + 4 * (j + 1)) != 0);
        }
        lemma_absent_thunk(image, at + 4, table + 4, first + 1, name, (i - 1) as nat);
        assert(at + 4 * i == at + 4 + 4 * (i - 1));
    }
}

proof fn lemma_found_has_slot(image: Seq<u8>, at: int, table: int, first: nat, name: Seq<u8>)
    requires
        table_ends(image, at, table),
    ensures
        !(search_thunks(image, at, first, name) is Malformed),
        search_thunks(image, at, first, name) is Found ==> bytes::in_bounds(
            image,
            table + 4 * (search_thunks(image, at, first, name)->Found_0 - first),
            4,
        ),
    decreases image.len() - at,
{
    if bytes::u32_at(image, at) != 0 {
        lemma_found_has_slot(image, at + 4, table + 4, first + 1, name);
    }
}

proof fn lemma_missed_descriptor(image: Seq<u8>, at: int, skipped: nat, name: Seq<u8>, k: nat)
    requires
        image.len() <= u32::MAX,
        0 <= at,
        20 * skipped <= at,
        descriptors_end(image, at),
        search_descriptors(image, at, skipped, name) is Miss,
    ensures
        search_descriptors(image, at, skipped, name)->descriptors >= skipped,
        descriptor_listed(image, at, k) && searchable(image, at + 20 * k) ==> forall|i: nat|
            entry_listed(image, bytes::u32_at(image, at + 20 * k) as int, i) ==> !#[trigger]
            entry_names(image, bytes::u32_at(image, at + 20 * k) as int, i, name),
        descriptor_listed(image, at, k) && !searchable(image, at + 20 * k)
            ==> search_descriptors(image, at, skipped, name)->descriptors > skipped,
    decreases image.len() - at,
{
    let lookup = bytes::u32_at(image, at) as int;
    let table = bytes::u32_at(image, at + 16) as int;
    if bytes::u32_at(image, at + 12) == 0 {
        if descriptor_listed(image, at, k) {
            assert(bytes::u32_at(image, at + 20 * 0 + 12) != 0);
        }
    } else {
        if searchable(image, at) {
            lemma_found_has_slot(image, lookup, table, 0, name);
            if k == 0 {
                assert forall|i: nat| entry_listed(image, lookup, i) implies !#[trigger] entry_names(
                    image,
                    lookup,
                    i,
                    name,
                ) by {
                    lemma_absent_thunk(image, lookup, table, 0, name, i);
                }
            }
        }
        let before: nat = if searchable(image, at) {
            skipped
        } else {
            skipped + 1
        };
        if k == 0 {
            lemma_missed_descriptor(image, at + 20, before, name, 0);
        } else {
            lemma_missed_descriptor(image, at + 20, before, name, (k - 1) as nat);
            assert(at + 20 * k == at + 20 + 20 * (k - 1));
            if descriptor_listed(image, at, k) {
                assert forall|j: int| 0 <= j <= k - 1 implies #[trigger] bytes::u32_at(
                    image,
                    at + 20 + 20 * j + 12,
                ) != 0 by {
                    assert(at + 20 + 20 * j + 12 == at + 20 * (j + 1) + 12);
                    assert(bytes::u32_at(image, at + 20 * (j + 1) + 12) != 0);
                }
            }
        }
    }
}

/// In an image whose import tables end within it, an import that is not found is named by
/// no entry of a descriptor that can be searched; and where the miss counts no
/// descriptors, all of them can be.
pub proof fn lemma_miss_is_exact(image: Seq<u8>, name: Seq<u8>, k: nat, i: nat)
    requires
        image.len() <= u32::MAX,
        directory(image, 1) is Some,
        descriptors_end(image, (directory(image, 1)->0).0 as int),
        import_slot(image, name) is Miss,
        descriptor_listed(image, (directory(image, 1)->0).0 as int, k),
    ensures
        ({
            let at = (directory(image, 1)->0).0 + 20 * k;
            let lookup = bytes::u32_at(image, at) as int;
            &&& searchable(image, at) && entry_listed(image, lookup, i) ==> !entry_names(
                image,
                lookup,
                i,
                name,
            )
            &&& import_slot(image, name)->descriptors == 0 ==> searchable(image, at)
        }),
{
    lemma_missed_descriptor(image, (directory(image, 1)->0).0 as int, 0, name, k);
}

/// The result of one installation.
#[derive(Clone, Copy, Debug)]
pub struct InstallRecord {
    name: &'static str,
    slot: u32,
    hook: u32,
}

impl InstallRecord {
    /// The import name.
    pub closed spec fn label(self) -> Seq<char> {
        self.name@
    }

    /// The bytes of the import name.
    pub closed spec fn name_bytes(self) -> Seq<u8> {
        self.name.spec_bytes()
    }

    /// The address of the slot that was written, 0 until one is.
    pub closed spec fn slot(self) -> u32 {
        self.slot
    }

    /// The hook that was written there.
    pub closed spec fn hook(self) -> u32 {
        self.hook
    }

    /// An empty record.
    pub fn new(name: &'static str) -> (record: InstallRecord)
        ensures
            record.label() == name@,
            record.name_bytes() == name.spec_bytes(),
            record.slot() == 0,
            record.hook() == 0,
    {
        InstallRecord { name, slot: 0, hook: 0 }
    }

    /// The import name.
    pub fn name(&self) -> (name: &'static str)
        ensures
            name@ == self.label(),
            name.spec_bytes() == self.name_bytes(),
    {
        self.name
    }

    /// Records the slot that `hook` was written into if the record is currently empty, else
    /// does nothing. Returns whether this record was still empty.
    pub fn set(&mut self, slot: u32, hook: u32) -> (was_empty: bool)
        requires
            slot != 0,
        ensures
            was_empty == (old(self).slot() == 0),
            final(self).label() == old(self).label(),
            final(self).name_bytes() == old(self).name_bytes(),
            was_empty ==> final(self).slot() == slot && final(self).hook() == hook,
            !was_empty ==> *final(self) == *old(self),
    {
        if self.slot == 0 {
            self.slot = slot;
            self.hook = hook;
            true
        } else {
            false
        }
    }

    /// The address to reread for [`InstallRecord::displaced`], if the record is not empty.
    pub fn recorded_slot(&self) -> (res: Option<u32>)
        ensures
            res == if self.slot() == 0 {
                None
            } else {
                Some(self.slot())
            },
    {
        if self.slot == 0 {
            None
        } else {
            Some(self.slot)
        }
    }

    /// Compares what the recorded slot holds now with the hook we wrote. Gives both when
    /// they differ; never for a record that no install wrote.
    pub fn displaced(&self, seen: u32) -> (res: Option<(u32, u32)>)
        ensures
            res == if self.slot() != 0 && seen != self.hook() {
                Some((self.hook(), seen))
            } else {
                None
            },
    {
        if self.slot != 0 && seen != self.hook {
            Some((self.hook, seen))
        } else {
            None
        }
    }
}

/// A slot that no longer holds our hook.
#[derive(Clone, Copy, Debug)]
pub struct Displacement {
    pub name: &'static str,
    pub ours: u32,
    pub seen: u32,
}

/// What the audit found.
#[derive(Debug)]
pub struct AuditReport {
    /// How many slots were reread.
    pub total: usize,
    pub displaced: Vec<Displacement>,
}

/// The records of every successful install, in installation order.
pub struct Registry {
    entries: Vec<InstallRecord>,
    audited: bool,
}

impl View for Displacement {
    type V = (Seq<char>, u32, u32);

    open spec fn view(&self) -> (Seq<char>, u32, u32) {
        (self.name@, self.ours, self.seen)
    }
}

/// The name, our hook and the present value of each of `entries` that is displaced
/// when their slots hold `seen`.
pub open spec fn displacements(entries: Seq<InstallRecord>, seen: Seq<u32>) -> Seq<
    (Seq<char>, u32, u32),
>
    decreases entries.len(),
{
    if entries.len() == 0 {
        seq![]
    } else {
        let last = entries.len() - 1;
        let before = displacements(entries.drop_last(), seen);
        if entries[last].slot() != 0 && seen[last] != entries[last].hook() {
            before.push((entries[last].label(), entries[last].hook(), seen[last]))
        } else {
            before
        }
    }
}

impl Registry {
    /// The records, in installation order.
    pub closed spec fn entries(self) -> Seq<InstallRecord> {
        self.entries@
    }

    /// Whether the audit has been made.
    pub closed spec fn audited(self) -> bool {
        self.audited
    }

    /// Never more than [`MAX_TRACKED`] records are kept.
    pub open spec fn wf(self) -> bool {
        self.entries().len() <= MAX_TRACKED
    }

    /// No install has succeeded yet.
    pub fn new() -> (registry: Registry)
        ensures
            registry.wf(),
            registry.entries() == Seq::<InstallRecord>::empty(),
            !registry.audited(),
    {
        Registry { entries: Vec::new(), audited: false }
    }

    /// Appends `entry`. Once the registry is full, further entries are dropped rather than
    /// written over earlier ones. Returns whether the entry is kept.
    pub fn record(&mut self, entry: InstallRecord) -> (kept: bool)
        requires
            old(self).wf(),
        ensures
            final(self).wf(),
            final(self).audited() == old(self).audited(),
            kept == (old(self).entries().len() < MAX_TRACKED),
            final(self).entries() == if kept {
                old(self).entries().push(entry)
            } else {
                old(self).entries()
            },
    {
        if self.entries.len() < MAX_TRACKED {
            self.entries.push(entry);
            true
        } else {
            false
        }
    }

    /// The number of records.
    pub fn len(&self) -> (n: usize)
        ensures
            n == self.entries().len(),
    {
        self.entries.len()
    }

    /// Record `i`.
    pub fn get(&self, i: usize) -> (entry: InstallRecord)
        requires
            i < self.entries().len(),
        ensures
            entry == self.entries()[i as int],
    {
        self.entries[i]
    }

    /// Reports the slots that no longer hold our hook, once per session; `seen` is what the
    /// slot of each record holds now.
    pub fn audit_installed(&mut self, seen: &[u32]) -> (res: Option<AuditReport>)
        requires
            old(self).wf(),
            seen@.len() == old(self).entries().len(),
        ensures
            final(self).wf(),
            final(self).audited(),
            final(self).entries() == old(self).entries(),
            res is None <==> old(self).audited(),
            res is Some ==> res->0.total == old(self).entries().len()
                && res->0.displaced@.map_values(|d: Displacement| d@) == displacements(
                old(self).entries(),
                seen@,
            ),
    {
        if self.audited {
            return None;
        }
        self.audited = true;
        let mut displaced: Vec<Displacement> = Vec::new();
        let mut i: usize = 0;
        let ghost entries = self.entries@;
        while i < self.entries.len()
            invariant
                i <= entries.len(),
                self.entries@ == entries,
                entries == old(self).entries(),
                self.audited,
                self.wf(),
                seen@.len() == entries.len(),
                displaced@.map_values(|d: Displacement| d@) == displacements(
                    entries.take(i as int),
                    seen@,
                ),
            decreases self.entries.len() - i,
        {
            let entry = self.entries[i];
            proof {
                let next = entries.take(i + 1);
                assert(next.drop_last() =~= entries.take(i as int));
                assert(next[i as int] == entry);
            }
            if let Some((ours, found)) = entry.displaced(seen[i]) {
                displaced.push(Displacement { name: entry.name(), ours, seen: found });
            }
            assert(displaced@.map_values(|d: Displacement| d@) =~= displacements(
                entries.take(i + 1),
                seen@,
            ));
            i += 1;
        }
        assert(entries.take(i as int) =~= entries);
        Some(AuditReport { total: self.entries.len(), displaced })
    }
}

/// What became of the record of a write that landed.
#[derive(Clone, Copy, Debug, PartialEq, Eq, Structural)]
pub enum Recording {
    /// The audit will reread the slot.
    Kept,
    /// The registry is full; the audit passes over the slot.
    PoolFull,
    /// The hook was written at the slot `kept` before; the record stays with it.
    Conflict { kept: u32, seen: u32 },
}

/// What becomes of the record of a write at `addr`, with `count` records in the
/// registry: the first slot is kept, as long as there is room.
pub open spec fn recording_of(record: InstallRecord, addr: u32, count: nat) -> Recording {
    if record.slot() != 0 {
        Recording::Conflict { kept: record.slot(), seen: addr }
    } else if count < MAX_TRACKED {
        Recording::Kept
    } else {
        Recording::PoolFull
    }
}

/// What became of an import that was to be hooked.
#[derive(Clone, Copy, Debug, PartialEq, Eq, Structural)]
pub enum HookStatus {
    /// The import was not found; some descriptors could not be searched.
    NotImported { descriptors: u32 },
    /// The slot holds our hook already.
    AlreadyOurs,
    /// There is no original to chain through.
    NullSlot,
    /// Someone rebound the slot since its original was captured; hooking it again would
    /// bypass them.
    Refused { kept: u32, seen: u32 },
    /// Our hook was written; what became of its record.
    Installed(Recording),
    /// The slot could not be made writable.
    ProtectFailed,
}

impl HookStatus {
    /// Returns whether the game reaches our hook.
    pub fn hooked(&self) -> (res: bool)
        ensures
            res == (*self is Installed || *self is AlreadyOurs),
    {
        match self {
            HookStatus::Installed(_) | HookStatus::AlreadyOurs => true,
            _ => false,
        }
    }
}

/// The next step of an installation.
#[derive(Clone, Copy, Debug, PartialEq, Eq, Structural)]
pub enum HookPlan {
    Done(HookStatus),
    /// The hook is to be written at this offset of the image.
    Write { slot: usize },
}

/// The plan for a slot that holds `current`.
pub open spec fn plan_for(
    captured: Option<u32>,
    current: u32,
    slot: usize,
    hook: u32,
) -> HookPlan {
    if current == hook && captured is Some {
        HookPlan::Done(HookStatus::AlreadyOurs)
    } else if current == 0 {
        HookPlan::Done(HookStatus::NullSlot)
    } else if captured is Some && captured->0 != current {
        HookPlan::Done(HookStatus::Refused { kept: captured->0, seen: current })
    } else {
        HookPlan::Write { slot }
    }
}

/// The plan for hooking the import `name` of `image`.
pub open spec fn plan_of(
    captured: Option<u32>,
    image: Seq<u8>,
    name: Seq<u8>,
    hook: u32,
) -> HookPlan {
    match import_slot(image, name) {
        SlotOutcome::Miss { descriptors } => HookPlan::Done(
            HookStatus::NotImported { descriptors },
        ),
        SlotOutcome::Hit { slot } => plan_for(
            captured,
            bytes::u32_at(image, slot as int),
            slot,
            hook,
        ),
    }
}

/// An import's name, its displaced original, and where our hook was written.
pub struct IatHook {
    slot: FnSlot<u32>,
    record: InstallRecord,
}

impl IatHook {
    /// The captured original.
    pub closed spec fn captured(self) -> Option<u32> {
        self.slot@
    }

    /// Where our hook was written.
    pub closed spec fn record(self) -> InstallRecord {
        self.record
    }

    /// The name of the slot that holds the original.
    pub closed spec fn slot_label(self) -> Seq<char> {
        self.slot.label()
    }

    /// A hook that is not installed.
    pub fn new(name: &'static str, slot_name: &'static str) -> (hook: IatHook)
        ensures
            hook.captured() is None,
            hook.record().label() == name@,
            hook.record().name_bytes() == name.spec_bytes(),
            hook.record().slot() == 0,
            hook.record().hook() == 0,
            hook.slot_label() == slot_name@,
    {
        IatHook { slot: FnSlot::new(slot_name), record: InstallRecord::new(name) }
    }

    /// The captured original. Calling this before an install captured one is an error.
    pub fn original(&self) -> (f: u32)
        requires
            self.captured() is Some,
        ensures
            Some(f) == self.captured(),
    {
        self.slot.get()
    }

    /// The captured original, or `None` if no install ever captured the slot.
    pub fn try_original(&self) -> (res: Option<u32>)
        ensures
            res == self.captured(),
    {
        self.slot.try_get()
    }

    /// Finds the slot of this import in `image` and captures its original, unless the slot
    /// is missing, null, ours already, or was rebound since the first capture.
    pub fn plan_install(&mut self, image: &[u8], hook: u32) -> (plan: HookPlan)
        requires
            image@.len() <= u32::MAX,
        ensures
            plan == plan_of(old(self).captured(), image@, old(self).record().name_bytes(), hook),
            final(self).record() == old(self).record(),
            final(self).slot_label() == old(self).slot_label(),
            final(self).captured() == match plan {
                HookPlan::Write { slot } => Some(bytes::u32_at(image@, slot as int)),
                HookPlan::Done(_) => old(self).captured(),
            },
            plan is Write ==> bytes::in_bounds(image@, plan->slot as int, 4),
    {
        let slot: usize = match find_iat_slot(image, self.record.name().as_bytes()) {
            SlotOutcome::Hit { slot } => slot,
            SlotOutcome::Miss { descriptors } => {
                return HookPlan::Done(HookStatus::NotImported { descriptors });
            },
        };
        let current: u32 = match read_u32(image, slot) {
            Some(current) => current,
            None => {
                return HookPlan::Done(HookStatus::NullSlot);
            },
        };
        if current == hook && self.slot.try_get().is_some() {
            return HookPlan::Done(HookStatus::AlreadyOurs);
        }
        if current == 0 {
            return HookPlan::Done(HookStatus::NullSlot);
        }
        match self.slot.try_get() {
            Some(kept) => {
                if kept != current {
                    return HookPlan::Done(HookStatus::Refused { kept, seen: current });
                }
            },
            None => {
                self.slot.store(current);
            },
        }
        HookPlan::Write { slot }
    }

    /// Completes a planned write of `hook` at address `addr`: a write that landed is
    /// recorded, once per hook. The status says whether the record is kept, or conflicts
    /// with an earlier one.
    pub fn finish_install(
        &mut self,
        addr: u32,
        hook: u32,
        written: bool,
        registry: &mut Registry,
    ) -> (status: HookStatus)
        requires
            addr != 0,
            old(registry).wf(),
        ensures
            final(registry).wf(),
            final(registry).audited() == old(registry).audited(),
            final(self).slot_label() == old(self).slot_label(),
            final(self).captured() == old(self).captured(),
            final(self).record().name_bytes() == old(self).record().name_bytes(),
            final(self).record().label() == old(self).record().label(),
            status == if written {
                HookStatus::Installed(
                    recording_of(old(self).record(), addr, old(registry).entries().len()),
                )
            } else {
                HookStatus::ProtectFailed
            },
            written && old(self).record().slot() == 0 ==> {
                &&& final(self).record().slot() == addr
                &&& final(self).record().hook() == hook
                &&& final(registry).entries() == if old(registry).entries().len() < MAX_TRACKED {
                    old(registry).entries().push(final(self).record())
                } else {
                    old(registry).entries()
                }
            },
            !(written && old(self).record().slot() == 0) ==> final(self).record() == old(
                self,
            ).record() && final(registry).entries() == old(registry).entries(),
    {
        if !written {
            return HookStatus::ProtectFailed;
        }
        let kept: u32 = self.record.slot;
        let recording = if !self.record.set(addr, hook) {
            Recording::Conflict { kept, seen: addr }
        } else if registry.record(self.record) {
            Recording::Kept
        } else {
            Recording::PoolFull
        };
        HookStatus::Installed(recording)
    }

    /// Hooks this import of the image mapped at `base`: captures the original, writes
    /// `hook` over it, and records the write. `write_ok` says whether the slot can be made
    /// writable.
    pub fn install(
        &mut self,
        image: &mut Vec<u8>,
        base: u32,
        hook: u32,
        write_ok: bool,
        registry: &mut Registry,
    ) -> (status: HookStatus)
        requires
            base > 0,
            base + old(image)@.len() <= u32::MAX,
            old(registry).wf(),
        ensures
            final(registry).wf(),
            final(registry).audited() == old(registry).audited(),
            final(self).slot_label() == old(self).slot_label(),
            final(self).record().name_bytes() == old(self).record().name_bytes(),
            final(self).record().label() == old(self).record().label(),
            final(image)@.len() == old(image)@.len(),
            ({
                let plan = plan_of(
                    old(self).captured(),
                    old(image)@,
                    old(self).record().name_bytes(),
                    hook,
                );
                match plan {
                    HookPlan::Done(s) => {
                        &&& status == s
                        &&& final(image)@ == old(image)@
                        &&& final(self).captured() == old(self).captured()
                        &&& final(self).record() == old(self).record()
                        &&& final(registry).entries() == old(registry).entries()
                    },
                    HookPlan::Write { slot } => {
                        &&& status == if write_ok {
                            HookStatus::Installed(
                                recording_of(
                                    old(self).record(),
                                    (base + slot) as u32,
                                    old(registry).entries().len(),
                                ),
                            )
                        } else {
                            HookStatus::ProtectFailed
                        }
                        &&& final(self).captured() == Some(bytes::u32_at(old(image)@, slot as int))
                        &&& final(image)@ == if write_ok {
                            old(image)@.take(slot as int) + bytes::le32(hook) + old(image)@.skip(
                                slot + 4,
                            )
                        } else {
                            old(image)@
                        }
                        &&& write_ok && old(self).record().slot() == 0 ==> {
                            &&& final(self).record().slot() == base + slot
                            &&& final(self).record().hook() == hook
                        }
                        &&& !(write_ok && old(self).record().slot() == 0) ==> final(self).record()
                            == old(self).record()
                        &&& final(registry).entries() == if write_ok && old(self).record().slot()
                            == 0 && old(registry).entries().len() < MAX_TRACKED {
                            old(registry).entries().push(final(self).record())
                        } else {
                            old(registry).entries()
                        }
                    },
                }
            }),
    {
        let slot: usize = match self.plan_install(image.as_slice(), hook) {
            HookPlan::Done(status) => {
                return status;
            },
            HookPlan::Write { slot } => slot,
        };
        if write_ok {
            let ghost before = image@;
            let mut le: Vec<u8> = Vec::new();
            bytes::push_u32(&mut le, hook);
            image.set(slot, le[0]);
            image.set(slot + 1, le[1]);
            image.set(slot + 2, le[2]);
            image.set(slot + 3, le[3]);
            assert(image@ =~= before.take(slot as int) + bytes::le32(hook) + before.skip(slot + 4));
        }
        self.finish_install(base + slot as u32, hook, write_ok, registry)
    }
}

/// After a successful install the slot holds the hook, and finding it again changes
/// nothing more.
pub proof fn lemma_install_idempotent(image: Seq<u8>, slot: usize, hook: u32, captured: u32)
    requires
        bytes::in_bounds(image, slot as int, 4),
    ensures
        ({
            let after = image.take(slot as int) + bytes::le32(hook) + image.skip(slot + 4);
            &&& bytes::u32_at(after, slot as int) == hook
            &&& plan_for(Some(captured), bytes::u32_at(after, slot as int), slot, hook)
                == HookPlan::Done(HookStatus::AlreadyOurs)
        }),
{
    bytes::lemma_read_back(hook, 0);
    let after = image.take(slot as int) + bytes::le32(hook) + image.skip(slot + 4);
    let le = bytes::le32(hook);
    assert(after[slot as int] == le[0]);
    assert(after[slot + 1] == le[1]);
    assert(after[slot + 2] == le[2]);
    assert(after[slot + 3] == le[3]);
}

/// A data directory is found in an image that starts with `MZ`, has `PE` and two zeros where
/// the offset at 0x3c leads, and holds the whole entry, which lies 120 bytes behind that and
/// eight more for each entry before it; neither of its numbers is zero.
pub proof fn lemma_directory(image: Seq<u8>, idx: int)
    requires
        0 <= idx,
    ensures
        ({
            let nt = bytes::u32_at(image, 0x3c) as int;
            let found = image.len() >= 0x40 && image[0] as char == 'M' && image[1] as char == 'Z'
                && nt < 0x8000_0000 && nt + 120 + 8 * idx + 8 <= image.len() && image[nt] as char
                == 'P' && image[nt + 1] as char == 'E' && image[nt + 2] == 0 && image[nt + 3] == 0
                && bytes::u32_at(image, nt + 120 + 8 * idx) != 0 && bytes::u32_at(
                image,
                nt + 124 + 8 * idx,
            ) != 0;
            &&& directory(image, idx) is Some <==> found
            &&& found ==> directory(image, idx) == Some(
                (
                    bytes::u32_at(image, nt + 120 + 8 * idx),
                    bytes::u32_at(image, nt + 124 + 8 * idx),
                ),
            )
        }),
{
    let nt = bytes::u32_at(image, 0x3c) as int;
    if image.len() >= 0x40 {
        bytes::lemma_little_endian(image, 0);
        if bytes::in_bounds(image, nt, 4) {
            bytes::lemma_little_endian(image, nt);
        }
    }
}

/// The NUL that is found is the first one from there on.
pub proof fn lemma_nul_from(image: Seq<u8>, at: int)
    requires
        0 <= at,
    ensures
        match nul_from(image, at) {
            Some(end) => {
                &&& at <= end < image.len()
                &&& image[end] == 0
                &&& forall|j: int| at <= j < end ==> #[trigger] image[j] != 0
            },
            None => forall|j: int| at <= j < image.len() ==> #[trigger] image[j] != 0,
        },
    decreases image.len() - at,
{
    if at < image.len() && image[at] != 0 {
        lemma_nul_from(image, at + 1);
    }
}

/// A string is read back from wherever it stands with a NUL behind it; it goes up to the
/// first NUL.
pub proof fn lemma_c_string(before: Seq<u8>, s: Seq<u8>, after: Seq<u8>)
    requires
        !s.contains(0),
    ensures
        c_string(before + s.push(0) + after, before.len() as int) == Some(s),
        c_string(before + s, before.len() as int) is None,
{
    let image = before + s.push(0) + after;
    let at = before.len() as int;
    lemma_nul_from(image, at);
    assert(image[at + s.len()] == 0);
    assert(nul_from(image, at) is Some);
    let end = nul_from(image, at)->0;
    if end < at + s.len() {
        assert(image[end] == s[end - at]);
        assert(s.contains(0));
    }
    assert(image.subrange(at, at + s.len()) =~= s);
    lemma_nul_from(before + s, at);
    if nul_from(before + s, at) is Some {
        let end = nul_from(before + s, at)->0;
        assert((before + s)[end] == s[end - at]);
        assert(s.contains(0));
    }
}

/// The search of a lookup table ends at its zero entry and at the first entry with the name,
/// two bytes behind where the entry leads; ordinals and other names are passed over, four
/// bytes at a time. What runs out of the image is malformed.
pub proof fn lemma_thunk_steps(image: Seq<u8>, at: int, i: nat, name: Seq<u8>)
    ensures
        ({
            let entry = bytes::u32_at(image, at);
            let s = c_string(image, entry + 2);
            let whole = 0 <= at && at + 4 <= image.len();
            let here = search_thunks(image, at, i, name);
            let next = search_thunks(image, at + 4, i + 1, name);
            &&& !whole ==> here is Malformed
            &&& whole && entry == 0 ==> here is Absent
            &&& whole && entry >= 0x8000_0000 ==> here == next
            &&& whole && 0 < entry < 0x8000_0000 && s is None ==> here is Malformed
            &&& whole && 0 < entry < 0x8000_0000 && s is Some && bytes::same_ignoring_case(
                s->0,
                name,
            ) ==> here == ThunkSearch::Found(i)
            &&& whole && 0 < entry < 0x8000_0000 && s is Some && !bytes::same_ignoring_case(
                s->0,
                name,
            ) ==> here == next
        }),
{
}

/// The search of the descriptors ends at one without a name, and at the first whose lookup
/// table has the import; a descriptor without one of its tables is counted and passed over.
/// The slot is as far into the address table as the entry is into the lookup table.
pub proof fn lemma_descriptor_steps(image: Seq<u8>, at: int, skipped: nat, name: Seq<u8>)
    requires
        image.len() <= u32::MAX,
        skipped <= u32::MAX,
    ensures
        ({
            let (lookup, dll, table) = (
                bytes::u32_at(image, at),
                bytes::u32_at(image, at + 12),
                bytes::u32_at(image, at + 16),
            );
            let whole = 0 <= at && at + 20 <= image.len();
            let here = search_descriptors(image, at, skipped, name);
            let found = search_thunks(image, lookup as int, 0, name);
            let given_up = here is Miss && here->descriptors == skipped;
            &&& !whole || dll == 0 ==> given_up
            &&& whole && dll != 0 && (lookup == 0 || table == 0) ==> here == search_descriptors(
                image,
                at + 20,
                skipped + 1,
                name,
            )
            &&& whole && dll != 0 && lookup != 0 && table != 0 ==> match found {
                ThunkSearch::Found(i) => if table + 4 * i + 4 <= image.len() {
                    here is Hit && here->slot == table + 4 * i
                } else {
                    given_up
                },
                ThunkSearch::Absent => here == search_descriptors(image, at + 20, skipped, name),
                ThunkSearch::Malformed => given_up,
            }
        }),
{
}

/// An import is searched for in the second data directory, from its first descriptor.
pub proof fn lemma_import_search(image: Seq<u8>, name: Seq<u8>)
    ensures
        directory(image, 1) is Some ==> import_slot(image, name) == search_descriptors(
            image,
            (directory(image, 1)->0).0 as int,
            0,
            name,
        ),
        directory(image, 1) is None ==> import_slot(image, name) is Miss && import_slot(
            image,
            name,
        )->descriptors == 0,
{
}

/// A hook is written over a value that is not null and is the one captured before, if one
/// was. Our own hook is left alone only when its original is known.
pub proof fn lemma_plans(captured: Option<u32>, current: u32, slot: usize, hook: u32)
    ensures
        ({
            let plan = plan_for(captured, current, slot, hook);
            let done = if plan is Done {
                Some(plan->Done_0)
            } else {
                None
            };
            let fits = current != 0 && (captured is None || captured->0 == current && current
                != hook);
            &&& plan is Write <==> fits
            &&& fits ==> plan->slot == slot
            &&& done == Some(HookStatus::AlreadyOurs) <==> current == hook && captured is Some
            &&& done == Some(HookStatus::NullSlot) <==> current == 0 && (captured is None || hook
                != 0)
            &&& done == Some(
                HookStatus::Refused { kept: captured->0, seen: current },
            ) <==> captured is Some && current != 0 && current != hook && captured->0 != current
        }),
{
}

/// The plan for an import goes by what its slot holds, and one that is not imported has the
/// count of the miss.
pub proof fn lemma_import_plan(captured: Option<u32>, image: Seq<u8>, name: Seq<u8>, hook: u32)
    ensures
        match import_slot(image, name) {
            SlotOutcome::Hit { slot } => plan_of(captured, image, name, hook) == plan_for(
                captured,
                bytes::u32_at(image, slot as int),
                slot,
                hook,
            ),
            SlotOutcome::Miss { descriptors } => plan_of(captured, image, name, hook)
                == HookPlan::Done(HookStatus::NotImported { descriptors }),
        },
{
}

/// The first 32 writes of as many hooks are recorded, and each hook only once.
pub proof fn lemma_recordings(record: InstallRecord, addr: u32, count: nat)
    ensures
        recording_of(record, addr, count) is Kept <==> record.slot() == 0 && count < 32,
        recording_of(record, addr, count) is PoolFull <==> record.slot() == 0 && count >= 32,
        record.slot() != 0 ==> recording_of(record, addr, count) == (Recording::Conflict {
            kept: record.slot(),
            seen: addr,
        }),
{
}

/// A slot is reported exactly when it was written and holds something other than our hook;
/// the report names it with our hook and then what it holds.
pub proof fn lemma_displacements(entries: Seq<InstallRecord>, seen: Seq<u32>)
    requires
        seen.len() == entries.len(),
    ensures
        forall|i: int|
            0 <= i < entries.len() && (#[trigger] entries[i]).slot() != 0 && entries[i].hook()
                != seen[i] ==> displacements(entries, seen).contains(
                (entries[i].label(), entries[i].hook(), seen[i]),
            ),
        forall|d: (Seq<char>, u32, u32)| #[trigger]
            displacements(entries, seen).contains(d) ==> exists|i: int|
                0 <= i < entries.len() && (#[trigger] entries[i]).slot() != 0 && entries[i].hook()
                    != seen[i] && d == (entries[i].label(), entries[i].hook(), seen[i]),
        displacements(entries, seen).len() <= entries.len(),
    decreases entries.len(),
{
    if entries.len() > 0 {
        let front = entries.drop_last();
        let n = entries.len() - 1;
        lemma_displacements(front, seen.drop_last());
        lemma_displacements_prefix(front, seen, seen.drop_last());
        let before = displacements(front, seen);
        let all = displacements(entries, seen);
        assert forall|i: int|
            0 <= i < entries.len() && (#[trigger] entries[i]).slot() != 0 && entries[i].hook()
                != seen[i] implies all.contains(
            (entries[i].label(), entries[i].hook(), seen[i]),
        ) by {
            if i < n {
                assert(front[i] == entries[i]);
                let d = (entries[i].label(), entries[i].hook(), seen[i]);
                assert(before.contains(d));
                let k = choose|k: int| 0 <= k < before.len() && before[k] == d;
                assert(all[k] == d);
            } else {
                assert(all.last() == (entries[i].label(), entries[i].hook(), seen[i]));
            }
        }
        assert forall|d: (Seq<char>, u32, u32)| #[trigger] all.contains(d) implies exists|i: int|
            0 <= i < entries.len() && (#[trigger] entries[i]).slot() != 0 && entries[i].hook()
                != seen[i] && d == (entries[i].label(), entries[i].hook(), seen[i]) by {
            let k = choose|k: int| 0 <= k < all.len() && all[k] == d;
            if k < before.len() {
                assert(before[k] == d);
                assert(before.contains(d));
                let i = choose|i: int|
                    0 <= i < front.len() && (#[trigger] front[i]).slot() != 0 && front[i].hook()
                        != seen[i] && d == (front[i].label(), front[i].hook(), seen[i]);
                assert(entries[i] == front[i]);
            } else {
                assert(entries[n].slot() != 0);
            }
        }
    }
}

/// What is found of the first records goes by the first slots alone.
proof fn lemma_displacements_prefix(entries: Seq<InstallRecord>, a: Seq<u32>, b: Seq<u32>)
    requires
        forall|i: int| 0 <= i < entries.len() ==> #[trigger] a[i] == b[i],
    ensures
        displacements(entries, a) == displacements(entries, b),
    decreases entries.len(),
{
    if entries.len() > 0 {
        lemma_displacements_prefix(entries.drop_last(), a, b);
    }
}

/// Slots are reported in the order in which they were installed.
pub proof fn lemma_displacements_in_order(
    entries: Seq<InstallRecord>,
    entry: InstallRecord,
    seen: Seq<u32>,
)
    requires
        seen.len() == entries.len() + 1,
    ensures
        displacements(entries.push(entry), seen) == displacements(entries, seen) + (
        if entry.slot() != 0 && seen.last() != entry.hook() {
            seq![(entry.label(), entry.hook(), seen.last())]
        } else {
            seq![]
        }),
{
    assert(entries.push(entry).drop_last() =~= entries);
    assert(displacements(entries.push(entry), seen) =~= displacements(entries, seen) + (
    if entry.slot() != 0 && seen.last() != entry.hook() {
        seq![(entry.label(), entry.hook(), seen.last())]
    } else {
        seq![]
    }));
}

/// A displacement shows its name, then our hook, then what the slot holds.
pub proof fn lemma_displacement_view(d: Displacement)
    ensures
        d@.0 == d.name@,
        d@.1 == d.ours,
        d@.2 == d.seen,
{
}

/// The signatures and offsets of an image, and how many installs are kept.
pub proof fn lemma_image_layout()
    ensures
        MAX_TRACKED == 32,
        IMAGE_DOS_SIGNATURE == 0x5a4d,
        IMAGE_NT_SIGNATURE == 0x4550,
        IMAGE_DIRECTORY_ENTRY_IMPORT == 1,
        IMAGE_NUMBEROF_DIRECTORY_ENTRIES == 16,
        E_LFANEW == 0x3c,
        DATA_DIRECTORY == 120,
        DESCRIPTOR_SIZE == 20,
        IMAGE_ORDINAL_FLAG32 == 0x8000_0000,
{
}

} // verus!
