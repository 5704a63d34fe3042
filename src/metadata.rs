//! The records of a listing, and how the outcome of reading a directory
//! becomes a listing or an error.

use vstd::prelude::*;

verus! {

/// What the filesystem reports of one directory entry.
#[derive(Clone, Copy, Debug, PartialEq, Eq, Structural)]
pub struct EntryMetadata {
    pub is_dir: bool,
    /// Size in bytes.
    pub size: u64,
    /// Last modification, in whole seconds since the Unix epoch (rounded
    /// down), or `None` where the platform does not report it.
    pub modified: Option<i64>,
    /// Raw attribute bits: bit 0 read-only, bit 1 hidden, bit 2 system.
    pub attributes: u32,
}

/// The outcome of reading one entry while a directory is enumerated.
#[derive(Debug, PartialEq, Eq, Structural)]
pub enum EntryProbe {
    /// The enumeration itself failed at this entry; it is passed over.
    Unreadable,
    /// The entry was enumerated but its metadata could not be read.
    NoMetadata,
    /// The entry and its metadata.
    Listed(EntryMetadata),
}

/// Why a directory could not be listed.
#[derive(Clone, Copy, Debug, PartialEq, Eq, Structural)]
pub enum ListError {
    /// The directory could not be opened: missing, not a directory, or not
    /// permitted.
    DirectoryUnreadable,
    /// An entry's metadata could not be read; the whole listing is abandoned.
    MetadataUnreadable,
}

/// The metadata of the entries that were listed, in enumeration order.
pub open spec fn listed(probes: Seq<EntryProbe>) -> Seq<EntryMetadata>
    decreases probes.len(),
{
    if probes.len() == 0 {
        Seq::empty()
    } else {
        let rest = listed(probes.drop_last());
        match probes.last() {
            EntryProbe::Listed(m) => rest.push(m),
            _ => rest,
        }
    }
}

pub open spec fn lacks_metadata(probes: Seq<EntryProbe>) -> bool {
    exists|k: int| 0 <= k < probes.len() && #[trigger] probes[k] == EntryProbe::NoMetadata
}

/// The listing of a directory, given `None` where it could not be opened
/// and otherwise what its enumeration produced.
pub open spec fn listing_of(dir: Option<Seq<EntryProbe>>) -> Result<Seq<EntryMetadata>, ListError> {
    match dir {
        None => Err(ListError::DirectoryUnreadable),
        Some(probes) => if lacks_metadata(probes) {
            Err(ListError::MetadataUnreadable)
        } else {
            Ok(listed(probes))
        },
    }
}

pub open spec fn probes_view(dir: Option<Vec<EntryProbe>>) -> Option<Seq<EntryProbe>> {
    match dir {
        None => None,
        Some(v) => Some(v@),
    }
}

/// Turns the outcome of reading a directory into its listing: entries whose
/// enumeration failed are passed over, an entry without metadata fails the
/// whole listing, and an unopened directory is an error of its own.
pub fn collect_listing(dir: Option<Vec<EntryProbe>>) -> (r: Result<Vec<EntryMetadata>, ListError>)
    ensures
        match (r, listing_of(probes_view(dir))) {
            (Ok(v), Ok(s)) => v@ == s,
            (Err(e), Err(f)) => e == f,
            _ => false,
        },
{
    let probes = match dir {
        None => {
            return Err(ListError::DirectoryUnreadable);
        },
        Some(probes) => probes,
    };
    let mut entries: Vec<EntryMetadata> = Vec::new();
    let mut i: usize = 0;
    while i < probes.len()
        invariant
            0 <= i <= probes.len(),
            probes_view(dir) == Some(probes@),
            entries@ == listed(probes@.subrange(0, i as int)),
            forall|k: int| 0 <= k < i ==> probes@[k] != EntryProbe::NoMetadata,
        decreases probes.len() - i,
    {
        assert(probes@.subrange(0, i as int + 1).drop_last() =~= probes@.subrange(0, i as int));
        match &probes[i] {
            EntryProbe::Unreadable => {},
            EntryProbe::NoMetadata => {
                assert(probes@[i as int] == EntryProbe::NoMetadata);
                assert(lacks_metadata(probes@));
                return Err(ListError::MetadataUnreadable);
            },
            EntryProbe::Listed(m) => {
                entries.push(*m);
            },
        }
        i = i + 1;
    }
    assert(probes@.subrange(0, probes@.len() as int) =~= probes@);
    Ok(entries)
}

} // verus!
