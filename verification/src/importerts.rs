//! The pure core of the import coordinator: locating the four required stem
//! files among a directory's entries, and classifying a decode attempt's
//! outcome.  Reading the directory and running the codec are left to the
//! caller, which hands the entry names and the decode results to this module.

use vstd::prelude::*;

use crate::errors::ImportError;

verus! {

/// The file name of stem `j`, in the fixed stem order
/// `[bass, drums, vocals, other]`.
pub open spec fn stem_name_spec(j: int) -> Seq<char> {
    if j == 0 {
        "bass.mp3"@
    } else if j == 1 {
        "drums.mp3"@
    } else if j == 2 {
        "vocals.mp3"@
    } else {
        "other.mp3"@
    }
}

/// The marker file that flags a directory as the ground-truth source.
pub open spec fn marker_name_spec() -> Seq<char> {
    ".original"@
}

/// Stem `j` appears among the entry names.
pub open spec fn stem_found(entries: Seq<String>, j: int) -> bool {
    exists|i: int| 0 <= i < entries.len() && #[trigger] entries[i]@ == stem_name_spec(j)
}

/// How many of the first `j` stems appear among the entry names.
pub open spec fn stems_found_below(entries: Seq<String>, j: int) -> int
    decreases j,
{
    if j <= 0 {
        0
    } else {
        stems_found_below(entries, j - 1) + if stem_found(entries, j - 1) {
            1int
        } else {
            0int
        }
    }
}

/// The marker file appears among the entry names.
pub open spec fn marker_found(entries: Seq<String>) -> bool {
    exists|i: int| 0 <= i < entries.len() && #[trigger] entries[i]@ == marker_name_spec()
}

/// The file name of stem `j`, in the fixed stem order
/// `[bass, drums, vocals, other]`.
pub fn stem_file_name(j: usize) -> (r: &'static str)
    requires
        j < 4,
    ensures
        r@ == stem_name_spec(j as int),
{
    if j == 0 {
        "bass.mp3"
    } else if j == 1 {
        "drums.mp3"
    } else if j == 2 {
        "vocals.mp3"
    } else {
        "other.mp3"
    }
}

/// Where each required stem file stands among a directory's entries.
#[derive(Debug)]
pub struct StemScan {
    /// For each stem `j` in the fixed order, the index of an entry whose name
    /// is the stem's file name.
    pub positions: Vec<usize>,
    /// The directory carries the ground-truth marker file.
    pub is_original: bool,
}

/// Decides what a directory's entry names say about it: succeeds exactly when
/// all four required stem files are present, and reports how many were found
/// otherwise.  The ground-truth marker never affects success.
pub fn scan_stem_entries(entries: &Vec<String>) -> (r: Result<StemScan, ImportError>)
    ensures
        r is Ok <==> (forall|j: int| 0 <= j < 4 ==> stem_found(entries@, j)),
        match r {
            Ok(scan) => {
                &&& scan.positions@.len() == 4
                &&& forall|j: int|
                    0 <= j < 4 ==> #[trigger] scan.positions@[j] < entries@.len()
                        && entries@[scan.positions@[j] as int]@ == stem_name_spec(j)
                &&& scan.is_original == marker_found(entries@)
            },
            Err(e) => {
                &&& e == (ImportError::MissingStems { found: stems_found_below(entries@, 4) as usize })
                &&& stems_found_below(entries@, 4) < 4
            },
        },
{
    let mut positions: Vec<usize> = Vec::new();
    let mut found: usize = 0;

    for j in 0..4usize
        invariant
            positions@.len() == j,
            found == stems_found_below(entries@, j as int),
            found <= j,
            forall|jj: int|
                0 <= jj < j && stem_found(entries@, jj)
                    ==> #[trigger] positions@[jj] < entries@.len()
                        && entries@[positions@[jj] as int]@ == stem_name_spec(jj),
            forall|jj: int| 0 <= jj < j ==> stem_found(entries@, jj) || found < j,
            (found == j) <==> (forall|jj: int| 0 <= jj < j ==> stem_found(entries@, jj)),
    {
        let name: String = stem_file_name(j).to_owned();
        let mut hit: Option<usize> = None;
        let mut i: usize = 0;
        while i < entries.len()
            invariant_except_break
                hit is None,
                forall|k: int| 0 <= k < i ==> #[trigger] entries@[k]@ != stem_name_spec(j as int),
            invariant
                i <= entries@.len(),
                name@ == stem_name_spec(j as int),
            ensures
                match hit {
                    Some(idx) => idx < entries@.len()
                        && entries@[idx as int]@ == stem_name_spec(j as int),
                    None => forall|k: int|
                        0 <= k < entries@.len() ==> #[trigger] entries@[k]@ != stem_name_spec(
                            j as int,
                        ),
                },
            decreases entries@.len() - i,
        {
            if entries[i] == name {
                hit = Some(i);
                break;
            }
            i += 1;
        }
        match hit {
            Some(idx) => {
                positions.push(idx);
                found += 1;
            },
            None => {
                assert(!stem_found(entries@, j as int));
                positions.push(0);
            },
        }
    }

    if found != 4 {
        return Err(ImportError::MissingStems { found });
    }

    let marker: String = ".original".to_owned();
    let mut is_original = false;
    let mut i: usize = 0;
    while i < entries.len()
        invariant
            i <= entries@.len(),
            marker@ == marker_name_spec(),
            is_original ==> marker_found(entries@),
            !is_original ==> forall|k: int| 0 <= k < i ==> #[trigger] entries@[k]@ != marker_name_spec(),
        decreases entries@.len() - i,
    {
        if entries[i] == marker {
            is_original = true;
        }
        i += 1;
    }

    Ok(StemScan { positions, is_original })
}

/// Decides whether a probed file may be decoded: exactly one audio track.
pub fn classify_track_count(count: usize) -> (r: Result<(), ImportError>)
    ensures
        r is Ok <==> count == 1,
        r is Err ==> r == Err::<(), ImportError>(ImportError::MultiTrack { count }),
{
    if count == 1 {
        Ok(())
    } else {
        Err(ImportError::MultiTrack { count })
    }
}

/// Decides whether a finished decode produced anything: zero samples decoded
/// is an error, never an empty buffer passed off as audio.
pub fn classify_decode_total(sample_count: usize) -> (r: Result<(), ImportError>)
    ensures
        r is Ok <==> sample_count > 0,
        r is Err ==> r == Err::<(), ImportError>(ImportError::EmptyResult),
{
    if sample_count > 0 {
        Ok(())
    } else {
        Err(ImportError::EmptyResult)
    }
}

} // verus!
