//! The walk over the image file directories of a TIFF.
//!
//! A TIFF starts with a header of eight bytes: the byte order (`II` for
//! little endian, `MM` for big endian), the number 42, and the offset of the
//! first image file directory (IFD). An IFD holds a count of entries, the
//! entries of twelve bytes each (a tag, a type, a count and a value or an
//! offset), and the offset of the next IFD, which is zero after the last one.
//! The main images of the file are the IFDs of this chain. The entry
//! `SubIFDs` of an IFD lists further IFDs that belong to the image, and the
//! entry `NewSubfileType` of each says what kind of image it is.

use vstd::prelude::*;
use crate::page_iter::{check_tiff_sub_ifds, all_sub_ifds_safe, AmbiguousSubIfd, TiffIfd};

verus! {

/// The tag of the entry `NewSubfileType`.
pub const TAG_NEW_SUBFILE_TYPE: u16 = 254;

/// The tag of the entry `SubIFDs`.
pub const TAG_SUB_IFDS: u16 = 330;

/// The type of an entry whose values are numbers of 16 bits.
pub const TYPE_SHORT: u16 = 3;

/// Why the directories of a TIFF cannot be read.
#[derive(Clone, Copy, Debug, PartialEq, Eq, Structural)]
pub enum TiffError {
    /// The file is shorter than its header.
    TooShort,
    /// The file starts with neither `II` nor `MM`.
    BadByteOrder,
    /// The number after the byte order is not 42.
    BadMagic,
    /// No directory fits into the file at `offset`.
    BadOffset { offset: u32 },
    /// The chain of directories does not end: it is longer than the file.
    EndlessChain,
}

/// The number of 16 bits at `at`.
pub open spec fn u16_at(bytes: Seq<u8>, at: int, little: bool) -> int {
    if little {
        bytes[at] + 256 * bytes[at + 1]
    } else {
        256 * bytes[at] + bytes[at + 1]
    }
}

/// The number of 32 bits at `at`.
pub open spec fn u32_at(bytes: Seq<u8>, at: int, little: bool) -> int {
    if little {
        bytes[at] + 256 * bytes[at + 1] + 65536 * bytes[at + 2] + 16777216 * bytes[at + 3]
    } else {
        16777216 * bytes[at] + 65536 * bytes[at + 1] + 256 * bytes[at + 2] + bytes[at + 3]
    }
}

/// The number of entries of the directory at `offset`.
pub open spec fn entry_count(bytes: Seq<u8>, offset: int, little: bool) -> int {
    u16_at(bytes, offset, little)
}

/// Whether a whole directory lies in the file at `offset`: its count, its
/// entries and the offset of the next directory.
pub open spec fn ifd_fits(bytes: Seq<u8>, offset: int, little: bool) -> bool {
    0 < offset && offset + 2 <= bytes.len() && offset + 2 + 12 * entry_count(
        bytes,
        offset,
        little,
    ) + 4 <= bytes.len()
}

/// Where the entry `index` of the directory at `offset` starts.
pub open spec fn entry_at(offset: int, index: int) -> int {
    offset + 2 + 12 * index
}

/// The index of the first entry with the tag `tag` among the entries from
/// `from` on, or the number of entries where there is none.
pub open spec fn find_tag(bytes: Seq<u8>, offset: int, little: bool, tag: int, from: int) -> int
    decreases entry_count(bytes, offset, little) - from,
{
    if from >= entry_count(bytes, offset, little) {
        entry_count(bytes, offset, little)
    } else if u16_at(bytes, entry_at(offset, from), little) == tag {
        from
    } else {
        find_tag(bytes, offset, little, tag, from + 1)
    }
}

/// The `NewSubfileType` of the directory at `offset`: the value of its entry,
/// read as a number of 16 bits where the entry says so, and zero where the
/// directory has no such entry.
pub open spec fn new_subfile_type_at(bytes: Seq<u8>, offset: int, little: bool) -> int {
    let i = find_tag(bytes, offset, little, TAG_NEW_SUBFILE_TYPE as int, 0);
    if i < entry_count(bytes, offset, little) {
        if u16_at(bytes, entry_at(offset, i) + 2, little) == TYPE_SHORT {
            u16_at(bytes, entry_at(offset, i) + 8, little)
        } else {
            u32_at(bytes, entry_at(offset, i) + 8, little)
        }
    } else {
        0
    }
}

/// Where the offsets of the SubIFDs of the directory at `offset` stand, and
/// how many there are: in the entry itself where there is one, and otherwise
/// in the array that the entry points to. No SubIFDs where the directory has
/// no such entry.
pub open spec fn sub_ifd_list(bytes: Seq<u8>, offset: int, little: bool) -> (int, int) {
    let i = find_tag(bytes, offset, little, TAG_SUB_IFDS as int, 0);
    if i < entry_count(bytes, offset, little) {
        let count = u32_at(bytes, entry_at(offset, i) + 4, little);
        if count == 1 {
            (entry_at(offset, i) + 8, 1)
        } else {
            (u32_at(bytes, entry_at(offset, i) + 8, little), count)
        }
    } else {
        (0, 0)
    }
}

/// The `NewSubfileType` of each of the first `n` SubIFDs in the list at
/// `list`, or the first offset among them at which no directory fits.
pub open spec fn sub_ifd_types(bytes: Seq<u8>, list: int, little: bool, n: int) -> Result<
    Seq<u32>,
    TiffError,
>
    decreases n,
{
    if n <= 0 {
        Ok(Seq::empty())
    } else {
        match sub_ifd_types(bytes, list, little, n - 1) {
            Err(e) => Err(e),
            Ok(before) => {
                let sub = u32_at(bytes, list + 4 * (n - 1), little);
                if ifd_fits(bytes, sub, little) {
                    Ok(before.push(new_subfile_type_at(bytes, sub, little) as u32))
                } else {
                    Err(TiffError::BadOffset { offset: sub as u32 })
                }
            },
        }
    }
}

/// The SubIFDs of the main image at `offset`, each as its `NewSubfileType`.
pub open spec fn ifd_at(bytes: Seq<u8>, offset: int, little: bool) -> Result<Seq<u32>, TiffError> {
    if !ifd_fits(bytes, offset, little) {
        Err(TiffError::BadOffset { offset: offset as u32 })
    } else {
        let (list, count) = sub_ifd_list(bytes, offset, little);
        if count > 0 && !(0 <= list && list + 4 * count <= bytes.len()) {
            Err(TiffError::BadOffset { offset: list as u32 })
        } else {
            sub_ifd_types(bytes, list, little, count)
        }
    }
}

/// The offset of the directory after the one at `offset`.
pub open spec fn next_ifd(bytes: Seq<u8>, offset: int, little: bool) -> int {
    u32_at(bytes, offset + 2 + 12 * entry_count(bytes, offset, little), little)
}

/// The main images of the chain of directories that starts at `offset`, each
/// as the `NewSubfileType` of its SubIFDs. The chain ends at the offset zero.
/// A chain of more than `fuel` directories is taken to be endless.
pub open spec fn ifd_chain(bytes: Seq<u8>, offset: int, little: bool, fuel: nat) -> Result<
    Seq<Seq<u32>>,
    TiffError,
>
    decreases fuel,
{
    if offset == 0 {
        Ok(Seq::empty())
    } else if fuel == 0 {
        Err(TiffError::EndlessChain)
    } else {
        match ifd_at(bytes, offset, little) {
            Err(e) => Err(e),
            Ok(ifd) => match ifd_chain(
                bytes,
                next_ifd(bytes, offset, little),
                little,
                (fuel - 1) as nat,
            ) {
                Err(e) => Err(e),
                Ok(rest) => Ok(seq![ifd] + rest),
            },
        }
    }
}

/// The main images of a TIFF, each as the `NewSubfileType` of its SubIFDs.
pub open spec fn tiff_ifds(bytes: Seq<u8>) -> Result<Seq<Seq<u32>>, TiffError> {
    if bytes.len() < 8 {
        Err(TiffError::TooShort)
    } else if !((bytes[0] == 0x49 && bytes[1] == 0x49) || (bytes[0] == 0x4d && bytes[1] == 0x4d)) {
        Err(TiffError::BadByteOrder)
    } else {
        let little = bytes[0] == 0x49;
        if u16_at(bytes, 2, little) != 42 {
            Err(TiffError::BadMagic)
        } else {
            ifd_chain(bytes, u32_at(bytes, 4, little), little, bytes.len())
        }
    }
}

/// The SubIFDs of each main image, as a sequence of sequences.
pub open spec fn ifds_view(ifds: Seq<TiffIfd>) -> Seq<Seq<u32>> {
    Seq::new(ifds.len(), |i: int| ifds[i].sub_ifd_types@)
}

fn read_u16(bytes: &[u8], at: usize, little: bool) -> (n: u16)
    requires
        at + 2 <= bytes@.len(),
    ensures
        n == u16_at(bytes@, at as int, little),
{
    let a = bytes[at] as u16;
    let b = bytes[at + 1] as u16;
    if little {
        a + 256 * b
    } else {
        256 * a + b
    }
}

fn read_u32(bytes: &[u8], at: usize, little: bool) -> (n: u32)
    requires
        at + 4 <= bytes@.len(),
    ensures
        n == u32_at(bytes@, at as int, little),
{
    let a = bytes[at] as u32;
    let b = bytes[at + 1] as u32;
    let c = bytes[at + 2] as u32;
    let d = bytes[at + 3] as u32;
    if little {
        a + 256 * b + 65536 * c + 16777216 * d
    } else {
        16777216 * a + 65536 * b + 256 * c + d
    }
}

fn fits(bytes: &[u8], offset: u32, little: bool) -> (b: bool)
    ensures
        b == ifd_fits(bytes@, offset as int, little),
{
    let len = bytes.len() as u64;
    let offset = offset as u64;
    if offset == 0 || offset + 2 > len {
        return false;
    }
    let count = read_u16(bytes, offset as usize, little) as u64;
    offset + 2 + 12 * count + 4 <= len
}

fn locate_tag(bytes: &[u8], offset: usize, little: bool, tag: u16) -> (i: usize)
    requires
        ifd_fits(bytes@, offset as int, little),
    ensures
        i == find_tag(bytes@, offset as int, little, tag as int, 0),
        i <= entry_count(bytes@, offset as int, little),
{
    let len = bytes.len();
    let count = read_u16(bytes, offset, little) as usize;
    let mut i: usize = 0;
    while i < count
        invariant
            i <= count,
            len == bytes@.len(),
            count == entry_count(bytes@, offset as int, little),
            ifd_fits(bytes@, offset as int, little),
            find_tag(bytes@, offset as int, little, tag as int, 0) == find_tag(
                bytes@,
                offset as int,
                little,
                tag as int,
                i as int,
            ),
        decreases count - i,
    {
        if read_u16(bytes, offset + 2 + 12 * i, little) == tag {
            return i;
        }
        i += 1;
    }
    i
}

fn new_subfile_type(bytes: &[u8], offset: usize, little: bool) -> (t: u32)
    requires
        ifd_fits(bytes@, offset as int, little),
    ensures
        t == new_subfile_type_at(bytes@, offset as int, little),
{
    let len = bytes.len();
    let count = read_u16(bytes, offset, little) as usize;
    let i = locate_tag(bytes, offset, little, TAG_NEW_SUBFILE_TYPE);
    if i < count {
        let entry = offset + 2 + 12 * i;
        if read_u16(bytes, entry + 2, little) == TYPE_SHORT {
            read_u16(bytes, entry + 8, little) as u32
        } else {
            read_u32(bytes, entry + 8, little)
        }
    } else {
        0
    }
}

fn read_ifd(bytes: &[u8], offset: u32, little: bool) -> (r: Result<TiffIfd, TiffError>)
    ensures
        match r {
            Ok(ifd) => ifd_at(bytes@, offset as int, little) == Ok::<Seq<u32>, TiffError>(
                ifd.sub_ifd_types@,
            ),
            Err(e) => ifd_at(bytes@, offset as int, little) == Err::<Seq<u32>, TiffError>(e),
        },
{
    if !fits(bytes, offset, little) {
        return Err(TiffError::BadOffset { offset });
    }
    let len = bytes.len();
    let at = offset as usize;
    let count = read_u16(bytes, at, little) as usize;
    let i = locate_tag(bytes, at, little, TAG_SUB_IFDS);
    let (list, n): (u64, u64) = if i < count {
        let entry = at + 2 + 12 * i;
        let n = read_u32(bytes, entry + 4, little);
        if n == 1 {
            ((entry + 8) as u64, 1)
        } else {
            (read_u32(bytes, entry + 8, little) as u64, n as u64)
        }
    } else {
        (0, 0)
    };
    assert((list as int, n as int) == sub_ifd_list(bytes@, offset as int, little));
    if n > 0 && list + 4 * n > len as u64 {
        return Err(TiffError::BadOffset { offset: list as u32 });
    }
    let mut types: Vec<u32> = Vec::new();
    let mut k: u64 = 0;
    while k < n
        invariant
            k <= n,
            len == bytes@.len(),
            n > 0 ==> list + 4 * n <= bytes@.len(),
            n <= u32::MAX,
            ifd_fits(bytes@, offset as int, little),
            (list as int, n as int) == sub_ifd_list(bytes@, offset as int, little),
            sub_ifd_types(bytes@, list as int, little, k as int) == Ok::<Seq<u32>, TiffError>(
                types@,
            ),
        decreases n - k,
    {
        let sub = read_u32(bytes, (list + 4 * k) as usize, little);
        if !fits(bytes, sub, little) {
            proof {
                lemma_sub_ifd_error(
                    bytes@,
                    list as int,
                    little,
                    k + 1,
                    n as int,
                    TiffError::BadOffset { offset: sub },
                );
            }
            return Err(TiffError::BadOffset { offset: sub });
        }
        types.push(new_subfile_type(bytes, sub as usize, little));
        k += 1;
    }
    Ok(TiffIfd { sub_ifd_types: types })
}

/// An error among the first `k` SubIFDs is the error of all `n` of them.
pub proof fn lemma_sub_ifd_error(
    bytes: Seq<u8>,
    list: int,
    little: bool,
    k: int,
    n: int,
    e: TiffError,
)
    requires
        0 <= k <= n,
        sub_ifd_types(bytes, list, little, k) == Err::<Seq<u32>, TiffError>(e),
    ensures
        sub_ifd_types(bytes, list, little, n) == Err::<Seq<u32>, TiffError>(e),
    decreases n - k,
{
    if k < n {
        lemma_sub_ifd_error(bytes, list, little, k + 1, n, e);
    }
}

/// The chain from the first directory is the images read so far and then the
/// chain from the directory that is next.
pub open spec fn chain_continues(
    whole: Result<Seq<Seq<u32>>, TiffError>,
    read: Seq<Seq<u32>>,
    rest: Result<Seq<Seq<u32>>, TiffError>,
) -> bool {
    whole == match rest {
        Ok(more) => Ok::<Seq<Seq<u32>>, TiffError>(read + more),
        Err(e) => Err(e),
    }
}

/// Read the image file directories of a TIFF: for each main image, the
/// `NewSubfileType` of each of its SubIFDs.
pub fn read_tiff_ifds(bytes: &[u8]) -> (r: Result<Vec<TiffIfd>, TiffError>)
    ensures
        match r {
            Ok(ifds) => tiff_ifds(bytes@) == Ok::<Seq<Seq<u32>>, TiffError>(ifds_view(ifds@)),
            Err(e) => tiff_ifds(bytes@) == Err::<Seq<Seq<u32>>, TiffError>(e),
        },
{
    if bytes.len() < 8 {
        return Err(TiffError::TooShort);
    }
    let little = if bytes[0] == 0x49 && bytes[1] == 0x49 {
        true
    } else if bytes[0] == 0x4d && bytes[1] == 0x4d {
        false
    } else {
        return Err(TiffError::BadByteOrder);
    };
    if read_u16(bytes, 2, little) != 42 {
        return Err(TiffError::BadMagic);
    }
    let mut offset = read_u32(bytes, 4, little);
    let len = bytes.len();
    let mut fuel: usize = len;
    let mut ifds: Vec<TiffIfd> = Vec::new();
    let ghost whole = ifd_chain(bytes@, offset as int, little, fuel as nat);
    assert(tiff_ifds(bytes@) == whole);
    assert(ifds_view(ifds@) =~= Seq::<Seq<u32>>::empty());
    proof {
        let rest = ifd_chain(bytes@, offset as int, little, fuel as nat);
        match rest {
            Ok(more) => {
                assert(Seq::<Seq<u32>>::empty() + more =~= more);
            },
            Err(_) => {},
        }
    }
    while offset != 0
        invariant
            len == bytes@.len(),
            fuel <= bytes@.len(),
            whole == tiff_ifds(bytes@),
            chain_continues(
                whole,
                ifds_view(ifds@),
                ifd_chain(bytes@, offset as int, little, fuel as nat),
            ),
        decreases fuel,
    {
        if fuel == 0 {
            return Err(TiffError::EndlessChain);
        }
        let ifd = match read_ifd(bytes, offset, little) {
            Ok(ifd) => ifd,
            Err(e) => {
                return Err(e);
            },
        };
        assert(ifd_fits(bytes@, offset as int, little));
        let count = read_u16(bytes, offset as usize, little) as usize;
        let next = read_u32(bytes, offset as usize + 2 + 12 * count, little);
        proof {
            let read = ifds_view(ifds@);
            let after = ifds_view(ifds@.push(ifd));
            assert(after =~= read.push(ifd.sub_ifd_types@));
            let rest = ifd_chain(bytes@, next as int, little, (fuel - 1) as nat);
            match rest {
                Ok(more) => {
                    assert(read + (seq![ifd.sub_ifd_types@] + more) =~= after + more);
                },
                Err(_) => {},
            }
        }
        ifds.push(ifd);
        offset = next;
        fuel = fuel - 1;
    }
    proof {
        assert(ifds_view(ifds@) + Seq::<Seq<u32>>::empty() =~= ifds_view(ifds@));
    }
    Ok(ifds)
}

/// Why a TIFF gives no pages.
#[derive(Clone, Copy, Debug, PartialEq, Eq, Structural)]
pub enum TiffPagesError {
    /// The directories of the file cannot be read.
    Malformed { error: TiffError },
    /// A SubIFD may hold a page of its own.
    Ambiguous { sub_ifd: AmbiguousSubIfd },
}

/// Whether every SubIFD of every main image may be passed over.
pub open spec fn all_types_safe(ifds: Seq<Seq<u32>>) -> bool {
    forall|i: int, j: int|
        0 <= i < ifds.len() && 0 <= j < ifds[i].len() ==> crate::page_iter::safe_to_skip(
            #[trigger] ifds[i][j],
        )
}

/// The SubIFDs of the directories read are safe exactly where their types
/// are.
pub proof fn lemma_all_types_safe(ifds: Seq<TiffIfd>)
    ensures
        all_sub_ifds_safe(ifds) == all_types_safe(ifds_view(ifds)),
{
    let view = ifds_view(ifds);
    if all_sub_ifds_safe(ifds) {
        assert forall|i: int, j: int|
            0 <= i < view.len() && 0 <= j < view[i].len() implies crate::page_iter::safe_to_skip(
            #[trigger] view[i][j],
        ) by {
            assert(crate::page_iter::safe_to_skip(ifds[i].sub_ifd_types@[j]));
        }
    }
    if all_types_safe(view) {
        assert forall|i: int, j: int|
            0 <= i < ifds.len() && 0 <= j < ifds[i].sub_ifd_types@.len() implies crate::page_iter::safe_to_skip(
            #[trigger] ifds[i].sub_ifd_types@[j],
        ) by {
            assert(view[i][j] == ifds[i].sub_ifd_types@[j]);
            assert(crate::page_iter::safe_to_skip(view[i][j]));
        }
    }
}

/// Whether `found` names the first SubIFD that may hold a page of its own:
/// it is one, with the type that the file gives it, and every SubIFD before
/// it may be passed over.
pub open spec fn names_first_unsafe(ifds: Seq<Seq<u32>>, found: AmbiguousSubIfd) -> bool {
    &&& found.ifd < ifds.len()
    &&& found.sub_ifd < ifds[found.ifd as int].len()
    &&& found.new_subfile_type == ifds[found.ifd as int][found.sub_ifd as int]
    &&& !crate::page_iter::safe_to_skip(found.new_subfile_type)
    &&& forall|i: int, j: int|
        0 <= i < ifds.len() && 0 <= j < ifds[i].len() && (i < found.ifd || (i == found.ifd && j
            < found.sub_ifd)) ==> crate::page_iter::safe_to_skip(#[trigger] ifds[i][j])
}

/// Count the pages of a TIFF, one for each main image, after checking its
/// SubIFDs.
///
/// A file whose directories can be read gives its number of pages exactly
/// where every SubIFD may be passed over. Where one may hold a page of its
/// own, the file gives no page at all.
pub fn tiff_page_count(bytes: &[u8]) -> (r: Result<usize, TiffPagesError>)
    ensures
        match tiff_ifds(bytes@) {
            Err(error) => r == Err::<usize, TiffPagesError>(TiffPagesError::Malformed { error }),
            Ok(ifds) => {
                &&& r is Ok <==> all_types_safe(ifds)
                &&& r matches Ok(pages) ==> pages == ifds.len()
                &&& r matches Err(e) ==> (e matches TiffPagesError::Ambiguous { sub_ifd }
                    && names_first_unsafe(ifds, sub_ifd))
            },
        },
{
    let ifds = match read_tiff_ifds(bytes) {
        Ok(ifds) => ifds,
        Err(error) => {
            return Err(TiffPagesError::Malformed { error });
        },
    };
    proof {
        lemma_all_types_safe(ifds@);
    }
    match check_tiff_sub_ifds(&ifds) {
        Ok(pages) => Ok(pages),
        Err(sub_ifd) => {
            proof {
                let view = ifds_view(ifds@);
                assert(view[sub_ifd.ifd as int] == ifds@[sub_ifd.ifd as int].sub_ifd_types@);
                assert forall|i: int, j: int|
                    0 <= i < view.len() && 0 <= j < view[i].len() && (i < sub_ifd.ifd || (i
                        == sub_ifd.ifd && j < sub_ifd.sub_ifd)) implies crate::page_iter::safe_to_skip(
                    #[trigger] view[i][j],
                ) by {
                    assert(view[i][j] == ifds@[i].sub_ifd_types@[j]);
                    assert(crate::page_iter::safe_to_skip(ifds@[i].sub_ifd_types@[j]));
                }
            }
            Err(TiffPagesError::Ambiguous { sub_ifd })
        },
    }
}

} // verus!
