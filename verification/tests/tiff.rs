use prompt_scaler::page_iter::{AmbiguousSubIfd, TiffIfd};
use prompt_scaler::tiff::{read_tiff_ifds, tiff_page_count, TiffError, TiffPagesError};

/// Writes numbers in the byte order of a file.
struct Writer {
    little: bool,
    bytes: Vec<u8>,
}

impl Writer {
    fn new(little: bool, first_ifd: u32) -> Writer {
        let mut w = Writer { little, bytes: Vec::new() };
        w.bytes.extend_from_slice(if little { b"II" } else { b"MM" });
        w.u16(42);
        w.u32(first_ifd);
        w
    }

    fn u16(&mut self, n: u16) {
        let b = if self.little { n.to_le_bytes() } else { n.to_be_bytes() };
        self.bytes.extend_from_slice(&b);
    }

    fn u32(&mut self, n: u32) {
        let b = if self.little { n.to_le_bytes() } else { n.to_be_bytes() };
        self.bytes.extend_from_slice(&b);
    }

    /// A directory at the end of the file so far; returns its offset.
    fn ifd(&mut self, entries: &[(u16, u16, u32, u32)], next: u32) -> u32 {
        let offset = self.bytes.len() as u32;
        self.u16(entries.len() as u16);
        for (tag, kind, count, value) in entries {
            self.u16(*tag);
            self.u16(*kind);
            self.u32(*count);
            if *kind == 3 {
                self.u16(*value as u16);
                self.u16(0);
            } else {
                self.u32(*value);
            }
        }
        self.u32(next);
        offset
    }
}

const LONG: u16 = 4;
const SHORT: u16 = 3;

fn types(ifds: &[TiffIfd]) -> Vec<Vec<u32>> {
    ifds.iter().map(|ifd| ifd.sub_ifd_types.clone()).collect()
}

#[test]
fn chain_of_main_images() {
    for little in [true, false] {
        // Three main images without SubIFDs: 8, 8 + 18, 8 + 36.
        let mut w = Writer::new(little, 8);
        assert_eq!(w.ifd(&[(256, LONG, 1, 100)], 26), 8);
        assert_eq!(w.ifd(&[(254, LONG, 1, 2)], 44), 26);
        assert_eq!(w.ifd(&[(256, SHORT, 1, 7)], 0), 44);
        let ifds = read_tiff_ifds(&w.bytes).unwrap();
        assert_eq!(types(&ifds), vec![Vec::<u32>::new(), vec![], vec![]]);
        assert_eq!(tiff_page_count(&w.bytes), Ok(3));
    }
}

#[test]
fn sub_ifds_in_the_entry_and_in_an_array() {
    for little in [true, false] {
        let mut w = Writer::new(little, 0);
        let thumbnail = w.ifd(&[(254, LONG, 1, 1)], 0);
        let mask = w.ifd(&[(256, LONG, 1, 5), (254, SHORT, 1, 4)], 0);
        let preview = w.ifd(&[(254, LONG, 1, 0x10001)], 0);
        let array = w.bytes.len() as u32;
        w.u32(mask);
        w.u32(preview);
        let second = w.ifd(&[(330, LONG, 2, array)], 0);
        let first = w.ifd(&[(254, LONG, 1, 0), (330, 13, 1, thumbnail)], second);
        let at = 4;
        let offset = if little { first.to_le_bytes() } else { first.to_be_bytes() };
        w.bytes[at..at + 4].copy_from_slice(&offset);
        let ifds = read_tiff_ifds(&w.bytes).unwrap();
        assert_eq!(types(&ifds), vec![vec![1], vec![4, 0x10001]]);
        assert_eq!(tiff_page_count(&w.bytes), Ok(2));
    }
}

#[test]
fn ambiguous_sub_ifd_gives_no_page() {
    let mut w = Writer::new(true, 0);
    let page = w.ifd(&[(254, LONG, 1, 2)], 0);
    let untyped = w.ifd(&[(256, LONG, 1, 9)], 0);
    let second = w.ifd(&[(330, LONG, 1, untyped)], 0);
    let first = w.ifd(&[(330, LONG, 1, page)], second);
    w.bytes[4..8].copy_from_slice(&first.to_le_bytes());
    let ifds = read_tiff_ifds(&w.bytes).unwrap();
    assert_eq!(types(&ifds), vec![vec![2], vec![0]]);
    assert_eq!(
        tiff_page_count(&w.bytes),
        Err(TiffPagesError::Ambiguous {
            sub_ifd: AmbiguousSubIfd { ifd: 0, sub_ifd: 0, new_subfile_type: 2 }
        })
    );
    // Without the first image the SubIFD without a type is the first fault.
    w.bytes[4..8].copy_from_slice(&second.to_le_bytes());
    assert_eq!(
        tiff_page_count(&w.bytes),
        Err(TiffPagesError::Ambiguous {
            sub_ifd: AmbiguousSubIfd { ifd: 0, sub_ifd: 0, new_subfile_type: 0 }
        })
    );
}

#[test]
fn malformed_files() {
    assert_eq!(read_tiff_ifds(b"").map(|_| ()), Err(TiffError::TooShort));
    assert_eq!(read_tiff_ifds(b"II*\0\x08\0\0").map(|_| ()), Err(TiffError::TooShort));
    assert_eq!(read_tiff_ifds(b"PK\x03\x04\0\0\0\0").map(|_| ()), Err(TiffError::BadByteOrder));
    assert_eq!(read_tiff_ifds(b"IM*\0\x08\0\0\0").map(|_| ()), Err(TiffError::BadByteOrder));
    assert_eq!(read_tiff_ifds(b"II+\0\x08\0\0\0").map(|_| ()), Err(TiffError::BadMagic));
    assert_eq!(read_tiff_ifds(b"MM*\0\0\0\0\x08").map(|_| ()), Err(TiffError::BadMagic));
    // An empty chain is a file without pages.
    assert_eq!(tiff_page_count(b"II*\0\0\0\0\0"), Ok(0));
    assert_eq!(
        read_tiff_ifds(b"II*\0\x08\0\0\0").map(|_| ()),
        Err(TiffError::BadOffset { offset: 8 })
    );
    assert_eq!(
        tiff_page_count(b"MM\0*\0\0\0\x07"),
        Err(TiffPagesError::Malformed { error: TiffError::BadOffset { offset: 7 } })
    );
    // A directory that says it has more entries than the file holds.
    let mut w = Writer::new(true, 8);
    w.ifd(&[(256, LONG, 1, 1)], 0);
    w.bytes[8] = 2;
    assert_eq!(read_tiff_ifds(&w.bytes).map(|_| ()), Err(TiffError::BadOffset { offset: 8 }));
    // SubIFDs that lie outside the file.
    let mut w = Writer::new(true, 8);
    w.ifd(&[(330, LONG, 1, 4000)], 0);
    assert_eq!(read_tiff_ifds(&w.bytes).map(|_| ()), Err(TiffError::BadOffset { offset: 4000 }));
    let mut w = Writer::new(true, 8);
    w.ifd(&[(330, LONG, 3, 20)], 0);
    assert_eq!(read_tiff_ifds(&w.bytes).map(|_| ()), Err(TiffError::BadOffset { offset: 20 }));
}

#[test]
fn chain_that_loops_is_endless() {
    let mut w = Writer::new(true, 8);
    w.ifd(&[(256, LONG, 1, 1)], 26);
    w.ifd(&[(256, LONG, 1, 1)], 8);
    assert_eq!(read_tiff_ifds(&w.bytes).map(|_| ()), Err(TiffError::EndlessChain));
    assert_eq!(
        tiff_page_count(&w.bytes),
        Err(TiffPagesError::Malformed { error: TiffError::EndlessChain })
    );
}
