use prompt_scaler::page_iter::{
    check_for_command_failure, check_tiff_sub_ifds, command_warnings, downshift_sample,
    downshift_samples, is_error_line, is_safe_to_skip, last_page_arg, parse_pdfinfo_page_count,
    pdfseparate_args, pdftocairo_args, plan_pages, AmbiguousSubIfd, CommandOutput, Page, PageIter,
    PageIterOptions, PagePlan, PagePlanError, PdfInfoError, TiffIfd,
};

fn options(rasterize: bool, max_pages: Option<usize>) -> PageIterOptions {
    PageIterOptions { rasterize, rasterize_dpi: 300, max_pages }
}

fn output(success: bool, code: Option<i32>, stdout: &str, stderr: &str) -> CommandOutput {
    CommandOutput { success, code, stdout: stdout.to_string(), stderr: stderr.to_string() }
}

#[test]
fn plans_by_mime_type() {
    let plain = options(false, None);
    let raster = options(true, None);
    for mime in ["image/png", "image/jpeg", "image/webp", "image/gif"] {
        assert_eq!(plan_pages(mime, &plain, false), Ok(PagePlan::SingleImage));
        assert_eq!(plan_pages(mime, &raster, true), Ok(PagePlan::SingleImage));
    }
    assert_eq!(plan_pages("application/pdf", &raster, false), Ok(PagePlan::RasterizedPdf));
    assert_eq!(plan_pages("application/pdf", &plain, false), Ok(PagePlan::SplitPdf));
    // A PDF with a password cannot be split and is rasterized instead.
    assert_eq!(plan_pages("application/pdf", &plain, true), Ok(PagePlan::RasterizedPdf));
    assert_eq!(plan_pages("image/tiff", &plain, false), Ok(PagePlan::Tiff));
    assert_eq!(plan_pages("text/plain", &plain, false), Err(PagePlanError::UnsupportedMimeType));
    assert_eq!(plan_pages("image/PNG", &plain, false), Err(PagePlanError::UnsupportedMimeType));
    assert_eq!(plan_pages("", &plain, false), Err(PagePlanError::UnsupportedMimeType));
}

#[test]
fn last_page_is_asked_for_when_cut_short() {
    assert_eq!(last_page_arg(&options(false, Some(2)), 5), Some(2));
    assert_eq!(last_page_arg(&options(false, Some(5)), 5), None);
    assert_eq!(last_page_arg(&options(false, Some(9)), 5), None);
    assert_eq!(last_page_arg(&options(false, None), 5), None);
    assert_eq!(last_page_arg(&options(false, Some(0)), 1), Some(0));
}

#[test]
fn pdftocairo_arguments() {
    let opts = PageIterOptions { rasterize: true, rasterize_dpi: 150, max_pages: Some(2) };
    assert_eq!(
        pdftocairo_args(&opts, Some("secret"), 10, "in.pdf", "/tmp/pages/in.png"),
        vec!["-png", "-r", "150", "-opw", "secret", "-l", "2", "in.pdf", "/tmp/pages/in.png"]
    );
    assert_eq!(
        pdftocairo_args(&options(true, None), None, 10, "in.pdf", "out.png"),
        vec!["-png", "-r", "300", "in.pdf", "out.png"]
    );
    assert_eq!(
        pdftocairo_args(&options(true, Some(10)), None, 10, "in.pdf", "out.png"),
        vec!["-png", "-r", "300", "in.pdf", "out.png"]
    );
}

#[test]
fn pdfseparate_arguments() {
    assert_eq!(
        pdfseparate_args(&options(false, Some(3)), 4, "in.pdf", "/tmp/pages/in-%d.pdf"),
        vec!["-l", "3", "in.pdf", "/tmp/pages/in-%d.pdf"]
    );
    assert_eq!(
        pdfseparate_args(&options(false, None), 4, "in.pdf", "out-%d.pdf"),
        vec!["in.pdf", "out-%d.pdf"]
    );
}

#[test]
fn error_lines() {
    assert!(is_error_line("Syntax Error: Couldn't read page"));
    assert!(is_error_line("ERROR: bad"));
    assert!(is_error_line("some eRRoR here"));
    assert!(!is_error_line("Syntax Error: xref num 12 not found"));
    assert!(!is_error_line("syntax ERROR: XREF NUM 12"));
    assert!(!is_error_line("warning: something"));
    assert!(!is_error_line(""));
    assert!(!is_error_line("erro"));
}

#[test]
fn command_success_without_error_lines_passes() {
    let out = output(true, Some(0), "fine\n", "Syntax Error: xref num 3 not found\nnote\n");
    assert_eq!(check_for_command_failure("pdfseparate", &out, true), Ok(()));
    let out = output(true, Some(0), "", "");
    assert_eq!(check_for_command_failure("pdfinfo", &out, true), Ok(()));
}

#[test]
fn error_line_fails_an_exit_of_zero() {
    let stderr = "note\r\nSyntax Error: broken stream\n";
    let out = output(true, Some(0), "", stderr);
    assert_eq!(
        check_for_command_failure("pdftocairo", &out, true),
        Err(format!("pdftocairo printed error output:\n{}", stderr))
    );
    // Without the check of the lines the command passes.
    assert_eq!(check_for_command_failure("pdftocairo", &out, false), Ok(()));
    // Lines of standard output are not looked at.
    let out = output(true, Some(0), "Error: only on stdout\n", "");
    assert_eq!(check_for_command_failure("pdftocairo", &out, true), Ok(()));
}

#[test]
fn non_zero_exit_fails() {
    let out = output(false, Some(3), "", "boom");
    assert_eq!(
        check_for_command_failure("pdfinfo", &out, false),
        Err("pdfinfo failed with exit code 3 and error output:\nboom".to_string())
    );
    let out = output(false, Some(-1), "", "");
    assert_eq!(
        check_for_command_failure("pdfinfo", &out, true),
        Err("pdfinfo failed with exit code -1 and error output:\n".to_string())
    );
    let out = output(false, Some(i32::MIN), "", "");
    assert_eq!(
        check_for_command_failure("x", &out, true),
        Err("x failed with exit code -2147483648 and error output:\n".to_string())
    );
    let out = output(false, None, "", "killed");
    assert_eq!(
        check_for_command_failure("pdfinfo", &out, true),
        Err("pdfinfo failed with error output:\nkilled".to_string())
    );
}

#[test]
fn warnings_are_trimmed_lines_of_both_streams() {
    let out = output(true, Some(0), "  one \n\ttwo\r\n", "three\n\n  \nfour");
    assert_eq!(command_warnings(&out), vec!["one", "two", "three", "", "", "four"]);
    let out = output(true, Some(0), "", "");
    assert!(command_warnings(&out).is_empty());
    let expected: Vec<String> = "  one \n\ttwo\r\n"
        .lines()
        .chain("three\n\n  \nfour\r".lines())
        .map(|l| l.trim().to_string())
        .collect();
    let out = output(true, Some(0), "  one \n\ttwo\r\n", "three\n\n  \nfour\r");
    assert_eq!(command_warnings(&out), expected);
}

#[test]
fn pdfinfo_page_count() {
    let text = "Title:          Example\nProducer:       pdfTeX-1.40\nPages:          2\nEncrypted:      no\nPage size:      612 x 792 pts (letter)\n";
    assert_eq!(parse_pdfinfo_page_count(text), Ok(2));
    assert_eq!(parse_pdfinfo_page_count("Pages: 12\r\n"), Ok(12));
    assert_eq!(parse_pdfinfo_page_count("  Pages  :  7  "), Ok(7));
    // The last line that names the property wins.
    assert_eq!(parse_pdfinfo_page_count("Pages: 1\nPages: 3\n"), Ok(3));
    assert_eq!(
        parse_pdfinfo_page_count("Title: x\nPage size: 1\n"),
        Err(PdfInfoError::MissingPageCount)
    );
    assert_eq!(parse_pdfinfo_page_count(""), Err(PdfInfoError::MissingPageCount));
    assert_eq!(parse_pdfinfo_page_count("pages: 2\n"), Err(PdfInfoError::MissingPageCount));
    assert_eq!(parse_pdfinfo_page_count("Pages: two\n"), Err(PdfInfoError::InvalidPageCount));
    assert_eq!(parse_pdfinfo_page_count("Pages\n"), Err(PdfInfoError::InvalidPageCount));
    assert_eq!(parse_pdfinfo_page_count("Pages: 1: 2\n"), Err(PdfInfoError::InvalidPageCount));
    assert_eq!(
        PdfInfoError::MissingPageCount.message(),
        "failed to find page count in pdfinfo output"
    );
}

#[test]
fn single_image_is_its_own_page() {
    let mut iter =
        PageIter::single_image("a.png".to_string(), "image/png".to_string(), &options(false, None));
    assert_eq!(iter.size_hint(), (1, Some(1)));
    assert!(!iter.is_incomplete());
    assert_eq!(iter.check_complete(), Ok(()));
    let file = iter.next_file().unwrap();
    assert_eq!(file.path, "a.png");
    assert!(!file.delete_after_read);
    assert_eq!(iter.size_hint(), (0, Some(0)));
    assert!(iter.next_file().is_none());
    assert!(iter.next_file().is_none());
    let page: Page = iter.page(vec![1, 2, 3]);
    assert_eq!(page.mime_type, "image/png");
    assert_eq!(page.data, vec![1, 2, 3]);
}

#[test]
fn tempdir_pages_come_in_lexical_order() {
    let paths = vec!["/tmp/p/doc-10.png", "/tmp/p/doc-02.png", "/tmp/p/doc-01.png", "/tmp/p/doc-02.png"]
        .into_iter()
        .map(|p| p.to_string())
        .collect();
    let out = output(true, Some(0), "", " Syntax Warning: odd font \n");
    let mut iter =
        PageIter::from_tempdir(&options(true, Some(3)), "image/png".to_string(), 12, paths, &out);
    assert_eq!(iter.warnings(), &vec!["Syntax Warning: odd font".to_string()]);
    assert!(iter.is_incomplete());
    assert_eq!(
        iter.check_complete(),
        Err("this iterator is partial: 3 pages requested, but only 12 pages available".to_string())
    );
    let mut seen = Vec::new();
    while let Some(file) = iter.next_file() {
        assert!(file.delete_after_read);
        seen.push(file.path);
    }
    assert_eq!(
        seen,
        vec!["/tmp/p/doc-01.png", "/tmp/p/doc-02.png", "/tmp/p/doc-02.png", "/tmp/p/doc-10.png"]
    );
}

#[test]
fn page_limit_at_or_above_the_total_is_complete() {
    for max in [Some(2), Some(5), None] {
        let iter = PageIter::from_tempdir(
            &options(false, max),
            "application/pdf".to_string(),
            2,
            vec![],
            &output(true, Some(0), "", ""),
        );
        assert!(!iter.is_incomplete());
        assert!(iter.check_complete().is_ok());
    }
}

#[test]
fn new_subfile_types() {
    for safe in [0x1u32, 0x4, 0x5, 0x8, 0x10, 0x10000, 0x10001, 0x1001d] {
        assert!(is_safe_to_skip(safe), "{:#x} should be safe to skip", safe);
    }
    for ambiguous in [0x0u32, 0x2, 0x3, 0x6, 0x20, 0x10002, 0x8000_0000, u32::MAX] {
        assert!(!is_safe_to_skip(ambiguous), "{:#x} should be ambiguous", ambiguous);
    }
}

#[test]
fn tiff_with_ambiguous_sub_ifd_gives_no_page() {
    let ifds = vec![
        TiffIfd { sub_ifd_types: vec![1, 4] },
        TiffIfd { sub_ifd_types: vec![] },
        TiffIfd { sub_ifd_types: vec![1, 0, 2] },
        TiffIfd { sub_ifd_types: vec![2] },
    ];
    let err = check_tiff_sub_ifds(&ifds).unwrap_err();
    assert_eq!(err, AmbiguousSubIfd { ifd: 2, sub_ifd: 1, new_subfile_type: 0 });
    assert_eq!(
        err.message(),
        "TIFF IFD 2 has SubIFD 1 with NewSubfileType 0, which may hold a page of its own; convert the file to PDF and try again"
    );
    let single_page_bit = vec![TiffIfd { sub_ifd_types: vec![2] }];
    assert_eq!(
        check_tiff_sub_ifds(&single_page_bit),
        Err(AmbiguousSubIfd { ifd: 0, sub_ifd: 0, new_subfile_type: 2 })
    );
}

#[test]
fn tiff_with_safe_sub_ifds_has_a_page_per_ifd() {
    let ifds = vec![
        TiffIfd { sub_ifd_types: vec![1, 4] },
        TiffIfd { sub_ifd_types: vec![] },
        TiffIfd { sub_ifd_types: vec![0x10001] },
    ];
    assert_eq!(check_tiff_sub_ifds(&ifds), Ok(3));
    assert_eq!(check_tiff_sub_ifds(&vec![]), Ok(0));
}

#[test]
fn samples_of_sixteen_bits_keep_their_upper_half() {
    assert_eq!(downshift_sample(0), 0);
    assert_eq!(downshift_sample(0x00ff), 0);
    assert_eq!(downshift_sample(0x0100), 1);
    assert_eq!(downshift_sample(0xabcd), 0xab);
    assert_eq!(downshift_sample(u16::MAX), 255);
    assert_eq!(downshift_samples(&vec![0x1234, 0xff00, 0x00ff]), vec![0x12, 0xff, 0x00]);
}
