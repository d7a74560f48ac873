use sstv::decode::{SSTVDecoder, SSTVSetup};
use sstv::freq::Frequency;
use sstv::modes::{M1, R36, S1};
use sstv::scan::{
    first_line_cursor_of, first_scan_of, leading_edge_of, next_scan_of, pixel_stretch_of,
    sync_window_of, Scan, Stage,
};
use sstv::timing::samples_of;
use sstv::vis::DecodeError;

const RATE: u32 = 44100;

fn hz(hertz: u32) -> Frequency {
    Frequency::from_hertz(hertz)
}

/// Feeds the header and the code of a mode.
fn setup_for(code: usize, len: usize) -> SSTVSetup {
    let mut setup = SSTVSetup::new(RATE, 1, &vec![0; len]);
    for tone in [1900, 1200, 1900, 1200] {
        setup.observe(hz(tone));
    }
    let mut ones = 0;
    for bit in 0..7 {
        let one = (code >> bit) & 1 == 1;
        if one {
            ones += 1;
        }
        setup.observe(hz(if one { 1100 } else { 1300 }));
    }
    setup.observe(hz(if ones % 2 == 1 { 1100 } else { 1300 }));
    setup
}

fn decoder_for(code: usize, len: usize) -> SSTVDecoder {
    setup_for(code, len).decode().expect("the search is over").expect("a mode")
}

#[test]
fn samples_of_a_duration() {
    assert_eq!(samples_of(1_000_000_000, RATE), 44100);
    assert_eq!(samples_of(640_000_000, RATE), 28224);
    assert_eq!(samples_of(2_000_000, RATE), 88);
    assert_eq!(samples_of(30_000_000, RATE), 1323);
    assert_eq!(samples_of(270_000_000, RATE), 11907);
    assert_eq!(samples_of(446_446_000, RATE), 19688);
    assert_eq!(samples_of(0, RATE), 0);
    assert_eq!(samples_of(999_999_999, 1), 0);
    assert_eq!(samples_of(2_199_023_255_552, u32::MAX), 9_444_732_963_540);
}

#[test]
fn one_channel_of_interleaved_samples() {
    let samples = [1, 2, 3, 4, 5, 6, 7];
    assert_eq!(SSTVSetup::new(8000, 1, &samples).samples(), &samples.to_vec());
    assert_eq!(SSTVSetup::new(8000, 2, &samples).samples(), &vec![1, 3, 5, 7]);
    assert_eq!(SSTVSetup::new(8000, 3, &samples).samples(), &vec![1, 4, 7]);
    assert_eq!(SSTVSetup::new(8000, 7, &samples).samples(), &vec![1]);
    assert_eq!(SSTVSetup::new(8000, 8, &samples).samples(), &vec![1]);
    assert_eq!(SSTVSetup::new(8000, u16::MAX, &samples).samples(), &vec![1]);
    assert!(SSTVSetup::new(8000, 2, &[]).samples().is_empty());
    assert_eq!(SSTVSetup::new(8000, 2, &samples).sample_rate(), 8000);
}

#[test]
fn the_four_tones_are_asked_for_in_turn() {
    let mut setup = SSTVSetup::new(RATE, 1, &vec![0; 100_000]);
    assert!(setup.decode().is_none());
    assert_eq!(setup.window(), Some((0, 441)));
    setup.observe(hz(1900));
    assert_eq!(setup.window(), Some((13230, 13671)));
    setup.observe(hz(1200));
    assert_eq!(setup.window(), Some((13671, 14112)));
    setup.observe(hz(1900));
    assert_eq!(setup.window(), Some((26901, 27342)));
    assert!(setup.decode().is_none());
    setup.observe(hz(1200));
    // the code follows the header, one bit after another
    for bit in 0..8 {
        assert_eq!(setup.window(), Some((28224 + 1323 * bit, 28224 + 1323 * (bit + 1))));
        assert!(setup.decode().is_none());
        setup.observe(hz(if [2, 3, 5, 7].contains(&bit) { 1100 } else { 1300 }));
    }
    assert_eq!(setup.window(), None);
    let decoder = setup.decode().expect("the search is over").expect("a mode");
    assert_eq!(decoder.mode().name, "Martin 1");
    assert_eq!(decoder.header_end(), 28224);
    assert_eq!(decoder.sample_rate(), RATE);
    assert_eq!(decoder.samples().len(), 100_000);
}

#[test]
fn a_wrong_tone_moves_the_origin_on() {
    let mut setup = SSTVSetup::new(RATE, 1, &vec![0; 100_000]);
    setup.observe(hz(1900));
    setup.observe(hz(1200));
    setup.observe(hz(1200));
    assert_eq!(setup.window(), Some((88, 529)));
    setup.observe(hz(1500));
    assert_eq!(setup.window(), Some((176, 617)));
    for tone in [1900, 1200, 1900] {
        setup.observe(hz(tone));
    }
    assert_eq!(setup.window(), Some((176 + 26901, 176 + 27342)));
    setup.observe(hz(1200));
    assert_eq!(setup.window(), Some((176 + 28224, 176 + 28224 + 1323)));
}

#[test]
fn tones_match_within_fifty_hertz_only() {
    let mut setup = SSTVSetup::new(RATE, 1, &vec![0; 100_000]);
    setup.observe(Frequency { millihertz: 1_949_999 });
    assert_eq!(setup.window(), Some((13230, 13671)));
    setup.observe(Frequency { millihertz: 1_150_001 });
    assert_eq!(setup.window(), Some((13671, 14112)));
    setup.observe(Frequency { millihertz: 1_950_000 });
    assert_eq!(setup.window(), Some((88, 529)));
    setup.observe(Frequency { millihertz: 1_850_000 });
    assert_eq!(setup.window(), Some((176, 617)));
}

#[test]
fn every_origin_whose_header_lies_within_the_samples_is_tried() {
    // the header takes 28224 samples
    let mut setup = SSTVSetup::new(RATE, 1, &vec![0; 28223]);
    assert_eq!(setup.window(), None);
    assert_eq!(setup.decode().expect("over").err(), Some(DecodeError::HeaderNotFound));
    setup.observe(hz(1900));
    assert_eq!(setup.decode().expect("over").err(), Some(DecodeError::HeaderNotFound));

    let mut setup = SSTVSetup::new(RATE, 1, &vec![0; 28224 + 2 * 88]);
    let mut tried = 0;
    while let Some((start, end)) = setup.window() {
        assert_eq!((start, end), (tried * 88, tried * 88 + 441));
        setup.observe(hz(1000));
        tried += 1;
    }
    assert_eq!(tried, 3);
    assert_eq!(setup.decode().expect("over").err(), Some(DecodeError::HeaderNotFound));

    // at 8000 Hz the header takes 5120 samples
    let setup = SSTVSetup::new(8000, 1, &vec![0; 6000]);
    assert_eq!(setup.window(), Some((0, 80)));
    assert!(setup.decode().is_none());
}

#[test]
fn the_header_is_taken_at_the_last_origin_too() {
    // 815 * 88 = 71720 is the last origin at which 28224 samples are left of 100000
    let mut setup = SSTVSetup::new(RATE, 1, &vec![0; 100_000]);
    for _ in 0..815 {
        setup.observe(hz(1000));
    }
    assert_eq!(setup.window(), Some((71_720, 71_720 + 441)));
    let mut missed = setup.clone();
    missed.observe(hz(1000));
    assert_eq!(missed.window(), None);
    assert_eq!(missed.decode().expect("over").err(), Some(DecodeError::HeaderNotFound));
    for tone in [1900, 1200, 1900, 1200] {
        assert!(setup.decode().is_none());
        setup.observe(hz(tone));
    }
    // the header ends at 99944, and the code would take 10584 samples more
    assert_eq!(setup.window(), None);
    assert_eq!(setup.decode().expect("over").err(), Some(DecodeError::CodeCutShort));

    let mut setup = SSTVSetup::new(RATE, 1, &vec![0; 71_720 + 38_808]);
    for _ in 0..815 {
        setup.observe(hz(1000));
    }
    for tone in [1900, 1200, 1900, 1200] {
        setup.observe(hz(tone));
    }
    assert_eq!(setup.window(), Some((99_944, 99_944 + 1323)));
    assert!(setup.decode().is_none());
}

#[test]
fn a_code_beyond_the_samples_is_cut_short() {
    // header and code take 28224 + 8 * 1323 = 38808 samples
    for len in [28224, 30000, 38807] {
        let mut setup = SSTVSetup::new(RATE, 1, &vec![0; len]);
        for tone in [1900, 1200, 1900] {
            setup.observe(hz(tone));
        }
        assert_eq!(setup.window(), Some((26901, 27342)));
        assert!(setup.decode().is_none());
        setup.observe(hz(1200));
        assert_eq!(setup.window(), None);
        assert_eq!(setup.decode().expect("over").err(), Some(DecodeError::CodeCutShort));
    }
    let mut setup = SSTVSetup::new(RATE, 1, &vec![0; 38808]);
    for tone in [1900, 1200, 1900, 1200] {
        setup.observe(hz(tone));
    }
    assert_eq!(setup.window(), Some((28224, 29547)));
    // a header found at a later origin may leave no room either
    let mut setup = SSTVSetup::new(RATE, 1, &vec![0; 38808 + 87]);
    setup.observe(hz(1000));
    for tone in [1900, 1200, 1900, 1200] {
        setup.observe(hz(tone));
    }
    assert_eq!(setup.decode().expect("over").err(), Some(DecodeError::CodeCutShort));
}

#[test]
fn at_a_low_rate_only_the_first_origin_is_tried() {
    // at 400 Hz a hop has no sample
    let mut setup = SSTVSetup::new(400, 1, &vec![0; 10_000]);
    assert_eq!(setup.window(), Some((0, 4)));
    setup.observe(hz(1000));
    assert_eq!(setup.window(), None);
    assert_eq!(setup.decode().expect("over").err(), Some(DecodeError::HeaderNotFound));
}

#[test]
fn failures_of_the_code() {
    let mut setup = SSTVSetup::new(RATE, 1, &vec![0; 100_000]);
    for tone in [1900, 1200, 1900, 1200] {
        setup.observe(hz(tone));
    }
    for _ in 0..7 {
        setup.observe(hz(1300));
    }
    setup.observe(hz(1100));
    assert_eq!(setup.window(), None);
    assert_eq!(setup.decode().expect("over").err(), Some(DecodeError::InvalidParity));
    assert_eq!(setup_for(88, 100_000).decode().expect("over").err(), Some(DecodeError::UnsupportedMode(88)));
    assert_eq!(setup_for(0, 100_000).decode().expect("over").err(), Some(DecodeError::UnsupportedMode(0)));
}

#[test]
fn a_bit_is_one_up_to_1200_hertz() {
    let mut setup = SSTVSetup::new(RATE, 1, &vec![0; 100_000]);
    for tone in [1900, 1200, 1900, 1200] {
        setup.observe(hz(tone));
    }
    // 60 is 0111100: bits 2 to 5 are set
    for bit in 0..8 {
        let one = (2..=5).contains(&bit);
        setup.observe(Frequency { millihertz: if one { 1_200_000 } else { 1_200_001 } });
    }
    assert_eq!(setup.decode().expect("over").expect("a mode").mode().name, "Scottie 1");
}

#[test]
fn lengths_of_the_stretches() {
    assert_eq!(sync_window_of(&M1::new(), RATE), 300);
    assert_eq!(sync_window_of(&S1::new(), RATE), 555);
    assert_eq!(sync_window_of(&M1::new(), 0), 0);
    // one pulse before the middle of the stretch: 5000 + 150 - 214.4142
    assert_eq!(leading_edge_of(5000, 300, &M1::new(), RATE), 4935);
    assert_eq!(leading_edge_of(64, 300, &M1::new(), RATE), 0);
    assert_eq!(leading_edge_of(65, 300, &M1::new(), RATE), 0);
    assert_eq!(leading_edge_of(66, 300, &M1::new(), RATE), 1);
    assert_eq!(leading_edge_of(0, 300, &M1::new(), RATE), 0);
    // Scottie steps back by 10.5 ms and one scan of 138.24 ms: 6559 samples
    assert_eq!(first_line_cursor_of(10_000, &S1::new(), RATE), 3441);
    assert_eq!(first_line_cursor_of(6559, &S1::new(), RATE), 0);
    assert_eq!(first_line_cursor_of(100, &S1::new(), RATE), 0);
    assert_eq!(first_line_cursor_of(10_000, &M1::new(), RATE), 10_000);
}

#[test]
fn the_stretch_of_a_pixel() {
    let mode = M1::new();
    // 5.434 ms less half a window of 1.070784 ms are 216.03 samples; the window has 47.2
    assert_eq!(pixel_stretch_of(&mode, RATE, 100_000, 1000, 0, 0), Some((1216, 1263)));
    assert_eq!(pixel_stretch_of(&mode, RATE, 100_000, 1000, 0, 1), Some((1236, 1283)));
    assert_eq!(pixel_stretch_of(&mode, RATE, 100_000, 1000, 0, 319), Some((7653, 7700)));
    assert_eq!(pixel_stretch_of(&mode, RATE, 100_000, 1000, 1, 0), Some((7698, 7745)));
    assert_eq!(pixel_stretch_of(&mode, RATE, 100_000, 1000, 2, 319), Some((20619, 20666)));
    // it has to lie within the samples
    assert_eq!(pixel_stretch_of(&mode, RATE, 1263, 1000, 0, 0), Some((1216, 1263)));
    assert_eq!(pixel_stretch_of(&mode, RATE, 1262, 1000, 0, 0), None);
    assert_eq!(pixel_stretch_of(&mode, RATE, 0, 0, 0, 0), None);
    // channels after the first are read at half length in the Robot modes
    let mode = R36::new();
    assert_eq!(pixel_stretch_of(&mode, RATE, 100_000, 0, 0, 0), Some((482, 575)));
    assert_eq!(pixel_stretch_of(&mode, RATE, 100_000, 0, 1, 0), Some((4651, 4697)));
    assert_eq!(pixel_stretch_of(&mode, RATE, 100_000, 0, 1, 1), Some((4657, 4703)));
}

#[test]
fn a_martin_picture_starts_with_the_search_for_its_sync_pulse() {
    let mut decoder = decoder_for(44, 200_000);
    let start = 28224 + 11907;
    assert_eq!(decoder.stage(), Stage::LineSync);
    assert_eq!(decoder.window(), Some((start, start + 300)));
    decoder.decode_image_data(hz(1200));
    assert_eq!(decoder.window(), Some((start + 1, start + 301)));
    decoder.decode_image_data(Frequency { millihertz: 1_350_000 });
    assert_eq!(decoder.window(), Some((start + 2, start + 302)));
    decoder.decode_image_data(Frequency { millihertz: 1_350_001 });
    // the pulse began 65 samples before; the first pixel lies 216 after that
    assert_eq!(decoder.stage(), Stage::Pixel);
    assert_eq!(decoder.scan().cursor, (start + 2 - 65) as u128);
    assert_eq!(decoder.window(), Some((start + 153, start + 200)));
    decoder.decode_image_data(hz(1900));
    assert_eq!(decoder.window(), Some((start + 173, start + 220)));
    assert_eq!(decoder.image_data().get(0, 0, 0), 127);
    assert_eq!(decoder.image_data().cell(0), 127);
    assert_eq!(decoder.image_data().cell(1), 0);
    decoder.decode_image_data(hz(2300));
    assert_eq!(decoder.image_data().get(0, 0, 1), 255);
    let scan = decoder.scan();
    assert_eq!((scan.line, scan.chan, scan.px), (0, 0, 2));
}

#[test]
fn channels_follow_without_a_new_search_and_lines_with_one() {
    let mut decoder = decoder_for(44, 200_000);
    decoder.decode_image_data(hz(1500));
    let cursor = decoder.scan().cursor as usize;
    assert_eq!(cursor, 28224 + 11907 - 65);
    for chan in 0..3 {
        for px in 0..320 {
            assert_eq!(decoder.stage(), Stage::Pixel);
            let scan = decoder.scan();
            assert_eq!((scan.line, scan.chan, scan.px), (0, chan, px));
            assert_eq!(scan.cursor as usize, cursor);
            decoder.decode_image_data(hz(1500 + (chan * 320 + px) as u32 % 800));
        }
    }
    // the next line is sought one line length after the cursor
    assert_eq!(decoder.stage(), Stage::LineSync);
    assert_eq!(decoder.window(), Some((cursor + 19688, cursor + 19988)));
    decoder.decode_image_data(hz(1200));
    decoder.decode_image_data(hz(1900));
    assert_eq!(decoder.scan().cursor as usize, cursor + 19688 + 1 - 65);
    let scan = decoder.scan();
    assert_eq!((scan.line, scan.chan, scan.px), (1, 0, 0));
    assert_eq!(decoder.image_data().get(0, 2, 319), ((255 * 159) / 800) as u8);
}

#[test]
fn the_search_gives_up_at_the_end_of_the_samples() {
    // the first stretch of the search ends with the samples
    let start = 28224 + 11907;
    let mut decoder = decoder_for(44, start + 300);
    assert_eq!(decoder.window(), Some((start, start + 300)));
    decoder.decode_image_data(hz(1200));
    // nothing peaked above the threshold: the stretch one sample on counts
    assert_eq!(decoder.stage(), Stage::Pixel);
    assert_eq!(decoder.scan().cursor as usize, start + 1 - 65);
    assert_eq!(decoder.window(), Some((start + 152, start + 199)));
    // six pixels lie within the samples, the seventh does not
    for px in 0..6 {
        assert_eq!(decoder.scan().px, px);
        decoder.decode_image_data(hz(1900));
    }
    assert_eq!(decoder.stage(), Stage::Truncated);
    assert_eq!(decoder.scan().px, 6);
    assert_eq!(decoder.window(), None);
    decoder.decode_image_data(hz(1900));
    assert_eq!(decoder.stage(), Stage::Truncated);
    assert_eq!(decoder.image_data().cell(5), 127);
    assert_eq!(decoder.image_data().cell(6), 0);
    // one sample less and there is no search at all
    let decoder = decoder_for(44, start + 299);
    assert_eq!(decoder.stage(), Stage::Truncated);
    assert_eq!(decoder.window(), None);
}

#[test]
fn scottie_seeks_the_end_of_its_first_pulse() {
    let mut decoder = decoder_for(60, 400_000);
    let start = 28224 + 11907;
    assert_eq!(decoder.stage(), Stage::StartSync);
    assert_eq!(decoder.window(), Some((start, start + 555)));
    for _ in 0..100 {
        decoder.decode_image_data(hz(1200));
    }
    assert_eq!(decoder.window(), Some((start + 100, start + 655)));
    decoder.decode_image_data(hz(1500));
    // the pulse ended at the middle of the stretch, 277 samples in; the cursor
    // is 6559 samples before
    assert_eq!(decoder.stage(), Stage::Pixel);
    let cursor = start + 100 + 277 - 6559;
    assert_eq!(decoder.scan().cursor as usize, cursor);
    // green is offset by 150.24 ms less half a window of 0.53568 ms: 6601.96 samples
    assert_eq!(decoder.window(), Some((cursor + 6601, cursor + 6601 + 47)));
    for _ in 0..640 {
        decoder.decode_image_data(hz(1700));
    }
    // the third channel bears the sync pulse, sought one line after the cursor
    assert_eq!(decoder.stage(), Stage::LineSync);
    let scan = decoder.scan();
    assert_eq!((scan.line, scan.chan, scan.px), (0, 2, 0));
    assert_eq!(decoder.window(), Some((cursor + 18884, cursor + 18884 + 555)));
}

#[test]
fn the_walk_by_itself() {
    let mode = M1::new();
    let first = first_scan_of(&mode, RATE, 50_000, 1000);
    assert_eq!((first.stage, first.cursor, first.probe), (Stage::LineSync, 1000, 1000));
    let next = next_scan_of(&mode, RATE, 50_000, first, hz(1300));
    assert_eq!((next.stage, next.probe), (Stage::LineSync, 1001));
    let found = next_scan_of(&mode, RATE, 50_000, next, hz(1400));
    assert_eq!((found.stage, found.cursor), (Stage::Pixel, 936));
    let done = Scan { stage: Stage::Completed, cursor: 7, probe: 0, line: 256, chan: 0, px: 0 };
    let same = next_scan_of(&mode, RATE, 50_000, done, hz(1400));
    assert_eq!((same.stage, same.cursor, same.line), (Stage::Completed, 7, 256));
    let cut = first_scan_of(&S1::new(), RATE, 1000, 1000);
    assert_eq!((cut.stage, cut.cursor), (Stage::Truncated, 1000));
}

#[test]
fn a_picture_is_complete_after_its_last_pixel() {
    let mut decoder = decoder_for(8, 44100 * 40);
    let mut pixels = 0;
    let mut searches = 0;
    while decoder.window().is_some() {
        match decoder.stage() {
            Stage::Pixel => {
                pixels += 1;
                decoder.decode_image_data(hz(2000));
            },
            _ => {
                searches += 1;
                decoder.decode_image_data(hz(1500));
            },
        }
    }
    assert_eq!(decoder.stage(), Stage::Completed);
    assert_eq!(pixels, 240 * 2 * 320);
    assert_eq!(searches, 240);
    let grid = decoder.image_data();
    for index in 0..grid.len() {
        assert_eq!(grid.cell(index), 159);
    }
    decoder.decode_image_data(hz(1500));
    assert_eq!(decoder.stage(), Stage::Completed);
    assert_eq!(decoder.image_data().cell(0), 159);
}
