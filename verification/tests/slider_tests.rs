use wdtt_rslib::captcha_v2_slider::{
    absIntV2, activeSwapsForIndexV2, applySliderSwapsV2, parseSliderPuzzleV2, splitSliderStepsV2, SliderError,
};
use wdtt_rslib::json::{Json, JsonNumber};
use wdtt_rslib::slider_image::{
    pixelDiff, sampleColorMappedV2, sampleLumaMappedV2, seamScoreLumaV2, seamScoreRGBV2, sliderTileRect, RgbImage,
};
use wdtt_rslib::slider_rank::{sliderCursorTargetV2, sliderFinalRankV2, sliderStageOneV2};

fn sl_num(n: i64) -> Json {
    Json::Number(JsonNumber { as_i64: Some(n), f64_trunc: n, f64_text: n.to_string(), text: n.to_string() })
}

fn sl_str(s: &str) -> Json {
    Json::String(s.to_string())
}

fn sl_obj(items: Vec<(&str, Json)>) -> Json {
    Json::Object(items.into_iter().map(|(k, v)| (k.to_string(), v)).collect())
}

fn sl_image() -> RgbImage {
    let data: Vec<u8> = vec![
        0, 0, 22, 60, 3, 44, 120, 6, 66, 180, 9, 88, 7, 50, 33, 67, 53, 66, 127, 56, 99, 187, 59, 132, 14, 100, 44, 74,
        103, 88, 134, 106, 132, 194, 109, 176, 21, 150, 55, 81, 153, 110, 141, 156, 165, 201, 159, 220,
    ];
    RgbImage::from_raw(4, 4, data).unwrap()
}

#[test]
fn steps_are_split() {
    assert_eq!(splitSliderStepsV2(&[3, 0, 1, 2, 3]).unwrap(), (3, vec![0, 1, 2, 3], 4));
    assert_eq!(splitSliderStepsV2(&[3, 0, 1, 2, 3, 6]).unwrap(), (3, vec![0, 1, 2, 3], 6));
    assert_eq!(splitSliderStepsV2(&[3, 0, 1, 0]).unwrap(), (3, vec![0, 1], 4));
    assert!(matches!(splitSliderStepsV2(&[3, 0]), Err(SliderError::StepsTooShort)));
    assert!(matches!(splitSliderStepsV2(&[0, 1, 2]), Err(SliderError::InvalidSize(0))));
    assert_eq!(SliderError::InvalidSize(0).to_string(), "invalid slider size: 0");
}

#[test]
fn active_swaps_are_prefixes() {
    let s = [0, 1, 2, 3, 4, 5];
    assert_eq!(activeSwapsForIndexV2(&s, 0), Vec::<usize>::new());
    assert_eq!(activeSwapsForIndexV2(&s, 2), vec![0, 1, 2, 3]);
    assert_eq!(activeSwapsForIndexV2(&s, 9), s.to_vec());
}

#[test]
fn swaps_give_a_permutation() {
    let m = applySliderSwapsV2(3, &[0, 8, 1, 2, 0, 1]).unwrap();
    assert_eq!(m, vec![2, 8, 1, 3, 4, 5, 6, 7, 0]);
    let mut sorted = m.clone();
    sorted.sort();
    assert_eq!(sorted, (0..9).collect::<Vec<usize>>());
}

#[test]
fn swap_errors() {
    assert!(matches!(applySliderSwapsV2(0, &[]), Err(SliderError::InvalidTileCount(0))));
    assert!(matches!(applySliderSwapsV2(2, &[1]), Err(SliderError::InvalidSwapsLength(1))));
    let e = applySliderSwapsV2(2, &[0, 1, 2, 4, 9, 9]).unwrap_err();
    assert!(matches!(e, SliderError::StepOutOfRange(2, 4)));
    assert_eq!(e.to_string(), "slider step out of range: 2,4");
}

#[test]
fn abs_of_int() {
    assert_eq!(absIntV2(-5), 5);
    assert_eq!(absIntV2(7), 7);
}

#[test]
fn tile_rects() {
    assert_eq!(sliderTileRect((0, 0, 10, 7), 3, 4), (3, 2, 6, 4));
    assert_eq!(sliderTileRect((0, 0, 10, 7), 3, 8), (6, 4, 10, 7));
    assert_eq!(sliderTileRect((2, 2, 6, 6), 2, 1), (4, 2, 6, 4));
}

#[test]
fn pixel_diffs_and_samples() {
    assert_eq!(pixelDiff((10, 20, 30), (13, 15, 30)), 8);
    let img = sl_image();
    assert_eq!(img.get_pixel(1, 0), (60, 3, 44));
    let c = sampleColorMappedV2(&img, (0, 0, 2, 2), (2, 2, 4, 4), 1, 1);
    assert_eq!(c, img.get_pixel(3, 3));
    let l = sampleLumaMappedV2(&img, (0, 0, 2, 2), (2, 2, 4, 4), 1, 1);
    assert_eq!(l as u32, (299 * 201 + 587 * 159 + 114 * 220) / 1000);
}

#[test]
fn seam_scores() {
    let img = sl_image();
    assert_eq!(seamScoreLumaV2(&img, 2, &[0, 1, 2, 3]), 235);
    assert_eq!(seamScoreRGBV2(&img, 2, &[0, 1, 2, 3]), 744);
    assert_eq!(seamScoreLumaV2(&img, 2, &[1, 0, 2, 3]), 382);
    assert_eq!(seamScoreRGBV2(&img, 2, &[1, 0, 2, 3]), 1756);
    assert_eq!(seamScoreLumaV2(&img, 2, &[3, 2, 1, 0]), 705);
    assert_eq!(seamScoreRGBV2(&img, 2, &[3, 2, 1, 0]), 2232);
    assert_eq!(seamScoreLumaV2(&img, 1, &[]), 0);
}

#[test]
fn candidates_are_ranked() {
    let img = sl_image();
    let (gs, stage2) = sliderStageOneV2(&img, 2, &[0, 1, 2, 3, 0, 3]).unwrap();
    let got: Vec<(usize, i64, i64)> = gs.iter().map(|g| (g.index, g.score_luma, g.score_rgb)).collect();
    assert_eq!(got, vec![(1, 382, 1756), (2, 428, 1556), (3, 428, 1908)]);
    assert_eq!(stage2, vec![1, 2, 3]);
    let ranked = sliderFinalRankV2(gs, &stage2, &[3, 1, 2]);
    let order: Vec<(usize, usize, i64)> = ranked.iter().map(|g| (g.index, g.consensus_rank, g.score)).collect();
    assert_eq!(order, vec![(1, 2, 2), (2, 3, 3), (3, 4, 4)]);
    assert!(matches!(sliderStageOneV2(&img, 2, &[1]), Err(SliderError::NoCandidates)));
}

#[test]
fn cursor_targets() {
    assert_eq!(sliderCursorTargetV2(1, 0), None);
    assert_eq!(sliderCursorTargetV2(1, 5), Some((1, 734)));
    assert_eq!(sliderCursorTargetV2(5, 5), Some((5, 937)));
    assert_eq!(sliderCursorTargetV2(9, 5), Some((5, 937)));
    assert_eq!(sliderCursorTargetV2(0, 1), Some((1, 734)));
    assert_eq!(sliderCursorTargetV2(3, 5), Some((3, 835)));
}

#[test]
fn puzzle_is_read() {
    let png = "iVBORw0KGgoAAAANSUhEUgAAAAIAAAACCAIAAAD91JpzAAAAFklEQVR4nGNgZGJmYWVjYOfg5OLmAQABjwBPBHStvQAAAABJRU5ErkJggg==";
    let raw = sl_obj(vec![(
        "response",
        sl_obj(vec![
            ("status", sl_str("OK")),
            ("image", sl_str(png)),
            ("steps", Json::Array(vec![sl_num(2), sl_str("0"), sl_num(1), sl_num(3)])),
        ]),
    )]);
    let p = parseSliderPuzzleV2(&raw).unwrap();
    assert_eq!(p.size, 2);
    assert_eq!(p.swaps, vec![0, 1]);
    assert_eq!(p.attempts, 3);
    assert_eq!((p.image.width, p.image.height), (2, 2));
    assert_eq!(&p.image.data[..12], &[1, 2, 3, 4, 5, 6, 7, 8, 9, 10, 11, 12]);
}

#[test]
fn puzzle_errors() {
    let st = sl_obj(vec![("response", sl_obj(vec![("status", sl_str("fail"))]))]);
    let e = parseSliderPuzzleV2(&st).unwrap_err();
    assert_eq!(e.to_string(), "slider getContent status: fail");
    let no_img = sl_obj(vec![("response", sl_obj(vec![("status", sl_str("ok"))]))]);
    assert!(matches!(parseSliderPuzzleV2(&no_img), Err(SliderError::ImageMissing)));
    let bad_step = sl_obj(vec![(
        "response",
        sl_obj(vec![("status", sl_str("ok")), ("image", sl_str("x")), ("steps", Json::Array(vec![sl_str("a")]))]),
    )]);
    assert!(matches!(parseSliderPuzzleV2(&bad_step), Err(SliderError::InvalidNumber)));
    let bad_b64 = sl_obj(vec![(
        "response",
        sl_obj(vec![
            ("status", sl_str("ok")),
            ("image", sl_str("@@@")),
            ("steps", Json::Array(vec![sl_num(2), sl_num(0), sl_num(1)])),
        ]),
    )]);
    assert!(matches!(parseSliderPuzzleV2(&bad_b64), Err(SliderError::ImageEncoding)));
    let not_png = sl_obj(vec![(
        "response",
        sl_obj(vec![
            ("status", sl_str("ok")),
            ("image", sl_str("AAAA")),
            ("steps", Json::Array(vec![sl_num(2), sl_num(0), sl_num(1)])),
        ]),
    )]);
    assert!(matches!(parseSliderPuzzleV2(&not_png), Err(SliderError::ImageDecoding)));
    assert!(matches!(parseSliderPuzzleV2(&Json::Null), Err(SliderError::InvalidContent)));
}
