use livelogo::description::LogoResponse;
use livelogo::logo::{
    find_panel_origin, get_logo_data, get_logo_png, logo_route, png_or_error, write_character, LogoOptions,
    RenderError, CELLS_ACROSS, CELLS_DOWN, PANEL_SIDE,
};

fn one_token(token: &str) -> LogoResponse {
    LogoResponse::new(vec![vec![vec![token.to_string()]]])
}

fn pixel(data: &[u8], width: usize, x: usize, y: usize) -> [u8; 4] {
    let at = (x + y * width) * 4;
    [data[at], data[at + 1], data[at + 2], data[at + 3]]
}

fn decode(png_bytes: &[u8]) -> (u32, u32, Vec<u8>) {
    let decoder = png::Decoder::new(png_bytes);
    let (info, mut reader) = decoder.read_info().unwrap();
    let mut data = vec![0; info.buffer_size()];
    reader.next_frame(&mut data).unwrap();
    (info.width, info.height, data)
}

#[test]
fn logo_is_152_by_32_cells() {
    assert_eq!(CELLS_ACROSS, 152);
    assert_eq!(CELLS_DOWN, 32);
    assert_eq!(PANEL_SIDE, 8);
}

#[test]
fn panel_origins_are_as_tabled() {
    assert_eq!(find_panel_origin(0, 0), Some((0, 0)));
    assert_eq!(find_panel_origin(0, 3), Some((0, 32)));
    assert_eq!(find_panel_origin(1, 6), Some((24, 24)));
    assert_eq!(find_panel_origin(2, 7), Some((48, 24)));
    assert_eq!(find_panel_origin(3, 4), Some((56, 24)));
    assert_eq!(find_panel_origin(4, 0), Some((88, 8)));
    assert_eq!(find_panel_origin(5, 0), Some((104, 0)));
    assert_eq!(find_panel_origin(6, 2), Some((144, 8)));
    assert_eq!(find_panel_origin(6, 6), Some((136, 24)));
}

#[test]
fn panels_without_a_place_have_no_origin() {
    assert_eq!(find_panel_origin(0, 4), None);
    assert_eq!(find_panel_origin(1, 7), None);
    assert_eq!(find_panel_origin(2, 8), None);
    assert_eq!(find_panel_origin(3, 5), None);
    assert_eq!(find_panel_origin(6, 7), None);
    assert_eq!(find_panel_origin(7, 0), None);
    assert_eq!(find_panel_origin(usize::MAX, usize::MAX), None);
}

#[test]
fn empty_description_renders_blank() {
    let image = get_logo_data(&LogoResponse::empty(), LogoOptions::default()).unwrap();
    assert_eq!(image.width(), 152);
    assert_eq!(image.height(), 32);
    assert_eq!(image.data().len(), 152 * 32 * 4);
    assert!(image.data().iter().all(|b| *b == 0));
}

#[test]
fn one_red_token_paints_the_top_left_pixel() {
    let image = get_logo_data(&one_token("#ff0000"), LogoOptions::default()).unwrap();
    assert_eq!(pixel(image.data(), 152, 0, 0), [255, 0, 0, 255]);
    assert_eq!(pixel(image.data(), 152, 1, 0), [0, 0, 0, 0]);
    assert_eq!(pixel(image.data(), 152, 0, 1), [0, 0, 0, 0]);
    let painted = image.data().iter().filter(|b| **b != 0).count();
    assert_eq!(painted, 2);
}

#[test]
fn scale_paints_a_square_for_each_cell() {
    let options = LogoOptions::new(Some(3), None);
    let image = get_logo_data(&one_token("00ff00"), options).unwrap();
    assert_eq!(image.width(), 456);
    assert_eq!(image.height(), 96);
    assert_eq!(image.data().len(), 456 * 96 * 4);
    for y in 0..4 {
        for x in 0..4 {
            let expected = if x < 3 && y < 3 { [0, 255, 0, 255] } else { [0, 0, 0, 0] };
            assert_eq!(pixel(image.data(), 456, x, y), expected);
        }
    }
}

#[test]
fn cells_fill_a_panel_row_by_row() {
    let mut tokens = vec!["none".to_string(); 10];
    tokens[7] = "#010203".to_string();
    tokens[8] = "#0a0b0c".to_string();
    let logo = LogoResponse::new(vec![vec![], vec![vec![], vec![], tokens]]);
    let image = get_logo_data(&logo, LogoOptions::default()).unwrap();
    assert_eq!(pixel(image.data(), 152, 16, 8), [155, 155, 155, 255]);
    assert_eq!(pixel(image.data(), 152, 23, 8), [1, 2, 3, 255]);
    assert_eq!(pixel(image.data(), 152, 16, 9), [10, 11, 12, 255]);
    assert_eq!(pixel(image.data(), 152, 17, 9), [155, 155, 155, 255]);
    assert_eq!(pixel(image.data(), 152, 18, 9), [0, 0, 0, 0]);
    assert_eq!(pixel(image.data(), 152, 15, 8), [0, 0, 0, 0]);
}

#[test]
fn later_tokens_paint_over_earlier_ones() {
    let mut first = vec!["none".to_string(); 65];
    first[64] = "#ff0000".to_string();
    let second = vec!["#0000ff".to_string()];
    let logo = LogoResponse::new(vec![vec![], vec![first, second]]);
    let image = get_logo_data(&logo, LogoOptions::default()).unwrap();
    assert_eq!(pixel(image.data(), 152, 8, 8), [0, 0, 255, 255]);
    let logo = LogoResponse::new(vec![vec![], vec![vec!["#0000ff".to_string()]]]);
    let image = get_logo_data(&logo, LogoOptions::default()).unwrap();
    assert_eq!(pixel(image.data(), 152, 8, 0), [0, 0, 255, 255]);
}

#[test]
fn malformed_token_fails_the_image() {
    let result = get_logo_data(&one_token("#ff00zz"), LogoOptions::default());
    assert_eq!(result.err(), Some(RenderError::MalformedColor));
    let result = get_logo_data(&one_token("éé12"), LogoOptions::default());
    assert_eq!(result.err(), Some(RenderError::MalformedColor));
}

#[test]
fn token_of_another_length_is_grey() {
    let image = get_logo_data(&one_token(""), LogoOptions::default()).unwrap();
    assert_eq!(pixel(image.data(), 152, 0, 0), [155, 155, 155, 255]);
}

#[test]
fn cell_in_a_panel_without_place_fails_the_image() {
    let logo = LogoResponse::new(vec![vec![vec![], vec![], vec![], vec![], vec!["#ff0000".to_string()]]]);
    assert_eq!(get_logo_data(&logo, LogoOptions::default()).err(), Some(RenderError::MissingPanel));
    let eighth = vec![vec![], vec![], vec![], vec![], vec![], vec![], vec![], vec![vec!["#ff0000".to_string()]]];
    let logo = LogoResponse::new(eighth);
    assert_eq!(get_logo_data(&logo, LogoOptions::default()).err(), Some(RenderError::MissingPanel));
}

#[test]
fn empty_panels_without_place_are_passed_over() {
    let logo = LogoResponse::new(vec![vec![vec![], vec![], vec![], vec![], vec![], vec![]]; 9]);
    let image = get_logo_data(&logo, LogoOptions::default()).unwrap();
    assert!(image.data().iter().all(|b| *b == 0));
}

#[test]
fn cell_below_the_logo_fails_the_image() {
    let logo = LogoResponse::new(vec![vec![vec![], vec![], vec![], vec!["#ff0000".to_string()]]]);
    assert_eq!(get_logo_data(&logo, LogoOptions::default()).err(), Some(RenderError::OutsideImage));
    let logo = LogoResponse::new(vec![vec![vec![], vec![], vec!["none".to_string(); 65]]]);
    assert_eq!(get_logo_data(&logo, LogoOptions::default()).err(), Some(RenderError::OutsideImage));
    let logo = LogoResponse::new(vec![vec![vec![], vec![], vec!["none".to_string(); 64]]]);
    assert!(get_logo_data(&logo, LogoOptions::default()).is_ok());
}

#[test]
fn missing_panel_is_reported_before_a_malformed_token() {
    let logo = LogoResponse::new(vec![vec![vec![], vec![], vec![], vec![], vec!["#zz0000".to_string()]]]);
    assert_eq!(get_logo_data(&logo, LogoOptions::default()).err(), Some(RenderError::MissingPanel));
}

#[test]
fn malformed_token_is_reported_before_a_cell_below_the_logo() {
    let logo = LogoResponse::new(vec![vec![vec![], vec![], vec![], vec!["#zz0000".to_string()]]]);
    assert_eq!(get_logo_data(&logo, LogoOptions::default()).err(), Some(RenderError::MalformedColor));
}

#[test]
fn write_character_keeps_what_it_painted_before_a_failure() {
    let mut image = vec![0u8; 152 * 32 * 4];
    let chr = vec![vec!["#ff0000".to_string(), "#gg0000".to_string(), "#00ff00".to_string()]];
    let result = write_character(&chr, 1, 1, 152, &mut image);
    assert_eq!(result, Err(RenderError::MalformedColor));
    assert_eq!(pixel(&image, 152, 8, 0), [255, 0, 0, 255]);
    assert_eq!(pixel(&image, 152, 9, 0), [0, 0, 0, 0]);
    assert_eq!(pixel(&image, 152, 10, 0), [0, 0, 0, 0]);
}

#[test]
fn write_character_paints_into_what_is_there() {
    let mut image = vec![7u8; 304 * 64 * 4];
    let chr = vec![vec![], vec![], vec!["#102030".to_string()]];
    assert_eq!(write_character(&chr, 6, 2, 304, &mut image), Ok(()));
    for y in 0..64 {
        for x in 0..304 {
            let inside = 288 <= x && x < 290 && 16 <= y && y < 18;
            let expected = if inside { [0x10, 0x20, 0x30, 255] } else { [7, 7, 7, 7] };
            assert_eq!(pixel(&image, 304, x, y), expected);
        }
    }
}

#[test]
fn options_default_to_one_pixel_a_cell() {
    let options = LogoOptions::default();
    assert_eq!(options.size, None);
    assert_eq!(options.character, None);
    assert_eq!(options.pixel_size(), 1);
    assert!(options.is_renderable());
    assert_eq!(LogoOptions::new(Some(4), Some(2)).pixel_size(), 4);
    assert_eq!(LogoOptions::new(Some(4), Some(2)).character, Some(2));
}

#[test]
fn scale_must_be_positive_and_fit() {
    assert!(!LogoOptions::new(Some(0), None).is_renderable());
    assert!(LogoOptions::new(Some(1), None).is_renderable());
    assert!(LogoOptions::new(Some(100), None).is_renderable());
    assert!(!LogoOptions::new(Some(u32::MAX), None).is_renderable());
    assert!(!LogoOptions::new(Some(u32::MAX / 152 + 1), None).is_renderable());
}

#[test]
fn png_holds_the_raster() {
    let logo = LogoResponse::new(vec![vec![vec!["#ff0000".to_string(), "#00ff00".to_string()]]]);
    let options = LogoOptions::new(Some(2), None);
    let raster = get_logo_data(&logo, options).unwrap();
    let file = get_logo_png(&logo, options).unwrap();
    assert_eq!(&file[0..8], &[137, 80, 78, 71, 13, 10, 26, 10]);
    assert_eq!(&file[file.len() - 8..file.len() - 4], b"IEND");
    let (width, height, data) = decode(&file);
    assert_eq!(width, 304);
    assert_eq!(height, 64);
    assert_eq!(&data, raster.data());
    assert_eq!(pixel(&data, 304, 0, 0), [255, 0, 0, 255]);
    assert_eq!(pixel(&data, 304, 2, 1), [0, 255, 0, 255]);
}

#[test]
fn png_is_the_same_for_the_same_description() {
    let logo = one_token("#336699");
    let first = get_logo_png(&logo, LogoOptions::default()).unwrap();
    let second = get_logo_png(&logo.clone(), LogoOptions::default()).unwrap();
    assert_eq!(first, second);
    let other = get_logo_png(&one_token("#336698"), LogoOptions::default()).unwrap();
    assert_ne!(first, other);
}

#[test]
fn png_fails_as_the_raster_fails() {
    let result = get_logo_png(&one_token("#ff00zz"), LogoOptions::default());
    assert_eq!(result, Err(RenderError::MalformedColor));
}

#[test]
fn encoder_answer_becomes_the_result() {
    assert_eq!(png_or_error(Some(vec![1, 2, 3])), Ok(vec![1, 2, 3]));
    assert_eq!(png_or_error(None), Err(RenderError::Encoding));
}

#[test]
fn route_serves_the_image() {
    let placeholder = vec![9u8, 9, 9];
    let logo = one_token("#ff0000");
    let body = logo_route(&logo, LogoOptions::default(), &placeholder);
    assert_eq!(body, get_logo_png(&logo, LogoOptions::default()).unwrap());
    let (width, height, data) = decode(&body);
    assert_eq!((width, height), (152, 32));
    assert_eq!(pixel(&data, 152, 0, 0), [255, 0, 0, 255]);
}

#[test]
fn route_serves_the_placeholder_where_there_is_no_image() {
    let placeholder = vec![9u8, 8, 7];
    assert_eq!(logo_route(&one_token("#ff00zz"), LogoOptions::default(), &placeholder), placeholder);
    assert_eq!(logo_route(&one_token("#ff0000"), LogoOptions::new(Some(0), None), &placeholder), placeholder);
    assert_eq!(
        logo_route(&one_token("#ff0000"), LogoOptions::new(Some(u32::MAX), None), &placeholder),
        placeholder
    );
}

#[test]
fn every_cell_takes_the_colour_of_its_token() {
    let panels_of = [4usize, 7, 8, 5, 7, 7, 7];
    let mut characters = Vec::new();
    for (character, panels) in panels_of.iter().enumerate() {
        let mut chr = Vec::new();
        for panel in 0..*panels {
            let filled = if character == 0 && panel == 3 { 0 } else { 64 };
            let tokens: Vec<String> =
                (0..filled).map(|cell| format!("#{:02x}{:02x}{:02x}", character + 1, panel, cell)).collect();
            chr.push(tokens);
        }
        characters.push(chr);
    }
    let logo = LogoResponse::new(characters);
    let scale = 2usize;
    let image = get_logo_data(&logo, LogoOptions::new(Some(2), None)).unwrap();
    let width = 152 * scale;
    let mut expected = vec![0u8; width * 32 * scale * 4];
    for (character, panels) in panels_of.iter().enumerate() {
        for panel in 0..*panels {
            if character == 0 && panel == 3 {
                continue;
            }
            let (column, row) = find_panel_origin(character, panel).unwrap();
            for cell in 0..64usize {
                let x = column + cell % 8;
                let y = row + cell / 8;
                for py in y * scale..(y + 1) * scale {
                    for px in x * scale..(x + 1) * scale {
                        let at = (px + py * width) * 4;
                        expected[at] = character as u8 + 1;
                        expected[at + 1] = panel as u8;
                        expected[at + 2] = cell as u8;
                        expected[at + 3] = 255;
                    }
                }
            }
        }
    }
    assert_eq!(image.data(), &expected);
    let painted = expected.chunks(4).filter(|p| p[3] == 255).count();
    assert_eq!(painted, 44 * 64 * scale * scale);
}
