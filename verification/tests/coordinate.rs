use viewview::coordinate::{coordinate_text, parse_coordinate_fields, CoordinateError};

fn fields(s: &str) -> Result<(String, String), CoordinateError> {
    parse_coordinate_fields(s)
}

#[test]
fn fields_are_trimmed() {
    assert_eq!(
        fields(" -2.5879 , 51.4545 "),
        Ok(("-2.5879".to_owned(), "51.4545".to_owned()))
    );
    assert_eq!(
        fields("\u{3000}1\u{a0},\t2\n"),
        Ok(("1".to_owned(), "2".to_owned()))
    );
}

#[test]
fn extra_fields_are_ignored() {
    assert_eq!(fields("1,2,3"), Ok(("1".to_owned(), "2".to_owned())));
}

#[test]
fn empty_fields_are_kept() {
    assert_eq!(fields(","), Ok((String::new(), String::new())));
}

#[test]
fn missing_latitude() {
    assert_eq!(fields("51.4"), Err(CoordinateError::MissingLatitude));
    assert_eq!(fields(""), Err(CoordinateError::MissingLatitude));
}

#[test]
fn coordinate_text_reads_back() {
    let text = coordinate_text("-2.5879", "51.4545");
    assert_eq!(text, "-2.5879,51.4545");
    assert_eq!(
        fields(&text),
        Ok(("-2.5879".to_owned(), "51.4545".to_owned()))
    );
}

#[test]
fn inner_white_space_is_kept() {
    assert_eq!(
        fields("1 2, 3 4"),
        Ok(("1 2".to_owned(), "3 4".to_owned()))
    );
}

/// The fields as `str::split` and `str::trim` find them.
fn std_fields(s: &str) -> Option<(String, String)> {
    let mut parts = s.split(',');
    let lon = parts.next()?.trim().to_owned();
    let lat = parts.next()?.trim().to_owned();
    Some((lon, lat))
}

#[test]
fn trimming_agrees_with_std_on_every_char() {
    for n in 0u32..=0x3100 {
        let Some(c) = char::from_u32(n) else { continue };
        let text = format!("{c}1{c}{c},{c}2{c},3");
        assert_eq!(fields(&text).ok(), std_fields(&text), "character U+{n:04X}");
    }
    for c in ['\u{feff}', '\u{180e}', '\u{200b}', '\u{10ffff}'] {
        let text = format!("{c}1{c},{c}2{c}");
        assert_eq!(fields(&text).ok(), std_fields(&text));
    }
}
