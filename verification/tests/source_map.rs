use node_debug::source_map::{decode_mappings, lookup, lookup_token, read_fields, Token};

fn chars(text: &str) -> Vec<char> {
    text.chars().collect()
}

fn token(generated_line: u32, generated_column: u32, source_index: u32, original_line: u32, original_column: u32) -> Token {
    Token { generated_line, generated_column, source_index, original_line, original_column }
}

#[test]
fn segment_spells_its_numbers() {
    assert_eq!(read_fields(&chars("AAAA")), Some(vec![0, 0, 0, 0]));
    assert_eq!(read_fields(&chars("AACA")), Some(vec![0, 0, 1, 0]));
    assert_eq!(read_fields(&chars("IAAM")), Some(vec![4, 0, 0, 6]));
    assert_eq!(read_fields(&chars("D")), Some(vec![-1]));
    assert_eq!(read_fields(&chars("gB")), Some(vec![16]));
    assert_eq!(read_fields(&chars("6rk2B")), Some(vec![886973]));
    assert_eq!(read_fields(&chars("ef")), Some(vec![15, -15]));
    assert_eq!(read_fields(&chars("+/")), None);
    assert_eq!(read_fields(&chars("")), Some(vec![]));
}

#[test]
fn segment_with_a_long_number_is_read_up_to_seven_digits() {
    assert_eq!(read_fields(&chars("ggggggB")), Some(vec![16 * 32 * 32 * 32 * 32 * 32]));
    assert_eq!(read_fields(&chars("//////f")), Some(vec![-17179869183]));
    assert_eq!(read_fields(&chars("gggggggB")), None);
}

#[test]
fn segment_with_a_foreign_character_or_an_open_number_is_refused() {
    assert_eq!(read_fields(&chars("AA-A")), None);
    assert_eq!(read_fields(&chars("AA A")), None);
    assert_eq!(read_fields(&chars("AAg")), None);
    assert_eq!(read_fields(&chars("=")), None);
}

#[test]
fn mappings_decode_into_tokens() {
    assert_eq!(decode_mappings(""), Some(vec![]));
    assert_eq!(decode_mappings("AAAA"), Some(vec![token(0, 0, 0, 0, 0)]));
    assert_eq!(
        decode_mappings("AAAA,IAAM;AACA"),
        Some(vec![token(0, 0, 0, 0, 0), token(0, 4, 0, 0, 6), token(1, 0, 0, 1, 6)])
    );
}

#[test]
fn generated_column_starts_over_on_every_line_and_the_rest_carries_on() {
    assert_eq!(
        decode_mappings("EACC;;ECED"),
        Some(vec![token(0, 2, 0, 1, 1), token(2, 2, 1, 3, 0)])
    );
}

#[test]
fn segment_of_one_number_moves_the_column_only() {
    assert_eq!(decode_mappings("E,EAAA"), Some(vec![token(0, 4, 0, 0, 0)]));
    assert_eq!(decode_mappings("E"), Some(vec![]));
}

#[test]
fn segment_of_five_numbers_gives_a_token_too() {
    assert_eq!(decode_mappings("AAAAA,CAAAC"), Some(vec![token(0, 0, 0, 0, 0), token(0, 1, 0, 0, 0)]));
}

#[test]
fn malformed_mappings_are_refused() {
    assert_eq!(decode_mappings("AA"), None);
    assert_eq!(decode_mappings("AAA"), None);
    assert_eq!(decode_mappings("AAAAAA"), None);
    assert_eq!(decode_mappings("AAAA;!"), None);
    assert_eq!(decode_mappings("DAAA"), None);
    assert_eq!(decode_mappings("AADA"), None);
    assert_eq!(decode_mappings("AAAA, AAAA"), None);
}

#[test]
fn positions_have_to_stay_within_their_range() {
    assert_eq!(decode_mappings("+/////HAAA"), Some(vec![token(0, 4294967295, 0, 0, 0)]));
    assert_eq!(decode_mappings("+/////HAAA,CAAA"), None);
    assert_eq!(decode_mappings("ggggggEAAA"), Some(vec![token(0, 2147483648, 0, 0, 0)]));
    assert_eq!(decode_mappings("ggggggIAAA"), None);
}

#[test]
fn lookup_finds_the_nearest_token_at_or_before() {
    let tokens = decode_mappings("AAAA,IAAM;AACA").unwrap();
    assert_eq!(lookup_token(&tokens, 0, 0), Some(token(0, 0, 0, 0, 0)));
    assert_eq!(lookup_token(&tokens, 0, 3), Some(token(0, 0, 0, 0, 0)));
    assert_eq!(lookup_token(&tokens, 0, 4), Some(token(0, 4, 0, 0, 6)));
    assert_eq!(lookup_token(&tokens, 0, 500), Some(token(0, 4, 0, 0, 6)));
    assert_eq!(lookup_token(&tokens, 1, 0), Some(token(1, 0, 0, 1, 6)));
    assert_eq!(lookup_token(&tokens, 7, 2), Some(token(1, 0, 0, 1, 6)));
}

#[test]
fn lookup_before_the_first_token_finds_nothing() {
    let tokens = decode_mappings(";EAAA").unwrap();
    assert_eq!(lookup_token(&tokens, 0, 9), None);
    assert_eq!(lookup_token(&tokens, 1, 1), None);
    assert_eq!(lookup_token(&tokens, 1, 2), Some(token(1, 2, 0, 0, 0)));
    assert_eq!(lookup_token(&Vec::new(), 0, 0), None);
}

#[test]
fn lookup_does_not_need_the_tokens_in_order() {
    let tokens = vec![token(0, 10, 0, 1, 0), token(0, 2, 0, 2, 0), token(0, 6, 0, 3, 0)];
    assert_eq!(lookup_token(&tokens, 0, 7), Some(token(0, 6, 0, 3, 0)));
    assert_eq!(lookup_token(&tokens, 0, 3), Some(token(0, 2, 0, 2, 0)));
    assert_eq!(lookup_token(&tokens, 0, 1), None);
}

#[test]
fn of_tokens_at_one_position_the_last_answers() {
    let tokens = vec![token(0, 2, 0, 1, 0), token(0, 2, 0, 2, 0)];
    assert_eq!(lookup_token(&tokens, 0, 5), Some(token(0, 2, 0, 2, 0)));
}

#[test]
fn lookup_in_a_mappings_text_takes_signed_positions() {
    assert_eq!(lookup("AAAA,IAAM;AACA", 0, 5), Some(token(0, 4, 0, 0, 6)));
    assert_eq!(lookup("AAAA,IAAM;AACA", -1, 5), None);
    assert_eq!(lookup("AAAA,IAAM;AACA", 0, -1), None);
    assert_eq!(lookup("AAA", 0, 0), None);
    assert_eq!(lookup("", 0, 0), None);
}
