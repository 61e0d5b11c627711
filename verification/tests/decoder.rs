use game_of_life::cell::Cell;
use game_of_life::rle::elements::{parse_elements, RleElement};
use game_of_life::rle::header::{parse_header, read_body, Header};
use game_of_life::rle::layout::{construct_line, lay_out};
use game_of_life::rle::tokens::{tokenize, RleToken};
use game_of_life::rle::{decode, effective_size, DecodeError};

const D: Cell = Cell::Dead;
const A: Cell = Cell::Alive;

fn pattern(body: &str) -> Vec<u8> {
    format!("#C a pattern\nx = 003, y = 003\n{}", body).into_bytes()
}

#[test]
fn decode_has_exactly_width_times_height_cells() {
    for (w, h) in [(0u32, 0u32), (1, 1), (3, 3), (4, 2), (7, 5), (2, 9), (0, 4), (4, 0)] {
        let cells = decode(&pattern("bo$2bo$3o!"), w, h).unwrap();
        assert_eq!(cells.len(), (w * h) as usize);
    }
}

#[test]
fn decode_glider_on_exact_grid() {
    let cells = decode(&pattern("bo$2bo$3o!"), 3, 3).unwrap();
    assert_eq!(cells, vec![D, A, D, D, D, A, A, A, A]);
}

#[test]
fn decode_pads_rows_and_grid_with_dead_cells() {
    let cells = decode(&pattern("bo$2bo$3o!"), 4, 4).unwrap();
    assert_eq!(
        cells,
        vec![D, A, D, D, D, D, A, D, A, A, A, D, D, D, D, D]
    );
}

#[test]
fn decode_truncates_rows_and_grid() {
    let cells = decode(&pattern("bo$2bo$3o!"), 2, 2).unwrap();
    assert_eq!(cells, vec![D, A, D, D]);
}

#[test]
fn decode_line_longer_than_width_keeps_leftmost_cells() {
    let cells = decode(&pattern("6o!"), 4, 1).unwrap();
    assert_eq!(cells, vec![A, A, A, A]);
    let cells = decode(&pattern("ob2obo!"), 4, 1).unwrap();
    assert_eq!(cells, vec![A, D, A, A]);
}

#[test]
fn decode_line_shorter_than_width_is_padded_on_the_right() {
    let cells = decode(&pattern("2o!"), 4, 1).unwrap();
    assert_eq!(cells, vec![A, A, D, D]);
}

#[test]
fn decode_line_break_with_count_leaves_blank_rows() {
    let cells = decode(&pattern("o3$o!"), 2, 4).unwrap();
    assert_eq!(cells, vec![A, D, D, D, D, D, A, D]);
}

#[test]
fn decode_joins_body_lines() {
    let text = b"#C split\r\nx = 003, y = 003\r\nbo$2b\r\no$1\n2o!\n".to_vec();
    let cells = decode(&text, 12, 3).unwrap();
    let mut expected = vec![D; 36];
    expected[1] = A;
    expected[12 + 2] = A;
    for i in 0..12 {
        expected[24 + i] = A;
    }
    assert_eq!(cells, expected);
}

#[test]
fn decode_empty_body_is_all_dead() {
    let cells = decode(b"#C nothing\nx = 001, y = 001", 2, 2).unwrap();
    assert_eq!(cells, vec![D, D, D, D]);
    let cells = decode(b"#C nothing\nx = 001, y = 001\n", 2, 2).unwrap();
    assert_eq!(cells, vec![D, D, D, D]);
}

#[test]
fn decode_unterminated_last_line_is_a_row() {
    let cells = decode(&pattern("o$2o"), 2, 2).unwrap();
    assert_eq!(cells, vec![A, D, A, A]);
}

#[test]
fn decode_non_numeric_header_is_malformed() {
    assert_eq!(
        decode(b"#C bad\nx = abc, y = 003\nbo!", 3, 3),
        Err(DecodeError::MalformedHeader)
    );
    assert_eq!(
        decode(b"#C bad\nx = 003, y = abc\nbo!", 3, 3),
        Err(DecodeError::MalformedHeader)
    );
    assert_eq!(decode(b"x = abc", 3, 3), Err(DecodeError::MalformedHeader));
    assert_eq!(decode(b"", 3, 3), Err(DecodeError::MalformedHeader));
    assert_eq!(
        decode(b"#C short\nx = 3, y = 3\nbo!", 3, 3),
        Err(DecodeError::MalformedHeader)
    );
    assert_eq!(
        decode(b"#C signed\nx = +12, y = 003\nbo!", 3, 3),
        Err(DecodeError::MalformedHeader)
    );
}

#[test]
fn decode_number_without_run_marker_is_invalid() {
    assert_eq!(decode(&pattern("3!"), 3, 3), Err(DecodeError::InvalidToken));
    assert_eq!(decode(&pattern("bo3"), 3, 3), Err(DecodeError::InvalidToken));
}

#[test]
fn decode_second_terminator_is_invalid() {
    assert_eq!(decode(&pattern("o!b!"), 3, 3), Err(DecodeError::InvalidToken));
    // adjacent terminators are one run, and so one token
    assert!(decode(&pattern("o!!"), 3, 3).is_ok());
}

#[test]
fn decode_unknown_byte_is_invalid() {
    assert_eq!(decode(&pattern("bo x!"), 3, 3), Err(DecodeError::InvalidToken));
}

#[test]
fn decode_number_too_large_is_invalid() {
    assert_eq!(
        decode(&pattern("4294967296o!"), 3, 3),
        Err(DecodeError::InvalidToken)
    );
    assert_eq!(
        decode(&pattern("99999999999999999999999999999999o!"), 3, 3),
        Err(DecodeError::InvalidToken)
    );
    assert_eq!(
        decode(&pattern("4294967295o!"), 3, 1).unwrap(),
        vec![A, A, A]
    );
}

#[test]
fn header_fields_are_read_at_fixed_offsets() {
    assert_eq!(
        parse_header(b"#C\nx = 012, y = 345, rule = B3/S23\n"),
        Some(Header { width: 12, height: 345 })
    );
    assert_eq!(
        parse_header(b"#C\r\nx = 999, y = 1\r\n"),
        Some(Header { width: 999, height: 1 })
    );
    assert_eq!(parse_header(b"only one line"), None);
    assert_eq!(parse_header(b"#C\nx = 12 , y = 345\n"), None);
}

#[test]
fn body_is_what_follows_the_second_line() {
    assert_eq!(read_body(b"a\nb\ncd\r\nef\n"), b"cdef".to_vec());
    assert_eq!(read_body(b"a\nb"), Vec::<u8>::new());
    assert_eq!(read_body(b"a"), Vec::<u8>::new());
}

#[test]
fn effective_size_is_the_larger_in_each_dimension() {
    let declared = Header { width: 10, height: 20 };
    assert_eq!(effective_size(declared, 5, 30), (10, 30));
    assert_eq!(effective_size(declared, 15, 3), (15, 20));
}

#[test]
fn tokenize_groups_runs_of_one_class() {
    assert_eq!(
        tokenize(b"12bbo$$3!"),
        Some(vec![
            RleToken::Number(12),
            RleToken::Dead,
            RleToken::Alive,
            RleToken::NewLine,
            RleToken::Number(3),
            RleToken::End,
        ])
    );
    assert_eq!(tokenize(b""), Some(vec![]));
    assert_eq!(tokenize(b"0012o"), Some(vec![RleToken::Number(12), RleToken::Alive]));
    assert_eq!(tokenize(b"3a"), None);
}

#[test]
fn parse_elements_pairs_counts_with_markers() {
    let tokens = [
        RleToken::Number(3),
        RleToken::Alive,
        RleToken::Dead,
        RleToken::Number(2),
        RleToken::NewLine,
        RleToken::Alive,
        RleToken::End,
    ];
    assert_eq!(
        parse_elements(&tokens),
        Some(vec![
            RleElement::Alive(3),
            RleElement::Dead(1),
            RleElement::NewLine(2),
            RleElement::Alive(1),
            RleElement::End,
        ])
    );
}

#[test]
fn parse_elements_refuses_illegal_adjacency() {
    assert_eq!(parse_elements(&[RleToken::Number(1), RleToken::Number(2), RleToken::Alive]), None);
    assert_eq!(parse_elements(&[RleToken::Number(1), RleToken::End]), None);
    assert_eq!(parse_elements(&[RleToken::Number(1)]), None);
    assert_eq!(parse_elements(&[RleToken::End, RleToken::Alive, RleToken::End]), None);
    assert_eq!(
        parse_elements(&[RleToken::End, RleToken::Alive]),
        Some(vec![RleElement::End, RleElement::Alive(1)])
    );
}

#[test]
fn construct_line_fits_to_width() {
    let six = [RleElement::Alive(2), RleElement::Dead(1), RleElement::Alive(3)];
    assert_eq!(construct_line(&six, 4), vec![A, A, D, A]);
    let two = [RleElement::Dead(1), RleElement::Alive(1)];
    assert_eq!(construct_line(&two, 4), vec![D, A, D, D]);
    assert_eq!(construct_line(&[], 3), vec![D, D, D]);
    assert_eq!(construct_line(&six, 0), Vec::<Cell>::new());
    assert_eq!(construct_line(&six, 6), vec![A, A, D, A, A, A]);
}

#[test]
fn lay_out_keeps_the_first_cells() {
    let elements = [
        RleElement::Alive(1),
        RleElement::NewLine(1),
        RleElement::NewLine(2),
        RleElement::Alive(5),
        RleElement::End,
    ];
    assert_eq!(
        lay_out(&elements, 2, 100),
        vec![A, D, D, D, D, D, A, A]
    );
    assert_eq!(lay_out(&elements, 2, 7), vec![A, D, D, D, D, D, A]);
    assert_eq!(lay_out(&elements, 2, 0), Vec::<Cell>::new());
    let huge = [RleElement::Dead(u32::MAX), RleElement::NewLine(u32::MAX), RleElement::Alive(1)];
    assert_eq!(lay_out(&huge, 3, 4), vec![D, D, D, D]);
}
