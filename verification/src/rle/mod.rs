use vstd::prelude::*;
use crate::cell::Cell;

pub mod header;
pub mod tokens;
pub mod elements;
pub mod layout;

verus! {

/// Why a pattern text could not be decoded.
#[derive(Clone, Copy, Debug, PartialEq, Eq, Structural)]
pub enum DecodeError {
    /// The size line is missing, or one of its two fields is not a decimal number.
    MalformedHeader,
    /// The body holds a byte outside the alphabet, a number too large for 32 bits,
    /// a number that no run marker follows, or a second terminator.
    InvalidToken,
}

/// What a pattern text decodes to on a grid of `width` by `height`: the rows that
/// its body lays out, cut or filled up with dead cells to `width * height` cells,
/// or the reason why the text is refused.
pub open spec fn decoded(text: Seq<u8>, width: nat, height: nat) -> Result<Seq<Cell>, DecodeError> {
    match header::header_of(text) {
        None => Err(DecodeError::MalformedHeader),
        Some(_) => match tokens::tokens_of(header::body_of(text)) {
            None => Err(DecodeError::InvalidToken),
            Some(tokens) => match elements::elements_of(tokens) {
                None => Err(DecodeError::InvalidToken),
                Some(elements) => Ok(layout::fit(layout::layout(elements, width), width * height)),
            },
        },
    }
}

/// The larger of the requested and the declared size, in each dimension.
pub open spec fn effective_size_of(declared: header::Header, width: u32, height: u32) -> (u32, u32) {
    (
        if width > declared.width {
            width
        } else {
            declared.width
        },
        if height > declared.height {
            height
        } else {
            declared.height
        },
    )
}

/// The size that a pattern needs on a requested grid: in each dimension the larger
/// of what was requested and what the pattern declares.
pub fn effective_size(declared: header::Header, width: u32, height: u32) -> (size: (u32, u32))
    ensures
        size == effective_size_of(declared, width, height),
        size.0 >= width && size.0 >= declared.width,
        size.1 >= height && size.1 >= declared.height,
{
    let w: u32 = if width > declared.width {
        width
    } else {
        declared.width
    };
    let h: u32 = if height > declared.height {
        height
    } else {
        declared.height
    };
    (w, h)
}

/// Decodes a pattern text into the cells of a grid of `width` by `height`, row by row.
pub fn decode(text: &[u8], width: u32, height: u32) -> (result: Result<Vec<Cell>, DecodeError>)
    requires
        width * height <= usize::MAX,
    ensures
        match decoded(text@, width as nat, height as nat) {
            Ok(cells) => result is Ok && result->Ok_0@ == cells,
            Err(error) => result == Err::<Vec<Cell>, DecodeError>(error),
        },
        result is Ok ==> result->Ok_0@.len() == width * height,
{
    if header::parse_header(text).is_none() {
        return Err(DecodeError::MalformedHeader);
    }
    let body = header::read_body(text);
    let tokens = match tokens::tokenize(body.as_slice()) {
        Some(tokens) => tokens,
        None => {
            return Err(DecodeError::InvalidToken);
        },
    };
    let elements = match elements::parse_elements(tokens.as_slice()) {
        Some(elements) => elements,
        None => {
            return Err(DecodeError::InvalidToken);
        },
    };
    assert(width * height <= u64::MAX) by (nonlinear_arith)
        requires
            width <= u32::MAX,
            height <= u32::MAX,
    ;
    let total: u64 = (width as u64) * (height as u64);
    let limit: usize = total as usize;
    let mut cells = layout::lay_out(elements.as_slice(), width, limit);
    let missing: u64 = (limit - cells.len()) as u64;
    let ghost clipped = cells@;
    layout::push_run(&mut cells, Cell::Dead, missing, limit);
    proof {
        assert(cells@ =~= clipped + layout::run_of(Cell::Dead, missing as nat));
    }
    Ok(cells)
}

/// A text that decodes gives exactly one cell for each position of the grid.
pub proof fn lemma_decoded_len(text: Seq<u8>, width: nat, height: nat)
    ensures
        decoded(text, width, height) is Ok ==> decoded(text, width, height)->Ok_0.len() == width
            * height,
{
}

/// A text without a second line, or with a size field that is empty or holds
/// anything but decimal digits, is refused as malformed, whatever its body holds.
pub proof fn lemma_malformed_header(text: Seq<u8>, width: nat, height: nat)
    ensures
        header::size_line(text) is None ==> decoded(text, width, height) == Err::<
            Seq<Cell>,
            DecodeError,
        >(DecodeError::MalformedHeader),
        header::size_line(text) is Some && (!header::all_digits(
            header::field_at(header::size_line(text)->0, header::X_OFFSET as int),
        ) || !header::all_digits(
            header::field_at(header::size_line(text)->0, header::Y_OFFSET as int),
        ) || header::field_at(header::size_line(text)->0, header::X_OFFSET as int).len() == 0
            || header::field_at(header::size_line(text)->0, header::Y_OFFSET as int).len() == 0)
            ==> decoded(text, width, height) == Err::<Seq<Cell>, DecodeError>(
            DecodeError::MalformedHeader,
        ),
        decoded(text, width, height) == Err::<Seq<Cell>, DecodeError>(
            DecodeError::MalformedHeader,
        ) <==> header::header_of(text) is None,
{
}

} // verus!
