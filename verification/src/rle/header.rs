use vstd::prelude::*;

verus! {

/// The byte that ends a line.
pub const LINE_FEED: u8 = 10;

/// The byte that may precede a line feed.
pub const CARRIAGE_RETURN: u8 = 13;

/// Where the width field starts in the size line: behind `x = `.
pub const X_OFFSET: usize = 4;

/// Where the height field starts in the size line: behind `x = ###, y = `.
pub const Y_OFFSET: usize = 13;

/// The longest a size field can be.
pub const FIELD_LEN: usize = 3;

/// The size that a pattern text declares for itself.
#[derive(Clone, Copy, Debug, PartialEq, Eq, Structural)]
pub struct Header {
    pub width: u32,
    pub height: u32,
}

/// A decimal digit in ASCII.
pub open spec fn is_digit(b: u8) -> bool {
    48 <= b <= 57
}

/// Every byte of `s` is a decimal digit.
pub open spec fn all_digits(s: Seq<u8>) -> bool {
    forall|i: int| 0 <= i < s.len() ==> is_digit(#[trigger] s[i])
}

/// The number that a run of decimal digits writes, most significant digit first.
pub open spec fn decimal_value(digits: Seq<u8>) -> nat
    decreases digits.len(),
{
    if digits.len() == 0 {
        0
    } else {
        decimal_value(digits.drop_last()) * 10 + (digits.last() - 48) as nat
    }
}

/// The index of the first line feed at or behind `from`, or the length of the
/// text where there is none.
pub open spec fn line_end(text: Seq<u8>, from: int) -> int
    decreases text.len() - from,
{
    if from < 0 || from >= text.len() {
        text.len() as int
    } else if text[from] == LINE_FEED {
        from
    } else {
        line_end(text, from + 1)
    }
}

/// A line without the carriage return that may end it.
pub open spec fn trim_line(line: Seq<u8>) -> Seq<u8> {
    if line.len() > 0 && line.last() == CARRIAGE_RETURN {
        line.drop_last()
    } else {
        line
    }
}

/// The second line of the text, if the text has one.
pub open spec fn size_line(text: Seq<u8>) -> Option<Seq<u8>> {
    let first = line_end(text, 0);
    if first >= text.len() {
        None
    } else {
        Some(trim_line(text.subrange(first + 1, line_end(text, first + 1))))
    }
}

/// What follows the second line, line breaks included; empty if the text ends
/// with its second line.
pub open spec fn body_lines(text: Seq<u8>) -> Seq<u8> {
    let first = line_end(text, 0);
    if first >= text.len() {
        Seq::empty()
    } else {
        let second = line_end(text, first + 1);
        if second >= text.len() {
            Seq::empty()
        } else {
            text.subrange(second + 1, text.len() as int)
        }
    }
}

/// Neither a line feed nor a carriage return.
pub open spec fn is_body_byte(b: u8) -> bool {
    b != LINE_FEED && b != CARRIAGE_RETURN
}

/// The pattern's body: the lines behind the size line, joined without their
/// line breaks.
pub open spec fn body_of(text: Seq<u8>) -> Seq<u8> {
    body_lines(text).filter(|b: u8| is_body_byte(b))
}

/// The bytes of a size field: up to three, from `at` on.
pub open spec fn field_at(line: Seq<u8>, at: int) -> Seq<u8> {
    if line.len() <= at {
        Seq::empty()
    } else if line.len() < at + FIELD_LEN {
        line.subrange(at, line.len() as int)
    } else {
        line.subrange(at, at + FIELD_LEN)
    }
}

/// The value of a size field, where it is one to three decimal digits.
pub open spec fn field_value(field: Seq<u8>) -> Option<u32> {
    if 0 < field.len() <= FIELD_LEN && all_digits(field) {
        Some(decimal_value(field) as u32)
    } else {
        None
    }
}

/// The size that the text declares, where its second line holds both fields.
pub open spec fn header_of(text: Seq<u8>) -> Option<Header> {
    match size_line(text) {
        None => None,
        Some(line) => match (
            field_value(field_at(line, X_OFFSET as int)),
            field_value(field_at(line, Y_OFFSET as int)),
        ) {
            (Some(width), Some(height)) => Some(Header { width, height }),
            _ => None,
        },
    }
}

/// A field of at most three digits writes a number below one thousand.
pub proof fn lemma_decimal_value_bound(digits: Seq<u8>)
    requires
        digits.len() <= 3,
        all_digits(digits),
    ensures
        digits.len() == 0 ==> decimal_value(digits) == 0,
        digits.len() <= 1 ==> decimal_value(digits) <= 9,
        digits.len() <= 2 ==> decimal_value(digits) <= 99,
        decimal_value(digits) <= 999,
    decreases digits.len(),
{
    if digits.len() > 0 {
        lemma_decimal_value_bound(digits.drop_last());
    }
}

/// Finds the end of the line that `from` lies in.
pub fn find_line_end(text: &[u8], from: usize) -> (end: usize)
    requires
        from <= text@.len(),
    ensures
        end == line_end(text@, from as int),
        from <= end <= text@.len(),
{
    let mut i: usize = from;
    while i < text.len() && text[i] != LINE_FEED
        invariant
            from <= i <= text@.len(),
            line_end(text@, from as int) == line_end(text@, i as int),
        decreases text@.len() - i,
    {
        i += 1;
    }
    i
}

/// Reads the size field that starts at `at` in the line `text[start..end]`.
pub fn parse_field(text: &[u8], start: usize, end: usize, at: usize) -> (value: Option<u32>)
    requires
        start <= end <= text@.len(),
        at + FIELD_LEN <= usize::MAX,
    ensures
        value == field_value(field_at(text@.subrange(start as int, end as int), at as int)),
{
    let len: usize = end - start;
    let ghost line = text@.subrange(start as int, end as int);
    if len <= at {
        return None;
    }
    let stop: usize = if len < at + FIELD_LEN { len } else { at + FIELD_LEN };
    let ghost field = field_at(line, at as int);
    assert(field =~= line.subrange(at as int, stop as int));
    let mut value: u32 = 0;
    let mut i: usize = at;
    while i < stop
        invariant
            at <= i <= stop <= len,
            stop <= at + 3,
            len == end - start,
            start <= end <= text@.len(),
            line == text@.subrange(start as int, end as int),
            field == line.subrange(at as int, stop as int),
            all_digits(field.subrange(0, i - at)),
            value == decimal_value(field.subrange(0, i - at)),
            value <= 999,
        decreases stop - i,
    {
        let b: u8 = text[start + i];
        assert(b == field[i - at]);
        if b < 48 || b > 57 {
            assert(!all_digits(field));
            return None;
        }
        proof {
            let next = field.subrange(0, i - at + 1);
            assert(next.drop_last() =~= field.subrange(0, i - at));
            assert(next.last() == b);
            assert(all_digits(next));
            lemma_decimal_value_bound(next);
        }
        value = value * 10 + (b - 48) as u32;
        i += 1;
    }
    assert(field.subrange(0, stop - at) =~= field);
    Some(value)
}

/// Reads the declared size from the second line of the text.
pub fn parse_header(text: &[u8]) -> (header: Option<Header>)
    ensures
        header == header_of(text@),
{
    let first: usize = find_line_end(text, 0);
    if first >= text.len() {
        return None;
    }
    let second: usize = find_line_end(text, first + 1);
    let start: usize = first + 1;
    let mut end: usize = second;
    if end > start && text[end - 1] == CARRIAGE_RETURN {
        end -= 1;
    }
    assert(text@.subrange(start as int, end as int) =~= trim_line(
        text@.subrange(start as int, second as int),
    ));
    let x = parse_field(text, start, end, X_OFFSET);
    let y = parse_field(text, start, end, Y_OFFSET);
    match (x, y) {
        (Some(width), Some(height)) => Some(Header { width, height }),
        _ => None,
    }
}

/// Collects the pattern's body: what follows the second line, without line breaks.
pub fn read_body(text: &[u8]) -> (body: Vec<u8>)
    ensures
        body@ == body_of(text@),
{
    let mut body: Vec<u8> = Vec::new();
    let first: usize = find_line_end(text, 0);
    if first >= text.len() {
        proof {
            reveal(Seq::filter);
        }
        return body;
    }
    let second: usize = find_line_end(text, first + 1);
    if second >= text.len() {
        proof {
            reveal(Seq::filter);
        }
        return body;
    }
    let start: usize = second + 1;
    let ghost keep = |b: u8| is_body_byte(b);
    let mut i: usize = start;
    proof {
        reveal(Seq::filter);
        assert(text@.subrange(start as int, i as int) =~= Seq::<u8>::empty());
    }
    while i < text.len()
        invariant
            start <= i <= text@.len(),
            keep == (|b: u8| is_body_byte(b)),
            body@ == text@.subrange(start as int, i as int).filter(keep),
        decreases text@.len() - i,
    {
        let b: u8 = text[i];
        proof {
            reveal(Seq::filter);
            let next = text@.subrange(start as int, i + 1);
            assert(next.drop_last() =~= text@.subrange(start as int, i as int));
            assert(next.last() == b);
        }
        if b != LINE_FEED && b != CARRIAGE_RETURN {
            body.push(b);
        }
        i += 1;
    }
    assert(text@.subrange(start as int, i as int) =~= body_lines(text@));
    body
}

} // verus!
