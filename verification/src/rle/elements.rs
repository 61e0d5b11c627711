use vstd::prelude::*;
use crate::rle::tokens::RleToken;

verus! {

/// A token together with how often it repeats.
#[derive(Clone, Copy, Debug, PartialEq, Eq, Structural)]
pub enum RleElement {
    NewLine(u32),
    Dead(u32),
    Alive(u32),
    End,
}

/// The element that a run marker makes with a count; a number or a terminator
/// takes no count.
pub open spec fn counted(token: RleToken, count: u32) -> Option<RleElement> {
    match token {
        RleToken::Dead => Some(RleElement::Dead(count)),
        RleToken::Alive => Some(RleElement::Alive(count)),
        RleToken::NewLine => Some(RleElement::NewLine(count)),
        RleToken::Number(_) => None,
        RleToken::End => None,
    }
}

/// The element that starts at `tokens[from]`, and how many tokens it takes: a number
/// with the run marker behind it, or one run marker or terminator alone.
pub open spec fn element_at(tokens: Seq<RleToken>, from: int) -> Option<(RleElement, int)>
    recommends
        0 <= from < tokens.len(),
{
    match tokens[from] {
        RleToken::Number(count) => if from + 1 < tokens.len() {
            match counted(tokens[from + 1], count) {
                Some(element) => Some((element, 2)),
                None => None,
            }
        } else {
            None
        },
        RleToken::End => Some((RleElement::End, 1)),
        marker => match counted(marker, 1) {
            Some(element) => Some((element, 1)),
            None => None,
        },
    }
}

/// `first` put before the elements of `rest`, where there are any.
pub open spec fn prepend_element(first: RleElement, rest: Option<Seq<RleElement>>) -> Option<
    Seq<RleElement>,
> {
    match rest {
        Some(elements) => Some(seq![first] + elements),
        None => None,
    }
}

/// The elements of `tokens[from..]`, where `ended` says that a terminator came
/// before. There are none where a number has no run marker behind it or a second
/// terminator comes.
pub open spec fn elements_from(tokens: Seq<RleToken>, from: int, ended: bool) -> Option<
    Seq<RleElement>,
>
    decreases tokens.len() - from,
{
    if from < 0 || from >= tokens.len() {
        Some(Seq::empty())
    } else {
        match element_at(tokens, from) {
            None => None,
            Some((element, taken)) => if element == RleElement::End && ended {
                None
            } else {
                prepend_element(
                    element,
                    elements_from(tokens, from + taken, ended || element == RleElement::End),
                )
            },
        }
    }
}

/// The elements of a token sequence.
pub open spec fn elements_of(tokens: Seq<RleToken>) -> Option<Seq<RleElement>> {
    elements_from(tokens, 0, false)
}

/// Gives a run marker its count.
pub fn with_count(token: RleToken, count: u32) -> (element: Option<RleElement>)
    ensures
        element == counted(token, count),
{
    match token {
        RleToken::Dead => Some(RleElement::Dead(count)),
        RleToken::Alive => Some(RleElement::Alive(count)),
        RleToken::NewLine => Some(RleElement::NewLine(count)),
        RleToken::Number(_) => None,
        RleToken::End => None,
    }
}

/// Reads the element that starts at `tokens[from]`.
pub fn read_element(tokens: &[RleToken], from: usize) -> (read: Option<(RleElement, usize)>)
    requires
        from < tokens@.len(),
    ensures
        match element_at(tokens@, from as int) {
            Some((element, taken)) => read == Some((element, taken as usize)) && 1 <= taken <= 2
                && from + taken <= tokens@.len(),
            None => read is None,
        },
{
    match tokens[from] {
        RleToken::Number(count) => {
            if from + 1 < tokens.len() {
                match with_count(tokens[from + 1], count) {
                    Some(element) => Some((element, 2)),
                    None => None,
                }
            } else {
                None
            }
        },
        RleToken::End => Some((RleElement::End, 1)),
        marker => match with_count(marker, 1) {
            Some(element) => Some((element, 1)),
            None => None,
        },
    }
}

/// Pairs counts with run markers. Returns `None` where a number is followed by
/// another number, by a terminator or by nothing, and where a second terminator comes.
pub fn parse_elements(tokens: &[RleToken]) -> (elements: Option<Vec<RleElement>>)
    ensures
        elements is Some <==> elements_of(tokens@) is Some,
        elements is Some ==> elements->0@ == elements_of(tokens@)->0,
{
    let mut out: Vec<RleElement> = Vec::new();
    let mut ended: bool = false;
    let mut i: usize = 0;
    while i < tokens.len()
        invariant
            i <= tokens@.len(),
            elements_of(tokens@) == match elements_from(tokens@, i as int, ended) {
                Some(rest) => Some(out@ + rest),
                None => None,
            },
        decreases tokens@.len() - i,
    {
        match read_element(tokens, i) {
            None => {
                return None;
            },
            Some((element, taken)) => {
                let is_end: bool = match element {
                    RleElement::End => true,
                    _ => false,
                };
                if is_end && ended {
                    return None;
                }
                proof {
                    match elements_from(tokens@, i + taken, ended || is_end) {
                        Some(rest) => {
                            assert(out@ + (seq![element] + rest) =~= out@.push(element) + rest);
                        },
                        None => {},
                    }
                }
                out.push(element);
                ended = ended || is_end;
                i = i + taken;
            },
        }
    }
    proof {
        assert(out@ + Seq::<RleElement>::empty() =~= out@);
    }
    Some(out)
}

} // verus!
