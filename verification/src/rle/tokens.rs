use vstd::prelude::*;
use crate::rle::header::{all_digits, decimal_value, is_digit};

verus! {

/// The class of a byte of the body. Adjacent bytes of one class form one token.
#[derive(Clone, Copy, Debug, PartialEq, Eq, Structural)]
pub enum RleCharacter {
    Number,
    NewLine,
    Dead,
    Alive,
    End,
}

/// A maximal run of bytes of one class.
#[derive(Clone, Copy, Debug, PartialEq, Eq, Structural)]
pub enum RleToken {
    Number(u32),
    NewLine,
    Dead,
    Alive,
    End,
}

/// The class of a byte: a decimal digit, `b`, `o`, `$` or `!`; any other byte has none.
pub open spec fn class_of(b: u8) -> Option<RleCharacter> {
    if is_digit(b) {
        Some(RleCharacter::Number)
    } else if b == 98 {
        Some(RleCharacter::Dead)
    } else if b == 111 {
        Some(RleCharacter::Alive)
    } else if b == 36 {
        Some(RleCharacter::NewLine)
    } else if b == 33 {
        Some(RleCharacter::End)
    } else {
        None
    }
}

/// Where the run of bytes of class `class` that covers `[.., at)` ends: the first
/// index at or behind `at` whose byte is of another class, or the length of the body.
pub open spec fn run_end(body: Seq<u8>, class: RleCharacter, at: int) -> int
    decreases body.len() - at,
{
    if at < 0 || at >= body.len() || class_of(body[at]) != Some(class) {
        at
    } else {
        run_end(body, class, at + 1)
    }
}

/// The token that a run of class `class` stands for. A run of digits is the number
/// it writes, and stands for no token where that number does not fit in 32 bits.
pub open spec fn token_of(class: RleCharacter, run: Seq<u8>) -> Option<RleToken> {
    match class {
        RleCharacter::Number => if decimal_value(run) <= u32::MAX {
            Some(RleToken::Number(decimal_value(run) as u32))
        } else {
            None
        },
        RleCharacter::NewLine => Some(RleToken::NewLine),
        RleCharacter::Dead => Some(RleToken::Dead),
        RleCharacter::Alive => Some(RleToken::Alive),
        RleCharacter::End => Some(RleToken::End),
    }
}

/// `first` put before the tokens of `rest`, where there are any.
pub open spec fn prepend_token(first: RleToken, rest: Option<Seq<RleToken>>) -> Option<
    Seq<RleToken>,
> {
    match rest {
        Some(tokens) => Some(seq![first] + tokens),
        None => None,
    }
}

/// The tokens of `body[from..]`: one for each maximal run of bytes of one class.
/// There are none where a byte has no class or a number is too large.
pub open spec fn tokens_from(body: Seq<u8>, from: int) -> Option<Seq<RleToken>>
    decreases body.len() - from,
{
    if from < 0 || from >= body.len() {
        Some(Seq::empty())
    } else {
        match class_of(body[from]) {
            None => None,
            Some(class) => {
                let end = run_end(body, class, from + 1);
                proof {
                    lemma_run_end_bounds(body, class, from + 1);
                }
                match token_of(class, body.subrange(from, end)) {
                    None => None,
                    Some(token) => prepend_token(token, tokens_from(body, end)),
                }
            },
        }
    }
}

/// The tokens of a body.
pub open spec fn tokens_of(body: Seq<u8>) -> Option<Seq<RleToken>> {
    tokens_from(body, 0)
}

/// A run ends behind where it started and inside the body.
pub proof fn lemma_run_end_bounds(body: Seq<u8>, class: RleCharacter, at: int)
    requires
        0 <= at <= body.len(),
    ensures
        at <= run_end(body, class, at) <= body.len(),
    decreases body.len() - at,
{
    if at < body.len() && class_of(body[at]) == Some(class) {
        lemma_run_end_bounds(body, class, at + 1);
    }
}

/// A number does not get smaller when digits are written behind it.
pub proof fn lemma_decimal_value_grows(digits: Seq<u8>, k: int)
    requires
        0 <= k <= digits.len(),
        all_digits(digits),
    ensures
        decimal_value(digits.subrange(0, k)) <= decimal_value(digits),
    decreases digits.len() - k,
{
    if k == digits.len() {
        assert(digits.subrange(0, k) =~= digits);
    } else {
        let front = digits.drop_last();
        assert(all_digits(front));
        lemma_decimal_value_grows(front, k);
        assert(front.subrange(0, k) =~= digits.subrange(0, k));
    }
}

/// The class of one byte, if it has one.
pub fn classify(b: u8) -> (class: Option<RleCharacter>)
    ensures
        class == class_of(b),
{
    if 48 <= b && b <= 57 {
        Some(RleCharacter::Number)
    } else if b == 98 {
        Some(RleCharacter::Dead)
    } else if b == 111 {
        Some(RleCharacter::Alive)
    } else if b == 36 {
        Some(RleCharacter::NewLine)
    } else if b == 33 {
        Some(RleCharacter::End)
    } else {
        None
    }
}

/// Reads the run of class `class` that starts at `from`: where it ends, and the
/// token it stands for.
pub fn read_run(body: &[u8], class: RleCharacter, from: usize) -> (run: (usize, Option<RleToken>))
    requires
        from < body@.len(),
        class_of(body@[from as int]) == Some(class),
    ensures
        run.0 == run_end(body@, class, from + 1),
        from < run.0 <= body@.len(),
        run.1 == token_of(class, body@.subrange(from as int, run.0 as int)),
{
    let mut end: usize = from;
    let mut value: u64 = 0;
    let mut fits: bool = true;
    proof {
        assert(body@.subrange(from as int, end as int) =~= Seq::<u8>::empty());
        assert(run_end(body@, class, from as int) == run_end(body@, class, from + 1));
    }
    while end < body.len() && classify(body[end]) == Some(class)
        invariant
            from <= end <= body@.len(),
            run_end(body@, class, from as int) == run_end(body@, class, end as int),
            forall|i: int| from <= i < end ==> class_of(#[trigger] body@[i]) == Some(class),
            fits && class == RleCharacter::Number ==> value == decimal_value(
                body@.subrange(from as int, end as int),
            ),
            value <= u32::MAX,
            !fits && class == RleCharacter::Number ==> exists|k: int|
                from <= k <= end && #[trigger] decimal_value(body@.subrange(from as int, k))
                    > u32::MAX,
        decreases body@.len() - end,
    {
        let b: u8 = body[end];
        proof {
            let next = body@.subrange(from as int, end + 1);
            assert(next.drop_last() =~= body@.subrange(from as int, end as int));
            assert(next.last() == b);
        }
        if fits {
            match class {
                RleCharacter::Number => {
                    let wider: u64 = value * 10 + (b - 48) as u64;
                    if wider > 0xffff_ffff {
                        fits = false;
                        assert(decimal_value(body@.subrange(from as int, end + 1)) > u32::MAX);
                    } else {
                        value = wider;
                    }
                },
                _ => {},
            }
        }
        end += 1;
    }
    let ghost whole = body@.subrange(from as int, end as int);
    proof {
        if class == RleCharacter::Number {
            assert(all_digits(whole)) by {
                assert forall|i: int| 0 <= i < whole.len() implies is_digit(#[trigger] whole[i]) by {
                    assert(class_of(body@[from + i]) == Some(class));
                }
            }
            if !fits {
                let k = choose|k: int|
                    from <= k <= end && #[trigger] decimal_value(body@.subrange(from as int, k))
                        > u32::MAX;
                assert(whole.subrange(0, k - from) =~= body@.subrange(from as int, k));
                lemma_decimal_value_grows(whole, k - from);
            }
        }
    }
    let token = match class {
        RleCharacter::Number => if fits {
            Some(RleToken::Number(value as u32))
        } else {
            None
        },
        RleCharacter::NewLine => Some(RleToken::NewLine),
        RleCharacter::Dead => Some(RleToken::Dead),
        RleCharacter::Alive => Some(RleToken::Alive),
        RleCharacter::End => Some(RleToken::End),
    };
    (end, token)
}

/// Groups the bytes of a body into tokens. Returns `None` where a byte has no
/// class or a number does not fit in 32 bits.
pub fn tokenize(body: &[u8]) -> (tokens: Option<Vec<RleToken>>)
    ensures
        tokens is Some <==> tokens_of(body@) is Some,
        tokens is Some ==> tokens->0@ == tokens_of(body@)->0,
{
    let mut out: Vec<RleToken> = Vec::new();
    let mut i: usize = 0;
    while i < body.len()
        invariant
            i <= body@.len(),
            tokens_of(body@) == match tokens_from(body@, i as int) {
                Some(rest) => Some(out@ + rest),
                None => None,
            },
        decreases body@.len() - i,
    {
        match classify(body[i]) {
            None => {
                return None;
            },
            Some(class) => {
                let (end, token) = read_run(body, class, i);
                match token {
                    None => {
                        return None;
                    },
                    Some(token) => {
                        proof {
                            match tokens_from(body@, end as int) {
                                Some(rest) => {
                                    assert(out@ + (seq![token] + rest) =~= out@.push(token) + rest);
                                },
                                None => {},
                            }
                        }
                        out.push(token);
                        i = end;
                    },
                }
            },
        }
    }
    proof {
        assert(out@ + Seq::<RleToken>::empty() =~= out@);
    }
    Some(out)
}

} // verus!
