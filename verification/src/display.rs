//! The lines that show a leak to a reader.

use vstd::prelude::*;
use vstd::string::*;
use crate::report::{frame_views, Frame, FrameView, Leak, LeakView};
use crate::scan::{digits_value, is_digit, number_of};

verus! {

/// The character of the decimal digit `digit`.
pub open spec fn digit_of(digit: nat) -> char {
    if digit == 0 {
        '0'
    } else if digit == 1 {
        '1'
    } else if digit == 2 {
        '2'
    } else if digit == 3 {
        '3'
    } else if digit == 4 {
        '4'
    } else if digit == 5 {
        '5'
    } else if digit == 6 {
        '6'
    } else if digit == 7 {
        '7'
    } else if digit == 8 {
        '8'
    } else {
        '9'
    }
}

/// The decimal digits of `number`, without leading zeros.
pub open spec fn decimal_of(number: nat) -> Seq<char>
    decreases number,
{
    if number < 10 {
        seq![digit_of(number)]
    } else {
        decimal_of(number / 10).push(digit_of(number % 10))
    }
}

/// Gives the text of the decimal digit `digit`.
fn digit_text(digit: u64) -> (text: &'static str)
    requires
        digit < 10,
    ensures
        text@ == seq![digit_of(digit as nat)],
{
    proof {
        reveal_strlit("0");
        reveal_strlit("1");
        reveal_strlit("2");
        reveal_strlit("3");
        reveal_strlit("4");
        reveal_strlit("5");
        reveal_strlit("6");
        reveal_strlit("7");
        reveal_strlit("8");
        reveal_strlit("9");
    }
    let text = if digit == 0 {
        "0"
    } else if digit == 1 {
        "1"
    } else if digit == 2 {
        "2"
    } else if digit == 3 {
        "3"
    } else if digit == 4 {
        "4"
    } else if digit == 5 {
        "5"
    } else if digit == 6 {
        "6"
    } else if digit == 7 {
        "7"
    } else if digit == 8 {
        "8"
    } else {
        "9"
    };
    assert(text@ =~= seq![digit_of(digit as nat)]);
    text
}

/// Writes `number` in decimal digits.
pub fn decimal(number: u64) -> (text: String)
    ensures
        text@ == decimal_of(number as nat),
    decreases number,
{
    if number < 10 {
        String::from_str(digit_text(number))
    } else {
        let text = decimal(number / 10).concat(digit_text(number % 10));
        assert(text@ =~= decimal_of((number / 10) as nat).push(digit_of((number % 10) as nat)));
        text
    }
}

/// Reading the decimal digits of a number gives the number back.
pub proof fn lemma_decimal_round_trip(number: u64)
    ensures
        number_of(decimal_of(number as nat)) == Some(number),
{
    lemma_decimal_value(number as nat);
}

/// The decimal digits of a number are digits, at least one, and denote it.
pub proof fn lemma_decimal_value(number: nat)
    ensures
        decimal_of(number).len() > 0,
        forall|i: int| 0 <= i < decimal_of(number).len() ==> is_digit(#[trigger] decimal_of(number)[i]),
        digits_value(decimal_of(number)) == number,
    decreases number,
{
    let digits = decimal_of(number);
    if number < 10 {
        assert(digits.drop_last() =~= Seq::<char>::empty());
        assert(digits_value(digits.drop_last()) == 0);
        assert(digits.last() == digit_of(number));
    } else {
        lemma_decimal_value(number / 10);
        assert(digits.drop_last() =~= decimal_of(number / 10));
        assert(digits.last() == digit_of(number % 10));
    }
}

/// The text that shows a frame: its function and, where the file is known,
/// the file in brackets, with the line behind a colon where it is known.
pub open spec fn frame_text(frame: FrameView) -> Seq<char> {
    match frame.file {
        Some(file) => match frame.line {
            Some(line) => frame.function + " ("@ + file + ":"@ + decimal_of(line as nat) + ")"@,
            None => frame.function + " ("@ + file + ")"@,
        },
        None => frame.function,
    }
}

/// The lines that show a leak: the number of leaked bytes, then one line
/// for each frame of the call stack, in order.
pub open spec fn lines_of(leak: LeakView) -> Seq<Seq<char>> {
    seq!["Leaked "@ + decimal_of(leak.bytes as nat) + " bytes"@] + Seq::new(
        leak.stack.len(),
        |i: int| "at "@ + frame_text(leak.stack[i]),
    )
}

/// The texts of `lines`, in order.
pub open spec fn line_views(lines: Seq<String>) -> Seq<Seq<char>> {
    Seq::new(lines.len(), |i: int| lines[i]@)
}

/// Writes the text that shows `frame`.
pub fn describe(frame: &Frame) -> (text: String)
    ensures
        text@ == frame_text(frame@),
{
    let text = frame.function.clone();
    match &frame.file {
        Some(file) => {
            let text = text.concat(" (").concat(file.as_str());
            match frame.line {
                Some(line) => text.concat(":").concat(decimal(line).as_str()).concat(")"),
                None => text.concat(")"),
            }
        },
        None => text,
    }
}

/// Writes the lines that show `leak`.
pub fn lines(leak: &Leak) -> (lines: Vec<String>)
    ensures
        line_views(lines@) == lines_of(leak@),
{
    let stack = leak.back_trace();
    let mut lines: Vec<String> = Vec::new();
    lines.push(
        String::from_str("Leaked ").concat(decimal(leak.leaked_bytes()).as_str()).concat(" bytes"),
    );
    let mut i: usize = 0;
    while i < stack.len()
        invariant
            i <= stack.len(),
            lines@.len() == i + 1,
            frame_views(stack@) == leak@.stack,
            lines@[0]@ == "Leaked "@ + decimal_of(leak@.bytes as nat) + " bytes"@,
            forall|j: int|
                0 <= j < i ==> (#[trigger] lines@[j + 1])@ == "at "@ + frame_text(stack@[j]@),
        decreases stack.len() - i,
    {
        lines.push(String::from_str("at ").concat(describe(&stack[i]).as_str()));
        i += 1;
    }
    proof {
        assert(leak@.stack.len() == stack@.len());
        assert forall|j: int| 0 <= j < stack@.len() implies leak@.stack[j] == stack@[j]@ by {
            assert(frame_views(stack@)[j] == stack@[j]@);
        }
        assert forall|k: int| 0 <= k < lines@.len() implies line_views(lines@)[k] == lines_of(
            leak@,
        )[k] by {
            if k > 0 {
                assert(lines@[(k - 1) + 1]@ == "at "@ + frame_text(stack@[k - 1]@));
            }
        }
        assert(line_views(lines@) =~= lines_of(leak@));
    }
    lines
}

} // verus!
