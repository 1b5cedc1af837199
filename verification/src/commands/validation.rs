//! Checks shared by the commands that take line items: each line needs a
//! positive quantity and amounts that are not negative.
use vstd::prelude::*;
use crate::error::{AppError, validation};
use crate::text::{push_str, chars_of};

verus! {

/// What a line is checked on: its label, quantity, unit price and total.
pub type LineFacts = (Seq<char>, int, int, int);

/// The error text for one line, if it fails a check.
pub open spec fn line_error(line: LineFacts) -> Option<Seq<char>> {
    let (name, quantity, unit_price, line_total) = line;
    if quantity <= 0 {
        Some(name + ": quantity must be at least 1"@)
    } else if unit_price < 0 || line_total < 0 {
        Some(name + ": amounts cannot be negative"@)
    } else {
        None
    }
}

/// The error of the first line that fails a check, if any.
pub open spec fn first_line_error(lines: Seq<LineFacts>) -> Option<Seq<char>>
    decreases lines.len(),
{
    if lines.len() == 0 {
        None
    } else {
        match line_error(lines[0]) {
            Some(e) => Some(e),
            None => first_line_error(lines.skip(1)),
        }
    }
}

proof fn lemma_first_line_error_step(lines: Seq<LineFacts>, i: int)
    requires
        0 <= i < lines.len(),
        first_line_error(lines.take(i)) is None,
    ensures
        first_line_error(lines.take(i + 1)) == (match line_error(lines[i]) {
            Some(e) => Some(e),
            None => None::<Seq<char>>,
        }),
    decreases i,
{
    if i == 0 {
        assert(lines.take(1).skip(1) =~= Seq::<LineFacts>::empty());
        assert(first_line_error(Seq::<LineFacts>::empty()) is None);
        assert(lines.take(1)[0] == lines[0]);
    } else {
        assert(lines.take(i)[0] == lines[0]);
        assert(lines.take(i + 1)[0] == lines[0]);
        assert(line_error(lines[0]) is None);
        assert(lines.take(i).skip(1) =~= lines.skip(1).take(i - 1));
        assert(lines.take(i + 1).skip(1) =~= lines.skip(1).take(i));
        lemma_first_line_error_step(lines.skip(1), i - 1);
    }
}

proof fn lemma_first_line_error_found(lines: Seq<LineFacts>, i: int)
    requires
        0 <= i < lines.len(),
        first_line_error(lines.take(i)) is None,
        line_error(lines[i]) is Some,
    ensures
        first_line_error(lines) == line_error(lines[i]),
    decreases i,
{
    if i == 0 {
    } else {
        assert(lines.take(i)[0] == lines[0]);
        assert(lines.take(i).skip(1) =~= lines.skip(1).take(i - 1));
        lemma_first_line_error_found(lines.skip(1), i - 1);
    }
}

/// Checks the lines in order and reports the first that fails.
pub fn check_lines(names: &Vec<String>, facts: &Vec<(i64, i64, i64)>) -> (r: Result<(), AppError>)
    requires
        names@.len() == facts@.len(),
    ensures
        match first_line_error(Seq::new(names@.len(), |i: int| (names@[i]@, facts@[i].0 as int,
            facts@[i].1 as int, facts@[i].2 as int))) {
            None => r is Ok,
            Some(m) => r matches Err(AppError::Validation(t)) && t@ == m,
        },
{
    let ghost lines = Seq::new(names@.len(), |i: int| (names@[i]@, facts@[i].0 as int,
        facts@[i].1 as int, facts@[i].2 as int));
    let mut i: usize = 0;
    while i < names.len()
        invariant
            names@.len() == facts@.len(),
            i <= names@.len(),
            lines == Seq::new(names@.len(), |i: int| (names@[i]@, facts@[i].0 as int,
                facts@[i].1 as int, facts@[i].2 as int)),
            first_line_error(lines.take(i as int)) is None,
        decreases names@.len() - i,
    {
        let (quantity, unit_price, line_total) = facts[i];
        proof {
            lemma_first_line_error_step(lines, i as int);
        }
        if quantity <= 0 {
            let mut v: Vec<char> = chars_of(names[i].as_str());
            push_str(&mut v, ": quantity must be at least 1");
            proof {
                lemma_first_line_error_found(lines, i as int);
            }
            return Err(validation(&v));
        }
        if unit_price < 0 || line_total < 0 {
            let mut v: Vec<char> = chars_of(names[i].as_str());
            push_str(&mut v, ": amounts cannot be negative");
            proof {
                lemma_first_line_error_found(lines, i as int);
            }
            return Err(validation(&v));
        }
        i = i + 1;
    }
    assert(lines.take(names@.len() as int) =~= lines);
    Ok(())
}

} // verus!
