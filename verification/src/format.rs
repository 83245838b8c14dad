//! The texts of a row: grouped score with combo, accuracy, completion date.

use crate::text::{
    decimal_string, decimal_text, find_char, first_index, natural_string, natural_text, split,
    split_text, texts,
};
use vstd::prelude::*;
use vstd::string::*;

verus! {

/// `t` with a comma before every group of three characters, counted from the
/// right. Texts of up to three characters stay as they are.
pub open spec fn grouped(t: Seq<char>) -> Seq<char>
    decreases t.len(),
{
    if t.len() <= 3 {
        t
    } else {
        grouped(t.take(t.len() - 3)) + seq![','] + t.skip(t.len() - 3)
    }
}

/// The line that shows a score and its combo: the grouped score, then the
/// combo reached and the highest combo of the beatmap, as
/// `1,234,567 (321x / 400x)`. The beatmap's combo is used as it was given.
pub open spec fn score_line(score: int, combo: int, max_combo: Seq<char>) -> Seq<char> {
    grouped(decimal_text(score)) + seq![' ', '('] + decimal_text(combo) + seq!['x', ' ', '/', ' ']
        + max_combo + seq!['x', ')']
}

/// A number below one hundred in two digits.
pub open spec fn two_digits(n: nat) -> Seq<char> {
    if n < 10 {
        seq!['0'] + natural_text(n)
    } else {
        natural_text(n)
    }
}

/// An accuracy given in hundredths of a percent, written with two decimals
/// and a percent sign: `9876` is `98.76%`.
pub open spec fn accuracy_text(hundredths: nat) -> Seq<char> {
    natural_text(hundredths / 100) + seq!['.'] + two_digits(hundredths % 100) + seq!['%']
}

/// `t` without one leading zero, if it has one.
pub open spec fn strip_zero(t: Seq<char>) -> Seq<char> {
    if t.len() > 0 && t[0] == '0' {
        t.skip(1)
    } else {
        t
    }
}

/// The date of a time stamp `YYYY-MM-DDTHH:MM:SS...`, as `D. M. YYYY`.
///
/// The date is what stands before the first `T`. Where it has exactly three
/// parts between hyphens, day and month lose one leading zero and the parts
/// are written in reverse, with `". "` between them. A stamp without a `T`, or
/// whose date does not have three parts, is returned as it is.
pub open spec fn short_date(stamp: Seq<char>) -> Seq<char> {
    let t = first_index(stamp, 'T');
    let parts = split(stamp.take(t), '-');
    if 0 <= t < stamp.len() && parts.len() == 3 {
        strip_zero(parts[2]) + seq!['.', ' '] + strip_zero(parts[1]) + seq!['.', ' '] + parts[0]
    } else {
        stamp
    }
}

/// Puts a comma before every group of three characters of `text`, counted
/// from the right.
pub fn group_digits(text: &str) -> (r: String)
    ensures
        r@ == grouped(text@),
    decreases text@.len(),
{
    let n: usize = text.unicode_len();
    if n <= 3 {
        String::from_str(text)
    } else {
        proof {
            reveal_strlit(",");
            assert(","@ =~= seq![',']);
            assert(text@.take(n - 3) =~= text@.subrange(0, n - 3));
            assert(text@.skip(n - 3) =~= text@.subrange(n - 3, n as int));
        }
        let mut out = group_digits(text.substring_char(0, n - 3));
        out.append(",");
        out.append(text.substring_char(n - 3, n));
        out
    }
}

/// Writes the line that shows a score and its combo.
pub fn score_with_combo(score: i64, combo: i32, max_combo: &str) -> (r: String)
    ensures
        r@ == score_line(score as int, combo as int, max_combo@),
{
    proof {
        reveal_strlit(" (");
        reveal_strlit("x / ");
        reveal_strlit("x)");
        assert(" ("@ =~= seq![' ', '(']);
        assert("x / "@ =~= seq!['x', ' ', '/', ' ']);
        assert("x)"@ =~= seq!['x', ')']);
    }
    let digits = decimal_string(score);
    let mut out = group_digits(digits.as_str());
    out.append(" (");
    let combo_text = decimal_string(combo as i64);
    out.append(combo_text.as_str());
    out.append("x / ");
    out.append(max_combo);
    out.append("x)");
    out
}

/// Writes an accuracy given in hundredths of a percent.
pub fn accuracy_string(hundredths: u32) -> (r: String)
    ensures
        r@ == accuracy_text(hundredths as nat),
{
    proof {
        reveal_strlit(".");
        reveal_strlit("0");
        reveal_strlit("%");
        assert("."@ =~= seq!['.']);
        assert("0"@ =~= seq!['0']);
        assert("%"@ =~= seq!['%']);
    }
    let whole: u32 = hundredths / 100;
    let part: u32 = hundredths % 100;
    let mut out = natural_string(whole as u64);
    out.append(".");
    if part < 10 {
        out.append("0");
    }
    let part_text = natural_string(part as u64);
    out.append(part_text.as_str());
    out.append("%");
    assert(out@ =~= accuracy_text(hundredths as nat));
    out
}

fn without_leading_zero(t: &str) -> (r: &str)
    ensures
        r@ == strip_zero(t@),
{
    let n: usize = t.unicode_len();
    if n > 0 && t.get_char(0) == '0' {
        assert(t@.skip(1) =~= t@.subrange(1, n as int));
        t.substring_char(1, n)
    } else {
        t
    }
}

/// Writes the date of a time stamp as `D. M. YYYY`, or the stamp itself where
/// it is not of the expected form.
pub fn format_date(ended_at: &str) -> (r: String)
    ensures
        r@ == short_date(ended_at@),
{
    let n: usize = ended_at.unicode_len();
    assert(ended_at@.skip(0) =~= ended_at@);
    let t: usize = find_char(ended_at, 'T', 0);
    if t >= n {
        return String::from_str(ended_at);
    }
    assert(ended_at@.take(t as int) =~= ended_at@.subrange(0, t as int));
    let parts = split_text(ended_at.substring_char(0, t), '-');
    assert(texts(parts@).len() == parts@.len());
    if parts.len() != 3 {
        return String::from_str(ended_at);
    }
    proof {
        reveal_strlit(". ");
        assert(". "@ =~= seq!['.', ' ']);
        assert(texts(parts@)[0] == parts@[0]@);
        assert(texts(parts@)[1] == parts@[1]@);
        assert(texts(parts@)[2] == parts@[2]@);
    }
    let mut out = String::from_str(without_leading_zero(parts[2].as_str()));
    out.append(". ");
    out.append(without_leading_zero(parts[1].as_str()));
    out.append(". ");
    out.append(parts[0].as_str());
    out
}

} // verus!
