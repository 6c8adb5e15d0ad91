//! Text primitives of the wire format: decimal numerals, escaping of tag
//! values and the joining of lines into one batch.

use vstd::prelude::*;

verus! {

/// The decimal digit that stands for `d`.
pub open spec fn digit_char(d: nat) -> char
    recommends
        d < 10,
{
    ('0' as nat + d) as char
}

/// The decimal numeral of `n`: no sign, no leading zero, `0` for zero.
pub open spec fn decimal(n: nat) -> Seq<char>
    decreases n,
{
    if n < 10 {
        seq![digit_char(n)]
    } else {
        decimal(n / 10).push(digit_char(n % 10))
    }
}

/// The number that a decimal digit stands for; `None` for any other
/// character.
pub open spec fn digit_value(c: char) -> Option<nat> {
    if '0' <= c <= '9' {
        Some((c as nat - '0' as nat) as nat)
    } else {
        None
    }
}

/// The number that a text of decimal digits stands for; `None` where the
/// text is empty or holds anything but digits.
pub open spec fn digits_value(text: Seq<char>) -> Option<nat>
    decreases text.len(),
{
    if text.len() == 0 {
        None
    } else if text.len() == 1 {
        digit_value(text[0])
    } else {
        match (digits_value(text.drop_last()), digit_value(text.last())) {
            (Some(high), Some(low)) => Some(10 * high + low),
            _ => None,
        }
    }
}

/// The unsigned number of 64 bits that a text stands for: decimal digits,
/// with or without one `+` before them; `None` where the text is of another
/// form or the number does not fit.
pub open spec fn parsed_u64(text: Seq<char>) -> Option<u64> {
    let digits = if text.len() > 0 && text[0] == '+' {
        text.skip(1)
    } else {
        text
    };
    match digits_value(digits) {
        Some(n) => if n <= u64::MAX {
            Some(n as u64)
        } else {
            None
        },
        None => None,
    }
}

/// Appends one character to `text`.
///
/// Trusted: wraps `String::push`, which std documents as appending the given
/// character to the end of the string.
#[verifier::external_body]
pub(crate) fn push_char(text: &mut String, c: char)
    ensures
        final(text)@ == old(text)@.push(c),
{
    text.push(c)
}

/// The decimal digit that stands for `d`.
pub fn digit(d: u8) -> (c: char)
    requires
        d < 10,
    ensures
        c == digit_char(d as nat),
{
    (48u8 + d) as char
}

/// Appends the decimal numeral of `n` to `out`.
pub fn push_decimal(out: &mut String, n: u128)
    ensures
        final(out)@ == old(out)@ + decimal(n as nat),
    decreases n,
{
    if n >= 10 {
        push_decimal(out, n / 10);
    }
    let d = (n % 10) as u8;
    push_char(out, digit(d));
    proof {
        if n >= 10 {
            assert(out@ =~= old(out)@ + decimal((n / 10) as nat).push(digit_char((n % 10) as nat)));
        } else {
            assert(out@ =~= old(out)@ + seq![digit_char(n as nat)]);
        }
    }
}

/// The decimal numeral of `n` as a string.
pub fn decimal_text(n: u128) -> (text: String)
    ensures
        text@ == decimal(n as nat),
{
    let mut text = String::new();
    push_decimal(&mut text, n);
    assert(text@ =~= decimal(n as nat));
    text
}

/// `s` with a backslash put before every space; every other character is
/// kept as it is.
pub open spec fn escaped(s: Seq<char>) -> Seq<char>
    decreases s.len(),
{
    if s.len() == 0 {
        Seq::empty()
    } else if s.last() == ' ' {
        escaped(s.drop_last()).push('\\').push(' ')
    } else {
        escaped(s.drop_last()).push(s.last())
    }
}

/// Escapes the spaces of a tag value.
pub fn escape_spaces(value: &str) -> (out: String)
    ensures
        out@ == escaped(value@),
{
    let mut out = String::new();
    for c in it: value.chars()
        invariant
            it.seq() == value@,
            out@ == escaped(value@.take(it.index() as int)),
    {
        proof {
            let next = value@.take(it.index() + 1);
            assert(next.drop_last() =~= value@.take(it.index() as int));
            assert(next.last() == c);
        }
        if c == ' ' {
            push_char(&mut out, '\\');
            push_char(&mut out, ' ');
        } else {
            push_char(&mut out, c);
        }
    }
    assert(value@.take(value@.len() as int) =~= value@);
    out
}

/// An escaped text holds no space but after a backslash.
pub proof fn lemma_escaped_has_no_bare_space(text: Seq<char>)
    ensures
        forall|i: int|
            0 <= i < escaped(text).len() && #[trigger] escaped(text)[i] == ' ' ==> i > 0
                && escaped(text)[i - 1] == '\\',
    decreases text.len(),
{
    if text.len() > 0 {
        let head = escaped(text.drop_last());
        lemma_escaped_has_no_bare_space(text.drop_last());
        assert forall|i: int|
            0 <= i < escaped(text).len() && #[trigger] escaped(text)[i] == ' ' implies i > 0
            && escaped(text)[i - 1] == '\\' by {
            if i < head.len() {
                assert(escaped(text)[i] == head[i]);
                assert(head[i] == ' ');
                assert(escaped(text)[i - 1] == head[i - 1]);
            }
        }
    }
}

/// A text without a space is left as it is.
pub proof fn lemma_escaped_without_space(text: Seq<char>)
    requires
        !text.contains(' '),
    ensures
        escaped(text) == text,
    decreases text.len(),
{
    if text.len() > 0 {
        let head = text.drop_last();
        assert forall|i: int| 0 <= i < head.len() implies head[i] != ' ' by {
            assert(text.contains(text[i]));
        }
        lemma_escaped_without_space(head);
        assert(text.contains(text.last()));
        assert(head.push(text.last()) =~= text);
    } else {
        assert(escaped(text) =~= text);
    }
}

/// The batch that `lines` make: a newline between each two lines, none
/// before the first and none after the last.
pub open spec fn joined(lines: Seq<Seq<char>>) -> Seq<char>
    decreases lines.len(),
{
    if lines.len() == 0 {
        Seq::empty()
    } else if lines.len() == 1 {
        lines[0]
    } else {
        joined(lines.drop_last()).push('\n') + lines.last()
    }
}

/// The lines that a batch falls into at its newlines. A batch without a
/// newline is one line, the empty batch too.
pub open spec fn split(batch: Seq<char>) -> Seq<Seq<char>>
    decreases batch.len(),
{
    if batch.len() == 0 {
        seq![Seq::empty()]
    } else {
        let before = split(batch.drop_last());
        if batch.last() == '\n' {
            before.push(Seq::empty())
        } else {
            before.drop_last().push(before.last().push(batch.last()))
        }
    }
}

/// A text without a newline is one line.
pub proof fn lemma_split_line(line: Seq<char>)
    requires
        !line.contains('\n'),
    ensures
        split(line) == seq![line],
    decreases line.len(),
{
    if line.len() > 0 {
        let head = line.drop_last();
        assert forall|i: int| 0 <= i < head.len() implies head[i] != '\n' by {
            assert(line.contains(line[i]));
        }
        lemma_split_line(head);
        assert(line.contains(line.last()));
        assert(head.push(line.last()) =~= line);
        assert(seq![head].last() == head);
        assert(seq![head].drop_last().push(line) =~= seq![line]);
    } else {
        assert(line =~= Seq::<char>::empty());
    }
}

/// A newline and a text without one add one line to a batch.
pub proof fn lemma_split_append(batch: Seq<char>, line: Seq<char>)
    requires
        !line.contains('\n'),
    ensures
        split(batch.push('\n') + line) == split(batch).push(line),
    decreases line.len(),
{
    let whole = batch.push('\n') + line;
    if line.len() == 0 {
        assert(whole =~= batch.push('\n'));
        assert(whole.drop_last() =~= batch);
        assert(line =~= Seq::<char>::empty());
    } else {
        let head = line.drop_last();
        assert forall|i: int| 0 <= i < head.len() implies head[i] != '\n' by {
            assert(line.contains(line[i]));
        }
        lemma_split_append(batch, head);
        assert(whole.drop_last() =~= batch.push('\n') + head);
        assert(line.contains(line.last()));
        assert(whole.last() == line.last());
        let before = split(batch).push(head);
        assert(before.drop_last() =~= split(batch));
        assert(head.push(line.last()) =~= line);
    }
}

/// A batch falls back into the lines that it was made of, as many as went
/// in and each as it was: no newline is missing, and none stands after the
/// last line. This holds of lines that hold no newline themselves.
pub proof fn lemma_joined_splits(lines: Seq<Seq<char>>)
    requires
        lines.len() > 0,
        forall|i: int| 0 <= i < lines.len() ==> !(#[trigger] lines[i]).contains('\n'),
    ensures
        split(joined(lines)) == lines,
        split(joined(lines)).len() == lines.len(),
    decreases lines.len(),
{
    if lines.len() == 1 {
        lemma_split_line(lines[0]);
        assert(seq![lines[0]] =~= lines);
    } else {
        let head = lines.drop_last();
        assert forall|i: int| 0 <= i < head.len() implies !(#[trigger] head[i]).contains('\n') by {
            assert(head[i] == lines[i]);
        }
        lemma_joined_splits(head);
        lemma_split_append(joined(head), lines.last());
        assert(head.push(lines.last()) =~= lines);
    }
}

} // verus!
