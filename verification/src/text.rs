//! Text primitives shared by the filter and the renderer: line splitting,
//! decimal numbers and padding, all stated over sequences of characters.
use vstd::prelude::*;

verus! {

/// `String::push` of the standard library appends the character to the end of
/// the string and leaves the rest as it was.
pub assume_specification[ String::push ](s: &mut String, c: char)
    ensures
        final(s)@ == old(s)@.push(c),
;

/// The views of a sequence of strings, one for one.
pub open spec fn views(v: Seq<String>) -> Seq<Seq<char>> {
    Seq::new(v.len(), |i: int| v[i]@)
}

/// Index of the first line feed in `s`, or the length of `s` if it has none.
pub open spec fn first_newline(s: Seq<char>) -> nat
    decreases s.len(),
{
    if s.len() == 0 || s[0] == '\n' {
        0
    } else {
        1 + first_newline(s.drop_first())
    }
}

/// A line without the carriage return that preceded its line feed.
pub open spec fn strip_cr(line: Seq<char>) -> Seq<char> {
    if line.len() > 0 && line.last() == '\r' {
        line.drop_last()
    } else {
        line
    }
}

/// The lines of a text. A line ends at a line feed, or at a carriage return
/// followed by a line feed; the terminator belongs to no line. Text after the
/// last line feed is a line of its own, so a final terminator is optional and
/// the empty text has no lines.
pub open spec fn lines_of(s: Seq<char>) -> Seq<Seq<char>>
    decreases s.len(),
{
    if s.len() == 0 {
        Seq::empty()
    } else {
        let k = first_newline(s);
        if k >= s.len() {
            seq![s]
        } else {
            seq![strip_cr(s.take(k as int))] + lines_of(s.skip(k as int + 1))
        }
    }
}

/// `first_newline` is the least index that holds a line feed.
pub proof fn lemma_first_newline(s: Seq<char>, k: int)
    requires
        0 <= k <= s.len(),
        forall|j: int| 0 <= j < k ==> s[j] != '\n',
        k < s.len() ==> s[k] == '\n',
    ensures
        first_newline(s) == k,
    decreases k,
{
    if k > 0 {
        let t = s.drop_first();
        assert forall|j: int| 0 <= j < k - 1 implies t[j] != '\n' by {
            assert(t[j] == s[j + 1]);
        }
        lemma_first_newline(t, k - 1);
    }
}

/// Splits a text into its lines.
pub fn split_lines(content: &str) -> (lines: Vec<String>)
    ensures
        views(lines@) == lines_of(content@),
{
    let mut lines: Vec<String> = Vec::new();
    let mut cur = String::new();
    let mut pending_cr = false;
    let mut open = false;
    let ghost s = content@;
    let ghost mut start: int = 0;
    proof {
        assert(s.skip(0) == s);
        assert(views(lines@) + lines_of(s) == lines_of(s));
    }
    for c in it: content.chars()
        invariant
            s == content@,
            it.seq() == s,
            0 <= start <= it.index() <= s.len(),
            open == (start < it.index()),
            s.subrange(start, it.index() as int) == (if pending_cr {
                cur@.push('\r')
            } else {
                cur@
            }),
            forall|j: int| start <= j < it.index() ==> s[j] != '\n',
            !pending_cr && cur@.len() > 0 ==> cur@.last() != '\r',
            lines_of(s) == views(lines@) + lines_of(s.skip(start)),
    {
        let ghost i = it.index() as int;
        assert(c == s[i]);
        if c == '\n' {
            proof {
                let t = s.skip(start);
                lemma_first_newline(t, i - start);
                assert(t.take(i - start) == s.subrange(start, i));
                assert(t.skip(i - start + 1) == s.skip(i + 1));
                assert(strip_cr(s.subrange(start, i)) == cur@) by {
                    if pending_cr {
                        assert(cur@.push('\r').drop_last() == cur@);
                    } else if cur@.len() > 0 {
                        assert(cur@.last() != '\r');
                    }
                }
                assert(views(lines@.push(cur)) == views(lines@) + seq![cur@]);
            }
            lines.push(cur);
            cur = String::new();
            pending_cr = false;
            open = false;
            proof {
                start = i + 1;
                assert(s.subrange(start, i + 1) == Seq::<char>::empty());
            }
        } else {
            if pending_cr {
                cur.push('\r');
            }
            if c == '\r' {
                pending_cr = true;
            } else {
                cur.push(c);
                pending_cr = false;
            }
            open = true;
            assert(s.subrange(start, i + 1) == s.subrange(start, i).push(c));
        }
    }
    if open {
        if pending_cr {
            cur.push('\r');
        }
        proof {
            let t = s.skip(start);
            lemma_first_newline(t, t.len() as int);
            assert(t == s.subrange(start, s.len() as int));
            assert(views(lines@.push(cur)) == views(lines@) + seq![cur@]);
        }
        lines.push(cur);
    } else {
        assert(s.skip(start).len() == 0);
    }
    lines
}

/// The character of a decimal digit.
pub open spec fn digit_char(d: nat) -> char {
    if d == 0 {
        '0'
    } else if d == 1 {
        '1'
    } else if d == 2 {
        '2'
    } else if d == 3 {
        '3'
    } else if d == 4 {
        '4'
    } else if d == 5 {
        '5'
    } else if d == 6 {
        '6'
    } else if d == 7 {
        '7'
    } else if d == 8 {
        '8'
    } else {
        '9'
    }
}

/// The decimal numeral of `n`, without sign or leading zeros.
pub open spec fn decimal(n: nat) -> Seq<char>
    decreases n,
{
    if n < 10 {
        seq![digit_char(n)]
    } else {
        decimal(n / 10).push(digit_char(n % 10))
    }
}

/// `count` spaces.
pub open spec fn spaces(count: nat) -> Seq<char> {
    Seq::new(count, |i: int| ' ')
}

/// `text` right-aligned in a field of `width` characters: spaces are put in
/// front of a shorter text, and a longer one is left whole.
pub open spec fn right_aligned(text: Seq<char>, width: nat) -> Seq<char> {
    if text.len() >= width {
        text
    } else {
        spaces((width - text.len()) as nat) + text
    }
}

fn digit_of(d: usize) -> (c: char)
    requires
        d < 10,
    ensures
        c == digit_char(d as nat),
{
    if d == 0 {
        '0'
    } else if d == 1 {
        '1'
    } else if d == 2 {
        '2'
    } else if d == 3 {
        '3'
    } else if d == 4 {
        '4'
    } else if d == 5 {
        '5'
    } else if d == 6 {
        '6'
    } else if d == 7 {
        '7'
    } else if d == 8 {
        '8'
    } else {
        '9'
    }
}

/// Appends the decimal numeral of `n` to `out`.
pub fn push_decimal(out: &mut String, n: usize)
    ensures
        final(out)@ == old(out)@ + decimal(n as nat),
    decreases n,
{
    if n >= 10 {
        push_decimal(out, n / 10);
    }
    out.push(digit_of(n % 10));
}

/// Appends the decimal numeral of `n` to `out`, right-aligned in a field of
/// `width` characters.
pub fn push_right_aligned(out: &mut String, n: usize, width: usize)
    ensures
        final(out)@ == old(out)@ + right_aligned(decimal(n as nat), width as nat),
{
    let mut digits = String::new();
    push_decimal(&mut digits, n);
    let len = digits.as_str().unicode_len();
    let ghost before = out@;
    let mut k: usize = len;
    while k < width
        invariant
            len <= k,
            len < width ==> k <= width,
            len >= width ==> k == len,
            out@ == before + spaces((k - len) as nat),
        decreases width - k,
    {
        out.push(' ');
        k += 1;
        assert(spaces((k - 1 - len) as nat).push(' ') == spaces((k - len) as nat));
    }
    out.append(digits.as_str());
    proof {
        let pad = spaces((k - len) as nat);
        assert(before + pad + digits@ == before + (pad + digits@));
        if len >= width {
            assert(pad + digits@ == digits@);
        }
    }
}

/// What `first_newline` finds: no line feed stands in front of it, and one
/// stands at it unless it is the length of the text.
pub proof fn lemma_first_newline_found(s: Seq<char>)
    ensures
        first_newline(s) <= s.len(),
        forall|j: int| 0 <= j < first_newline(s) ==> s[j] != '\n',
        first_newline(s) < s.len() ==> s[first_newline(s) as int] == '\n',
    decreases s.len(),
{
    if !(s.len() == 0 || s[0] == '\n') {
        let t = s.drop_first();
        lemma_first_newline_found(t);
        assert forall|j: int| 0 <= j < first_newline(s) implies s[j] != '\n' by {
            if j > 0 {
                assert(t[j - 1] == s[j]);
            }
        }
        if first_newline(s) < s.len() {
            assert(t[first_newline(t) as int] == s[first_newline(s) as int]);
        }
    }
}

/// No line of a text holds a line feed.
pub proof fn lemma_lines_hold_no_newline(s: Seq<char>)
    ensures
        forall|i: int| 0 <= i < lines_of(s).len() ==> !(#[trigger] lines_of(s)[i]).contains('\n'),
    decreases s.len(),
{
    if s.len() > 0 {
        lemma_first_newline_found(s);
        let k = first_newline(s) as int;
        if k < s.len() {
            let rest = s.skip(k + 1);
            lemma_lines_hold_no_newline(rest);
            let head = strip_cr(s.take(k));
            assert(!head.contains('\n')) by {
                if head.contains('\n') {
                    let j = choose|j: int| 0 <= j < head.len() && head[j] == '\n';
                    assert(head[j] == s[j]);
                }
            }
            assert forall|i: int| 0 <= i < lines_of(s).len() implies !(#[trigger] lines_of(
                s,
            )[i]).contains('\n') by {
                if i > 0 {
                    assert(lines_of(s)[i] == lines_of(rest)[i - 1]);
                }
            }
        } else {
            assert(!s.contains('\n')) by {
                if s.contains('\n') {
                    let j = choose|j: int| 0 <= j < s.len() && s[j] == '\n';
                }
            }
        }
    }
}

/// A decimal numeral holds digits only, and so no line feed.
pub proof fn lemma_decimal_holds_no_newline(n: nat)
    ensures
        !decimal(n).contains('\n'),
    decreases n,
{
    if n >= 10 {
        lemma_decimal_holds_no_newline(n / 10);
        let front = decimal(n / 10);
        if decimal(n).contains('\n') {
            let j = choose|j: int| 0 <= j < decimal(n).len() && decimal(n)[j] == '\n';
            if j < front.len() {
                assert(front[j] == '\n');
            }
        }
    } else {
        if decimal(n).contains('\n') {
            let j = choose|j: int| 0 <= j < decimal(n).len() && decimal(n)[j] == '\n';
        }
    }
}

} // verus!
